use liboswo::{Cfgs, DaemonState, DesiredOutput, Mode, Output, OutputAction, Outputs, Scale, Step};

fn seen(name: &str, model: &str, enabled: bool) -> Output {
    let modes = vec![Mode { width: 1920, height: 1080, refresh: 60000 }];
    Output::new(
        name.to_owned(),
        model.to_owned(),
        (0, 0),
        (1920, 1080),
        Scale::new(1_000_000),
        enabled,
        modes,
    )
}

fn laptop_only() -> Outputs {
    Outputs::new(vec![seen("eDP-1", "Laptop", true)])
}

fn docked() -> Outputs {
    Outputs::new(vec![seen("eDP-1", "Laptop", true), seen("DP-1", "Dell U2720Q", false)])
}

fn profiles() -> Cfgs {
    let entry = |model: &str| DesiredOutput::new(model.to_owned(), None).unwrap();
    let mut store = Cfgs::new();
    store.insert("docked".to_owned(), vec![entry("Dell U2720Q"), entry("Laptop")]);
    store.insert("mobile".to_owned(), vec![entry("Laptop")]);
    store
}

fn docked_plan() -> Vec<OutputAction> {
    vec![
        OutputAction::Enable {
            name: "DP-1".to_owned(),
            position: (0, 0),
            resolution: (1920, 1080),
            scale: Scale::new(1_000_000),
        },
        OutputAction::Enable {
            name: "eDP-1".to_owned(),
            position: (1920, 0),
            resolution: (1920, 1080),
            scale: Scale::new(1_000_000),
        },
    ]
}

#[test]
fn repeated_snapshot_is_dropped() {
    let mut state = DaemonState::new(laptop_only());
    assert_eq!(state.on_change(&profiles(), laptop_only()), Step::Unchanged);
    assert_eq!(state.last(), &laptop_only());
}

#[test]
fn new_snapshot_brings_the_best_profile() {
    let mut state = DaemonState::new(laptop_only());
    let step = state.on_change(&profiles(), docked());
    assert_eq!(step, Step::Apply { profile: "docked".to_owned(), actions: docked_plan() });
    assert_eq!(state.last(), &laptop_only());
    state.on_applied(true);
    assert_eq!(state.last(), &docked());
    assert_eq!(state.on_change(&profiles(), docked()), Step::Unchanged);
}

#[test]
fn failed_plan_leaves_the_last_snapshot() {
    let mut state = DaemonState::new(laptop_only());
    assert!(matches!(state.on_change(&profiles(), docked()), Step::Apply { .. }));
    state.on_applied(false);
    assert_eq!(state.last(), &laptop_only());
    assert!(matches!(state.on_change(&profiles(), docked()), Step::Apply { .. }));
}

#[test]
fn daemon_does_nothing_without_a_profile() {
    let entry = |model: &str| DesiredOutput::new(model.to_owned(), None).unwrap();
    let mut store = Cfgs::new();
    store.insert("work".to_owned(), vec![entry("Dell U2720Q"), entry("LG 27UL")]);
    let mut state = DaemonState::new(laptop_only());
    let dell_only = Outputs::new(vec![seen("DP-1", "Dell U2720Q", true)]);
    assert_eq!(state.on_change(&store, dell_only), Step::NoProfile);
    assert_eq!(state.last(), &laptop_only());
    state.on_applied(true);
    assert_eq!(state.last(), &laptop_only());
    assert_eq!(state.on_change(&store, laptop_only()), Step::Unchanged);
}

#[test]
fn report_without_a_plan_changes_nothing() {
    let mut state = DaemonState::new(laptop_only());
    state.on_applied(true);
    assert_eq!(state.last(), &laptop_only());
}

#[test]
fn later_snapshot_replaces_an_unanswered_one() {
    let mut state = DaemonState::new(laptop_only());
    assert!(matches!(state.on_change(&profiles(), docked()), Step::Apply { .. }));
    assert_eq!(state.on_change(&profiles(), laptop_only()), Step::Unchanged);
    state.on_applied(true);
    assert_eq!(state.last(), &laptop_only());
}

#[test]
fn snapshots_are_compared_in_full() {
    let base = || seen("eDP-1", "Laptop", true);
    let same = Outputs::new(vec![base()]);
    assert_eq!(same, Outputs::new(vec![base()]));
    assert_ne!(same, Outputs::new(vec![base().disabled()]));
    assert_ne!(same, Outputs::new(vec![base().with_scale(Scale::new(2_000_000))]));
    assert_ne!(same, Outputs::new(vec![seen("eDP-2", "Laptop", true)]));
    assert_ne!(same, Outputs::new(vec![seen("eDP-1", "laptop", true)]));
    assert_ne!(same, Outputs::new(vec![base(), base()]));
    assert_ne!(same, Outputs::new(vec![]));
    let moved = Output::new(
        "eDP-1".to_owned(),
        "Laptop".to_owned(),
        (1, 0),
        (1920, 1080),
        Scale::new(1_000_000),
        true,
        vec![Mode { width: 1920, height: 1080, refresh: 60000 }],
    );
    assert_ne!(base(), moved);
    let other_modes = Output::new(
        "eDP-1".to_owned(),
        "Laptop".to_owned(),
        (0, 0),
        (1920, 1080),
        Scale::new(1_000_000),
        true,
        vec![Mode { width: 1920, height: 1080, refresh: 59940 }],
    );
    assert_ne!(base(), other_modes);
    assert_eq!(base().disabled().enabled(), base());
    assert_eq!(base().clone(), base());
    assert_eq!(Outputs::from_slice(&[base(), moved.clone()]), Outputs::new(vec![base(), moved]));
}

#[test]
fn output_tells_what_it_was_made_of() {
    let out = seen("eDP-1", "Laptop", false).with_scale(Scale::new(1_250_000));
    assert_eq!(out.name(), "eDP-1");
    assert_eq!(out.model(), "Laptop");
    assert_eq!(out.position(), (0, 0));
    assert_eq!(out.resolution(), (1920, 1080));
    assert_eq!(out.scale(), Scale::new(1_250_000));
    assert!(!out.is_enabled());
    assert!(out.enabled().is_enabled());
    assert_eq!(seen("a", "b", true).modes(), &vec![Mode { width: 1920, height: 1080, refresh: 60000 }]);
    assert_eq!(Mode { width: 1920, height: 1080, refresh: 1 }.pixels(), 2_073_600);
    assert_eq!(Mode { width: u32::MAX, height: u32::MAX, refresh: 1 }.pixels(), 18446744065119617025);
}

#[test]
fn output_from_a_report() {
    let set = Mode { width: 2560, height: 1440, refresh: 59951 };
    let modes = vec![Mode { width: 3840, height: 2160, refresh: 60000 }, set];
    let out = Output::reported(
        "DP-1".to_owned(),
        "Dell Inc.",
        "U2720Q",
        (1920, -10),
        Some(set),
        Some(Scale::new(1_500_000)),
        true,
        modes.clone(),
    );
    let same = Output::new(
        "DP-1".to_owned(),
        "Dell Inc. U2720Q".to_owned(),
        (1920, -10),
        (2560, 1440),
        Scale::new(1_500_000),
        true,
        modes,
    );
    assert_eq!(out, same);
    let off = Output::reported("DP-2".to_owned(), "", "", (0, 0), None, None, false, Vec::new());
    assert_eq!(off.model(), " ");
    assert_eq!(off.resolution(), (0, 0));
    assert_eq!(off.scale(), Scale::new(1_000_000));
    assert!(!off.is_enabled());
}
