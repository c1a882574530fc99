use liboswo::{Applicator, ApplyError, CoreError, OutputAction, PlanError, Scale};

fn on(name: &str, x: u128, resolution: (u32, u32), millionths: i64) -> OutputAction {
    OutputAction::Enable {
        name: name.to_owned(),
        position: (x, 0),
        resolution,
        scale: Scale::new(millionths),
    }
}

fn off(name: &str) -> OutputAction {
    OutputAction::Disable { name: name.to_owned() }
}

fn three() -> Vec<OutputAction> {
    vec![off("HDMI-A-1"), on("DP-1", 0, (3840, 2160), 1_000_000), on("eDP-1", 3840, (1920, 1200), 1_500_000)]
}

#[test]
fn command_of_an_action() {
    assert_eq!(off("HDMI-A-1").command(), "output HDMI-A-1 disable");
    assert_eq!(
        on("DP-1", 0, (3840, 2160), 1_000_000).command(),
        "output DP-1 enable position 0 0 resolution 3840x2160 scale 1"
    );
    assert_eq!(
        on("eDP-1", 3840, (1920, 1200), 1_500_000).command(),
        "output eDP-1 enable position 3840 0 resolution 1920x1200 scale 1.5"
    );
    assert_eq!(
        on("A", 0, (0, 0), -1_000_000).command(),
        "output A enable position 0 0 resolution 0x0 scale -1"
    );
    let far = OutputAction::Enable {
        name: "B".to_owned(),
        position: (u128::MAX, 10),
        resolution: (u32::MAX, 1),
        scale: Scale::new(1_250_000),
    };
    assert_eq!(
        far.command(),
        "output B enable position 340282366920938463463374607431768211455 10 resolution 4294967295x1 scale 1.25"
    );
    assert_eq!(far.name(), "B");
    assert_eq!(off("C").name(), "C");
    assert_eq!(far.clone(), far);
}

#[test]
fn commands_go_out_in_order() {
    let mut run = Applicator::new(three());
    let mut sent = Vec::new();
    while let Some(command) = run.next_command() {
        assert_eq!(run.outcome(), None);
        sent.push(command);
        run.record(true);
    }
    assert_eq!(
        sent,
        vec![
            "output HDMI-A-1 disable",
            "output DP-1 enable position 0 0 resolution 3840x2160 scale 1",
            "output eDP-1 enable position 3840 0 resolution 1920x1200 scale 1.5",
        ]
    );
    assert_eq!(run.outcome(), Some(Ok(())));
    run.record(false);
    assert_eq!(run.outcome(), Some(Ok(())));
    assert_eq!(run.next_command(), None);
}

#[test]
fn command_is_repeated_until_it_is_answered() {
    let run = Applicator::new(three());
    assert_eq!(run.next_command(), run.next_command());
    assert_eq!(run.next_command(), Some("output HDMI-A-1 disable".to_owned()));
}

#[test]
fn first_refusal_ends_the_run() {
    let mut run = Applicator::new(three());
    assert!(run.next_command().is_some());
    run.record(true);
    assert!(run.next_command().is_some());
    run.record(false);
    assert_eq!(run.next_command(), None);
    let failure = ApplyError {
        index: 1,
        name: "DP-1".to_owned(),
        command: "output DP-1 enable position 0 0 resolution 3840x2160 scale 1".to_owned(),
    };
    assert_eq!(run.outcome(), Some(Err(failure)));
    run.record(true);
    run.record(true);
    assert_eq!(run.next_command(), None);
    assert!(matches!(run.outcome(), Some(Err(ApplyError { index: 1, .. }))));
}

#[test]
fn refusal_of_the_first_command() {
    let mut run = Applicator::new(three());
    run.record(false);
    let failure = ApplyError {
        index: 0,
        name: "HDMI-A-1".to_owned(),
        command: "output HDMI-A-1 disable".to_owned(),
    };
    assert_eq!(run.outcome(), Some(Err(failure)));
}

#[test]
fn empty_plan_is_done_at_once() {
    let mut run = Applicator::new(Vec::new());
    assert_eq!(run.next_command(), None);
    assert_eq!(run.outcome(), Some(Ok(())));
    run.record(false);
    assert_eq!(run.outcome(), Some(Ok(())));
}

#[test]
fn messages_of_the_errors() {
    assert_eq!(
        CoreError::UnresolvedIdentity("Acme X1".to_owned()).message(),
        "Display 'Acme X1' is not connected"
    );
    assert_eq!(CoreError::ProfileNotFound("home".to_owned()).message(), "Found no setup for 'home'");
    assert_eq!(CoreError::NoMatchingOutputs.message(), "None of the named outputs is connected");
    assert_eq!(CoreError::NoEligibleProfile.message(), "No setup fits the connected displays");
    assert_eq!(CoreError::TransportFatal.message(), "Lost the connection to the compositor");
    let failure = ApplyError { index: 2, name: "DP-1".to_owned(), command: "output DP-1 disable".to_owned() };
    assert_eq!(
        CoreError::Transport(failure).message(),
        "Output 'DP-1' refused the command 'output DP-1 disable'"
    );
    assert_eq!(
        PlanError::UnresolvedIdentity("Acme X1".to_owned()).message(),
        "Display 'Acme X1' is not connected"
    );
    assert_eq!(PlanError::NoMatchingOutputs.message(), "None of the named outputs is connected");
    assert_eq!(
        PlanError::UnresolvedIdentity("Acme X1".to_owned()).into_core(),
        CoreError::UnresolvedIdentity("Acme X1".to_owned())
    );
    assert_eq!(PlanError::NoMatchingOutputs.into_core(), CoreError::NoMatchingOutputs);
}
