use liboswo::{Cfgs, DesiredOutput, Mode, Output, Outputs, Scale};

fn row(name: &str, model: &str, position: (i32, i32), resolution: (u32, u32), scale: i64) -> Output {
    Output::new(
        name.to_owned(),
        model.to_owned(),
        position,
        resolution,
        Scale::new(scale),
        true,
        Vec::new(),
    )
}

#[test]
fn outputs_padding() {
    let output = Output::new(
        "1234".to_owned(),
        "model".to_owned(),
        (0, 0),
        (0, 0),
        Scale::new(1_000_000),
        true,
        Vec::new(),
    );
    let display = output.display(false, 8);
    assert_eq!(&display[..10], "1234:     ");
}

#[test]
fn show_padding() {
    let output =
        Output::new("1234".to_owned(), String::new(), (0, 0), (0, 0), Scale::new(1_000_000), true, Vec::new());
    let display = output.display(false, 8);
    assert_eq!(&display[..10], "1234:     ");
}

#[test]
fn line_of_an_output() {
    let output = row("1234", "model", (0, 0), (0, 0), 1_000_000);
    assert_eq!(
        output.display(false, 8),
        "1234:     position:    0/0, resolution:       0x0, scale: 1.0, model: model"
    );
    assert_eq!(
        output.display(false, 0),
        "1234: position:    0/0, resolution:       0x0, scale: 1.0, model: model"
    );
}

#[test]
fn line_with_wide_columns() {
    let output = row("DP-1", "Dell Inc. U2720Q", (-1920, 12345), (3840, 2160), 1_500_000);
    assert_eq!(
        output.display(false, 4),
        "DP-1: position: -1920/12345, resolution: 3840x2160, scale: 1.5, model: Dell Inc. U2720Q"
    );
    let far = row("DP-1", "m", (i32::MIN, i32::MAX), (u32::MAX, u32::MAX), 1_000_000);
    assert_eq!(
        far.display(false, 2),
        "DP-1: position: -2147483648/2147483647, resolution: 4294967295x4294967295, scale: 1.0, model: m"
    );
}

#[test]
fn line_with_modes() {
    let modes = vec![
        Mode { width: 1920, height: 1080, refresh: 60000 },
        Mode { width: 1280, height: 720, refresh: 59940 },
        Mode { width: 640, height: 480, refresh: 59951 },
        Mode { width: 800, height: 600, refresh: 75 },
        Mode { width: 1, height: 2, refresh: 0 },
    ];
    let output = Output::new(
        "eDP-1".to_owned(),
        "Laptop".to_owned(),
        (0, 0),
        (1920, 1080),
        Scale::new(2_000_000),
        true,
        modes,
    );
    assert_eq!(
        output.display(true, 5),
        "eDP-1: position:    0/0, resolution: 1920x1080, scale: 2.0, model: Laptop, modes: , \
         1920x1080 (60 Hz), 1280x720 (59.94 Hz), 640x480 (59.951 Hz), 800x600 (0.075 Hz), 1x2 (0 Hz)"
    );
    assert_eq!(
        output.display(false, 5),
        "eDP-1: position:    0/0, resolution: 1920x1080, scale: 2.0, model: Laptop"
    );
    let bare = row("A", "m", (0, 0), (0, 0), 1_000_000);
    assert!(bare.display(true, 0).ends_with("model: m, modes: "));
}

#[test]
fn listing_pads_to_the_longest_name() {
    let outputs = Outputs::new(vec![
        row("eDP-1", "Laptop", (0, 0), (1920, 1200), 1_000_000),
        row("HDMI-A-1", "Beamer", (1920, 0), (1280, 720), 1_250_000),
        row("X", "Off", (0, 0), (0, 0), -1_000_000),
    ]);
    assert_eq!(outputs.longest_name(), 8);
    assert_eq!(
        outputs.display(false),
        "eDP-1:    position:    0/0, resolution: 1920x1200, scale: 1.0, model: Laptop\n\
         HDMI-A-1: position: 1920/0, resolution:  1280x720, scale: 1.2, model: Beamer\n\
         X:        position:    0/0, resolution:       0x0, scale: -1.0, model: Off\n"
    );
    assert_eq!(outputs.display(true), outputs.display(false).replace('\n', ", modes: \n"));
    assert_eq!(Outputs::new(vec![]).display(false), "");
    assert_eq!(Outputs::new(vec![]).longest_name(), 0);
}

#[test]
fn names_are_padded_by_their_bytes() {
    let outputs = Outputs::new(vec![
        row("äö", "a", (0, 0), (0, 0), 1_000_000),
        row("abc", "b", (0, 0), (0, 0), 1_000_000),
    ]);
    assert_eq!(outputs.longest_name(), 4);
    let text = outputs.display(false);
    let lines: Vec<&str> = text.lines().collect();
    assert!(lines[0].starts_with("äö: position:"));
    assert!(lines[1].starts_with("abc:  position:"));
}

#[test]
fn scale_in_a_listing_has_one_digit() {
    let shown = |millionths: i64| Scale::new(millionths).text_tenths();
    assert_eq!(shown(1_000_000), "1.0");
    assert_eq!(shown(1_500_000), "1.5");
    assert_eq!(shown(1_250_000), "1.2");
    assert_eq!(shown(1_750_000), "1.8");
    assert_eq!(shown(1_250_001), "1.3");
    assert_eq!(shown(1_249_999), "1.2");
    assert_eq!(shown(1_950_000), "2.0");
    assert_eq!(shown(9_960_000), "10.0");
    assert_eq!(shown(0), "0.0");
    assert_eq!(shown(49_999), "0.0");
    assert_eq!(shown(50_000), "0.0");
    assert_eq!(shown(50_001), "0.1");
    assert_eq!(shown(-1_000_000), "-1.0");
    assert_eq!(shown(-40_000), "-0.0");
    assert_eq!(shown(i64::MAX), "9223372036854.8");
    assert_eq!(shown(i64::MIN), "-9223372036854.8");
}

#[test]
fn scale_in_a_command_is_as_short_as_can_be() {
    let written = |millionths: i64| Scale::new(millionths).text();
    assert_eq!(written(1_000_000), "1");
    assert_eq!(written(1_500_000), "1.5");
    assert_eq!(written(1_250_000), "1.25");
    assert_eq!(written(2_000_000), "2");
    assert_eq!(written(1_333_333), "1.333333");
    assert_eq!(written(1_050_000), "1.05");
    assert_eq!(written(1_000_001), "1.000001");
    assert_eq!(written(1_000_010), "1.00001");
    assert_eq!(written(500_000), "0.5");
    assert_eq!(written(0), "0");
    assert_eq!(written(-1_000_000), "-1");
    assert_eq!(written(-1_500_000), "-1.5");
    assert_eq!(written(i64::MAX), "9223372036854.775807");
    assert_eq!(written(i64::MIN), "-9223372036854.775808");
    assert_eq!(Scale::default(), Scale::new(1_000_000));
    assert_eq!(Scale::new(-3).magnitude(), 3);
    assert_eq!(Scale::new(i64::MIN).magnitude(), 1u64 << 63);
}

#[test]
fn entry_of_a_profile() {
    let plain = DesiredOutput::new("Dell U2720Q".to_owned(), None).unwrap();
    assert_eq!(plain.display(), "Dell U2720Q (scale: 1)");
    let scaled = DesiredOutput::new("LG 27UL".to_owned(), Some(Scale::new(1_500_000))).unwrap();
    assert_eq!(scaled.display(), "LG 27UL (scale: 1.5)");
}

#[test]
fn listing_of_the_store() {
    let mut store = Cfgs::new();
    assert_eq!(store.display(), "");
    store.insert(
        "work".to_owned(),
        vec![
            DesiredOutput::new("Dell U2720Q".to_owned(), None).unwrap(),
            DesiredOutput::new("LG 27UL".to_owned(), Some(Scale::new(1_500_000))).unwrap(),
        ],
    );
    store.insert("home".to_owned(), vec![DesiredOutput::new("Laptop".to_owned(), None).unwrap()]);
    store.insert("none".to_owned(), vec![]);
    assert_eq!(
        store.display(),
        "work:\n  Dell U2720Q (scale: 1)\n  LG 27UL (scale: 1.5)\nhome:\n  Laptop (scale: 1)\nnone:\n  \n"
    );
}
