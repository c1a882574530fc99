use liboswo::select::{can_use, has_model};
use liboswo::{Cfgs, DesiredOutput, Mode, Output, Outputs, Scale};

fn sel_output(name: &str, model: &str) -> Output {
    let modes = vec![Mode { width: 1920, height: 1080, refresh: 60000 }];
    Output::new(name.to_owned(), model.to_owned(), (0, 0), (1920, 1080), Scale::new(1_000_000), true, modes)
}

fn sel_connected(models: &[&str]) -> Outputs {
    let list = models
        .iter()
        .enumerate()
        .map(|(i, model)| sel_output(&format!("DP-{}", i + 1), model))
        .collect();
    Outputs::new(list)
}

fn sel_profile(models: &[&str]) -> Vec<DesiredOutput> {
    models.iter().map(|m| DesiredOutput::new(m.to_string(), None).unwrap()).collect()
}

fn sel_store(profiles: &[(&str, &[&str])]) -> Cfgs {
    let mut store = Cfgs::new();
    for (name, models) in profiles {
        store.insert(name.to_string(), sel_profile(models));
    }
    store
}

#[test]
fn profile_that_fits_is_selected() {
    let store = sel_store(&[("work", &["Dell U2720Q", "LG 27UL"])]);
    let connected = sel_connected(&["Dell U2720Q", "LG 27UL"]);
    assert_eq!(store.select(&connected), Some("work".to_owned()));
}

#[test]
fn missing_output_means_no_profile() {
    let store = sel_store(&[("work", &["Dell U2720Q", "LG 27UL"])]);
    let connected = sel_connected(&["Dell U2720Q"]);
    assert_eq!(store.select(&connected), None);
}

#[test]
fn profile_with_the_most_entries_wins() {
    let store = sel_store(&[
        ("one", &["Dell U2720Q"]),
        ("three", &["Dell U2720Q", "LG 27UL", "Laptop"]),
        ("two", &["LG 27UL", "Dell U2720Q"]),
    ]);
    let connected = sel_connected(&["Laptop", "Dell U2720Q", "LG 27UL"]);
    assert_eq!(store.select(&connected), Some("three".to_owned()));
}

#[test]
fn larger_profile_that_cannot_be_used_does_not_win() {
    let store = sel_store(&[
        ("one", &["Dell U2720Q"]),
        ("three", &["Dell U2720Q", "LG 27UL", "Acme X1"]),
        ("two", &["LG 27UL", "Dell U2720Q"]),
    ]);
    let connected = sel_connected(&["Laptop", "Dell U2720Q", "LG 27UL"]);
    assert_eq!(store.select(&connected), Some("two".to_owned()));
}

#[test]
fn equal_profiles_are_told_apart_by_name() {
    let forwards = sel_store(&[("alpha", &["Dell U2720Q"]), ("beta", &["LG 27UL"])]);
    let backwards = sel_store(&[("beta", &["LG 27UL"]), ("alpha", &["Dell U2720Q"])]);
    let connected = sel_connected(&["LG 27UL", "Dell U2720Q"]);
    assert_eq!(forwards.select(&connected), Some("alpha".to_owned()));
    assert_eq!(backwards.select(&connected), Some("alpha".to_owned()));
}

#[test]
fn name_order_is_that_of_strings() {
    let store = sel_store(&[
        ("work2", &["Dell U2720Q"]),
        ("work", &["Dell U2720Q"]),
        ("Work", &["Dell U2720Q"]),
        ("xy", &["Dell U2720Q"]),
    ]);
    let connected = sel_connected(&["Dell U2720Q"]);
    assert_eq!(store.select(&connected), Some("Work".to_owned()));
}

#[test]
fn nothing_connected_leaves_the_empty_profile() {
    let store = sel_store(&[("work", &["Dell U2720Q"]), ("none", &[])]);
    assert_eq!(store.select(&sel_connected(&[])), Some("none".to_owned()));
    let without = sel_store(&[("work", &["Dell U2720Q"])]);
    assert_eq!(without.select(&sel_connected(&[])), None);
}

#[test]
fn empty_store_selects_nothing() {
    assert_eq!(Cfgs::new().select(&sel_connected(&["Dell U2720Q"])), None);
}

#[test]
fn selection_is_the_same_every_time() {
    let store = sel_store(&[("b", &["Dell U2720Q"]), ("a", &["Dell U2720Q"]), ("c", &["LG 27UL"])]);
    let connected = sel_connected(&["Dell U2720Q", "LG 27UL"]);
    let first = store.select(&connected);
    for _ in 0..5 {
        assert_eq!(store.select(&connected), first);
    }
    assert_eq!(first, Some("a".to_owned()));
}

#[test]
fn model_on_two_ports_counts_as_connected() {
    let store = sel_store(&[("twin", &["Dell U2720Q"])]);
    let connected = sel_connected(&["Dell U2720Q", "Dell U2720Q"]);
    assert_eq!(store.select(&connected), Some("twin".to_owned()));
}

#[test]
fn models_are_matched_exactly() {
    let connected = sel_connected(&["Dell U2720Q"]);
    assert!(has_model(&connected, "Dell U2720Q"));
    assert!(!has_model(&connected, "dell u2720q"));
    assert!(!has_model(&connected, "Dell U2720"));
    assert!(!has_model(&connected, "Dell U2720Q "));
    assert!(can_use(&connected, &sel_profile(&["Dell U2720Q", "Dell U2720Q"])));
    assert!(!can_use(&connected, &sel_profile(&["Dell U2720Q", "LG 27UL"])));
    assert!(can_use(&connected, &sel_profile(&[])));
}

#[test]
fn store_finds_what_was_inserted() {
    let mut store = sel_store(&[("work", &["Dell U2720Q"]), ("home", &["LG 27UL"])]);
    assert_eq!(store.len(), 2);
    assert_eq!(store.find("work"), Some(&sel_profile(&["Dell U2720Q"])));
    assert_eq!(store.find("home"), Some(&sel_profile(&["LG 27UL"])));
    assert_eq!(store.find("Work"), None);
    assert_eq!(store.find(""), None);
    store.insert("work".to_owned(), sel_profile(&["Laptop", "LG 27UL"]));
    assert_eq!(store.len(), 2);
    assert_eq!(store.find("work"), Some(&sel_profile(&["Laptop", "LG 27UL"])));
    assert_eq!(store.display(), "work:\n  Laptop (scale: 1)\n  LG 27UL (scale: 1)\nhome:\n  LG 27UL (scale: 1)\n");
}

#[test]
fn entries_need_a_name_and_a_scale_above_zero() {
    assert!(DesiredOutput::new(String::new(), None).is_none());
    assert!(DesiredOutput::new("Dell".to_owned(), Some(Scale::new(0))).is_none());
    assert!(DesiredOutput::new("Dell".to_owned(), Some(Scale::new(-1_000_000))).is_none());
    let entry = DesiredOutput::new("Dell".to_owned(), Some(Scale::new(1))).unwrap();
    assert_eq!(entry.name(), "Dell");
    assert_eq!(entry.scale(), Some(Scale::new(1)));
    let plain = DesiredOutput::new("Dell".to_owned(), None).unwrap();
    assert_eq!(plain.scale(), None);
    assert_eq!(plain.clone(), plain);
}
