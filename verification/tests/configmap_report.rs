use macgyver_rs::configmap::{print_entry, print_map, process, ConfigEntry, ConfigMap};

fn entry(key: &str, value: &str) -> ConfigEntry {
    ConfigEntry { key: key.to_string(), value: value.to_string() }
}

#[test]
fn entry_is_set_in_two_columns() {
    assert_eq!(print_entry(&entry("LOG_LEVEL", "debug")), format!("      {0:_<50} {1: <10}", "LOG_LEVEL", "debug"));
    assert_eq!(print_entry(&entry("LOG_LEVEL", "debug")), format!("      LOG_LEVEL{} debug     ", "_".repeat(41)));
    assert_eq!(print_entry(&entry("", "")), format!("      {} {}", "_".repeat(50), " ".repeat(10)));
}

#[test]
fn map_shows_name_entries_and_an_empty_line() {
    let map = ConfigMap {
        name: Some("settings".into()),
        data: Some(vec![entry("A", "1"), entry("B", "a long value that is not cut")]),
    };
    assert_eq!(
        print_map(&map),
        vec![
            "settings: ".to_string(),
            format!("      {0:_<50} {1: <10}", "A", "1"),
            format!("      {0:_<50} {1: <10}", "B", "a long value that is not cut"),
            String::new(),
        ]
    );
}

#[test]
fn map_without_data_says_none() {
    let map = ConfigMap { name: Some("empty".into()), data: None };
    assert_eq!(print_map(&map), vec!["empty: ".to_string(), "      None".to_string(), String::new()]);
}

#[test]
fn map_with_no_entries_shows_only_its_name() {
    let map = ConfigMap { name: Some("bare".into()), data: Some(Vec::new()) };
    assert_eq!(print_map(&map), vec!["bare: ".to_string(), String::new()]);
}

#[test]
fn map_without_name_shows_nothing() {
    let map = ConfigMap { name: None, data: Some(vec![entry("A", "1")]) };
    assert_eq!(print_map(&map), Vec::<String>::new());
}

#[test]
fn report_goes_map_by_map() {
    let maps = vec![
        ConfigMap { name: Some("one".into()), data: None },
        ConfigMap { name: None, data: None },
        ConfigMap { name: Some("two".into()), data: Some(vec![entry("K", "V")]) },
    ];
    assert_eq!(
        process("QA", &maps),
        vec![
            "ENVIRONMENT: QA".to_string(),
            "one: ".to_string(),
            "      None".to_string(),
            String::new(),
            "two: ".to_string(),
            format!("      {0:_<50} {1: <10}", "K", "V"),
            String::new(),
        ]
    );
    assert_eq!(process("QA", &Vec::new()), vec!["ENVIRONMENT: QA".to_string()]);
}
