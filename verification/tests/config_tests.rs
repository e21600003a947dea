use dlink_wm::config::{
    clone_names, create_default_config_if_missing, get_default_config_path, names_contain,
    DlinkWMConfig, DynamicConfig,
};
use dlink_wm::watch::{ChangeKind, WatchEvent, WatchStep};
use std::cell::Cell;

fn names(list: &[&str]) -> Vec<String> {
    list.iter().map(|name| name.to_string()).collect()
}

fn config_of(entries: &[(&str, &[&str])]) -> DlinkWMConfig {
    DlinkWMConfig::from_entries(
        entries.iter().map(|(path, list)| (path.to_string(), names(list))).collect(),
    )
}

fn sorted_entries(config: &DlinkWMConfig) -> Vec<(String, Vec<String>)> {
    let mut entries = config.entries();
    entries.sort();
    entries
}

fn modified() -> WatchEvent {
    WatchEvent::Changed { kind: ChangeKind::DataModified, paths: names(&["dlinkwm.toml"]) }
}

#[test]
fn default_config_path_is_dlinkwm_toml() {
    assert_eq!(get_default_config_path(), "dlinkwm.toml");
}

#[test]
fn default_config_is_created_only_when_missing() {
    assert!(create_default_config_if_missing(true).is_none());
    let config = create_default_config_if_missing(false).expect("a default to write");
    assert!(config.entries().is_empty());
}

#[test]
fn default_config_permits_nothing() {
    let config = DlinkWMConfig::default();
    assert!(config.entries().is_empty());
    assert!(config.entry_functions_for("a.mod").is_empty());
    assert!(config.entry_functions_for("").is_empty());
}

#[test]
fn entry_functions_keep_their_order() {
    let config = config_of(&[("a.mod", &["foo", "bar", "foo"]), ("b.mod", &[])]);
    assert_eq!(config.entry_functions_for("a.mod"), names(&["foo", "bar", "foo"]));
    assert!(config.entry_functions_for("b.mod").is_empty());
    assert!(config.entry_functions_for("c.mod").is_empty());
    assert!(config.entry_functions_for("A.mod").is_empty());
}

#[test]
fn the_last_entry_of_a_path_counts() {
    let config = config_of(&[("a.mod", &["foo"]), ("b.mod", &["x"]), ("a.mod", &["bar", "baz"])]);
    assert_eq!(config.entry_functions_for("a.mod"), names(&["bar", "baz"]));
    assert_eq!(config.entry_functions_for("b.mod"), names(&["x"]));
    assert_eq!(
        sorted_entries(&config),
        vec![("a.mod".to_string(), names(&["bar", "baz"])), ("b.mod".to_string(), names(&["x"]))]
    );
}

#[test]
fn a_copy_of_a_config_permits_the_same() {
    let config = config_of(&[("a.mod", &["foo"]), ("b.mod", &["x", "y"])]);
    let copy = config.clone();
    assert_eq!(sorted_entries(&copy), sorted_entries(&config));
    assert_eq!(copy.entry_functions_for("b.mod"), names(&["x", "y"]));
}

#[test]
fn the_table_of_a_config_is_readable() {
    let config = config_of(&[("a.mod", &["foo"])]);
    assert!(config.entry_functions.contains_key("a.mod"));
    assert!(!config.entry_functions.contains_key("b.mod"));
    assert_eq!(config.entry_functions.get("a.mod"), Some(&names(&["foo"])));
    assert_eq!(config.entry_functions.get("b.mod"), None);
    assert_eq!(config.entry_functions.keys(), names(&["a.mod"]));
}

#[test]
fn names_are_found_by_their_text() {
    let list = names(&["foo", "bar"]);
    assert!(names_contain(&list, "foo"));
    assert!(names_contain(&list, "bar"));
    assert!(!names_contain(&list, "fo"));
    assert!(!names_contain(&list, "Foo"));
    assert!(!names_contain(&list, ""));
    assert!(!names_contain(&Vec::new(), "foo"));
    assert_eq!(clone_names(&list), list);
}

#[test]
fn a_missing_file_loads_as_the_empty_config() {
    let parse = |_text: &str| -> Result<DlinkWMConfig, String> { Err("not asked".to_string()) };
    let config = DlinkWMConfig::load_from_file(None, &parse).expect("the empty config");
    assert!(config.entries().is_empty());
}

#[test]
fn the_text_of_a_file_is_handed_to_the_parser() {
    let seen = Cell::new(0usize);
    let parse = |text: &str| -> Result<DlinkWMConfig, String> {
        seen.set(text.len());
        if text == "good" {
            Ok(config_of(&[("a.mod", &["foo"])]))
        } else {
            Err(format!("cannot parse '{}'", text))
        }
    };
    let config = DlinkWMConfig::load_from_file(Some("good"), &parse).expect("a config");
    assert_eq!(seen.get(), 4);
    assert_eq!(config.entry_functions_for("a.mod"), names(&["foo"]));
    let error = DlinkWMConfig::load_from_file(Some("bad"), &parse).expect_err("an error");
    assert_eq!(error, "cannot parse 'bad'");
}

#[test]
fn a_store_answers_from_its_snapshot() {
    let store = DynamicConfig::new("conf/dlinkwm.toml", config_of(&[("a.mod", &["foo"])]));
    assert_eq!(store.config_path(), "conf/dlinkwm.toml");
    assert_eq!(store.get_entry_functions_for_file("a.mod"), names(&["foo"]));
    assert!(store.get_entry_functions_for_file("b.mod").is_empty());
    assert_eq!(store.get_config().entry_functions_for("a.mod"), names(&["foo"]));
}

#[test]
fn a_reload_that_succeeds_replaces_the_whole_snapshot() {
    let mut store = DynamicConfig::new("c.toml", config_of(&[("a.mod", &["foo"]), ("b.mod", &["x"])]));
    assert!(store.apply_reload(Ok(config_of(&[("a.mod", &["bar"])]))));
    assert_eq!(store.get_entry_functions_for_file("a.mod"), names(&["bar"]));
    assert!(store.get_entry_functions_for_file("b.mod").is_empty());
    assert_eq!(store.config_path(), "c.toml");
}

#[test]
fn a_reload_that_fails_keeps_the_snapshot() {
    let mut store = DynamicConfig::new("c.toml", config_of(&[("a.mod", &["foo"])]));
    assert!(!store.apply_reload(Err("broken file".to_string())));
    assert_eq!(store.get_entry_functions_for_file("a.mod"), names(&["foo"]));
}

#[test]
fn a_modification_reloads_the_config() {
    let mut store = DynamicConfig::new("c.toml", config_of(&[("a.mod", &["foo"])]));
    let asked = Cell::new(0u32);
    let load = |path: &str| -> Result<DlinkWMConfig, String> {
        assert_eq!(path, "c.toml");
        asked.set(asked.get() + 1);
        Ok(config_of(&[("a.mod", &["bar"])]))
    };
    assert_eq!(store.handle_watch_event(&modified(), &load), WatchStep::Continue);
    assert_eq!(asked.get(), 1);
    assert_eq!(store.get_entry_functions_for_file("a.mod"), names(&["bar"]));

    let renamed = WatchEvent::Changed { kind: ChangeKind::OtherModified, paths: Vec::new() };
    assert_eq!(store.handle_watch_event(&renamed, &load), WatchStep::Continue);
    assert_eq!(asked.get(), 2);
}

#[test]
fn a_modification_that_cannot_be_read_keeps_the_snapshot() {
    let mut store = DynamicConfig::new("c.toml", config_of(&[("a.mod", &["foo"])]));
    let load = |_path: &str| -> Result<DlinkWMConfig, String> { Err("half written".to_string()) };
    assert_eq!(store.handle_watch_event(&modified(), &load), WatchStep::Continue);
    assert_eq!(store.get_entry_functions_for_file("a.mod"), names(&["foo"]));
}

#[test]
fn other_messages_do_not_reload_the_config() {
    let mut store = DynamicConfig::new("c.toml", config_of(&[("a.mod", &["foo"])]));
    let asked = Cell::new(0u32);
    let load = |_path: &str| -> Result<DlinkWMConfig, String> {
        asked.set(asked.get() + 1);
        Ok(DlinkWMConfig::default())
    };
    let created = WatchEvent::Changed { kind: ChangeKind::Other, paths: names(&["c.toml"]) };
    assert_eq!(store.handle_watch_event(&created, &load), WatchStep::Continue);
    let failed = WatchEvent::Failed { cause: "queue overflow".to_string() };
    assert_eq!(store.handle_watch_event(&failed, &load), WatchStep::Continue);
    assert_eq!(store.handle_watch_event(&WatchEvent::Closed, &load), WatchStep::Stop);
    assert_eq!(asked.get(), 0);
    assert_eq!(store.get_entry_functions_for_file("a.mod"), names(&["foo"]));
}
