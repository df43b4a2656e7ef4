use devnotes::config::{string_optional, Config};

#[test]
fn default_is_everything_off() {
    let c = Config::default();
    assert_eq!(c.edit_app(), "");
    assert_eq!(c.default_name(), "");
    assert!(!c.include_time());
    assert!(!c.group_by_date());
    assert!(!c.no_empty_adds_or_updates());
}

#[test]
fn getters_hand_the_settings_back() {
    let c = Config::new(
        String::from("vim"),
        String::from("daily"),
        true,
        true,
        true,
    );
    assert_eq!(c.edit_app(), "vim");
    assert_eq!(c.default_name(), "daily");
    assert!(c.include_time());
    assert!(c.group_by_date());
    assert!(c.no_empty_adds_or_updates());
}

#[test]
fn string_optional_drops_the_empty_string() {
    assert_eq!(string_optional(String::new()), None);
    assert_eq!(string_optional(String::from("x")), Some(String::from("x")));
}
