use redlight::config::Config;

#[test]
fn defaults_are_off() {
    assert_eq!(Config::default(), Config { auto_on_start: false, start_on_boot: false });
}

#[test]
fn load_keeps_stored_settings() {
    let c = Config { auto_on_start: true, start_on_boot: false };
    assert_eq!(Config::load(Some(c)), c);
}

#[test]
fn load_without_settings_gives_defaults() {
    assert_eq!(Config::load(None), Config::default());
}
