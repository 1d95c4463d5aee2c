use redlight::config::Config;
use redlight::filter::{ColorEffect, RedFilter};
use redlight::tray::{tray_tip, App};

fn app(auto: bool, stored_boot: bool, registered: bool) -> App {
    App::new(Config { auto_on_start: auto, start_on_boot: stored_boot }, registered, RedFilter::new(true))
}

#[test]
fn tooltip_text() {
    assert_eq!(tray_tip(true), "RedLight — ON  (Alt+F11)");
    assert_eq!(tray_tip(false), "RedLight — OFF  (Alt+F11)");
}

#[test]
fn registry_overrides_stored_boot_flag() {
    let a = app(true, false, true);
    assert_eq!(a.config, Config { auto_on_start: true, start_on_boot: true });
    assert!(a.auto_checked && a.boot_checked && !a.filter_checked);
    let a = app(false, true, false);
    assert_eq!(a.config, Config { auto_on_start: false, start_on_boot: false });
    assert!(!a.boot_checked);
}

#[test]
fn launch_turns_filter_on_when_asked() {
    let mut a = app(true, false, false);
    let on = a.launch_filter_state();
    assert!(on);
    assert_eq!(a.filter.effect_for(on), Some(ColorEffect::RedOnly));
    let tip = a.set_filter(on, true);
    assert_eq!(tip, "RedLight — ON  (Alt+F11)");
    assert!(a.filter.is_active() && a.filter_checked);
    assert!(!app(false, false, false).launch_filter_state());
}

#[test]
fn toggle_twice_round_trips() {
    let mut a = app(false, false, false);
    let on = a.toggle_target();
    assert!(on);
    a.set_filter(on, true);
    let off = a.toggle_target();
    assert!(!off);
    a.set_filter(off, true);
    assert!(!a.filter.is_active());
}

#[test]
fn failed_apply_still_checks_item() {
    let mut a = app(false, false, false);
    let tip = a.set_filter(true, false);
    assert!(a.filter_checked);
    assert!(!a.filter.is_active());
    assert_eq!(tip, "RedLight — ON  (Alt+F11)");
}

#[test]
fn turn_on_at_launch_flips_and_saves() {
    let mut a = app(false, true, true);
    let saved = a.toggle_auto();
    assert_eq!(saved, Config { auto_on_start: true, start_on_boot: true });
    assert!(a.auto_checked);
    let saved = a.toggle_auto();
    assert_eq!(saved, Config { auto_on_start: false, start_on_boot: true });
    assert!(!a.auto_checked);
}

#[test]
fn start_with_windows_follows_registry_outcome() {
    let mut a = app(false, false, false);
    let enable = a.boot_target();
    assert!(enable);
    assert_eq!(a.boot_result(enable, false), None);
    assert!(!a.config.start_on_boot && !a.boot_checked);
    assert_eq!(a.boot_result(enable, true), Some(Config { auto_on_start: false, start_on_boot: true }));
    assert!(a.config.start_on_boot && a.boot_checked);
    assert!(!a.boot_target());
}
