use redlight::filter::{ColorEffect, RedFilter};

#[test]
fn starts_off() {
    let f = RedFilter::new(true);
    assert!(!f.is_active());
    assert!(f.is_initialized());
}

#[test]
fn requests_red_to_turn_on_and_identity_to_turn_off() {
    let f = RedFilter::new(true);
    assert_eq!(f.effect_for(true), Some(ColorEffect::RedOnly));
    assert_eq!(f.effect_for(false), Some(ColorEffect::Identity));
}

#[test]
fn applied_set_takes_effect() {
    let mut f = RedFilter::new(true);
    f.set(true, true);
    assert!(f.is_active());
    f.set(false, true);
    assert!(!f.is_active());
}

#[test]
fn failed_set_changes_nothing() {
    let mut f = RedFilter::new(true);
    f.set(true, false);
    assert!(!f.is_active());
    f.set(true, true);
    f.set(false, false);
    assert!(f.is_active());
}

#[test]
fn uninitialized_filter_does_nothing() {
    let mut f = RedFilter::new(false);
    assert_eq!(f.effect_for(true), None);
    f.set(true, true);
    assert!(!f.is_active());
    assert!(!f.shutdown(true));
}

#[test]
fn shutdown_restores_and_releases() {
    let mut f = RedFilter::new(true);
    f.set(true, true);
    assert!(f.shutdown(true));
    assert!(!f.is_active());
    assert!(!f.is_initialized());
    assert_eq!(f.effect_for(true), None);
    f.set(true, true);
    assert!(!f.is_active());
    assert!(!f.shutdown(true));
}

#[test]
fn shutdown_with_failed_restore_keeps_active_flag() {
    let mut f = RedFilter::new(true);
    f.set(true, true);
    assert!(f.shutdown(false));
    assert!(f.is_active());
    assert!(!f.is_initialized());
}

#[test]
fn setting_twice_is_setting_once() {
    let mut f = RedFilter::new(true);
    f.set(true, true);
    f.set(true, true);
    assert!(f.is_active());
    f.set(true, false);
    assert!(f.is_active());
}

#[test]
fn active_follows_last_effective_request() {
    let mut f = RedFilter::new(true);
    f.set(true, true); // takes effect: on
    f.set(false, false); // rejected
    f.set(true, true); // takes effect: on
    f.set(false, false); // rejected
    assert!(f.is_active());
    f.set(false, true); // takes effect: off
    f.set(true, false); // rejected
    assert!(!f.is_active());
    f.set(true, true);
    assert!(f.shutdown(true)); // takes effect: off
    f.set(true, true); // after shutdown: nothing
    assert!(!f.is_active());
}
