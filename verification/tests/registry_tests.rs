use mod_installer::errors::Error;
use mod_installer::registry::{cancel_install, BeginStatus, KeyRegistry};

#[test]
fn begin_tracking_sets_count_once() {
    let mut reg = KeyRegistry::new();
    let key = String::from("mod-a");
    assert_eq!(reg.begin_tracking(&key), BeginStatus::Started);
    assert!(reg.is_active(&key));
}

#[test]
fn begin_tracking_twice_is_a_no_op() {
    let mut reg = KeyRegistry::new();
    let key = String::from("mod-a");
    assert_eq!(reg.begin_tracking(&key), BeginStatus::Started);
    assert_eq!(reg.begin_tracking(&key), BeginStatus::AlreadyInProgress);
    assert!(reg.is_active(&key));
    // One decrement fully releases the key: the count never exceeded 1.
    assert!(reg.cancel(&key).is_ok());
    assert!(!reg.is_active(&key));
}

#[test]
fn cancel_untracked_key_fails_key_not_tracked() {
    let mut reg = KeyRegistry::new();
    let key = String::from("ghost");
    let r = reg.cancel(&key);
    assert!(matches!(r, Err(Error::KeyNotTracked)));
    assert!(!reg.is_active(&key));
}

#[test]
fn cancel_failure_does_not_mutate() {
    let mut reg = KeyRegistry::new();
    let kept = String::from("kept");
    let missing = String::from("ghost");
    reg.begin_tracking(&kept);
    let r = reg.cancel(&missing);
    assert!(matches!(r, Err(Error::KeyNotTracked)));
    // The unrelated tracked key is untouched by the failed request.
    assert!(reg.is_active(&kept));
}

#[test]
fn cancel_released_key_fails_again() {
    let mut reg = KeyRegistry::new();
    let key = String::from("mod-b");
    reg.begin_tracking(&key);
    assert!(reg.cancel(&key).is_ok());
    // The zero-count entry was removed, so a second cancel sees no key.
    let r = reg.cancel(&key);
    assert!(matches!(r, Err(Error::KeyNotTracked)));
}

#[test]
fn keys_are_independent() {
    let mut reg = KeyRegistry::new();
    let a = String::from("a");
    let b = String::from("b");
    reg.begin_tracking(&a);
    reg.begin_tracking(&b);
    assert!(reg.cancel(&a).is_ok());
    assert!(!reg.is_active(&a));
    assert!(reg.is_active(&b));
}

#[test]
fn release_after_completion_matches_cancel() {
    let mut reg = KeyRegistry::new();
    let key = String::from("done");
    reg.begin_tracking(&key);
    assert!(reg.release_after_completion(&key).is_ok());
    assert!(!reg.is_active(&key));
    assert!(matches!(reg.release_after_completion(&key), Err(Error::KeyNotTracked)));
}

#[test]
fn cancel_install_is_a_thin_wrapper() {
    let mut reg = KeyRegistry::new();
    let key = String::from("wrapped");
    assert!(matches!(cancel_install(&mut reg, &key), Err(Error::KeyNotTracked)));
    reg.begin_tracking(&key);
    assert!(cancel_install(&mut reg, &key).is_ok());
    assert!(!reg.is_active(&key));
}
