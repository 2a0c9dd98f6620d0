use shortcut_artisan::chord::Chord;
use shortcut_artisan::registry::{HotkeyCall, HotkeyOutcome, HotkeyRegistry, RegistryError};

fn chord(text: &str) -> Chord {
    Chord::parse(text).unwrap()
}

/// Registers `c` the way the application does: unregistering first when needed.
fn register(reg: &mut HotkeyRegistry, c: Chord) -> Result<(), RegistryError> {
    if let HotkeyCall::Unregister(old) = reg.register_call(c) {
        reg.unregistered(old, HotkeyOutcome::Done)?;
    }
    reg.registered(c, HotkeyOutcome::Done)
}

#[test]
fn first_registration_installs() {
    let mut reg = HotkeyRegistry::new();
    let c = chord("Ctrl+A");
    assert_eq!(reg.register_call(c), HotkeyCall::Register(c));
    assert_eq!(reg.registered(c, HotkeyOutcome::Done), Ok(()));
    assert!(reg.is_registered(&c));
}

#[test]
fn registering_twice_keeps_one_registration() {
    let mut reg = HotkeyRegistry::new();
    let c = chord("Ctrl+Alt+U");
    register(&mut reg, c).unwrap();
    assert_eq!(reg.register_call(c), HotkeyCall::Unregister(c));
    register(&mut reg, c).unwrap();
    assert_eq!(reg.registered_chords().iter().filter(|x| **x == c).count(), 1);
    assert_eq!(reg.registered_chords().len(), 1);
}

#[test]
fn unregistering_an_unregistered_chord_is_a_no_op() {
    let reg = HotkeyRegistry::new();
    assert_eq!(reg.unregister_call(chord("Ctrl+B")), None);
}

#[test]
fn unregister_removes_only_that_chord() {
    let mut reg = HotkeyRegistry::new();
    let a = chord("Ctrl+A");
    let b = chord("Ctrl+B");
    register(&mut reg, a).unwrap();
    register(&mut reg, b).unwrap();
    assert_eq!(reg.unregister_call(a), Some(HotkeyCall::Unregister(a)));
    assert_eq!(reg.unregistered(a, HotkeyOutcome::Done), Ok(()));
    assert!(!reg.is_registered(&a));
    assert!(reg.is_registered(&b));
}

#[test]
fn failed_registration_is_reported() {
    let mut reg = HotkeyRegistry::new();
    let c = chord("Ctrl+C");
    assert_eq!(
        reg.registered(c, HotkeyOutcome::Failed("taken".to_string())),
        Err(RegistryError::RegistrationFailed("taken".to_string()))
    );
    assert!(!reg.is_registered(&c));
}

#[test]
fn failed_unregister_keeps_the_registration() {
    let mut reg = HotkeyRegistry::new();
    let c = chord("Ctrl+D");
    register(&mut reg, c).unwrap();
    assert_eq!(
        reg.unregistered(c, HotkeyOutcome::Failed("busy".to_string())),
        Err(RegistryError::UnregisterFailed("busy".to_string()))
    );
    assert!(reg.is_registered(&c));
}

#[test]
fn timeouts_are_reported() {
    let mut reg = HotkeyRegistry::new();
    let c = chord("Ctrl+E");
    assert_eq!(reg.registered(c, HotkeyOutcome::TimedOut), Err(RegistryError::Timeout));
    register(&mut reg, c).unwrap();
    assert_eq!(reg.unregistered(c, HotkeyOutcome::TimedOut), Err(RegistryError::Timeout));
    assert!(reg.is_registered(&c));
}
