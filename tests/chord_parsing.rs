use shortcut_artisan::chord::{
    classify_token, same_text, split_on_plus, Chord, KeyCode, ModifierKey, Modifiers, ParseError,
    Token,
};

fn mods(ctrl: bool, alt: bool, shift: bool, super_key: bool) -> Modifiers {
    Modifiers { ctrl, alt, shift, super_key }
}

#[test]
fn parses_ctrl_alt_letter() {
    let c = Chord::parse("Ctrl+Alt+U").unwrap();
    assert_eq!(c, Chord { modifiers: mods(true, true, false, false), key: KeyCode::Letter('U') });
}

#[test]
fn case_blanks_and_aliases_do_not_matter() {
    let a = Chord::parse("Control+A");
    let b = Chord::parse("Ctrl+A");
    let c = Chord::parse("ConTroL + a");
    assert_eq!(a, b);
    assert_eq!(b, c);
    assert_eq!(b, Ok(Chord { modifiers: mods(true, false, false, false), key: KeyCode::Letter('A') }));
}

#[test]
fn super_aliases_agree() {
    let expected = Ok(Chord { modifiers: mods(false, false, false, true), key: KeyCode::Digit('1') });
    assert_eq!(Chord::parse("Cmd+1"), expected);
    assert_eq!(Chord::parse("windows+1"), expected);
    assert_eq!(Chord::parse("SUPER + 1"), expected);
}

#[test]
fn lower_case_and_padding_are_normalised() {
    assert_eq!(
        Chord::parse("  shift + ctrl +  z "),
        Ok(Chord { modifiers: mods(true, false, true, false), key: KeyCode::Letter('Z') })
    );
}

#[test]
fn repeated_modifiers_are_idempotent() {
    assert_eq!(Chord::parse("Ctrl+Ctrl+Control+A"), Chord::parse("Ctrl+A"));
}

#[test]
fn modifier_order_does_not_matter() {
    assert_eq!(Chord::parse("Alt+Shift+K"), Chord::parse("Shift+Alt+K"));
}

#[test]
fn rejects_empty_text() {
    assert_eq!(Chord::parse(""), Err(ParseError::InvalidKey));
}

#[test]
fn rejects_lone_plus() {
    assert_eq!(Chord::parse("+"), Err(ParseError::InvalidKey));
}

#[test]
fn rejects_modifiers_without_key() {
    assert_eq!(Chord::parse("Ctrl"), Err(ParseError::MissingKey));
    assert_eq!(Chord::parse("Ctrl+Shift"), Err(ParseError::MissingKey));
}

#[test]
fn rejects_two_keys() {
    assert_eq!(Chord::parse("A+B"), Err(ParseError::AmbiguousKey));
    assert_eq!(Chord::parse("Ctrl+A+Space"), Err(ParseError::AmbiguousKey));
}

#[test]
fn rejects_unknown_key() {
    assert_eq!(Chord::parse("Ctrl+Invalid"), Err(ParseError::InvalidKey));
    assert_eq!(Chord::parse("Ctrl+F13"), Err(ParseError::InvalidKey));
}

#[test]
fn bare_key_is_a_chord() {
    assert_eq!(Chord::parse("A"), Ok(Chord { modifiers: mods(false, false, false, false), key: KeyCode::Letter('A') }));
}

#[test]
fn named_keys() {
    assert_eq!(Chord::parse("Shift+Space").unwrap().key, KeyCode::Space);
    assert_eq!(Chord::parse("Enter").unwrap().key, KeyCode::Enter);
    assert_eq!(Chord::parse("alt+tab").unwrap().key, KeyCode::Tab);
    assert_eq!(Chord::parse("Esc").unwrap().key, KeyCode::Escape);
    assert_eq!(Chord::parse("Escape").unwrap().key, KeyCode::Escape);
    assert_eq!(Chord::parse("Alt+0").unwrap().key, KeyCode::Digit('0'));
}

#[test]
fn split_keeps_empty_pieces() {
    assert_eq!(split_on_plus("a++b"), vec!["a", "", "b"]);
    assert_eq!(split_on_plus(""), vec![""]);
    assert_eq!(split_on_plus("+"), vec!["", ""]);
}

#[test]
fn classify_tokens() {
    assert_eq!(classify_token("CONTROL"), Token::Modifier(ModifierKey::Ctrl));
    assert_eq!(classify_token("CMD"), Token::Modifier(ModifierKey::Super));
    assert_eq!(classify_token("Q"), Token::Key(KeyCode::Letter('Q')));
    assert_eq!(classify_token("q"), Token::Unknown);
    assert_eq!(classify_token(""), Token::Unknown);
}

#[test]
fn same_text_compares_characters() {
    assert!(same_text("ALT", "ALT"));
    assert!(!same_text("ALT", "ALTS"));
    assert!(!same_text("ALT", "ALP"));
}
