use scrappy_core::KeyModifier;
use scrappy_core::Keystroke;

#[test]
fn from_char_takes_ascii_code() {
    assert_eq!(Keystroke::from_char('a').0, 97);
    assert_eq!(Keystroke::from_char('Z').0, 90);
    assert_eq!(Keystroke::from_char(' ').0, 32);
    assert_eq!(Keystroke::from_char('\n').0, 10);
}

#[test]
fn from_char_drops_non_ascii() {
    // A character outside printable or whitespace ASCII contributes no
    // code of its own.
    assert_eq!(Keystroke::from_char('\u{e9}').0, 0);
    assert_eq!(Keystroke::from_char('\u{7f}').0, 0);
}

#[test]
fn modifiers_combine_bitwise() {
    assert_eq!((KeyModifier::Ctrl + KeyModifier::Shift).0, 0x00050000);
    assert_eq!((KeyModifier::NoModifier + KeyModifier::Alt).0, 0x00080000);

    let k = KeyModifier::Ctrl + KeyModifier::Shift;
    assert_eq!((k + KeyModifier::Alt).0, 0x000d0000);
}

#[test]
fn ascii_key_replaces_keystroke_code() {
    // An ASCII key contributes its bare code, modifiers notwithstanding.
    assert_eq!((KeyModifier::Ctrl + 'x').0, 120);

    let k = KeyModifier::Ctrl + KeyModifier::Shift;
    assert_eq!((k + 'x').0, 120);

    // A non-key character leaves the keystroke as it was.
    let k = KeyModifier::Ctrl + KeyModifier::Shift;
    assert_eq!((k + '\u{e9}').0, 0x00050000);
    assert_eq!((KeyModifier::Alt + '\u{e9}').0, 0x00080000);
}
