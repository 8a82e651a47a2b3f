use paste_clipboard::keymap::{char_to_key_event, device_keys, Key, KeySpec};

const SHIFTED_SYMBOLS: &str = "!@#$%^&*()_+{}|:\"~<>?";
const PLAIN_SYMBOLS: &str = "-=[]\\;'`,./";

fn supported_chars() -> Vec<char> {
    let mut v: Vec<char> = ('a'..='z').chain('A'..='Z').chain('0'..='9').collect();
    v.extend(SHIFTED_SYMBOLS.chars());
    v.extend(PLAIN_SYMBOLS.chars());
    v.extend([' ', '\n', '\t']);
    v
}

#[test]
fn mapping_is_stable_across_calls() {
    for b in 0u32..0x3000 {
        if let Some(c) = char::from_u32(b) {
            assert_eq!(char_to_key_event(c), char_to_key_event(c));
        }
    }
    assert_eq!(char_to_key_event('q'), KeySpec { key: Key::Q, shift: false });
}

#[test]
fn unsupported_characters_map_to_reserved() {
    for c in ['\u{e9}', '\r', '\0', '\u{7f}', '\u{20ac}', '\u{1f600}'] {
        assert_eq!(char_to_key_event(c), KeySpec { key: Key::Reserved, shift: false });
    }
    for c in supported_chars() {
        assert_ne!(char_to_key_event(c).key, Key::Reserved);
    }
}

#[test]
fn shift_only_for_capitals_and_shifted_symbols() {
    for c in 'A'..='Z' {
        assert!(char_to_key_event(c).shift);
    }
    for c in SHIFTED_SYMBOLS.chars() {
        assert!(char_to_key_event(c).shift, "{c}");
    }
    for c in ('a'..='z').chain('0'..='9').chain(PLAIN_SYMBOLS.chars()).chain([' ', '\n', '\t']) {
        assert!(!char_to_key_event(c).shift, "{c:?}");
    }
}

#[test]
fn shifted_symbols_share_the_base_key() {
    assert_eq!(char_to_key_event('!'), KeySpec { key: Key::Digit1, shift: true });
    assert_eq!(char_to_key_event(')'), KeySpec { key: Key::Digit0, shift: true });
    assert_eq!(char_to_key_event('"'), KeySpec { key: Key::Apostrophe, shift: true });
    assert_eq!(char_to_key_event('?'), KeySpec { key: Key::Slash, shift: true });
    assert_eq!(char_to_key_event('H').key, char_to_key_event('h').key);
}

#[test]
fn whitespace_keys() {
    assert_eq!(char_to_key_event(' '), KeySpec { key: Key::Space, shift: false });
    assert_eq!(char_to_key_event('\n'), KeySpec { key: Key::Enter, shift: false });
    assert_eq!(char_to_key_event('\t'), KeySpec { key: Key::Tab, shift: false });
}

#[test]
fn distinct_characters_have_distinct_specs() {
    let chars = supported_chars();
    assert_eq!(chars.len(), 97);
    for (i, a) in chars.iter().enumerate() {
        for b in &chars[i + 1..] {
            assert_ne!(char_to_key_event(*a), char_to_key_event(*b), "{a:?} {b:?}");
        }
    }
}

#[test]
fn key_codes_follow_the_input_subsystem() {
    assert_eq!(Key::Reserved.code(), 0);
    assert_eq!(Key::Digit1.code(), 2);
    assert_eq!(Key::Digit0.code(), 11);
    assert_eq!(Key::A.code(), 30);
    assert_eq!(Key::Z.code(), 44);
    assert_eq!(Key::LeftShift.code(), 42);
    assert_eq!(Key::Enter.code(), 28);
    assert_eq!(Key::Tab.code(), 15);
    assert_eq!(Key::Space.code(), 57);
    assert_eq!(Key::Slash.code(), 53);
}

#[test]
fn device_offers_every_needed_key_once() {
    let keys = device_keys();
    assert_eq!(keys.len(), 51);
    assert!(keys.contains(&Key::LeftShift));
    assert!(!keys.contains(&Key::Reserved));
    for c in supported_chars() {
        assert!(keys.contains(&char_to_key_event(c).key));
    }
    for (i, k) in keys.iter().enumerate() {
        assert!(!keys[i + 1..].contains(k));
    }
}
