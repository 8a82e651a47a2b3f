use paste_clipboard::encode::{encode_text, keystrokes, stroke, DeviceEvent};
use paste_clipboard::keymap::{char_to_key_event, Key, KeySpec};

fn press(key: Key) -> DeviceEvent {
    DeviceEvent::Key { key, pressed: true }
}

fn release(key: Key) -> DeviceEvent {
    DeviceEvent::Key { key, pressed: false }
}

const SYNC: DeviceEvent = DeviceEvent::Sync;

/// Reads events back as a US keyboard would type them.
fn read_back(events: &[DeviceEvent]) -> String {
    let mut printable: Vec<char> = (' '..='~').collect();
    printable.extend(['\n', '\t']);
    let mut shift = false;
    let mut out = String::new();
    for e in events {
        if let DeviceEvent::Key { key, pressed } = *e {
            if key == Key::LeftShift {
                shift = pressed;
            } else if pressed {
                let spec = KeySpec { key, shift };
                let c = printable.iter().find(|c| char_to_key_event(**c) == spec).unwrap();
                out.push(*c);
            }
        }
    }
    out
}

#[test]
fn hi_bang_event_sequence() {
    let events = encode_text("Hi!");
    let expected = vec![
        press(Key::LeftShift), SYNC, press(Key::H), SYNC, release(Key::H), SYNC,
        release(Key::LeftShift), SYNC,
        press(Key::I), SYNC, release(Key::I), SYNC,
        press(Key::LeftShift), SYNC, press(Key::Digit1), SYNC, release(Key::Digit1), SYNC,
        release(Key::LeftShift), SYNC,
    ];
    assert_eq!(events, expected);
}

#[test]
fn strokes_plain_and_shifted() {
    assert_eq!(
        stroke(KeySpec { key: Key::A, shift: false }),
        vec![press(Key::A), SYNC, release(Key::A), SYNC]
    );
    assert_eq!(stroke(KeySpec { key: Key::A, shift: true }).len(), 8);
}

#[test]
fn round_trip_supported_text() {
    let text = "Hello, World! 1+1=2 {ok} \"q\" ~/path\\x\n\tdone?";
    let events = encode_text(text);
    assert_eq!(read_back(&events), text);
    let shifted = text.chars().filter(|c| char_to_key_event(*c).shift).count();
    assert_eq!(events.len(), 4 * text.chars().count() + 4 * shifted);
}

#[test]
fn non_ascii_is_skipped() {
    let keys = keystrokes("h\u{e9}llo");
    let expected: Vec<KeySpec> = "hllo".chars().map(char_to_key_event).collect();
    assert_eq!(keys, expected);
    let events = encode_text("h\u{e9}llo");
    let l_presses = events.iter().filter(|e| **e == press(Key::L)).count();
    assert_eq!(l_presses, 2);
    assert_eq!(read_back(&events), "hllo");
}

#[test]
fn empty_and_unsupported_only_texts() {
    assert!(encode_text("").is_empty());
    assert!(keystrokes("\u{e9}\u{e8}\r\u{20ac}").is_empty());
}
