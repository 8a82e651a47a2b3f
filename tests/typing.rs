use paste_clipboard::delay::parse_delay;
use paste_clipboard::encode::{encode_text, DeviceEvent};
use paste_clipboard::keymap::Key;
use paste_clipboard::typing::{injection_outcome, Action, TypingError, TypingPass};

/// Drives a pass; `fail_at` is the index of the write that fails, if any.
fn drive(text: &str, fail_at: Option<usize>) -> (Vec<DeviceEvent>, usize, Result<(), TypingError>) {
    let mut pass = TypingPass::new(text);
    let mut written = Vec::new();
    let mut attempts = 0;
    let mut pauses = 0;
    loop {
        match pass.next_action() {
            Action::Write(e) => {
                if Some(attempts) == fail_at {
                    pass.fail(TypingError::Emission("write failed".to_string()));
                } else {
                    written.push(e);
                }
                attempts += 1;
            }
            Action::Pause => pauses += 1,
            Action::Finish => break,
        }
    }
    assert!(pass.is_finished());
    (written, pauses, pass.into_result())
}

#[test]
fn abc_with_no_delay_types_at_once() {
    assert_eq!(parse_delay("0"), Some(0));
    let mut pass = TypingPass::new("abc");
    assert_eq!(pass.next_action(), Action::Write(DeviceEvent::Key { key: Key::A, pressed: true }));
    let (written, pauses, result) = drive("abc", None);
    assert!(result.is_ok());
    assert_eq!(written, encode_text("abc"));
    assert_eq!(pauses, 3);
}

#[test]
fn hello_with_accent_succeeds() {
    let (written, pauses, result) = drive("h\u{e9}llo", None);
    assert!(result.is_ok());
    assert_eq!(pauses, 4);
    let l_presses = written
        .iter()
        .filter(|e| **e == DeviceEvent::Key { key: Key::L, pressed: true })
        .count();
    assert_eq!(l_presses, 2);
}

#[test]
fn failure_on_third_character_aborts() {
    let text = "abcdefghij";
    let (written, pauses, result) = drive(text, Some(8));
    assert_eq!(written, encode_text("ab"));
    assert_eq!(pauses, 2);
    match result {
        Err(TypingError::Emission(msg)) => assert_eq!(msg, "write failed"),
        other => panic!("unexpected result {other:?}"),
    }
}

#[test]
fn only_first_failure_counts() {
    let mut pass = TypingPass::new("ab");
    assert!(matches!(pass.next_action(), Action::Write(_)));
    pass.fail(TypingError::Emission("first".to_string()));
    pass.fail(TypingError::Emission("second".to_string()));
    assert_eq!(pass.next_action(), Action::Finish);
    assert_eq!(pass.next_action(), Action::Finish);
    match pass.into_result() {
        Err(TypingError::Emission(msg)) => assert_eq!(msg, "first"),
        other => panic!("unexpected result {other:?}"),
    }
}

#[test]
fn empty_text_finishes_at_once() {
    let mut pass = TypingPass::new("");
    assert!(pass.is_finished());
    assert_eq!(pass.next_action(), Action::Finish);
    assert!(pass.into_result().is_ok());
}

#[test]
fn pass_is_not_finished_midway() {
    let mut pass = TypingPass::new("x");
    assert!(!pass.is_finished());
    pass.next_action();
    assert!(!pass.is_finished());
}

#[test]
fn injection_status_codes() {
    assert!(injection_outcome(0).is_ok());
    assert!(matches!(injection_outcome(1), Err(TypingError::InjectionFailed(1))));
    assert!(matches!(injection_outcome(-3), Err(TypingError::InjectionFailed(-3))));
}
