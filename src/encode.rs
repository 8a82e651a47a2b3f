//! Virtual-keyboard encoding: text to the press, release and sync events that
//! type it, and the reading of such events back into text.

use vstd::prelude::*;
use crate::keymap::{Key, KeySpec, char_to_key_event, key_of, key_spec, needs_shift, supported};

verus! {

/// One event written to a virtual keyboard.
#[derive(Clone, Copy, Debug, PartialEq, Eq, Structural)]
pub enum DeviceEvent {
    /// A key goes down (`pressed`) or up.
    Key { key: Key, pressed: bool },
    /// Marks the end of one input report.
    Sync,
}

pub open spec fn press(k: Key) -> DeviceEvent {
    DeviceEvent::Key { key: k, pressed: true }
}

pub open spec fn release(k: Key) -> DeviceEvent {
    DeviceEvent::Key { key: k, pressed: false }
}

/// The events that type one key: press and release, each followed by a sync,
/// wrapped in a Shift press and release when Shift is needed.
pub open spec fn stroke_events(k: KeySpec) -> Seq<DeviceEvent> {
    let core = seq![press(k.key), DeviceEvent::Sync, release(k.key), DeviceEvent::Sync];
    if k.shift {
        seq![press(Key::LeftShift), DeviceEvent::Sync] + core + seq![
            release(Key::LeftShift),
            DeviceEvent::Sync,
        ]
    } else {
        core
    }
}

/// The key specifications of the supported characters of `s`, in order;
/// every other character is skipped.
pub open spec fn typed_keys(s: Seq<char>) -> Seq<KeySpec>
    decreases s.len(),
{
    if s.len() == 0 {
        seq![]
    } else if supported(s.last()) {
        typed_keys(s.drop_last()).push(key_spec(s.last()))
    } else {
        typed_keys(s.drop_last())
    }
}

/// The supported characters of `s`, in order.
pub open spec fn supported_chars(s: Seq<char>) -> Seq<char>
    decreases s.len(),
{
    if s.len() == 0 {
        seq![]
    } else if supported(s.last()) {
        supported_chars(s.drop_last()).push(s.last())
    } else {
        supported_chars(s.drop_last())
    }
}

/// The strokes of all keys, one after another.
pub open spec fn event_stream(ks: Seq<KeySpec>) -> Seq<DeviceEvent>
    decreases ks.len(),
{
    if ks.len() == 0 {
        seq![]
    } else {
        event_stream(ks.drop_last()) + stroke_events(ks.last())
    }
}

/// Whether Shift is down after the events `ev`, starting from no key down.
pub open spec fn shift_held(ev: Seq<DeviceEvent>) -> bool
    decreases ev.len(),
{
    if ev.len() == 0 {
        false
    } else {
        match ev.last() {
            DeviceEvent::Key { key: Key::LeftShift, pressed } => pressed,
            _ => shift_held(ev.drop_last()),
        }
    }
}

/// The character that a key gives on a US layout, with or without Shift.
pub open spec fn char_on(k: Key, shift: bool) -> char {
    match k {
        Key::A => if shift { 'A' } else { 'a' }, Key::B => if shift { 'B' } else { 'b' },
        Key::C => if shift { 'C' } else { 'c' }, Key::D => if shift { 'D' } else { 'd' },
        Key::E => if shift { 'E' } else { 'e' }, Key::F => if shift { 'F' } else { 'f' },
        Key::G => if shift { 'G' } else { 'g' }, Key::H => if shift { 'H' } else { 'h' },
        Key::I => if shift { 'I' } else { 'i' }, Key::J => if shift { 'J' } else { 'j' },
        Key::K => if shift { 'K' } else { 'k' }, Key::L => if shift { 'L' } else { 'l' },
        Key::M => if shift { 'M' } else { 'm' }, Key::N => if shift { 'N' } else { 'n' },
        Key::O => if shift { 'O' } else { 'o' }, Key::P => if shift { 'P' } else { 'p' },
        Key::Q => if shift { 'Q' } else { 'q' }, Key::R => if shift { 'R' } else { 'r' },
        Key::S => if shift { 'S' } else { 's' }, Key::T => if shift { 'T' } else { 't' },
        Key::U => if shift { 'U' } else { 'u' }, Key::V => if shift { 'V' } else { 'v' },
        Key::W => if shift { 'W' } else { 'w' }, Key::X => if shift { 'X' } else { 'x' },
        Key::Y => if shift { 'Y' } else { 'y' }, Key::Z => if shift { 'Z' } else { 'z' },
        Key::Digit0 => if shift { ')' } else { '0' }, Key::Digit1 => if shift { '!' } else { '1' },
        Key::Digit2 => if shift { '@' } else { '2' }, Key::Digit3 => if shift { '#' } else { '3' },
        Key::Digit4 => if shift { '$' } else { '4' }, Key::Digit5 => if shift { '%' } else { '5' },
        Key::Digit6 => if shift { '^' } else { '6' }, Key::Digit7 => if shift { '&' } else { '7' },
        Key::Digit8 => if shift { '*' } else { '8' }, Key::Digit9 => if shift { '(' } else { '9' },
        Key::Minus => if shift { '_' } else { '-' }, Key::Equal => if shift { '+' } else { '=' },
        Key::LeftBrace => if shift { '{' } else { '[' },
        Key::RightBrace => if shift { '}' } else { ']' },
        Key::Backslash => if shift { '|' } else { '\\' },
        Key::Semicolon => if shift { ':' } else { ';' },
        Key::Apostrophe => if shift { '"' } else { '\'' },
        Key::Grave => if shift { '~' } else { '`' }, Key::Comma => if shift { '<' } else { ',' },
        Key::Dot => if shift { '>' } else { '.' }, Key::Slash => if shift { '?' } else { '/' },
        Key::Space => ' ', Key::Enter => '\n', Key::Tab => '\t',
        Key::Reserved | Key::LeftShift => '\0',
    }
}

/// Whether an event is the press of a key that types a character.
pub open spec fn types_char(e: DeviceEvent) -> bool {
    match e {
        DeviceEvent::Key { key, pressed } => pressed && key != Key::LeftShift
            && key != Key::Reserved,
        DeviceEvent::Sync => false,
    }
}

/// The text that a reader of the events `ev` sees typed: each press of a
/// character key gives that key's character under the current Shift state.
pub open spec fn typed_text(ev: Seq<DeviceEvent>) -> Seq<char>
    decreases ev.len(),
{
    if ev.len() == 0 {
        seq![]
    } else if types_char(ev.last()) {
        typed_text(ev.drop_last()).push(
            char_on(ev.last()->Key_key, shift_held(ev.drop_last())),
        )
    } else {
        typed_text(ev.drop_last())
    }
}

/// The events that type one key, as `stroke_events` gives them.
pub fn stroke(k: KeySpec) -> (r: Vec<DeviceEvent>)
    ensures
        r@ == stroke_events(k),
{
    let mut r: Vec<DeviceEvent> = Vec::new();
    if k.shift {
        r.push(DeviceEvent::Key { key: Key::LeftShift, pressed: true });
        r.push(DeviceEvent::Sync);
    }
    r.push(DeviceEvent::Key { key: k.key, pressed: true });
    r.push(DeviceEvent::Sync);
    r.push(DeviceEvent::Key { key: k.key, pressed: false });
    r.push(DeviceEvent::Sync);
    if k.shift {
        r.push(DeviceEvent::Key { key: Key::LeftShift, pressed: false });
        r.push(DeviceEvent::Sync);
    }
    assert(r@ =~= stroke_events(k));
    r
}

/// The keys that type `text`: one per supported character, in order, with
/// every unsupported character (non-ASCII ones included) left out.
pub fn keystrokes(text: &str) -> (r: Vec<KeySpec>)
    ensures
        r@ == typed_keys(text@),
{
    let n = text.unicode_len();
    let mut r: Vec<KeySpec> = Vec::new();
    let mut i: usize = 0;
    while i < n
        invariant
            n == text@.len(),
            i <= n,
            r@ == typed_keys(text@.subrange(0, i as int)),
        decreases n - i,
    {
        let c = text.get_char(i);
        let spec = char_to_key_event(c);
        assert(text@.subrange(0, i + 1).drop_last() =~= text@.subrange(0, i as int));
        if spec.key != Key::Reserved {
            r.push(spec);
        }
        i = i + 1;
    }
    assert(text@.subrange(0, n as int) =~= text@);
    r
}

/// The whole event stream that types `text` on a virtual keyboard.
pub fn encode_text(text: &str) -> (r: Vec<DeviceEvent>)
    ensures
        r@ == event_stream(typed_keys(text@)),
{
    let keys = keystrokes(text);
    let mut r: Vec<DeviceEvent> = Vec::new();
    let mut i: usize = 0;
    while i < keys.len()
        invariant
            i <= keys.len(),
            r@ == event_stream(keys@.subrange(0, i as int)),
        decreases keys.len() - i,
    {
        let mut s = stroke(keys[i]);
        assert(keys@.subrange(0, i + 1).drop_last() =~= keys@.subrange(0, i as int));
        r.append(&mut s);
        i = i + 1;
    }
    assert(keys@.subrange(0, keys.len() as int) =~= keys@);
    r
}


/// Reading back the character of a supported key specification gives the
/// character that was mapped.
pub proof fn lemma_char_on_key(c: char)
    requires
        supported(c),
    ensures
        char_on(key_of(c), needs_shift(c)) == c,
        key_of(c) != Key::Reserved,
        key_of(c) != Key::LeftShift,
{
}

/// Distinct supported characters never share a key specification.
pub proof fn lemma_key_spec_injective(a: char, b: char)
    requires
        supported(a),
        supported(b),
        key_spec(a) == key_spec(b),
    ensures
        a == b,
{
    lemma_char_on_key(a);
    lemma_char_on_key(b);
}

proof fn lemma_push_event(e: Seq<DeviceEvent>, x: DeviceEvent)
    ensures
        shift_held(e.push(x)) == match x {
            DeviceEvent::Key { key: Key::LeftShift, pressed } => pressed,
            _ => shift_held(e),
        },
        typed_text(e.push(x)) == if types_char(x) {
            typed_text(e).push(char_on(x->Key_key, shift_held(e)))
        } else {
            typed_text(e)
        },
{
    assert(e.push(x).drop_last() =~= e);
}

/// Appending the stroke of a key, with Shift up before it, adds exactly that
/// key's character and leaves Shift up.
proof fn lemma_typed_stroke(e: Seq<DeviceEvent>, k: KeySpec)
    requires
        !shift_held(e),
        k.key != Key::Reserved,
        k.key != Key::LeftShift,
    ensures
        typed_text(e + stroke_events(k)) == typed_text(e).push(char_on(k.key, k.shift)),
        !shift_held(e + stroke_events(k)),
{
    let a = if k.shift {
        lemma_push_event(e, press(Key::LeftShift));
        let e1 = e.push(press(Key::LeftShift));
        lemma_push_event(e1, DeviceEvent::Sync);
        e1.push(DeviceEvent::Sync)
    } else {
        e
    };
    assert(shift_held(a) == k.shift);
    assert(typed_text(a) == typed_text(e));
    lemma_push_event(a, press(k.key));
    let a1 = a.push(press(k.key));
    lemma_push_event(a1, DeviceEvent::Sync);
    let a2 = a1.push(DeviceEvent::Sync);
    lemma_push_event(a2, release(k.key));
    let a3 = a2.push(release(k.key));
    lemma_push_event(a3, DeviceEvent::Sync);
    let a4 = a3.push(DeviceEvent::Sync);
    if k.shift {
        lemma_push_event(a4, release(Key::LeftShift));
        let a5 = a4.push(release(Key::LeftShift));
        lemma_push_event(a5, DeviceEvent::Sync);
        let a6 = a5.push(DeviceEvent::Sync);
        assert(e + stroke_events(k) =~= a6);
    } else {
        assert(e + stroke_events(k) =~= a4);
    }
}

/// Round trip: reading back the events that encode `s` gives exactly the
/// supported characters of `s`, in order, and ends with Shift up. When every
/// character of `s` is supported, each one gets one stroke, in order, and the
/// text read back is `s` itself.
pub proof fn lemma_round_trip(s: Seq<char>)
    ensures
        typed_text(event_stream(typed_keys(s))) == supported_chars(s),
        !shift_held(event_stream(typed_keys(s))),
        (forall|i: int| 0 <= i < s.len() ==> supported(#[trigger] s[i])) ==> {
            &&& typed_keys(s) == s.map_values(|c: char| key_spec(c))
            &&& supported_chars(s) == s
        },
    decreases s.len(),
{
    if s.len() > 0 {
        let p = s.drop_last();
        lemma_round_trip(p);
        if supported(s.last()) {
            let ks = typed_keys(p);
            let k = key_spec(s.last());
            assert(ks.push(k).drop_last() =~= ks);
            lemma_char_on_key(s.last());
            lemma_typed_stroke(event_stream(ks), k);
        }
        if forall|i: int| 0 <= i < s.len() ==> supported(#[trigger] s[i]) {
            assert forall|i: int| 0 <= i < p.len() implies supported(#[trigger] p[i]) by {
                assert(p[i] == s[i]);
            }
            assert(supported(s[s.len() - 1]));
            assert(typed_keys(s) =~= s.map_values(|c: char| key_spec(c)));
            assert(supported_chars(s) =~= s);
        }
    } else {
        assert(typed_keys(s) =~= s.map_values(|c: char| key_spec(c)));
    }
}

proof fn lemma_typed_keys_append(a: Seq<char>, b: Seq<char>)
    ensures
        typed_keys(a + b) == typed_keys(a) + typed_keys(b),
    decreases b.len(),
{
    if b.len() == 0 {
        assert(a + b =~= a);
        assert(typed_keys(a) + typed_keys(b) =~= typed_keys(a));
    } else {
        lemma_typed_keys_append(a, b.drop_last());
        assert((a + b).drop_last() =~= a + b.drop_last());
        assert((a + b).last() == b.last());
        if supported(b.last()) {
            assert(typed_keys(a + b) =~= typed_keys(a) + typed_keys(b));
        }
    }
}

/// An unsupported character, wherever it stands in a text, adds no key and
/// changes none of the others.
pub proof fn lemma_unsupported_skipped(a: Seq<char>, c: char, b: Seq<char>)
    requires
        !supported(c),
    ensures
        typed_keys(a.push(c) + b) == typed_keys(a + b),
        event_stream(typed_keys(a.push(c) + b)) == event_stream(typed_keys(a + b)),
{
    lemma_typed_keys_append(a.push(c), b);
    lemma_typed_keys_append(a, b);
    assert(a.push(c).drop_last() =~= a);
}


/// The stream of a concatenation is the concatenation of the streams.
pub proof fn lemma_event_stream_append(a: Seq<KeySpec>, b: Seq<KeySpec>)
    ensures
        event_stream(a + b) == event_stream(a) + event_stream(b),
    decreases b.len(),
{
    if b.len() == 0 {
        assert(a + b =~= a);
        assert(event_stream(a) + event_stream(b) =~= event_stream(a));
    } else {
        lemma_event_stream_append(a, b.drop_last());
        assert((a + b).drop_last() =~= a + b.drop_last());
        assert((a + b).last() == b.last());
        assert(event_stream(a + b) =~= event_stream(a) + event_stream(b));
    }
}

} // verus!
