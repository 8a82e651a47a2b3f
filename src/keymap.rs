//! The key mapper: one character to one physical key and a Shift flag.

use vstd::prelude::*;

verus! {

/// A physical key of a US-layout keyboard, as far as typing ASCII needs.
#[derive(Clone, Copy, Debug, PartialEq, Eq, Structural)]
pub enum Key {
    Reserved,
    A, B, C, D, E, F, G, H, I, J, K, L, M,
    N, O, P, Q, R, S, T, U, V, W, X, Y, Z,
    Digit0, Digit1, Digit2, Digit3, Digit4, Digit5, Digit6, Digit7, Digit8, Digit9,
    Minus, Equal, LeftBrace, RightBrace, Backslash, Semicolon, Apostrophe,
    Grave, Comma, Dot, Slash,
    Space, Enter, Tab,
    LeftShift,
}

/// What typing one character takes: a key, and whether Shift is held for it.
#[derive(Clone, Copy, Debug, PartialEq, Eq, Structural)]
pub struct KeySpec {
    pub key: Key,
    pub shift: bool,
}

pub open spec fn is_lower(c: char) -> bool {
    'a' <= c <= 'z'
}

pub open spec fn is_upper(c: char) -> bool {
    'A' <= c <= 'Z'
}

pub open spec fn is_digit(c: char) -> bool {
    '0' <= c <= '9'
}

/// Punctuation typed without Shift.
pub open spec fn is_plain_symbol(c: char) -> bool {
    c == '-' || c == '=' || c == '[' || c == ']' || c == '\\' || c == ';' || c == '\''
        || c == '`' || c == ',' || c == '.' || c == '/'
}

/// Punctuation typed with Shift held.
pub open spec fn is_shifted_symbol(c: char) -> bool {
    c == '!' || c == '@' || c == '#' || c == '$' || c == '%' || c == '^' || c == '&'
        || c == '*' || c == '(' || c == ')' || c == '_' || c == '+' || c == '{' || c == '}'
        || c == '|' || c == ':' || c == '"' || c == '~' || c == '<' || c == '>' || c == '?'
}

pub open spec fn is_whitespace_key(c: char) -> bool {
    c == ' ' || c == '\n' || c == '\t'
}

/// The supported character set: letters, digits, standard punctuation, space,
/// newline and tab.
pub open spec fn supported(c: char) -> bool {
    is_lower(c) || is_upper(c) || is_digit(c) || is_plain_symbol(c) || is_shifted_symbol(c)
        || is_whitespace_key(c)
}

/// Shift is needed exactly for capitals and shifted punctuation.
pub open spec fn needs_shift(c: char) -> bool {
    is_upper(c) || is_shifted_symbol(c)
}

/// The key on which a character lies: its unshifted and shifted forms share it.
pub open spec fn key_of(c: char) -> Key {
    match c {
        'a' | 'A' => Key::A, 'b' | 'B' => Key::B, 'c' | 'C' => Key::C, 'd' | 'D' => Key::D,
        'e' | 'E' => Key::E, 'f' | 'F' => Key::F, 'g' | 'G' => Key::G, 'h' | 'H' => Key::H,
        'i' | 'I' => Key::I, 'j' | 'J' => Key::J, 'k' | 'K' => Key::K, 'l' | 'L' => Key::L,
        'm' | 'M' => Key::M, 'n' | 'N' => Key::N, 'o' | 'O' => Key::O, 'p' | 'P' => Key::P,
        'q' | 'Q' => Key::Q, 'r' | 'R' => Key::R, 's' | 'S' => Key::S, 't' | 'T' => Key::T,
        'u' | 'U' => Key::U, 'v' | 'V' => Key::V, 'w' | 'W' => Key::W, 'x' | 'X' => Key::X,
        'y' | 'Y' => Key::Y, 'z' | 'Z' => Key::Z,
        '0' | ')' => Key::Digit0, '1' | '!' => Key::Digit1, '2' | '@' => Key::Digit2,
        '3' | '#' => Key::Digit3, '4' | '$' => Key::Digit4, '5' | '%' => Key::Digit5,
        '6' | '^' => Key::Digit6, '7' | '&' => Key::Digit7, '8' | '*' => Key::Digit8,
        '9' | '(' => Key::Digit9,
        '-' | '_' => Key::Minus, '=' | '+' => Key::Equal, '[' | '{' => Key::LeftBrace,
        ']' | '}' => Key::RightBrace, '\\' | '|' => Key::Backslash,
        ';' | ':' => Key::Semicolon, '\'' | '"' => Key::Apostrophe, '`' | '~' => Key::Grave,
        ',' | '<' => Key::Comma, '.' | '>' => Key::Dot, '/' | '?' => Key::Slash,
        ' ' => Key::Space, '\n' => Key::Enter, '\t' => Key::Tab,
        _ => Key::Reserved,
    }
}

/// The key specification of a character; the reserved key marks an
/// unsupported one.
pub open spec fn key_spec(c: char) -> KeySpec {
    if supported(c) {
        KeySpec { key: key_of(c), shift: needs_shift(c) }
    } else {
        KeySpec { key: Key::Reserved, shift: false }
    }
}

/// Shift is required exactly for capital letters and shifted punctuation;
/// every other character, supported or not, is typed without it.
pub proof fn lemma_shift_rule(c: char)
    ensures
        key_spec(c).shift <==> (is_upper(c) || is_shifted_symbol(c)),
{
}

/// Maps a character to the key that types it and whether Shift is needed.
/// Total: any character outside the supported set gets the reserved key.
pub fn char_to_key_event(c: char) -> (r: KeySpec)
    ensures
        r == key_spec(c),
        supported(c) ==> r.key != Key::Reserved,
        !supported(c) ==> r.key == Key::Reserved && !r.shift,
{
    let (key, shift) = match c {
        'a' => (Key::A, false), 'b' => (Key::B, false), 'c' => (Key::C, false),
        'd' => (Key::D, false), 'e' => (Key::E, false), 'f' => (Key::F, false),
        'g' => (Key::G, false), 'h' => (Key::H, false), 'i' => (Key::I, false),
        'j' => (Key::J, false), 'k' => (Key::K, false), 'l' => (Key::L, false),
        'm' => (Key::M, false), 'n' => (Key::N, false), 'o' => (Key::O, false),
        'p' => (Key::P, false), 'q' => (Key::Q, false), 'r' => (Key::R, false),
        's' => (Key::S, false), 't' => (Key::T, false), 'u' => (Key::U, false),
        'v' => (Key::V, false), 'w' => (Key::W, false), 'x' => (Key::X, false),
        'y' => (Key::Y, false), 'z' => (Key::Z, false),
        'A' => (Key::A, true), 'B' => (Key::B, true), 'C' => (Key::C, true),
        'D' => (Key::D, true), 'E' => (Key::E, true), 'F' => (Key::F, true),
        'G' => (Key::G, true), 'H' => (Key::H, true), 'I' => (Key::I, true),
        'J' => (Key::J, true), 'K' => (Key::K, true), 'L' => (Key::L, true),
        'M' => (Key::M, true), 'N' => (Key::N, true), 'O' => (Key::O, true),
        'P' => (Key::P, true), 'Q' => (Key::Q, true), 'R' => (Key::R, true),
        'S' => (Key::S, true), 'T' => (Key::T, true), 'U' => (Key::U, true),
        'V' => (Key::V, true), 'W' => (Key::W, true), 'X' => (Key::X, true),
        'Y' => (Key::Y, true), 'Z' => (Key::Z, true),
        '1' => (Key::Digit1, false), '2' => (Key::Digit2, false), '3' => (Key::Digit3, false),
        '4' => (Key::Digit4, false), '5' => (Key::Digit5, false), '6' => (Key::Digit6, false),
        '7' => (Key::Digit7, false), '8' => (Key::Digit8, false), '9' => (Key::Digit9, false),
        '0' => (Key::Digit0, false),
        '!' => (Key::Digit1, true), '@' => (Key::Digit2, true), '#' => (Key::Digit3, true),
        '$' => (Key::Digit4, true), '%' => (Key::Digit5, true), '^' => (Key::Digit6, true),
        '&' => (Key::Digit7, true), '*' => (Key::Digit8, true), '(' => (Key::Digit9, true),
        ')' => (Key::Digit0, true),
        '-' => (Key::Minus, false), '_' => (Key::Minus, true),
        '=' => (Key::Equal, false), '+' => (Key::Equal, true),
        '[' => (Key::LeftBrace, false), '{' => (Key::LeftBrace, true),
        ']' => (Key::RightBrace, false), '}' => (Key::RightBrace, true),
        '\\' => (Key::Backslash, false), '|' => (Key::Backslash, true),
        ';' => (Key::Semicolon, false), ':' => (Key::Semicolon, true),
        '\'' => (Key::Apostrophe, false), '"' => (Key::Apostrophe, true),
        '`' => (Key::Grave, false), '~' => (Key::Grave, true),
        ',' => (Key::Comma, false), '<' => (Key::Comma, true),
        '.' => (Key::Dot, false), '>' => (Key::Dot, true),
        '/' => (Key::Slash, false), '?' => (Key::Slash, true),
        ' ' => (Key::Space, false),
        '\n' => (Key::Enter, false),
        '\t' => (Key::Tab, false),
        _ => (Key::Reserved, false),
    };
    KeySpec { key, shift }
}


/// The Linux input event code of a key.
pub open spec fn key_code(k: Key) -> u16 {
    match k {
        Key::Reserved => 0,
        Key::Digit1 => 2, Key::Digit2 => 3, Key::Digit3 => 4, Key::Digit4 => 5,
        Key::Digit5 => 6, Key::Digit6 => 7, Key::Digit7 => 8, Key::Digit8 => 9,
        Key::Digit9 => 10, Key::Digit0 => 11, Key::Minus => 12, Key::Equal => 13,
        Key::Tab => 15,
        Key::Q => 16, Key::W => 17, Key::E => 18, Key::R => 19, Key::T => 20,
        Key::Y => 21, Key::U => 22, Key::I => 23, Key::O => 24, Key::P => 25,
        Key::LeftBrace => 26, Key::RightBrace => 27, Key::Enter => 28,
        Key::A => 30, Key::S => 31, Key::D => 32, Key::F => 33, Key::G => 34,
        Key::H => 35, Key::J => 36, Key::K => 37, Key::L => 38,
        Key::Semicolon => 39, Key::Apostrophe => 40, Key::Grave => 41,
        Key::LeftShift => 42, Key::Backslash => 43,
        Key::Z => 44, Key::X => 45, Key::C => 46, Key::V => 47, Key::B => 48,
        Key::N => 49, Key::M => 50, Key::Comma => 51, Key::Dot => 52, Key::Slash => 53,
        Key::Space => 57,
    }
}

impl Key {
    /// The event code under which the input subsystem knows this key.
    pub fn code(&self) -> (r: u16)
        ensures
            r == key_code(*self),
    {
        match self {
            Key::Reserved => 0,
            Key::Digit1 => 2, Key::Digit2 => 3, Key::Digit3 => 4, Key::Digit4 => 5,
            Key::Digit5 => 6, Key::Digit6 => 7, Key::Digit7 => 8, Key::Digit8 => 9,
            Key::Digit9 => 10, Key::Digit0 => 11, Key::Minus => 12, Key::Equal => 13,
            Key::Tab => 15,
            Key::Q => 16, Key::W => 17, Key::E => 18, Key::R => 19, Key::T => 20,
            Key::Y => 21, Key::U => 22, Key::I => 23, Key::O => 24, Key::P => 25,
            Key::LeftBrace => 26, Key::RightBrace => 27, Key::Enter => 28,
            Key::A => 30, Key::S => 31, Key::D => 32, Key::F => 33, Key::G => 34,
            Key::H => 35, Key::J => 36, Key::K => 37, Key::L => 38,
            Key::Semicolon => 39, Key::Apostrophe => 40, Key::Grave => 41,
            Key::LeftShift => 42, Key::Backslash => 43,
            Key::Z => 44, Key::X => 45, Key::C => 46, Key::V => 47, Key::B => 48,
            Key::N => 49, Key::M => 50, Key::Comma => 51, Key::Dot => 52, Key::Slash => 53,
            Key::Space => 57,
        }
    }
}

fn contains_key(keys: &Vec<Key>, k: Key) -> (r: bool)
    ensures
        r == keys@.contains(k),
{
    let mut i: usize = 0;
    while i < keys.len()
        invariant
            i <= keys.len(),
            forall|j: int| 0 <= j < i ==> keys@[j] != k,
        decreases keys.len() - i,
    {
        if keys[i] == k {
            return true;
        }
        i = i + 1;
    }
    false
}

proof fn lemma_push_keeps(s: Seq<Key>, k: Key)
    ensures
        forall|j: Key| s.contains(j) ==> #[trigger] s.push(k).contains(j),
        forall|j: Key| #[trigger] s.push(k).contains(j) ==> s.contains(j) || j == k,
{
    assert forall|j: Key| s.contains(j) implies #[trigger] s.push(k).contains(j) by {
        let i = choose|i: int| 0 <= i < s.len() && s[i] == j;
        assert(s.push(k)[i] == j);
    }
    assert forall|j: Key| #[trigger] s.push(k).contains(j) implies s.contains(j) || j == k by {
        let i = choose|i: int| 0 <= i < s.len() + 1 && s.push(k)[i] == j;
        if i < s.len() {
            assert(s[i] == j);
        }
    }
}

/// Every supported character lies in the ASCII range.
pub proof fn lemma_supported_is_ascii(c: char)
    requires
        supported(c),
    ensures
        (c as u32) < 128,
{
}

/// The keys that a virtual keyboard must offer: the key of every supported
/// character, and Shift. Each appears once, and the reserved key never does.
pub fn device_keys() -> (r: Vec<Key>)
    ensures
        forall|c: char| supported(c) ==> r@.contains(#[trigger] key_of(c)),
        r@.contains(Key::LeftShift),
        !r@.contains(Key::Reserved),
        r@.no_duplicates(),
{
    let mut keys: Vec<Key> = Vec::new();
    for b in 0u8..128u8
        invariant
            forall|x: u8| x < b && supported(x as char) ==> keys@.contains(#[trigger] key_of(x as char)),
            !keys@.contains(Key::Reserved),
            !keys@.contains(Key::LeftShift),
            keys@.no_duplicates(),
    {
        let spec = char_to_key_event(b as char);
        let ghost before = keys@;
        if spec.key != Key::Reserved && !contains_key(&keys, spec.key) {
            keys.push(spec.key);
            proof {
                lemma_push_keeps(before, spec.key);
            }
        }
        assert(supported(b as char) ==> keys@.contains(key_of(b as char))) by {
            if supported(b as char) && !before.contains(spec.key) {
                assert(keys@[keys@.len() - 1] == spec.key);
            }
        }
    }
    let ghost before = keys@;
    keys.push(Key::LeftShift);
    proof {
        lemma_push_keeps(before, Key::LeftShift);
        assert(keys@[keys@.len() - 1] == Key::LeftShift);
        assert forall|c: char| supported(c) implies keys@.contains(#[trigger] key_of(c)) by {
            lemma_supported_is_ascii(c);
            let x = (c as u32) as u8;
            assert((x as char) == c);
            assert(before.contains(key_of(x as char)));
        }
    }
    keys
}

} // verus!
