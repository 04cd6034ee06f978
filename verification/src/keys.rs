//! Keys of the keyboard and their Windows virtual key codes.

use vstd::prelude::*;

verus! {

/// A physical key.
#[derive(Clone, Copy, PartialEq, Eq, Structural, Debug)]
pub enum Key {
    ArrowDown,
    ArrowLeft,
    ArrowRight,
    ArrowUp,
    Escape,
    Tab,
    Backspace,
    Enter,
    Space,
    Insert,
    Delete,
    Home,
    End,
    PageUp,
    PageDown,
    Copy,
    Cut,
    Paste,
    Colon,
    Comma,
    Backslash,
    Slash,
    Pipe,
    Questionmark,
    Exclamationmark,
    OpenBracket,
    CloseBracket,
    OpenCurlyBracket,
    CloseCurlyBracket,
    Backtick,
    Minus,
    Period,
    Plus,
    Equals,
    Semicolon,
    Quote,
    Num0,
    Num1,
    Num2,
    Num3,
    Num4,
    Num5,
    Num6,
    Num7,
    Num8,
    Num9,
    A,
    B,
    C,
    D,
    E,
    F,
    G,
    H,
    I,
    J,
    K,
    L,
    M,
    N,
    O,
    P,
    Q,
    R,
    S,
    T,
    U,
    V,
    W,
    X,
    Y,
    Z,
    F1,
    F2,
    F3,
    F4,
    F5,
    F6,
    F7,
    F8,
    F9,
    F10,
    F11,
    F12,
    F13,
    F14,
    F15,
    F16,
    F17,
    F18,
    F19,
    F20,
    F21,
    F22,
    F23,
    F24,
    F25,
    F26,
    F27,
    F28,
    F29,
    F30,
    F31,
    F32,
    F33,
    F34,
    F35,
}

/// The virtual key code of a key, if it has one. `Plus` and `Equals` are one
/// key on Windows, and so are `Colon` and `Semicolon`.
pub open spec fn key_code(key: Key) -> Option<u16> {
    match key {
        Key::ArrowDown => Some(0x28),
        Key::ArrowLeft => Some(0x25),
        Key::ArrowRight => Some(0x27),
        Key::ArrowUp => Some(0x26),
        Key::Escape => Some(0x1B),
        Key::Tab => Some(0x09),
        Key::Backspace => Some(0x08),
        Key::Enter => Some(0x0D),
        Key::Space => Some(0x20),
        Key::Insert => Some(0x2D),
        Key::Delete => Some(0x2E),
        Key::Home => Some(0x24),
        Key::End => Some(0x23),
        Key::PageUp => Some(0x21),
        Key::PageDown => Some(0x22),
        Key::Colon => Some(0xBA),
        Key::Comma => Some(0xBC),
        Key::Backslash => Some(0xDC),
        Key::Slash => Some(0xBF),
        Key::OpenBracket => Some(0xDB),
        Key::CloseBracket => Some(0xDD),
        Key::Backtick => Some(0xC0),
        Key::Minus => Some(0xBD),
        Key::Period => Some(0xBE),
        Key::Plus => Some(0xBB),
        Key::Equals => Some(0xBB),
        Key::Semicolon => Some(0xBA),
        Key::Quote => Some(0xDE),
        Key::Num0 => Some(0x30),
        Key::Num1 => Some(0x31),
        Key::Num2 => Some(0x32),
        Key::Num3 => Some(0x33),
        Key::Num4 => Some(0x34),
        Key::Num5 => Some(0x35),
        Key::Num6 => Some(0x36),
        Key::Num7 => Some(0x37),
        Key::Num8 => Some(0x38),
        Key::Num9 => Some(0x39),
        Key::A => Some(0x41),
        Key::B => Some(0x42),
        Key::C => Some(0x43),
        Key::D => Some(0x44),
        Key::E => Some(0x45),
        Key::F => Some(0x46),
        Key::G => Some(0x47),
        Key::H => Some(0x48),
        Key::I => Some(0x49),
        Key::J => Some(0x4A),
        Key::K => Some(0x4B),
        Key::L => Some(0x4C),
        Key::M => Some(0x4D),
        Key::N => Some(0x4E),
        Key::O => Some(0x4F),
        Key::P => Some(0x50),
        Key::Q => Some(0x51),
        Key::R => Some(0x52),
        Key::S => Some(0x53),
        Key::T => Some(0x54),
        Key::U => Some(0x55),
        Key::V => Some(0x56),
        Key::W => Some(0x57),
        Key::X => Some(0x58),
        Key::Y => Some(0x59),
        Key::Z => Some(0x5A),
        Key::F1 => Some(0x70),
        Key::F2 => Some(0x71),
        Key::F3 => Some(0x72),
        Key::F4 => Some(0x73),
        Key::F5 => Some(0x74),
        Key::F6 => Some(0x75),
        Key::F7 => Some(0x76),
        Key::F8 => Some(0x77),
        Key::F9 => Some(0x78),
        Key::F10 => Some(0x79),
        Key::F11 => Some(0x7A),
        Key::F12 => Some(0x7B),
        Key::F13 => Some(0x7C),
        Key::F14 => Some(0x7D),
        Key::F15 => Some(0x7E),
        Key::F16 => Some(0x7F),
        Key::F17 => Some(0x80),
        Key::F18 => Some(0x81),
        Key::F19 => Some(0x82),
        Key::F20 => Some(0x83),
        _ => None,
    }
}

/// Maps a key to its Windows virtual key code.
///
/// Returns `None` if the key has no code here.
pub fn egui_key_to_vk(key: &Key) -> (code: Option<u16>)
    ensures
        code == key_code(*key),
{
    match *key {
        Key::ArrowDown => Some(0x28),
        Key::ArrowLeft => Some(0x25),
        Key::ArrowRight => Some(0x27),
        Key::ArrowUp => Some(0x26),
        Key::Escape => Some(0x1B),
        Key::Tab => Some(0x09),
        Key::Backspace => Some(0x08),
        Key::Enter => Some(0x0D),
        Key::Space => Some(0x20),
        Key::Insert => Some(0x2D),
        Key::Delete => Some(0x2E),
        Key::Home => Some(0x24),
        Key::End => Some(0x23),
        Key::PageUp => Some(0x21),
        Key::PageDown => Some(0x22),
        Key::Colon => Some(0xBA),
        Key::Comma => Some(0xBC),
        Key::Backslash => Some(0xDC),
        Key::Slash => Some(0xBF),
        Key::OpenBracket => Some(0xDB),
        Key::CloseBracket => Some(0xDD),
        Key::Backtick => Some(0xC0),
        Key::Minus => Some(0xBD),
        Key::Period => Some(0xBE),
        Key::Plus => Some(0xBB),
        Key::Equals => Some(0xBB),
        Key::Semicolon => Some(0xBA),
        Key::Quote => Some(0xDE),
        Key::Num0 => Some(0x30),
        Key::Num1 => Some(0x31),
        Key::Num2 => Some(0x32),
        Key::Num3 => Some(0x33),
        Key::Num4 => Some(0x34),
        Key::Num5 => Some(0x35),
        Key::Num6 => Some(0x36),
        Key::Num7 => Some(0x37),
        Key::Num8 => Some(0x38),
        Key::Num9 => Some(0x39),
        Key::A => Some(0x41),
        Key::B => Some(0x42),
        Key::C => Some(0x43),
        Key::D => Some(0x44),
        Key::E => Some(0x45),
        Key::F => Some(0x46),
        Key::G => Some(0x47),
        Key::H => Some(0x48),
        Key::I => Some(0x49),
        Key::J => Some(0x4A),
        Key::K => Some(0x4B),
        Key::L => Some(0x4C),
        Key::M => Some(0x4D),
        Key::N => Some(0x4E),
        Key::O => Some(0x4F),
        Key::P => Some(0x50),
        Key::Q => Some(0x51),
        Key::R => Some(0x52),
        Key::S => Some(0x53),
        Key::T => Some(0x54),
        Key::U => Some(0x55),
        Key::V => Some(0x56),
        Key::W => Some(0x57),
        Key::X => Some(0x58),
        Key::Y => Some(0x59),
        Key::Z => Some(0x5A),
        Key::F1 => Some(0x70),
        Key::F2 => Some(0x71),
        Key::F3 => Some(0x72),
        Key::F4 => Some(0x73),
        Key::F5 => Some(0x74),
        Key::F6 => Some(0x75),
        Key::F7 => Some(0x76),
        Key::F8 => Some(0x77),
        Key::F9 => Some(0x78),
        Key::F10 => Some(0x79),
        Key::F11 => Some(0x7A),
        Key::F12 => Some(0x7B),
        Key::F13 => Some(0x7C),
        Key::F14 => Some(0x7D),
        Key::F15 => Some(0x7E),
        Key::F16 => Some(0x7F),
        Key::F17 => Some(0x80),
        Key::F18 => Some(0x81),
        Key::F19 => Some(0x82),
        Key::F20 => Some(0x83),
        _ => None,
    }
}

/// The key that stands for all keys with the same code.
pub open spec fn canonical_key(key: Key) -> Key {
    match key {
        Key::Equals => Key::Plus,
        Key::Colon => Key::Semicolon,
        _ => key,
    }
}

/// The key that a code belongs to.
pub open spec fn key_of_code(code: u16) -> Option<Key> {
    if code == 0x08 {
        Some(Key::Backspace)
    } else if code == 0x09 {
        Some(Key::Tab)
    } else if code == 0x0D {
        Some(Key::Enter)
    } else if code == 0x1B {
        Some(Key::Escape)
    } else if code == 0x20 {
        Some(Key::Space)
    } else if code == 0x21 {
        Some(Key::PageUp)
    } else if code == 0x22 {
        Some(Key::PageDown)
    } else if code == 0x23 {
        Some(Key::End)
    } else if code == 0x24 {
        Some(Key::Home)
    } else if code == 0x25 {
        Some(Key::ArrowLeft)
    } else if code == 0x26 {
        Some(Key::ArrowUp)
    } else if code == 0x27 {
        Some(Key::ArrowRight)
    } else if code == 0x28 {
        Some(Key::ArrowDown)
    } else if code == 0x2D {
        Some(Key::Insert)
    } else if code == 0x2E {
        Some(Key::Delete)
    } else if code == 0x30 {
        Some(Key::Num0)
    } else if code == 0x31 {
        Some(Key::Num1)
    } else if code == 0x32 {
        Some(Key::Num2)
    } else if code == 0x33 {
        Some(Key::Num3)
    } else if code == 0x34 {
        Some(Key::Num4)
    } else if code == 0x35 {
        Some(Key::Num5)
    } else if code == 0x36 {
        Some(Key::Num6)
    } else if code == 0x37 {
        Some(Key::Num7)
    } else if code == 0x38 {
        Some(Key::Num8)
    } else if code == 0x39 {
        Some(Key::Num9)
    } else if code == 0x41 {
        Some(Key::A)
    } else if code == 0x42 {
        Some(Key::B)
    } else if code == 0x43 {
        Some(Key::C)
    } else if code == 0x44 {
        Some(Key::D)
    } else if code == 0x45 {
        Some(Key::E)
    } else if code == 0x46 {
        Some(Key::F)
    } else if code == 0x47 {
        Some(Key::G)
    } else if code == 0x48 {
        Some(Key::H)
    } else if code == 0x49 {
        Some(Key::I)
    } else if code == 0x4A {
        Some(Key::J)
    } else if code == 0x4B {
        Some(Key::K)
    } else if code == 0x4C {
        Some(Key::L)
    } else if code == 0x4D {
        Some(Key::M)
    } else if code == 0x4E {
        Some(Key::N)
    } else if code == 0x4F {
        Some(Key::O)
    } else if code == 0x50 {
        Some(Key::P)
    } else if code == 0x51 {
        Some(Key::Q)
    } else if code == 0x52 {
        Some(Key::R)
    } else if code == 0x53 {
        Some(Key::S)
    } else if code == 0x54 {
        Some(Key::T)
    } else if code == 0x55 {
        Some(Key::U)
    } else if code == 0x56 {
        Some(Key::V)
    } else if code == 0x57 {
        Some(Key::W)
    } else if code == 0x58 {
        Some(Key::X)
    } else if code == 0x59 {
        Some(Key::Y)
    } else if code == 0x5A {
        Some(Key::Z)
    } else if code == 0x70 {
        Some(Key::F1)
    } else if code == 0x71 {
        Some(Key::F2)
    } else if code == 0x72 {
        Some(Key::F3)
    } else if code == 0x73 {
        Some(Key::F4)
    } else if code == 0x74 {
        Some(Key::F5)
    } else if code == 0x75 {
        Some(Key::F6)
    } else if code == 0x76 {
        Some(Key::F7)
    } else if code == 0x77 {
        Some(Key::F8)
    } else if code == 0x78 {
        Some(Key::F9)
    } else if code == 0x79 {
        Some(Key::F10)
    } else if code == 0x7A {
        Some(Key::F11)
    } else if code == 0x7B {
        Some(Key::F12)
    } else if code == 0x7C {
        Some(Key::F13)
    } else if code == 0x7D {
        Some(Key::F14)
    } else if code == 0x7E {
        Some(Key::F15)
    } else if code == 0x7F {
        Some(Key::F16)
    } else if code == 0x80 {
        Some(Key::F17)
    } else if code == 0x81 {
        Some(Key::F18)
    } else if code == 0x82 {
        Some(Key::F19)
    } else if code == 0x83 {
        Some(Key::F20)
    } else if code == 0xBA {
        Some(Key::Semicolon)
    } else if code == 0xBB {
        Some(Key::Plus)
    } else if code == 0xBC {
        Some(Key::Comma)
    } else if code == 0xBD {
        Some(Key::Minus)
    } else if code == 0xBE {
        Some(Key::Period)
    } else if code == 0xBF {
        Some(Key::Slash)
    } else if code == 0xC0 {
        Some(Key::Backtick)
    } else if code == 0xDB {
        Some(Key::OpenBracket)
    } else if code == 0xDC {
        Some(Key::Backslash)
    } else if code == 0xDD {
        Some(Key::CloseBracket)
    } else if code == 0xDE {
        Some(Key::Quote)
    } else {
        None
    }
}

/// A key is found again by its code, up to the two pairs of keys that share
/// one.
pub proof fn law_key_of_code(key: Key)
    requires
        key_code(key) is Some,
    ensures
        key_of_code(key_code(key)->Some_0) == Some(canonical_key(key)),
{
}

/// The key of a code has that code, and the two keys that share the code of
/// another have it too.
pub proof fn law_code_of_key(code: u16)
    ensures
        key_of_code(code) matches Some(key) ==> key_code(key) == Some(code),
        key_code(Key::Equals) == key_code(Key::Plus) && key_code(Key::Plus) is Some,
        key_code(Key::Colon) == key_code(Key::Semicolon) && key_code(Key::Semicolon) is Some,
{
}

/// Two keys have the same code only if they are one key, or one of the two
/// pairs that share a code.
pub proof fn law_codes_tell_keys_apart(a: Key, b: Key)
    requires
        key_code(a) is Some,
        key_code(a) == key_code(b),
    ensures
        a == b || (a == Key::Plus && b == Key::Equals) || (a == Key::Equals && b == Key::Plus) || (a
            == Key::Colon && b == Key::Semicolon) || (a == Key::Semicolon && b == Key::Colon),
{
    law_key_of_code(a);
    law_key_of_code(b);
}

/// The keys without a code: those that stand for a command, shifted characters
/// and the function keys after the twentieth.
pub proof fn law_keys_without_a_code(key: Key)
    ensures
        key_code(key) is None <==> match key {
            Key::Copy | Key::Cut | Key::Paste => true,
            Key::Pipe | Key::Questionmark | Key::Exclamationmark => true,
            Key::OpenCurlyBracket | Key::CloseCurlyBracket => true,
            Key::F21 | Key::F22 | Key::F23 | Key::F24 | Key::F25 => true,
            Key::F26 | Key::F27 | Key::F28 | Key::F29 | Key::F30 => true,
            Key::F31 | Key::F32 | Key::F33 | Key::F34 | Key::F35 => true,
            _ => false,
        },
{
}

/// Letters and digits have the codes of their characters, and the function
/// keys with a code follow one another.
pub proof fn law_codes_of_letters_and_numbers()
    ensures
        key_code(Key::A) == Some('A' as u16),
        key_code(Key::B) == Some('B' as u16),
        key_code(Key::C) == Some('C' as u16),
        key_code(Key::D) == Some('D' as u16),
        key_code(Key::E) == Some('E' as u16),
        key_code(Key::F) == Some('F' as u16),
        key_code(Key::G) == Some('G' as u16),
        key_code(Key::H) == Some('H' as u16),
        key_code(Key::I) == Some('I' as u16),
        key_code(Key::J) == Some('J' as u16),
        key_code(Key::K) == Some('K' as u16),
        key_code(Key::L) == Some('L' as u16),
        key_code(Key::M) == Some('M' as u16),
        key_code(Key::N) == Some('N' as u16),
        key_code(Key::O) == Some('O' as u16),
        key_code(Key::P) == Some('P' as u16),
        key_code(Key::Q) == Some('Q' as u16),
        key_code(Key::R) == Some('R' as u16),
        key_code(Key::S) == Some('S' as u16),
        key_code(Key::T) == Some('T' as u16),
        key_code(Key::U) == Some('U' as u16),
        key_code(Key::V) == Some('V' as u16),
        key_code(Key::W) == Some('W' as u16),
        key_code(Key::X) == Some('X' as u16),
        key_code(Key::Y) == Some('Y' as u16),
        key_code(Key::Z) == Some('Z' as u16),
        key_code(Key::Num0) == Some('0' as u16),
        key_code(Key::Num1) == Some('1' as u16),
        key_code(Key::Num2) == Some('2' as u16),
        key_code(Key::Num3) == Some('3' as u16),
        key_code(Key::Num4) == Some('4' as u16),
        key_code(Key::Num5) == Some('5' as u16),
        key_code(Key::Num6) == Some('6' as u16),
        key_code(Key::Num7) == Some('7' as u16),
        key_code(Key::Num8) == Some('8' as u16),
        key_code(Key::Num9) == Some('9' as u16),
        key_code(Key::F1) == Some((0x6F + 1) as u16),
        key_code(Key::F2) == Some((0x6F + 2) as u16),
        key_code(Key::F3) == Some((0x6F + 3) as u16),
        key_code(Key::F4) == Some((0x6F + 4) as u16),
        key_code(Key::F5) == Some((0x6F + 5) as u16),
        key_code(Key::F6) == Some((0x6F + 6) as u16),
        key_code(Key::F7) == Some((0x6F + 7) as u16),
        key_code(Key::F8) == Some((0x6F + 8) as u16),
        key_code(Key::F9) == Some((0x6F + 9) as u16),
        key_code(Key::F10) == Some((0x6F + 10) as u16),
        key_code(Key::F11) == Some((0x6F + 11) as u16),
        key_code(Key::F12) == Some((0x6F + 12) as u16),
        key_code(Key::F13) == Some((0x6F + 13) as u16),
        key_code(Key::F14) == Some((0x6F + 14) as u16),
        key_code(Key::F15) == Some((0x6F + 15) as u16),
        key_code(Key::F16) == Some((0x6F + 16) as u16),
        key_code(Key::F17) == Some((0x6F + 17) as u16),
        key_code(Key::F18) == Some((0x6F + 18) as u16),
        key_code(Key::F19) == Some((0x6F + 19) as u16),
        key_code(Key::F20) == Some((0x6F + 20) as u16),
{
}

/// The keys that move the cursor follow one another from `PageUp` on, and the
/// two that insert and delete come after them; the keys that write a control
/// character have its code.
pub proof fn law_codes_of_the_cursor()
    ensures
        key_code(Key::PageUp) == Some(0x21u16),
        key_code(Key::PageDown) == Some(0x22u16),
        key_code(Key::End) == Some(0x23u16),
        key_code(Key::Home) == Some(0x24u16),
        key_code(Key::ArrowLeft) == Some(0x25u16),
        key_code(Key::ArrowUp) == Some(0x26u16),
        key_code(Key::ArrowRight) == Some(0x27u16),
        key_code(Key::ArrowDown) == Some(0x28u16),
        key_code(Key::Insert) == Some(0x2Du16),
        key_code(Key::Delete) == Some(0x2Eu16),
        key_code(Key::Escape) == Some(27u16),
        key_code(Key::Tab) == Some(9u16),
        key_code(Key::Backspace) == Some(8u16),
        key_code(Key::Enter) == Some(13u16),
        key_code(Key::Space) == Some(' ' as u16),
{
}

/// The codes of the keys with signs.
pub proof fn law_codes_of_signs()
    ensures
        key_code(Key::Semicolon) == Some(0xBAu16),
        key_code(Key::Plus) == Some(0xBBu16),
        key_code(Key::Comma) == Some(0xBCu16),
        key_code(Key::Minus) == Some(0xBDu16),
        key_code(Key::Period) == Some(0xBEu16),
        key_code(Key::Slash) == Some(0xBFu16),
        key_code(Key::Backtick) == Some(0xC0u16),
        key_code(Key::OpenBracket) == Some(0xDBu16),
        key_code(Key::Backslash) == Some(0xDCu16),
        key_code(Key::CloseBracket) == Some(0xDDu16),
        key_code(Key::Quote) == Some(0xDEu16),
{
}

} // verus!
