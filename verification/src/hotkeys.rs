//! Push-to-talk bindings: the keys and mouse buttons that can hold the
//! microphone open, their display names, and the names under which they are
//! saved in the settings.
use vstd::prelude::*;
use vstd::string::{StrSliceExecFns, StringExecFns, StringSliceAdditionalSpecFns};
use vstd::utf8::{encode_utf8, is_ascii_chars};
use crate::text::{decimal, push_decimal, str_equal};

verus! {

/// A keyboard key, as the global key poller reports it.
#[derive(Debug, Clone, Copy, PartialEq, Eq, Structural)]
pub enum Key {
    Key0,
    Key1,
    Key2,
    Key3,
    Key4,
    Key5,
    Key6,
    Key7,
    Key8,
    Key9,
    A,
    B,
    C,
    D,
    E,
    F,
    G,
    H,
    I,
    J,
    K,
    L,
    M,
    N,
    O,
    P,
    Q,
    R,
    S,
    T,
    U,
    V,
    W,
    X,
    Y,
    Z,
    F1,
    F2,
    F3,
    F4,
    F5,
    F6,
    F7,
    F8,
    F9,
    F10,
    F11,
    F12,
    F13,
    F14,
    F15,
    F16,
    F17,
    F18,
    F19,
    F20,
    Escape,
    Space,
    LControl,
    RControl,
    LShift,
    RShift,
    LAlt,
    RAlt,
    Command,
    RCommand,
    LOption,
    ROption,
    LMeta,
    RMeta,
    Enter,
    Up,
    Down,
    Left,
    Right,
    Backspace,
    CapsLock,
    Tab,
    Home,
    End,
    PageUp,
    PageDown,
    Insert,
    Delete,
    Numpad0,
    Numpad1,
    Numpad2,
    Numpad3,
    Numpad4,
    Numpad5,
    Numpad6,
    Numpad7,
    Numpad8,
    Numpad9,
    NumpadSubtract,
    NumpadAdd,
    NumpadDivide,
    NumpadMultiply,
    NumpadEquals,
    NumpadEnter,
    NumpadDecimal,
    Grave,
    Minus,
    Equal,
    LeftBracket,
    RightBracket,
    BackSlash,
    Semicolon,
    Apostrophe,
    Comma,
    Dot,
    Slash,
}

/// A push-to-talk binding: a keyboard key or a mouse button (2 = right,
/// 3 = middle, 4 and 5 = side buttons).
#[derive(Debug, Clone, Copy, PartialEq, Eq, Structural)]
pub enum PttBind {
    Key(Key),
    Mouse(u8),
}

/// The display name of a key.
pub open spec fn key_name_spec(k: Key) -> Seq<char> {
    match k {
        Key::Key0 => "0"@,
        Key::Key1 => "1"@,
        Key::Key2 => "2"@,
        Key::Key3 => "3"@,
        Key::Key4 => "4"@,
        Key::Key5 => "5"@,
        Key::Key6 => "6"@,
        Key::Key7 => "7"@,
        Key::Key8 => "8"@,
        Key::Key9 => "9"@,
        Key::A => "A"@,
        Key::B => "B"@,
        Key::C => "C"@,
        Key::D => "D"@,
        Key::E => "E"@,
        Key::F => "F"@,
        Key::G => "G"@,
        Key::H => "H"@,
        Key::I => "I"@,
        Key::J => "J"@,
        Key::K => "K"@,
        Key::L => "L"@,
        Key::M => "M"@,
        Key::N => "N"@,
        Key::O => "O"@,
        Key::P => "P"@,
        Key::Q => "Q"@,
        Key::R => "R"@,
        Key::S => "S"@,
        Key::T => "T"@,
        Key::U => "U"@,
        Key::V => "V"@,
        Key::W => "W"@,
        Key::X => "X"@,
        Key::Y => "Y"@,
        Key::Z => "Z"@,
        Key::F1 => "F1"@,
        Key::F2 => "F2"@,
        Key::F3 => "F3"@,
        Key::F4 => "F4"@,
        Key::F5 => "F5"@,
        Key::F6 => "F6"@,
        Key::F7 => "F7"@,
        Key::F8 => "F8"@,
        Key::F9 => "F9"@,
        Key::F10 => "F10"@,
        Key::F11 => "F11"@,
        Key::F12 => "F12"@,
        Key::F13 => "F13"@,
        Key::F14 => "F14"@,
        Key::F15 => "F15"@,
        Key::F16 => "F16"@,
        Key::F17 => "F17"@,
        Key::F18 => "F18"@,
        Key::F19 => "F19"@,
        Key::F20 => "F20"@,
        Key::Escape => "Escape"@,
        Key::Space => "Space"@,
        Key::LControl => "LCtrl"@,
        Key::RControl => "RCtrl"@,
        Key::LShift => "LShift"@,
        Key::RShift => "RShift"@,
        Key::LAlt => "LAlt"@,
        Key::RAlt => "RAlt"@,
        Key::Command => "Command"@,
        Key::RCommand => "RCommand"@,
        Key::LOption => "LOption"@,
        Key::ROption => "ROption"@,
        Key::LMeta => "LMeta"@,
        Key::RMeta => "RMeta"@,
        Key::Enter => "Enter"@,
        Key::Up => "Up"@,
        Key::Down => "Down"@,
        Key::Left => "Left"@,
        Key::Right => "Right"@,
        Key::Backspace => "Backspace"@,
        Key::CapsLock => "CapsLock"@,
        Key::Tab => "Tab"@,
        Key::Home => "Home"@,
        Key::End => "End"@,
        Key::PageUp => "PageUp"@,
        Key::PageDown => "PageDown"@,
        Key::Insert => "Insert"@,
        Key::Delete => "Delete"@,
        Key::Numpad0 => "Numpad0"@,
        Key::Numpad1 => "Numpad1"@,
        Key::Numpad2 => "Numpad2"@,
        Key::Numpad3 => "Numpad3"@,
        Key::Numpad4 => "Numpad4"@,
        Key::Numpad5 => "Numpad5"@,
        Key::Numpad6 => "Numpad6"@,
        Key::Numpad7 => "Numpad7"@,
        Key::Numpad8 => "Numpad8"@,
        Key::Numpad9 => "Numpad9"@,
        Key::NumpadSubtract => "NumpadSubtract"@,
        Key::NumpadAdd => "NumpadAdd"@,
        Key::NumpadDivide => "NumpadDivide"@,
        Key::NumpadMultiply => "NumpadMultiply"@,
        Key::NumpadEquals => "NumpadEquals"@,
        Key::NumpadEnter => "NumpadEnter"@,
        Key::NumpadDecimal => "NumpadDecimal"@,
        Key::Grave => "`"@,
        Key::Minus => "-"@,
        Key::Equal => "="@,
        Key::LeftBracket => "["@,
        Key::RightBracket => "]"@,
        Key::BackSlash => "\\"@,
        Key::Semicolon => ";"@,
        Key::Apostrophe => "'"@,
        Key::Comma => ","@,
        Key::Dot => "."@,
        Key::Slash => "/"@,
    }
}

/// The display name of a key.
pub fn keycode_to_name(k: &Key) -> (r: String)
    ensures
        r@ == key_name_spec(*k),
{
    match k {
        Key::Key0 => String::from_str("0"),
        Key::Key1 => String::from_str("1"),
        Key::Key2 => String::from_str("2"),
        Key::Key3 => String::from_str("3"),
        Key::Key4 => String::from_str("4"),
        Key::Key5 => String::from_str("5"),
        Key::Key6 => String::from_str("6"),
        Key::Key7 => String::from_str("7"),
        Key::Key8 => String::from_str("8"),
        Key::Key9 => String::from_str("9"),
        Key::A => String::from_str("A"),
        Key::B => String::from_str("B"),
        Key::C => String::from_str("C"),
        Key::D => String::from_str("D"),
        Key::E => String::from_str("E"),
        Key::F => String::from_str("F"),
        Key::G => String::from_str("G"),
        Key::H => String::from_str("H"),
        Key::I => String::from_str("I"),
        Key::J => String::from_str("J"),
        Key::K => String::from_str("K"),
        Key::L => String::from_str("L"),
        Key::M => String::from_str("M"),
        Key::N => String::from_str("N"),
        Key::O => String::from_str("O"),
        Key::P => String::from_str("P"),
        Key::Q => String::from_str("Q"),
        Key::R => String::from_str("R"),
        Key::S => String::from_str("S"),
        Key::T => String::from_str("T"),
        Key::U => String::from_str("U"),
        Key::V => String::from_str("V"),
        Key::W => String::from_str("W"),
        Key::X => String::from_str("X"),
        Key::Y => String::from_str("Y"),
        Key::Z => String::from_str("Z"),
        Key::F1 => String::from_str("F1"),
        Key::F2 => String::from_str("F2"),
        Key::F3 => String::from_str("F3"),
        Key::F4 => String::from_str("F4"),
        Key::F5 => String::from_str("F5"),
        Key::F6 => String::from_str("F6"),
        Key::F7 => String::from_str("F7"),
        Key::F8 => String::from_str("F8"),
        Key::F9 => String::from_str("F9"),
        Key::F10 => String::from_str("F10"),
        Key::F11 => String::from_str("F11"),
        Key::F12 => String::from_str("F12"),
        Key::F13 => String::from_str("F13"),
        Key::F14 => String::from_str("F14"),
        Key::F15 => String::from_str("F15"),
        Key::F16 => String::from_str("F16"),
        Key::F17 => String::from_str("F17"),
        Key::F18 => String::from_str("F18"),
        Key::F19 => String::from_str("F19"),
        Key::F20 => String::from_str("F20"),
        Key::Escape => String::from_str("Escape"),
        Key::Space => String::from_str("Space"),
        Key::LControl => String::from_str("LCtrl"),
        Key::RControl => String::from_str("RCtrl"),
        Key::LShift => String::from_str("LShift"),
        Key::RShift => String::from_str("RShift"),
        Key::LAlt => String::from_str("LAlt"),
        Key::RAlt => String::from_str("RAlt"),
        Key::Command => String::from_str("Command"),
        Key::RCommand => String::from_str("RCommand"),
        Key::LOption => String::from_str("LOption"),
        Key::ROption => String::from_str("ROption"),
        Key::LMeta => String::from_str("LMeta"),
        Key::RMeta => String::from_str("RMeta"),
        Key::Enter => String::from_str("Enter"),
        Key::Up => String::from_str("Up"),
        Key::Down => String::from_str("Down"),
        Key::Left => String::from_str("Left"),
        Key::Right => String::from_str("Right"),
        Key::Backspace => String::from_str("Backspace"),
        Key::CapsLock => String::from_str("CapsLock"),
        Key::Tab => String::from_str("Tab"),
        Key::Home => String::from_str("Home"),
        Key::End => String::from_str("End"),
        Key::PageUp => String::from_str("PageUp"),
        Key::PageDown => String::from_str("PageDown"),
        Key::Insert => String::from_str("Insert"),
        Key::Delete => String::from_str("Delete"),
        Key::Numpad0 => String::from_str("Numpad0"),
        Key::Numpad1 => String::from_str("Numpad1"),
        Key::Numpad2 => String::from_str("Numpad2"),
        Key::Numpad3 => String::from_str("Numpad3"),
        Key::Numpad4 => String::from_str("Numpad4"),
        Key::Numpad5 => String::from_str("Numpad5"),
        Key::Numpad6 => String::from_str("Numpad6"),
        Key::Numpad7 => String::from_str("Numpad7"),
        Key::Numpad8 => String::from_str("Numpad8"),
        Key::Numpad9 => String::from_str("Numpad9"),
        Key::NumpadSubtract => String::from_str("NumpadSubtract"),
        Key::NumpadAdd => String::from_str("NumpadAdd"),
        Key::NumpadDivide => String::from_str("NumpadDivide"),
        Key::NumpadMultiply => String::from_str("NumpadMultiply"),
        Key::NumpadEquals => String::from_str("NumpadEquals"),
        Key::NumpadEnter => String::from_str("NumpadEnter"),
        Key::NumpadDecimal => String::from_str("NumpadDecimal"),
        Key::Grave => String::from_str("`"),
        Key::Minus => String::from_str("-"),
        Key::Equal => String::from_str("="),
        Key::LeftBracket => String::from_str("["),
        Key::RightBracket => String::from_str("]"),
        Key::BackSlash => String::from_str("\\"),
        Key::Semicolon => String::from_str(";"),
        Key::Apostrophe => String::from_str("'"),
        Key::Comma => String::from_str(","),
        Key::Dot => String::from_str("."),
        Key::Slash => String::from_str("/"),
    }
}

/// The key a name in upper case stands for: a few named keys and their
/// aliases, F1 to F12, or a single letter or digit.
pub open spec fn key_for_upper_name(s: Seq<char>) -> Option<Key> {
    if s == "V"@ {
        Some(Key::V)
    }     else if s == "B"@ {
        Some(Key::B)
    }     else if s == "N"@ {
        Some(Key::N)
    }     else if s == "M"@ {
        Some(Key::M)
    }     else if s == "G"@ {
        Some(Key::G)
    }     else if s == "T"@ {
        Some(Key::T)
    }     else if s == "CAPSLOCK"@ {
        Some(Key::CapsLock)
    }     else if s == "CAPS"@ {
        Some(Key::CapsLock)
    }     else if s == "LALT"@ {
        Some(Key::LAlt)
    }     else if s == "LEFT ALT"@ {
        Some(Key::LAlt)
    }     else if s == "RALT"@ {
        Some(Key::RAlt)
    }     else if s == "RIGHT ALT"@ {
        Some(Key::RAlt)
    }     else if s == "LCTRL"@ {
        Some(Key::LControl)
    }     else if s == "LEFT CTRL"@ {
        Some(Key::LControl)
    }     else if s == "RCTRL"@ {
        Some(Key::RControl)
    }     else if s == "RIGHT CTRL"@ {
        Some(Key::RControl)
    }     else if s == "LSHIFT"@ {
        Some(Key::LShift)
    }     else if s == "LEFT SHIFT"@ {
        Some(Key::LShift)
    }     else if s == "RSHIFT"@ {
        Some(Key::RShift)
    }     else if s == "RIGHT SHIFT"@ {
        Some(Key::RShift)
    }     else if s == "SPACE"@ {
        Some(Key::Space)
    }     else if s == "TAB"@ {
        Some(Key::Tab)
    }     else if s == "F1"@ {
        Some(Key::F1)
    }     else if s == "F2"@ {
        Some(Key::F2)
    }     else if s == "F3"@ {
        Some(Key::F3)
    }     else if s == "F4"@ {
        Some(Key::F4)
    }     else if s == "F5"@ {
        Some(Key::F5)
    }     else if s == "F6"@ {
        Some(Key::F6)
    }     else if s == "F7"@ {
        Some(Key::F7)
    }     else if s == "F8"@ {
        Some(Key::F8)
    }     else if s == "F9"@ {
        Some(Key::F9)
    }     else if s == "F10"@ {
        Some(Key::F10)
    }     else if s == "F11"@ {
        Some(Key::F11)
    }     else if s == "F12"@ {
        Some(Key::F12)
    } else if encode_utf8(s).len() == 1 {
        key_for_char(s[0])
    } else {
        None
    }
}

/// The key of a single upper-case letter or digit.
pub open spec fn key_for_char(c: char) -> Option<Key> {
    if c == 'A' {
        Some(Key::A)
    }     else if c == 'B' {
        Some(Key::B)
    }     else if c == 'C' {
        Some(Key::C)
    }     else if c == 'D' {
        Some(Key::D)
    }     else if c == 'E' {
        Some(Key::E)
    }     else if c == 'F' {
        Some(Key::F)
    }     else if c == 'G' {
        Some(Key::G)
    }     else if c == 'H' {
        Some(Key::H)
    }     else if c == 'I' {
        Some(Key::I)
    }     else if c == 'J' {
        Some(Key::J)
    }     else if c == 'K' {
        Some(Key::K)
    }     else if c == 'L' {
        Some(Key::L)
    }     else if c == 'M' {
        Some(Key::M)
    }     else if c == 'N' {
        Some(Key::N)
    }     else if c == 'O' {
        Some(Key::O)
    }     else if c == 'P' {
        Some(Key::P)
    }     else if c == 'Q' {
        Some(Key::Q)
    }     else if c == 'R' {
        Some(Key::R)
    }     else if c == 'S' {
        Some(Key::S)
    }     else if c == 'T' {
        Some(Key::T)
    }     else if c == 'U' {
        Some(Key::U)
    }     else if c == 'V' {
        Some(Key::V)
    }     else if c == 'W' {
        Some(Key::W)
    }     else if c == 'X' {
        Some(Key::X)
    }     else if c == 'Y' {
        Some(Key::Y)
    }     else if c == 'Z' {
        Some(Key::Z)
    }     else if c == '0' {
        Some(Key::Key0)
    }     else if c == '1' {
        Some(Key::Key1)
    }     else if c == '2' {
        Some(Key::Key2)
    }     else if c == '3' {
        Some(Key::Key3)
    }     else if c == '4' {
        Some(Key::Key4)
    }     else if c == '5' {
        Some(Key::Key5)
    }     else if c == '6' {
        Some(Key::Key6)
    }     else if c == '7' {
        Some(Key::Key7)
    }     else if c == '8' {
        Some(Key::Key8)
    }     else if c == '9' {
        Some(Key::Key9)
    } else {
        None
    }
}

/// The key of a single upper-case letter or digit.
fn char_key(c: char) -> (r: Option<Key>)
    ensures
        r == key_for_char(c),
{
    if c == 'A' {
        Some(Key::A)
    }     else if c == 'B' {
        Some(Key::B)
    }     else if c == 'C' {
        Some(Key::C)
    }     else if c == 'D' {
        Some(Key::D)
    }     else if c == 'E' {
        Some(Key::E)
    }     else if c == 'F' {
        Some(Key::F)
    }     else if c == 'G' {
        Some(Key::G)
    }     else if c == 'H' {
        Some(Key::H)
    }     else if c == 'I' {
        Some(Key::I)
    }     else if c == 'J' {
        Some(Key::J)
    }     else if c == 'K' {
        Some(Key::K)
    }     else if c == 'L' {
        Some(Key::L)
    }     else if c == 'M' {
        Some(Key::M)
    }     else if c == 'N' {
        Some(Key::N)
    }     else if c == 'O' {
        Some(Key::O)
    }     else if c == 'P' {
        Some(Key::P)
    }     else if c == 'Q' {
        Some(Key::Q)
    }     else if c == 'R' {
        Some(Key::R)
    }     else if c == 'S' {
        Some(Key::S)
    }     else if c == 'T' {
        Some(Key::T)
    }     else if c == 'U' {
        Some(Key::U)
    }     else if c == 'V' {
        Some(Key::V)
    }     else if c == 'W' {
        Some(Key::W)
    }     else if c == 'X' {
        Some(Key::X)
    }     else if c == 'Y' {
        Some(Key::Y)
    }     else if c == 'Z' {
        Some(Key::Z)
    }     else if c == '0' {
        Some(Key::Key0)
    }     else if c == '1' {
        Some(Key::Key1)
    }     else if c == '2' {
        Some(Key::Key2)
    }     else if c == '3' {
        Some(Key::Key3)
    }     else if c == '4' {
        Some(Key::Key4)
    }     else if c == '5' {
        Some(Key::Key5)
    }     else if c == '6' {
        Some(Key::Key6)
    }     else if c == '7' {
        Some(Key::Key7)
    }     else if c == '8' {
        Some(Key::Key8)
    }     else if c == '9' {
        Some(Key::Key9)
    } else {
        None
    }
}

/// The key a name in upper case stands for (see [`key_for_upper_name`]).
pub fn key_from_upper_name(upper: &str) -> (r: Option<Key>)
    ensures
        r == key_for_upper_name(upper@),
{
    if str_equal(upper, "V") {
        return Some(Key::V);
    }
    if str_equal(upper, "B") {
        return Some(Key::B);
    }
    if str_equal(upper, "N") {
        return Some(Key::N);
    }
    if str_equal(upper, "M") {
        return Some(Key::M);
    }
    if str_equal(upper, "G") {
        return Some(Key::G);
    }
    if str_equal(upper, "T") {
        return Some(Key::T);
    }
    if str_equal(upper, "CAPSLOCK") {
        return Some(Key::CapsLock);
    }
    if str_equal(upper, "CAPS") {
        return Some(Key::CapsLock);
    }
    if str_equal(upper, "LALT") {
        return Some(Key::LAlt);
    }
    if str_equal(upper, "LEFT ALT") {
        return Some(Key::LAlt);
    }
    if str_equal(upper, "RALT") {
        return Some(Key::RAlt);
    }
    if str_equal(upper, "RIGHT ALT") {
        return Some(Key::RAlt);
    }
    if str_equal(upper, "LCTRL") {
        return Some(Key::LControl);
    }
    if str_equal(upper, "LEFT CTRL") {
        return Some(Key::LControl);
    }
    if str_equal(upper, "RCTRL") {
        return Some(Key::RControl);
    }
    if str_equal(upper, "RIGHT CTRL") {
        return Some(Key::RControl);
    }
    if str_equal(upper, "LSHIFT") {
        return Some(Key::LShift);
    }
    if str_equal(upper, "LEFT SHIFT") {
        return Some(Key::LShift);
    }
    if str_equal(upper, "RSHIFT") {
        return Some(Key::RShift);
    }
    if str_equal(upper, "RIGHT SHIFT") {
        return Some(Key::RShift);
    }
    if str_equal(upper, "SPACE") {
        return Some(Key::Space);
    }
    if str_equal(upper, "TAB") {
        return Some(Key::Tab);
    }
    if str_equal(upper, "F1") {
        return Some(Key::F1);
    }
    if str_equal(upper, "F2") {
        return Some(Key::F2);
    }
    if str_equal(upper, "F3") {
        return Some(Key::F3);
    }
    if str_equal(upper, "F4") {
        return Some(Key::F4);
    }
    if str_equal(upper, "F5") {
        return Some(Key::F5);
    }
    if str_equal(upper, "F6") {
        return Some(Key::F6);
    }
    if str_equal(upper, "F7") {
        return Some(Key::F7);
    }
    if str_equal(upper, "F8") {
        return Some(Key::F8);
    }
    if str_equal(upper, "F9") {
        return Some(Key::F9);
    }
    if str_equal(upper, "F10") {
        return Some(Key::F10);
    }
    if str_equal(upper, "F11") {
        return Some(Key::F11);
    }
    if str_equal(upper, "F12") {
        return Some(Key::F12);
    }
    if upper.as_bytes().len() == 1 {
        assert(upper@.len() > 0) by {
            if upper@.len() == 0 {
                assert(encode_utf8(upper@) =~= Seq::<u8>::empty());
            }
        }
        let c = upper.get_char(0);
        return char_key(c);
    }
    None
}

/// The upper-case form of a text, as `str::to_uppercase` gives it (Unicode
/// case mapping).
pub uninterp spec fn unicode_uppercase(s: Seq<char>) -> Seq<char>;

/// A text with its ASCII lower-case letters made upper case.
pub open spec fn ascii_uppercase(s: Seq<char>) -> Seq<char> {
    Seq::new(
        s.len(),
        |i: int|
            if 'a' <= s[i] <= 'z' {
                ((s[i] as int) - 32) as char
            } else {
                s[i]
            },
    )
}

/// The upper-case form of a text (`str::to_uppercase`); for ASCII text this
/// only changes the letters a to z into A to Z.
#[verifier::external_body]
fn to_uppercase(s: &str) -> (r: String)
    ensures
        r@ == unicode_uppercase(s@),
        is_ascii_chars(s@) ==> r@ == ascii_uppercase(s@),
{
    s.to_uppercase()
}

/// The key a settings name stands for: the name is compared in upper case
/// with the named keys and their aliases, F1 to F12, and single letters and
/// digits.
pub fn keycode_from_name(name: &str) -> (r: Option<Key>)
    ensures
        r == key_for_upper_name(unicode_uppercase(name@)),
        is_ascii_chars(name@) ==> r == key_for_upper_name(ascii_uppercase(name@)),
{
    let upper = to_uppercase(name);
    key_from_upper_name(upper.as_str())
}

/// The display name of a mouse button.
pub open spec fn mouse_name_spec(btn: u8) -> Seq<char> {
    if btn == 2 {
        "Mouse2 (Right)"@
    } else if btn == 3 {
        "Mouse3 (Middle)"@
    } else if btn == 4 {
        "Mouse4"@
    } else if btn == 5 {
        "Mouse5"@
    } else {
        "Mouse"@ + decimal(btn as nat)
    }
}

/// The display name of a mouse button.
pub fn mouse_button_name(btn: u8) -> (r: String)
    ensures
        r@ == mouse_name_spec(btn),
{
    if btn == 2 {
        String::from_str("Mouse2 (Right)")
    } else if btn == 3 {
        String::from_str("Mouse3 (Middle)")
    } else if btn == 4 {
        String::from_str("Mouse4")
    } else if btn == 5 {
        String::from_str("Mouse5")
    } else {
        let mut s = String::from_str("Mouse");
        push_decimal(&mut s, btn as u64);
        s
    }
}

/// The display name of a binding, which is also the name it is saved under.
pub open spec fn bind_name_spec(b: PttBind) -> Seq<char> {
    match b {
        PttBind::Key(k) => key_name_spec(k),
        PttBind::Mouse(btn) => mouse_name_spec(btn),
    }
}

/// The binding a settings name stands for.
pub open spec fn bind_for_name(s: Seq<char>) -> Option<PttBind> {
    if s == "Mouse2"@ || s == "MouseRight"@ || s == "Mouse2 (Right)"@ {
        Some(PttBind::Mouse(2))
    } else if s == "Mouse3"@ || s == "MouseMiddle"@ || s == "Mouse3 (Middle)"@ {
        Some(PttBind::Mouse(3))
    } else if s == "Mouse4"@ {
        Some(PttBind::Mouse(4))
    } else if s == "Mouse5"@ {
        Some(PttBind::Mouse(5))
    } else {
        match key_for_upper_name(unicode_uppercase(s)) {
            Some(k) => Some(PttBind::Key(k)),
            None => None,
        }
    }
}

impl PttBind {
    /// The name shown for the binding.
    pub fn display_name(&self) -> (r: String)
        ensures
            r@ == bind_name_spec(*self),
    {
        match self {
            PttBind::Key(kc) => keycode_to_name(kc),
            PttBind::Mouse(btn) => mouse_button_name(*btn),
        }
    }

    /// The name the binding is saved under in the settings.
    pub fn to_setting_string(&self) -> (r: String)
        ensures
            r@ == bind_name_spec(*self),
    {
        match self {
            PttBind::Key(kc) => keycode_to_name(kc),
            PttBind::Mouse(btn) => mouse_button_name(*btn),
        }
    }

    /// The binding saved under a settings name: the mouse-button names, their
    /// aliases and the names they are shown and saved under, else a key name
    /// (see [`keycode_from_name`]).
    pub fn from_setting_string(s: &str) -> (r: Option<PttBind>)
        ensures
            r == bind_for_name(s@),
            is_ascii_chars(s@) ==> r == bind_for_ascii_name(s@),
    {
        if str_equal(s, "Mouse2") || str_equal(s, "MouseRight") || str_equal(s, "Mouse2 (Right)") {
            Some(PttBind::Mouse(2))
        } else if str_equal(s, "Mouse3") || str_equal(s, "MouseMiddle") || str_equal(s, "Mouse3 (Middle)") {
            Some(PttBind::Mouse(3))
        } else if str_equal(s, "Mouse4") {
            Some(PttBind::Mouse(4))
        } else if str_equal(s, "Mouse5") {
            Some(PttBind::Mouse(5))
        } else {
            match keycode_from_name(s) {
                Some(k) => Some(PttBind::Key(k)),
                None => None,
            }
        }
    }
}


/// The binding a settings name stands for, with ASCII upper-casing.
pub open spec fn bind_for_ascii_name(s: Seq<char>) -> Option<PttBind> {
    if s == "Mouse2"@ || s == "MouseRight"@ || s == "Mouse2 (Right)"@ {
        Some(PttBind::Mouse(2))
    } else if s == "Mouse3"@ || s == "MouseMiddle"@ || s == "Mouse3 (Middle)"@ {
        Some(PttBind::Mouse(3))
    } else if s == "Mouse4"@ {
        Some(PttBind::Mouse(4))
    } else if s == "Mouse5"@ {
        Some(PttBind::Mouse(5))
    } else {
        match key_for_upper_name(ascii_uppercase(s)) {
            Some(k) => Some(PttBind::Key(k)),
            None => None,
        }
    }
}

/// Keys whose saved name reads back as the same key: letters, digits, F1 to
/// F12, Space, Tab, Caps Lock and the left and right Shift, Ctrl and Alt.
pub open spec fn settable_key(k: Key) -> bool {
    match k {
        Key::A => true,
        Key::B => true,
        Key::C => true,
        Key::D => true,
        Key::E => true,
        Key::F => true,
        Key::G => true,
        Key::H => true,
        Key::I => true,
        Key::J => true,
        Key::K => true,
        Key::L => true,
        Key::M => true,
        Key::N => true,
        Key::O => true,
        Key::P => true,
        Key::Q => true,
        Key::R => true,
        Key::S => true,
        Key::T => true,
        Key::U => true,
        Key::V => true,
        Key::W => true,
        Key::X => true,
        Key::Y => true,
        Key::Z => true,
        Key::Key0 => true,
        Key::Key1 => true,
        Key::Key2 => true,
        Key::Key3 => true,
        Key::Key4 => true,
        Key::Key5 => true,
        Key::Key6 => true,
        Key::Key7 => true,
        Key::Key8 => true,
        Key::Key9 => true,
        Key::F1 => true,
        Key::F2 => true,
        Key::F3 => true,
        Key::F4 => true,
        Key::F5 => true,
        Key::F6 => true,
        Key::F7 => true,
        Key::F8 => true,
        Key::F9 => true,
        Key::F10 => true,
        Key::F11 => true,
        Key::F12 => true,
        Key::Space => true,
        Key::Tab => true,
        Key::CapsLock => true,
        Key::LShift => true,
        Key::RShift => true,
        Key::LControl => true,
        Key::RControl => true,
        Key::LAlt => true,
        Key::RAlt => true,
        _ => false,
    }
}

proof fn lemma_letters_round_trip(k: Key)
    requires
        match k {
            Key::A => true,
            Key::B => true,
            Key::C => true,
            Key::D => true,
            Key::E => true,
            Key::F => true,
            Key::G => true,
            Key::H => true,
            Key::I => true,
            Key::J => true,
            Key::K => true,
            Key::L => true,
            Key::M => true,
            Key::N => true,
            Key::O => true,
            Key::P => true,
            Key::Q => true,
            Key::R => true,
            Key::S => true,
            Key::T => true,
            Key::U => true,
            Key::V => true,
            Key::W => true,
            Key::X => true,
            Key::Y => true,
            Key::Z => true,
            _ => false,
        },
    ensures
        is_ascii_chars(key_name_spec(k)),
        bind_for_ascii_name(key_name_spec(k)) == Some(PttBind::Key(k)),
{
    reveal_strlit("A");
    reveal_strlit("B");
    reveal_strlit("C");
    reveal_strlit("CAPS");
    reveal_strlit("CAPSLOCK");
    reveal_strlit("D");
    reveal_strlit("E");
    reveal_strlit("F");
    reveal_strlit("F1");
    reveal_strlit("F10");
    reveal_strlit("F11");
    reveal_strlit("F12");
    reveal_strlit("F2");
    reveal_strlit("F3");
    reveal_strlit("F4");
    reveal_strlit("F5");
    reveal_strlit("F6");
    reveal_strlit("F7");
    reveal_strlit("F8");
    reveal_strlit("F9");
    reveal_strlit("G");
    reveal_strlit("H");
    reveal_strlit("I");
    reveal_strlit("J");
    reveal_strlit("K");
    reveal_strlit("L");
    reveal_strlit("LALT");
    reveal_strlit("LCTRL");
    reveal_strlit("LEFT ALT");
    reveal_strlit("LEFT CTRL");
    reveal_strlit("LEFT SHIFT");
    reveal_strlit("LSHIFT");
    reveal_strlit("M");
    reveal_strlit("Mouse2");
    reveal_strlit("Mouse3");
    reveal_strlit("Mouse4");
    reveal_strlit("Mouse5");
    reveal_strlit("MouseMiddle");
    reveal_strlit("MouseRight");
    reveal_strlit("Mouse2 (Right)");
    reveal_strlit("Mouse3 (Middle)");
    reveal_strlit("N");
    reveal_strlit("O");
    reveal_strlit("P");
    reveal_strlit("Q");
    reveal_strlit("R");
    reveal_strlit("RALT");
    reveal_strlit("RCTRL");
    reveal_strlit("RIGHT ALT");
    reveal_strlit("RIGHT CTRL");
    reveal_strlit("RIGHT SHIFT");
    reveal_strlit("RSHIFT");
    reveal_strlit("S");
    reveal_strlit("SPACE");
    reveal_strlit("T");
    reveal_strlit("TAB");
    reveal_strlit("U");
    reveal_strlit("V");
    reveal_strlit("W");
    reveal_strlit("X");
    reveal_strlit("Y");
    reveal_strlit("Z");
    match k {
        Key::A => {
            assert(ascii_uppercase(key_name_spec(k)) =~= "A"@);
            vstd::utf8::is_ascii_chars_encode_utf8("A"@);
        },
        Key::B => {
            assert(ascii_uppercase(key_name_spec(k)) =~= "B"@);
            vstd::utf8::is_ascii_chars_encode_utf8("B"@);
        },
        Key::C => {
            assert(ascii_uppercase(key_name_spec(k)) =~= "C"@);
            vstd::utf8::is_ascii_chars_encode_utf8("C"@);
        },
        Key::D => {
            assert(ascii_uppercase(key_name_spec(k)) =~= "D"@);
            vstd::utf8::is_ascii_chars_encode_utf8("D"@);
        },
        Key::E => {
            assert(ascii_uppercase(key_name_spec(k)) =~= "E"@);
            vstd::utf8::is_ascii_chars_encode_utf8("E"@);
        },
        Key::F => {
            assert(ascii_uppercase(key_name_spec(k)) =~= "F"@);
            vstd::utf8::is_ascii_chars_encode_utf8("F"@);
        },
        Key::G => {
            assert(ascii_uppercase(key_name_spec(k)) =~= "G"@);
            vstd::utf8::is_ascii_chars_encode_utf8("G"@);
        },
        Key::H => {
            assert(ascii_uppercase(key_name_spec(k)) =~= "H"@);
            vstd::utf8::is_ascii_chars_encode_utf8("H"@);
        },
        Key::I => {
            assert(ascii_uppercase(key_name_spec(k)) =~= "I"@);
            vstd::utf8::is_ascii_chars_encode_utf8("I"@);
        },
        Key::J => {
            assert(ascii_uppercase(key_name_spec(k)) =~= "J"@);
            vstd::utf8::is_ascii_chars_encode_utf8("J"@);
        },
        Key::K => {
            assert(ascii_uppercase(key_name_spec(k)) =~= "K"@);
            vstd::utf8::is_ascii_chars_encode_utf8("K"@);
        },
        Key::L => {
            assert(ascii_uppercase(key_name_spec(k)) =~= "L"@);
            vstd::utf8::is_ascii_chars_encode_utf8("L"@);
        },
        Key::M => {
            assert(ascii_uppercase(key_name_spec(k)) =~= "M"@);
            vstd::utf8::is_ascii_chars_encode_utf8("M"@);
        },
        Key::N => {
            assert(ascii_uppercase(key_name_spec(k)) =~= "N"@);
            vstd::utf8::is_ascii_chars_encode_utf8("N"@);
        },
        Key::O => {
            assert(ascii_uppercase(key_name_spec(k)) =~= "O"@);
            vstd::utf8::is_ascii_chars_encode_utf8("O"@);
        },
        Key::P => {
            assert(ascii_uppercase(key_name_spec(k)) =~= "P"@);
            vstd::utf8::is_ascii_chars_encode_utf8("P"@);
        },
        Key::Q => {
            assert(ascii_uppercase(key_name_spec(k)) =~= "Q"@);
            vstd::utf8::is_ascii_chars_encode_utf8("Q"@);
        },
        Key::R => {
            assert(ascii_uppercase(key_name_spec(k)) =~= "R"@);
            vstd::utf8::is_ascii_chars_encode_utf8("R"@);
        },
        Key::S => {
            assert(ascii_uppercase(key_name_spec(k)) =~= "S"@);
            vstd::utf8::is_ascii_chars_encode_utf8("S"@);
        },
        Key::T => {
            assert(ascii_uppercase(key_name_spec(k)) =~= "T"@);
            vstd::utf8::is_ascii_chars_encode_utf8("T"@);
        },
        Key::U => {
            assert(ascii_uppercase(key_name_spec(k)) =~= "U"@);
            vstd::utf8::is_ascii_chars_encode_utf8("U"@);
        },
        Key::V => {
            assert(ascii_uppercase(key_name_spec(k)) =~= "V"@);
            vstd::utf8::is_ascii_chars_encode_utf8("V"@);
        },
        Key::W => {
            assert(ascii_uppercase(key_name_spec(k)) =~= "W"@);
            vstd::utf8::is_ascii_chars_encode_utf8("W"@);
        },
        Key::X => {
            assert(ascii_uppercase(key_name_spec(k)) =~= "X"@);
            vstd::utf8::is_ascii_chars_encode_utf8("X"@);
        },
        Key::Y => {
            assert(ascii_uppercase(key_name_spec(k)) =~= "Y"@);
            vstd::utf8::is_ascii_chars_encode_utf8("Y"@);
        },
        Key::Z => {
            assert(ascii_uppercase(key_name_spec(k)) =~= "Z"@);
            vstd::utf8::is_ascii_chars_encode_utf8("Z"@);
        },
        _ => {},
    }
}

proof fn lemma_digits_round_trip(k: Key)
    requires
        match k {
            Key::Key0 => true,
            Key::Key1 => true,
            Key::Key2 => true,
            Key::Key3 => true,
            Key::Key4 => true,
            Key::Key5 => true,
            Key::Key6 => true,
            Key::Key7 => true,
            Key::Key8 => true,
            Key::Key9 => true,
            _ => false,
        },
    ensures
        is_ascii_chars(key_name_spec(k)),
        bind_for_ascii_name(key_name_spec(k)) == Some(PttBind::Key(k)),
{
    reveal_strlit("0");
    reveal_strlit("1");
    reveal_strlit("2");
    reveal_strlit("3");
    reveal_strlit("4");
    reveal_strlit("5");
    reveal_strlit("6");
    reveal_strlit("7");
    reveal_strlit("8");
    reveal_strlit("9");
    reveal_strlit("B");
    reveal_strlit("CAPS");
    reveal_strlit("CAPSLOCK");
    reveal_strlit("F1");
    reveal_strlit("F10");
    reveal_strlit("F11");
    reveal_strlit("F12");
    reveal_strlit("F2");
    reveal_strlit("F3");
    reveal_strlit("F4");
    reveal_strlit("F5");
    reveal_strlit("F6");
    reveal_strlit("F7");
    reveal_strlit("F8");
    reveal_strlit("F9");
    reveal_strlit("G");
    reveal_strlit("LALT");
    reveal_strlit("LCTRL");
    reveal_strlit("LEFT ALT");
    reveal_strlit("LEFT CTRL");
    reveal_strlit("LEFT SHIFT");
    reveal_strlit("LSHIFT");
    reveal_strlit("M");
    reveal_strlit("Mouse2");
    reveal_strlit("Mouse3");
    reveal_strlit("Mouse4");
    reveal_strlit("Mouse5");
    reveal_strlit("MouseMiddle");
    reveal_strlit("MouseRight");
    reveal_strlit("Mouse2 (Right)");
    reveal_strlit("Mouse3 (Middle)");
    reveal_strlit("N");
    reveal_strlit("RALT");
    reveal_strlit("RCTRL");
    reveal_strlit("RIGHT ALT");
    reveal_strlit("RIGHT CTRL");
    reveal_strlit("RIGHT SHIFT");
    reveal_strlit("RSHIFT");
    reveal_strlit("SPACE");
    reveal_strlit("T");
    reveal_strlit("TAB");
    reveal_strlit("V");
    match k {
        Key::Key0 => {
            assert(ascii_uppercase(key_name_spec(k)) =~= "0"@);
            vstd::utf8::is_ascii_chars_encode_utf8("0"@);
        },
        Key::Key1 => {
            assert(ascii_uppercase(key_name_spec(k)) =~= "1"@);
            vstd::utf8::is_ascii_chars_encode_utf8("1"@);
        },
        Key::Key2 => {
            assert(ascii_uppercase(key_name_spec(k)) =~= "2"@);
            vstd::utf8::is_ascii_chars_encode_utf8("2"@);
        },
        Key::Key3 => {
            assert(ascii_uppercase(key_name_spec(k)) =~= "3"@);
            vstd::utf8::is_ascii_chars_encode_utf8("3"@);
        },
        Key::Key4 => {
            assert(ascii_uppercase(key_name_spec(k)) =~= "4"@);
            vstd::utf8::is_ascii_chars_encode_utf8("4"@);
        },
        Key::Key5 => {
            assert(ascii_uppercase(key_name_spec(k)) =~= "5"@);
            vstd::utf8::is_ascii_chars_encode_utf8("5"@);
        },
        Key::Key6 => {
            assert(ascii_uppercase(key_name_spec(k)) =~= "6"@);
            vstd::utf8::is_ascii_chars_encode_utf8("6"@);
        },
        Key::Key7 => {
            assert(ascii_uppercase(key_name_spec(k)) =~= "7"@);
            vstd::utf8::is_ascii_chars_encode_utf8("7"@);
        },
        Key::Key8 => {
            assert(ascii_uppercase(key_name_spec(k)) =~= "8"@);
            vstd::utf8::is_ascii_chars_encode_utf8("8"@);
        },
        Key::Key9 => {
            assert(ascii_uppercase(key_name_spec(k)) =~= "9"@);
            vstd::utf8::is_ascii_chars_encode_utf8("9"@);
        },
        _ => {},
    }
}

proof fn lemma_fkeys_round_trip(k: Key)
    requires
        match k {
            Key::F1 => true,
            Key::F2 => true,
            Key::F3 => true,
            Key::F4 => true,
            Key::F5 => true,
            Key::F6 => true,
            Key::F7 => true,
            Key::F8 => true,
            Key::F9 => true,
            Key::F10 => true,
            Key::F11 => true,
            Key::F12 => true,
            _ => false,
        },
    ensures
        is_ascii_chars(key_name_spec(k)),
        bind_for_ascii_name(key_name_spec(k)) == Some(PttBind::Key(k)),
{
    reveal_strlit("B");
    reveal_strlit("CAPS");
    reveal_strlit("CAPSLOCK");
    reveal_strlit("F1");
    reveal_strlit("F10");
    reveal_strlit("F11");
    reveal_strlit("F12");
    reveal_strlit("F2");
    reveal_strlit("F3");
    reveal_strlit("F4");
    reveal_strlit("F5");
    reveal_strlit("F6");
    reveal_strlit("F7");
    reveal_strlit("F8");
    reveal_strlit("F9");
    reveal_strlit("G");
    reveal_strlit("LALT");
    reveal_strlit("LCTRL");
    reveal_strlit("LEFT ALT");
    reveal_strlit("LEFT CTRL");
    reveal_strlit("LEFT SHIFT");
    reveal_strlit("LSHIFT");
    reveal_strlit("M");
    reveal_strlit("Mouse2");
    reveal_strlit("Mouse3");
    reveal_strlit("Mouse4");
    reveal_strlit("Mouse5");
    reveal_strlit("MouseMiddle");
    reveal_strlit("MouseRight");
    reveal_strlit("Mouse2 (Right)");
    reveal_strlit("Mouse3 (Middle)");
    reveal_strlit("N");
    reveal_strlit("RALT");
    reveal_strlit("RCTRL");
    reveal_strlit("RIGHT ALT");
    reveal_strlit("RIGHT CTRL");
    reveal_strlit("RIGHT SHIFT");
    reveal_strlit("RSHIFT");
    reveal_strlit("SPACE");
    reveal_strlit("T");
    reveal_strlit("TAB");
    reveal_strlit("V");
    match k {
        Key::F1 => {
            assert(ascii_uppercase(key_name_spec(k)) =~= "F1"@);
            vstd::utf8::is_ascii_chars_encode_utf8("F1"@);
        },
        Key::F2 => {
            assert(ascii_uppercase(key_name_spec(k)) =~= "F2"@);
            vstd::utf8::is_ascii_chars_encode_utf8("F2"@);
            assert("F2"@[1] != "F1"@[1]);
        },
        Key::F3 => {
            assert(ascii_uppercase(key_name_spec(k)) =~= "F3"@);
            vstd::utf8::is_ascii_chars_encode_utf8("F3"@);
            assert("F3"@[1] != "F1"@[1]);
            assert("F3"@[1] != "F2"@[1]);
        },
        Key::F4 => {
            assert(ascii_uppercase(key_name_spec(k)) =~= "F4"@);
            vstd::utf8::is_ascii_chars_encode_utf8("F4"@);
            assert("F4"@[1] != "F1"@[1]);
            assert("F4"@[1] != "F2"@[1]);
            assert("F4"@[1] != "F3"@[1]);
        },
        Key::F5 => {
            assert(ascii_uppercase(key_name_spec(k)) =~= "F5"@);
            vstd::utf8::is_ascii_chars_encode_utf8("F5"@);
            assert("F5"@[1] != "F1"@[1]);
            assert("F5"@[1] != "F2"@[1]);
            assert("F5"@[1] != "F3"@[1]);
            assert("F5"@[1] != "F4"@[1]);
        },
        Key::F6 => {
            assert(ascii_uppercase(key_name_spec(k)) =~= "F6"@);
            vstd::utf8::is_ascii_chars_encode_utf8("F6"@);
            assert("F6"@[1] != "F1"@[1]);
            assert("F6"@[1] != "F2"@[1]);
            assert("F6"@[1] != "F3"@[1]);
            assert("F6"@[1] != "F4"@[1]);
            assert("F6"@[1] != "F5"@[1]);
        },
        Key::F7 => {
            assert(ascii_uppercase(key_name_spec(k)) =~= "F7"@);
            vstd::utf8::is_ascii_chars_encode_utf8("F7"@);
            assert("F7"@[1] != "F1"@[1]);
            assert("F7"@[1] != "F2"@[1]);
            assert("F7"@[1] != "F3"@[1]);
            assert("F7"@[1] != "F4"@[1]);
            assert("F7"@[1] != "F5"@[1]);
            assert("F7"@[1] != "F6"@[1]);
        },
        Key::F8 => {
            assert(ascii_uppercase(key_name_spec(k)) =~= "F8"@);
            vstd::utf8::is_ascii_chars_encode_utf8("F8"@);
            assert("F8"@[1] != "F1"@[1]);
            assert("F8"@[1] != "F2"@[1]);
            assert("F8"@[1] != "F3"@[1]);
            assert("F8"@[1] != "F4"@[1]);
            assert("F8"@[1] != "F5"@[1]);
            assert("F8"@[1] != "F6"@[1]);
            assert("F8"@[1] != "F7"@[1]);
        },
        Key::F9 => {
            assert(ascii_uppercase(key_name_spec(k)) =~= "F9"@);
            vstd::utf8::is_ascii_chars_encode_utf8("F9"@);
            assert("F9"@[1] != "F1"@[1]);
            assert("F9"@[1] != "F2"@[1]);
            assert("F9"@[1] != "F3"@[1]);
            assert("F9"@[1] != "F4"@[1]);
            assert("F9"@[1] != "F5"@[1]);
            assert("F9"@[1] != "F6"@[1]);
            assert("F9"@[1] != "F7"@[1]);
            assert("F9"@[1] != "F8"@[1]);
        },
        Key::F10 => {
            assert(ascii_uppercase(key_name_spec(k)) =~= "F10"@);
            vstd::utf8::is_ascii_chars_encode_utf8("F10"@);
        },
        Key::F11 => {
            assert(ascii_uppercase(key_name_spec(k)) =~= "F11"@);
            vstd::utf8::is_ascii_chars_encode_utf8("F11"@);
            assert("F11"@[2] != "F10"@[2]);
        },
        Key::F12 => {
            assert(ascii_uppercase(key_name_spec(k)) =~= "F12"@);
            vstd::utf8::is_ascii_chars_encode_utf8("F12"@);
            assert("F12"@[2] != "F10"@[2]);
            assert("F12"@[2] != "F11"@[2]);
        },
        _ => {},
    }
}

proof fn lemma_named_round_trip(k: Key)
    requires
        match k {
            Key::Space => true,
            Key::Tab => true,
            Key::CapsLock => true,
            Key::LShift => true,
            Key::RShift => true,
            Key::LControl => true,
            Key::RControl => true,
            Key::LAlt => true,
            Key::RAlt => true,
            _ => false,
        },
    ensures
        is_ascii_chars(key_name_spec(k)),
        bind_for_ascii_name(key_name_spec(k)) == Some(PttBind::Key(k)),
{
    reveal_strlit("B");
    reveal_strlit("CAPS");
    reveal_strlit("CAPSLOCK");
    reveal_strlit("CapsLock");
    reveal_strlit("F1");
    reveal_strlit("F10");
    reveal_strlit("F11");
    reveal_strlit("F12");
    reveal_strlit("F2");
    reveal_strlit("F3");
    reveal_strlit("F4");
    reveal_strlit("F5");
    reveal_strlit("F6");
    reveal_strlit("F7");
    reveal_strlit("F8");
    reveal_strlit("F9");
    reveal_strlit("G");
    reveal_strlit("LALT");
    reveal_strlit("LAlt");
    reveal_strlit("LCTRL");
    reveal_strlit("LCtrl");
    reveal_strlit("LEFT ALT");
    reveal_strlit("LEFT CTRL");
    reveal_strlit("LEFT SHIFT");
    reveal_strlit("LSHIFT");
    reveal_strlit("LShift");
    reveal_strlit("M");
    reveal_strlit("Mouse2");
    reveal_strlit("Mouse3");
    reveal_strlit("Mouse4");
    reveal_strlit("Mouse5");
    reveal_strlit("MouseMiddle");
    reveal_strlit("MouseRight");
    reveal_strlit("Mouse2 (Right)");
    reveal_strlit("Mouse3 (Middle)");
    reveal_strlit("N");
    reveal_strlit("RALT");
    reveal_strlit("RAlt");
    reveal_strlit("RCTRL");
    reveal_strlit("RCtrl");
    reveal_strlit("RIGHT ALT");
    reveal_strlit("RIGHT CTRL");
    reveal_strlit("RIGHT SHIFT");
    reveal_strlit("RSHIFT");
    reveal_strlit("RShift");
    reveal_strlit("SPACE");
    reveal_strlit("Space");
    reveal_strlit("T");
    reveal_strlit("TAB");
    reveal_strlit("Tab");
    reveal_strlit("V");
    match k {
        Key::Space => {
            assert(ascii_uppercase(key_name_spec(k)) =~= "SPACE"@);
            vstd::utf8::is_ascii_chars_encode_utf8("SPACE"@);
        },
        Key::Tab => {
            assert(ascii_uppercase(key_name_spec(k)) =~= "TAB"@);
            vstd::utf8::is_ascii_chars_encode_utf8("TAB"@);
        },
        Key::CapsLock => {
            assert(ascii_uppercase(key_name_spec(k)) =~= "CAPSLOCK"@);
            vstd::utf8::is_ascii_chars_encode_utf8("CAPSLOCK"@);
        },
        Key::LShift => {
            assert(ascii_uppercase(key_name_spec(k)) =~= "LSHIFT"@);
            vstd::utf8::is_ascii_chars_encode_utf8("LSHIFT"@);
        },
        Key::RShift => {
            assert(ascii_uppercase(key_name_spec(k)) =~= "RSHIFT"@);
            vstd::utf8::is_ascii_chars_encode_utf8("RSHIFT"@);
        },
        Key::LControl => {
            assert(ascii_uppercase(key_name_spec(k)) =~= "LCTRL"@);
            vstd::utf8::is_ascii_chars_encode_utf8("LCTRL"@);
        },
        Key::RControl => {
            assert(ascii_uppercase(key_name_spec(k)) =~= "RCTRL"@);
            vstd::utf8::is_ascii_chars_encode_utf8("RCTRL"@);
        },
        Key::LAlt => {
            assert(ascii_uppercase(key_name_spec(k)) =~= "LALT"@);
            vstd::utf8::is_ascii_chars_encode_utf8("LALT"@);
        },
        Key::RAlt => {
            assert(ascii_uppercase(key_name_spec(k)) =~= "RALT"@);
            vstd::utf8::is_ascii_chars_encode_utf8("RALT"@);
        },
        _ => {},
    }
}

proof fn lemma_key_round_trip(k: Key)
    requires
        settable_key(k),
    ensures
        is_ascii_chars(key_name_spec(k)),
        bind_for_ascii_name(key_name_spec(k)) == Some(PttBind::Key(k)),
{
    match k {
        Key::A => lemma_letters_round_trip(k),
        Key::B => lemma_letters_round_trip(k),
        Key::C => lemma_letters_round_trip(k),
        Key::D => lemma_letters_round_trip(k),
        Key::E => lemma_letters_round_trip(k),
        Key::F => lemma_letters_round_trip(k),
        Key::G => lemma_letters_round_trip(k),
        Key::H => lemma_letters_round_trip(k),
        Key::I => lemma_letters_round_trip(k),
        Key::J => lemma_letters_round_trip(k),
        Key::K => lemma_letters_round_trip(k),
        Key::L => lemma_letters_round_trip(k),
        Key::M => lemma_letters_round_trip(k),
        Key::N => lemma_letters_round_trip(k),
        Key::O => lemma_letters_round_trip(k),
        Key::P => lemma_letters_round_trip(k),
        Key::Q => lemma_letters_round_trip(k),
        Key::R => lemma_letters_round_trip(k),
        Key::S => lemma_letters_round_trip(k),
        Key::T => lemma_letters_round_trip(k),
        Key::U => lemma_letters_round_trip(k),
        Key::V => lemma_letters_round_trip(k),
        Key::W => lemma_letters_round_trip(k),
        Key::X => lemma_letters_round_trip(k),
        Key::Y => lemma_letters_round_trip(k),
        Key::Z => lemma_letters_round_trip(k),
        Key::Key0 => lemma_digits_round_trip(k),
        Key::Key1 => lemma_digits_round_trip(k),
        Key::Key2 => lemma_digits_round_trip(k),
        Key::Key3 => lemma_digits_round_trip(k),
        Key::Key4 => lemma_digits_round_trip(k),
        Key::Key5 => lemma_digits_round_trip(k),
        Key::Key6 => lemma_digits_round_trip(k),
        Key::Key7 => lemma_digits_round_trip(k),
        Key::Key8 => lemma_digits_round_trip(k),
        Key::Key9 => lemma_digits_round_trip(k),
        Key::F1 => lemma_fkeys_round_trip(k),
        Key::F2 => lemma_fkeys_round_trip(k),
        Key::F3 => lemma_fkeys_round_trip(k),
        Key::F4 => lemma_fkeys_round_trip(k),
        Key::F5 => lemma_fkeys_round_trip(k),
        Key::F6 => lemma_fkeys_round_trip(k),
        Key::F7 => lemma_fkeys_round_trip(k),
        Key::F8 => lemma_fkeys_round_trip(k),
        Key::F9 => lemma_fkeys_round_trip(k),
        Key::F10 => lemma_fkeys_round_trip(k),
        Key::F11 => lemma_fkeys_round_trip(k),
        Key::F12 => lemma_fkeys_round_trip(k),
        Key::Space => lemma_named_round_trip(k),
        Key::Tab => lemma_named_round_trip(k),
        Key::CapsLock => lemma_named_round_trip(k),
        Key::LShift => lemma_named_round_trip(k),
        Key::RShift => lemma_named_round_trip(k),
        Key::LControl => lemma_named_round_trip(k),
        Key::RControl => lemma_named_round_trip(k),
        Key::LAlt => lemma_named_round_trip(k),
        Key::RAlt => lemma_named_round_trip(k),
        _ => {},
    }
}

/// Saving a binding and reading the name back gives the same binding for the
/// keys of [`settable_key`] and the mouse buttons 2 to 5.
pub proof fn law_binding_round_trip(b: PttBind)
    requires
        match b {
            PttBind::Key(k) => settable_key(k),
            PttBind::Mouse(btn) => 2 <= btn <= 5,
        },
    ensures
        is_ascii_chars(bind_name_spec(b)),
        bind_for_ascii_name(bind_name_spec(b)) == Some(b),
{
    reveal_strlit("Mouse4");
    reveal_strlit("Mouse5");
    reveal_strlit("Mouse2");
    reveal_strlit("Mouse3");
    reveal_strlit("MouseRight");
    reveal_strlit("Mouse2 (Right)");
    reveal_strlit("Mouse3 (Middle)");
    reveal_strlit("MouseMiddle");
    match b {
        PttBind::Key(k) => lemma_key_round_trip(k),
        PttBind::Mouse(btn) => {
            assert("Mouse4"@[5] != "Mouse2"@[5] && "Mouse4"@[5] != "Mouse3"@[5]);
            assert("Mouse5"@[5] != "Mouse2"@[5] && "Mouse5"@[5] != "Mouse3"@[5] && "Mouse5"@[5] != "Mouse4"@[5]);
        },
    }
}

/// The first mouse button from 2 up that is held in `buttons` (indexed by
/// button number), if any.
pub open spec fn first_held_button(buttons: Seq<bool>) -> Option<int> {
    if exists|i: int| 2 <= i < buttons.len() && buttons[i] {
        Some(choose|i: int| 2 <= i < buttons.len() && buttons[i] && forall|j: int| 2 <= j < i ==> !buttons[j])
    } else {
        None
    }
}

/// The binding taken from what is held down while a new binding is awaited:
/// the first key reported, else the first held mouse button from 2 up (the
/// left button is never taken), else nothing.
pub fn capture_any_input(keys: &Vec<Key>, buttons: &Vec<bool>) -> (r: Option<PttBind>)
    ensures
        keys@.len() > 0 ==> r == Some(PttBind::Key(keys@[0])),
        keys@.len() == 0 ==> r == match first_held_button(buttons@) {
            Some(i) => Some(PttBind::Mouse(#[verifier::truncate] (i as u8))),
            None => None,
        },
{
    if keys.len() > 0 {
        return Some(PttBind::Key(keys[0]));
    }
    let mut i: usize = 2;
    while i < buttons.len()
        invariant
            2 <= i,
            keys@.len() == 0,
            forall|j: int| 2 <= j < i && j < buttons@.len() ==> !buttons@[j],
        decreases buttons@.len() - i,
    {
        if buttons[i] {
            proof {
                let w = choose|k: int| 2 <= k < buttons@.len() && buttons@[k] && forall|j: int| 2 <= j < k ==> !buttons@[j];
                assert(2 <= i < buttons@.len() && buttons@[i as int] && forall|j: int| 2 <= j < i ==> !buttons@[j]);
                assert(w == i) by {
                    if w < i {
                        assert(!buttons@[w]);
                    } else if w > i {
                        assert(!buttons@[i as int]);
                    }
                }
            }
            return Some(PttBind::Mouse(i as u8));
        }
        i = i + 1;
    }
    None
}

/// Whether the binding is held: its key is among the keys held, or its mouse
/// button is held.
pub open spec fn bind_held(b: PttBind, keys: Seq<Key>, buttons: Seq<bool>) -> bool {
    match b {
        PttBind::Key(k) => keys.contains(k),
        PttBind::Mouse(btn) => btn < buttons.len() && buttons[btn as int],
    }
}

/// Whether push-to-talk is held (see [`bind_held`]).
pub fn bind_pressed(b: PttBind, keys: &Vec<Key>, buttons: &Vec<bool>) -> (r: bool)
    ensures
        r == bind_held(b, keys@, buttons@),
{
    match b {
        PttBind::Key(k) => {
            let mut i: usize = 0;
            while i < keys.len()
                invariant
                    0 <= i <= keys@.len(),
                    b == PttBind::Key(k),
                    forall|j: int| 0 <= j < i ==> keys@[j] != k,
                decreases keys@.len() - i,
            {
                if keys[i] == k {
                    assert(keys@[i as int] == k);
                    return true;
                }
                i = i + 1;
            }
            false
        },
        PttBind::Mouse(btn) => {
            let idx = btn as usize;
            idx < buttons.len() && buttons[idx]
        },
    }
}

/// The other names a key may be saved under, with the key each stands for.
pub open spec fn key_aliases() -> Seq<(Seq<char>, Key)> {
    seq![
        ("CAPS"@, Key::CapsLock),
        ("LEFT ALT"@, Key::LAlt),
        ("RIGHT ALT"@, Key::RAlt),
        ("LEFT CTRL"@, Key::LControl),
        ("RIGHT CTRL"@, Key::RControl),
        ("LEFT SHIFT"@, Key::LShift),
        ("RIGHT SHIFT"@, Key::RShift),
    ]
}

/// Every alias reads back as its key, the same key that the key's own saved
/// name reads back as.
pub proof fn law_aliases_agree(i: int)
    requires
        0 <= i < key_aliases().len(),
    ensures
        key_for_upper_name(key_aliases()[i].0) == Some(key_aliases()[i].1),
        key_for_upper_name(ascii_uppercase(key_name_spec(key_aliases()[i].1))) == key_for_upper_name(
            key_aliases()[i].0,
        ),
{
    let k = key_aliases()[i].1;
    assert(settable_key(k));
    lemma_key_round_trip(k);
    reveal_strlit("V");
    reveal_strlit("B");
    reveal_strlit("N");
    reveal_strlit("M");
    reveal_strlit("G");
    reveal_strlit("T");
    reveal_strlit("CAPS");
    reveal_strlit("CAPSLOCK");
    reveal_strlit("LALT");
    reveal_strlit("LEFT ALT");
    reveal_strlit("RALT");
    reveal_strlit("RIGHT ALT");
    reveal_strlit("LCTRL");
    reveal_strlit("LEFT CTRL");
    reveal_strlit("RCTRL");
    reveal_strlit("RIGHT CTRL");
    reveal_strlit("LSHIFT");
    reveal_strlit("LEFT SHIFT");
    reveal_strlit("RSHIFT");
    reveal_strlit("RIGHT SHIFT");
    reveal_strlit("CapsLock");
    reveal_strlit("LAlt");
    reveal_strlit("RAlt");
    reveal_strlit("LCtrl");
    reveal_strlit("RCtrl");
    reveal_strlit("LShift");
    reveal_strlit("RShift");
    reveal_strlit("Mouse2");
    reveal_strlit("Mouse3");
    reveal_strlit("Mouse4");
    reveal_strlit("Mouse5");
    reveal_strlit("MouseRight");
    reveal_strlit("MouseMiddle");
    reveal_strlit("Mouse2 (Right)");
    reveal_strlit("Mouse3 (Middle)");
    let a = key_aliases()[i].0;
    assert(key_name_spec(k) != "Mouse2"@ && key_name_spec(k) != "Mouse3"@ && key_name_spec(k) != "Mouse4"@
        && key_name_spec(k) != "Mouse5"@ && key_name_spec(k) != "MouseRight"@ && key_name_spec(k)
        != "MouseMiddle"@ && key_name_spec(k) != "Mouse2 (Right)"@ && key_name_spec(k) != "Mouse3 (Middle)"@);
    assert(key_for_upper_name(ascii_uppercase(key_name_spec(k))) == Some(k));
    if i == 0 {
        assert("CAPS"@ != "V"@) by { assert("CAPS"@.len() != "V"@.len() || "CAPS"@[0] != "V"@[0] || "CAPS"@[1] != "V"@[1]); }
        assert("CAPS"@ != "B"@) by { assert("CAPS"@.len() != "B"@.len() || "CAPS"@[0] != "B"@[0] || "CAPS"@[1] != "B"@[1]); }
        assert("CAPS"@ != "N"@) by { assert("CAPS"@.len() != "N"@.len() || "CAPS"@[0] != "N"@[0] || "CAPS"@[1] != "N"@[1]); }
        assert("CAPS"@ != "M"@) by { assert("CAPS"@.len() != "M"@.len() || "CAPS"@[0] != "M"@[0] || "CAPS"@[1] != "M"@[1]); }
        assert("CAPS"@ != "G"@) by { assert("CAPS"@.len() != "G"@.len() || "CAPS"@[0] != "G"@[0] || "CAPS"@[1] != "G"@[1]); }
        assert("CAPS"@ != "T"@) by { assert("CAPS"@.len() != "T"@.len() || "CAPS"@[0] != "T"@[0] || "CAPS"@[1] != "T"@[1]); }
        assert("CAPS"@ != "CAPSLOCK"@) by { assert("CAPS"@.len() != "CAPSLOCK"@.len() || "CAPS"@[0] != "CAPSLOCK"@[0] || "CAPS"@[1] != "CAPSLOCK"@[1]); }
        assert(key_for_upper_name("CAPS"@) == Some(Key::CapsLock));
    } else if i == 1 {
        assert("LEFT ALT"@ != "V"@) by { assert("LEFT ALT"@.len() != "V"@.len() || "LEFT ALT"@[0] != "V"@[0] || "LEFT ALT"@[1] != "V"@[1]); }
        assert("LEFT ALT"@ != "B"@) by { assert("LEFT ALT"@.len() != "B"@.len() || "LEFT ALT"@[0] != "B"@[0] || "LEFT ALT"@[1] != "B"@[1]); }
        assert("LEFT ALT"@ != "N"@) by { assert("LEFT ALT"@.len() != "N"@.len() || "LEFT ALT"@[0] != "N"@[0] || "LEFT ALT"@[1] != "N"@[1]); }
        assert("LEFT ALT"@ != "M"@) by { assert("LEFT ALT"@.len() != "M"@.len() || "LEFT ALT"@[0] != "M"@[0] || "LEFT ALT"@[1] != "M"@[1]); }
        assert("LEFT ALT"@ != "G"@) by { assert("LEFT ALT"@.len() != "G"@.len() || "LEFT ALT"@[0] != "G"@[0] || "LEFT ALT"@[1] != "G"@[1]); }
        assert("LEFT ALT"@ != "T"@) by { assert("LEFT ALT"@.len() != "T"@.len() || "LEFT ALT"@[0] != "T"@[0] || "LEFT ALT"@[1] != "T"@[1]); }
        assert("LEFT ALT"@ != "CAPSLOCK"@) by { assert("LEFT ALT"@.len() != "CAPSLOCK"@.len() || "LEFT ALT"@[0] != "CAPSLOCK"@[0] || "LEFT ALT"@[1] != "CAPSLOCK"@[1]); }
        assert("LEFT ALT"@ != "CAPS"@) by { assert("LEFT ALT"@.len() != "CAPS"@.len() || "LEFT ALT"@[0] != "CAPS"@[0] || "LEFT ALT"@[1] != "CAPS"@[1]); }
        assert("LEFT ALT"@ != "LALT"@) by { assert("LEFT ALT"@.len() != "LALT"@.len() || "LEFT ALT"@[0] != "LALT"@[0] || "LEFT ALT"@[1] != "LALT"@[1]); }
        assert(key_for_upper_name("LEFT ALT"@) == Some(Key::LAlt));
    } else if i == 2 {
        assert("RIGHT ALT"@ != "V"@) by { assert("RIGHT ALT"@.len() != "V"@.len() || "RIGHT ALT"@[0] != "V"@[0] || "RIGHT ALT"@[1] != "V"@[1]); }
        assert("RIGHT ALT"@ != "B"@) by { assert("RIGHT ALT"@.len() != "B"@.len() || "RIGHT ALT"@[0] != "B"@[0] || "RIGHT ALT"@[1] != "B"@[1]); }
        assert("RIGHT ALT"@ != "N"@) by { assert("RIGHT ALT"@.len() != "N"@.len() || "RIGHT ALT"@[0] != "N"@[0] || "RIGHT ALT"@[1] != "N"@[1]); }
        assert("RIGHT ALT"@ != "M"@) by { assert("RIGHT ALT"@.len() != "M"@.len() || "RIGHT ALT"@[0] != "M"@[0] || "RIGHT ALT"@[1] != "M"@[1]); }
        assert("RIGHT ALT"@ != "G"@) by { assert("RIGHT ALT"@.len() != "G"@.len() || "RIGHT ALT"@[0] != "G"@[0] || "RIGHT ALT"@[1] != "G"@[1]); }
        assert("RIGHT ALT"@ != "T"@) by { assert("RIGHT ALT"@.len() != "T"@.len() || "RIGHT ALT"@[0] != "T"@[0] || "RIGHT ALT"@[1] != "T"@[1]); }
        assert("RIGHT ALT"@ != "CAPSLOCK"@) by { assert("RIGHT ALT"@.len() != "CAPSLOCK"@.len() || "RIGHT ALT"@[0] != "CAPSLOCK"@[0] || "RIGHT ALT"@[1] != "CAPSLOCK"@[1]); }
        assert("RIGHT ALT"@ != "CAPS"@) by { assert("RIGHT ALT"@.len() != "CAPS"@.len() || "RIGHT ALT"@[0] != "CAPS"@[0] || "RIGHT ALT"@[1] != "CAPS"@[1]); }
        assert("RIGHT ALT"@ != "LALT"@) by { assert("RIGHT ALT"@.len() != "LALT"@.len() || "RIGHT ALT"@[0] != "LALT"@[0] || "RIGHT ALT"@[1] != "LALT"@[1]); }
        assert("RIGHT ALT"@ != "LEFT ALT"@) by { assert("RIGHT ALT"@.len() != "LEFT ALT"@.len() || "RIGHT ALT"@[0] != "LEFT ALT"@[0] || "RIGHT ALT"@[1] != "LEFT ALT"@[1]); }
        assert("RIGHT ALT"@ != "RALT"@) by { assert("RIGHT ALT"@.len() != "RALT"@.len() || "RIGHT ALT"@[0] != "RALT"@[0] || "RIGHT ALT"@[1] != "RALT"@[1]); }
        assert(key_for_upper_name("RIGHT ALT"@) == Some(Key::RAlt));
    } else if i == 3 {
        assert("LEFT CTRL"@ != "V"@) by { assert("LEFT CTRL"@.len() != "V"@.len() || "LEFT CTRL"@[0] != "V"@[0] || "LEFT CTRL"@[1] != "V"@[1]); }
        assert("LEFT CTRL"@ != "B"@) by { assert("LEFT CTRL"@.len() != "B"@.len() || "LEFT CTRL"@[0] != "B"@[0] || "LEFT CTRL"@[1] != "B"@[1]); }
        assert("LEFT CTRL"@ != "N"@) by { assert("LEFT CTRL"@.len() != "N"@.len() || "LEFT CTRL"@[0] != "N"@[0] || "LEFT CTRL"@[1] != "N"@[1]); }
        assert("LEFT CTRL"@ != "M"@) by { assert("LEFT CTRL"@.len() != "M"@.len() || "LEFT CTRL"@[0] != "M"@[0] || "LEFT CTRL"@[1] != "M"@[1]); }
        assert("LEFT CTRL"@ != "G"@) by { assert("LEFT CTRL"@.len() != "G"@.len() || "LEFT CTRL"@[0] != "G"@[0] || "LEFT CTRL"@[1] != "G"@[1]); }
        assert("LEFT CTRL"@ != "T"@) by { assert("LEFT CTRL"@.len() != "T"@.len() || "LEFT CTRL"@[0] != "T"@[0] || "LEFT CTRL"@[1] != "T"@[1]); }
        assert("LEFT CTRL"@ != "CAPSLOCK"@) by { assert("LEFT CTRL"@.len() != "CAPSLOCK"@.len() || "LEFT CTRL"@[0] != "CAPSLOCK"@[0] || "LEFT CTRL"@[1] != "CAPSLOCK"@[1]); }
        assert("LEFT CTRL"@ != "CAPS"@) by { assert("LEFT CTRL"@.len() != "CAPS"@.len() || "LEFT CTRL"@[0] != "CAPS"@[0] || "LEFT CTRL"@[1] != "CAPS"@[1]); }
        assert("LEFT CTRL"@ != "LALT"@) by { assert("LEFT CTRL"@.len() != "LALT"@.len() || "LEFT CTRL"@[0] != "LALT"@[0] || "LEFT CTRL"@[1] != "LALT"@[1]); }
        assert("LEFT CTRL"@ != "LEFT ALT"@) by { assert("LEFT CTRL"@.len() != "LEFT ALT"@.len() || "LEFT CTRL"@[0] != "LEFT ALT"@[0] || "LEFT CTRL"@[1] != "LEFT ALT"@[1]); }
        assert("LEFT CTRL"@ != "RALT"@) by { assert("LEFT CTRL"@.len() != "RALT"@.len() || "LEFT CTRL"@[0] != "RALT"@[0] || "LEFT CTRL"@[1] != "RALT"@[1]); }
        assert("LEFT CTRL"@ != "RIGHT ALT"@) by { assert("LEFT CTRL"@.len() != "RIGHT ALT"@.len() || "LEFT CTRL"@[0] != "RIGHT ALT"@[0] || "LEFT CTRL"@[1] != "RIGHT ALT"@[1]); }
        assert("LEFT CTRL"@ != "LCTRL"@) by { assert("LEFT CTRL"@.len() != "LCTRL"@.len() || "LEFT CTRL"@[0] != "LCTRL"@[0] || "LEFT CTRL"@[1] != "LCTRL"@[1]); }
        assert(key_for_upper_name("LEFT CTRL"@) == Some(Key::LControl));
    } else if i == 4 {
        assert("RIGHT CTRL"@ != "V"@) by { assert("RIGHT CTRL"@.len() != "V"@.len() || "RIGHT CTRL"@[0] != "V"@[0] || "RIGHT CTRL"@[1] != "V"@[1]); }
        assert("RIGHT CTRL"@ != "B"@) by { assert("RIGHT CTRL"@.len() != "B"@.len() || "RIGHT CTRL"@[0] != "B"@[0] || "RIGHT CTRL"@[1] != "B"@[1]); }
        assert("RIGHT CTRL"@ != "N"@) by { assert("RIGHT CTRL"@.len() != "N"@.len() || "RIGHT CTRL"@[0] != "N"@[0] || "RIGHT CTRL"@[1] != "N"@[1]); }
        assert("RIGHT CTRL"@ != "M"@) by { assert("RIGHT CTRL"@.len() != "M"@.len() || "RIGHT CTRL"@[0] != "M"@[0] || "RIGHT CTRL"@[1] != "M"@[1]); }
        assert("RIGHT CTRL"@ != "G"@) by { assert("RIGHT CTRL"@.len() != "G"@.len() || "RIGHT CTRL"@[0] != "G"@[0] || "RIGHT CTRL"@[1] != "G"@[1]); }
        assert("RIGHT CTRL"@ != "T"@) by { assert("RIGHT CTRL"@.len() != "T"@.len() || "RIGHT CTRL"@[0] != "T"@[0] || "RIGHT CTRL"@[1] != "T"@[1]); }
        assert("RIGHT CTRL"@ != "CAPSLOCK"@) by { assert("RIGHT CTRL"@.len() != "CAPSLOCK"@.len() || "RIGHT CTRL"@[0] != "CAPSLOCK"@[0] || "RIGHT CTRL"@[1] != "CAPSLOCK"@[1]); }
        assert("RIGHT CTRL"@ != "CAPS"@) by { assert("RIGHT CTRL"@.len() != "CAPS"@.len() || "RIGHT CTRL"@[0] != "CAPS"@[0] || "RIGHT CTRL"@[1] != "CAPS"@[1]); }
        assert("RIGHT CTRL"@ != "LALT"@) by { assert("RIGHT CTRL"@.len() != "LALT"@.len() || "RIGHT CTRL"@[0] != "LALT"@[0] || "RIGHT CTRL"@[1] != "LALT"@[1]); }
        assert("RIGHT CTRL"@ != "LEFT ALT"@) by { assert("RIGHT CTRL"@.len() != "LEFT ALT"@.len() || "RIGHT CTRL"@[0] != "LEFT ALT"@[0] || "RIGHT CTRL"@[1] != "LEFT ALT"@[1]); }
        assert("RIGHT CTRL"@ != "RALT"@) by { assert("RIGHT CTRL"@.len() != "RALT"@.len() || "RIGHT CTRL"@[0] != "RALT"@[0] || "RIGHT CTRL"@[1] != "RALT"@[1]); }
        assert("RIGHT CTRL"@ != "RIGHT ALT"@) by { assert("RIGHT CTRL"@.len() != "RIGHT ALT"@.len() || "RIGHT CTRL"@[0] != "RIGHT ALT"@[0] || "RIGHT CTRL"@[1] != "RIGHT ALT"@[1]); }
        assert("RIGHT CTRL"@ != "LCTRL"@) by { assert("RIGHT CTRL"@.len() != "LCTRL"@.len() || "RIGHT CTRL"@[0] != "LCTRL"@[0] || "RIGHT CTRL"@[1] != "LCTRL"@[1]); }
        assert("RIGHT CTRL"@ != "LEFT CTRL"@) by { assert("RIGHT CTRL"@.len() != "LEFT CTRL"@.len() || "RIGHT CTRL"@[0] != "LEFT CTRL"@[0] || "RIGHT CTRL"@[1] != "LEFT CTRL"@[1]); }
        assert("RIGHT CTRL"@ != "RCTRL"@) by { assert("RIGHT CTRL"@.len() != "RCTRL"@.len() || "RIGHT CTRL"@[0] != "RCTRL"@[0] || "RIGHT CTRL"@[1] != "RCTRL"@[1]); }
        assert(key_for_upper_name("RIGHT CTRL"@) == Some(Key::RControl));
    } else if i == 5 {
        assert("LEFT SHIFT"@ != "V"@) by { assert("LEFT SHIFT"@.len() != "V"@.len() || "LEFT SHIFT"@[0] != "V"@[0] || "LEFT SHIFT"@[1] != "V"@[1]); }
        assert("LEFT SHIFT"@ != "B"@) by { assert("LEFT SHIFT"@.len() != "B"@.len() || "LEFT SHIFT"@[0] != "B"@[0] || "LEFT SHIFT"@[1] != "B"@[1]); }
        assert("LEFT SHIFT"@ != "N"@) by { assert("LEFT SHIFT"@.len() != "N"@.len() || "LEFT SHIFT"@[0] != "N"@[0] || "LEFT SHIFT"@[1] != "N"@[1]); }
        assert("LEFT SHIFT"@ != "M"@) by { assert("LEFT SHIFT"@.len() != "M"@.len() || "LEFT SHIFT"@[0] != "M"@[0] || "LEFT SHIFT"@[1] != "M"@[1]); }
        assert("LEFT SHIFT"@ != "G"@) by { assert("LEFT SHIFT"@.len() != "G"@.len() || "LEFT SHIFT"@[0] != "G"@[0] || "LEFT SHIFT"@[1] != "G"@[1]); }
        assert("LEFT SHIFT"@ != "T"@) by { assert("LEFT SHIFT"@.len() != "T"@.len() || "LEFT SHIFT"@[0] != "T"@[0] || "LEFT SHIFT"@[1] != "T"@[1]); }
        assert("LEFT SHIFT"@ != "CAPSLOCK"@) by { assert("LEFT SHIFT"@.len() != "CAPSLOCK"@.len() || "LEFT SHIFT"@[0] != "CAPSLOCK"@[0] || "LEFT SHIFT"@[1] != "CAPSLOCK"@[1]); }
        assert("LEFT SHIFT"@ != "CAPS"@) by { assert("LEFT SHIFT"@.len() != "CAPS"@.len() || "LEFT SHIFT"@[0] != "CAPS"@[0] || "LEFT SHIFT"@[1] != "CAPS"@[1]); }
        assert("LEFT SHIFT"@ != "LALT"@) by { assert("LEFT SHIFT"@.len() != "LALT"@.len() || "LEFT SHIFT"@[0] != "LALT"@[0] || "LEFT SHIFT"@[1] != "LALT"@[1]); }
        assert("LEFT SHIFT"@ != "LEFT ALT"@) by { assert("LEFT SHIFT"@.len() != "LEFT ALT"@.len() || "LEFT SHIFT"@[0] != "LEFT ALT"@[0] || "LEFT SHIFT"@[1] != "LEFT ALT"@[1]); }
        assert("LEFT SHIFT"@ != "RALT"@) by { assert("LEFT SHIFT"@.len() != "RALT"@.len() || "LEFT SHIFT"@[0] != "RALT"@[0] || "LEFT SHIFT"@[1] != "RALT"@[1]); }
        assert("LEFT SHIFT"@ != "RIGHT ALT"@) by { assert("LEFT SHIFT"@.len() != "RIGHT ALT"@.len() || "LEFT SHIFT"@[0] != "RIGHT ALT"@[0] || "LEFT SHIFT"@[1] != "RIGHT ALT"@[1]); }
        assert("LEFT SHIFT"@ != "LCTRL"@) by { assert("LEFT SHIFT"@.len() != "LCTRL"@.len() || "LEFT SHIFT"@[0] != "LCTRL"@[0] || "LEFT SHIFT"@[1] != "LCTRL"@[1]); }
        assert("LEFT SHIFT"@ != "LEFT CTRL"@) by { assert("LEFT SHIFT"@.len() != "LEFT CTRL"@.len() || "LEFT SHIFT"@[0] != "LEFT CTRL"@[0] || "LEFT SHIFT"@[1] != "LEFT CTRL"@[1]); }
        assert("LEFT SHIFT"@ != "RCTRL"@) by { assert("LEFT SHIFT"@.len() != "RCTRL"@.len() || "LEFT SHIFT"@[0] != "RCTRL"@[0] || "LEFT SHIFT"@[1] != "RCTRL"@[1]); }
        assert("LEFT SHIFT"@ != "RIGHT CTRL"@) by { assert("LEFT SHIFT"@.len() != "RIGHT CTRL"@.len() || "LEFT SHIFT"@[0] != "RIGHT CTRL"@[0] || "LEFT SHIFT"@[1] != "RIGHT CTRL"@[1]); }
        assert("LEFT SHIFT"@ != "LSHIFT"@) by { assert("LEFT SHIFT"@.len() != "LSHIFT"@.len() || "LEFT SHIFT"@[0] != "LSHIFT"@[0] || "LEFT SHIFT"@[1] != "LSHIFT"@[1]); }
        assert(key_for_upper_name("LEFT SHIFT"@) == Some(Key::LShift));
    } else if i == 6 {
        assert("RIGHT SHIFT"@ != "V"@) by { assert("RIGHT SHIFT"@.len() != "V"@.len() || "RIGHT SHIFT"@[0] != "V"@[0] || "RIGHT SHIFT"@[1] != "V"@[1]); }
        assert("RIGHT SHIFT"@ != "B"@) by { assert("RIGHT SHIFT"@.len() != "B"@.len() || "RIGHT SHIFT"@[0] != "B"@[0] || "RIGHT SHIFT"@[1] != "B"@[1]); }
        assert("RIGHT SHIFT"@ != "N"@) by { assert("RIGHT SHIFT"@.len() != "N"@.len() || "RIGHT SHIFT"@[0] != "N"@[0] || "RIGHT SHIFT"@[1] != "N"@[1]); }
        assert("RIGHT SHIFT"@ != "M"@) by { assert("RIGHT SHIFT"@.len() != "M"@.len() || "RIGHT SHIFT"@[0] != "M"@[0] || "RIGHT SHIFT"@[1] != "M"@[1]); }
        assert("RIGHT SHIFT"@ != "G"@) by { assert("RIGHT SHIFT"@.len() != "G"@.len() || "RIGHT SHIFT"@[0] != "G"@[0] || "RIGHT SHIFT"@[1] != "G"@[1]); }
        assert("RIGHT SHIFT"@ != "T"@) by { assert("RIGHT SHIFT"@.len() != "T"@.len() || "RIGHT SHIFT"@[0] != "T"@[0] || "RIGHT SHIFT"@[1] != "T"@[1]); }
        assert("RIGHT SHIFT"@ != "CAPSLOCK"@) by { assert("RIGHT SHIFT"@.len() != "CAPSLOCK"@.len() || "RIGHT SHIFT"@[0] != "CAPSLOCK"@[0] || "RIGHT SHIFT"@[1] != "CAPSLOCK"@[1]); }
        assert("RIGHT SHIFT"@ != "CAPS"@) by { assert("RIGHT SHIFT"@.len() != "CAPS"@.len() || "RIGHT SHIFT"@[0] != "CAPS"@[0] || "RIGHT SHIFT"@[1] != "CAPS"@[1]); }
        assert("RIGHT SHIFT"@ != "LALT"@) by { assert("RIGHT SHIFT"@.len() != "LALT"@.len() || "RIGHT SHIFT"@[0] != "LALT"@[0] || "RIGHT SHIFT"@[1] != "LALT"@[1]); }
        assert("RIGHT SHIFT"@ != "LEFT ALT"@) by { assert("RIGHT SHIFT"@.len() != "LEFT ALT"@.len() || "RIGHT SHIFT"@[0] != "LEFT ALT"@[0] || "RIGHT SHIFT"@[1] != "LEFT ALT"@[1]); }
        assert("RIGHT SHIFT"@ != "RALT"@) by { assert("RIGHT SHIFT"@.len() != "RALT"@.len() || "RIGHT SHIFT"@[0] != "RALT"@[0] || "RIGHT SHIFT"@[1] != "RALT"@[1]); }
        assert("RIGHT SHIFT"@ != "RIGHT ALT"@) by { assert("RIGHT SHIFT"@.len() != "RIGHT ALT"@.len() || "RIGHT SHIFT"@[0] != "RIGHT ALT"@[0] || "RIGHT SHIFT"@[1] != "RIGHT ALT"@[1]); }
        assert("RIGHT SHIFT"@ != "LCTRL"@) by { assert("RIGHT SHIFT"@.len() != "LCTRL"@.len() || "RIGHT SHIFT"@[0] != "LCTRL"@[0] || "RIGHT SHIFT"@[1] != "LCTRL"@[1]); }
        assert("RIGHT SHIFT"@ != "LEFT CTRL"@) by { assert("RIGHT SHIFT"@.len() != "LEFT CTRL"@.len() || "RIGHT SHIFT"@[0] != "LEFT CTRL"@[0] || "RIGHT SHIFT"@[1] != "LEFT CTRL"@[1]); }
        assert("RIGHT SHIFT"@ != "RCTRL"@) by { assert("RIGHT SHIFT"@.len() != "RCTRL"@.len() || "RIGHT SHIFT"@[0] != "RCTRL"@[0] || "RIGHT SHIFT"@[1] != "RCTRL"@[1]); }
        assert("RIGHT SHIFT"@ != "RIGHT CTRL"@) by { assert("RIGHT SHIFT"@.len() != "RIGHT CTRL"@.len() || "RIGHT SHIFT"@[0] != "RIGHT CTRL"@[0] || "RIGHT SHIFT"@[1] != "RIGHT CTRL"@[1]); }
        assert("RIGHT SHIFT"@ != "LSHIFT"@) by { assert("RIGHT SHIFT"@.len() != "LSHIFT"@.len() || "RIGHT SHIFT"@[0] != "LSHIFT"@[0] || "RIGHT SHIFT"@[1] != "LSHIFT"@[1]); }
        assert("RIGHT SHIFT"@ != "LEFT SHIFT"@) by { assert("RIGHT SHIFT"@.len() != "LEFT SHIFT"@.len() || "RIGHT SHIFT"@[0] != "LEFT SHIFT"@[0] || "RIGHT SHIFT"@[1] != "LEFT SHIFT"@[1]); }
        assert("RIGHT SHIFT"@ != "RSHIFT"@) by { assert("RIGHT SHIFT"@.len() != "RSHIFT"@.len() || "RIGHT SHIFT"@[0] != "RSHIFT"@[0] || "RIGHT SHIFT"@[1] != "RSHIFT"@[1]); }
        assert(key_for_upper_name("RIGHT SHIFT"@) == Some(Key::RShift));
    }
}

/// A key binding is held exactly when its key is anywhere among the keys
/// reported held, whatever else is held with it; a button binding does not
/// depend on the keys at all.
pub proof fn law_held_key_anywhere(k: Key, keys: Seq<Key>, more: Seq<Key>, buttons: Seq<bool>, btn: u8)
    ensures
        forall|i: int| 0 <= i < keys.len() && keys[i] == k ==> bind_held(PttBind::Key(k), keys, buttons),
        bind_held(PttBind::Key(k), keys, buttons) ==> exists|i: int| 0 <= i < keys.len() && keys[i] == k,
        bind_held(PttBind::Key(k), keys, buttons) ==> bind_held(PttBind::Key(k), keys + more, buttons)
            && bind_held(PttBind::Key(k), more + keys, buttons),
        bind_held(PttBind::Mouse(btn), keys, buttons) == bind_held(PttBind::Mouse(btn), more, buttons),
{
    assert forall|i: int| 0 <= i < keys.len() && keys[i] == k implies bind_held(PttBind::Key(k), keys, buttons) by {
        assert(keys.contains(k));
    }
    if keys.contains(k) {
        let i = choose|i: int| 0 <= i < keys.len() && keys[i] == k;
        assert((keys + more)[i] == k);
        assert((more + keys)[more.len() + i] == k);
    }
}

/// With no key held, the captured binding is the lowest-numbered held mouse
/// button from 2 up: a held button `b` of 2 or more, with no held button
/// between 2 and `b`, is the one taken; buttons 0 and 1 (the left button) are
/// never taken, and nothing is taken when no button from 2 up is held.
pub proof fn law_capture_lowest_button(buttons: Seq<bool>, b: int)
    ensures
        2 <= b < buttons.len() && buttons[b] && (forall|j: int| 2 <= j < b ==> !buttons[j])
            ==> first_held_button(buttons) == Some(b),
        first_held_button(buttons) matches Some(i) ==> 2 <= i < buttons.len() && buttons[i],
        (forall|j: int| 2 <= j < buttons.len() ==> !buttons[j]) ==> first_held_button(buttons) is None,
{
    if exists|i: int| 2 <= i < buttons.len() && buttons[i] {
        let w = choose|i: int| 2 <= i < buttons.len() && buttons[i] && forall|j: int| 2 <= j < i ==> !buttons[j];
        let lo = choose|i: int| 2 <= i < buttons.len() && buttons[i];
        lemma_lowest_held(buttons, lo);
        assert(2 <= w < buttons.len() && buttons[w] && forall|j: int| 2 <= j < w ==> !buttons[j]);
        if 2 <= b < buttons.len() && buttons[b] && (forall|j: int| 2 <= j < b ==> !buttons[j]) {
            if w < b {
                assert(!buttons[w]);
            } else if w > b {
                assert(!buttons[b]);
            }
        }
    }
}

proof fn lemma_lowest_held(buttons: Seq<bool>, lo: int)
    requires
        2 <= lo < buttons.len(),
        buttons[lo],
    ensures
        exists|i: int| 2 <= i < buttons.len() && buttons[i] && forall|j: int| 2 <= j < i ==> !buttons[j],
    decreases lo,
{
    if exists|j: int| 2 <= j < lo && buttons[j] {
        let j = choose|j: int| 2 <= j < lo && buttons[j];
        lemma_lowest_held(buttons, j);
    } else {
        assert(2 <= lo < buttons.len() && buttons[lo] && forall|j: int| 2 <= j < lo ==> !buttons[j]);
    }
}

/// The key whose display name is `s`, if any (every key has its own name).
spec fn key_named(s: Seq<char>) -> Option<Key> {
    if s.len() == 1 {
        key_named_char(s[0])
    } else if s.len() == 2 {
        key_named_2(s)
    } else if s.len() == 3 {
        key_named_3(s)
    } else if s.len() == 4 {
        key_named_4(s)
    } else if s.len() == 5 {
        key_named_5(s)
    } else if s.len() == 6 {
        key_named_6(s)
    } else if s.len() == 7 {
        key_named_7(s)
    } else if s.len() == 8 {
        key_named_8(s)
    } else if s.len() == 9 {
        key_named_9(s)
    } else if s.len() == 11 {
        key_named_11(s)
    } else if s.len() == 12 {
        key_named_12(s)
    } else if s.len() == 13 {
        key_named_13(s)
    } else if s.len() == 14 {
        key_named_14(s)
    } else {
        None
    }
}

spec fn key_named_char(c: char) -> Option<Key> {
    if c == '0' {
        Some(Key::Key0)
    } else if c == '1' {
        Some(Key::Key1)
    } else if c == '2' {
        Some(Key::Key2)
    } else if c == '3' {
        Some(Key::Key3)
    } else if c == '4' {
        Some(Key::Key4)
    } else if c == '5' {
        Some(Key::Key5)
    } else if c == '6' {
        Some(Key::Key6)
    } else if c == '7' {
        Some(Key::Key7)
    } else if c == '8' {
        Some(Key::Key8)
    } else if c == '9' {
        Some(Key::Key9)
    } else if c == 'A' {
        Some(Key::A)
    } else if c == 'B' {
        Some(Key::B)
    } else if c == 'C' {
        Some(Key::C)
    } else if c == 'D' {
        Some(Key::D)
    } else if c == 'E' {
        Some(Key::E)
    } else if c == 'F' {
        Some(Key::F)
    } else if c == 'G' {
        Some(Key::G)
    } else if c == 'H' {
        Some(Key::H)
    } else if c == 'I' {
        Some(Key::I)
    } else if c == 'J' {
        Some(Key::J)
    } else if c == 'K' {
        Some(Key::K)
    } else if c == 'L' {
        Some(Key::L)
    } else if c == 'M' {
        Some(Key::M)
    } else if c == 'N' {
        Some(Key::N)
    } else if c == 'O' {
        Some(Key::O)
    } else if c == 'P' {
        Some(Key::P)
    } else if c == 'Q' {
        Some(Key::Q)
    } else if c == 'R' {
        Some(Key::R)
    } else if c == 'S' {
        Some(Key::S)
    } else if c == 'T' {
        Some(Key::T)
    } else if c == 'U' {
        Some(Key::U)
    } else if c == 'V' {
        Some(Key::V)
    } else if c == 'W' {
        Some(Key::W)
    } else if c == 'X' {
        Some(Key::X)
    } else if c == 'Y' {
        Some(Key::Y)
    } else if c == 'Z' {
        Some(Key::Z)
    } else if c == '`' {
        Some(Key::Grave)
    } else if c == '-' {
        Some(Key::Minus)
    } else if c == '=' {
        Some(Key::Equal)
    } else if c == '[' {
        Some(Key::LeftBracket)
    } else if c == ']' {
        Some(Key::RightBracket)
    } else if c == '\\' {
        Some(Key::BackSlash)
    } else if c == ';' {
        Some(Key::Semicolon)
    } else if c == '\'' {
        Some(Key::Apostrophe)
    } else if c == ',' {
        Some(Key::Comma)
    } else if c == '.' {
        Some(Key::Dot)
    } else if c == '/' {
        Some(Key::Slash)
    } else {
        None
    }
}

spec fn key_named_2(s: Seq<char>) -> Option<Key> {
    if s == "F1"@ {
        Some(Key::F1)
    } else if s == "F2"@ {
        Some(Key::F2)
    } else if s == "F3"@ {
        Some(Key::F3)
    } else if s == "F4"@ {
        Some(Key::F4)
    } else if s == "F5"@ {
        Some(Key::F5)
    } else if s == "F6"@ {
        Some(Key::F6)
    } else if s == "F7"@ {
        Some(Key::F7)
    } else if s == "F8"@ {
        Some(Key::F8)
    } else if s == "F9"@ {
        Some(Key::F9)
    } else if s == "Up"@ {
        Some(Key::Up)
    } else {
        None
    }
}

spec fn key_named_3(s: Seq<char>) -> Option<Key> {
    if s == "F10"@ {
        Some(Key::F10)
    } else if s == "F11"@ {
        Some(Key::F11)
    } else if s == "F12"@ {
        Some(Key::F12)
    } else if s == "F13"@ {
        Some(Key::F13)
    } else if s == "F14"@ {
        Some(Key::F14)
    } else if s == "F15"@ {
        Some(Key::F15)
    } else if s == "F16"@ {
        Some(Key::F16)
    } else if s == "F17"@ {
        Some(Key::F17)
    } else if s == "F18"@ {
        Some(Key::F18)
    } else if s == "F19"@ {
        Some(Key::F19)
    } else if s == "F20"@ {
        Some(Key::F20)
    } else if s == "Tab"@ {
        Some(Key::Tab)
    } else if s == "End"@ {
        Some(Key::End)
    } else {
        None
    }
}

spec fn key_named_4(s: Seq<char>) -> Option<Key> {
    if s == "LAlt"@ {
        Some(Key::LAlt)
    } else if s == "RAlt"@ {
        Some(Key::RAlt)
    } else if s == "Down"@ {
        Some(Key::Down)
    } else if s == "Left"@ {
        Some(Key::Left)
    } else if s == "Home"@ {
        Some(Key::Home)
    } else {
        None
    }
}

spec fn key_named_5(s: Seq<char>) -> Option<Key> {
    if s == "Space"@ {
        Some(Key::Space)
    } else if s == "LCtrl"@ {
        Some(Key::LControl)
    } else if s == "RCtrl"@ {
        Some(Key::RControl)
    } else if s == "LMeta"@ {
        Some(Key::LMeta)
    } else if s == "RMeta"@ {
        Some(Key::RMeta)
    } else if s == "Enter"@ {
        Some(Key::Enter)
    } else if s == "Right"@ {
        Some(Key::Right)
    } else {
        None
    }
}

spec fn key_named_6(s: Seq<char>) -> Option<Key> {
    if s == "Escape"@ {
        Some(Key::Escape)
    } else if s == "LShift"@ {
        Some(Key::LShift)
    } else if s == "RShift"@ {
        Some(Key::RShift)
    } else if s == "PageUp"@ {
        Some(Key::PageUp)
    } else if s == "Insert"@ {
        Some(Key::Insert)
    } else if s == "Delete"@ {
        Some(Key::Delete)
    } else {
        None
    }
}

spec fn key_named_7(s: Seq<char>) -> Option<Key> {
    if s == "Command"@ {
        Some(Key::Command)
    } else if s == "LOption"@ {
        Some(Key::LOption)
    } else if s == "ROption"@ {
        Some(Key::ROption)
    } else if s == "Numpad0"@ {
        Some(Key::Numpad0)
    } else if s == "Numpad1"@ {
        Some(Key::Numpad1)
    } else if s == "Numpad2"@ {
        Some(Key::Numpad2)
    } else if s == "Numpad3"@ {
        Some(Key::Numpad3)
    } else if s == "Numpad4"@ {
        Some(Key::Numpad4)
    } else if s == "Numpad5"@ {
        Some(Key::Numpad5)
    } else if s == "Numpad6"@ {
        Some(Key::Numpad6)
    } else if s == "Numpad7"@ {
        Some(Key::Numpad7)
    } else if s == "Numpad8"@ {
        Some(Key::Numpad8)
    } else if s == "Numpad9"@ {
        Some(Key::Numpad9)
    } else {
        None
    }
}

spec fn key_named_8(s: Seq<char>) -> Option<Key> {
    if s == "RCommand"@ {
        Some(Key::RCommand)
    } else if s == "CapsLock"@ {
        Some(Key::CapsLock)
    } else if s == "PageDown"@ {
        Some(Key::PageDown)
    } else {
        None
    }
}

spec fn key_named_9(s: Seq<char>) -> Option<Key> {
    if s == "Backspace"@ {
        Some(Key::Backspace)
    } else if s == "NumpadAdd"@ {
        Some(Key::NumpadAdd)
    } else {
        None
    }
}

spec fn key_named_11(s: Seq<char>) -> Option<Key> {
    if s == "NumpadEnter"@ {
        Some(Key::NumpadEnter)
    } else {
        None
    }
}

spec fn key_named_12(s: Seq<char>) -> Option<Key> {
    if s == "NumpadDivide"@ {
        Some(Key::NumpadDivide)
    } else if s == "NumpadEquals"@ {
        Some(Key::NumpadEquals)
    } else {
        None
    }
}

spec fn key_named_13(s: Seq<char>) -> Option<Key> {
    if s == "NumpadDecimal"@ {
        Some(Key::NumpadDecimal)
    } else {
        None
    }
}

spec fn key_named_14(s: Seq<char>) -> Option<Key> {
    if s == "NumpadSubtract"@ {
        Some(Key::NumpadSubtract)
    } else if s == "NumpadMultiply"@ {
        Some(Key::NumpadMultiply)
    } else {
        None
    }
}

proof fn lemma_named_1(k: Key)
    requires
        match k {
            Key::Key0 => true,
            Key::Key1 => true,
            Key::Key2 => true,
            Key::Key3 => true,
            Key::Key4 => true,
            Key::Key5 => true,
            Key::Key6 => true,
            Key::Key7 => true,
            Key::Key8 => true,
            Key::Key9 => true,
            Key::A => true,
            Key::B => true,
            Key::C => true,
            Key::D => true,
            Key::E => true,
            Key::F => true,
            Key::G => true,
            Key::H => true,
            Key::I => true,
            Key::J => true,
            Key::K => true,
            Key::L => true,
            Key::M => true,
            Key::N => true,
            Key::O => true,
            Key::P => true,
            Key::Q => true,
            Key::R => true,
            Key::S => true,
            Key::T => true,
            Key::U => true,
            Key::V => true,
            Key::W => true,
            Key::X => true,
            Key::Y => true,
            Key::Z => true,
            Key::Grave => true,
            Key::Minus => true,
            Key::Equal => true,
            Key::LeftBracket => true,
            Key::RightBracket => true,
            Key::BackSlash => true,
            Key::Semicolon => true,
            Key::Apostrophe => true,
            Key::Comma => true,
            Key::Dot => true,
            Key::Slash => true,
            _ => false,
        },
    ensures
        key_named(key_name_spec(k)) == Some(k),
{
    reveal_strlit("0");
    reveal_strlit("1");
    reveal_strlit("2");
    reveal_strlit("3");
    reveal_strlit("4");
    reveal_strlit("5");
    reveal_strlit("6");
    reveal_strlit("7");
    reveal_strlit("8");
    reveal_strlit("9");
    reveal_strlit("A");
    reveal_strlit("B");
    reveal_strlit("C");
    reveal_strlit("D");
    reveal_strlit("E");
    reveal_strlit("F");
    reveal_strlit("G");
    reveal_strlit("H");
    reveal_strlit("I");
    reveal_strlit("J");
    reveal_strlit("K");
    reveal_strlit("L");
    reveal_strlit("M");
    reveal_strlit("N");
    reveal_strlit("O");
    reveal_strlit("P");
    reveal_strlit("Q");
    reveal_strlit("R");
    reveal_strlit("S");
    reveal_strlit("T");
    reveal_strlit("U");
    reveal_strlit("V");
    reveal_strlit("W");
    reveal_strlit("X");
    reveal_strlit("Y");
    reveal_strlit("Z");
    reveal_strlit("`");
    reveal_strlit("-");
    reveal_strlit("=");
    reveal_strlit("[");
    reveal_strlit("]");
    reveal_strlit("\\");
    reveal_strlit(";");
    reveal_strlit("'");
    reveal_strlit(",");
    reveal_strlit(".");
    reveal_strlit("/");
    match k {
        Key::Key0 => {
            assert("0"@[0] == '0');
        },
        Key::Key1 => {
            assert("1"@[0] == '1');
        },
        Key::Key2 => {
            assert("2"@[0] == '2');
        },
        Key::Key3 => {
            assert("3"@[0] == '3');
        },
        Key::Key4 => {
            assert("4"@[0] == '4');
        },
        Key::Key5 => {
            assert("5"@[0] == '5');
        },
        Key::Key6 => {
            assert("6"@[0] == '6');
        },
        Key::Key7 => {
            assert("7"@[0] == '7');
        },
        Key::Key8 => {
            assert("8"@[0] == '8');
        },
        Key::Key9 => {
            assert("9"@[0] == '9');
        },
        Key::A => {
            assert("A"@[0] == 'A');
        },
        Key::B => {
            assert("B"@[0] == 'B');
        },
        Key::C => {
            assert("C"@[0] == 'C');
        },
        Key::D => {
            assert("D"@[0] == 'D');
        },
        Key::E => {
            assert("E"@[0] == 'E');
        },
        Key::F => {
            assert("F"@[0] == 'F');
        },
        Key::G => {
            assert("G"@[0] == 'G');
        },
        Key::H => {
            assert("H"@[0] == 'H');
        },
        Key::I => {
            assert("I"@[0] == 'I');
        },
        Key::J => {
            assert("J"@[0] == 'J');
        },
        Key::K => {
            assert("K"@[0] == 'K');
        },
        Key::L => {
            assert("L"@[0] == 'L');
        },
        Key::M => {
            assert("M"@[0] == 'M');
        },
        Key::N => {
            assert("N"@[0] == 'N');
        },
        Key::O => {
            assert("O"@[0] == 'O');
        },
        Key::P => {
            assert("P"@[0] == 'P');
        },
        Key::Q => {
            assert("Q"@[0] == 'Q');
        },
        Key::R => {
            assert("R"@[0] == 'R');
        },
        Key::S => {
            assert("S"@[0] == 'S');
        },
        Key::T => {
            assert("T"@[0] == 'T');
        },
        Key::U => {
            assert("U"@[0] == 'U');
        },
        Key::V => {
            assert("V"@[0] == 'V');
        },
        Key::W => {
            assert("W"@[0] == 'W');
        },
        Key::X => {
            assert("X"@[0] == 'X');
        },
        Key::Y => {
            assert("Y"@[0] == 'Y');
        },
        Key::Z => {
            assert("Z"@[0] == 'Z');
        },
        Key::Grave => {
            assert("`"@[0] == '`');
        },
        Key::Minus => {
            assert("-"@[0] == '-');
        },
        Key::Equal => {
            assert("="@[0] == '=');
        },
        Key::LeftBracket => {
            assert("["@[0] == '[');
        },
        Key::RightBracket => {
            assert("]"@[0] == ']');
        },
        Key::BackSlash => {
            assert("\\"@[0] == '\\');
        },
        Key::Semicolon => {
            assert(";"@[0] == ';');
        },
        Key::Apostrophe => {
            assert("'"@[0] == '\'');
        },
        Key::Comma => {
            assert(","@[0] == ',');
        },
        Key::Dot => {
            assert("."@[0] == '.');
        },
        Key::Slash => {
            assert("/"@[0] == '/');
        },
        _ => {},
    }
}

proof fn lemma_named_2(k: Key)
    requires
        match k {
            Key::F1 => true,
            Key::F2 => true,
            Key::F3 => true,
            Key::F4 => true,
            Key::F5 => true,
            Key::F6 => true,
            Key::F7 => true,
            Key::F8 => true,
            Key::F9 => true,
            Key::Up => true,
            _ => false,
        },
    ensures
        key_named(key_name_spec(k)) == Some(k),
{
    reveal_strlit("F1");
    reveal_strlit("F2");
    reveal_strlit("F3");
    reveal_strlit("F4");
    reveal_strlit("F5");
    reveal_strlit("F6");
    reveal_strlit("F7");
    reveal_strlit("F8");
    reveal_strlit("F9");
    reveal_strlit("Up");
    match k {
        Key::F1 => {

        },
        Key::F2 => {
            assert("F2"@[1] != "F1"@[1]);
        },
        Key::F3 => {
            assert("F3"@[1] != "F1"@[1]);
            assert("F3"@[1] != "F2"@[1]);
        },
        Key::F4 => {
            assert("F4"@[1] != "F1"@[1]);
            assert("F4"@[1] != "F2"@[1]);
            assert("F4"@[1] != "F3"@[1]);
        },
        Key::F5 => {
            assert("F5"@[1] != "F1"@[1]);
            assert("F5"@[1] != "F2"@[1]);
            assert("F5"@[1] != "F3"@[1]);
            assert("F5"@[1] != "F4"@[1]);
        },
        Key::F6 => {
            assert("F6"@[1] != "F1"@[1]);
            assert("F6"@[1] != "F2"@[1]);
            assert("F6"@[1] != "F3"@[1]);
            assert("F6"@[1] != "F4"@[1]);
            assert("F6"@[1] != "F5"@[1]);
        },
        Key::F7 => {
            assert("F7"@[1] != "F1"@[1]);
            assert("F7"@[1] != "F2"@[1]);
            assert("F7"@[1] != "F3"@[1]);
            assert("F7"@[1] != "F4"@[1]);
            assert("F7"@[1] != "F5"@[1]);
            assert("F7"@[1] != "F6"@[1]);
        },
        Key::F8 => {
            assert("F8"@[1] != "F1"@[1]);
            assert("F8"@[1] != "F2"@[1]);
            assert("F8"@[1] != "F3"@[1]);
            assert("F8"@[1] != "F4"@[1]);
            assert("F8"@[1] != "F5"@[1]);
            assert("F8"@[1] != "F6"@[1]);
            assert("F8"@[1] != "F7"@[1]);
        },
        Key::F9 => {
            assert("F9"@[1] != "F1"@[1]);
            assert("F9"@[1] != "F2"@[1]);
            assert("F9"@[1] != "F3"@[1]);
            assert("F9"@[1] != "F4"@[1]);
            assert("F9"@[1] != "F5"@[1]);
            assert("F9"@[1] != "F6"@[1]);
            assert("F9"@[1] != "F7"@[1]);
            assert("F9"@[1] != "F8"@[1]);
        },
        Key::Up => {
            assert("Up"@[0] != "F1"@[0]);
            assert("Up"@[0] != "F2"@[0]);
            assert("Up"@[0] != "F3"@[0]);
            assert("Up"@[0] != "F4"@[0]);
            assert("Up"@[0] != "F5"@[0]);
            assert("Up"@[0] != "F6"@[0]);
            assert("Up"@[0] != "F7"@[0]);
            assert("Up"@[0] != "F8"@[0]);
            assert("Up"@[0] != "F9"@[0]);
        },
        _ => {},
    }
}

proof fn lemma_named_3(k: Key)
    requires
        match k {
            Key::F10 => true,
            Key::F11 => true,
            Key::F12 => true,
            Key::F13 => true,
            Key::F14 => true,
            Key::F15 => true,
            Key::F16 => true,
            Key::F17 => true,
            Key::F18 => true,
            Key::F19 => true,
            Key::F20 => true,
            Key::Tab => true,
            Key::End => true,
            _ => false,
        },
    ensures
        key_named(key_name_spec(k)) == Some(k),
{
    reveal_strlit("F10");
    reveal_strlit("F11");
    reveal_strlit("F12");
    reveal_strlit("F13");
    reveal_strlit("F14");
    reveal_strlit("F15");
    reveal_strlit("F16");
    reveal_strlit("F17");
    reveal_strlit("F18");
    reveal_strlit("F19");
    reveal_strlit("F20");
    reveal_strlit("Tab");
    reveal_strlit("End");
    match k {
        Key::F10 => {

        },
        Key::F11 => {
            assert("F11"@[2] != "F10"@[2]);
        },
        Key::F12 => {
            assert("F12"@[2] != "F10"@[2]);
            assert("F12"@[2] != "F11"@[2]);
        },
        Key::F13 => {
            assert("F13"@[2] != "F10"@[2]);
            assert("F13"@[2] != "F11"@[2]);
            assert("F13"@[2] != "F12"@[2]);
        },
        Key::F14 => {
            assert("F14"@[2] != "F10"@[2]);
            assert("F14"@[2] != "F11"@[2]);
            assert("F14"@[2] != "F12"@[2]);
            assert("F14"@[2] != "F13"@[2]);
        },
        Key::F15 => {
            assert("F15"@[2] != "F10"@[2]);
            assert("F15"@[2] != "F11"@[2]);
            assert("F15"@[2] != "F12"@[2]);
            assert("F15"@[2] != "F13"@[2]);
            assert("F15"@[2] != "F14"@[2]);
        },
        Key::F16 => {
            assert("F16"@[2] != "F10"@[2]);
            assert("F16"@[2] != "F11"@[2]);
            assert("F16"@[2] != "F12"@[2]);
            assert("F16"@[2] != "F13"@[2]);
            assert("F16"@[2] != "F14"@[2]);
            assert("F16"@[2] != "F15"@[2]);
        },
        Key::F17 => {
            assert("F17"@[2] != "F10"@[2]);
            assert("F17"@[2] != "F11"@[2]);
            assert("F17"@[2] != "F12"@[2]);
            assert("F17"@[2] != "F13"@[2]);
            assert("F17"@[2] != "F14"@[2]);
            assert("F17"@[2] != "F15"@[2]);
            assert("F17"@[2] != "F16"@[2]);
        },
        Key::F18 => {
            assert("F18"@[2] != "F10"@[2]);
            assert("F18"@[2] != "F11"@[2]);
            assert("F18"@[2] != "F12"@[2]);
            assert("F18"@[2] != "F13"@[2]);
            assert("F18"@[2] != "F14"@[2]);
            assert("F18"@[2] != "F15"@[2]);
            assert("F18"@[2] != "F16"@[2]);
            assert("F18"@[2] != "F17"@[2]);
        },
        Key::F19 => {
            assert("F19"@[2] != "F10"@[2]);
            assert("F19"@[2] != "F11"@[2]);
            assert("F19"@[2] != "F12"@[2]);
            assert("F19"@[2] != "F13"@[2]);
            assert("F19"@[2] != "F14"@[2]);
            assert("F19"@[2] != "F15"@[2]);
            assert("F19"@[2] != "F16"@[2]);
            assert("F19"@[2] != "F17"@[2]);
            assert("F19"@[2] != "F18"@[2]);
        },
        Key::F20 => {
            assert("F20"@[1] != "F10"@[1]);
            assert("F20"@[1] != "F11"@[1]);
            assert("F20"@[1] != "F12"@[1]);
            assert("F20"@[1] != "F13"@[1]);
            assert("F20"@[1] != "F14"@[1]);
            assert("F20"@[1] != "F15"@[1]);
            assert("F20"@[1] != "F16"@[1]);
            assert("F20"@[1] != "F17"@[1]);
            assert("F20"@[1] != "F18"@[1]);
            assert("F20"@[1] != "F19"@[1]);
        },
        Key::Tab => {
            assert("Tab"@[0] != "F10"@[0]);
            assert("Tab"@[0] != "F11"@[0]);
            assert("Tab"@[0] != "F12"@[0]);
            assert("Tab"@[0] != "F13"@[0]);
            assert("Tab"@[0] != "F14"@[0]);
            assert("Tab"@[0] != "F15"@[0]);
            assert("Tab"@[0] != "F16"@[0]);
            assert("Tab"@[0] != "F17"@[0]);
            assert("Tab"@[0] != "F18"@[0]);
            assert("Tab"@[0] != "F19"@[0]);
            assert("Tab"@[0] != "F20"@[0]);
        },
        Key::End => {
            assert("End"@[0] != "F10"@[0]);
            assert("End"@[0] != "F11"@[0]);
            assert("End"@[0] != "F12"@[0]);
            assert("End"@[0] != "F13"@[0]);
            assert("End"@[0] != "F14"@[0]);
            assert("End"@[0] != "F15"@[0]);
            assert("End"@[0] != "F16"@[0]);
            assert("End"@[0] != "F17"@[0]);
            assert("End"@[0] != "F18"@[0]);
            assert("End"@[0] != "F19"@[0]);
            assert("End"@[0] != "F20"@[0]);
            assert("End"@[0] != "Tab"@[0]);
        },
        _ => {},
    }
}

proof fn lemma_named_4(k: Key)
    requires
        match k {
            Key::LAlt => true,
            Key::RAlt => true,
            Key::Down => true,
            Key::Left => true,
            Key::Home => true,
            _ => false,
        },
    ensures
        key_named(key_name_spec(k)) == Some(k),
{
    reveal_strlit("LAlt");
    reveal_strlit("RAlt");
    reveal_strlit("Down");
    reveal_strlit("Left");
    reveal_strlit("Home");
    match k {
        Key::LAlt => {

        },
        Key::RAlt => {
            assert("RAlt"@[0] != "LAlt"@[0]);
        },
        Key::Down => {
            assert("Down"@[0] != "LAlt"@[0]);
            assert("Down"@[0] != "RAlt"@[0]);
        },
        Key::Left => {
            assert("Left"@[1] != "LAlt"@[1]);
            assert("Left"@[0] != "RAlt"@[0]);
            assert("Left"@[0] != "Down"@[0]);
        },
        Key::Home => {
            assert("Home"@[0] != "LAlt"@[0]);
            assert("Home"@[0] != "RAlt"@[0]);
            assert("Home"@[0] != "Down"@[0]);
            assert("Home"@[0] != "Left"@[0]);
        },
        _ => {},
    }
}

proof fn lemma_named_5(k: Key)
    requires
        match k {
            Key::Space => true,
            Key::LControl => true,
            Key::RControl => true,
            Key::LMeta => true,
            Key::RMeta => true,
            Key::Enter => true,
            Key::Right => true,
            _ => false,
        },
    ensures
        key_named(key_name_spec(k)) == Some(k),
{
    reveal_strlit("Space");
    reveal_strlit("LCtrl");
    reveal_strlit("RCtrl");
    reveal_strlit("LMeta");
    reveal_strlit("RMeta");
    reveal_strlit("Enter");
    reveal_strlit("Right");
    match k {
        Key::Space => {

        },
        Key::LControl => {
            assert("LCtrl"@[0] != "Space"@[0]);
        },
        Key::RControl => {
            assert("RCtrl"@[0] != "Space"@[0]);
            assert("RCtrl"@[0] != "LCtrl"@[0]);
        },
        Key::LMeta => {
            assert("LMeta"@[0] != "Space"@[0]);
            assert("LMeta"@[1] != "LCtrl"@[1]);
            assert("LMeta"@[0] != "RCtrl"@[0]);
        },
        Key::RMeta => {
            assert("RMeta"@[0] != "Space"@[0]);
            assert("RMeta"@[0] != "LCtrl"@[0]);
            assert("RMeta"@[1] != "RCtrl"@[1]);
            assert("RMeta"@[0] != "LMeta"@[0]);
        },
        Key::Enter => {
            assert("Enter"@[0] != "Space"@[0]);
            assert("Enter"@[0] != "LCtrl"@[0]);
            assert("Enter"@[0] != "RCtrl"@[0]);
            assert("Enter"@[0] != "LMeta"@[0]);
            assert("Enter"@[0] != "RMeta"@[0]);
        },
        Key::Right => {
            assert("Right"@[0] != "Space"@[0]);
            assert("Right"@[0] != "LCtrl"@[0]);
            assert("Right"@[1] != "RCtrl"@[1]);
            assert("Right"@[0] != "LMeta"@[0]);
            assert("Right"@[1] != "RMeta"@[1]);
            assert("Right"@[0] != "Enter"@[0]);
        },
        _ => {},
    }
}

proof fn lemma_named_6(k: Key)
    requires
        match k {
            Key::Escape => true,
            Key::LShift => true,
            Key::RShift => true,
            Key::PageUp => true,
            Key::Insert => true,
            Key::Delete => true,
            _ => false,
        },
    ensures
        key_named(key_name_spec(k)) == Some(k),
{
    reveal_strlit("Escape");
    reveal_strlit("LShift");
    reveal_strlit("RShift");
    reveal_strlit("PageUp");
    reveal_strlit("Insert");
    reveal_strlit("Delete");
    match k {
        Key::Escape => {

        },
        Key::LShift => {
            assert("LShift"@[0] != "Escape"@[0]);
        },
        Key::RShift => {
            assert("RShift"@[0] != "Escape"@[0]);
            assert("RShift"@[0] != "LShift"@[0]);
        },
        Key::PageUp => {
            assert("PageUp"@[0] != "Escape"@[0]);
            assert("PageUp"@[0] != "LShift"@[0]);
            assert("PageUp"@[0] != "RShift"@[0]);
        },
        Key::Insert => {
            assert("Insert"@[0] != "Escape"@[0]);
            assert("Insert"@[0] != "LShift"@[0]);
            assert("Insert"@[0] != "RShift"@[0]);
            assert("Insert"@[0] != "PageUp"@[0]);
        },
        Key::Delete => {
            assert("Delete"@[0] != "Escape"@[0]);
            assert("Delete"@[0] != "LShift"@[0]);
            assert("Delete"@[0] != "RShift"@[0]);
            assert("Delete"@[0] != "PageUp"@[0]);
            assert("Delete"@[0] != "Insert"@[0]);
        },
        _ => {},
    }
}

proof fn lemma_named_7(k: Key)
    requires
        match k {
            Key::Command => true,
            Key::LOption => true,
            Key::ROption => true,
            Key::Numpad0 => true,
            Key::Numpad1 => true,
            Key::Numpad2 => true,
            Key::Numpad3 => true,
            Key::Numpad4 => true,
            Key::Numpad5 => true,
            Key::Numpad6 => true,
            Key::Numpad7 => true,
            Key::Numpad8 => true,
            Key::Numpad9 => true,
            _ => false,
        },
    ensures
        key_named(key_name_spec(k)) == Some(k),
{
    reveal_strlit("Command");
    reveal_strlit("LOption");
    reveal_strlit("ROption");
    reveal_strlit("Numpad0");
    reveal_strlit("Numpad1");
    reveal_strlit("Numpad2");
    reveal_strlit("Numpad3");
    reveal_strlit("Numpad4");
    reveal_strlit("Numpad5");
    reveal_strlit("Numpad6");
    reveal_strlit("Numpad7");
    reveal_strlit("Numpad8");
    reveal_strlit("Numpad9");
    match k {
        Key::Command => {

        },
        Key::LOption => {
            assert("LOption"@[0] != "Command"@[0]);
        },
        Key::ROption => {
            assert("ROption"@[0] != "Command"@[0]);
            assert("ROption"@[0] != "LOption"@[0]);
        },
        Key::Numpad0 => {
            assert("Numpad0"@[0] != "Command"@[0]);
            assert("Numpad0"@[0] != "LOption"@[0]);
            assert("Numpad0"@[0] != "ROption"@[0]);
        },
        Key::Numpad1 => {
            assert("Numpad1"@[0] != "Command"@[0]);
            assert("Numpad1"@[0] != "LOption"@[0]);
            assert("Numpad1"@[0] != "ROption"@[0]);
            assert("Numpad1"@[6] != "Numpad0"@[6]);
        },
        Key::Numpad2 => {
            assert("Numpad2"@[0] != "Command"@[0]);
            assert("Numpad2"@[0] != "LOption"@[0]);
            assert("Numpad2"@[0] != "ROption"@[0]);
            assert("Numpad2"@[6] != "Numpad0"@[6]);
            assert("Numpad2"@[6] != "Numpad1"@[6]);
        },
        Key::Numpad3 => {
            assert("Numpad3"@[0] != "Command"@[0]);
            assert("Numpad3"@[0] != "LOption"@[0]);
            assert("Numpad3"@[0] != "ROption"@[0]);
            assert("Numpad3"@[6] != "Numpad0"@[6]);
            assert("Numpad3"@[6] != "Numpad1"@[6]);
            assert("Numpad3"@[6] != "Numpad2"@[6]);
        },
        Key::Numpad4 => {
            assert("Numpad4"@[0] != "Command"@[0]);
            assert("Numpad4"@[0] != "LOption"@[0]);
            assert("Numpad4"@[0] != "ROption"@[0]);
            assert("Numpad4"@[6] != "Numpad0"@[6]);
            assert("Numpad4"@[6] != "Numpad1"@[6]);
            assert("Numpad4"@[6] != "Numpad2"@[6]);
            assert("Numpad4"@[6] != "Numpad3"@[6]);
        },
        Key::Numpad5 => {
            assert("Numpad5"@[0] != "Command"@[0]);
            assert("Numpad5"@[0] != "LOption"@[0]);
            assert("Numpad5"@[0] != "ROption"@[0]);
            assert("Numpad5"@[6] != "Numpad0"@[6]);
            assert("Numpad5"@[6] != "Numpad1"@[6]);
            assert("Numpad5"@[6] != "Numpad2"@[6]);
            assert("Numpad5"@[6] != "Numpad3"@[6]);
            assert("Numpad5"@[6] != "Numpad4"@[6]);
        },
        Key::Numpad6 => {
            assert("Numpad6"@[0] != "Command"@[0]);
            assert("Numpad6"@[0] != "LOption"@[0]);
            assert("Numpad6"@[0] != "ROption"@[0]);
            assert("Numpad6"@[6] != "Numpad0"@[6]);
            assert("Numpad6"@[6] != "Numpad1"@[6]);
            assert("Numpad6"@[6] != "Numpad2"@[6]);
            assert("Numpad6"@[6] != "Numpad3"@[6]);
            assert("Numpad6"@[6] != "Numpad4"@[6]);
            assert("Numpad6"@[6] != "Numpad5"@[6]);
        },
        Key::Numpad7 => {
            assert("Numpad7"@[0] != "Command"@[0]);
            assert("Numpad7"@[0] != "LOption"@[0]);
            assert("Numpad7"@[0] != "ROption"@[0]);
            assert("Numpad7"@[6] != "Numpad0"@[6]);
            assert("Numpad7"@[6] != "Numpad1"@[6]);
            assert("Numpad7"@[6] != "Numpad2"@[6]);
            assert("Numpad7"@[6] != "Numpad3"@[6]);
            assert("Numpad7"@[6] != "Numpad4"@[6]);
            assert("Numpad7"@[6] != "Numpad5"@[6]);
            assert("Numpad7"@[6] != "Numpad6"@[6]);
        },
        Key::Numpad8 => {
            assert("Numpad8"@[0] != "Command"@[0]);
            assert("Numpad8"@[0] != "LOption"@[0]);
            assert("Numpad8"@[0] != "ROption"@[0]);
            assert("Numpad8"@[6] != "Numpad0"@[6]);
            assert("Numpad8"@[6] != "Numpad1"@[6]);
            assert("Numpad8"@[6] != "Numpad2"@[6]);
            assert("Numpad8"@[6] != "Numpad3"@[6]);
            assert("Numpad8"@[6] != "Numpad4"@[6]);
            assert("Numpad8"@[6] != "Numpad5"@[6]);
            assert("Numpad8"@[6] != "Numpad6"@[6]);
            assert("Numpad8"@[6] != "Numpad7"@[6]);
        },
        Key::Numpad9 => {
            assert("Numpad9"@[0] != "Command"@[0]);
            assert("Numpad9"@[0] != "LOption"@[0]);
            assert("Numpad9"@[0] != "ROption"@[0]);
            assert("Numpad9"@[6] != "Numpad0"@[6]);
            assert("Numpad9"@[6] != "Numpad1"@[6]);
            assert("Numpad9"@[6] != "Numpad2"@[6]);
            assert("Numpad9"@[6] != "Numpad3"@[6]);
            assert("Numpad9"@[6] != "Numpad4"@[6]);
            assert("Numpad9"@[6] != "Numpad5"@[6]);
            assert("Numpad9"@[6] != "Numpad6"@[6]);
            assert("Numpad9"@[6] != "Numpad7"@[6]);
            assert("Numpad9"@[6] != "Numpad8"@[6]);
        },
        _ => {},
    }
}

proof fn lemma_named_8(k: Key)
    requires
        match k {
            Key::RCommand => true,
            Key::CapsLock => true,
            Key::PageDown => true,
            _ => false,
        },
    ensures
        key_named(key_name_spec(k)) == Some(k),
{
    reveal_strlit("RCommand");
    reveal_strlit("CapsLock");
    reveal_strlit("PageDown");
    match k {
        Key::RCommand => {

        },
        Key::CapsLock => {
            assert("CapsLock"@[0] != "RCommand"@[0]);
        },
        Key::PageDown => {
            assert("PageDown"@[0] != "RCommand"@[0]);
            assert("PageDown"@[0] != "CapsLock"@[0]);
        },
        _ => {},
    }
}

proof fn lemma_named_9(k: Key)
    requires
        match k {
            Key::Backspace => true,
            Key::NumpadAdd => true,
            _ => false,
        },
    ensures
        key_named(key_name_spec(k)) == Some(k),
{
    reveal_strlit("Backspace");
    reveal_strlit("NumpadAdd");
    match k {
        Key::Backspace => {

        },
        Key::NumpadAdd => {
            assert("NumpadAdd"@[0] != "Backspace"@[0]);
        },
        _ => {},
    }
}

proof fn lemma_named_11(k: Key)
    requires
        match k {
            Key::NumpadEnter => true,
            _ => false,
        },
    ensures
        key_named(key_name_spec(k)) == Some(k),
{
    reveal_strlit("NumpadEnter");
    match k {
        Key::NumpadEnter => {

        },
        _ => {},
    }
}

proof fn lemma_named_12(k: Key)
    requires
        match k {
            Key::NumpadDivide => true,
            Key::NumpadEquals => true,
            _ => false,
        },
    ensures
        key_named(key_name_spec(k)) == Some(k),
{
    reveal_strlit("NumpadDivide");
    reveal_strlit("NumpadEquals");
    match k {
        Key::NumpadDivide => {

        },
        Key::NumpadEquals => {
            assert("NumpadEquals"@[6] != "NumpadDivide"@[6]);
        },
        _ => {},
    }
}

proof fn lemma_named_13(k: Key)
    requires
        match k {
            Key::NumpadDecimal => true,
            _ => false,
        },
    ensures
        key_named(key_name_spec(k)) == Some(k),
{
    reveal_strlit("NumpadDecimal");
    match k {
        Key::NumpadDecimal => {

        },
        _ => {},
    }
}

proof fn lemma_named_14(k: Key)
    requires
        match k {
            Key::NumpadSubtract => true,
            Key::NumpadMultiply => true,
            _ => false,
        },
    ensures
        key_named(key_name_spec(k)) == Some(k),
{
    reveal_strlit("NumpadSubtract");
    reveal_strlit("NumpadMultiply");
    match k {
        Key::NumpadSubtract => {

        },
        Key::NumpadMultiply => {
            assert("NumpadMultiply"@[6] != "NumpadSubtract"@[6]);
        },
        _ => {},
    }
}

proof fn lemma_key_named(k: Key)
    ensures
        key_named(key_name_spec(k)) == Some(k),
{
    match k {
        Key::Key0 => lemma_named_1(k),
        Key::Key1 => lemma_named_1(k),
        Key::Key2 => lemma_named_1(k),
        Key::Key3 => lemma_named_1(k),
        Key::Key4 => lemma_named_1(k),
        Key::Key5 => lemma_named_1(k),
        Key::Key6 => lemma_named_1(k),
        Key::Key7 => lemma_named_1(k),
        Key::Key8 => lemma_named_1(k),
        Key::Key9 => lemma_named_1(k),
        Key::A => lemma_named_1(k),
        Key::B => lemma_named_1(k),
        Key::C => lemma_named_1(k),
        Key::D => lemma_named_1(k),
        Key::E => lemma_named_1(k),
        Key::F => lemma_named_1(k),
        Key::G => lemma_named_1(k),
        Key::H => lemma_named_1(k),
        Key::I => lemma_named_1(k),
        Key::J => lemma_named_1(k),
        Key::K => lemma_named_1(k),
        Key::L => lemma_named_1(k),
        Key::M => lemma_named_1(k),
        Key::N => lemma_named_1(k),
        Key::O => lemma_named_1(k),
        Key::P => lemma_named_1(k),
        Key::Q => lemma_named_1(k),
        Key::R => lemma_named_1(k),
        Key::S => lemma_named_1(k),
        Key::T => lemma_named_1(k),
        Key::U => lemma_named_1(k),
        Key::V => lemma_named_1(k),
        Key::W => lemma_named_1(k),
        Key::X => lemma_named_1(k),
        Key::Y => lemma_named_1(k),
        Key::Z => lemma_named_1(k),
        Key::Grave => lemma_named_1(k),
        Key::Minus => lemma_named_1(k),
        Key::Equal => lemma_named_1(k),
        Key::LeftBracket => lemma_named_1(k),
        Key::RightBracket => lemma_named_1(k),
        Key::BackSlash => lemma_named_1(k),
        Key::Semicolon => lemma_named_1(k),
        Key::Apostrophe => lemma_named_1(k),
        Key::Comma => lemma_named_1(k),
        Key::Dot => lemma_named_1(k),
        Key::Slash => lemma_named_1(k),
        Key::F1 => lemma_named_2(k),
        Key::F2 => lemma_named_2(k),
        Key::F3 => lemma_named_2(k),
        Key::F4 => lemma_named_2(k),
        Key::F5 => lemma_named_2(k),
        Key::F6 => lemma_named_2(k),
        Key::F7 => lemma_named_2(k),
        Key::F8 => lemma_named_2(k),
        Key::F9 => lemma_named_2(k),
        Key::Up => lemma_named_2(k),
        Key::F10 => lemma_named_3(k),
        Key::F11 => lemma_named_3(k),
        Key::F12 => lemma_named_3(k),
        Key::F13 => lemma_named_3(k),
        Key::F14 => lemma_named_3(k),
        Key::F15 => lemma_named_3(k),
        Key::F16 => lemma_named_3(k),
        Key::F17 => lemma_named_3(k),
        Key::F18 => lemma_named_3(k),
        Key::F19 => lemma_named_3(k),
        Key::F20 => lemma_named_3(k),
        Key::Tab => lemma_named_3(k),
        Key::End => lemma_named_3(k),
        Key::LAlt => lemma_named_4(k),
        Key::RAlt => lemma_named_4(k),
        Key::Down => lemma_named_4(k),
        Key::Left => lemma_named_4(k),
        Key::Home => lemma_named_4(k),
        Key::Space => lemma_named_5(k),
        Key::LControl => lemma_named_5(k),
        Key::RControl => lemma_named_5(k),
        Key::LMeta => lemma_named_5(k),
        Key::RMeta => lemma_named_5(k),
        Key::Enter => lemma_named_5(k),
        Key::Right => lemma_named_5(k),
        Key::Escape => lemma_named_6(k),
        Key::LShift => lemma_named_6(k),
        Key::RShift => lemma_named_6(k),
        Key::PageUp => lemma_named_6(k),
        Key::Insert => lemma_named_6(k),
        Key::Delete => lemma_named_6(k),
        Key::Command => lemma_named_7(k),
        Key::LOption => lemma_named_7(k),
        Key::ROption => lemma_named_7(k),
        Key::Numpad0 => lemma_named_7(k),
        Key::Numpad1 => lemma_named_7(k),
        Key::Numpad2 => lemma_named_7(k),
        Key::Numpad3 => lemma_named_7(k),
        Key::Numpad4 => lemma_named_7(k),
        Key::Numpad5 => lemma_named_7(k),
        Key::Numpad6 => lemma_named_7(k),
        Key::Numpad7 => lemma_named_7(k),
        Key::Numpad8 => lemma_named_7(k),
        Key::Numpad9 => lemma_named_7(k),
        Key::RCommand => lemma_named_8(k),
        Key::CapsLock => lemma_named_8(k),
        Key::PageDown => lemma_named_8(k),
        Key::Backspace => lemma_named_9(k),
        Key::NumpadAdd => lemma_named_9(k),
        Key::NumpadEnter => lemma_named_11(k),
        Key::NumpadDivide => lemma_named_12(k),
        Key::NumpadEquals => lemma_named_12(k),
        Key::NumpadDecimal => lemma_named_13(k),
        Key::NumpadSubtract => lemma_named_14(k),
        Key::NumpadMultiply => lemma_named_14(k),
    }
}

/// Distinct keys have distinct display names, so a key's name tells which
/// key it is.
pub proof fn law_key_names_distinct(a: Key, b: Key)
    ensures
        key_name_spec(a) == key_name_spec(b) ==> a == b,
{
    lemma_key_named(a);
    lemma_key_named(b);
}

} // verus!
