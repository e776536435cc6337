use vstd::prelude::*;
use vstd::string::StringExecFns;

verus! {

/// Every key of a keyboard device.
#[derive(Debug, Clone, Copy, PartialEq, Eq, Structural)]
pub enum Key {
    A,
    B,
    C,
    D,
    E,
    F,
    G,
    H,
    I,
    J,
    K,
    L,
    M,
    N,
    O,
    P,
    Q,
    R,
    S,
    T,
    U,
    V,
    W,
    X,
    Y,
    Z,
    Escape,
    F1,
    F2,
    F3,
    F4,
    F5,
    F6,
    F7,
    F8,
    F9,
    F10,
    F11,
    F12,
    F13,
    F14,
    F15,
    F16,
    F17,
    F18,
    F19,
    F20,
    F21,
    F22,
    F23,
    F24,
    Key1,
    Key2,
    Key3,
    Key4,
    Key5,
    Key6,
    Key7,
    Key8,
    Key9,
    Key0,
    Numlock,
    Numpad0,
    Numpad1,
    Numpad2,
    Numpad3,
    Numpad4,
    Numpad5,
    Numpad6,
    Numpad7,
    Numpad8,
    Numpad9,
    NumpadPlus,
    NumpadMinus,
    NumpadAsterisk,
    NumpadSlash,
    NumpadDecimal,
    NumpadEnter,
    Snapshot,
    ScrollLock,
    Pause,
    Insert,
    Home,
    Delete,
    End,
    PageUp,
    PageDown,
    Left,
    Right,
    Up,
    Down,
    Grave,
    Back,
    Tab,
    CapitalLock,
    Return,
    Space,
    LAlt,
    RAlt,
    LShift,
    RShift,
    LControl,
    RControl,
    LWin,
    RWin,
    Minus,
    Equals,
    LBracket,
    RBracket,
    Backslash,
    Semicolon,
    Apostrophe,
    Comma,
    Period,
    Slash,
}

/// A modifier key that can be held while another key is typed.
#[derive(Debug, Clone, Copy, PartialEq, Eq, Structural)]
pub enum KeyModifier {
    Shift,
    Control,
    Alt,
    /// The "windows" key on PC and "command" key on Mac.
    Platform,
}

/// The set of modifier keys held during a key event.
#[derive(Debug, Clone, Copy, PartialEq, Eq, Structural, Default)]
pub struct KeyModifiers {
    pub shift: bool,
    pub control: bool,
    pub alt: bool,
    pub platform: bool,
}

impl KeyModifiers {
    /// Whether the given modifier is held.
    pub fn contains(&self, modifier: KeyModifier) -> (r: bool)
        ensures
            r == self.has(modifier),
    {
        match modifier {
            KeyModifier::Shift => self.shift,
            KeyModifier::Control => self.control,
            KeyModifier::Alt => self.alt,
            KeyModifier::Platform => self.platform,
        }
    }

    /// Whether the given modifier is held.
    pub open spec fn has(self, modifier: KeyModifier) -> bool {
        match modifier {
            KeyModifier::Shift => self.shift,
            KeyModifier::Control => self.control,
            KeyModifier::Alt => self.alt,
            KeyModifier::Platform => self.platform,
        }
    }
}

/// The text a key types when held together with the given modifiers:
/// its shifted label when shift is held, its plain label otherwise, and
/// `None` for a key that types nothing.
pub open spec fn key_label(key: Key, uppercase: bool) -> Option<Seq<char>> {
    match key {
        Key::A => Some(if uppercase { "A"@ } else { "a"@ }),
        Key::B => Some(if uppercase { "B"@ } else { "b"@ }),
        Key::C => Some(if uppercase { "C"@ } else { "c"@ }),
        Key::D => Some(if uppercase { "D"@ } else { "d"@ }),
        Key::E => Some(if uppercase { "E"@ } else { "e"@ }),
        Key::F => Some(if uppercase { "F"@ } else { "f"@ }),
        Key::G => Some(if uppercase { "G"@ } else { "g"@ }),
        Key::H => Some(if uppercase { "H"@ } else { "h"@ }),
        Key::I => Some(if uppercase { "I"@ } else { "i"@ }),
        Key::J => Some(if uppercase { "J"@ } else { "j"@ }),
        Key::K => Some(if uppercase { "K"@ } else { "k"@ }),
        Key::L => Some(if uppercase { "L"@ } else { "l"@ }),
        Key::M => Some(if uppercase { "M"@ } else { "m"@ }),
        Key::N => Some(if uppercase { "N"@ } else { "n"@ }),
        Key::O => Some(if uppercase { "O"@ } else { "o"@ }),
        Key::P => Some(if uppercase { "P"@ } else { "p"@ }),
        Key::Q => Some(if uppercase { "Q"@ } else { "q"@ }),
        Key::R => Some(if uppercase { "R"@ } else { "r"@ }),
        Key::S => Some(if uppercase { "S"@ } else { "s"@ }),
        Key::T => Some(if uppercase { "T"@ } else { "t"@ }),
        Key::U => Some(if uppercase { "U"@ } else { "u"@ }),
        Key::V => Some(if uppercase { "V"@ } else { "v"@ }),
        Key::W => Some(if uppercase { "W"@ } else { "w"@ }),
        Key::X => Some(if uppercase { "X"@ } else { "x"@ }),
        Key::Y => Some(if uppercase { "Y"@ } else { "y"@ }),
        Key::Z => Some(if uppercase { "Z"@ } else { "z"@ }),
        Key::Key1 => Some(if uppercase { "!"@ } else { "1"@ }),
        Key::Key2 => Some(if uppercase { "@"@ } else { "2"@ }),
        Key::Key3 => Some(if uppercase { "#"@ } else { "3"@ }),
        Key::Key4 => Some(if uppercase { "$"@ } else { "4"@ }),
        Key::Key5 => Some(if uppercase { "%"@ } else { "5"@ }),
        Key::Key6 => Some(if uppercase { "^"@ } else { "6"@ }),
        Key::Key7 => Some(if uppercase { "&"@ } else { "7"@ }),
        Key::Key8 => Some(if uppercase { "*"@ } else { "8"@ }),
        Key::Key9 => Some(if uppercase { "("@ } else { "9"@ }),
        Key::Key0 => Some(if uppercase { ")"@ } else { "0"@ }),
        Key::Numpad0 => Some("0"@),
        Key::Numpad1 => Some("1"@),
        Key::Numpad2 => Some("2"@),
        Key::Numpad3 => Some("3"@),
        Key::Numpad4 => Some("4"@),
        Key::Numpad5 => Some("5"@),
        Key::Numpad6 => Some("6"@),
        Key::Numpad7 => Some("7"@),
        Key::Numpad8 => Some("8"@),
        Key::Numpad9 => Some("9"@),
        Key::NumpadPlus => Some("+"@),
        Key::NumpadMinus => Some("-"@),
        Key::NumpadAsterisk => Some("*"@),
        Key::NumpadSlash => Some("/"@),
        Key::NumpadDecimal => Some("."@),
        Key::Grave => Some(if uppercase { "~"@ } else { "`"@ }),
        Key::Space => Some(" "@),
        Key::Minus => Some(if uppercase { "_"@ } else { "-"@ }),
        Key::Equals => Some(if uppercase { "+"@ } else { "="@ }),
        Key::LBracket => Some(if uppercase { "{"@ } else { "["@ }),
        Key::RBracket => Some(if uppercase { "}"@ } else { "]"@ }),
        Key::Backslash => Some(if uppercase { "|"@ } else { "\\"@ }),
        Key::Semicolon => Some(if uppercase { ":"@ } else { ";"@ }),
        Key::Apostrophe => Some(if uppercase { "\""@ } else { "'"@ }),
        Key::Comma => Some(if uppercase { "<"@ } else { ","@ }),
        Key::Period => Some(if uppercase { ">"@ } else { "."@ }),
        Key::Slash => Some(if uppercase { "?"@ } else { "/"@ }),
        _ => None,
    }
}

impl Key {
    /// The text this key types under the given modifiers, or `None`
    /// for a key that types nothing.
    pub fn to_string(&self, modifiers: &KeyModifiers) -> (r: Option<String>)
        ensures
            r matches Some(s) ==> key_label(*self, modifiers.shift) matches Some(l) && s@ == l,
            r is None <==> key_label(*self, modifiers.shift) is None,
    {
        let uppercase = modifiers.contains(KeyModifier::Shift);
        let label: Option<&str> = match *self {
            Key::A => Some(if uppercase { "A" } else { "a" }),
            Key::B => Some(if uppercase { "B" } else { "b" }),
            Key::C => Some(if uppercase { "C" } else { "c" }),
            Key::D => Some(if uppercase { "D" } else { "d" }),
            Key::E => Some(if uppercase { "E" } else { "e" }),
            Key::F => Some(if uppercase { "F" } else { "f" }),
            Key::G => Some(if uppercase { "G" } else { "g" }),
            Key::H => Some(if uppercase { "H" } else { "h" }),
            Key::I => Some(if uppercase { "I" } else { "i" }),
            Key::J => Some(if uppercase { "J" } else { "j" }),
            Key::K => Some(if uppercase { "K" } else { "k" }),
            Key::L => Some(if uppercase { "L" } else { "l" }),
            Key::M => Some(if uppercase { "M" } else { "m" }),
            Key::N => Some(if uppercase { "N" } else { "n" }),
            Key::O => Some(if uppercase { "O" } else { "o" }),
            Key::P => Some(if uppercase { "P" } else { "p" }),
            Key::Q => Some(if uppercase { "Q" } else { "q" }),
            Key::R => Some(if uppercase { "R" } else { "r" }),
            Key::S => Some(if uppercase { "S" } else { "s" }),
            Key::T => Some(if uppercase { "T" } else { "t" }),
            Key::U => Some(if uppercase { "U" } else { "u" }),
            Key::V => Some(if uppercase { "V" } else { "v" }),
            Key::W => Some(if uppercase { "W" } else { "w" }),
            Key::X => Some(if uppercase { "X" } else { "x" }),
            Key::Y => Some(if uppercase { "Y" } else { "y" }),
            Key::Z => Some(if uppercase { "Z" } else { "z" }),
            Key::Key1 => Some(if uppercase { "!" } else { "1" }),
            Key::Key2 => Some(if uppercase { "@" } else { "2" }),
            Key::Key3 => Some(if uppercase { "#" } else { "3" }),
            Key::Key4 => Some(if uppercase { "$" } else { "4" }),
            Key::Key5 => Some(if uppercase { "%" } else { "5" }),
            Key::Key6 => Some(if uppercase { "^" } else { "6" }),
            Key::Key7 => Some(if uppercase { "&" } else { "7" }),
            Key::Key8 => Some(if uppercase { "*" } else { "8" }),
            Key::Key9 => Some(if uppercase { "(" } else { "9" }),
            Key::Key0 => Some(if uppercase { ")" } else { "0" }),
            Key::Numpad0 => Some("0"),
            Key::Numpad1 => Some("1"),
            Key::Numpad2 => Some("2"),
            Key::Numpad3 => Some("3"),
            Key::Numpad4 => Some("4"),
            Key::Numpad5 => Some("5"),
            Key::Numpad6 => Some("6"),
            Key::Numpad7 => Some("7"),
            Key::Numpad8 => Some("8"),
            Key::Numpad9 => Some("9"),
            Key::NumpadPlus => Some("+"),
            Key::NumpadMinus => Some("-"),
            Key::NumpadAsterisk => Some("*"),
            Key::NumpadSlash => Some("/"),
            Key::NumpadDecimal => Some("."),
            Key::Grave => Some(if uppercase { "~" } else { "`" }),
            Key::Space => Some(" "),
            Key::Minus => Some(if uppercase { "_" } else { "-" }),
            Key::Equals => Some(if uppercase { "+" } else { "=" }),
            Key::LBracket => Some(if uppercase { "{" } else { "[" }),
            Key::RBracket => Some(if uppercase { "}" } else { "]" }),
            Key::Backslash => Some(if uppercase { "|" } else { "\\" }),
            Key::Semicolon => Some(if uppercase { ":" } else { ";" }),
            Key::Apostrophe => Some(if uppercase { "\"" } else { "'" }),
            Key::Comma => Some(if uppercase { "<" } else { "," }),
            Key::Period => Some(if uppercase { ">" } else { "." }),
            Key::Slash => Some(if uppercase { "?" } else { "/" }),
            _ => None,
        };
        match label {
            Some(s) => Some(String::from_str(s)),
            None => None,
        }
    }
}

} // verus!
