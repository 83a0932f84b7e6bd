//! The closed sets of keys and modifiers a hotkey can be built from:
//! platform code values, canonical names, and the token tables the parser
//! resolves against, together with the facts the round-trip proof needs.

use vstd::prelude::*;
use crate::text::{plain_seq, is_plain_char, is_digit_char, is_numeric_token, all_digits, token_eq};

verus! {

/// A keyboard modifier that may accompany the base keys of a hotkey.
#[allow(clippy::upper_case_acronyms)]
#[derive(Debug, Copy, Clone, PartialEq, Eq, Structural, Hash)]
pub enum Modifier {
    ALT,
    ALTGR,
    CTRL,
    SHIFT,
    SUPER,
}

/// A physical key a hotkey can name.
#[allow(non_camel_case_types, clippy::upper_case_acronyms)]
#[derive(Debug, Copy, Clone, PartialEq, Eq, Structural, Hash)]
pub enum Key {
    BACKSPACE,
    TAB,
    ENTER,
    CAPSLOCK,
    ESCAPE,
    SPACE,
    PAGEUP,
    PAGEDOWN,
    END,
    HOME,
    LEFT,
    RIGHT,
    UP,
    DOWN,
    PRINTSCREEN,
    INSERT,
    CLEAR,
    DELETE,
    SCROLLLOCK,
    HELP,
    NUMLOCK,
    VOLUMEMUTE,
    VOLUMEDOWN,
    VOLUMEUP,
    MEDIANEXTTRACK,
    MEDIAPREVIOUSTRACK,
    MEDIASTOP,
    MEDIAPLAYPAUSE,
    LAUNCHMAIL,
    F1,
    F2,
    F3,
    F4,
    F5,
    F6,
    F7,
    F8,
    F9,
    F10,
    F11,
    F12,
    NUMADD,
    NUMSUB,
    NUMMULT,
    NUMDIV,
    NUMDEC,
    KEY_0,
    KEY_1,
    KEY_2,
    KEY_3,
    KEY_4,
    KEY_5,
    KEY_6,
    KEY_7,
    KEY_8,
    KEY_9,
    A,
    B,
    C,
    D,
    E,
    F,
    G,
    H,
    I,
    J,
    K,
    L,
    M,
    N,
    O,
    P,
    Q,
    R,
    S,
    T,
    U,
    V,
    W,
    X,
    Y,
    Z,
    EQUAL,
    MINUS,
    SINGLEQUOTE,
    COMMA,
    PERIOD,
    SEMICOLON,
    SLASH,
    OPENQUOTE,
    OPENBRACKET,
    BACKSLASH,
    CLOSEBRACKET,
}

impl Modifier {
    /// The platform modifier bit folded into a hotkey's modifier flags.
    pub open spec fn value_spec(self) -> u32 {
        match self {
            Modifier::ALT => 1,
            Modifier::ALTGR => 165,
            Modifier::CTRL => 2,
            Modifier::SHIFT => 4,
            Modifier::SUPER => 8,
        }
    }

    pub fn value(self) -> (r: u32)
        ensures
            r == self.value_spec(),
    {
        match self {
            Modifier::ALT => 1,
            Modifier::ALTGR => 165,
            Modifier::CTRL => 2,
            Modifier::SHIFT => 4,
            Modifier::SUPER => 8,
        }
    }

    /// The canonical, re-parseable name of this modifier.
    pub open spec fn name_spec(self) -> Seq<char> {
        match self {
            Modifier::ALT => "ALT"@,
            Modifier::ALTGR => "ALTGR"@,
            Modifier::CTRL => "CTRL"@,
            Modifier::SHIFT => "SHIFT"@,
            Modifier::SUPER => "SUPER"@,
        }
    }

    pub fn name(self) -> (r: &'static str)
        ensures
            r@ == self.name_spec(),
    {
        match self {
            Modifier::ALT => "ALT",
            Modifier::ALTGR => "ALTGR",
            Modifier::CTRL => "CTRL",
            Modifier::SHIFT => "SHIFT",
            Modifier::SUPER => "SUPER",
        }
    }
}

impl Key {
    /// The platform virtual-key code folded into a hotkey's key flags.
    pub open spec fn value_spec(self) -> u32 {
        match self {
            Key::BACKSPACE => 8,
            Key::TAB => 9,
            Key::ENTER => 13,
            Key::CAPSLOCK => 20,
            Key::ESCAPE => 27,
            Key::SPACE => 32,
            Key::PAGEUP => 33,
            Key::PAGEDOWN => 34,
            Key::END => 35,
            Key::HOME => 36,
            Key::LEFT => 37,
            Key::RIGHT => 39,
            Key::UP => 38,
            Key::DOWN => 40,
            Key::PRINTSCREEN => 44,
            Key::INSERT => 45,
            Key::CLEAR => 12,
            Key::DELETE => 46,
            Key::SCROLLLOCK => 145,
            Key::HELP => 47,
            Key::NUMLOCK => 144,
            Key::VOLUMEMUTE => 173,
            Key::VOLUMEDOWN => 174,
            Key::VOLUMEUP => 175,
            Key::MEDIANEXTTRACK => 176,
            Key::MEDIAPREVIOUSTRACK => 177,
            Key::MEDIASTOP => 178,
            Key::MEDIAPLAYPAUSE => 179,
            Key::LAUNCHMAIL => 180,
            Key::F1 => 112,
            Key::F2 => 113,
            Key::F3 => 114,
            Key::F4 => 115,
            Key::F5 => 116,
            Key::F6 => 117,
            Key::F7 => 118,
            Key::F8 => 119,
            Key::F9 => 120,
            Key::F10 => 121,
            Key::F11 => 122,
            Key::F12 => 123,
            Key::NUMADD => 107,
            Key::NUMSUB => 109,
            Key::NUMMULT => 106,
            Key::NUMDIV => 111,
            Key::NUMDEC => 110,
            Key::KEY_0 => 48,
            Key::KEY_1 => 49,
            Key::KEY_2 => 50,
            Key::KEY_3 => 51,
            Key::KEY_4 => 52,
            Key::KEY_5 => 53,
            Key::KEY_6 => 54,
            Key::KEY_7 => 55,
            Key::KEY_8 => 56,
            Key::KEY_9 => 57,
            Key::A => 65,
            Key::B => 66,
            Key::C => 67,
            Key::D => 68,
            Key::E => 69,
            Key::F => 70,
            Key::G => 71,
            Key::H => 72,
            Key::I => 73,
            Key::J => 74,
            Key::K => 75,
            Key::L => 76,
            Key::M => 77,
            Key::N => 78,
            Key::O => 79,
            Key::P => 80,
            Key::Q => 81,
            Key::R => 82,
            Key::S => 83,
            Key::T => 84,
            Key::U => 85,
            Key::V => 86,
            Key::W => 87,
            Key::X => 88,
            Key::Y => 89,
            Key::Z => 90,
            Key::EQUAL => 187,
            Key::MINUS => 189,
            Key::SINGLEQUOTE => 222,
            Key::COMMA => 188,
            Key::PERIOD => 190,
            Key::SEMICOLON => 186,
            Key::SLASH => 191,
            Key::OPENQUOTE => 192,
            Key::OPENBRACKET => 219,
            Key::BACKSLASH => 220,
            Key::CLOSEBRACKET => 221,
        }
    }

    pub fn value(self) -> (r: u32)
        ensures
            r == self.value_spec(),
    {
        match self {
            Key::BACKSPACE => 8,
            Key::TAB => 9,
            Key::ENTER => 13,
            Key::CAPSLOCK => 20,
            Key::ESCAPE => 27,
            Key::SPACE => 32,
            Key::PAGEUP => 33,
            Key::PAGEDOWN => 34,
            Key::END => 35,
            Key::HOME => 36,
            Key::LEFT => 37,
            Key::RIGHT => 39,
            Key::UP => 38,
            Key::DOWN => 40,
            Key::PRINTSCREEN => 44,
            Key::INSERT => 45,
            Key::CLEAR => 12,
            Key::DELETE => 46,
            Key::SCROLLLOCK => 145,
            Key::HELP => 47,
            Key::NUMLOCK => 144,
            Key::VOLUMEMUTE => 173,
            Key::VOLUMEDOWN => 174,
            Key::VOLUMEUP => 175,
            Key::MEDIANEXTTRACK => 176,
            Key::MEDIAPREVIOUSTRACK => 177,
            Key::MEDIASTOP => 178,
            Key::MEDIAPLAYPAUSE => 179,
            Key::LAUNCHMAIL => 180,
            Key::F1 => 112,
            Key::F2 => 113,
            Key::F3 => 114,
            Key::F4 => 115,
            Key::F5 => 116,
            Key::F6 => 117,
            Key::F7 => 118,
            Key::F8 => 119,
            Key::F9 => 120,
            Key::F10 => 121,
            Key::F11 => 122,
            Key::F12 => 123,
            Key::NUMADD => 107,
            Key::NUMSUB => 109,
            Key::NUMMULT => 106,
            Key::NUMDIV => 111,
            Key::NUMDEC => 110,
            Key::KEY_0 => 48,
            Key::KEY_1 => 49,
            Key::KEY_2 => 50,
            Key::KEY_3 => 51,
            Key::KEY_4 => 52,
            Key::KEY_5 => 53,
            Key::KEY_6 => 54,
            Key::KEY_7 => 55,
            Key::KEY_8 => 56,
            Key::KEY_9 => 57,
            Key::A => 65,
            Key::B => 66,
            Key::C => 67,
            Key::D => 68,
            Key::E => 69,
            Key::F => 70,
            Key::G => 71,
            Key::H => 72,
            Key::I => 73,
            Key::J => 74,
            Key::K => 75,
            Key::L => 76,
            Key::M => 77,
            Key::N => 78,
            Key::O => 79,
            Key::P => 80,
            Key::Q => 81,
            Key::R => 82,
            Key::S => 83,
            Key::T => 84,
            Key::U => 85,
            Key::V => 86,
            Key::W => 87,
            Key::X => 88,
            Key::Y => 89,
            Key::Z => 90,
            Key::EQUAL => 187,
            Key::MINUS => 189,
            Key::SINGLEQUOTE => 222,
            Key::COMMA => 188,
            Key::PERIOD => 190,
            Key::SEMICOLON => 186,
            Key::SLASH => 191,
            Key::OPENQUOTE => 192,
            Key::OPENBRACKET => 219,
            Key::BACKSLASH => 220,
            Key::CLOSEBRACKET => 221,
        }
    }

    /// The canonical, re-parseable name of this key.
    pub open spec fn name_spec(self) -> Seq<char> {
        match self {
            Key::BACKSPACE => "BACKSPACE"@,
            Key::TAB => "TAB"@,
            Key::ENTER => "ENTER"@,
            Key::CAPSLOCK => "CAPSLOCK"@,
            Key::ESCAPE => "ESCAPE"@,
            Key::SPACE => "SPACE"@,
            Key::PAGEUP => "PAGEUP"@,
            Key::PAGEDOWN => "PAGEDOWN"@,
            Key::END => "END"@,
            Key::HOME => "HOME"@,
            Key::LEFT => "LEFT"@,
            Key::RIGHT => "RIGHT"@,
            Key::UP => "UP"@,
            Key::DOWN => "DOWN"@,
            Key::PRINTSCREEN => "PRINTSCREEN"@,
            Key::INSERT => "INSERT"@,
            Key::CLEAR => "CLEAR"@,
            Key::DELETE => "DELETE"@,
            Key::SCROLLLOCK => "SCROLLLOCK"@,
            Key::HELP => "HELP"@,
            Key::NUMLOCK => "NUMLOCK"@,
            Key::VOLUMEMUTE => "VOLUMEMUTE"@,
            Key::VOLUMEDOWN => "VOLUMEDOWN"@,
            Key::VOLUMEUP => "VOLUMEUP"@,
            Key::MEDIANEXTTRACK => "MEDIANEXTTRACK"@,
            Key::MEDIAPREVIOUSTRACK => "MEDIAPREVIOUSTRACK"@,
            Key::MEDIASTOP => "MEDIASTOP"@,
            Key::MEDIAPLAYPAUSE => "MEDIAPLAYPAUSE"@,
            Key::LAUNCHMAIL => "LAUNCHMAIL"@,
            Key::F1 => "F1"@,
            Key::F2 => "F2"@,
            Key::F3 => "F3"@,
            Key::F4 => "F4"@,
            Key::F5 => "F5"@,
            Key::F6 => "F6"@,
            Key::F7 => "F7"@,
            Key::F8 => "F8"@,
            Key::F9 => "F9"@,
            Key::F10 => "F10"@,
            Key::F11 => "F11"@,
            Key::F12 => "F12"@,
            Key::NUMADD => "NUMADD"@,
            Key::NUMSUB => "NUMSUB"@,
            Key::NUMMULT => "NUMMULT"@,
            Key::NUMDIV => "NUMDIV"@,
            Key::NUMDEC => "NUMDEC"@,
            Key::KEY_0 => "KEY_0"@,
            Key::KEY_1 => "KEY_1"@,
            Key::KEY_2 => "KEY_2"@,
            Key::KEY_3 => "KEY_3"@,
            Key::KEY_4 => "KEY_4"@,
            Key::KEY_5 => "KEY_5"@,
            Key::KEY_6 => "KEY_6"@,
            Key::KEY_7 => "KEY_7"@,
            Key::KEY_8 => "KEY_8"@,
            Key::KEY_9 => "KEY_9"@,
            Key::A => "A"@,
            Key::B => "B"@,
            Key::C => "C"@,
            Key::D => "D"@,
            Key::E => "E"@,
            Key::F => "F"@,
            Key::G => "G"@,
            Key::H => "H"@,
            Key::I => "I"@,
            Key::J => "J"@,
            Key::K => "K"@,
            Key::L => "L"@,
            Key::M => "M"@,
            Key::N => "N"@,
            Key::O => "O"@,
            Key::P => "P"@,
            Key::Q => "Q"@,
            Key::R => "R"@,
            Key::S => "S"@,
            Key::T => "T"@,
            Key::U => "U"@,
            Key::V => "V"@,
            Key::W => "W"@,
            Key::X => "X"@,
            Key::Y => "Y"@,
            Key::Z => "Z"@,
            Key::EQUAL => "EQUAL"@,
            Key::MINUS => "MINUS"@,
            Key::SINGLEQUOTE => "SINGLEQUOTE"@,
            Key::COMMA => "COMMA"@,
            Key::PERIOD => "PERIOD"@,
            Key::SEMICOLON => "SEMICOLON"@,
            Key::SLASH => "SLASH"@,
            Key::OPENQUOTE => "OPENQUOTE"@,
            Key::OPENBRACKET => "OPENBRACKET"@,
            Key::BACKSLASH => "BACKSLASH"@,
            Key::CLOSEBRACKET => "CLOSEBRACKET"@,
        }
    }

    pub fn name(self) -> (r: &'static str)
        ensures
            r@ == self.name_spec(),
    {
        match self {
            Key::BACKSPACE => "BACKSPACE",
            Key::TAB => "TAB",
            Key::ENTER => "ENTER",
            Key::CAPSLOCK => "CAPSLOCK",
            Key::ESCAPE => "ESCAPE",
            Key::SPACE => "SPACE",
            Key::PAGEUP => "PAGEUP",
            Key::PAGEDOWN => "PAGEDOWN",
            Key::END => "END",
            Key::HOME => "HOME",
            Key::LEFT => "LEFT",
            Key::RIGHT => "RIGHT",
            Key::UP => "UP",
            Key::DOWN => "DOWN",
            Key::PRINTSCREEN => "PRINTSCREEN",
            Key::INSERT => "INSERT",
            Key::CLEAR => "CLEAR",
            Key::DELETE => "DELETE",
            Key::SCROLLLOCK => "SCROLLLOCK",
            Key::HELP => "HELP",
            Key::NUMLOCK => "NUMLOCK",
            Key::VOLUMEMUTE => "VOLUMEMUTE",
            Key::VOLUMEDOWN => "VOLUMEDOWN",
            Key::VOLUMEUP => "VOLUMEUP",
            Key::MEDIANEXTTRACK => "MEDIANEXTTRACK",
            Key::MEDIAPREVIOUSTRACK => "MEDIAPREVIOUSTRACK",
            Key::MEDIASTOP => "MEDIASTOP",
            Key::MEDIAPLAYPAUSE => "MEDIAPLAYPAUSE",
            Key::LAUNCHMAIL => "LAUNCHMAIL",
            Key::F1 => "F1",
            Key::F2 => "F2",
            Key::F3 => "F3",
            Key::F4 => "F4",
            Key::F5 => "F5",
            Key::F6 => "F6",
            Key::F7 => "F7",
            Key::F8 => "F8",
            Key::F9 => "F9",
            Key::F10 => "F10",
            Key::F11 => "F11",
            Key::F12 => "F12",
            Key::NUMADD => "NUMADD",
            Key::NUMSUB => "NUMSUB",
            Key::NUMMULT => "NUMMULT",
            Key::NUMDIV => "NUMDIV",
            Key::NUMDEC => "NUMDEC",
            Key::KEY_0 => "KEY_0",
            Key::KEY_1 => "KEY_1",
            Key::KEY_2 => "KEY_2",
            Key::KEY_3 => "KEY_3",
            Key::KEY_4 => "KEY_4",
            Key::KEY_5 => "KEY_5",
            Key::KEY_6 => "KEY_6",
            Key::KEY_7 => "KEY_7",
            Key::KEY_8 => "KEY_8",
            Key::KEY_9 => "KEY_9",
            Key::A => "A",
            Key::B => "B",
            Key::C => "C",
            Key::D => "D",
            Key::E => "E",
            Key::F => "F",
            Key::G => "G",
            Key::H => "H",
            Key::I => "I",
            Key::J => "J",
            Key::K => "K",
            Key::L => "L",
            Key::M => "M",
            Key::N => "N",
            Key::O => "O",
            Key::P => "P",
            Key::Q => "Q",
            Key::R => "R",
            Key::S => "S",
            Key::T => "T",
            Key::U => "U",
            Key::V => "V",
            Key::W => "W",
            Key::X => "X",
            Key::Y => "Y",
            Key::Z => "Z",
            Key::EQUAL => "EQUAL",
            Key::MINUS => "MINUS",
            Key::SINGLEQUOTE => "SINGLEQUOTE",
            Key::COMMA => "COMMA",
            Key::PERIOD => "PERIOD",
            Key::SEMICOLON => "SEMICOLON",
            Key::SLASH => "SLASH",
            Key::OPENQUOTE => "OPENQUOTE",
            Key::OPENBRACKET => "OPENBRACKET",
            Key::BACKSLASH => "BACKSLASH",
            Key::CLOSEBRACKET => "CLOSEBRACKET",
        }
    }
}

/// What a cleaned token resolves to as a modifier, aliases included.
pub open spec fn modifier_token_spec(s: Seq<char>) -> Option<Modifier> {
    if s == "COMMAND"@ {
        Some(Modifier::SUPER)
    } else if s == "CMD"@ {
        Some(Modifier::SUPER)
    } else if s == "CONTROL"@ {
        Some(Modifier::CTRL)
    } else if s == "COMMANDORCONTROL"@ {
        Some(Modifier::CTRL)
    } else if s == "COMMANDORCTRL"@ {
        Some(Modifier::CTRL)
    } else if s == "CMDORCTRL"@ {
        Some(Modifier::CTRL)
    } else if s == "CMDORCONTROL"@ {
        Some(Modifier::CTRL)
    } else if s == "ALT"@ {
        Some(Modifier::ALT)
    } else if s == "ALTGR"@ {
        Some(Modifier::ALTGR)
    } else if s == "CTRL"@ {
        Some(Modifier::CTRL)
    } else if s == "SHIFT"@ {
        Some(Modifier::SHIFT)
    } else if s == "SUPER"@ {
        Some(Modifier::SUPER)
    } else {
        None
    }
}

pub fn modifier_token(t: &[char]) -> (r: Option<Modifier>)
    ensures
        r == modifier_token_spec(t@),
{
    if token_eq(t, "COMMAND") {
        Some(Modifier::SUPER)
    } else if token_eq(t, "CMD") {
        Some(Modifier::SUPER)
    } else if token_eq(t, "CONTROL") {
        Some(Modifier::CTRL)
    } else if token_eq(t, "COMMANDORCONTROL") {
        Some(Modifier::CTRL)
    } else if token_eq(t, "COMMANDORCTRL") {
        Some(Modifier::CTRL)
    } else if token_eq(t, "CMDORCTRL") {
        Some(Modifier::CTRL)
    } else if token_eq(t, "CMDORCONTROL") {
        Some(Modifier::CTRL)
    } else if token_eq(t, "ALT") {
        Some(Modifier::ALT)
    } else if token_eq(t, "ALTGR") {
        Some(Modifier::ALTGR)
    } else if token_eq(t, "CTRL") {
        Some(Modifier::CTRL)
    } else if token_eq(t, "SHIFT") {
        Some(Modifier::SHIFT)
    } else if token_eq(t, "SUPER") {
        Some(Modifier::SUPER)
    } else {
        None
    }
}

/// The key behind a shifted symbol token; resolving one also adds SHIFT.
pub open spec fn shifted_symbol_spec(s: Seq<char>) -> Option<Key> {
    if s == ")"@ {
        Some(Key::KEY_0)
    } else if s == "!"@ {
        Some(Key::KEY_1)
    } else if s == "@"@ {
        Some(Key::KEY_2)
    } else if s == "#"@ {
        Some(Key::KEY_3)
    } else if s == "$"@ {
        Some(Key::KEY_4)
    } else if s == "%"@ {
        Some(Key::KEY_5)
    } else if s == "^"@ {
        Some(Key::KEY_6)
    } else if s == "&"@ {
        Some(Key::KEY_7)
    } else if s == "*"@ {
        Some(Key::KEY_8)
    } else if s == "("@ {
        Some(Key::KEY_9)
    } else if s == ":"@ {
        Some(Key::SEMICOLON)
    } else if s == "<"@ {
        Some(Key::COMMA)
    } else if s == ">"@ {
        Some(Key::PERIOD)
    } else if s == "_"@ {
        Some(Key::MINUS)
    } else if s == "?"@ {
        Some(Key::SLASH)
    } else if s == "~"@ {
        Some(Key::OPENQUOTE)
    } else if s == "{"@ {
        Some(Key::OPENBRACKET)
    } else if s == "|"@ {
        Some(Key::BACKSLASH)
    } else if s == "}"@ {
        Some(Key::CLOSEBRACKET)
    } else if s == "+"@ {
        Some(Key::EQUAL)
    } else if s == "PLUS"@ {
        Some(Key::EQUAL)
    } else if s == "\""@ {
        Some(Key::SINGLEQUOTE)
    } else {
        None
    }
}

pub fn shifted_symbol(t: &[char]) -> (r: Option<Key>)
    ensures
        r == shifted_symbol_spec(t@),
{
    if token_eq(t, ")") {
        Some(Key::KEY_0)
    } else if token_eq(t, "!") {
        Some(Key::KEY_1)
    } else if token_eq(t, "@") {
        Some(Key::KEY_2)
    } else if token_eq(t, "#") {
        Some(Key::KEY_3)
    } else if token_eq(t, "$") {
        Some(Key::KEY_4)
    } else if token_eq(t, "%") {
        Some(Key::KEY_5)
    } else if token_eq(t, "^") {
        Some(Key::KEY_6)
    } else if token_eq(t, "&") {
        Some(Key::KEY_7)
    } else if token_eq(t, "*") {
        Some(Key::KEY_8)
    } else if token_eq(t, "(") {
        Some(Key::KEY_9)
    } else if token_eq(t, ":") {
        Some(Key::SEMICOLON)
    } else if token_eq(t, "<") {
        Some(Key::COMMA)
    } else if token_eq(t, ">") {
        Some(Key::PERIOD)
    } else if token_eq(t, "_") {
        Some(Key::MINUS)
    } else if token_eq(t, "?") {
        Some(Key::SLASH)
    } else if token_eq(t, "~") {
        Some(Key::OPENQUOTE)
    } else if token_eq(t, "{") {
        Some(Key::OPENBRACKET)
    } else if token_eq(t, "|") {
        Some(Key::BACKSLASH)
    } else if token_eq(t, "}") {
        Some(Key::CLOSEBRACKET)
    } else if token_eq(t, "+") {
        Some(Key::EQUAL)
    } else if token_eq(t, "PLUS") {
        Some(Key::EQUAL)
    } else if token_eq(t, "\"") {
        Some(Key::SINGLEQUOTE)
    } else {
        None
    }
}

/// The key behind a plain punctuation or alias token; no SHIFT implied.
pub open spec fn plain_alias_spec(s: Seq<char>) -> Option<Key> {
    if s == "RETURN"@ {
        Some(Key::ENTER)
    } else if s == "="@ {
        Some(Key::EQUAL)
    } else if s == "-"@ {
        Some(Key::MINUS)
    } else if s == "'"@ {
        Some(Key::SINGLEQUOTE)
    } else if s == ","@ {
        Some(Key::COMMA)
    } else if s == "."@ {
        Some(Key::PERIOD)
    } else if s == ";"@ {
        Some(Key::SEMICOLON)
    } else if s == "/"@ {
        Some(Key::SLASH)
    } else if s == "`"@ {
        Some(Key::OPENQUOTE)
    } else if s == "["@ {
        Some(Key::OPENBRACKET)
    } else if s == "\\"@ {
        Some(Key::BACKSLASH)
    } else if s == "]"@ {
        Some(Key::CLOSEBRACKET)
    } else {
        None
    }
}

pub fn plain_alias(t: &[char]) -> (r: Option<Key>)
    ensures
        r == plain_alias_spec(t@),
{
    if token_eq(t, "RETURN") {
        Some(Key::ENTER)
    } else if token_eq(t, "=") {
        Some(Key::EQUAL)
    } else if token_eq(t, "-") {
        Some(Key::MINUS)
    } else if token_eq(t, "'") {
        Some(Key::SINGLEQUOTE)
    } else if token_eq(t, ",") {
        Some(Key::COMMA)
    } else if token_eq(t, ".") {
        Some(Key::PERIOD)
    } else if token_eq(t, ";") {
        Some(Key::SEMICOLON)
    } else if token_eq(t, "/") {
        Some(Key::SLASH)
    } else if token_eq(t, "`") {
        Some(Key::OPENQUOTE)
    } else if token_eq(t, "[") {
        Some(Key::OPENBRACKET)
    } else if token_eq(t, "\\") {
        Some(Key::BACKSLASH)
    } else if token_eq(t, "]") {
        Some(Key::CLOSEBRACKET)
    } else {
        None
    }
}

/// Exact key-name lookup, the last resolution step for a token.
pub open spec fn key_from_name_spec(s: Seq<char>) -> Option<Key> {
    if s == "BACKSPACE"@ {
        Some(Key::BACKSPACE)
    } else if s == "TAB"@ {
        Some(Key::TAB)
    } else if s == "ENTER"@ {
        Some(Key::ENTER)
    } else if s == "CAPSLOCK"@ {
        Some(Key::CAPSLOCK)
    } else if s == "ESCAPE"@ {
        Some(Key::ESCAPE)
    } else if s == "SPACE"@ {
        Some(Key::SPACE)
    } else if s == "PAGEUP"@ {
        Some(Key::PAGEUP)
    } else if s == "PAGEDOWN"@ {
        Some(Key::PAGEDOWN)
    } else if s == "END"@ {
        Some(Key::END)
    } else if s == "HOME"@ {
        Some(Key::HOME)
    } else if s == "LEFT"@ {
        Some(Key::LEFT)
    } else if s == "RIGHT"@ {
        Some(Key::RIGHT)
    } else if s == "UP"@ {
        Some(Key::UP)
    } else if s == "DOWN"@ {
        Some(Key::DOWN)
    } else if s == "PRINTSCREEN"@ {
        Some(Key::PRINTSCREEN)
    } else if s == "INSERT"@ {
        Some(Key::INSERT)
    } else if s == "CLEAR"@ {
        Some(Key::CLEAR)
    } else if s == "DELETE"@ {
        Some(Key::DELETE)
    } else if s == "SCROLLLOCK"@ {
        Some(Key::SCROLLLOCK)
    } else if s == "HELP"@ {
        Some(Key::HELP)
    } else if s == "NUMLOCK"@ {
        Some(Key::NUMLOCK)
    } else if s == "VOLUMEMUTE"@ {
        Some(Key::VOLUMEMUTE)
    } else if s == "VOLUMEDOWN"@ {
        Some(Key::VOLUMEDOWN)
    } else if s == "VOLUMEUP"@ {
        Some(Key::VOLUMEUP)
    } else if s == "MEDIANEXTTRACK"@ {
        Some(Key::MEDIANEXTTRACK)
    } else if s == "MEDIAPREVIOUSTRACK"@ {
        Some(Key::MEDIAPREVIOUSTRACK)
    } else if s == "MEDIASTOP"@ {
        Some(Key::MEDIASTOP)
    } else if s == "MEDIAPLAYPAUSE"@ {
        Some(Key::MEDIAPLAYPAUSE)
    } else if s == "LAUNCHMAIL"@ {
        Some(Key::LAUNCHMAIL)
    } else if s == "F1"@ {
        Some(Key::F1)
    } else if s == "F2"@ {
        Some(Key::F2)
    } else if s == "F3"@ {
        Some(Key::F3)
    } else if s == "F4"@ {
        Some(Key::F4)
    } else if s == "F5"@ {
        Some(Key::F5)
    } else if s == "F6"@ {
        Some(Key::F6)
    } else if s == "F7"@ {
        Some(Key::F7)
    } else if s == "F8"@ {
        Some(Key::F8)
    } else if s == "F9"@ {
        Some(Key::F9)
    } else if s == "F10"@ {
        Some(Key::F10)
    } else if s == "F11"@ {
        Some(Key::F11)
    } else if s == "F12"@ {
        Some(Key::F12)
    } else if s == "NUMADD"@ {
        Some(Key::NUMADD)
    } else if s == "NUMSUB"@ {
        Some(Key::NUMSUB)
    } else if s == "NUMMULT"@ {
        Some(Key::NUMMULT)
    } else if s == "NUMDIV"@ {
        Some(Key::NUMDIV)
    } else if s == "NUMDEC"@ {
        Some(Key::NUMDEC)
    } else if s == "KEY_0"@ {
        Some(Key::KEY_0)
    } else if s == "KEY_1"@ {
        Some(Key::KEY_1)
    } else if s == "KEY_2"@ {
        Some(Key::KEY_2)
    } else if s == "KEY_3"@ {
        Some(Key::KEY_3)
    } else if s == "KEY_4"@ {
        Some(Key::KEY_4)
    } else if s == "KEY_5"@ {
        Some(Key::KEY_5)
    } else if s == "KEY_6"@ {
        Some(Key::KEY_6)
    } else if s == "KEY_7"@ {
        Some(Key::KEY_7)
    } else if s == "KEY_8"@ {
        Some(Key::KEY_8)
    } else if s == "KEY_9"@ {
        Some(Key::KEY_9)
    } else if s == "A"@ {
        Some(Key::A)
    } else if s == "B"@ {
        Some(Key::B)
    } else if s == "C"@ {
        Some(Key::C)
    } else if s == "D"@ {
        Some(Key::D)
    } else if s == "E"@ {
        Some(Key::E)
    } else if s == "F"@ {
        Some(Key::F)
    } else if s == "G"@ {
        Some(Key::G)
    } else if s == "H"@ {
        Some(Key::H)
    } else if s == "I"@ {
        Some(Key::I)
    } else if s == "J"@ {
        Some(Key::J)
    } else if s == "K"@ {
        Some(Key::K)
    } else if s == "L"@ {
        Some(Key::L)
    } else if s == "M"@ {
        Some(Key::M)
    } else if s == "N"@ {
        Some(Key::N)
    } else if s == "O"@ {
        Some(Key::O)
    } else if s == "P"@ {
        Some(Key::P)
    } else if s == "Q"@ {
        Some(Key::Q)
    } else if s == "R"@ {
        Some(Key::R)
    } else if s == "S"@ {
        Some(Key::S)
    } else if s == "T"@ {
        Some(Key::T)
    } else if s == "U"@ {
        Some(Key::U)
    } else if s == "V"@ {
        Some(Key::V)
    } else if s == "W"@ {
        Some(Key::W)
    } else if s == "X"@ {
        Some(Key::X)
    } else if s == "Y"@ {
        Some(Key::Y)
    } else if s == "Z"@ {
        Some(Key::Z)
    } else if s == "EQUAL"@ {
        Some(Key::EQUAL)
    } else if s == "MINUS"@ {
        Some(Key::MINUS)
    } else if s == "SINGLEQUOTE"@ {
        Some(Key::SINGLEQUOTE)
    } else if s == "COMMA"@ {
        Some(Key::COMMA)
    } else if s == "PERIOD"@ {
        Some(Key::PERIOD)
    } else if s == "SEMICOLON"@ {
        Some(Key::SEMICOLON)
    } else if s == "SLASH"@ {
        Some(Key::SLASH)
    } else if s == "OPENQUOTE"@ {
        Some(Key::OPENQUOTE)
    } else if s == "OPENBRACKET"@ {
        Some(Key::OPENBRACKET)
    } else if s == "BACKSLASH"@ {
        Some(Key::BACKSLASH)
    } else if s == "CLOSEBRACKET"@ {
        Some(Key::CLOSEBRACKET)
    } else {
        None
    }
}

pub fn key_from_name(t: &[char]) -> (r: Option<Key>)
    ensures
        r == key_from_name_spec(t@),
{
    if token_eq(t, "BACKSPACE") {
        Some(Key::BACKSPACE)
    } else if token_eq(t, "TAB") {
        Some(Key::TAB)
    } else if token_eq(t, "ENTER") {
        Some(Key::ENTER)
    } else if token_eq(t, "CAPSLOCK") {
        Some(Key::CAPSLOCK)
    } else if token_eq(t, "ESCAPE") {
        Some(Key::ESCAPE)
    } else if token_eq(t, "SPACE") {
        Some(Key::SPACE)
    } else if token_eq(t, "PAGEUP") {
        Some(Key::PAGEUP)
    } else if token_eq(t, "PAGEDOWN") {
        Some(Key::PAGEDOWN)
    } else if token_eq(t, "END") {
        Some(Key::END)
    } else if token_eq(t, "HOME") {
        Some(Key::HOME)
    } else if token_eq(t, "LEFT") {
        Some(Key::LEFT)
    } else if token_eq(t, "RIGHT") {
        Some(Key::RIGHT)
    } else if token_eq(t, "UP") {
        Some(Key::UP)
    } else if token_eq(t, "DOWN") {
        Some(Key::DOWN)
    } else if token_eq(t, "PRINTSCREEN") {
        Some(Key::PRINTSCREEN)
    } else if token_eq(t, "INSERT") {
        Some(Key::INSERT)
    } else if token_eq(t, "CLEAR") {
        Some(Key::CLEAR)
    } else if token_eq(t, "DELETE") {
        Some(Key::DELETE)
    } else if token_eq(t, "SCROLLLOCK") {
        Some(Key::SCROLLLOCK)
    } else if token_eq(t, "HELP") {
        Some(Key::HELP)
    } else if token_eq(t, "NUMLOCK") {
        Some(Key::NUMLOCK)
    } else if token_eq(t, "VOLUMEMUTE") {
        Some(Key::VOLUMEMUTE)
    } else if token_eq(t, "VOLUMEDOWN") {
        Some(Key::VOLUMEDOWN)
    } else if token_eq(t, "VOLUMEUP") {
        Some(Key::VOLUMEUP)
    } else if token_eq(t, "MEDIANEXTTRACK") {
        Some(Key::MEDIANEXTTRACK)
    } else if token_eq(t, "MEDIAPREVIOUSTRACK") {
        Some(Key::MEDIAPREVIOUSTRACK)
    } else if token_eq(t, "MEDIASTOP") {
        Some(Key::MEDIASTOP)
    } else if token_eq(t, "MEDIAPLAYPAUSE") {
        Some(Key::MEDIAPLAYPAUSE)
    } else if token_eq(t, "LAUNCHMAIL") {
        Some(Key::LAUNCHMAIL)
    } else if token_eq(t, "F1") {
        Some(Key::F1)
    } else if token_eq(t, "F2") {
        Some(Key::F2)
    } else if token_eq(t, "F3") {
        Some(Key::F3)
    } else if token_eq(t, "F4") {
        Some(Key::F4)
    } else if token_eq(t, "F5") {
        Some(Key::F5)
    } else if token_eq(t, "F6") {
        Some(Key::F6)
    } else if token_eq(t, "F7") {
        Some(Key::F7)
    } else if token_eq(t, "F8") {
        Some(Key::F8)
    } else if token_eq(t, "F9") {
        Some(Key::F9)
    } else if token_eq(t, "F10") {
        Some(Key::F10)
    } else if token_eq(t, "F11") {
        Some(Key::F11)
    } else if token_eq(t, "F12") {
        Some(Key::F12)
    } else if token_eq(t, "NUMADD") {
        Some(Key::NUMADD)
    } else if token_eq(t, "NUMSUB") {
        Some(Key::NUMSUB)
    } else if token_eq(t, "NUMMULT") {
        Some(Key::NUMMULT)
    } else if token_eq(t, "NUMDIV") {
        Some(Key::NUMDIV)
    } else if token_eq(t, "NUMDEC") {
        Some(Key::NUMDEC)
    } else if token_eq(t, "KEY_0") {
        Some(Key::KEY_0)
    } else if token_eq(t, "KEY_1") {
        Some(Key::KEY_1)
    } else if token_eq(t, "KEY_2") {
        Some(Key::KEY_2)
    } else if token_eq(t, "KEY_3") {
        Some(Key::KEY_3)
    } else if token_eq(t, "KEY_4") {
        Some(Key::KEY_4)
    } else if token_eq(t, "KEY_5") {
        Some(Key::KEY_5)
    } else if token_eq(t, "KEY_6") {
        Some(Key::KEY_6)
    } else if token_eq(t, "KEY_7") {
        Some(Key::KEY_7)
    } else if token_eq(t, "KEY_8") {
        Some(Key::KEY_8)
    } else if token_eq(t, "KEY_9") {
        Some(Key::KEY_9)
    } else if token_eq(t, "A") {
        Some(Key::A)
    } else if token_eq(t, "B") {
        Some(Key::B)
    } else if token_eq(t, "C") {
        Some(Key::C)
    } else if token_eq(t, "D") {
        Some(Key::D)
    } else if token_eq(t, "E") {
        Some(Key::E)
    } else if token_eq(t, "F") {
        Some(Key::F)
    } else if token_eq(t, "G") {
        Some(Key::G)
    } else if token_eq(t, "H") {
        Some(Key::H)
    } else if token_eq(t, "I") {
        Some(Key::I)
    } else if token_eq(t, "J") {
        Some(Key::J)
    } else if token_eq(t, "K") {
        Some(Key::K)
    } else if token_eq(t, "L") {
        Some(Key::L)
    } else if token_eq(t, "M") {
        Some(Key::M)
    } else if token_eq(t, "N") {
        Some(Key::N)
    } else if token_eq(t, "O") {
        Some(Key::O)
    } else if token_eq(t, "P") {
        Some(Key::P)
    } else if token_eq(t, "Q") {
        Some(Key::Q)
    } else if token_eq(t, "R") {
        Some(Key::R)
    } else if token_eq(t, "S") {
        Some(Key::S)
    } else if token_eq(t, "T") {
        Some(Key::T)
    } else if token_eq(t, "U") {
        Some(Key::U)
    } else if token_eq(t, "V") {
        Some(Key::V)
    } else if token_eq(t, "W") {
        Some(Key::W)
    } else if token_eq(t, "X") {
        Some(Key::X)
    } else if token_eq(t, "Y") {
        Some(Key::Y)
    } else if token_eq(t, "Z") {
        Some(Key::Z)
    } else if token_eq(t, "EQUAL") {
        Some(Key::EQUAL)
    } else if token_eq(t, "MINUS") {
        Some(Key::MINUS)
    } else if token_eq(t, "SINGLEQUOTE") {
        Some(Key::SINGLEQUOTE)
    } else if token_eq(t, "COMMA") {
        Some(Key::COMMA)
    } else if token_eq(t, "PERIOD") {
        Some(Key::PERIOD)
    } else if token_eq(t, "SEMICOLON") {
        Some(Key::SEMICOLON)
    } else if token_eq(t, "SLASH") {
        Some(Key::SLASH)
    } else if token_eq(t, "OPENQUOTE") {
        Some(Key::OPENQUOTE)
    } else if token_eq(t, "OPENBRACKET") {
        Some(Key::OPENBRACKET)
    } else if token_eq(t, "BACKSLASH") {
        Some(Key::BACKSLASH)
    } else if token_eq(t, "CLOSEBRACKET") {
        Some(Key::CLOSEBRACKET)
    } else {
        None
    }
}

/// A key's canonical name comes back to that key, and to nothing else, when
/// it is run through the parser's token pipeline.
pub open spec fn key_token_ok(k: Key) -> bool {
    &&& k.name_spec().len() > 0
    &&& plain_seq(k.name_spec())
    &&& modifier_token_spec(k.name_spec()) is None
    &&& !is_numeric_token(k.name_spec())
    &&& shifted_symbol_spec(k.name_spec()) is None
    &&& plain_alias_spec(k.name_spec()) is None
    &&& key_from_name_spec(k.name_spec()) == Some(k)
}

/// A modifier's canonical name resolves back to that modifier.
pub open spec fn modifier_token_ok(m: Modifier) -> bool {
    &&& m.name_spec().len() > 0
    &&& plain_seq(m.name_spec())
    &&& modifier_token_spec(m.name_spec()) == Some(m)
}

/// The length and the characters of every token literal, spelled out so
/// that any two tokens can be told apart.
proof fn lemma_lit_facts()
    ensures
        ("COMMAND"@).len() == 7,
        ("COMMAND"@)[0] == 'C',
        ("COMMAND"@)[1] == 'O',
        ("COMMAND"@)[2] == 'M',
        ("COMMAND"@)[3] == 'M',
        ("COMMAND"@)[4] == 'A',
        ("COMMAND"@)[5] == 'N',
        ("COMMAND"@)[6] == 'D',
        ("CMD"@).len() == 3,
        ("CMD"@)[0] == 'C',
        ("CMD"@)[1] == 'M',
        ("CMD"@)[2] == 'D',
        ("CONTROL"@).len() == 7,
        ("CONTROL"@)[0] == 'C',
        ("CONTROL"@)[1] == 'O',
        ("CONTROL"@)[2] == 'N',
        ("CONTROL"@)[3] == 'T',
        ("CONTROL"@)[4] == 'R',
        ("CONTROL"@)[5] == 'O',
        ("CONTROL"@)[6] == 'L',
        ("COMMANDORCONTROL"@).len() == 16,
        ("COMMANDORCONTROL"@)[0] == 'C',
        ("COMMANDORCONTROL"@)[1] == 'O',
        ("COMMANDORCONTROL"@)[2] == 'M',
        ("COMMANDORCONTROL"@)[3] == 'M',
        ("COMMANDORCONTROL"@)[4] == 'A',
        ("COMMANDORCONTROL"@)[5] == 'N',
        ("COMMANDORCONTROL"@)[6] == 'D',
        ("COMMANDORCONTROL"@)[7] == 'O',
        ("COMMANDORCONTROL"@)[8] == 'R',
        ("COMMANDORCONTROL"@)[9] == 'C',
        ("COMMANDORCONTROL"@)[10] == 'O',
        ("COMMANDORCONTROL"@)[11] == 'N',
        ("COMMANDORCONTROL"@)[12] == 'T',
        ("COMMANDORCONTROL"@)[13] == 'R',
        ("COMMANDORCONTROL"@)[14] == 'O',
        ("COMMANDORCONTROL"@)[15] == 'L',
        ("COMMANDORCTRL"@).len() == 13,
        ("COMMANDORCTRL"@)[0] == 'C',
        ("COMMANDORCTRL"@)[1] == 'O',
        ("COMMANDORCTRL"@)[2] == 'M',
        ("COMMANDORCTRL"@)[3] == 'M',
        ("COMMANDORCTRL"@)[4] == 'A',
        ("COMMANDORCTRL"@)[5] == 'N',
        ("COMMANDORCTRL"@)[6] == 'D',
        ("COMMANDORCTRL"@)[7] == 'O',
        ("COMMANDORCTRL"@)[8] == 'R',
        ("COMMANDORCTRL"@)[9] == 'C',
        ("COMMANDORCTRL"@)[10] == 'T',
        ("COMMANDORCTRL"@)[11] == 'R',
        ("COMMANDORCTRL"@)[12] == 'L',
        ("CMDORCTRL"@).len() == 9,
        ("CMDORCTRL"@)[0] == 'C',
        ("CMDORCTRL"@)[1] == 'M',
        ("CMDORCTRL"@)[2] == 'D',
        ("CMDORCTRL"@)[3] == 'O',
        ("CMDORCTRL"@)[4] == 'R',
        ("CMDORCTRL"@)[5] == 'C',
        ("CMDORCTRL"@)[6] == 'T',
        ("CMDORCTRL"@)[7] == 'R',
        ("CMDORCTRL"@)[8] == 'L',
        ("CMDORCONTROL"@).len() == 12,
        ("CMDORCONTROL"@)[0] == 'C',
        ("CMDORCONTROL"@)[1] == 'M',
        ("CMDORCONTROL"@)[2] == 'D',
        ("CMDORCONTROL"@)[3] == 'O',
        ("CMDORCONTROL"@)[4] == 'R',
        ("CMDORCONTROL"@)[5] == 'C',
        ("CMDORCONTROL"@)[6] == 'O',
        ("CMDORCONTROL"@)[7] == 'N',
        ("CMDORCONTROL"@)[8] == 'T',
        ("CMDORCONTROL"@)[9] == 'R',
        ("CMDORCONTROL"@)[10] == 'O',
        ("CMDORCONTROL"@)[11] == 'L',
        ("ALT"@).len() == 3,
        ("ALT"@)[0] == 'A',
        ("ALT"@)[1] == 'L',
        ("ALT"@)[2] == 'T',
        ("ALTGR"@).len() == 5,
        ("ALTGR"@)[0] == 'A',
        ("ALTGR"@)[1] == 'L',
        ("ALTGR"@)[2] == 'T',
        ("ALTGR"@)[3] == 'G',
        ("ALTGR"@)[4] == 'R',
        ("CTRL"@).len() == 4,
        ("CTRL"@)[0] == 'C',
        ("CTRL"@)[1] == 'T',
        ("CTRL"@)[2] == 'R',
        ("CTRL"@)[3] == 'L',
        ("SHIFT"@).len() == 5,
        ("SHIFT"@)[0] == 'S',
        ("SHIFT"@)[1] == 'H',
        ("SHIFT"@)[2] == 'I',
        ("SHIFT"@)[3] == 'F',
        ("SHIFT"@)[4] == 'T',
        ("SUPER"@).len() == 5,
        ("SUPER"@)[0] == 'S',
        ("SUPER"@)[1] == 'U',
        ("SUPER"@)[2] == 'P',
        ("SUPER"@)[3] == 'E',
        ("SUPER"@)[4] == 'R',
        (")"@).len() == 1,
        (")"@)[0] == ')',
        ("!"@).len() == 1,
        ("!"@)[0] == '!',
        ("@"@).len() == 1,
        ("@"@)[0] == '@',
        ("#"@).len() == 1,
        ("#"@)[0] == '#',
        ("$"@).len() == 1,
        ("$"@)[0] == '$',
        ("%"@).len() == 1,
        ("%"@)[0] == '%',
        ("^"@).len() == 1,
        ("^"@)[0] == '^',
        ("&"@).len() == 1,
        ("&"@)[0] == '&',
        ("*"@).len() == 1,
        ("*"@)[0] == '*',
        ("("@).len() == 1,
        ("("@)[0] == '(',
        (":"@).len() == 1,
        (":"@)[0] == ':',
        ("<"@).len() == 1,
        ("<"@)[0] == '<',
        (">"@).len() == 1,
        (">"@)[0] == '>',
        ("_"@).len() == 1,
        ("_"@)[0] == '_',
        ("?"@).len() == 1,
        ("?"@)[0] == '?',
        ("~"@).len() == 1,
        ("~"@)[0] == '~',
        ("{"@).len() == 1,
        ("{"@)[0] == '{',
        ("|"@).len() == 1,
        ("|"@)[0] == '|',
        ("}"@).len() == 1,
        ("}"@)[0] == '}',
        ("+"@).len() == 1,
        ("+"@)[0] == '+',
        ("PLUS"@).len() == 4,
        ("PLUS"@)[0] == 'P',
        ("PLUS"@)[1] == 'L',
        ("PLUS"@)[2] == 'U',
        ("PLUS"@)[3] == 'S',
        ("\""@).len() == 1,
        ("\""@)[0] == '"',
        ("RETURN"@).len() == 6,
        ("RETURN"@)[0] == 'R',
        ("RETURN"@)[1] == 'E',
        ("RETURN"@)[2] == 'T',
        ("RETURN"@)[3] == 'U',
        ("RETURN"@)[4] == 'R',
        ("RETURN"@)[5] == 'N',
        ("="@).len() == 1,
        ("="@)[0] == '=',
        ("-"@).len() == 1,
        ("-"@)[0] == '-',
        ("'"@).len() == 1,
        ("'"@)[0] == '\'',
        (","@).len() == 1,
        (","@)[0] == ',',
        ("."@).len() == 1,
        ("."@)[0] == '.',
        (";"@).len() == 1,
        (";"@)[0] == ';',
        ("/"@).len() == 1,
        ("/"@)[0] == '/',
        ("`"@).len() == 1,
        ("`"@)[0] == '`',
        ("["@).len() == 1,
        ("["@)[0] == '[',
        ("\\"@).len() == 1,
        ("\\"@)[0] == '\\',
        ("]"@).len() == 1,
        ("]"@)[0] == ']',
        ("BACKSPACE"@).len() == 9,
        ("BACKSPACE"@)[0] == 'B',
        ("BACKSPACE"@)[1] == 'A',
        ("BACKSPACE"@)[2] == 'C',
        ("BACKSPACE"@)[3] == 'K',
        ("BACKSPACE"@)[4] == 'S',
        ("BACKSPACE"@)[5] == 'P',
        ("BACKSPACE"@)[6] == 'A',
        ("BACKSPACE"@)[7] == 'C',
        ("BACKSPACE"@)[8] == 'E',
        ("TAB"@).len() == 3,
        ("TAB"@)[0] == 'T',
        ("TAB"@)[1] == 'A',
        ("TAB"@)[2] == 'B',
        ("ENTER"@).len() == 5,
        ("ENTER"@)[0] == 'E',
        ("ENTER"@)[1] == 'N',
        ("ENTER"@)[2] == 'T',
        ("ENTER"@)[3] == 'E',
        ("ENTER"@)[4] == 'R',
        ("CAPSLOCK"@).len() == 8,
        ("CAPSLOCK"@)[0] == 'C',
        ("CAPSLOCK"@)[1] == 'A',
        ("CAPSLOCK"@)[2] == 'P',
        ("CAPSLOCK"@)[3] == 'S',
        ("CAPSLOCK"@)[4] == 'L',
        ("CAPSLOCK"@)[5] == 'O',
        ("CAPSLOCK"@)[6] == 'C',
        ("CAPSLOCK"@)[7] == 'K',
        ("ESCAPE"@).len() == 6,
        ("ESCAPE"@)[0] == 'E',
        ("ESCAPE"@)[1] == 'S',
        ("ESCAPE"@)[2] == 'C',
        ("ESCAPE"@)[3] == 'A',
        ("ESCAPE"@)[4] == 'P',
        ("ESCAPE"@)[5] == 'E',
        ("SPACE"@).len() == 5,
        ("SPACE"@)[0] == 'S',
        ("SPACE"@)[1] == 'P',
        ("SPACE"@)[2] == 'A',
        ("SPACE"@)[3] == 'C',
        ("SPACE"@)[4] == 'E',
        ("PAGEUP"@).len() == 6,
        ("PAGEUP"@)[0] == 'P',
        ("PAGEUP"@)[1] == 'A',
        ("PAGEUP"@)[2] == 'G',
        ("PAGEUP"@)[3] == 'E',
        ("PAGEUP"@)[4] == 'U',
        ("PAGEUP"@)[5] == 'P',
        ("PAGEDOWN"@).len() == 8,
        ("PAGEDOWN"@)[0] == 'P',
        ("PAGEDOWN"@)[1] == 'A',
        ("PAGEDOWN"@)[2] == 'G',
        ("PAGEDOWN"@)[3] == 'E',
        ("PAGEDOWN"@)[4] == 'D',
        ("PAGEDOWN"@)[5] == 'O',
        ("PAGEDOWN"@)[6] == 'W',
        ("PAGEDOWN"@)[7] == 'N',
        ("END"@).len() == 3,
        ("END"@)[0] == 'E',
        ("END"@)[1] == 'N',
        ("END"@)[2] == 'D',
        ("HOME"@).len() == 4,
        ("HOME"@)[0] == 'H',
        ("HOME"@)[1] == 'O',
        ("HOME"@)[2] == 'M',
        ("HOME"@)[3] == 'E',
        ("LEFT"@).len() == 4,
        ("LEFT"@)[0] == 'L',
        ("LEFT"@)[1] == 'E',
        ("LEFT"@)[2] == 'F',
        ("LEFT"@)[3] == 'T',
        ("RIGHT"@).len() == 5,
        ("RIGHT"@)[0] == 'R',
        ("RIGHT"@)[1] == 'I',
        ("RIGHT"@)[2] == 'G',
        ("RIGHT"@)[3] == 'H',
        ("RIGHT"@)[4] == 'T',
        ("UP"@).len() == 2,
        ("UP"@)[0] == 'U',
        ("UP"@)[1] == 'P',
        ("DOWN"@).len() == 4,
        ("DOWN"@)[0] == 'D',
        ("DOWN"@)[1] == 'O',
        ("DOWN"@)[2] == 'W',
        ("DOWN"@)[3] == 'N',
        ("PRINTSCREEN"@).len() == 11,
        ("PRINTSCREEN"@)[0] == 'P',
        ("PRINTSCREEN"@)[1] == 'R',
        ("PRINTSCREEN"@)[2] == 'I',
        ("PRINTSCREEN"@)[3] == 'N',
        ("PRINTSCREEN"@)[4] == 'T',
        ("PRINTSCREEN"@)[5] == 'S',
        ("PRINTSCREEN"@)[6] == 'C',
        ("PRINTSCREEN"@)[7] == 'R',
        ("PRINTSCREEN"@)[8] == 'E',
        ("PRINTSCREEN"@)[9] == 'E',
        ("PRINTSCREEN"@)[10] == 'N',
        ("INSERT"@).len() == 6,
        ("INSERT"@)[0] == 'I',
        ("INSERT"@)[1] == 'N',
        ("INSERT"@)[2] == 'S',
        ("INSERT"@)[3] == 'E',
        ("INSERT"@)[4] == 'R',
        ("INSERT"@)[5] == 'T',
        ("CLEAR"@).len() == 5,
        ("CLEAR"@)[0] == 'C',
        ("CLEAR"@)[1] == 'L',
        ("CLEAR"@)[2] == 'E',
        ("CLEAR"@)[3] == 'A',
        ("CLEAR"@)[4] == 'R',
        ("DELETE"@).len() == 6,
        ("DELETE"@)[0] == 'D',
        ("DELETE"@)[1] == 'E',
        ("DELETE"@)[2] == 'L',
        ("DELETE"@)[3] == 'E',
        ("DELETE"@)[4] == 'T',
        ("DELETE"@)[5] == 'E',
        ("SCROLLLOCK"@).len() == 10,
        ("SCROLLLOCK"@)[0] == 'S',
        ("SCROLLLOCK"@)[1] == 'C',
        ("SCROLLLOCK"@)[2] == 'R',
        ("SCROLLLOCK"@)[3] == 'O',
        ("SCROLLLOCK"@)[4] == 'L',
        ("SCROLLLOCK"@)[5] == 'L',
        ("SCROLLLOCK"@)[6] == 'L',
        ("SCROLLLOCK"@)[7] == 'O',
        ("SCROLLLOCK"@)[8] == 'C',
        ("SCROLLLOCK"@)[9] == 'K',
        ("HELP"@).len() == 4,
        ("HELP"@)[0] == 'H',
        ("HELP"@)[1] == 'E',
        ("HELP"@)[2] == 'L',
        ("HELP"@)[3] == 'P',
        ("NUMLOCK"@).len() == 7,
        ("NUMLOCK"@)[0] == 'N',
        ("NUMLOCK"@)[1] == 'U',
        ("NUMLOCK"@)[2] == 'M',
        ("NUMLOCK"@)[3] == 'L',
        ("NUMLOCK"@)[4] == 'O',
        ("NUMLOCK"@)[5] == 'C',
        ("NUMLOCK"@)[6] == 'K',
        ("VOLUMEMUTE"@).len() == 10,
        ("VOLUMEMUTE"@)[0] == 'V',
        ("VOLUMEMUTE"@)[1] == 'O',
        ("VOLUMEMUTE"@)[2] == 'L',
        ("VOLUMEMUTE"@)[3] == 'U',
        ("VOLUMEMUTE"@)[4] == 'M',
        ("VOLUMEMUTE"@)[5] == 'E',
        ("VOLUMEMUTE"@)[6] == 'M',
        ("VOLUMEMUTE"@)[7] == 'U',
        ("VOLUMEMUTE"@)[8] == 'T',
        ("VOLUMEMUTE"@)[9] == 'E',
        ("VOLUMEDOWN"@).len() == 10,
        ("VOLUMEDOWN"@)[0] == 'V',
        ("VOLUMEDOWN"@)[1] == 'O',
        ("VOLUMEDOWN"@)[2] == 'L',
        ("VOLUMEDOWN"@)[3] == 'U',
        ("VOLUMEDOWN"@)[4] == 'M',
        ("VOLUMEDOWN"@)[5] == 'E',
        ("VOLUMEDOWN"@)[6] == 'D',
        ("VOLUMEDOWN"@)[7] == 'O',
        ("VOLUMEDOWN"@)[8] == 'W',
        ("VOLUMEDOWN"@)[9] == 'N',
        ("VOLUMEUP"@).len() == 8,
        ("VOLUMEUP"@)[0] == 'V',
        ("VOLUMEUP"@)[1] == 'O',
        ("VOLUMEUP"@)[2] == 'L',
        ("VOLUMEUP"@)[3] == 'U',
        ("VOLUMEUP"@)[4] == 'M',
        ("VOLUMEUP"@)[5] == 'E',
        ("VOLUMEUP"@)[6] == 'U',
        ("VOLUMEUP"@)[7] == 'P',
        ("MEDIANEXTTRACK"@).len() == 14,
        ("MEDIANEXTTRACK"@)[0] == 'M',
        ("MEDIANEXTTRACK"@)[1] == 'E',
        ("MEDIANEXTTRACK"@)[2] == 'D',
        ("MEDIANEXTTRACK"@)[3] == 'I',
        ("MEDIANEXTTRACK"@)[4] == 'A',
        ("MEDIANEXTTRACK"@)[5] == 'N',
        ("MEDIANEXTTRACK"@)[6] == 'E',
        ("MEDIANEXTTRACK"@)[7] == 'X',
        ("MEDIANEXTTRACK"@)[8] == 'T',
        ("MEDIANEXTTRACK"@)[9] == 'T',
        ("MEDIANEXTTRACK"@)[10] == 'R',
        ("MEDIANEXTTRACK"@)[11] == 'A',
        ("MEDIANEXTTRACK"@)[12] == 'C',
        ("MEDIANEXTTRACK"@)[13] == 'K',
        ("MEDIAPREVIOUSTRACK"@).len() == 18,
        ("MEDIAPREVIOUSTRACK"@)[0] == 'M',
        ("MEDIAPREVIOUSTRACK"@)[1] == 'E',
        ("MEDIAPREVIOUSTRACK"@)[2] == 'D',
        ("MEDIAPREVIOUSTRACK"@)[3] == 'I',
        ("MEDIAPREVIOUSTRACK"@)[4] == 'A',
        ("MEDIAPREVIOUSTRACK"@)[5] == 'P',
        ("MEDIAPREVIOUSTRACK"@)[6] == 'R',
        ("MEDIAPREVIOUSTRACK"@)[7] == 'E',
        ("MEDIAPREVIOUSTRACK"@)[8] == 'V',
        ("MEDIAPREVIOUSTRACK"@)[9] == 'I',
        ("MEDIAPREVIOUSTRACK"@)[10] == 'O',
        ("MEDIAPREVIOUSTRACK"@)[11] == 'U',
        ("MEDIAPREVIOUSTRACK"@)[12] == 'S',
        ("MEDIAPREVIOUSTRACK"@)[13] == 'T',
        ("MEDIAPREVIOUSTRACK"@)[14] == 'R',
        ("MEDIAPREVIOUSTRACK"@)[15] == 'A',
        ("MEDIAPREVIOUSTRACK"@)[16] == 'C',
        ("MEDIAPREVIOUSTRACK"@)[17] == 'K',
        ("MEDIASTOP"@).len() == 9,
        ("MEDIASTOP"@)[0] == 'M',
        ("MEDIASTOP"@)[1] == 'E',
        ("MEDIASTOP"@)[2] == 'D',
        ("MEDIASTOP"@)[3] == 'I',
        ("MEDIASTOP"@)[4] == 'A',
        ("MEDIASTOP"@)[5] == 'S',
        ("MEDIASTOP"@)[6] == 'T',
        ("MEDIASTOP"@)[7] == 'O',
        ("MEDIASTOP"@)[8] == 'P',
        ("MEDIAPLAYPAUSE"@).len() == 14,
        ("MEDIAPLAYPAUSE"@)[0] == 'M',
        ("MEDIAPLAYPAUSE"@)[1] == 'E',
        ("MEDIAPLAYPAUSE"@)[2] == 'D',
        ("MEDIAPLAYPAUSE"@)[3] == 'I',
        ("MEDIAPLAYPAUSE"@)[4] == 'A',
        ("MEDIAPLAYPAUSE"@)[5] == 'P',
        ("MEDIAPLAYPAUSE"@)[6] == 'L',
        ("MEDIAPLAYPAUSE"@)[7] == 'A',
        ("MEDIAPLAYPAUSE"@)[8] == 'Y',
        ("MEDIAPLAYPAUSE"@)[9] == 'P',
        ("MEDIAPLAYPAUSE"@)[10] == 'A',
        ("MEDIAPLAYPAUSE"@)[11] == 'U',
        ("MEDIAPLAYPAUSE"@)[12] == 'S',
        ("MEDIAPLAYPAUSE"@)[13] == 'E',
        ("LAUNCHMAIL"@).len() == 10,
        ("LAUNCHMAIL"@)[0] == 'L',
        ("LAUNCHMAIL"@)[1] == 'A',
        ("LAUNCHMAIL"@)[2] == 'U',
        ("LAUNCHMAIL"@)[3] == 'N',
        ("LAUNCHMAIL"@)[4] == 'C',
        ("LAUNCHMAIL"@)[5] == 'H',
        ("LAUNCHMAIL"@)[6] == 'M',
        ("LAUNCHMAIL"@)[7] == 'A',
        ("LAUNCHMAIL"@)[8] == 'I',
        ("LAUNCHMAIL"@)[9] == 'L',
        ("F1"@).len() == 2,
        ("F1"@)[0] == 'F',
        ("F1"@)[1] == '1',
        ("F2"@).len() == 2,
        ("F2"@)[0] == 'F',
        ("F2"@)[1] == '2',
        ("F3"@).len() == 2,
        ("F3"@)[0] == 'F',
        ("F3"@)[1] == '3',
        ("F4"@).len() == 2,
        ("F4"@)[0] == 'F',
        ("F4"@)[1] == '4',
        ("F5"@).len() == 2,
        ("F5"@)[0] == 'F',
        ("F5"@)[1] == '5',
        ("F6"@).len() == 2,
        ("F6"@)[0] == 'F',
        ("F6"@)[1] == '6',
        ("F7"@).len() == 2,
        ("F7"@)[0] == 'F',
        ("F7"@)[1] == '7',
        ("F8"@).len() == 2,
        ("F8"@)[0] == 'F',
        ("F8"@)[1] == '8',
        ("F9"@).len() == 2,
        ("F9"@)[0] == 'F',
        ("F9"@)[1] == '9',
        ("F10"@).len() == 3,
        ("F10"@)[0] == 'F',
        ("F10"@)[1] == '1',
        ("F10"@)[2] == '0',
        ("F11"@).len() == 3,
        ("F11"@)[0] == 'F',
        ("F11"@)[1] == '1',
        ("F11"@)[2] == '1',
        ("F12"@).len() == 3,
        ("F12"@)[0] == 'F',
        ("F12"@)[1] == '1',
        ("F12"@)[2] == '2',
        ("NUMADD"@).len() == 6,
        ("NUMADD"@)[0] == 'N',
        ("NUMADD"@)[1] == 'U',
        ("NUMADD"@)[2] == 'M',
        ("NUMADD"@)[3] == 'A',
        ("NUMADD"@)[4] == 'D',
        ("NUMADD"@)[5] == 'D',
        ("NUMSUB"@).len() == 6,
        ("NUMSUB"@)[0] == 'N',
        ("NUMSUB"@)[1] == 'U',
        ("NUMSUB"@)[2] == 'M',
        ("NUMSUB"@)[3] == 'S',
        ("NUMSUB"@)[4] == 'U',
        ("NUMSUB"@)[5] == 'B',
        ("NUMMULT"@).len() == 7,
        ("NUMMULT"@)[0] == 'N',
        ("NUMMULT"@)[1] == 'U',
        ("NUMMULT"@)[2] == 'M',
        ("NUMMULT"@)[3] == 'M',
        ("NUMMULT"@)[4] == 'U',
        ("NUMMULT"@)[5] == 'L',
        ("NUMMULT"@)[6] == 'T',
        ("NUMDIV"@).len() == 6,
        ("NUMDIV"@)[0] == 'N',
        ("NUMDIV"@)[1] == 'U',
        ("NUMDIV"@)[2] == 'M',
        ("NUMDIV"@)[3] == 'D',
        ("NUMDIV"@)[4] == 'I',
        ("NUMDIV"@)[5] == 'V',
        ("NUMDEC"@).len() == 6,
        ("NUMDEC"@)[0] == 'N',
        ("NUMDEC"@)[1] == 'U',
        ("NUMDEC"@)[2] == 'M',
        ("NUMDEC"@)[3] == 'D',
        ("NUMDEC"@)[4] == 'E',
        ("NUMDEC"@)[5] == 'C',
        ("KEY_0"@).len() == 5,
        ("KEY_0"@)[0] == 'K',
        ("KEY_0"@)[1] == 'E',
        ("KEY_0"@)[2] == 'Y',
        ("KEY_0"@)[3] == '_',
        ("KEY_0"@)[4] == '0',
        ("KEY_1"@).len() == 5,
        ("KEY_1"@)[0] == 'K',
        ("KEY_1"@)[1] == 'E',
        ("KEY_1"@)[2] == 'Y',
        ("KEY_1"@)[3] == '_',
        ("KEY_1"@)[4] == '1',
        ("KEY_2"@).len() == 5,
        ("KEY_2"@)[0] == 'K',
        ("KEY_2"@)[1] == 'E',
        ("KEY_2"@)[2] == 'Y',
        ("KEY_2"@)[3] == '_',
        ("KEY_2"@)[4] == '2',
        ("KEY_3"@).len() == 5,
        ("KEY_3"@)[0] == 'K',
        ("KEY_3"@)[1] == 'E',
        ("KEY_3"@)[2] == 'Y',
        ("KEY_3"@)[3] == '_',
        ("KEY_3"@)[4] == '3',
        ("KEY_4"@).len() == 5,
        ("KEY_4"@)[0] == 'K',
        ("KEY_4"@)[1] == 'E',
        ("KEY_4"@)[2] == 'Y',
        ("KEY_4"@)[3] == '_',
        ("KEY_4"@)[4] == '4',
        ("KEY_5"@).len() == 5,
        ("KEY_5"@)[0] == 'K',
        ("KEY_5"@)[1] == 'E',
        ("KEY_5"@)[2] == 'Y',
        ("KEY_5"@)[3] == '_',
        ("KEY_5"@)[4] == '5',
        ("KEY_6"@).len() == 5,
        ("KEY_6"@)[0] == 'K',
        ("KEY_6"@)[1] == 'E',
        ("KEY_6"@)[2] == 'Y',
        ("KEY_6"@)[3] == '_',
        ("KEY_6"@)[4] == '6',
        ("KEY_7"@).len() == 5,
        ("KEY_7"@)[0] == 'K',
        ("KEY_7"@)[1] == 'E',
        ("KEY_7"@)[2] == 'Y',
        ("KEY_7"@)[3] == '_',
        ("KEY_7"@)[4] == '7',
        ("KEY_8"@).len() == 5,
        ("KEY_8"@)[0] == 'K',
        ("KEY_8"@)[1] == 'E',
        ("KEY_8"@)[2] == 'Y',
        ("KEY_8"@)[3] == '_',
        ("KEY_8"@)[4] == '8',
        ("KEY_9"@).len() == 5,
        ("KEY_9"@)[0] == 'K',
        ("KEY_9"@)[1] == 'E',
        ("KEY_9"@)[2] == 'Y',
        ("KEY_9"@)[3] == '_',
        ("KEY_9"@)[4] == '9',
        ("A"@).len() == 1,
        ("A"@)[0] == 'A',
        ("B"@).len() == 1,
        ("B"@)[0] == 'B',
        ("C"@).len() == 1,
        ("C"@)[0] == 'C',
        ("D"@).len() == 1,
        ("D"@)[0] == 'D',
        ("E"@).len() == 1,
        ("E"@)[0] == 'E',
        ("F"@).len() == 1,
        ("F"@)[0] == 'F',
        ("G"@).len() == 1,
        ("G"@)[0] == 'G',
        ("H"@).len() == 1,
        ("H"@)[0] == 'H',
        ("I"@).len() == 1,
        ("I"@)[0] == 'I',
        ("J"@).len() == 1,
        ("J"@)[0] == 'J',
        ("K"@).len() == 1,
        ("K"@)[0] == 'K',
        ("L"@).len() == 1,
        ("L"@)[0] == 'L',
        ("M"@).len() == 1,
        ("M"@)[0] == 'M',
        ("N"@).len() == 1,
        ("N"@)[0] == 'N',
        ("O"@).len() == 1,
        ("O"@)[0] == 'O',
        ("P"@).len() == 1,
        ("P"@)[0] == 'P',
        ("Q"@).len() == 1,
        ("Q"@)[0] == 'Q',
        ("R"@).len() == 1,
        ("R"@)[0] == 'R',
        ("S"@).len() == 1,
        ("S"@)[0] == 'S',
        ("T"@).len() == 1,
        ("T"@)[0] == 'T',
        ("U"@).len() == 1,
        ("U"@)[0] == 'U',
        ("V"@).len() == 1,
        ("V"@)[0] == 'V',
        ("W"@).len() == 1,
        ("W"@)[0] == 'W',
        ("X"@).len() == 1,
        ("X"@)[0] == 'X',
        ("Y"@).len() == 1,
        ("Y"@)[0] == 'Y',
        ("Z"@).len() == 1,
        ("Z"@)[0] == 'Z',
        ("EQUAL"@).len() == 5,
        ("EQUAL"@)[0] == 'E',
        ("EQUAL"@)[1] == 'Q',
        ("EQUAL"@)[2] == 'U',
        ("EQUAL"@)[3] == 'A',
        ("EQUAL"@)[4] == 'L',
        ("MINUS"@).len() == 5,
        ("MINUS"@)[0] == 'M',
        ("MINUS"@)[1] == 'I',
        ("MINUS"@)[2] == 'N',
        ("MINUS"@)[3] == 'U',
        ("MINUS"@)[4] == 'S',
        ("SINGLEQUOTE"@).len() == 11,
        ("SINGLEQUOTE"@)[0] == 'S',
        ("SINGLEQUOTE"@)[1] == 'I',
        ("SINGLEQUOTE"@)[2] == 'N',
        ("SINGLEQUOTE"@)[3] == 'G',
        ("SINGLEQUOTE"@)[4] == 'L',
        ("SINGLEQUOTE"@)[5] == 'E',
        ("SINGLEQUOTE"@)[6] == 'Q',
        ("SINGLEQUOTE"@)[7] == 'U',
        ("SINGLEQUOTE"@)[8] == 'O',
        ("SINGLEQUOTE"@)[9] == 'T',
        ("SINGLEQUOTE"@)[10] == 'E',
        ("COMMA"@).len() == 5,
        ("COMMA"@)[0] == 'C',
        ("COMMA"@)[1] == 'O',
        ("COMMA"@)[2] == 'M',
        ("COMMA"@)[3] == 'M',
        ("COMMA"@)[4] == 'A',
        ("PERIOD"@).len() == 6,
        ("PERIOD"@)[0] == 'P',
        ("PERIOD"@)[1] == 'E',
        ("PERIOD"@)[2] == 'R',
        ("PERIOD"@)[3] == 'I',
        ("PERIOD"@)[4] == 'O',
        ("PERIOD"@)[5] == 'D',
        ("SEMICOLON"@).len() == 9,
        ("SEMICOLON"@)[0] == 'S',
        ("SEMICOLON"@)[1] == 'E',
        ("SEMICOLON"@)[2] == 'M',
        ("SEMICOLON"@)[3] == 'I',
        ("SEMICOLON"@)[4] == 'C',
        ("SEMICOLON"@)[5] == 'O',
        ("SEMICOLON"@)[6] == 'L',
        ("SEMICOLON"@)[7] == 'O',
        ("SEMICOLON"@)[8] == 'N',
        ("SLASH"@).len() == 5,
        ("SLASH"@)[0] == 'S',
        ("SLASH"@)[1] == 'L',
        ("SLASH"@)[2] == 'A',
        ("SLASH"@)[3] == 'S',
        ("SLASH"@)[4] == 'H',
        ("OPENQUOTE"@).len() == 9,
        ("OPENQUOTE"@)[0] == 'O',
        ("OPENQUOTE"@)[1] == 'P',
        ("OPENQUOTE"@)[2] == 'E',
        ("OPENQUOTE"@)[3] == 'N',
        ("OPENQUOTE"@)[4] == 'Q',
        ("OPENQUOTE"@)[5] == 'U',
        ("OPENQUOTE"@)[6] == 'O',
        ("OPENQUOTE"@)[7] == 'T',
        ("OPENQUOTE"@)[8] == 'E',
        ("OPENBRACKET"@).len() == 11,
        ("OPENBRACKET"@)[0] == 'O',
        ("OPENBRACKET"@)[1] == 'P',
        ("OPENBRACKET"@)[2] == 'E',
        ("OPENBRACKET"@)[3] == 'N',
        ("OPENBRACKET"@)[4] == 'B',
        ("OPENBRACKET"@)[5] == 'R',
        ("OPENBRACKET"@)[6] == 'A',
        ("OPENBRACKET"@)[7] == 'C',
        ("OPENBRACKET"@)[8] == 'K',
        ("OPENBRACKET"@)[9] == 'E',
        ("OPENBRACKET"@)[10] == 'T',
        ("BACKSLASH"@).len() == 9,
        ("BACKSLASH"@)[0] == 'B',
        ("BACKSLASH"@)[1] == 'A',
        ("BACKSLASH"@)[2] == 'C',
        ("BACKSLASH"@)[3] == 'K',
        ("BACKSLASH"@)[4] == 'S',
        ("BACKSLASH"@)[5] == 'L',
        ("BACKSLASH"@)[6] == 'A',
        ("BACKSLASH"@)[7] == 'S',
        ("BACKSLASH"@)[8] == 'H',
        ("CLOSEBRACKET"@).len() == 12,
        ("CLOSEBRACKET"@)[0] == 'C',
        ("CLOSEBRACKET"@)[1] == 'L',
        ("CLOSEBRACKET"@)[2] == 'O',
        ("CLOSEBRACKET"@)[3] == 'S',
        ("CLOSEBRACKET"@)[4] == 'E',
        ("CLOSEBRACKET"@)[5] == 'B',
        ("CLOSEBRACKET"@)[6] == 'R',
        ("CLOSEBRACKET"@)[7] == 'A',
        ("CLOSEBRACKET"@)[8] == 'C',
        ("CLOSEBRACKET"@)[9] == 'K',
        ("CLOSEBRACKET"@)[10] == 'E',
        ("CLOSEBRACKET"@)[11] == 'T',
{
    reveal_strlit("COMMAND");
    reveal_strlit("CMD");
    reveal_strlit("CONTROL");
    reveal_strlit("COMMANDORCONTROL");
    reveal_strlit("COMMANDORCTRL");
    reveal_strlit("CMDORCTRL");
    reveal_strlit("CMDORCONTROL");
    reveal_strlit("ALT");
    reveal_strlit("ALTGR");
    reveal_strlit("CTRL");
    reveal_strlit("SHIFT");
    reveal_strlit("SUPER");
    reveal_strlit(")");
    reveal_strlit("!");
    reveal_strlit("@");
    reveal_strlit("#");
    reveal_strlit("$");
    reveal_strlit("%");
    reveal_strlit("^");
    reveal_strlit("&");
    reveal_strlit("*");
    reveal_strlit("(");
    reveal_strlit(":");
    reveal_strlit("<");
    reveal_strlit(">");
    reveal_strlit("_");
    reveal_strlit("?");
    reveal_strlit("~");
    reveal_strlit("{");
    reveal_strlit("|");
    reveal_strlit("}");
    reveal_strlit("+");
    reveal_strlit("PLUS");
    reveal_strlit("\"");
    reveal_strlit("RETURN");
    reveal_strlit("=");
    reveal_strlit("-");
    reveal_strlit("'");
    reveal_strlit(",");
    reveal_strlit(".");
    reveal_strlit(";");
    reveal_strlit("/");
    reveal_strlit("`");
    reveal_strlit("[");
    reveal_strlit("\\");
    reveal_strlit("]");
    reveal_strlit("BACKSPACE");
    reveal_strlit("TAB");
    reveal_strlit("ENTER");
    reveal_strlit("CAPSLOCK");
    reveal_strlit("ESCAPE");
    reveal_strlit("SPACE");
    reveal_strlit("PAGEUP");
    reveal_strlit("PAGEDOWN");
    reveal_strlit("END");
    reveal_strlit("HOME");
    reveal_strlit("LEFT");
    reveal_strlit("RIGHT");
    reveal_strlit("UP");
    reveal_strlit("DOWN");
    reveal_strlit("PRINTSCREEN");
    reveal_strlit("INSERT");
    reveal_strlit("CLEAR");
    reveal_strlit("DELETE");
    reveal_strlit("SCROLLLOCK");
    reveal_strlit("HELP");
    reveal_strlit("NUMLOCK");
    reveal_strlit("VOLUMEMUTE");
    reveal_strlit("VOLUMEDOWN");
    reveal_strlit("VOLUMEUP");
    reveal_strlit("MEDIANEXTTRACK");
    reveal_strlit("MEDIAPREVIOUSTRACK");
    reveal_strlit("MEDIASTOP");
    reveal_strlit("MEDIAPLAYPAUSE");
    reveal_strlit("LAUNCHMAIL");
    reveal_strlit("F1");
    reveal_strlit("F2");
    reveal_strlit("F3");
    reveal_strlit("F4");
    reveal_strlit("F5");
    reveal_strlit("F6");
    reveal_strlit("F7");
    reveal_strlit("F8");
    reveal_strlit("F9");
    reveal_strlit("F10");
    reveal_strlit("F11");
    reveal_strlit("F12");
    reveal_strlit("NUMADD");
    reveal_strlit("NUMSUB");
    reveal_strlit("NUMMULT");
    reveal_strlit("NUMDIV");
    reveal_strlit("NUMDEC");
    reveal_strlit("KEY_0");
    reveal_strlit("KEY_1");
    reveal_strlit("KEY_2");
    reveal_strlit("KEY_3");
    reveal_strlit("KEY_4");
    reveal_strlit("KEY_5");
    reveal_strlit("KEY_6");
    reveal_strlit("KEY_7");
    reveal_strlit("KEY_8");
    reveal_strlit("KEY_9");
    reveal_strlit("A");
    reveal_strlit("B");
    reveal_strlit("C");
    reveal_strlit("D");
    reveal_strlit("E");
    reveal_strlit("F");
    reveal_strlit("G");
    reveal_strlit("H");
    reveal_strlit("I");
    reveal_strlit("J");
    reveal_strlit("K");
    reveal_strlit("L");
    reveal_strlit("M");
    reveal_strlit("N");
    reveal_strlit("O");
    reveal_strlit("P");
    reveal_strlit("Q");
    reveal_strlit("R");
    reveal_strlit("S");
    reveal_strlit("T");
    reveal_strlit("U");
    reveal_strlit("V");
    reveal_strlit("W");
    reveal_strlit("X");
    reveal_strlit("Y");
    reveal_strlit("Z");
    reveal_strlit("EQUAL");
    reveal_strlit("MINUS");
    reveal_strlit("SINGLEQUOTE");
    reveal_strlit("COMMA");
    reveal_strlit("PERIOD");
    reveal_strlit("SEMICOLON");
    reveal_strlit("SLASH");
    reveal_strlit("OPENQUOTE");
    reveal_strlit("OPENBRACKET");
    reveal_strlit("BACKSLASH");
    reveal_strlit("CLOSEBRACKET");
}

proof fn lemma_key_tokens_ok_0()
    ensures
        key_token_ok(Key::BACKSPACE),
        key_token_ok(Key::TAB),
        key_token_ok(Key::ENTER),
        key_token_ok(Key::CAPSLOCK),
        key_token_ok(Key::ESCAPE),
        key_token_ok(Key::SPACE),
        key_token_ok(Key::PAGEUP),
        key_token_ok(Key::PAGEDOWN),
{
    lemma_lit_facts();
    reveal_with_fuel(plain_seq, 20);
    reveal_with_fuel(all_digits, 2);
}

proof fn lemma_key_tokens_ok_1()
    ensures
        key_token_ok(Key::END),
        key_token_ok(Key::HOME),
        key_token_ok(Key::LEFT),
        key_token_ok(Key::RIGHT),
        key_token_ok(Key::UP),
        key_token_ok(Key::DOWN),
        key_token_ok(Key::PRINTSCREEN),
        key_token_ok(Key::INSERT),
{
    lemma_lit_facts();
    reveal_with_fuel(plain_seq, 20);
    reveal_with_fuel(all_digits, 2);
}

proof fn lemma_key_tokens_ok_2()
    ensures
        key_token_ok(Key::CLEAR),
        key_token_ok(Key::DELETE),
        key_token_ok(Key::SCROLLLOCK),
        key_token_ok(Key::HELP),
        key_token_ok(Key::NUMLOCK),
        key_token_ok(Key::VOLUMEMUTE),
        key_token_ok(Key::VOLUMEDOWN),
        key_token_ok(Key::VOLUMEUP),
{
    lemma_lit_facts();
    reveal_with_fuel(plain_seq, 20);
    reveal_with_fuel(all_digits, 2);
}

proof fn lemma_key_tokens_ok_3()
    ensures
        key_token_ok(Key::MEDIANEXTTRACK),
        key_token_ok(Key::MEDIAPREVIOUSTRACK),
        key_token_ok(Key::MEDIASTOP),
        key_token_ok(Key::MEDIAPLAYPAUSE),
        key_token_ok(Key::LAUNCHMAIL),
        key_token_ok(Key::F1),
        key_token_ok(Key::F2),
        key_token_ok(Key::F3),
{
    lemma_lit_facts();
    reveal_with_fuel(plain_seq, 20);
    reveal_with_fuel(all_digits, 2);
}

proof fn lemma_key_tokens_ok_4()
    ensures
        key_token_ok(Key::F4),
        key_token_ok(Key::F5),
        key_token_ok(Key::F6),
        key_token_ok(Key::F7),
        key_token_ok(Key::F8),
        key_token_ok(Key::F9),
        key_token_ok(Key::F10),
        key_token_ok(Key::F11),
{
    lemma_lit_facts();
    reveal_with_fuel(plain_seq, 20);
    reveal_with_fuel(all_digits, 2);
}

proof fn lemma_key_tokens_ok_5()
    ensures
        key_token_ok(Key::F12),
        key_token_ok(Key::NUMADD),
        key_token_ok(Key::NUMSUB),
        key_token_ok(Key::NUMMULT),
        key_token_ok(Key::NUMDIV),
        key_token_ok(Key::NUMDEC),
        key_token_ok(Key::KEY_0),
        key_token_ok(Key::KEY_1),
{
    lemma_lit_facts();
    reveal_with_fuel(plain_seq, 20);
    reveal_with_fuel(all_digits, 2);
}

proof fn lemma_key_tokens_ok_6()
    ensures
        key_token_ok(Key::KEY_2),
        key_token_ok(Key::KEY_3),
        key_token_ok(Key::KEY_4),
        key_token_ok(Key::KEY_5),
        key_token_ok(Key::KEY_6),
        key_token_ok(Key::KEY_7),
        key_token_ok(Key::KEY_8),
        key_token_ok(Key::KEY_9),
{
    lemma_lit_facts();
    reveal_with_fuel(plain_seq, 20);
    reveal_with_fuel(all_digits, 2);
}

proof fn lemma_key_tokens_ok_7()
    ensures
        key_token_ok(Key::A),
        key_token_ok(Key::B),
        key_token_ok(Key::C),
        key_token_ok(Key::D),
        key_token_ok(Key::E),
        key_token_ok(Key::F),
        key_token_ok(Key::G),
        key_token_ok(Key::H),
{
    lemma_lit_facts();
    reveal_with_fuel(plain_seq, 20);
    reveal_with_fuel(all_digits, 2);
}

proof fn lemma_key_tokens_ok_8()
    ensures
        key_token_ok(Key::I),
        key_token_ok(Key::J),
        key_token_ok(Key::K),
        key_token_ok(Key::L),
        key_token_ok(Key::M),
        key_token_ok(Key::N),
        key_token_ok(Key::O),
        key_token_ok(Key::P),
{
    lemma_lit_facts();
    reveal_with_fuel(plain_seq, 20);
    reveal_with_fuel(all_digits, 2);
}

proof fn lemma_key_tokens_ok_9()
    ensures
        key_token_ok(Key::Q),
        key_token_ok(Key::R),
        key_token_ok(Key::S),
        key_token_ok(Key::T),
        key_token_ok(Key::U),
        key_token_ok(Key::V),
        key_token_ok(Key::W),
        key_token_ok(Key::X),
{
    lemma_lit_facts();
    reveal_with_fuel(plain_seq, 20);
    reveal_with_fuel(all_digits, 2);
}

proof fn lemma_key_tokens_ok_10()
    ensures
        key_token_ok(Key::Y),
        key_token_ok(Key::Z),
        key_token_ok(Key::EQUAL),
        key_token_ok(Key::MINUS),
        key_token_ok(Key::SINGLEQUOTE),
        key_token_ok(Key::COMMA),
        key_token_ok(Key::PERIOD),
        key_token_ok(Key::SEMICOLON),
{
    lemma_lit_facts();
    reveal_with_fuel(plain_seq, 20);
    reveal_with_fuel(all_digits, 2);
}

proof fn lemma_key_tokens_ok_11()
    ensures
        key_token_ok(Key::SLASH),
        key_token_ok(Key::OPENQUOTE),
        key_token_ok(Key::OPENBRACKET),
        key_token_ok(Key::BACKSLASH),
        key_token_ok(Key::CLOSEBRACKET),
{
    lemma_lit_facts();
    reveal_with_fuel(plain_seq, 20);
    reveal_with_fuel(all_digits, 2);
}

/// Every key name survives cleaning and resolves back to its own key.
pub proof fn lemma_all_key_tokens_ok()
    ensures
        forall|k: Key| #[trigger] key_token_ok(k),
{
    lemma_key_tokens_ok_0();
    lemma_key_tokens_ok_1();
    lemma_key_tokens_ok_2();
    lemma_key_tokens_ok_3();
    lemma_key_tokens_ok_4();
    lemma_key_tokens_ok_5();
    lemma_key_tokens_ok_6();
    lemma_key_tokens_ok_7();
    lemma_key_tokens_ok_8();
    lemma_key_tokens_ok_9();
    lemma_key_tokens_ok_10();
    lemma_key_tokens_ok_11();
    assert forall|k: Key| #[trigger] key_token_ok(k) by {
        match k {
            Key::BACKSPACE => assert(key_token_ok(Key::BACKSPACE)),
            Key::TAB => assert(key_token_ok(Key::TAB)),
            Key::ENTER => assert(key_token_ok(Key::ENTER)),
            Key::CAPSLOCK => assert(key_token_ok(Key::CAPSLOCK)),
            Key::ESCAPE => assert(key_token_ok(Key::ESCAPE)),
            Key::SPACE => assert(key_token_ok(Key::SPACE)),
            Key::PAGEUP => assert(key_token_ok(Key::PAGEUP)),
            Key::PAGEDOWN => assert(key_token_ok(Key::PAGEDOWN)),
            Key::END => assert(key_token_ok(Key::END)),
            Key::HOME => assert(key_token_ok(Key::HOME)),
            Key::LEFT => assert(key_token_ok(Key::LEFT)),
            Key::RIGHT => assert(key_token_ok(Key::RIGHT)),
            Key::UP => assert(key_token_ok(Key::UP)),
            Key::DOWN => assert(key_token_ok(Key::DOWN)),
            Key::PRINTSCREEN => assert(key_token_ok(Key::PRINTSCREEN)),
            Key::INSERT => assert(key_token_ok(Key::INSERT)),
            Key::CLEAR => assert(key_token_ok(Key::CLEAR)),
            Key::DELETE => assert(key_token_ok(Key::DELETE)),
            Key::SCROLLLOCK => assert(key_token_ok(Key::SCROLLLOCK)),
            Key::HELP => assert(key_token_ok(Key::HELP)),
            Key::NUMLOCK => assert(key_token_ok(Key::NUMLOCK)),
            Key::VOLUMEMUTE => assert(key_token_ok(Key::VOLUMEMUTE)),
            Key::VOLUMEDOWN => assert(key_token_ok(Key::VOLUMEDOWN)),
            Key::VOLUMEUP => assert(key_token_ok(Key::VOLUMEUP)),
            Key::MEDIANEXTTRACK => assert(key_token_ok(Key::MEDIANEXTTRACK)),
            Key::MEDIAPREVIOUSTRACK => assert(key_token_ok(Key::MEDIAPREVIOUSTRACK)),
            Key::MEDIASTOP => assert(key_token_ok(Key::MEDIASTOP)),
            Key::MEDIAPLAYPAUSE => assert(key_token_ok(Key::MEDIAPLAYPAUSE)),
            Key::LAUNCHMAIL => assert(key_token_ok(Key::LAUNCHMAIL)),
            Key::F1 => assert(key_token_ok(Key::F1)),
            Key::F2 => assert(key_token_ok(Key::F2)),
            Key::F3 => assert(key_token_ok(Key::F3)),
            Key::F4 => assert(key_token_ok(Key::F4)),
            Key::F5 => assert(key_token_ok(Key::F5)),
            Key::F6 => assert(key_token_ok(Key::F6)),
            Key::F7 => assert(key_token_ok(Key::F7)),
            Key::F8 => assert(key_token_ok(Key::F8)),
            Key::F9 => assert(key_token_ok(Key::F9)),
            Key::F10 => assert(key_token_ok(Key::F10)),
            Key::F11 => assert(key_token_ok(Key::F11)),
            Key::F12 => assert(key_token_ok(Key::F12)),
            Key::NUMADD => assert(key_token_ok(Key::NUMADD)),
            Key::NUMSUB => assert(key_token_ok(Key::NUMSUB)),
            Key::NUMMULT => assert(key_token_ok(Key::NUMMULT)),
            Key::NUMDIV => assert(key_token_ok(Key::NUMDIV)),
            Key::NUMDEC => assert(key_token_ok(Key::NUMDEC)),
            Key::KEY_0 => assert(key_token_ok(Key::KEY_0)),
            Key::KEY_1 => assert(key_token_ok(Key::KEY_1)),
            Key::KEY_2 => assert(key_token_ok(Key::KEY_2)),
            Key::KEY_3 => assert(key_token_ok(Key::KEY_3)),
            Key::KEY_4 => assert(key_token_ok(Key::KEY_4)),
            Key::KEY_5 => assert(key_token_ok(Key::KEY_5)),
            Key::KEY_6 => assert(key_token_ok(Key::KEY_6)),
            Key::KEY_7 => assert(key_token_ok(Key::KEY_7)),
            Key::KEY_8 => assert(key_token_ok(Key::KEY_8)),
            Key::KEY_9 => assert(key_token_ok(Key::KEY_9)),
            Key::A => assert(key_token_ok(Key::A)),
            Key::B => assert(key_token_ok(Key::B)),
            Key::C => assert(key_token_ok(Key::C)),
            Key::D => assert(key_token_ok(Key::D)),
            Key::E => assert(key_token_ok(Key::E)),
            Key::F => assert(key_token_ok(Key::F)),
            Key::G => assert(key_token_ok(Key::G)),
            Key::H => assert(key_token_ok(Key::H)),
            Key::I => assert(key_token_ok(Key::I)),
            Key::J => assert(key_token_ok(Key::J)),
            Key::K => assert(key_token_ok(Key::K)),
            Key::L => assert(key_token_ok(Key::L)),
            Key::M => assert(key_token_ok(Key::M)),
            Key::N => assert(key_token_ok(Key::N)),
            Key::O => assert(key_token_ok(Key::O)),
            Key::P => assert(key_token_ok(Key::P)),
            Key::Q => assert(key_token_ok(Key::Q)),
            Key::R => assert(key_token_ok(Key::R)),
            Key::S => assert(key_token_ok(Key::S)),
            Key::T => assert(key_token_ok(Key::T)),
            Key::U => assert(key_token_ok(Key::U)),
            Key::V => assert(key_token_ok(Key::V)),
            Key::W => assert(key_token_ok(Key::W)),
            Key::X => assert(key_token_ok(Key::X)),
            Key::Y => assert(key_token_ok(Key::Y)),
            Key::Z => assert(key_token_ok(Key::Z)),
            Key::EQUAL => assert(key_token_ok(Key::EQUAL)),
            Key::MINUS => assert(key_token_ok(Key::MINUS)),
            Key::SINGLEQUOTE => assert(key_token_ok(Key::SINGLEQUOTE)),
            Key::COMMA => assert(key_token_ok(Key::COMMA)),
            Key::PERIOD => assert(key_token_ok(Key::PERIOD)),
            Key::SEMICOLON => assert(key_token_ok(Key::SEMICOLON)),
            Key::SLASH => assert(key_token_ok(Key::SLASH)),
            Key::OPENQUOTE => assert(key_token_ok(Key::OPENQUOTE)),
            Key::OPENBRACKET => assert(key_token_ok(Key::OPENBRACKET)),
            Key::BACKSLASH => assert(key_token_ok(Key::BACKSLASH)),
            Key::CLOSEBRACKET => assert(key_token_ok(Key::CLOSEBRACKET)),
        }
    }
}

/// Every modifier name survives cleaning and resolves back to its modifier.
pub proof fn lemma_all_modifier_tokens_ok()
    ensures
        forall|m: Modifier| #[trigger] modifier_token_ok(m),
{
    lemma_lit_facts();
    reveal_with_fuel(plain_seq, 20);
    reveal_with_fuel(all_digits, 2);
    assert forall|m: Modifier| #[trigger] modifier_token_ok(m) by {
        match m {
            Modifier::ALT => assert(modifier_token_ok(Modifier::ALT)),
            Modifier::ALTGR => assert(modifier_token_ok(Modifier::ALTGR)),
            Modifier::CTRL => assert(modifier_token_ok(Modifier::CTRL)),
            Modifier::SHIFT => assert(modifier_token_ok(Modifier::SHIFT)),
            Modifier::SUPER => assert(modifier_token_ok(Modifier::SUPER)),
        }
    }
}

} // verus!
