//! The physical-key model: an opaque enumerated key identifier whose
//! equality is by identity, and the parsing of key names.

use vstd::prelude::*;
use crate::text::{lower_spec, to_lowercase, str_eq};

verus! {

/// A physical key. Alphanumeric, function and navigation keys, plus the
/// left-hand variants of the modifier keys for synthetic input.
#[derive(Debug, Clone, Copy, PartialEq, Eq, Structural)]
pub enum Key {
    Alt,
    Backspace,
    CapsLock,
    ControlLeft,
    Delete,
    DownArrow,
    End,
    Escape,
    F1,
    F2,
    F3,
    F4,
    F5,
    F6,
    F7,
    F8,
    F9,
    F10,
    F11,
    F12,
    Home,
    Insert,
    LeftArrow,
    MetaLeft,
    PageDown,
    PageUp,
    Return,
    RightArrow,
    ShiftLeft,
    Space,
    Tab,
    UpArrow,
    KeyA,
    KeyB,
    KeyC,
    KeyD,
    KeyE,
    KeyF,
    KeyG,
    KeyH,
    KeyI,
    KeyJ,
    KeyK,
    KeyL,
    KeyM,
    KeyN,
    KeyO,
    KeyP,
    KeyQ,
    KeyR,
    KeyS,
    KeyT,
    KeyU,
    KeyV,
    KeyW,
    KeyX,
    KeyY,
    KeyZ,
    Num0,
    Num1,
    Num2,
    Num3,
    Num4,
    Num5,
    Num6,
    Num7,
    Num8,
    Num9,
}

/// The key named by a lower-case key name, if the name is recognized.
pub open spec fn key_of_str(s: Seq<char>) -> Option<Key> {
    if s == "a"@ {
        Some(Key::KeyA)
    } else if s == "b"@ {
        Some(Key::KeyB)
    } else if s == "c"@ {
        Some(Key::KeyC)
    } else if s == "d"@ {
        Some(Key::KeyD)
    } else if s == "e"@ {
        Some(Key::KeyE)
    } else if s == "f"@ {
        Some(Key::KeyF)
    } else if s == "g"@ {
        Some(Key::KeyG)
    } else if s == "h"@ {
        Some(Key::KeyH)
    } else if s == "i"@ {
        Some(Key::KeyI)
    } else if s == "j"@ {
        Some(Key::KeyJ)
    } else if s == "k"@ {
        Some(Key::KeyK)
    } else if s == "l"@ {
        Some(Key::KeyL)
    } else if s == "m"@ {
        Some(Key::KeyM)
    } else if s == "n"@ {
        Some(Key::KeyN)
    } else if s == "o"@ {
        Some(Key::KeyO)
    } else if s == "p"@ {
        Some(Key::KeyP)
    } else if s == "q"@ {
        Some(Key::KeyQ)
    } else if s == "r"@ {
        Some(Key::KeyR)
    } else if s == "s"@ {
        Some(Key::KeyS)
    } else if s == "t"@ {
        Some(Key::KeyT)
    } else if s == "u"@ {
        Some(Key::KeyU)
    } else if s == "v"@ {
        Some(Key::KeyV)
    } else if s == "w"@ {
        Some(Key::KeyW)
    } else if s == "x"@ {
        Some(Key::KeyX)
    } else if s == "y"@ {
        Some(Key::KeyY)
    } else if s == "z"@ {
        Some(Key::KeyZ)
    } else if s == "0"@ {
        Some(Key::Num0)
    } else if s == "1"@ {
        Some(Key::Num1)
    } else if s == "2"@ {
        Some(Key::Num2)
    } else if s == "3"@ {
        Some(Key::Num3)
    } else if s == "4"@ {
        Some(Key::Num4)
    } else if s == "5"@ {
        Some(Key::Num5)
    } else if s == "6"@ {
        Some(Key::Num6)
    } else if s == "7"@ {
        Some(Key::Num7)
    } else if s == "8"@ {
        Some(Key::Num8)
    } else if s == "9"@ {
        Some(Key::Num9)
    } else if s == "f1"@ {
        Some(Key::F1)
    } else if s == "f2"@ {
        Some(Key::F2)
    } else if s == "f3"@ {
        Some(Key::F3)
    } else if s == "f4"@ {
        Some(Key::F4)
    } else if s == "f5"@ {
        Some(Key::F5)
    } else if s == "f6"@ {
        Some(Key::F6)
    } else if s == "f7"@ {
        Some(Key::F7)
    } else if s == "f8"@ {
        Some(Key::F8)
    } else if s == "f9"@ {
        Some(Key::F9)
    } else if s == "f10"@ {
        Some(Key::F10)
    } else if s == "f11"@ {
        Some(Key::F11)
    } else if s == "f12"@ {
        Some(Key::F12)
    } else if s == "space"@ {
        Some(Key::Space)
    } else if s == "enter"@ || s == "return"@ {
        Some(Key::Return)
    } else if s == "tab"@ {
        Some(Key::Tab)
    } else if s == "esc"@ || s == "escape"@ {
        Some(Key::Escape)
    } else if s == "backspace"@ {
        Some(Key::Backspace)
    } else if s == "delete"@ || s == "del"@ {
        Some(Key::Delete)
    } else if s == "home"@ {
        Some(Key::Home)
    } else if s == "end"@ {
        Some(Key::End)
    } else if s == "pageup"@ {
        Some(Key::PageUp)
    } else if s == "pagedown"@ {
        Some(Key::PageDown)
    } else if s == "up"@ {
        Some(Key::UpArrow)
    } else if s == "down"@ {
        Some(Key::DownArrow)
    } else if s == "left"@ {
        Some(Key::LeftArrow)
    } else if s == "right"@ {
        Some(Key::RightArrow)
    } else if s == "insert"@ {
        Some(Key::Insert)
    } else if s == "capslock"@ {
        Some(Key::CapsLock)
    } else if s == "ctrl"@ || s == "control"@ {
        Some(Key::ControlLeft)
    } else if s == "shift"@ {
        Some(Key::ShiftLeft)
    } else if s == "alt"@ {
        Some(Key::Alt)
    } else if s == "meta"@ {
        Some(Key::MetaLeft)
    } else {
        None
    }
}

impl Key {
    /// Resolve a key name, case-insensitively.
    pub fn from_str(s: &str) -> (r: Option<Key>)
        ensures
            r == key_of_str(lower_spec(s@)),
    {
        let low = to_lowercase(s);
        let t = low.as_str();
        if str_eq(t, "a") {
            Some(Key::KeyA)
        } else if str_eq(t, "b") {
            Some(Key::KeyB)
        } else if str_eq(t, "c") {
            Some(Key::KeyC)
        } else if str_eq(t, "d") {
            Some(Key::KeyD)
        } else if str_eq(t, "e") {
            Some(Key::KeyE)
        } else if str_eq(t, "f") {
            Some(Key::KeyF)
        } else if str_eq(t, "g") {
            Some(Key::KeyG)
        } else if str_eq(t, "h") {
            Some(Key::KeyH)
        } else if str_eq(t, "i") {
            Some(Key::KeyI)
        } else if str_eq(t, "j") {
            Some(Key::KeyJ)
        } else if str_eq(t, "k") {
            Some(Key::KeyK)
        } else if str_eq(t, "l") {
            Some(Key::KeyL)
        } else if str_eq(t, "m") {
            Some(Key::KeyM)
        } else if str_eq(t, "n") {
            Some(Key::KeyN)
        } else if str_eq(t, "o") {
            Some(Key::KeyO)
        } else if str_eq(t, "p") {
            Some(Key::KeyP)
        } else if str_eq(t, "q") {
            Some(Key::KeyQ)
        } else if str_eq(t, "r") {
            Some(Key::KeyR)
        } else if str_eq(t, "s") {
            Some(Key::KeyS)
        } else if str_eq(t, "t") {
            Some(Key::KeyT)
        } else if str_eq(t, "u") {
            Some(Key::KeyU)
        } else if str_eq(t, "v") {
            Some(Key::KeyV)
        } else if str_eq(t, "w") {
            Some(Key::KeyW)
        } else if str_eq(t, "x") {
            Some(Key::KeyX)
        } else if str_eq(t, "y") {
            Some(Key::KeyY)
        } else if str_eq(t, "z") {
            Some(Key::KeyZ)
        } else if str_eq(t, "0") {
            Some(Key::Num0)
        } else if str_eq(t, "1") {
            Some(Key::Num1)
        } else if str_eq(t, "2") {
            Some(Key::Num2)
        } else if str_eq(t, "3") {
            Some(Key::Num3)
        } else if str_eq(t, "4") {
            Some(Key::Num4)
        } else if str_eq(t, "5") {
            Some(Key::Num5)
        } else if str_eq(t, "6") {
            Some(Key::Num6)
        } else if str_eq(t, "7") {
            Some(Key::Num7)
        } else if str_eq(t, "8") {
            Some(Key::Num8)
        } else if str_eq(t, "9") {
            Some(Key::Num9)
        } else if str_eq(t, "f1") {
            Some(Key::F1)
        } else if str_eq(t, "f2") {
            Some(Key::F2)
        } else if str_eq(t, "f3") {
            Some(Key::F3)
        } else if str_eq(t, "f4") {
            Some(Key::F4)
        } else if str_eq(t, "f5") {
            Some(Key::F5)
        } else if str_eq(t, "f6") {
            Some(Key::F6)
        } else if str_eq(t, "f7") {
            Some(Key::F7)
        } else if str_eq(t, "f8") {
            Some(Key::F8)
        } else if str_eq(t, "f9") {
            Some(Key::F9)
        } else if str_eq(t, "f10") {
            Some(Key::F10)
        } else if str_eq(t, "f11") {
            Some(Key::F11)
        } else if str_eq(t, "f12") {
            Some(Key::F12)
        } else if str_eq(t, "space") {
            Some(Key::Space)
        } else if str_eq(t, "enter") || str_eq(t, "return") {
            Some(Key::Return)
        } else if str_eq(t, "tab") {
            Some(Key::Tab)
        } else if str_eq(t, "esc") || str_eq(t, "escape") {
            Some(Key::Escape)
        } else if str_eq(t, "backspace") {
            Some(Key::Backspace)
        } else if str_eq(t, "delete") || str_eq(t, "del") {
            Some(Key::Delete)
        } else if str_eq(t, "home") {
            Some(Key::Home)
        } else if str_eq(t, "end") {
            Some(Key::End)
        } else if str_eq(t, "pageup") {
            Some(Key::PageUp)
        } else if str_eq(t, "pagedown") {
            Some(Key::PageDown)
        } else if str_eq(t, "up") {
            Some(Key::UpArrow)
        } else if str_eq(t, "down") {
            Some(Key::DownArrow)
        } else if str_eq(t, "left") {
            Some(Key::LeftArrow)
        } else if str_eq(t, "right") {
            Some(Key::RightArrow)
        } else if str_eq(t, "insert") {
            Some(Key::Insert)
        } else if str_eq(t, "capslock") {
            Some(Key::CapsLock)
        } else if str_eq(t, "ctrl") || str_eq(t, "control") {
            Some(Key::ControlLeft)
        } else if str_eq(t, "shift") {
            Some(Key::ShiftLeft)
        } else if str_eq(t, "alt") {
            Some(Key::Alt)
        } else if str_eq(t, "meta") {
            Some(Key::MetaLeft)
        } else {
            None
        }
    }
}

} // verus!
