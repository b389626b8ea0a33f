//! The keys the interactive front end answers to, and how a terminal's
//! keypress becomes one.

use vstd::prelude::*;

verus! {

/// The keys the interactive front end acts on.
///
/// Deliberately its own vocabulary rather than a terminal library's: the state
/// machines are then testable without a terminal, and a backend change cannot
/// silently move a binding.
#[derive(Debug, Clone, Copy, PartialEq, Eq, Structural)]
pub enum Key {
    Char(char),
    Backspace,
    Delete,
    Enter,
    /// `Tab`, the `/` menu's fill-in key and a questionnaire's skip.
    Tab,
    Esc,
    BackTab,
    CtrlC,
    /// `Ctrl-D`: quit, behind a confirmation.
    CtrlD,
    Left,
    Right,
    Up,
    Down,
    Home,
    End,
    /// Emacs-style line editing: `Ctrl-A/E` move, `Ctrl-U/K/W` kill, `Ctrl-P/N`
    /// walk the prompt history.
    CtrlA,
    CtrlE,
    CtrlU,
    CtrlK,
    CtrlW,
    CtrlP,
    CtrlN,
    CtrlG,
    CtrlJ,
    PageUp,
    PageDown,
}

/// A terminal's name for the key pressed, as far as this front end cares.
#[derive(Debug, Clone, Copy, PartialEq, Eq, Structural)]
pub enum KeyCode {
    Char(char),
    Esc,
    Tab,
    BackTab,
    Enter,
    Backspace,
    Delete,
    Left,
    Right,
    Up,
    Down,
    Home,
    End,
    PageUp,
    PageDown,
    /// Any key this front end has no use for.
    Other,
}

/// One keypress: the key and whether `Control` was held.
#[derive(Debug, Clone, Copy, PartialEq, Eq, Structural)]
pub struct KeyPress {
    pub code: KeyCode,
    pub control: bool,
}

/// `c` in ASCII lower case.
pub open spec fn ascii_lower(c: char) -> char {
    if 'A' <= c <= 'Z' {
        ((c as u32) + 32) as char
    } else {
        c
    }
}

/// The `Control` chord a lower-case letter makes, if it is one this front end
/// answers to.
pub open spec fn control_chord(c: char) -> Option<Key> {
    if c == 'c' {
        Some(Key::CtrlC)
    } else if c == 'd' {
        Some(Key::CtrlD)
    } else if c == 'a' {
        Some(Key::CtrlA)
    } else if c == 'e' {
        Some(Key::CtrlE)
    } else if c == 'u' {
        Some(Key::CtrlU)
    } else if c == 'k' {
        Some(Key::CtrlK)
    } else if c == 'w' {
        Some(Key::CtrlW)
    } else if c == 'p' {
        Some(Key::CtrlP)
    } else if c == 'n' {
        Some(Key::CtrlN)
    } else if c == 'g' {
        Some(Key::CtrlG)
    } else if c == 'j' {
        Some(Key::CtrlJ)
    } else {
        None
    }
}

/// The key a keypress is, if this front end answers to it. A `Control` chord
/// of a letter is that chord whatever the case; a plain character is text.
pub open spec fn key_of(press: KeyPress) -> Option<Key> {
    if press.control && press.code is Char {
        control_chord(ascii_lower(press.code->Char_0))
    } else {
        match press.code {
            KeyCode::Char(c) => Some(Key::Char(c)),
            KeyCode::Esc => Some(Key::Esc),
            KeyCode::Tab => Some(Key::Tab),
            KeyCode::BackTab => Some(Key::BackTab),
            KeyCode::Enter => Some(Key::Enter),
            KeyCode::Backspace => Some(Key::Backspace),
            KeyCode::Delete => Some(Key::Delete),
            KeyCode::Left => Some(Key::Left),
            KeyCode::Right => Some(Key::Right),
            KeyCode::Up => Some(Key::Up),
            KeyCode::Down => Some(Key::Down),
            KeyCode::Home => Some(Key::Home),
            KeyCode::End => Some(Key::End),
            KeyCode::PageUp => Some(Key::PageUp),
            KeyCode::PageDown => Some(Key::PageDown),
            KeyCode::Other => None,
        }
    }
}

/// Translate one keypress into a [`Key`], or `None` for a key the front end
/// ignores.
pub fn map_key(press: KeyPress) -> (r: Option<Key>)
    ensures
        r == key_of(press),
{
    if press.control {
        if let KeyCode::Char(ch) = press.code {
            return if ch == 'c' || ch == 'C' {
                Some(Key::CtrlC)
            } else if ch == 'd' || ch == 'D' {
                Some(Key::CtrlD)
            } else if ch == 'a' || ch == 'A' {
                Some(Key::CtrlA)
            } else if ch == 'e' || ch == 'E' {
                Some(Key::CtrlE)
            } else if ch == 'u' || ch == 'U' {
                Some(Key::CtrlU)
            } else if ch == 'k' || ch == 'K' {
                Some(Key::CtrlK)
            } else if ch == 'w' || ch == 'W' {
                Some(Key::CtrlW)
            } else if ch == 'p' || ch == 'P' {
                Some(Key::CtrlP)
            } else if ch == 'n' || ch == 'N' {
                Some(Key::CtrlN)
            } else if ch == 'g' || ch == 'G' {
                Some(Key::CtrlG)
            } else if ch == 'j' || ch == 'J' {
                Some(Key::CtrlJ)
            } else {
                None
            };
        }
    }
    match press.code {
        KeyCode::Char(c) => Some(Key::Char(c)),
        KeyCode::Esc => Some(Key::Esc),
        KeyCode::Tab => Some(Key::Tab),
        KeyCode::BackTab => Some(Key::BackTab),
        KeyCode::Enter => Some(Key::Enter),
        KeyCode::Backspace => Some(Key::Backspace),
        KeyCode::Delete => Some(Key::Delete),
        KeyCode::Left => Some(Key::Left),
        KeyCode::Right => Some(Key::Right),
        KeyCode::Up => Some(Key::Up),
        KeyCode::Down => Some(Key::Down),
        KeyCode::Home => Some(Key::Home),
        KeyCode::End => Some(Key::End),
        KeyCode::PageUp => Some(Key::PageUp),
        KeyCode::PageDown => Some(Key::PageDown),
        KeyCode::Other => None,
    }
}

/// Whether a key means yes to a question the front end asked itself: only
/// `y`. `Esc` and `Enter` are the safe answer, because both are what a hand
/// reaches for without reading.
pub fn agrees(key: Key) -> (r: bool)
    ensures
        r == (key == Key::Char('y') || key == Key::Char('Y')),
{
    match key {
        Key::Char(c) => c == 'y' || c == 'Y',
        _ => false,
    }
}

} // verus!
