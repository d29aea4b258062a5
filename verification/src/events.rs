//! Input events and the results of dispatching them.

use crate::text;
use vstd::prelude::*;

verus! {

/// What the host has to do after the engine has run.
#[derive(Debug, Clone, Copy, PartialEq, Eq, Structural)]
pub struct TickResult {
    /// The document has changed and is to be painted again.
    pub needs_paint: bool,
    /// Work is left over for another tick.
    pub jobs_pending: bool,
}

impl Default for TickResult {
    fn default() -> (res: Self)
        ensures
            res == TickResult::nothing(),
    {
        TickResult { needs_paint: false, jobs_pending: false }
    }
}

impl TickResult {
    /// Nothing to paint and nothing left over.
    pub open spec fn nothing() -> TickResult {
        TickResult { needs_paint: false, jobs_pending: false }
    }

    /// What is to be done after both of two runs.
    pub open spec fn and(self, other: TickResult) -> TickResult {
        TickResult {
            needs_paint: self.needs_paint || other.needs_paint,
            jobs_pending: self.jobs_pending || other.jobs_pending,
        }
    }
}

/// What is to be done after both of two runs.
pub fn combine_tick_result(a: TickResult, b: TickResult) -> (res: TickResult)
    ensures
        res == a.and(b),
{
    TickResult {
        needs_paint: a.needs_paint || b.needs_paint,
        jobs_pending: a.jobs_pending || b.jobs_pending,
    }
}

/// Results can be combined in any order and grouping, combining a result with
/// itself changes nothing, and the default result has no influence.
pub proof fn law_tick_results_form_a_semilattice(a: TickResult, b: TickResult, c: TickResult)
    ensures
        a.and(b) == b.and(a),
        a.and(b).and(c) == a.and(b.and(c)),
        a.and(a) == a,
        a.and(TickResult::nothing()) == a,
{
}

/// A key pressed or released.
#[derive(Debug, Clone)]
pub struct KeyboardEvent {
    pub key: String,
    pub code: String,
    pub key_code: u32,
    pub repeat: bool,
    pub shift_key: bool,
    pub ctrl_key: bool,
    pub alt_key: bool,
    pub meta_key: bool,
}

/// The keys that the controls know by name, and those that type a character.
#[derive(Debug, Clone, Copy, PartialEq, Eq, Structural)]
pub enum Key {
    Space,
    Enter,
    Tab,
    Escape,
    Backspace,
    Delete,
    ArrowLeft,
    ArrowRight,
    ArrowUp,
    ArrowDown,
    /// The short name `Up` of the arrow.
    Up,
    /// The short name `Down` of the arrow.
    Down,
    Home,
    End,
    PageUp,
    PageDown,
    Char(char),
    Other,
}

/// The key with a given name. The space bar goes by two names; any other
/// single character is the key that types it.
pub open spec fn key_named(name: Seq<char>) -> Key {
    if name == " "@ || name == "Space"@ {
        Key::Space
    } else if name == "Enter"@ {
        Key::Enter
    } else if name == "Tab"@ {
        Key::Tab
    } else if name == "Escape"@ {
        Key::Escape
    } else if name == "Backspace"@ {
        Key::Backspace
    } else if name == "Delete"@ {
        Key::Delete
    } else if name == "ArrowLeft"@ {
        Key::ArrowLeft
    } else if name == "ArrowRight"@ {
        Key::ArrowRight
    } else if name == "ArrowUp"@ {
        Key::ArrowUp
    } else if name == "ArrowDown"@ {
        Key::ArrowDown
    } else if name == "Up"@ {
        Key::Up
    } else if name == "Down"@ {
        Key::Down
    } else if name == "Home"@ {
        Key::Home
    } else if name == "End"@ {
        Key::End
    } else if name == "PageUp"@ {
        Key::PageUp
    } else if name == "PageDown"@ {
        Key::PageDown
    } else if name.len() == 1 {
        Key::Char(name[0])
    } else {
        Key::Other
    }
}

/// The key with the given name.
pub fn key_from_name(name: &str) -> (res: Key)
    ensures
        res == key_named(name@),
{
    if text::same(name, " ") || text::same(name, "Space") {
        Key::Space
    } else if text::same(name, "Enter") {
        Key::Enter
    } else if text::same(name, "Tab") {
        Key::Tab
    } else if text::same(name, "Escape") {
        Key::Escape
    } else if text::same(name, "Backspace") {
        Key::Backspace
    } else if text::same(name, "Delete") {
        Key::Delete
    } else if text::same(name, "ArrowLeft") {
        Key::ArrowLeft
    } else if text::same(name, "ArrowRight") {
        Key::ArrowRight
    } else if text::same(name, "ArrowUp") {
        Key::ArrowUp
    } else if text::same(name, "ArrowDown") {
        Key::ArrowDown
    } else if text::same(name, "Up") {
        Key::Up
    } else if text::same(name, "Down") {
        Key::Down
    } else if text::same(name, "Home") {
        Key::Home
    } else if text::same(name, "End") {
        Key::End
    } else if text::same(name, "PageUp") {
        Key::PageUp
    } else if text::same(name, "PageDown") {
        Key::PageDown
    } else {
        let chars = text::chars_of(name);
        if chars.len() == 1 {
            Key::Char(chars[0])
        } else {
            Key::Other
        }
    }
}

/// A key together with the modifiers that were held.
#[derive(Debug, Clone, Copy, PartialEq, Eq, Structural)]
pub struct Keystroke {
    pub key: Key,
    pub shift: bool,
    pub ctrl: bool,
    pub alt: bool,
    pub meta: bool,
}

impl Keystroke {
    /// Control, Alt or Meta was held.
    pub open spec fn modified(self) -> bool {
        self.ctrl || self.alt || self.meta
    }

    /// The modifiers that make editing go by words: Control or Meta, without
    /// Alt.
    pub open spec fn by_word(self) -> bool {
        (self.ctrl || self.meta) && !self.alt
    }

    pub fn is_modified(&self) -> (res: bool)
        ensures
            res == self.modified(),
    {
        self.ctrl || self.alt || self.meta
    }
}

impl KeyboardEvent {
    /// What the controls read of a keyboard event.
    pub open spec fn stroke(self) -> Keystroke {
        Keystroke {
            key: key_named(self.key@),
            shift: self.shift_key,
            ctrl: self.ctrl_key,
            alt: self.alt_key,
            meta: self.meta_key,
        }
    }

    /// What the controls read of this event.
    pub fn keystroke(&self) -> (res: Keystroke)
        ensures
            res == self.stroke(),
    {
        Keystroke {
            key: key_from_name(self.key.as_str()),
            shift: self.shift_key,
            ctrl: self.ctrl_key,
            alt: self.alt_key,
            meta: self.meta_key,
        }
    }
}

} // verus!
