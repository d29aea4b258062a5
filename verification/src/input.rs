//! State of the native `<input>` controls.
//!
//! Every input element has an [`InputState`], which owns the text and the
//! caret. Positions are character indices; byte offsets occur only where a
//! text is handed to glyph layout.

use crate::clock::Clock;
use crate::text;
use std::collections::HashMap;
use vstd::prelude::*;
use vstd::string::*;

verus! {

/// The time between two flips of the caret's visibility: half a second, in
/// nanoseconds.
pub const BLINK_INTERVAL: u64 = 500_000_000;

/// The bit patterns of the numbers 0, 1 and 100 in double precision.
pub const ZERO_BITS: u64 = 0;

pub const ONE_BITS: u64 = 0x3FF0_0000_0000_0000;

pub const HUNDRED_BITS: u64 = 0x4059_0000_0000_0000;

/// The bit pattern of positive infinity in double precision. The patterns of
/// the numbers above zero are those from one up to this.
pub const INFINITY_BITS: u64 = 0x7FF0_0000_0000_0000;

#[derive(Debug, Clone, Copy, PartialEq, Eq, Structural)]
pub enum InputType {
    Text,
    Password,
    Checkbox,
    Radio,
    Range,
    Number,
}

impl InputType {
    /// Types whose value is edited as a line of text.
    pub open spec fn text_like(self) -> bool {
        self is Text || self is Password || self is Number
    }

    /// Types whose value is a number.
    pub open spec fn numeric_like(self) -> bool {
        self is Number || self is Range
    }

    /// Types that are either checked or not.
    pub open spec fn checked_like(self) -> bool {
        self is Checkbox || self is Radio
    }

    pub fn is_text_like(self) -> (res: bool)
        ensures
            res == self.text_like(),
    {
        matches!(self, InputType::Text | InputType::Password | InputType::Number)
    }

    pub fn is_numeric_like(self) -> (res: bool)
        ensures
            res == self.numeric_like(),
    {
        matches!(self, InputType::Number | InputType::Range)
    }

    pub fn is_checked_like(self) -> (res: bool)
        ensures
            res == self.checked_like(),
    {
        matches!(self, InputType::Checkbox | InputType::Radio)
    }

    pub fn is_range(self) -> (res: bool)
        ensures
            res == (self is Range),
    {
        matches!(self, InputType::Range)
    }
}

/// The type that a `type` attribute names, whatever its case; text where the
/// name is none of the known ones.
pub open spec fn input_type_named(name: Seq<char>) -> InputType {
    if text::same_ignoring_case(name, "password"@) {
        InputType::Password
    } else if text::same_ignoring_case(name, "checkbox"@) {
        InputType::Checkbox
    } else if text::same_ignoring_case(name, "radio"@) {
        InputType::Radio
    } else if text::same_ignoring_case(name, "range"@) {
        InputType::Range
    } else if text::same_ignoring_case(name, "number"@) {
        InputType::Number
    } else {
        InputType::Text
    }
}

/// Characters that make up words: letters, digits and the underscore.
pub open spec fn is_word(c: char) -> bool {
    text::char_is_alphanumeric(c) || c == '_'
}

/// From `i` back over all characters whose being part of a word is `word`.
pub open spec fn back_over(s: Seq<char>, i: int, word: bool) -> int
    decreases i,
{
    if 0 < i <= s.len() && is_word(s[i - 1]) == word {
        back_over(s, i - 1, word)
    } else {
        i
    }
}

/// From `i` on over all characters whose being part of a word is `word`.
pub open spec fn on_over(s: Seq<char>, i: int, word: bool) -> int
    decreases s.len() - i,
{
    if 0 <= i < s.len() && is_word(s[i]) == word {
        on_over(s, i + 1, word)
    } else {
        i
    }
}

/// The start of the word at or before `i`.
pub open spec fn word_left(s: Seq<char>, i: int) -> int {
    back_over(s, back_over(s, i, false), true)
}

/// The end of the word at or behind `i`.
pub open spec fn word_right(s: Seq<char>, i: int) -> int {
    on_over(s, on_over(s, i, false), true)
}

pub open spec fn text_view(text: Option<String>) -> Option<Seq<char>> {
    match text {
        Some(s) => Some(s@),
        None => None,
    }
}

pub open spec fn str_view(text: Option<&str>) -> Option<Seq<char>> {
    match text {
        Some(s) => Some(s@),
        None => None,
    }
}

/// The character that stands for each character of a masked value.
pub const BULLET: char = '\u{2022}';

/// What an input holds, apart from the time of the caret's last blink.
#[verifier::ext_equal]
pub struct InputModel {
    pub value: Seq<char>,
    pub caret: int,
    pub anchor: Option<int>,
    pub kind: InputType,
    pub masked: bool,
    pub checked: bool,
    pub readonly: bool,
    pub disabled: bool,
    pub blink_visible: bool,
    /// How often the blink interval was started anew.
    pub restarts: nat,
    pub placeholder: Option<Seq<char>>,
    pub name: Option<Seq<char>>,
    pub min: Option<u64>,
    pub max: Option<u64>,
    pub step: Option<u64>,
}

impl InputModel {
    /// The state of a new input: an empty line of text.
    pub open spec fn new() -> InputModel {
        InputModel {
            value: Seq::empty(),
            caret: 0,
            anchor: None,
            kind: InputType::Text,
            masked: false,
            checked: false,
            readonly: false,
            disabled: false,
            blink_visible: true,
            restarts: 0,
            placeholder: None,
            name: None,
            min: None,
            max: None,
            step: None,
        }
    }

    /// The caret stands within the value and so does the anchor of a
    /// selection. A checkbox or radio button, which shows no caret, may have
    /// it anywhere, and has no selection.
    pub open spec fn wf(self) -> bool {
        &&& 0 <= self.caret
        &&& self.caret <= self.value.len() || self.kind.checked_like()
        &&& self.anchor matches Some(a) ==> 0 <= a <= self.value.len() && self.caret
            <= self.value.len()
    }

    /// The value can be changed by typing.
    pub open spec fn editable(self) -> bool {
        !self.readonly && !self.disabled && self.kind.text_like()
    }

    /// The caret can be moved.
    pub open spec fn navigable(self) -> bool {
        !self.disabled && self.kind.text_like()
    }

    pub open spec fn sel_start(self) -> int {
        match self.anchor {
            Some(a) => if a < self.caret { a } else { self.caret },
            None => self.caret,
        }
    }

    pub open spec fn sel_end(self) -> int {
        match self.anchor {
            Some(a) => if a > self.caret { a } else { self.caret },
            None => self.caret,
        }
    }

    pub open spec fn has_selection(self) -> bool {
        self.anchor matches Some(a) && a != self.caret
    }

    /// With the caret shown, and its blink interval started anew.
    pub open spec fn touched(self) -> InputModel {
        InputModel { blink_visible: true, restarts: self.restarts + 1, ..self }
    }

    /// With the characters from `start` to `end` replaced by `text`, the
    /// caret behind it and nothing selected.
    pub open spec fn replaced(self, start: int, end: int, text: Seq<char>) -> InputModel {
        InputModel {
            value: text::spliced(self.value, start, end, text),
            caret: start + text.len() as int,
            anchor: None,
            ..self
        }
    }

    /// With the selected characters removed. Where nothing is selected,
    /// nothing changes.
    pub open spec fn without_selection(self) -> InputModel {
        if self.has_selection() {
            self.replaced(self.sel_start(), self.sel_end(), Seq::empty())
        } else {
            self
        }
    }

    /// With the selected characters removed by an edit, which shows the
    /// caret.
    pub open spec fn selection_dropped(self) -> InputModel {
        if self.has_selection() {
            self.without_selection().touched()
        } else {
            self
        }
    }

    /// With `text` put in place of the selection, or at the caret where
    /// nothing is selected.
    pub open spec fn typed(self, text: Seq<char>) -> InputModel {
        self.replaced(self.sel_start(), self.sel_end(), text).touched()
    }

    /// With the caret at `to`. When extending, the selection reaches from
    /// where it was anchored, or else from where the caret was, to there;
    /// otherwise nothing is selected.
    pub open spec fn moved(self, to: int, extend: bool) -> InputModel {
        (InputModel {
            caret: to,
            anchor: if extend {
                match self.anchor {
                    Some(a) => Some(a),
                    None => Some(self.caret),
                }
            } else {
                None
            },
            ..self
        }).touched()
    }

    /// With a new value, the caret at its end and nothing selected.
    pub open spec fn with_value(self, value: Seq<char>) -> InputModel {
        (InputModel { value, caret: value.len() as int, anchor: None, ..self }).touched()
    }

    /// `value` is another number for a numeric input, to be brought within
    /// its bounds before it is stored.
    pub open spec fn number_pending(self, value: Seq<char>) -> bool {
        value != self.value && self.kind.numeric_like() && value.len() > 0
            && text::number_text(value)
    }

    /// With `value` given to the input, unless that is a number still to be
    /// brought within its bounds. The caret goes to the end, except of a
    /// checkbox or radio button, which shows none.
    pub open spec fn given(self, value: Seq<char>) -> InputModel {
        if value == self.value || self.number_pending(value) {
            self
        } else if self.kind.checked_like() {
            (InputModel { value, anchor: None, ..self }).touched()
        } else {
            self.with_value(value)
        }
    }

    /// With `value` put in place of what is there, as [`InputModel::given`]
    /// has it. The caret goes to the end, and nothing is selected, also where
    /// the value is the same.
    pub open spec fn put(self, value: Seq<char>) -> InputModel {
        if value == self.value && !self.kind.checked_like() {
            self.with_value(value)
        } else {
            self.given(value)
        }
    }

    /// With the caret at the end and nothing selected, where the caret can be
    /// moved.
    pub open spec fn caret_at_end(self) -> InputModel {
        if self.navigable() {
            self.moved(self.value.len() as int, false)
        } else {
            self
        }
    }

    /// A place in the value: `at`, or the end where the value is shorter.
    pub open spec fn place(self, at: int) -> int {
        if at <= self.value.len() {
            at
        } else {
            self.value.len() as int
        }
    }

    /// With the caret at a place and nothing selected, where the caret can be
    /// moved.
    pub open spec fn caret_placed(self, at: int) -> InputModel {
        if self.navigable() {
            self.moved(self.place(at), false)
        } else {
            self
        }
    }

    /// With the selection from one place to another, where the caret is, in a
    /// line of text.
    pub open spec fn selected(self, anchor: int, focus: int) -> InputModel {
        let from = self.place(anchor);
        let to = self.place(focus);
        if self.kind.text_like() {
            (InputModel {
                caret: to,
                anchor: if from != to {
                    Some(from)
                } else {
                    None
                },
                ..self
            }).touched()
        } else {
            self
        }
    }

    /// With the input of another kind, its caret at the start.
    pub open spec fn with_kind(self, kind: InputType) -> InputModel {
        (InputModel {
            kind,
            masked: kind is Password,
            anchor: None,
            caret: 0,
            ..self
        }).with_numeric_defaults().touched()
    }

    /// Disabled or not. A disabled input loses its selection, and its caret
    /// returns to the start.
    pub open spec fn with_disabled(self, disabled: bool) -> InputModel {
        if disabled {
            InputModel { disabled, anchor: None, caret: 0, ..self }
        } else {
            InputModel { disabled, ..self }
        }
    }

    /// Bullets are shown in place of the value.
    pub open spec fn shows_bullets(self) -> bool {
        (self.masked || self.kind is Password) && !self.kind.checked_like()
    }

    /// The text that stands for the state of the input, before a placeholder
    /// is considered.
    pub open spec fn display(self) -> Seq<char> {
        if self.shows_bullets() {
            Seq::new(self.value.len(), |i: int| BULLET)
        } else {
            match self.kind {
                InputType::Checkbox => if self.checked {
                    "true"@
                } else {
                    "false"@
                },
                InputType::Radio => if self.checked {
                    "on"@
                } else {
                    "off"@
                },
                _ => self.value,
            }
        }
    }

    /// The byte offset of the caret in the text that stands for the value.
    pub open spec fn display_caret_byte(self) -> nat {
        if self.shows_bullets() {
            text::byte_len(Seq::new(self.caret as nat, |i: int| BULLET))
        } else {
            text::byte_offset(self.value, self.caret)
        }
    }

    /// The placeholder is shown: the input is a line of text, empty, and has
    /// one.
    pub open spec fn shows_placeholder(self) -> bool {
        self.kind.text_like() && self.value.len() == 0 && self.placeholder is Some
    }

    /// The text shown inside the input.
    pub open spec fn rendered(self) -> Seq<char> {
        if self.shows_placeholder() {
            self.placeholder->0
        } else {
            self.display()
        }
    }

    /// With the bounds and the value that a slider has by default, where it
    /// has none.
    pub open spec fn with_numeric_defaults(self) -> InputModel {
        if self.kind is Range {
            InputModel {
                min: Some(self.min.unwrap_or(ZERO_BITS)),
                max: Some(self.max.unwrap_or(HUNDRED_BITS)),
                step: Some(self.step.unwrap_or(ONE_BITS)),
                value: if self.value.len() == 0 {
                    "0"@
                } else {
                    self.value
                },
                caret: if self.value.len() == 0 {
                    "0"@.len() as int
                } else {
                    self.caret
                },
                ..self
            }
        } else {
            self
        }
    }
}

/// Editable state of one input.
pub struct InputState {
    value: String,
    caret_chars: usize,
    blink_visible: bool,
    last_blink: u64,
    restarts: Ghost<nat>,
    clock: Clock,
    placeholder: Option<String>,
    masked: bool,
    input_type: InputType,
    checked: bool,
    name: Option<String>,
    min: Option<u64>,
    max: Option<u64>,
    step: Option<u64>,
    readonly: bool,
    disabled: bool,
    selection_anchor_chars: Option<usize>,
}

impl View for InputState {
    type V = InputModel;

    closed spec fn view(&self) -> InputModel {
        InputModel {
            value: self.value@,
            caret: self.caret_chars as int,
            anchor: match self.selection_anchor_chars {
                Some(a) => Some(a as int),
                None => None,
            },
            kind: self.input_type,
            masked: self.masked,
            checked: self.checked,
            readonly: self.readonly,
            disabled: self.disabled,
            blink_visible: self.blink_visible,
            restarts: self.restarts@,
            placeholder: text_view(self.placeholder),
            name: text_view(self.name),
            min: self.min,
            max: self.max,
            step: self.step,
        }
    }
}

/// The blink interval runs on as it did, unless it was started anew.
pub open spec fn timer_kept(before: InputState, after: InputState) -> bool {
    &&& before@.restarts <= after@.restarts
    &&& before@.restarts == after@.restarts ==> after.last_blink() == before.last_blink()
}

impl Default for InputState {
    fn default() -> (res: Self)
        ensures
            res@ == InputModel::new(),
            res@.wf(),
    {
        let clock = Clock::start();
        let last_blink: u64 = clock.now();
        InputState {
            value: String::new(),
            caret_chars: 0,
            blink_visible: true,
            last_blink,
            restarts: Ghost(0),
            clock,
            placeholder: None,
            masked: false,
            input_type: InputType::Text,
            checked: false,
            name: None,
            min: None,
            max: None,
            step: None,
            readonly: false,
            disabled: false,
            selection_anchor_chars: None,
        }
    }
}

impl Clone for InputState {
    fn clone(&self) -> (res: Self)
        ensures
            res@ == self@,
            res.last_blink() == self.last_blink(),
    {
        InputState {
            value: self.value.clone(),
            caret_chars: self.caret_chars,
            blink_visible: self.blink_visible,
            last_blink: self.last_blink,
            restarts: self.restarts,
            clock: self.clock,
            placeholder: self.placeholder.clone(),
            masked: self.masked,
            input_type: self.input_type,
            checked: self.checked,
            name: self.name.clone(),
            min: self.min,
            max: self.max,
            step: self.step,
            readonly: self.readonly,
            disabled: self.disabled,
            selection_anchor_chars: self.selection_anchor_chars,
        }
    }
}

impl InputState {
    pub fn value(&self) -> (res: &str)
        ensures
            res@ == self@.value,
    {
        self.value.as_str()
    }

    pub fn caret(&self) -> (res: usize)
        ensures
            res == self@.caret,
    {
        self.caret_chars
    }

    pub fn kind(&self) -> (res: InputType)
        ensures
            res == self@.kind,
    {
        self.input_type
    }

    pub fn is_text_like(&self) -> (res: bool)
        ensures
            res == self@.kind.text_like(),
    {
        self.input_type.is_text_like()
    }

    pub fn is_checked_like(&self) -> (res: bool)
        ensures
            res == self@.kind.checked_like(),
    {
        self.input_type.is_checked_like()
    }

    pub fn is_numeric_like(&self) -> (res: bool)
        ensures
            res == self@.kind.numeric_like(),
    {
        self.input_type.is_numeric_like()
    }

    pub fn is_range(&self) -> (res: bool)
        ensures
            res == (self@.kind is Range),
    {
        self.input_type.is_range()
    }

    pub fn is_number(&self) -> (res: bool)
        ensures
            res == (self@.kind is Number),
    {
        matches!(self.input_type, InputType::Number)
    }

    pub fn is_radio(&self) -> (res: bool)
        ensures
            res == (self@.kind is Radio),
    {
        matches!(self.input_type, InputType::Radio)
    }

    pub fn is_checkbox(&self) -> (res: bool)
        ensures
            res == (self@.kind is Checkbox),
    {
        matches!(self.input_type, InputType::Checkbox)
    }

    pub fn is_password(&self) -> (res: bool)
        ensures
            res == (self@.kind is Password),
    {
        matches!(self.input_type, InputType::Password)
    }

    pub fn name(&self) -> (res: Option<&str>)
        ensures
            str_view(res) == self@.name,
    {
        match &self.name {
            Some(name) => Some(name.as_str()),
            None => None,
        }
    }

    pub fn placeholder(&self) -> (res: Option<&str>)
        ensures
            str_view(res) == self@.placeholder,
    {
        match &self.placeholder {
            Some(placeholder) => Some(placeholder.as_str()),
            None => None,
        }
    }

    pub fn checked(&self) -> (res: bool)
        ensures
            res == self@.checked,
    {
        self.checked
    }

    pub fn readonly(&self) -> (res: bool)
        ensures
            res == self@.readonly,
    {
        self.readonly
    }

    pub fn disabled(&self) -> (res: bool)
        ensures
            res == self@.disabled,
    {
        self.disabled
    }

    /// The lower bound of the number, as the bits of a double.
    pub fn min(&self) -> (res: Option<u64>)
        ensures
            res == self@.min,
    {
        self.min
    }

    /// The upper bound of the number, as the bits of a double.
    pub fn max(&self) -> (res: Option<u64>)
        ensures
            res == self@.max,
    {
        self.max
    }

    /// The step of the number, as the bits of a double; one where none is set.
    pub fn step(&self) -> (res: u64)
        ensures
            res == self@.step.unwrap_or(ONE_BITS),
    {
        match self.step {
            Some(step) => step,
            None => ONE_BITS,
        }
    }

    pub fn len_chars(&self) -> (res: usize)
        ensures
            res == self@.value.len(),
    {
        self.value.as_str().unicode_len()
    }

    pub fn blink_visible(&self) -> (res: bool)
        ensures
            res == self@.blink_visible,
    {
        self.blink_visible
    }
}

/// What became of a text that was offered as the value of a number.
#[derive(Debug, PartialEq, Eq)]
pub enum TextCommit {
    /// The value stays.
    Unchanged,
    /// The text is no number and was taken over as it is.
    Changed,
    /// The text, without the white space around it, denotes a number. The
    /// value stays until [`InputState::set_numeric_value`] brings the text of
    /// that number within the bounds.
    Number(String),
}

impl InputState {
    /// When the caret's visibility last changed or an edit last showed it.
    pub closed spec fn last_blink(&self) -> u64 {
        self.last_blink
    }

    /// The present reading of the clock that times the caret's blinking.
    pub fn now(&self) -> (res: u64) {
        self.clock.now()
    }

    /// Shows the caret and starts its blink interval anew at the reading `now`.
    pub fn restart_blink(&mut self, now: u64)
        ensures
            timer_kept(*old(self), *final(self)),
            final(self)@ == old(self)@.touched(),
            final(self).last_blink() == now,
    {
        self.blink_visible = true;
        self.last_blink = now;
        self.restarts = Ghost(self.restarts@ + 1);
    }

    /// Shows the caret and starts its blink interval anew at the present
    /// reading.
    fn touch_blink_on(&mut self)
        ensures
            timer_kept(*old(self), *final(self)),
            final(self)@ == old(self)@.touched(),
    {
        let now: u64 = self.clock.now();
        self.restart_blink(now);
    }

    /// Flips the caret's visibility where a blink interval has passed since
    /// the last time. Returns whether it did.
    pub fn tick_blink(&mut self, now: u64) -> (res: bool)
        ensures
            res == (now - old(self).last_blink() >= BLINK_INTERVAL),
            res ==> final(self)@ == (InputModel {
                blink_visible: !old(self)@.blink_visible,
                ..old(self)@
            }),
            res ==> final(self).last_blink() == now,
            !res ==> *final(self) == *old(self),
    {
        if now >= self.last_blink && now - self.last_blink >= BLINK_INTERVAL {
            self.blink_visible = !self.blink_visible;
            self.last_blink = now;
            true
        } else {
            false
        }
    }

    /// The reading at which the next flip is due, at most the clock's last.
    pub fn next_blink_at(&self) -> (res: u64)
        ensures
            res == if self.last_blink() + BLINK_INTERVAL <= u64::MAX {
                self.last_blink() + BLINK_INTERVAL
            } else {
                u64::MAX as int
            },
    {
        self.last_blink.saturating_add(BLINK_INTERVAL)
    }

    pub fn set_name(&mut self, name: Option<String>)
        ensures
            timer_kept(*old(self), *final(self)),
            final(self)@ == (InputModel { name: text_view(name), ..old(self)@ }),
    {
        self.name = name;
    }

    pub fn set_placeholder(&mut self, placeholder: Option<String>)
        ensures
            timer_kept(*old(self), *final(self)),
            final(self)@ == (InputModel { placeholder: text_view(placeholder), ..old(self)@ }),
    {
        self.placeholder = placeholder;
    }

    pub fn set_masked(&mut self, masked: bool)
        ensures
            timer_kept(*old(self), *final(self)),
            final(self)@ == (InputModel { masked, ..old(self)@ }),
    {
        self.masked = masked;
    }

    pub fn set_readonly(&mut self, readonly: bool)
        ensures
            timer_kept(*old(self), *final(self)),
            final(self)@ == (InputModel { readonly, ..old(self)@ }),
    {
        self.readonly = readonly;
    }

    /// A disabled input loses its selection, and its caret returns to the
    /// start.
    pub fn set_disabled(&mut self, disabled: bool)
        ensures
            timer_kept(*old(self), *final(self)),
            final(self)@ == old(self)@.with_disabled(disabled),
    {
        self.disabled = disabled;
        if self.disabled {
            self.clear_selection();
            self.caret_chars = 0;
        }
    }

    pub fn set_checked(&mut self, checked: bool)
        ensures
            timer_kept(*old(self), *final(self)),
            final(self)@ == if old(self)@.checked != checked {
                (InputModel { checked, ..old(self)@ }).touched()
            } else {
                old(self)@
            },
    {
        if self.checked != checked {
            self.checked = checked;
            self.touch_blink_on();
        }
    }

    /// Flips the checked state, unless the input is disabled or read-only.
    pub fn toggle_checked(&mut self) -> (res: bool)
        ensures
            timer_kept(*old(self), *final(self)),
            res == (!old(self)@.disabled && !old(self)@.readonly),
            res ==> final(self)@ == (InputModel {
                checked: !old(self)@.checked,
                ..old(self)@
            }).touched(),
            !res ==> *final(self) == *old(self),
    {
        if self.disabled || self.readonly {
            return false;
        }
        let next = !self.checked;
        self.set_checked(next);
        true
    }

    pub fn set_min(&mut self, min: Option<u64>)
        ensures
            timer_kept(*old(self), *final(self)),
            final(self)@ == (InputModel { min, ..old(self)@ }).touched(),
    {
        self.min = min;
        self.touch_blink_on();
    }

    pub fn set_max(&mut self, max: Option<u64>)
        ensures
            timer_kept(*old(self), *final(self)),
            final(self)@ == (InputModel { max, ..old(self)@ }).touched(),
    {
        self.max = max;
        self.touch_blink_on();
    }

    /// Sets the step where it is above zero; otherwise there is none.
    pub fn set_step(&mut self, step: Option<u64>)
        ensures
            timer_kept(*old(self), *final(self)),
            final(self)@ == (InputModel {
                step: match step {
                    Some(bits) => if 0 < bits <= INFINITY_BITS {
                        Some(bits)
                    } else {
                        None
                    },
                    None => None,
                },
                ..old(self)@
            }).touched(),
    {
        self.step = match step {
            Some(bits) => if 0 < bits && bits <= INFINITY_BITS {
                Some(bits)
            } else {
                None
            },
            None => None,
        };
        self.touch_blink_on();
    }

    /// Gives a slider the bounds, the step and the value that it lacks.
    pub fn set_numeric_defaults(&mut self)
        ensures
            timer_kept(*old(self), *final(self)),
            final(self)@ == old(self)@.with_numeric_defaults(),
            old(self)@.wf() ==> final(self)@.wf(),
    {
        if self.input_type == InputType::Range {
            if self.min.is_none() {
                self.min = Some(ZERO_BITS);
            }
            if self.max.is_none() {
                self.max = Some(HUNDRED_BITS);
            }
            if self.step.is_none() {
                self.step = Some(ONE_BITS);
            }
            if self.value.as_str().is_empty() {
                self.value = "0".to_owned();
                self.caret_chars = self.len_chars();
            }
        }
    }

    /// Makes this an input of the type that `input_type` names.
    pub fn set_input_type(&mut self, input_type: &str)
        ensures
            timer_kept(*old(self), *final(self)),
            final(self)@ == old(self)@.with_kind(input_type_named(input_type@)),
            final(self)@.wf(),
    {
        let next = if text::eq_ignore_ascii_case(input_type, "password") {
            InputType::Password
        } else if text::eq_ignore_ascii_case(input_type, "checkbox") {
            InputType::Checkbox
        } else if text::eq_ignore_ascii_case(input_type, "radio") {
            InputType::Radio
        } else if text::eq_ignore_ascii_case(input_type, "range") {
            InputType::Range
        } else if text::eq_ignore_ascii_case(input_type, "number") {
            InputType::Number
        } else {
            InputType::Text
        };
        self.input_type = next;
        self.masked = matches!(next, InputType::Password);
        self.clear_selection();
        self.caret_chars = 0;
        if next == InputType::Range {
            self.set_numeric_defaults();
        }
        self.touch_blink_on();
    }

    /// Gives the input a value. Where the result is `true`, the input is a
    /// number, `value` is the text of one, and nothing has changed yet: the
    /// text of that number within the bounds is to be stored with
    /// [`InputState::store_number`].
    pub fn set_value(&mut self, value: &str) -> (pending: bool)
        ensures
            timer_kept(*old(self), *final(self)),
            pending == old(self)@.number_pending(value@),
            final(self)@ == old(self)@.given(value@),
            pending ==> *final(self) == *old(self),
            old(self)@.wf() ==> final(self)@.wf(),
    {
        if text::same(self.value.as_str(), value) {
            return false;
        }
        match self.input_type {
            InputType::Checkbox | InputType::Radio => {
                self.value = value.to_owned();
            },
            InputType::Range | InputType::Number => {
                if !value.is_empty() && text::is_number_text(value) {
                    return true;
                }
                self.value = value.to_owned();
                self.caret_chars = self.len_chars();
            },
            _ => {
                self.value = value.to_owned();
                self.caret_chars = self.len_chars();
            },
        }
        self.clear_selection();
        self.touch_blink_on();
        false
    }

    /// Puts a value in place of what is there, with the caret at its end, also
    /// where it is the same. The result is that of [`InputState::set_value`].
    pub fn put_value(&mut self, value: &str) -> (pending: bool)
        ensures
            timer_kept(*old(self), *final(self)),
            pending == old(self)@.number_pending(value@),
            final(self)@ == old(self)@.put(value@),
            pending ==> *final(self) == *old(self),
            old(self)@.wf() ==> final(self)@.wf(),
    {
        if !self.is_checked_like() && text::same(self.value.as_str(), value) {
            self.caret_chars = self.len_chars();
            self.clear_selection();
            self.touch_blink_on();
            return false;
        }
        self.set_value(value)
    }

    /// Stores the text of a number as the value.
    pub fn store_number(&mut self, number: &str)
        ensures
            timer_kept(*old(self), *final(self)),
            final(self)@ == old(self)@.with_value(number@),
            final(self)@.wf(),
    {
        self.value = number.to_owned();
        self.caret_chars = self.len_chars();
        self.clear_selection();
        self.touch_blink_on();
    }

    /// Takes over the text of a number, within the bounds already. Returns
    /// whether it differs from the value.
    pub fn set_numeric_value(&mut self, number: &str) -> (res: bool)
        ensures
            timer_kept(*old(self), *final(self)),
            res == (number@ != old(self)@.value),
            res ==> final(self)@ == old(self)@.with_value(number@),
            !res ==> *final(self) == *old(self),
            old(self)@.wf() ==> final(self)@.wf(),
    {
        if text::same(self.value.as_str(), number) {
            return false;
        }
        self.store_number(number);
        true
    }

    /// Takes over a number as it is being typed. Returns whether the value
    /// changed.
    pub fn commit_numeric_preview(&mut self, preview: &str) -> (res: bool)
        ensures
            timer_kept(*old(self), *final(self)),
            res == (!old(self)@.readonly && !old(self)@.disabled && text::number_text(preview@)
                && preview@ != old(self)@.value),
            res ==> final(self)@ == old(self)@.with_value(preview@),
            !res ==> *final(self) == *old(self),
            old(self)@.wf() ==> final(self)@.wf(),
    {
        if self.readonly || self.disabled {
            return false;
        }
        if !text::is_number_text(preview) {
            return false;
        }
        self.set_numeric_value(preview)
    }

    /// Takes over a text as the value of a number. A text with a digit that
    /// is otherwise what may be typed on the way to a number denotes one.
    pub fn set_numeric_value_from_text(&mut self, text: &str) -> (res: TextCommit)
        ensures
            timer_kept(*old(self), *final(self)),
            ({
                let value = text::trimmed(text@);
                let open = !old(self)@.readonly && !old(self)@.disabled && value.len() > 0;
                let number = text::number_text(value) && text::has_digit(value);
                match res {
                    TextCommit::Unchanged => {
                        &&& !open || (!number && value == old(self)@.value)
                        &&& *final(self) == *old(self)
                    },
                    TextCommit::Changed => {
                        &&& open && !number && value != old(self)@.value
                        &&& final(self)@ == old(self)@.with_value(value)
                    },
                    TextCommit::Number(taken) => {
                        &&& open && number && taken@ == value
                        &&& *final(self) == *old(self)
                    },
                }
            }),
            old(self)@.wf() ==> final(self)@.wf(),
    {
        if self.readonly || self.disabled {
            return TextCommit::Unchanged;
        }
        let value = text::trim(text);
        if value.is_empty() {
            return TextCommit::Unchanged;
        }
        if text::is_number_text(value) && text::contains_digit(value) {
            return TextCommit::Number(value.to_owned());
        }
        if self.set_numeric_value(value) {
            TextCommit::Changed
        } else {
            TextCommit::Unchanged
        }
    }

    /// Takes over a text as the value of a slider; an input of another type
    /// stays as it is.
    pub fn update_range_value(&mut self, raw: &str) -> (res: TextCommit)
        ensures
            timer_kept(*old(self), *final(self)),
            ({
                let value = text::trimmed(raw@);
                let open = old(self)@.kind is Range && !old(self)@.readonly && !old(
                    self,
                )@.disabled && value.len() > 0;
                let number = text::number_text(value) && text::has_digit(value);
                match res {
                    TextCommit::Unchanged => {
                        &&& !open || (!number && value == old(self)@.value)
                        &&& *final(self) == *old(self)
                    },
                    TextCommit::Changed => {
                        &&& open && !number && value != old(self)@.value
                        &&& final(self)@ == old(self)@.with_value(value)
                    },
                    TextCommit::Number(taken) => {
                        &&& open && number && taken@ == value
                        &&& *final(self) == *old(self)
                    },
                }
            }),
            old(self)@.wf() ==> final(self)@.wf(),
    {
        if self.input_type == InputType::Range {
            self.set_numeric_value_from_text(raw)
        } else {
            TextCommit::Unchanged
        }
    }

    fn clear_selection(&mut self)
        ensures
            timer_kept(*old(self), *final(self)),
            final(self)@ == (InputModel { anchor: None, ..old(self)@ }),
            final(self).value == old(self).value,
            final(self).caret_chars == old(self).caret_chars,
    {
        self.selection_anchor_chars = None;
    }
}

/// The operations of typing and moving. Each is `None` where it has nothing
/// to do.
impl InputModel {
    /// A text typed or pasted: it takes the place of the selection.
    pub open spec fn typing(self, text: Seq<char>) -> Option<InputModel> {
        if self.editable() && text.len() > 0 {
            Some(self.typed(text))
        } else {
            None
        }
    }

    /// Removal of the selection, where there is one.
    pub open spec fn clearing(self) -> Option<InputModel> {
        if self.editable() && self.has_selection() {
            Some(self.without_selection().touched())
        } else {
            None
        }
    }

    /// Removal of the characters from `start` to `end`, unless a selection is
    /// there to be removed in their place.
    pub open spec fn removing(self, start: int, end: int) -> Option<InputModel> {
        if self.has_selection() {
            self.clearing()
        } else if self.editable() && start != end {
            Some(self.replaced(start, end, Seq::empty()).touched())
        } else {
            None
        }
    }

    pub open spec fn backspacing(self) -> Option<InputModel> {
        self.removing(
            if self.caret > 0 {
                self.caret - 1
            } else {
                0
            },
            self.caret,
        )
    }

    pub open spec fn deleting(self) -> Option<InputModel> {
        self.removing(
            self.caret,
            if self.caret < self.value.len() {
                self.caret + 1
            } else {
                self.caret
            },
        )
    }

    pub open spec fn deleting_word_left(self) -> Option<InputModel> {
        self.removing(word_left(self.value, self.caret), self.caret)
    }

    pub open spec fn deleting_word_right(self) -> Option<InputModel> {
        self.removing(self.caret, word_right(self.value, self.caret))
    }

    /// One character to the left; without extending, to the start of a
    /// selection.
    pub open spec fn going_left(self, extend: bool) -> Option<InputModel> {
        if !self.navigable() {
            None
        } else if !extend && self.has_selection() {
            Some(self.moved(self.sel_start(), false))
        } else if self.caret > 0 {
            Some(self.moved(self.caret - 1, extend))
        } else {
            None
        }
    }

    /// One character to the right; without extending, to the end of a
    /// selection.
    pub open spec fn going_right(self, extend: bool) -> Option<InputModel> {
        if !self.navigable() {
            None
        } else if !extend && self.has_selection() {
            Some(self.moved(self.sel_end(), false))
        } else if self.caret < self.value.len() {
            Some(self.moved(self.caret + 1, extend))
        } else {
            None
        }
    }

    /// To `to`, one of the ends, unless the caret is there already and no
    /// selection is being extended.
    pub open spec fn going_to(self, to: int, extend: bool) -> Option<InputModel> {
        if self.navigable() && (self.caret != to || (extend && self.has_selection())) {
            Some(self.moved(to, extend))
        } else {
            None
        }
    }

    pub open spec fn going_home(self, extend: bool) -> Option<InputModel> {
        self.going_to(0, extend)
    }

    pub open spec fn going_to_end(self, extend: bool) -> Option<InputModel> {
        self.going_to(self.value.len() as int, extend)
    }

    pub open spec fn going_word_left(self, extend: bool) -> Option<InputModel> {
        let to = word_left(self.value, self.caret);
        if self.navigable() && to != self.caret {
            Some(self.moved(to, extend))
        } else {
            None
        }
    }

    pub open spec fn going_word_right(self, extend: bool) -> Option<InputModel> {
        let to = word_right(self.value, self.caret);
        if self.navigable() && to != self.caret {
            Some(self.moved(to, extend))
        } else {
            None
        }
    }

    /// Selection of the whole value, unless it is empty or selected already.
    pub open spec fn selecting_all(self) -> Option<InputModel> {
        let len = self.value.len() as int;
        if self.editable() && len > 0 && !(self.anchor == Some(0int) && self.caret == len) {
            Some((InputModel { anchor: Some(0), caret: len, ..self }).touched())
        } else {
            None
        }
    }
}

impl InputModel {
    /// What a character typed into a number leads to: `Some` with the new
    /// state where it fits, `None` where only the selection is removed. A
    /// minus sign fits at the very start of a value without one.
    pub open spec fn typed_into_number(self, c: char) -> Option<InputModel> {
        let rest = self.without_selection();
        let at = if rest.caret <= rest.value.len() {
            rest.caret
        } else {
            rest.value.len() as int
        };
        let next = text::spliced(rest.value, at, at, seq![c]);
        let fits = c == '-' ==> rest.caret == 0 && !rest.value.contains('-');
        if fits && text::number_text(next) {
            Some(
                (InputModel { value: next, caret: rest.caret + 1, anchor: None, ..rest }).touched(),
            )
        } else {
            None
        }
    }

    /// The characters of which numbers are typed.
    pub open spec fn number_char(c: char) -> bool {
        text::is_digit(c) || c == '.' || c == '-'
    }

    /// Where text goes that is put into a number: behind the characters that
    /// stay before the caret.
    pub open spec fn number_insertion_point(self) -> int {
        let rest = self.without_selection();
        if rest.caret <= rest.value.len() {
            rest.caret
        } else {
            rest.value.len() as int
        }
    }
}

impl InputState {
    pub fn selection_start(&self) -> (res: usize)
        ensures
            res == self@.sel_start(),
    {
        let (start, _) = self.selection_range();
        start
    }

    pub fn selection_end(&self) -> (res: usize)
        ensures
            res == self@.sel_end(),
    {
        let (_, end) = self.selection_range();
        end
    }

    /// The selection as byte offsets into the value.
    pub fn selection_byte_range(&self) -> (res: (usize, usize))
        ensures
            res.0 == text::byte_offset(self@.value, self@.sel_start()),
            res.1 == text::byte_offset(self@.value, self@.sel_end()),
    {
        let (start, end) = self.selection_range();
        (self.byte_index_of(start), self.byte_index_of(end))
    }

    pub fn has_selection(&self) -> (res: bool)
        ensures
            res == self@.has_selection(),
    {
        match self.selection_anchor_chars {
            Some(anchor) => anchor != self.caret_chars,
            None => false,
        }
    }

    pub fn selected_text(&self) -> (res: Option<String>)
        requires
            self@.wf(),
        ensures
            text_view(res) == if self@.has_selection() {
                Some(self@.value.subrange(self@.sel_start(), self@.sel_end()))
            } else {
                None
            },
    {
        let (start, end) = self.selection_range();
        if start == end {
            None
        } else {
            Some(self.value.as_str().substring_char(start, end).to_owned())
        }
    }

    /// The byte offset of the caret in the value.
    pub fn caret_byte_index(&self) -> (res: usize)
        ensures
            res == text::byte_offset(self@.value, self@.caret),
    {
        self.byte_index_of(self.caret_chars)
    }

    fn byte_index_of(&self, char_idx: usize) -> (res: usize)
        ensures
            res == text::byte_offset(self@.value, char_idx as int),
    {
        text::char_index_to_byte_index(self.value.as_str(), char_idx)
    }

    fn selection_range(&self) -> (res: (usize, usize))
        ensures
            res.0 == self@.sel_start(),
            res.1 == self@.sel_end(),
            res.0 <= res.1,
            (res.0 == res.1) == !self@.has_selection(),
    {
        match self.selection_anchor_chars {
            Some(anchor) => if anchor < self.caret_chars {
                (anchor, self.caret_chars)
            } else {
                (self.caret_chars, anchor)
            },
            None => (self.caret_chars, self.caret_chars),
        }
    }

    /// Puts `text` in place of the characters from `start` to `end`.
    fn replace(&mut self, start: usize, end: usize, text: &str)
        requires
            start <= end <= old(self)@.value.len(),
        ensures
            timer_kept(*old(self), *final(self)),
            final(self)@ == old(self)@.replaced(start as int, end as int, text@),
            final(self)@.wf(),
    {
        let tail: usize = self.len_chars() - end;
        self.value = text::splice(self.value.as_str(), start, end, text);
        let len: usize = self.len_chars();
        self.caret_chars = len - tail;
        self.clear_selection();
    }

    fn delete_selection_inner(&mut self) -> (res: bool)
        requires
            old(self)@.wf(),
        ensures
            timer_kept(*old(self), *final(self)),
            res == old(self)@.has_selection(),
            final(self)@ == old(self)@.without_selection(),
            !res ==> *final(self) == *old(self),
            final(self)@.wf(),
    {
        let (start, end) = self.selection_range();
        if start == end {
            return false;
        }
        self.replace(start, end, "");
        proof {
            reveal_strlit("");
            assert(""@ =~= Seq::<char>::empty());
        }
        true
    }

    /// Types one character. Returns whether it was taken.
    pub fn insert(&mut self, ch: char) -> (res: bool)
        requires
            old(self)@.wf(),
        ensures
            timer_kept(*old(self), *final(self)),
            res == (old(self)@.typing(seq![ch]) is Some),
            res ==> final(self)@ == old(self)@.typing(seq![ch])->0,
            !res ==> *final(self) == *old(self),
            final(self)@.wf(),
    {
        if self.readonly || self.disabled || !self.input_type.is_text_like() {
            return false;
        }
        let (start, end) = self.selection_range();
        let typed = text::from_char(ch);
        self.replace(start, end, typed.as_str());
        self.touch_blink_on();
        true
    }

    /// Puts a text in at once, as a paste does. Returns whether it was taken.
    pub fn insert_str(&mut self, s: &str) -> (res: bool)
        requires
            old(self)@.wf(),
        ensures
            timer_kept(*old(self), *final(self)),
            res == (old(self)@.typing(s@) is Some),
            res ==> final(self)@ == old(self)@.typing(s@)->0,
            !res ==> *final(self) == *old(self),
            final(self)@.wf(),
    {
        if self.readonly || self.disabled || !self.input_type.is_text_like() || s.is_empty() {
            return false;
        }
        let (start, end) = self.selection_range();
        self.replace(start, end, s);
        self.touch_blink_on();
        true
    }

    /// Removes the selection, or else the character before the caret.
    pub fn backspace(&mut self) -> (res: bool)
        requires
            old(self)@.wf(),
        ensures
            timer_kept(*old(self), *final(self)),
            res == (old(self)@.backspacing() is Some),
            res ==> final(self)@ == old(self)@.backspacing()->0,
            !res ==> *final(self) == *old(self),
            final(self)@.wf(),
    {
        if self.readonly || self.disabled || !self.input_type.is_text_like() {
            return false;
        }
        if self.delete_selection_inner() {
            self.touch_blink_on();
            return true;
        }
        if self.caret_chars == 0 {
            return false;
        }
        let caret: usize = self.caret_chars;
        self.replace(caret - 1, caret, "");
        proof {
            reveal_strlit("");
            assert(""@ =~= Seq::<char>::empty());
        }
        self.touch_blink_on();
        true
    }

    /// Removes the selection, or else the character at the caret.
    pub fn delete_forward(&mut self) -> (res: bool)
        requires
            old(self)@.wf(),
        ensures
            timer_kept(*old(self), *final(self)),
            res == (old(self)@.deleting() is Some),
            res ==> final(self)@ == old(self)@.deleting()->0,
            !res ==> *final(self) == *old(self),
            final(self)@.wf(),
    {
        if self.readonly || self.disabled || !self.input_type.is_text_like() {
            return false;
        }
        if self.delete_selection_inner() {
            self.touch_blink_on();
            return true;
        }
        if self.caret_chars >= self.len_chars() {
            return false;
        }
        let caret: usize = self.caret_chars;
        self.replace(caret, caret + 1, "");
        proof {
            reveal_strlit("");
            assert(""@ =~= Seq::<char>::empty());
        }
        self.touch_blink_on();
        true
    }

    /// Removes the selection. Returns whether there was one to remove.
    pub fn delete_selection(&mut self) -> (res: bool)
        requires
            old(self)@.wf(),
        ensures
            timer_kept(*old(self), *final(self)),
            res == (old(self)@.clearing() is Some),
            res ==> final(self)@ == old(self)@.clearing()->0,
            !res ==> *final(self) == *old(self),
            final(self)@.wf(),
    {
        if self.readonly || self.disabled || !self.input_type.is_text_like() {
            return false;
        }
        if self.delete_selection_inner() {
            self.touch_blink_on();
            true
        } else {
            false
        }
    }

    /// Types one character into a number. The selection goes even where the
    /// character does not fit; the result tells whether it did.
    pub fn insert_numeric_char(&mut self, ch: char) -> (res: bool)
        requires
            old(self)@.wf(),
            old(self)@.kind.checked_like() ==> old(self)@.caret < usize::MAX,
        ensures
            timer_kept(*old(self), *final(self)),
            ({
                let open = !old(self)@.readonly && !old(self)@.disabled && InputModel::number_char(
                    ch,
                );
                &&& res == (open && old(self)@.typed_into_number(ch) is Some)
                &&& res ==> final(self)@ == old(self)@.typed_into_number(ch)->0
                &&& open && !res ==> final(self)@ == old(self)@.selection_dropped()
                &&& !open ==> *final(self) == *old(self)
            }),
            final(self)@.wf(),
    {
        if self.readonly || self.disabled {
            return false;
        }
        let digit = '0' <= ch && ch <= '9';
        if !(digit || ch == '.' || ch == '-') {
            return false;
        }
        let dropped = self.delete_selection_inner();
        if ch == '-' && (self.caret_chars != 0 || text::contains_char(self.value.as_str(), '-')) {
            if dropped {
                self.touch_blink_on();
            }
            return false;
        }
        let len: usize = self.len_chars();
        let at: usize = if self.caret_chars <= len {
            self.caret_chars
        } else {
            len
        };
        let typed = text::from_char(ch);
        let next = text::splice(self.value.as_str(), at, at, typed.as_str());
        if !text::is_number_text(next.as_str()) {
            if dropped {
                self.touch_blink_on();
            }
            return false;
        }
        let next_len: usize = next.as_str().unicode_len();
        assert(next_len == len + 1);
        self.value = next;
        self.caret_chars += 1;
        self.clear_selection();
        self.touch_blink_on();
        true
    }

    /// Puts a text into a number at once. The selection goes even where the
    /// result is `false`. Whether the text fits is judged with the selected
    /// characters still in place.
    pub fn insert_numeric_str(&mut self, text: &str) -> (res: bool)
        requires
            old(self)@.wf(),
            old(self)@.kind.checked_like() ==> old(self)@.caret + text@.len() <= usize::MAX,
        ensures
            timer_kept(*old(self), *final(self)),
            ({
                let open = !old(self)@.readonly && !old(self)@.disabled;
                let at = old(self)@.number_insertion_point();
                let rest = old(self)@.without_selection();
                &&& res == (open && text::number_text(
                    text::spliced(old(self)@.value, at, at, text@),
                ))
                &&& res ==> final(self)@ == (InputModel {
                    value: text::spliced(rest.value, at, at, text@),
                    caret: rest.caret + text@.len() as int,
                    anchor: None,
                    ..rest
                }).touched()
                &&& open && !res ==> final(self)@ == old(self)@.selection_dropped()
                &&& !open ==> *final(self) == *old(self)
            }),
            final(self)@.wf(),
    {
        if self.readonly || self.disabled {
            return false;
        }
        let before = self.value.clone();
        let dropped = self.delete_selection_inner();
        let len: usize = self.len_chars();
        let at: usize = if self.caret_chars <= len {
            self.caret_chars
        } else {
            len
        };
        let preview = text::splice(before.as_str(), at, at, text);
        if !text::is_number_text(preview.as_str()) {
            if dropped {
                self.touch_blink_on();
            }
            return false;
        }
        let added: usize = text.unicode_len();
        self.value = text::splice(self.value.as_str(), at, at, text);
        let next_len: usize = self.len_chars();
        assert(next_len == len + added);
        self.caret_chars += added;
        self.clear_selection();
        self.touch_blink_on();
        true
    }
}

fn char_is_word(c: char) -> (res: bool)
    ensures
        res == is_word(c),
{
    c.is_alphanumeric() || c == '_'
}

fn skip_back(chars: &Vec<char>, from: usize, word: bool) -> (res: usize)
    requires
        from <= chars.len(),
    ensures
        res == back_over(chars@, from as int, word),
        res <= from,
{
    let mut i: usize = from;
    while i > 0 && char_is_word(chars[i - 1]) == word
        invariant
            i <= from <= chars.len(),
            back_over(chars@, i as int, word) == back_over(chars@, from as int, word),
        decreases i,
    {
        i -= 1;
    }
    i
}

fn skip_on(chars: &Vec<char>, from: usize, word: bool) -> (res: usize)
    requires
        from <= chars.len(),
    ensures
        res == on_over(chars@, from as int, word),
        from <= res <= chars.len(),
{
    let mut i: usize = from;
    while i < chars.len() && char_is_word(chars[i]) == word
        invariant
            from <= i <= chars.len(),
            on_over(chars@, i as int, word) == on_over(chars@, from as int, word),
        decreases chars.len() - i,
    {
        i += 1;
    }
    i
}

impl InputState {
    /// Puts the caret at `to`, with or without extending the selection.
    fn move_to(&mut self, to: usize, extend: bool)
        requires
            old(self)@.wf(),
            old(self)@.kind.text_like(),
            to <= old(self)@.value.len(),
        ensures
            timer_kept(*old(self), *final(self)),
            final(self)@ == old(self)@.moved(to as int, extend),
            final(self)@.wf(),
    {
        if extend {
            if self.selection_anchor_chars.is_none() {
                self.selection_anchor_chars = Some(self.caret_chars);
            }
        } else {
            self.clear_selection();
        }
        self.caret_chars = to;
        self.touch_blink_on();
    }

    /// Moves the caret one character to the left, or to the start of the
    /// selection. Returns whether it could be moved.
    pub fn move_left(&mut self) -> (res: bool)
        requires
            old(self)@.wf(),
        ensures
            timer_kept(*old(self), *final(self)),
            res == (old(self)@.going_left(false) is Some),
            res ==> final(self)@ == old(self)@.going_left(false)->0,
            !res ==> *final(self) == *old(self),
            final(self)@.wf(),
    {
        self.move_left_extending(false)
    }

    /// Moves the caret one character to the left, with the selection where
    /// `extend` says so. Returns whether it could be moved.
    pub fn move_left_extending(&mut self, extend: bool) -> (res: bool)
        requires
            old(self)@.wf(),
        ensures
            timer_kept(*old(self), *final(self)),
            res == (old(self)@.going_left(extend) is Some),
            res ==> final(self)@ == old(self)@.going_left(extend)->0,
            !res ==> *final(self) == *old(self),
            final(self)@.wf(),
    {
        if self.disabled || !self.input_type.is_text_like() {
            return false;
        }
        if !extend && self.has_selection() {
            let start: usize = self.selection_start();
            self.move_to(start, false);
            return true;
        }
        if self.caret_chars == 0 {
            return false;
        }
        let to: usize = self.caret_chars - 1;
        self.move_to(to, extend);
        true
    }

    /// Moves the caret one character to the right, or to the end of the
    /// selection. Returns whether it could be moved.
    pub fn move_right(&mut self) -> (res: bool)
        requires
            old(self)@.wf(),
        ensures
            timer_kept(*old(self), *final(self)),
            res == (old(self)@.going_right(false) is Some),
            res ==> final(self)@ == old(self)@.going_right(false)->0,
            !res ==> *final(self) == *old(self),
            final(self)@.wf(),
    {
        self.move_right_extending(false)
    }

    /// Moves the caret one character to the right, with the selection where
    /// `extend` says so. Returns whether it could be moved.
    pub fn move_right_extending(&mut self, extend: bool) -> (res: bool)
        requires
            old(self)@.wf(),
        ensures
            timer_kept(*old(self), *final(self)),
            res == (old(self)@.going_right(extend) is Some),
            res ==> final(self)@ == old(self)@.going_right(extend)->0,
            !res ==> *final(self) == *old(self),
            final(self)@.wf(),
    {
        if self.disabled || !self.input_type.is_text_like() {
            return false;
        }
        if !extend && self.has_selection() {
            let end: usize = self.selection_end();
            self.move_to(end, false);
            return true;
        }
        let len: usize = self.len_chars();
        if self.caret_chars >= len {
            return false;
        }
        let to: usize = self.caret_chars + 1;
        self.move_to(to, extend);
        true
    }

    /// Moves the caret to the start. Returns whether it was elsewhere.
    pub fn move_home(&mut self) -> (res: bool)
        requires
            old(self)@.wf(),
        ensures
            timer_kept(*old(self), *final(self)),
            res == (old(self)@.going_home(false) is Some),
            res ==> final(self)@ == old(self)@.going_home(false)->0,
            !res ==> *final(self) == *old(self),
            final(self)@.wf(),
    {
        self.move_home_extending(false)
    }

    /// Moves the caret to the start, with the selection where `extend` says
    /// so. Returns `false` where the caret is there already, unless a
    /// selection is being extended.
    pub fn move_home_extending(&mut self, extend: bool) -> (res: bool)
        requires
            old(self)@.wf(),
        ensures
            timer_kept(*old(self), *final(self)),
            res == (old(self)@.going_home(extend) is Some),
            res ==> final(self)@ == old(self)@.going_home(extend)->0,
            !res ==> *final(self) == *old(self),
            final(self)@.wf(),
    {
        if self.disabled || !self.input_type.is_text_like() {
            return false;
        }
        if self.caret_chars == 0 && (!extend || !self.has_selection()) {
            return false;
        }
        self.move_to(0, extend);
        true
    }

    /// Moves the caret to the end. Returns whether it was elsewhere.
    pub fn move_end(&mut self) -> (res: bool)
        requires
            old(self)@.wf(),
        ensures
            timer_kept(*old(self), *final(self)),
            res == (old(self)@.going_to_end(false) is Some),
            res ==> final(self)@ == old(self)@.going_to_end(false)->0,
            !res ==> *final(self) == *old(self),
            final(self)@.wf(),
    {
        self.move_end_extending(false)
    }

    /// Moves the caret to the end, with the selection where `extend` says so.
    /// Returns `false` where the caret is there already, unless a selection
    /// is being extended.
    pub fn move_end_extending(&mut self, extend: bool) -> (res: bool)
        requires
            old(self)@.wf(),
        ensures
            timer_kept(*old(self), *final(self)),
            res == (old(self)@.going_to_end(extend) is Some),
            res ==> final(self)@ == old(self)@.going_to_end(extend)->0,
            !res ==> *final(self) == *old(self),
            final(self)@.wf(),
    {
        if self.disabled || !self.input_type.is_text_like() {
            return false;
        }
        let end: usize = self.len_chars();
        if self.caret_chars == end && (!extend || !self.has_selection()) {
            return false;
        }
        self.move_to(end, extend);
        true
    }

    /// Moves the caret to the start of the word before it, with the selection
    /// where `extend` says so. Returns whether the caret moved.
    pub fn move_word_left_extending(&mut self, extend: bool) -> (res: bool)
        requires
            old(self)@.wf(),
        ensures
            timer_kept(*old(self), *final(self)),
            res == (old(self)@.going_word_left(extend) is Some),
            res ==> final(self)@ == old(self)@.going_word_left(extend)->0,
            !res ==> *final(self) == *old(self),
            final(self)@.wf(),
    {
        if self.disabled || !self.input_type.is_text_like() {
            return false;
        }
        let to: usize = self.word_start_before();
        if to == self.caret_chars {
            return false;
        }
        self.move_to(to, extend);
        true
    }

    /// Moves the caret to the end of the word behind it, with the selection
    /// where `extend` says so. Returns whether the caret moved.
    pub fn move_word_right_extending(&mut self, extend: bool) -> (res: bool)
        requires
            old(self)@.wf(),
        ensures
            timer_kept(*old(self), *final(self)),
            res == (old(self)@.going_word_right(extend) is Some),
            res ==> final(self)@ == old(self)@.going_word_right(extend)->0,
            !res ==> *final(self) == *old(self),
            final(self)@.wf(),
    {
        if self.disabled || !self.input_type.is_text_like() {
            return false;
        }
        let to: usize = self.word_end_behind();
        if to == self.caret_chars {
            return false;
        }
        self.move_to(to, extend);
        true
    }

    fn word_start_before(&self) -> (res: usize)
        requires
            self@.caret <= self@.value.len(),
        ensures
            res == word_left(self@.value, self@.caret),
            res <= self@.caret,
    {
        let chars = text::chars_of(self.value.as_str());
        let gap: usize = skip_back(&chars, self.caret_chars, false);
        skip_back(&chars, gap, true)
    }

    fn word_end_behind(&self) -> (res: usize)
        requires
            self@.caret <= self@.value.len(),
        ensures
            res == word_right(self@.value, self@.caret),
            self@.caret <= res <= self@.value.len(),
    {
        let chars = text::chars_of(self.value.as_str());
        let gap: usize = skip_on(&chars, self.caret_chars, false);
        skip_on(&chars, gap, true)
    }

    /// Removes the selection, or else the characters back to the start of the
    /// word before the caret.
    pub fn delete_word_left(&mut self) -> (res: bool)
        requires
            old(self)@.wf(),
        ensures
            timer_kept(*old(self), *final(self)),
            res == (old(self)@.deleting_word_left() is Some),
            res ==> final(self)@ == old(self)@.deleting_word_left()->0,
            !res ==> *final(self) == *old(self),
            final(self)@.wf(),
    {
        if self.readonly || self.disabled || !self.input_type.is_text_like() {
            return false;
        }
        if self.delete_selection_inner() {
            self.touch_blink_on();
            return true;
        }
        let caret: usize = self.caret_chars;
        let from: usize = self.word_start_before();
        if from == caret {
            return false;
        }
        self.replace(from, caret, "");
        proof {
            reveal_strlit("");
            assert(""@ =~= Seq::<char>::empty());
        }
        self.touch_blink_on();
        true
    }

    /// Removes the selection, or else the characters up to the end of the
    /// word behind the caret.
    pub fn delete_word_right(&mut self) -> (res: bool)
        requires
            old(self)@.wf(),
        ensures
            timer_kept(*old(self), *final(self)),
            res == (old(self)@.deleting_word_right() is Some),
            res ==> final(self)@ == old(self)@.deleting_word_right()->0,
            !res ==> *final(self) == *old(self),
            final(self)@.wf(),
    {
        if self.readonly || self.disabled || !self.input_type.is_text_like() {
            return false;
        }
        if self.delete_selection_inner() {
            self.touch_blink_on();
            return true;
        }
        let caret: usize = self.caret_chars;
        let to: usize = self.word_end_behind();
        if to == caret {
            return false;
        }
        self.replace(caret, to, "");
        proof {
            reveal_strlit("");
            assert(""@ =~= Seq::<char>::empty());
        }
        self.touch_blink_on();
        true
    }

    /// Puts the caret at the end, with nothing selected.
    pub fn place_caret_at_end(&mut self)
        requires
            old(self)@.wf(),
        ensures
            timer_kept(*old(self), *final(self)),
            final(self)@ == old(self)@.caret_at_end(),
            final(self)@.wf(),
    {
        if self.disabled || !self.input_type.is_text_like() {
            return ;
        }
        let len: usize = self.len_chars();
        self.move_to(len, false);
    }

    /// Puts the caret before the character at `char_idx`, or at the end where
    /// there is no such character, with nothing selected.
    pub fn place_caret(&mut self, char_idx: usize)
        requires
            old(self)@.wf(),
        ensures
            timer_kept(*old(self), *final(self)),
            final(self)@ == old(self)@.caret_placed(char_idx as int),
            final(self)@.wf(),
    {
        if self.disabled || !self.input_type.is_text_like() {
            return ;
        }
        let len: usize = self.len_chars();
        let to: usize = if char_idx <= len {
            char_idx
        } else {
            len
        };
        self.move_to(to, false);
    }

    /// Selects from `anchor` to `focus`, where the caret goes. Positions
    /// behind the end count as the end.
    pub fn set_selection(&mut self, anchor: usize, focus: usize)
        ensures
            timer_kept(*old(self), *final(self)),
            final(self)@ == old(self)@.selected(anchor as int, focus as int),
            old(self)@.wf() ==> final(self)@.wf(),
    {
        if !self.input_type.is_text_like() {
            return ;
        }
        let len: usize = self.len_chars();
        let from: usize = if anchor <= len {
            anchor
        } else {
            len
        };
        let to: usize = if focus <= len {
            focus
        } else {
            len
        };
        self.caret_chars = to;
        self.selection_anchor_chars = if from != to {
            Some(from)
        } else {
            None
        };
        self.touch_blink_on();
    }

    /// Selects the whole value. Returns whether that changed anything.
    pub fn select_all(&mut self) -> (res: bool)
        requires
            old(self)@.wf(),
        ensures
            timer_kept(*old(self), *final(self)),
            res == (old(self)@.selecting_all() is Some),
            res ==> final(self)@ == old(self)@.selecting_all()->0,
            !res ==> *final(self) == *old(self),
            final(self)@.wf(),
    {
        if self.readonly || self.disabled || !self.input_type.is_text_like() {
            return false;
        }
        let len: usize = self.len_chars();
        let from_start = match self.selection_anchor_chars {
            Some(anchor) => anchor == 0,
            None => false,
        };
        if len == 0 || (from_start && self.caret_chars == len) {
            return false;
        }
        self.selection_anchor_chars = Some(0);
        self.caret_chars = len;
        self.touch_blink_on();
        true
    }

    /// The first character that begins at or behind the byte offset
    /// `byte_idx`; the length where there is none.
    pub fn char_index_for_byte(&self, byte_idx: usize) -> (res: usize)
        ensures
            res <= self@.value.len(),
            forall|i: int|
                0 <= i < res ==> #[trigger] text::byte_offset(self@.value, i) < byte_idx,
            res < self@.value.len() ==> text::byte_offset(self@.value, res as int) >= byte_idx,
    {
        let len: usize = self.len_chars();
        let mut idx: usize = 0;
        while idx < len && self.byte_index_of(idx) < byte_idx
            invariant
                idx <= len,
                len == self@.value.len(),
                forall|i: int|
                    0 <= i < idx ==> #[trigger] text::byte_offset(self@.value, i) < byte_idx,
            decreases len - idx,
        {
            idx += 1;
        }
        idx
    }

    /// The word around the character at `char_idx`, or around the last
    /// character where there is none there. A character that is part of no
    /// word stands alone.
    pub fn word_range_at(&self, char_idx: usize) -> (res: Option<(usize, usize)>)
        ensures
            ({
                let s = self@.value;
                let at = if char_idx < s.len() { char_idx as int } else { s.len() - 1 };
                match res {
                    None => s.len() == 0,
                    Some((start, end)) => {
                        &&& s.len() > 0
                        &&& !is_word(s[at]) ==> start == at && end == at + 1
                        &&& is_word(s[at]) ==> start == back_over(s, at, true) && end == on_over(
                            s,
                            at + 1,
                            true,
                        )
                    },
                }
            }),
    {
        let chars = text::chars_of(self.value.as_str());
        let len: usize = chars.len();
        if len == 0 {
            return None;
        }
        let at: usize = if char_idx < len {
            char_idx
        } else {
            len - 1
        };
        if !char_is_word(chars[at]) {
            return Some((at, at + 1));
        }
        let start: usize = skip_back(&chars, at, true);
        let end: usize = skip_on(&chars, at + 1, true);
        Some((start, end))
    }

    /// Whether bullets are shown in place of the value.
    pub fn shows_bullets(&self) -> (res: bool)
        ensures
            res == self@.shows_bullets(),
    {
        (self.masked || self.input_type == InputType::Password)
            && !self.input_type.is_checked_like()
    }

    /// The text that stands for the state of the input.
    pub fn display(&self) -> (res: String)
        ensures
            res@ == self@.display(),
    {
        if self.shows_bullets() {
            let res = bullets(self.len_chars());
            assert(res@ =~= self@.display());
            return res;
        }
        match self.input_type {
            InputType::Checkbox => if self.checked {
                "true".to_owned()
            } else {
                "false".to_owned()
            },
            InputType::Radio => if self.checked {
                "on".to_owned()
            } else {
                "off".to_owned()
            },
            _ => self.value.clone(),
        }
    }

    /// The text shown inside the input, focused or not, and whether that is
    /// the placeholder. The caret is not part of it.
    pub fn render(&self, _focused: bool) -> (res: (String, bool))
        ensures
            res.0@ == self@.rendered(),
            res.1 == self@.shows_placeholder(),
    {
        if self.input_type.is_text_like() && self.value.as_str().is_empty() {
            if let Some(placeholder) = &self.placeholder {
                return (placeholder.clone(), true);
            }
        }
        (self.display(), false)
    }

    /// The byte offset of the caret in the text shown for the value: bullets
    /// where it is masked.
    pub fn display_caret_byte_index(&self) -> (res: usize)
        ensures
            res == self@.display_caret_byte(),
    {
        if self.shows_bullets() {
            let prefix = bullets(self.caret_chars);
            prefix.as_str().as_bytes().len()
        } else {
            self.caret_byte_index()
        }
    }
}

/// A text of `count` bullets.
fn bullets(count: usize) -> (res: String)
    ensures
        res@ == Seq::new(count as nat, |i: int| BULLET),
{
    let mut res = String::new();
    let mut i: usize = 0;
    while i < count
        invariant
            i <= count,
            res@ =~= Seq::new(i as nat, |j: int| BULLET),
        decreases count - i,
    {
        res.push(BULLET);
        i += 1;
    }
    res
}

/// The inputs of a document, by node.
pub type InputRegistry = HashMap<usize, InputState>;

/// A registry without inputs.
pub fn new_registry() -> (res: InputRegistry)
    ensures
        res@ == Map::<usize, InputState>::empty(),
{
    HashMap::new()
}

} // verus!
