//! Keystrokes applied to inputs.

use crate::events::{Key, KeyboardEvent, Keystroke};
use crate::input::{InputModel, InputRegistry, InputState, InputType};
use crate::registry::ids_of;
use crate::text;
use std::collections::HashMap;
use vstd::prelude::*;

verus! {

/// What the inputs of a document hold, by node.
pub open spec fn input_models(inputs: Map<usize, InputState>) -> Map<usize, InputModel> {
    inputs.map_values(|s: InputState| s@)
}

/// Every input is in order.
pub open spec fn inputs_wf(inputs: Map<usize, InputModel>) -> bool {
    forall|id: usize| #[trigger] inputs.contains_key(id) ==> inputs[id].wf()
}

/// The blink interval of every input runs on as it did, unless it was started
/// anew.
pub open spec fn timers_kept(
    before: Map<usize, InputState>,
    after: Map<usize, InputState>,
) -> bool {
    forall|id: usize| #[trigger]
        before.contains_key(id) ==> after.contains_key(id) && crate::input::timer_kept(before[id], after[id])
}

/// What a keystroke did to an input.
#[derive(Debug, Clone, Copy, PartialEq, Eq, Structural)]
pub enum KeyEdit {
    /// The keystroke is dealt with. `changed`: the caret or the value is
    /// another, and what is shown is to follow. `emits`: the value is another,
    /// and an `input` event is due.
    Done { changed: bool, emits: bool },
    /// The number is to be raised by so many of its steps. Nothing has changed
    /// yet; [`commit_number`] brings the result.
    Step { count: i8 },
    /// The slider is to be moved to one of its ends. Nothing has changed yet;
    /// [`commit_number`] brings the result.
    Extreme { maximum: bool },
}

/// One input after a keystroke.
#[verifier::ext_equal]
pub struct Edit {
    pub state: InputModel,
    pub changed: bool,
    pub emits: bool,
}

impl Edit {
    pub open spec fn none(m: InputModel) -> Edit {
        Edit { state: m, changed: false, emits: false }
    }

    /// A move of the caret, where there was one to make.
    pub open spec fn caret(m: InputModel, outcome: Option<InputModel>) -> Edit {
        match outcome {
            Some(state) => Edit { state, changed: true, emits: false },
            None => Edit::none(m),
        }
    }

    /// A change of the value, where there was one to make.
    pub open spec fn value(m: InputModel, outcome: Option<InputModel>) -> Edit {
        match outcome {
            Some(state) => Edit { state, changed: true, emits: true },
            None => Edit::none(m),
        }
    }

    /// A character typed into a number. One that does not fit still takes
    /// the place of what was selected, and leaves it empty.
    pub open spec fn number(m: InputModel, c: char) -> Edit {
        if m.readonly || m.disabled || !InputModel::number_char(c) {
            Edit::none(m)
        } else if m.typed_into_number(c) is None && m.has_selection() {
            Edit::value(m, Some(m.selection_dropped()))
        } else {
            Edit::value(m, m.typed_into_number(c))
        }
    }
}

/// What a keystroke does to a line of text.
pub open spec fn text_edit(m: InputModel, k: Keystroke) -> Edit {
    if k.by_word() && (k.key == Key::Char('a') || k.key == Key::Char('A')) {
        Edit::caret(m, m.selecting_all())
    } else if k.by_word() && k.key is ArrowLeft {
        Edit::caret(m, m.going_word_left(k.shift))
    } else if k.by_word() && k.key is ArrowRight {
        Edit::caret(m, m.going_word_right(k.shift))
    } else if k.by_word() && k.key is Backspace {
        Edit::value(m, m.deleting_word_left())
    } else if k.by_word() && k.key is Delete {
        Edit::value(m, m.deleting_word_right())
    } else {
        match k.key {
            Key::Backspace => Edit::value(m, m.backspacing()),
            Key::Delete => Edit::value(m, m.deleting()),
            Key::ArrowLeft => Edit::caret(m, m.going_left(k.shift)),
            Key::ArrowRight => Edit::caret(m, m.going_right(k.shift)),
            Key::Home => Edit::caret(m, m.going_home(k.shift)),
            Key::End => Edit::caret(m, m.going_to_end(k.shift)),
            Key::Space => if m.kind.numeric_like() {
                Edit::none(m)
            } else {
                Edit::value(m, m.typing(seq![' ']))
            },
            Key::Char(c) => if k.modified() || text::is_control(c) {
                Edit::none(m)
            } else if m.kind.numeric_like() {
                Edit::number(m, c)
            } else {
                Edit::value(m, m.typing(seq![c]))
            },
            _ => Edit::none(m),
        }
    }
}

/// What a keystroke asks of a slider.
pub open spec fn range_edit(key: Key) -> KeyEdit {
    match key {
        Key::ArrowLeft | Key::ArrowDown => KeyEdit::Step { count: -1i8 },
        Key::ArrowRight | Key::ArrowUp => KeyEdit::Step { count: 1 },
        Key::PageDown => KeyEdit::Step { count: -10i8 },
        Key::PageUp => KeyEdit::Step { count: 10 },
        Key::Home => KeyEdit::Extreme { maximum: false },
        Key::End => KeyEdit::Extreme { maximum: true },
        _ => KeyEdit::Done { changed: false, emits: false },
    }
}

impl InputModel {
    pub open spec fn with_checked(self, checked: bool) -> InputModel {
        if self.checked != checked {
            (InputModel { checked, ..self }).touched()
        } else {
            self
        }
    }

    /// A radio button of the given group.
    pub open spec fn in_group(self, group: Seq<char>) -> bool {
        self.kind is Radio && self.name == Some(group)
    }
}

/// The inputs with the radio button `id` checked and every other one of its
/// group not. A button without a name is in no group.
pub open spec fn radio_chosen(
    inputs: Map<usize, InputModel>,
    id: usize,
) -> Map<usize, InputModel> {
    Map::new(
        |k: usize| inputs.contains_key(k),
        |k: usize|
            if k == id {
                inputs[k].with_checked(true)
            } else if inputs[id].name matches Some(group) && inputs[k].in_group(group) {
                inputs[k].with_checked(false)
            } else {
                inputs[k]
            },
    )
}

/// The inputs after a click, or its counterpart on the keyboard, on the
/// checkbox or radio button `id`; `None` where it changes nothing. A button
/// that is chosen stays so, and nothing disabled is changed.
pub open spec fn check_toggled(
    inputs: Map<usize, InputModel>,
    id: usize,
) -> Option<Map<usize, InputModel>> {
    let m = inputs[id];
    if m.kind is Radio {
        if m.checked || m.disabled {
            None
        } else {
            Some(radio_chosen(inputs, id))
        }
    } else if m.disabled || m.readonly {
        None
    } else {
        Some(inputs.insert(id, m.with_checked(!m.checked)))
    }
}

/// The inputs after a keystroke on the input `id`, and what became of it.
pub open spec fn key_edit(
    inputs: Map<usize, InputModel>,
    id: usize,
    k: Keystroke,
) -> (Map<usize, InputModel>, KeyEdit) {
    let m = inputs[id];
    if !inputs.contains_key(id) {
        (inputs, KeyEdit::Done { changed: false, emits: false })
    } else if m.kind.checked_like() {
        if (k.key is Space || k.key is Enter) && !k.modified() && check_toggled(
            inputs,
            id,
        ) is Some {
            (check_toggled(inputs, id)->0, KeyEdit::Done { changed: true, emits: true })
        } else {
            (inputs, KeyEdit::Done { changed: false, emits: false })
        }
    } else if m.kind is Number && k.key is ArrowUp {
        (inputs, KeyEdit::Step { count: 1 })
    } else if m.kind is Number && k.key is ArrowDown {
        (inputs, KeyEdit::Step { count: -1i8 })
    } else if m.kind is Range {
        (inputs, range_edit(k.key))
    } else {
        let edit = text_edit(m, k);
        (
            inputs.insert(id, edit.state),
            KeyEdit::Done { changed: edit.changed, emits: edit.emits },
        )
    }
}

/// Checks the radio button `id` and clears every other one of its group.
pub fn choose_radio(inputs: &mut InputRegistry, id: usize)
    requires
        old(inputs)@.contains_key(id),
        inputs_wf(input_models(old(inputs)@)),
    ensures
        timers_kept(old(inputs)@, final(inputs)@),
        input_models(final(inputs)@) == radio_chosen(input_models(old(inputs)@), id),
        inputs_wf(input_models(final(inputs)@)),
{
    let ghost before = input_models(inputs@);
    let ghost goal = radio_chosen(before, id);
    let ids = ids_of(inputs);
    let group: Option<String> = match inputs.get(&id) {
        Some(state) => match state.name() {
            Some(name) => Some(name.to_owned()),
            None => None,
        },
        None => None,
    };
    let mut i: usize = 0;
    assert forall|j: int| 0 <= j < ids.len() implies inputs@[#[trigger] ids@[j]]@
        == before[ids@[j]] by {
        assert(ids@.contains(ids@[j]));
    }
    while i < ids.len()
        invariant
            i <= ids.len(),
            ids@.no_duplicates(),
            forall|k: usize| ids@.contains(k) <==> before.contains_key(k),
            before.contains_key(id),
            inputs_wf(before),
            goal == radio_chosen(before, id),
            crate::input::text_view(group) == before[id].name,
            inputs@.dom() == before.dom(),
            timers_kept(old(inputs)@, inputs@),
            forall|j: int|
                0 <= j < i ==> inputs@[#[trigger] ids@[j]]@ == goal[ids@[j]],
            forall|j: int|
                i <= j < ids.len() ==> inputs@[#[trigger] ids@[j]]@ == before[ids@[j]],
        decreases ids.len() - i,
    {
        let k: usize = ids[i];
        let ghost prior = inputs@;
        assert(ids@.contains(k));
        if let Some(mut state) = inputs.remove(&k) {
            if k == id {
                state.set_checked(true);
            } else if let Some(name) = &group {
                if state.is_radio() {
                    if let Some(other) = state.name() {
                        if text::same(other, name.as_str()) {
                            state.set_checked(false);
                        }
                    }
                }
            }
            assert(state@ == goal[k]);
            inputs.insert(k, state);
        }
        assert(inputs@.dom() =~= before.dom());
        i += 1;
    }
    assert(input_models(inputs@) =~= goal) by {
        assert forall|k: usize| goal.contains_key(k) implies inputs@[k]@ == goal[k] by {
            assert(ids@.contains(k));
            let j = choose|j: int| 0 <= j < ids.len() && ids@[j] == k;
            assert(inputs@[ids@[j]]@ == goal[ids@[j]]);
        }
    }
}

/// Clicks the checkbox or radio button `id`. Returns whether that changed
/// anything.
pub fn toggle_check(inputs: &mut InputRegistry, id: usize) -> (res: bool)
    requires
        inputs_wf(input_models(old(inputs)@)),
    ensures
        timers_kept(old(inputs)@, final(inputs)@),
        res == (old(inputs)@.contains_key(id) && check_toggled(
            input_models(old(inputs)@),
            id,
        ) is Some),
        res ==> input_models(final(inputs)@) == check_toggled(
            input_models(old(inputs)@),
            id,
        )->0,
        !res ==> input_models(final(inputs)@) == input_models(old(inputs)@),
        inputs_wf(input_models(final(inputs)@)),
{
    let ghost before = input_models(inputs@);
    let (is_radio, settled) = match inputs.get(&id) {
        Some(state) => (state.is_radio(), state.checked() || state.disabled()),
        None => {
            return false;
        },
    };
    if is_radio {
        if settled {
            return false;
        }
        choose_radio(inputs, id);
        return true;
    }
    let mut toggled = false;
    if let Some(mut state) = inputs.remove(&id) {
        toggled = state.toggle_checked();
        inputs.insert(id, state);
        assert(input_models(inputs@) =~= before.insert(id, state@));
    }
    assert(before.insert(id, before[id]) =~= before);
    toggled
}

/// Types a character into a number. Returns whether the value is another.
fn type_into_number(state: &mut InputState, c: char) -> (res: bool)
    requires
        old(state)@.wf(),
        !old(state)@.kind.checked_like(),
    ensures
        crate::input::timer_kept(*old(state), *final(state)),
        final(state)@ == Edit::number(old(state)@, c).state,
        res == Edit::number(old(state)@, c).changed,
        final(state)@.wf(),
{
    let open = !state.readonly() && !state.disabled();
    let digit = '0' <= c && c <= '9';
    let drops = open && (digit || c == '.' || c == '-') && state.has_selection();
    let typed = state.insert_numeric_char(c);
    typed || drops
}

/// Applies a keystroke to a line of text.
fn edit_text(state: &mut InputState, k: Keystroke) -> (res: (bool, bool))
    requires
        old(state)@.wf(),
        !old(state)@.kind.checked_like(),
    ensures
        crate::input::timer_kept(*old(state), *final(state)),
        ({
            let edit = text_edit(old(state)@, k);
            &&& final(state)@ == edit.state
            &&& res == (edit.changed, edit.emits)
        }),
        final(state)@.wf(),
{
    if (k.ctrl || k.meta) && !k.alt {
        match k.key {
            Key::Char(c) => {
                if c == 'a' || c == 'A' {
                    let edited = state.select_all();
                    return (edited, false);
                }
            },
            Key::ArrowLeft => {
                let edited = state.move_word_left_extending(k.shift);
                return (edited, false);
            },
            Key::ArrowRight => {
                let edited = state.move_word_right_extending(k.shift);
                return (edited, false);
            },
            Key::Backspace => {
                let edited = state.delete_word_left();
                return (edited, edited);
            },
            Key::Delete => {
                let edited = state.delete_word_right();
                return (edited, edited);
            },
            _ => {},
        }
    }
    match k.key {
        Key::Backspace => {
            let edited = state.backspace();
            (edited, edited)
        },
        Key::Delete => {
            let edited = state.delete_forward();
            (edited, edited)
        },
        Key::ArrowLeft => (state.move_left_extending(k.shift), false),
        Key::ArrowRight => (state.move_right_extending(k.shift), false),
        Key::Home => (state.move_home_extending(k.shift), false),
        Key::End => (state.move_end_extending(k.shift), false),
        Key::Space => {
            if state.is_numeric_like() {
                (false, false)
            } else {
                let edited = state.insert(' ');
                (edited, edited)
            }
        },
        Key::Char(c) => {
            if k.is_modified() || text::char_is_control(c) {
                return (false, false);
            }
            let edited = if state.is_numeric_like() {
                type_into_number(state, c)
            } else {
                state.insert(c)
            };
            (edited, edited)
        },
        _ => (false, false),
    }
}

/// Applies a keystroke to the input registered for `input_id`.
pub fn apply_input_key(
    inputs: &mut InputRegistry,
    input_id: usize,
    event: &KeyboardEvent,
) -> (res: KeyEdit)
    requires
        inputs_wf(input_models(old(inputs)@)),
    ensures
        timers_kept(old(inputs)@, final(inputs)@),
        (input_models(final(inputs)@), res) == key_edit(
            input_models(old(inputs)@),
            input_id,
            event.stroke(),
        ),
        inputs_wf(input_models(final(inputs)@)),
{
    let ghost before = input_models(inputs@);
    let k = event.keystroke();
    let kind = match inputs.get(&input_id) {
        Some(state) => state.kind(),
        None => {
            return KeyEdit::Done { changed: false, emits: false };
        },
    };
    if kind.is_checked_like() {
        let press = matches!(k.key, Key::Space | Key::Enter);
        if !press || k.is_modified() {
            return KeyEdit::Done { changed: false, emits: false };
        }
        let edited = toggle_check(inputs, input_id);
        return KeyEdit::Done { changed: edited, emits: edited };
    }
    if kind == InputType::Number {
        match k.key {
            Key::ArrowUp => {
                return KeyEdit::Step { count: 1 };
            },
            Key::ArrowDown => {
                return KeyEdit::Step { count: -1 };
            },
            _ => {},
        }
    }
    if kind == InputType::Range {
        return match k.key {
            Key::ArrowLeft | Key::ArrowDown => KeyEdit::Step { count: -1 },
            Key::ArrowRight | Key::ArrowUp => KeyEdit::Step { count: 1 },
            Key::PageDown => KeyEdit::Step { count: -10 },
            Key::PageUp => KeyEdit::Step { count: 10 },
            Key::Home => KeyEdit::Extreme { maximum: false },
            Key::End => KeyEdit::Extreme { maximum: true },
            _ => KeyEdit::Done { changed: false, emits: false },
        };
    }
    let mut changed = false;
    let mut emits = false;
    if let Some(mut state) = inputs.remove(&input_id) {
        assert(before.contains_key(input_id));
        let edited = edit_text(&mut state, k);
        changed = edited.0;
        emits = edited.1;
        inputs.insert(input_id, state);
        assert(input_models(inputs@) =~= before.insert(input_id, state@));
    }
    KeyEdit::Done { changed, emits }
}

/// The text of a number is taken over by the input `id`: it is another than
/// the value, and the input is not disabled.
pub open spec fn takes_number(
    inputs: Map<usize, InputModel>,
    id: usize,
    number: Seq<char>,
) -> bool {
    inputs.contains_key(id) && !inputs[id].disabled && inputs[id].value != number
}

/// The inputs with the text of a number, within its bounds, as the value of
/// the input `id`, where that takes it.
pub open spec fn number_committed(
    inputs: Map<usize, InputModel>,
    id: usize,
    number: Seq<char>,
) -> Map<usize, InputModel> {
    if takes_number(inputs, id, number) {
        inputs.insert(id, inputs[id].with_value(number))
    } else {
        inputs
    }
}

/// Takes over the text of a number, within its bounds, as the value of the
/// input `input_id`, unless that is disabled. Returns whether the value is
/// another.
pub fn commit_number(inputs: &mut InputRegistry, input_id: usize, number: &str) -> (res: bool)
    requires
        inputs_wf(input_models(old(inputs)@)),
    ensures
        timers_kept(old(inputs)@, final(inputs)@),
        res == takes_number(input_models(old(inputs)@), input_id, number@),
        input_models(final(inputs)@) == number_committed(
            input_models(old(inputs)@),
            input_id,
            number@,
        ),
        inputs_wf(input_models(final(inputs)@)),
{
    let ghost before = input_models(inputs@);
    match inputs.remove(&input_id) {
        Some(mut state) => {
            let changed = !state.disabled() && state.set_numeric_value(number);
            inputs.insert(input_id, state);
            assert(input_models(inputs@) =~= before.insert(input_id, state@));
            assert(before.insert(input_id, before[input_id]) =~= before);
            changed
        },
        None => {
            assert(input_models(inputs@) =~= before);
            false
        },
    }
}

} // verus!
