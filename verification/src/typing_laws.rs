//! What each key does to an input, in terms of its value, its caret and its
//! selection.

use crate::events::{Key, Keystroke};
use crate::input::InputModel;
use crate::keys::KeyEdit;
use vstd::prelude::*;

verus! {

/// A line of text: a plain one, a password or a number.
pub open spec fn line_of_text(m: InputModel) -> bool {
    m.kind is Text || m.kind is Password || m.kind is Number
}

/// Where the selected part begins, or the caret where nothing is selected.
pub open spec fn part_start(m: InputModel) -> int {
    match m.anchor {
        Some(a) => if a < m.caret {
            a
        } else {
            m.caret
        },
        None => m.caret,
    }
}

/// Where the selected part ends, or the caret where nothing is selected.
pub open spec fn part_end(m: InputModel) -> int {
    match m.anchor {
        Some(a) => if a > m.caret {
            a
        } else {
            m.caret
        },
        None => m.caret,
    }
}

/// The caret and the other end of the selection are places in the value.
pub open spec fn in_place(m: InputModel) -> bool {
    &&& 0 <= m.caret <= m.value.len()
    &&& m.anchor matches Some(a) ==> 0 <= a <= m.value.len()
}

/// The input with another value, the caret at a place and nothing selected, and
/// the caret shown.
pub open spec fn with_text(m: InputModel, value: Seq<char>, caret: int) -> InputModel {
    InputModel {
        value,
        caret,
        anchor: None,
        blink_visible: true,
        restarts: m.restarts + 1,
        ..m
    }
}

/// The input with its caret shown at another place. Where the selection is
/// extended, its other end stays where it was, which is where the caret was
/// if nothing was selected; otherwise nothing is selected.
pub open spec fn with_caret(m: InputModel, caret: int, extend: bool) -> InputModel {
    InputModel {
        caret,
        anchor: if !extend {
            None
        } else if m.anchor is Some {
            m.anchor
        } else {
            Some(m.caret)
        },
        blink_visible: true,
        restarts: m.restarts + 1,
        ..m
    }
}

/// A keystroke turns the input `id` into `state`, and touches no other.
pub open spec fn turns_into(
    inputs: Map<usize, InputModel>,
    id: usize,
    k: Keystroke,
    state: InputModel,
    changed: bool,
    emits: bool,
) -> bool {
    crate::keys::key_edit(inputs, id, k) == (
        inputs.insert(id, state),
        KeyEdit::Done { changed, emits },
    )
}

/// A keystroke does nothing to any input.
pub open spec fn does_nothing(inputs: Map<usize, InputModel>, id: usize, k: Keystroke) -> bool {
    crate::keys::key_edit(inputs, id, k) == (
        inputs,
        KeyEdit::Done { changed: false, emits: false },
    )
}

/// Control or Command is held, without Alt.
pub open spec fn command(k: Keystroke) -> bool {
    (k.ctrl || k.meta) && !k.alt
}

/// A character key puts its character in place of the selected part, or at the
/// caret, and so does the space bar. The caret goes behind it. The change is
/// shown and announced.
pub proof fn law_characters_are_typed(
    inputs: Map<usize, InputModel>,
    id: usize,
    k: Keystroke,
    c: char,
)
    requires
        inputs.contains_key(id),
        inputs[id].kind is Text || inputs[id].kind is Password,
        in_place(inputs[id]),
        !inputs[id].readonly,
        !inputs[id].disabled,
        (k.key is Space && c == ' ') || (k.key == Key::Char(c) && !k.ctrl && !k.alt && !k.meta),
        c as u32 >= 0x20,
        !(0x7f <= c as u32 <= 0x9f),
    ensures
        ({
            let m = inputs[id];
            turns_into(
                inputs,
                id,
                k,
                with_text(
                    m,
                    m.value.take(part_start(m)).push(c) + m.value.skip(part_end(m)),
                    part_start(m) + 1,
                ),
                true,
                true,
            )
        }),
{
    let m = inputs[id];
    let edit = crate::keys::text_edit(m, k);
    assert(edit.state.value =~= m.value.take(part_start(m)).push(c) + m.value.skip(part_end(m)));
}

/// Where a part is selected, Backspace and Delete, by character or by word,
/// remove it and nothing else.
pub proof fn law_removal_keys_remove_the_selected_part(
    inputs: Map<usize, InputModel>,
    id: usize,
    k: Keystroke,
)
    requires
        inputs.contains_key(id),
        line_of_text(inputs[id]),
        in_place(inputs[id]),
        !inputs[id].readonly,
        !inputs[id].disabled,
        part_start(inputs[id]) < part_end(inputs[id]),
        k.key is Backspace || k.key is Delete,
    ensures
        ({
            let m = inputs[id];
            turns_into(
                inputs,
                id,
                k,
                with_text(
                    m,
                    m.value.take(part_start(m)) + m.value.skip(part_end(m)),
                    part_start(m),
                ),
                true,
                true,
            )
        }),
{
    let m = inputs[id];
    let edit = crate::keys::text_edit(m, k);
    assert(edit.state.value =~= m.value.take(part_start(m)) + m.value.skip(part_end(m)));
}

/// Where nothing is selected, Backspace removes the character before the caret,
/// which goes where that was. At the start of the value it does nothing.
pub proof fn law_backspace_removes_the_character_before(
    inputs: Map<usize, InputModel>,
    id: usize,
    k: Keystroke,
)
    requires
        inputs.contains_key(id),
        line_of_text(inputs[id]),
        in_place(inputs[id]),
        !inputs[id].readonly,
        !inputs[id].disabled,
        part_start(inputs[id]) == part_end(inputs[id]),
        k.key is Backspace,
        !command(k),
    ensures
        ({
            let m = inputs[id];
            if m.caret > 0 {
                turns_into(
                    inputs,
                    id,
                    k,
                    with_text(
                        m,
                        m.value.take(m.caret - 1) + m.value.skip(m.caret),
                        m.caret - 1,
                    ),
                    true,
                    true,
                )
            } else {
                does_nothing(inputs, id, k)
            }
        }),
{
    let m = inputs[id];
    let edit = crate::keys::text_edit(m, k);
    if m.caret > 0 {
        assert(edit.state.value =~= m.value.take(m.caret - 1) + m.value.skip(m.caret));
    }
    assert(inputs.insert(id, m) =~= inputs);
}

/// Where nothing is selected, Delete removes the character at the caret, which
/// stays where it is. At the end of the value it does nothing.
pub proof fn law_delete_removes_the_character_behind(
    inputs: Map<usize, InputModel>,
    id: usize,
    k: Keystroke,
)
    requires
        inputs.contains_key(id),
        line_of_text(inputs[id]),
        in_place(inputs[id]),
        !inputs[id].readonly,
        !inputs[id].disabled,
        part_start(inputs[id]) == part_end(inputs[id]),
        k.key is Delete,
        !command(k),
    ensures
        ({
            let m = inputs[id];
            if m.caret < m.value.len() {
                turns_into(
                    inputs,
                    id,
                    k,
                    with_text(m, m.value.take(m.caret) + m.value.skip(m.caret + 1), m.caret),
                    true,
                    true,
                )
            } else {
                does_nothing(inputs, id, k)
            }
        }),
{
    let m = inputs[id];
    let edit = crate::keys::text_edit(m, k);
    if m.caret < m.value.len() {
        assert(edit.state.value =~= m.value.take(m.caret) + m.value.skip(m.caret + 1));
    }
    assert(inputs.insert(id, m) =~= inputs);
}

/// The left arrow takes the caret one character to the left, or to the start of
/// the selected part, unless Shift extends that. At the start of the value it
/// does nothing. The value stays, also that of a read-only input.
pub proof fn law_left_goes_left(inputs: Map<usize, InputModel>, id: usize, k: Keystroke)
    requires
        inputs.contains_key(id),
        line_of_text(inputs[id]),
        in_place(inputs[id]),
        !inputs[id].disabled,
        k.key is ArrowLeft,
        !command(k),
    ensures
        ({
            let m = inputs[id];
            if !k.shift && part_start(m) < part_end(m) {
                turns_into(inputs, id, k, with_caret(m, part_start(m), false), true, false)
            } else if m.caret > 0 {
                turns_into(inputs, id, k, with_caret(m, m.caret - 1, k.shift), true, false)
            } else {
                does_nothing(inputs, id, k)
            }
        }),
{
    assert(inputs.insert(id, inputs[id]) =~= inputs);
}

/// The right arrow takes the caret one character to the right, or to the end of
/// the selected part, unless Shift extends that. At the end of the value it does
/// nothing. The value stays, also that of a read-only input.
pub proof fn law_right_goes_right(inputs: Map<usize, InputModel>, id: usize, k: Keystroke)
    requires
        inputs.contains_key(id),
        line_of_text(inputs[id]),
        in_place(inputs[id]),
        !inputs[id].disabled,
        k.key is ArrowRight,
        !command(k),
    ensures
        ({
            let m = inputs[id];
            if !k.shift && part_start(m) < part_end(m) {
                turns_into(inputs, id, k, with_caret(m, part_end(m), false), true, false)
            } else if m.caret < m.value.len() {
                turns_into(inputs, id, k, with_caret(m, m.caret + 1, k.shift), true, false)
            } else {
                does_nothing(inputs, id, k)
            }
        }),
{
    assert(inputs.insert(id, inputs[id]) =~= inputs);
}

/// Home and End take the caret to the start and to the end of the value, with
/// Shift extending the selection. A caret that is there stays, unless a
/// selection is being extended.
pub proof fn law_home_and_end_go_to_the_ends(
    inputs: Map<usize, InputModel>,
    id: usize,
    k: Keystroke,
)
    requires
        inputs.contains_key(id),
        line_of_text(inputs[id]),
        in_place(inputs[id]),
        !inputs[id].disabled,
        k.key is Home || k.key is End,
    ensures
        ({
            let m = inputs[id];
            let to = if k.key is Home {
                0
            } else {
                m.value.len() as int
            };
            if m.caret != to || (k.shift && part_start(m) < part_end(m)) {
                turns_into(inputs, id, k, with_caret(m, to, k.shift), true, false)
            } else {
                does_nothing(inputs, id, k)
            }
        }),
{
    assert(inputs.insert(id, inputs[id]) =~= inputs);
}

/// Control+A selects the whole value, with the caret at its end. An empty value,
/// one that is selected so already, and that of a read-only input stay as they
/// are.
pub proof fn law_select_all_selects_everything(
    inputs: Map<usize, InputModel>,
    id: usize,
    k: Keystroke,
)
    requires
        inputs.contains_key(id),
        line_of_text(inputs[id]),
        in_place(inputs[id]),
        !inputs[id].disabled,
        k.key == Key::Char('a') || k.key == Key::Char('A'),
        command(k),
    ensures
        ({
            let m = inputs[id];
            let len = m.value.len() as int;
            if m.readonly || len == 0 || (m.anchor == Some(0int) && m.caret == len) {
                does_nothing(inputs, id, k)
            } else {
                turns_into(
                    inputs,
                    id,
                    k,
                    InputModel { anchor: Some(0), ..with_caret(m, len, true) },
                    true,
                    false,
                )
            }
        }),
{
    assert(inputs.insert(id, inputs[id]) =~= inputs);
}

/// A character that is part of a word: a letter, a digit or an underscore.
pub open spec fn in_word(c: char) -> bool {
    crate::text::char_is_alphanumeric(c) || c == '_'
}

/// From `from` to `to`, all characters are parts of words, or none is.
pub open spec fn of_one_sort(s: Seq<char>, from: int, to: int, word: bool) -> bool {
    forall|j: int| from <= j < to ==> in_word(#[trigger] s[j]) == word
}

/// `to` is where the last word before `at` begins: only characters between
/// words lie between its end and `at`. Without such a word, it is the start of
/// the text.
pub open spec fn word_begins(s: Seq<char>, at: int, to: int) -> bool {
    exists|end: int|
        0 <= to <= end <= at && #[trigger] of_one_sort(s, to, end, true) && of_one_sort(
            s,
            end,
            at,
            false,
        ) && (to == 0 || !in_word(s[to - 1])) && (to == end ==> to == 0)
}

/// `to` is where the first word from `at` on ends: only characters between
/// words lie between `at` and its start. Without such a word, it is the end of
/// the text.
pub open spec fn word_ends(s: Seq<char>, at: int, to: int) -> bool {
    exists|start: int|
        at <= start <= to <= s.len() && #[trigger] of_one_sort(s, start, to, true)
            && of_one_sort(s, at, start, false) && (to == s.len() || !in_word(s[to])) && (to
            == start ==> to == s.len())
}

proof fn lemma_back_over(s: Seq<char>, i: int, word: bool)
    requires
        0 <= i <= s.len(),
    ensures
        ({
            let to = crate::input::back_over(s, i, word);
            &&& 0 <= to <= i
            &&& to == 0 || in_word(s[to - 1]) != word
            &&& of_one_sort(s, to, i, word)
        }),
    decreases i,
{
    if 0 < i && in_word(s[i - 1]) == word {
        lemma_back_over(s, i - 1, word);
    }
}

proof fn lemma_on_over(s: Seq<char>, i: int, word: bool)
    requires
        0 <= i <= s.len(),
    ensures
        ({
            let to = crate::input::on_over(s, i, word);
            &&& i <= to <= s.len()
            &&& to == s.len() || in_word(s[to]) != word
            &&& of_one_sort(s, i, to, word)
        }),
    decreases s.len() - i,
{
    if i < s.len() && in_word(s[i]) == word {
        lemma_on_over(s, i + 1, word);
    }
}

proof fn lemma_word_begins(s: Seq<char>, at: int)
    requires
        0 <= at <= s.len(),
    ensures
        word_begins(s, at, crate::input::word_left(s, at)),
        0 <= crate::input::word_left(s, at) <= at,
{
    lemma_back_over(s, at, false);
    let end = crate::input::back_over(s, at, false);
    lemma_back_over(s, end, true);
    let to = crate::input::back_over(s, end, true);
    assert(of_one_sort(s, to, end, true));
    if to == end && to > 0 {
        assert(in_word(s[end - 1]));
    }
}

proof fn lemma_word_ends(s: Seq<char>, at: int)
    requires
        0 <= at <= s.len(),
    ensures
        word_ends(s, at, crate::input::word_right(s, at)),
        at <= crate::input::word_right(s, at) <= s.len(),
{
    lemma_on_over(s, at, false);
    let start = crate::input::on_over(s, at, false);
    lemma_on_over(s, start, true);
    let to = crate::input::on_over(s, start, true);
    assert(of_one_sort(s, start, to, true));
    if to == start && to < s.len() {
        assert(in_word(s[start]));
    }
}

/// With Control, the left and right arrows take the caret to the start of the
/// word before it and to the end of the word behind it, with Shift extending
/// the selection. Where the caret is there, nothing happens.
pub proof fn law_control_arrows_go_by_words(
    inputs: Map<usize, InputModel>,
    id: usize,
    k: Keystroke,
)
    requires
        inputs.contains_key(id),
        line_of_text(inputs[id]),
        in_place(inputs[id]),
        !inputs[id].disabled,
        k.key is ArrowLeft || k.key is ArrowRight,
        command(k),
    ensures
        ({
            let m = inputs[id];
            let to = crate::keys::key_edit(inputs, id, k).0[id].caret;
            &&& k.key is ArrowLeft ==> word_begins(m.value, m.caret, to)
            &&& k.key is ArrowRight ==> word_ends(m.value, m.caret, to)
            &&& if to != m.caret {
                turns_into(inputs, id, k, with_caret(m, to, k.shift), true, false)
            } else {
                does_nothing(inputs, id, k)
            }
        }),
{
    let m = inputs[id];
    lemma_word_begins(m.value, m.caret);
    lemma_word_ends(m.value, m.caret);
    assert(inputs.insert(id, inputs[id]) =~= inputs);
}

/// With Control and nothing selected, Backspace removes what lies between the
/// start of the word before the caret and the caret, and Delete what lies
/// between the caret and the end of the word behind it.
pub proof fn law_control_removes_words(inputs: Map<usize, InputModel>, id: usize, k: Keystroke)
    requires
        inputs.contains_key(id),
        line_of_text(inputs[id]),
        in_place(inputs[id]),
        !inputs[id].readonly,
        !inputs[id].disabled,
        part_start(inputs[id]) == part_end(inputs[id]),
        k.key is Backspace || k.key is Delete,
        command(k),
    ensures
        ({
            let m = inputs[id];
            exists|from: int, to: int| {
                &&& k.key is Backspace ==> word_begins(m.value, m.caret, from) && to == m.caret
                &&& k.key is Delete ==> from == m.caret && word_ends(m.value, m.caret, to)
                &&& 0 <= from <= to <= m.value.len()
                &&& if from < to {
                    turns_into(
                        inputs,
                        id,
                        k,
                        #[trigger] with_text(m, m.value.take(from) + m.value.skip(to), from),
                        true,
                        true,
                    )
                } else {
                    does_nothing(inputs, id, k)
                }
            }
        }),
{
    let m = inputs[id];
    lemma_word_begins(m.value, m.caret);
    lemma_word_ends(m.value, m.caret);
    assert(inputs.insert(id, inputs[id]) =~= inputs);
    let (from, to) = if k.key is Backspace {
        (crate::input::word_left(m.value, m.caret), m.caret)
    } else {
        (m.caret, crate::input::word_right(m.value, m.caret))
    };
    let edit = crate::keys::text_edit(m, k);
    if from < to {
        assert(edit.state.value =~= m.value.take(from) + m.value.skip(to));
    }
    assert(with_text(m, m.value.take(from) + m.value.skip(to), from).caret == from);
}

/// The keys that a line of text leaves to others, and characters with Control,
/// Alt or Command but for the one that selects everything, do nothing to it.
pub proof fn law_other_keys_leave_text_alone(
    inputs: Map<usize, InputModel>,
    id: usize,
    k: Keystroke,
)
    requires
        inputs.contains_key(id),
        line_of_text(inputs[id]),
        inputs[id].kind is Number ==> !(k.key is ArrowUp || k.key is ArrowDown),
        k.key is Enter || k.key is Tab || k.key is Escape || k.key is ArrowUp || k.key is ArrowDown
            || k.key is Up || k.key is Down || k.key is PageUp || k.key is PageDown || k.key is Other
            || (k.key matches Key::Char(c) && ((k.ctrl || k.alt || k.meta) && !(command(k) && (c
            == 'a' || c == 'A')) || (c as u32) < 0x20 || 0x7f <= c as u32 <= 0x9f) && !(command(k)
            && (c == 'a' || c == 'A'))),
    ensures
        does_nothing(inputs, id, k),
{
    assert(inputs.insert(id, inputs[id]) =~= inputs);
}

/// No key changes the value of a read-only line of text, and none does anything
/// to a disabled one.
pub proof fn law_keys_respect_locks(inputs: Map<usize, InputModel>, id: usize, k: Keystroke)
    requires
        inputs.contains_key(id),
        line_of_text(inputs[id]),
        in_place(inputs[id]),
        inputs[id].readonly || inputs[id].disabled,
    ensures
        crate::keys::key_edit(inputs, id, k).0[id].value == inputs[id].value,
        crate::keys::key_edit(inputs, id, k).1 matches KeyEdit::Done { emits, .. } ==> !emits,
        inputs[id].disabled && crate::keys::key_edit(inputs, id, k).1 is Done ==> does_nothing(
            inputs,
            id,
            k,
        ),
{
    assert(inputs.insert(id, inputs[id]) =~= inputs);
}

/// What may be typed on the way to a number: digits with at most one point
/// among them, and a minus sign at the very start or nowhere.
pub open spec fn numeric(s: Seq<char>) -> bool {
    &&& forall|i: int|
        0 <= i < s.len() ==> ('0' <= #[trigger] s[i] && s[i] <= '9') || s[i] == '.' || (s[i] == '-'
            && i == 0)
    &&& forall|i: int, j: int|
        0 <= i < j < s.len() ==> !(#[trigger] s[i] == '.' && #[trigger] s[j] == '.')
}

pub proof fn lemma_numeric(s: Seq<char>)
    ensures
        crate::text::number_text(s) == numeric(s),
{
    let body = crate::text::number_body(s);
    let off: int = s.len() - body.len();
    assert(forall|i: int| 0 <= i < body.len() ==> #[trigger] body[i] == s[i + off]);
    assert(forall|i: int| off <= i < s.len() ==> #[trigger] s[i] == body[i - off]);
    if crate::text::number_text(s) {
        assert forall|i: int, j: int| 0 <= i < j < s.len() implies !(#[trigger] s[i] == '.'
            && #[trigger] s[j] == '.') by {
            if i >= off {
                assert(s[i] == body[i - off]);
                assert(s[j] == body[j - off]);
            }
        }
        assert forall|i: int| 0 <= i < s.len() implies ('0' <= #[trigger] s[i] && s[i] <= '9')
            || s[i] == '.' || (s[i] == '-' && i == 0) by {
            if i >= off {
                assert(s[i] == body[i - off]);
            }
        }
    }
    if numeric(s) {
        assert forall|i: int| 0 <= i < body.len() implies crate::text::is_digit(#[trigger] body[i])
            || body[i] == '.' by {
            assert(body[i] == s[i + off]);
        }
        assert forall|i: int, j: int| 0 <= i < j < body.len() implies !(#[trigger] body[i] == '.'
            && #[trigger] body[j] == '.') by {
            assert(body[i] == s[i + off]);
            assert(body[j] == s[j + off]);
        }
    }
}

/// Into a number, a digit, a point or a minus sign is typed where that leaves
/// what may be typed on the way to a number. Otherwise the selected part goes
/// all the same, and where nothing is selected, nothing happens. No other
/// character does anything, nor does the space bar.
pub proof fn law_numbers_are_typed(inputs: Map<usize, InputModel>, id: usize, k: Keystroke, c: char)
    requires
        inputs.contains_key(id),
        inputs[id].kind is Number,
        in_place(inputs[id]),
        !inputs[id].readonly,
        !inputs[id].disabled,
        k.key == Key::Char(c) || (k.key is Space && c == ' '),
        !k.ctrl,
        !k.alt,
        !k.meta,
    ensures
        ({
            let m = inputs[id];
            let before = m.value.take(part_start(m));
            let behind = m.value.skip(part_end(m));
            let typed = before.push(c) + behind;
            if !(('0' <= c && c <= '9') || c == '.' || c == '-') {
                does_nothing(inputs, id, k)
            } else if numeric(typed) {
                turns_into(inputs, id, k, with_text(m, typed, part_start(m) + 1), true, true)
            } else if part_start(m) < part_end(m) {
                turns_into(inputs, id, k, with_text(m, before + behind, part_start(m)), true, true)
            } else {
                does_nothing(inputs, id, k)
            }
        }),
{
    let m = inputs[id];
    let before = m.value.take(part_start(m));
    let behind = m.value.skip(part_end(m));
    let typed = before.push(c) + behind;
    let rest = m.without_selection();
    assert(rest.value =~= before + behind) by {
        if part_start(m) == part_end(m) {
            assert(before + behind =~= m.value);
        }
    }
    assert(rest.caret == part_start(m));
    let next = crate::text::spliced(rest.value, rest.caret, rest.caret, seq![c]);
    assert(next =~= typed);
    lemma_numeric(typed);
    if c == '-' && numeric(typed) {
        assert(typed[part_start(m)] == '-');
        assert(part_start(m) == 0);
        assert forall|i: int| 0 <= i < rest.value.len() implies rest.value[i] != '-' by {
            assert(typed[i + 1] == rest.value[i]);
        }
    }
    assert(inputs.insert(id, m) =~= inputs);
}

/// In a number the up arrow asks for one step up and the down arrow for one
/// step down, whatever the modifiers. Nothing has changed yet.
pub proof fn law_arrows_step_numbers(inputs: Map<usize, InputModel>, id: usize, k: Keystroke)
    requires
        inputs.contains_key(id),
        inputs[id].kind is Number,
        k.key is ArrowUp || k.key is ArrowDown,
    ensures
        crate::keys::key_edit(inputs, id, k).0 == inputs,
        crate::keys::key_edit(inputs, id, k).1 matches KeyEdit::Step { count } && (if k.key is ArrowUp {
            count == 1
        } else {
            count == -1
        }),
{
}

/// On a slider the right and the up arrow ask for one step up, the left and the
/// down arrow for one step down; the page keys ask for ten; Home asks for the
/// lower and End for the upper bound. Any other key does nothing.
pub proof fn law_keys_move_sliders(inputs: Map<usize, InputModel>, id: usize, k: Keystroke)
    requires
        inputs.contains_key(id),
        inputs[id].kind is Range,
    ensures
        crate::keys::key_edit(inputs, id, k).0 == inputs,
        ({
            let asked = crate::keys::key_edit(inputs, id, k).1;
            match k.key {
                Key::ArrowRight | Key::ArrowUp => asked matches KeyEdit::Step { count } && count
                    == 1,
                Key::ArrowLeft | Key::ArrowDown => asked matches KeyEdit::Step { count } && count
                    == -1,
                Key::PageUp => asked matches KeyEdit::Step { count } && count == 10,
                Key::PageDown => asked matches KeyEdit::Step { count } && count == -10,
                Key::Home => asked == KeyEdit::Extreme { maximum: false },
                Key::End => asked == KeyEdit::Extreme { maximum: true },
                _ => asked == KeyEdit::Done { changed: false, emits: false },
            }
        }),
{
}

/// The input as it is after its check mark changed.
pub open spec fn with_check(m: InputModel, checked: bool) -> InputModel {
    InputModel { checked, blink_visible: true, restarts: m.restarts + 1, ..m }
}

/// The space bar and Enter, without modifiers, flip a checkbox that is neither
/// disabled nor read-only. No other key does anything to it.
pub proof fn law_keys_flip_checkboxes(inputs: Map<usize, InputModel>, id: usize, k: Keystroke)
    requires
        inputs.contains_key(id),
        inputs[id].kind is Checkbox,
    ensures
        if (k.key is Space || k.key is Enter) && !k.ctrl && !k.alt && !k.meta
            && !inputs[id].disabled && !inputs[id].readonly {
            turns_into(inputs, id, k, with_check(inputs[id], !inputs[id].checked), true, true)
        } else {
            does_nothing(inputs, id, k)
        },
{
}

/// Two radio buttons are of one group: they have the same name.
pub open spec fn of_one_group(a: InputModel, b: InputModel) -> bool {
    a.kind is Radio && b.kind is Radio && a.name is Some && a.name == b.name
}

/// `after` is `before` with the radio button `id` chosen: it is checked, every
/// other one of its group is not, and nothing else is touched.
pub open spec fn chosen_in_its_group(
    before: Map<usize, InputModel>,
    after: Map<usize, InputModel>,
    id: usize,
) -> bool {
    &&& after.dom() == before.dom()
    &&& forall|k: usize| #[trigger]
        before.contains_key(k) ==> {
            let checked = k == id || (before[k].checked && !of_one_group(before[id], before[k]));
            after[k] == if before[k].checked != checked {
                with_check(before[k], checked)
            } else {
                before[k]
            }
        }
}

/// The space bar and Enter, without modifiers, choose a radio button that is
/// neither chosen nor disabled. No other key does anything to it here.
pub proof fn law_keys_choose_radio_buttons(inputs: Map<usize, InputModel>, id: usize, k: Keystroke)
    requires
        inputs.contains_key(id),
        inputs[id].kind is Radio,
    ensures
        if (k.key is Space || k.key is Enter) && !k.ctrl && !k.alt && !k.meta
            && !inputs[id].disabled && !inputs[id].checked {
            &&& chosen_in_its_group(inputs, crate::keys::key_edit(inputs, id, k).0, id)
            &&& crate::keys::key_edit(inputs, id, k).1 == (KeyEdit::Done {
                changed: true,
                emits: true,
            })
        } else {
            does_nothing(inputs, id, k)
        },
{
    assert(crate::keys::radio_chosen(inputs, id).dom() =~= inputs.dom());
}

/// A keystroke that no input gets does nothing.
pub proof fn law_keys_need_an_input(inputs: Map<usize, InputModel>, id: usize, k: Keystroke)
    requires
        !inputs.contains_key(id),
    ensures
        does_nothing(inputs, id, k),
{
}

} // verus!
