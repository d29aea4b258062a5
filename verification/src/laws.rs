//! What holds of the library as a whole.

use crate::a11y::A11yModel;
use crate::events::{Key, Keystroke};
use crate::input::InputModel;
use crate::keys::KeyEdit;
use crate::select::{OptionModel, SelectModel};
use vstd::prelude::*;

verus! {

/// Typing a character and taking it back leaves the value and the caret as
/// they were.
pub proof fn law_backspace_undoes_typing(m: InputModel, c: char)
    requires
        m.wf(),
        m.editable(),
        !m.has_selection(),
    ensures
        m.typing(seq![c]) matches Some(typed) && typed.backspacing() matches Some(back)
            && back.value == m.value && back.caret == m.caret,
{
    let typed = m.typing(seq![c])->0;
    assert(!typed.has_selection());
    let back = typed.replaced(typed.caret - 1, typed.caret, Seq::empty());
    assert(back.value =~= m.value);
}

/// Typing puts the text in place of what is selected, or at the caret where
/// nothing is. What is before and behind stays, the caret goes behind the
/// text, and nothing is selected any more.
pub proof fn law_typing_replaces_what_is_selected(m: InputModel, text: Seq<char>)
    requires
        m.wf(),
        m.editable(),
        text.len() > 0,
    ensures
        m.typing(text) matches Some(typed) && typed.value == m.value.take(m.sel_start()) + text
            + m.value.skip(m.sel_end()) && typed.caret == m.sel_start() + text.len()
            && !typed.has_selection(),
{
    assert(m.typed(text).value =~= m.value.take(m.sel_start()) + text + m.value.skip(m.sel_end()));
}

/// With all of the value selected, typing replaces all of it.
pub proof fn law_select_all_then_type_replaces_the_value(m: InputModel, text: Seq<char>)
    requires
        m.wf(),
        m.editable(),
        m.value.len() > 0,
        text.len() > 0,
    ensures
        ({
            let all = match m.selecting_all() {
                Some(selected) => selected,
                None => m,
            };
            all.typing(text) matches Some(typed) && typed.value == text && typed.caret == text.len()
        }),
{
    let all = match m.selecting_all() {
        Some(selected) => selected,
        None => m,
    };
    assert(all.sel_start() == 0 && all.sel_end() == m.value.len());
    assert(all.typed(text).value =~= text);
}

/// Moving the caret to the left and back to the right leaves it where it was.
pub proof fn law_left_and_right_cancel(m: InputModel)
    requires
        m.wf(),
        m.navigable(),
        !m.has_selection(),
        m.caret > 0,
    ensures
        m.going_left(false) matches Some(left) && left.going_right(false) matches Some(right)
            && right.caret == m.caret && right.value == m.value,
{
}

/// A read-only input takes the caret's moves: where a character is to the
/// left, the caret goes there.
pub proof fn law_readonly_allows_caret_moves(m: InputModel)
    requires
        m.wf(),
        m.readonly,
        !m.disabled,
        m.kind.text_like(),
        m.caret > 0,
    ensures
        m.going_left(false) is Some,
        m.backspacing() is None,
        m.deleting() is None,
        forall|text: Seq<char>| m.typing(text) is None,
{
}

/// No keystroke changes the value of a read-only or disabled input, nor calls
/// for an `input` event.
pub proof fn law_locked_inputs_keep_their_value(m: InputModel, k: Keystroke)
    requires
        m.readonly || m.disabled,
    ensures
        crate::keys::text_edit(m, k).state.value == m.value,
        !crate::keys::text_edit(m, k).emits,
{
}

/// A keystroke on a line of text that changes the value calls for an `input`
/// event.
pub proof fn law_changed_values_are_announced(m: InputModel, k: Keystroke)
    requires
        crate::keys::text_edit(m, k).state.value != m.value,
    ensures
        crate::keys::text_edit(m, k).changed,
        crate::keys::text_edit(m, k).emits,
{
}

/// An event is only called for where what is shown has changed.
pub proof fn law_announced_edits_are_shown(m: InputModel, k: Keystroke)
    requires
        crate::keys::text_edit(m, k).emits,
    ensures
        crate::keys::text_edit(m, k).changed,
{
}

/// A keystroke that changes the value or moves the caret of a line of text
/// leaves the caret shown, and starts its blink interval anew. Any other leaves
/// the interval alone.
pub proof fn law_edits_show_the_caret(m: InputModel, k: Keystroke)
    ensures
        crate::keys::text_edit(m, k).changed ==> crate::keys::text_edit(m, k).state.blink_visible,
        crate::keys::text_edit(m, k).changed == (crate::keys::text_edit(m, k).state.restarts
            > m.restarts),
        !crate::keys::text_edit(m, k).changed ==> crate::keys::text_edit(m, k).state.restarts
            == m.restarts,
{
}

/// A value that is given to an input is read back as it was given, unless it
/// is another number that is still to be brought within its bounds.
pub proof fn law_given_values_read_back(m: InputModel, value: Seq<char>)
    requires
        !m.number_pending(value),
    ensures
        m.given(value).value == value,
{
}

/// A value that is put into a line of text or a slider is read back, with the
/// caret at its end and nothing selected, whatever was there before, unless it
/// is another number that is still to be brought within its bounds.
pub proof fn law_put_values_have_the_caret_at_their_end(m: InputModel, value: Seq<char>)
    requires
        !m.number_pending(value),
        !m.kind.checked_like(),
    ensures
        m.put(value).value == value,
        m.put(value).caret == value.len(),
        m.put(value).anchor is None,
{
}

/// A disabled input accepts no editing: no keystroke, click or number changes
/// it or any other input, or calls for an event.
pub proof fn law_disabled_inputs_accept_no_editing(
    inputs: Map<usize, InputModel>,
    id: usize,
    k: Keystroke,
    number: Seq<char>,
)
    requires
        inputs.contains_key(id),
        inputs[id].disabled,
    ensures
        crate::keys::key_edit(inputs, id, k).0 == inputs,
        crate::keys::key_edit(inputs, id, k).1 matches KeyEdit::Done { changed, emits } ==> !changed
            && !emits,
        inputs[id].kind.checked_like() ==> crate::keys::check_toggled(inputs, id) is None,
        crate::keys::number_committed(inputs, id, number) == inputs,
{
    assert(inputs.insert(id, inputs[id]) =~= inputs);
}

proof fn lemma_attrs_keep_the_value(node: A11yModel, attrs: Seq<(String, String)>, n: int)
    ensures
        node.with_attrs(attrs, n).value == node.value,
    decreases n,
{
    if n > 0 {
        lemma_attrs_keep_the_value(node, attrs, n - 1);
    }
}

/// Assistive technologies are not told a text that bullets stand for, that of
/// a password or of any other masked input, whatever its element says.
pub proof fn law_masked_values_are_not_told(
    m: InputModel,
    attrs: Seq<(String, String)>,
    n: int,
    tag: Seq<char>,
    has_href: bool,
)
    requires
        m.shows_bullets(),
    ensures
        A11yModel::new().with_input(m).with_attrs(attrs, n).with_element(
            tag,
            has_href,
        ).value is None,
{
    lemma_attrs_keep_the_value(A11yModel::new().with_input(m), attrs, n);
}

/// Extending keeps the end of the selection at which it began: where nothing
/// was selected, that is where the caret was.
pub proof fn law_extending_keeps_the_anchor(m: InputModel, to: int)
    ensures
        m.moved(to, true).anchor == match m.anchor {
            Some(a) => Some(a),
            None => Some(m.caret),
        },
        m.moved(to, true).value == m.value,
        m.moved(to, false).anchor is None,
{
}

/// The selection lies within the value, its start before its end.
pub proof fn law_selection_lies_within_the_value(m: InputModel)
    requires
        m.wf(),
        m.has_selection(),
    ensures
        0 <= m.sel_start() < m.sel_end() <= m.value.len(),
{
}

/// Masked, an input shows one bullet for each character of its value, and
/// nothing of the value itself.
pub proof fn law_masking_hides_the_value(m: InputModel)
    requires
        m.shows_bullets(),
    ensures
        m.display().len() == m.value.len(),
        forall|i: int| 0 <= i < m.display().len() ==> m.display()[i] == crate::input::BULLET,
{
}

/// The byte offset that is handed to layout for the caret is that of the
/// caret's character in the text shown for the value.
pub proof fn law_caret_offset_is_that_of_the_shown_text(m: InputModel)
    requires
        m.wf(),
        !m.kind.checked_like(),
    ensures
        m.display_caret_byte() == crate::text::byte_offset(m.display(), m.caret),
{
    if m.shows_bullets() {
        let prefix = Seq::new(m.caret as nat, |i: int| crate::input::BULLET);
        assert(m.display().take(m.caret) =~= prefix);
    }
}

/// A bullet takes three bytes.
pub proof fn law_bullets_take_three_bytes(count: nat)
    ensures
        crate::text::byte_len(Seq::new(count, |i: int| crate::input::BULLET)) == 3 * count,
    decreases count,
{
    let s = Seq::new(count, |i: int| crate::input::BULLET);
    if count == 0 {
        assert(vstd::utf8::encode_utf8(s) =~= Seq::<u8>::empty());
    } else {
        let rest = Seq::new((count - 1) as nat, |i: int| crate::input::BULLET);
        law_bullets_take_three_bytes((count - 1) as nat);
        assert(s =~= rest + seq![crate::input::BULLET]);
        crate::text::lemma_encode_concat(rest, seq![crate::input::BULLET]);
        crate::text::lemma_encode_one(crate::input::BULLET);
        assert(vstd::utf8::encode_scalar(crate::input::BULLET as u32).len() == 3);
    }
}

/// The characters from `from` to `to` are all part of words, or none is.
pub open spec fn uniform(s: Seq<char>, from: int, to: int, word: bool) -> bool {
    forall|j: int| from <= j < to ==> crate::input::is_word(#[trigger] s[j]) == word
}

/// Going back over characters stops within the text, at its start or behind a
/// character of the other sort, and all that was passed is of one sort.
proof fn lemma_back_over(s: Seq<char>, i: int, word: bool)
    requires
        0 <= i <= s.len(),
    ensures
        ({
            let to = crate::input::back_over(s, i, word);
            &&& 0 <= to <= i
            &&& to == 0 || crate::input::is_word(s[to - 1]) != word
            &&& uniform(s, to, i, word)
        }),
    decreases i,
{
    if 0 < i && crate::input::is_word(s[i - 1]) == word {
        lemma_back_over(s, i - 1, word);
    }
}

/// Going on over characters stops within the text, at its end or before a
/// character of the other sort, and all that was passed is of one sort.
proof fn lemma_on_over(s: Seq<char>, i: int, word: bool)
    requires
        0 <= i <= s.len(),
    ensures
        ({
            let to = crate::input::on_over(s, i, word);
            &&& i <= to <= s.len()
            &&& to == s.len() || crate::input::is_word(s[to]) != word
            &&& uniform(s, i, to, word)
        }),
    decreases s.len() - i,
{
    if i < s.len() && crate::input::is_word(s[i]) == word {
        lemma_on_over(s, i + 1, word);
    }
}

/// A move by a word to the left ends at the start of the text or of a word,
/// and passes one word at most.
pub proof fn law_word_left_ends_at_a_word_start(s: Seq<char>, i: int)
    requires
        0 <= i <= s.len(),
    ensures
        ({
            let to = crate::input::word_left(s, i);
            &&& 0 <= to <= i
            &&& to == 0 || !crate::input::is_word(s[to - 1])
            &&& exists|gap: int|
                to <= gap <= i && #[trigger] uniform(s, to, gap, true) && uniform(s, gap, i, false)
        }),
{
    lemma_back_over(s, i, false);
    let gap = crate::input::back_over(s, i, false);
    lemma_back_over(s, gap, true);
    assert(uniform(s, crate::input::word_left(s, i), gap, true));
}

/// A move by a word to the right ends at the end of the text or of a word, and
/// passes one word at most.
pub proof fn law_word_right_ends_at_a_word_end(s: Seq<char>, i: int)
    requires
        0 <= i <= s.len(),
    ensures
        ({
            let to = crate::input::word_right(s, i);
            &&& i <= to <= s.len()
            &&& to == s.len() || !crate::input::is_word(s[to])
            &&& exists|gap: int|
                i <= gap <= to && #[trigger] uniform(s, i, gap, false) && uniform(s, gap, to, true)
        }),
{
    lemma_on_over(s, i, false);
    let gap = crate::input::on_over(s, i, false);
    lemma_on_over(s, gap, true);
    assert(uniform(s, i, gap, false));
}

/// Choosing a radio button leaves it the only one of its group that is
/// checked, and touches nothing outside the group.
pub proof fn law_one_radio_of_a_group_is_checked(inputs: Map<usize, InputModel>, id: usize)
    requires
        inputs.contains_key(id),
    ensures
        ({
            let after = crate::keys::radio_chosen(inputs, id);
            &&& after.dom() == inputs.dom()
            &&& after[id].checked
            &&& forall|k: usize| #[trigger]
                after.contains_key(k) && k != id && inputs[id].name is Some && after[k].in_group(
                    inputs[id].name->0,
                ) ==> !after[k].checked
            &&& forall|k: usize| #[trigger]
                after.contains_key(k) && k != id && !(inputs[id].name is Some && inputs[k].in_group(
                    inputs[id].name->0,
                )) ==> after[k] == inputs[k]
        }),
{
    assert(crate::keys::radio_chosen(inputs, id).dom() =~= inputs.dom());
}

/// A checkbox that is clicked twice is as it was.
pub proof fn law_two_clicks_restore_a_checkbox(inputs: Map<usize, InputModel>, id: usize)
    requires
        inputs.contains_key(id),
        inputs[id].kind is Checkbox,
        !inputs[id].disabled,
        !inputs[id].readonly,
    ensures
        crate::keys::check_toggled(inputs, id) matches Some(once) && crate::keys::check_toggled(
            once,
            id,
        ) matches Some(twice) && twice[id].checked == inputs[id].checked && once[id].checked
            != inputs[id].checked,
{
}

/// A radio button that is chosen stays so when it is clicked.
pub proof fn law_a_chosen_radio_stays_chosen(inputs: Map<usize, InputModel>, id: usize)
    requires
        inputs.contains_key(id),
        inputs[id].kind is Radio,
        inputs[id].checked,
    ensures
        crate::keys::check_toggled(inputs, id) is None,
{
}

proof fn lemma_enabled_from(options: Seq<OptionModel>, i: int)
    requires
        0 <= i,
    ensures
        crate::select::enabled_from(options, i) matches Some(j) ==> i <= j < options.len()
            && !options[j].disabled,
    decreases options.len() - i,
{
    if i < options.len() && options[i].disabled {
        lemma_enabled_from(options, i + 1);
    }
}

proof fn lemma_enabled_to(options: Seq<OptionModel>, i: int)
    requires
        i < options.len(),
    ensures
        crate::select::enabled_to(options, i) matches Some(j) ==> 0 <= j <= i
            && !options[j].disabled,
    decreases i + 1,
{
    if 0 <= i && options[i].disabled {
        lemma_enabled_to(options, i - 1);
    }
}

proof fn lemma_typed_ahead(options: Seq<OptionModel>, c: char, i: int, left: int)
    requires
        0 <= i,
    ensures
        crate::select::typed_ahead(options, c, i, left) matches Some(j) ==> 0 <= j < options.len()
            && !options[j].disabled,
    decreases left,
{
    if left > 0 && options.len() > 0 {
        vstd::arithmetic::div_mod::lemma_mod_bound(i, options.len() as int);
        if !crate::select::answers_to(options[i % (options.len() as int)], c) {
            lemma_typed_ahead(options, c, i + 1, left - 1);
        }
    }
}

/// No keystroke selects a disabled option: the selection stays, or goes to an
/// option that is enabled.
pub proof fn law_keys_select_enabled_options(m: SelectModel, k: Keystroke)
    requires
        m.wf(),
    ensures
        m.key(k) matches Some(edit) ==> edit.state.selected == m.selected
            || (edit.state.selected matches Some(i) && 0 <= i < m.options.len()
            && !m.options[i].disabled),
{
    let len = m.options.len() as int;
    lemma_enabled_from(m.options, 0);
    if len > 0 {
        lemma_enabled_to(m.options, len - 1);
        let from = match m.selected {
            Some(i) => i,
            None => -1,
        };
        let up = match m.selected {
            Some(i) => i,
            None => len,
        };
        let page = crate::select::PAGE as int;
        let a = if from + 1 < len - 1 { from + 1 } else { len - 1 };
        let b = if from + page < len - 1 { from + page } else { len - 1 };
        let c = if up - 1 > 0 { up - 1 } else { 0 };
        let d = if up - page > 0 { up - page } else { 0 };
        lemma_enabled_from(m.options, a);
        lemma_enabled_to(m.options, a);
        lemma_enabled_from(m.options, b);
        lemma_enabled_to(m.options, b);
        lemma_enabled_from(m.options, c);
        lemma_enabled_to(m.options, c);
        lemma_enabled_from(m.options, d);
        lemma_enabled_to(m.options, d);
    }
    if let Key::Char(c) = k.key {
        let after = match m.selected {
            Some(i) => i + 1,
            None => 0,
        };
        lemma_typed_ahead(m.options, c, after, len);
    }
    assert(len == 0 ==> m.selected is None && m.active is None);
}

/// Escape closes an open select without selecting anything.
pub proof fn law_escape_keeps_the_selection(m: SelectModel, k: Keystroke)
    requires
        m.open,
        !m.disabled,
        k.key is Escape,
    ensures
        m.key(k) matches Some(edit) && !edit.state.open && edit.state.selected == m.selected
            && !edit.emits,
{
}

/// Enter, the space bar and Tab close an open select and select its
/// highlighted option, where that is enabled.
pub proof fn law_commit_selects_the_highlight(m: SelectModel, k: Keystroke)
    requires
        m.wf(),
        m.open,
        !m.disabled,
        k.key is Enter || k.key is Space || k.key is Tab,
    ensures
        m.key(k) matches Some(edit) && !edit.state.open && edit.emits && edit.state.selected == (
        if m.active matches Some(i) && !m.options[i].disabled {
            m.active
        } else {
            m.selected
        }),
{
}

/// In an open select, an arrow and its opposite cancel: the highlight is back
/// where it was.
pub proof fn law_opposite_arrows_cancel(m: SelectModel, down: Keystroke, up: Keystroke)
    requires
        m.wf(),
        m.open,
        !m.disabled,
        m.active is Some,
        down.key is ArrowDown,
        up.key is ArrowUp,
        !up.alt,
    ensures
        m.key(down) matches Some(a) && a.state.key(up) matches Some(b) && b.state.active
            == m.active,
        m.key(up) matches Some(a) && a.state.key(down) matches Some(b) && b.state.active
            == m.active,
{
    let len = m.options.len() as int;
    let at = m.active->0;
    lemma_ring(at, len);
}

/// In a ring, a step and the step back cancel.
proof fn lemma_ring(at: int, len: int)
    requires
        0 <= at < len,
    ensures
        ((at + 1) % len - 1) % len == at,
        ((at - 1) % len + 1) % len == at,
        0 <= (at + 1) % len < len,
        0 <= (at - 1) % len < len,
        ((at + 1) % len + len - 1) % len == at,
        ((at + len - 1) % len + 1) % len == at,
        0 <= (at + len - 1) % len < len,
{
    vstd::arithmetic::div_mod::lemma_mod_bound(at + 1, len);
    vstd::arithmetic::div_mod::lemma_mod_bound(at - 1, len);
    vstd::arithmetic::div_mod::lemma_mod_bound(at + len - 1, len);
    vstd::arithmetic::div_mod::lemma_small_mod(at as nat, len as nat);
    if at + 1 < len {
        vstd::arithmetic::div_mod::lemma_small_mod((at + 1) as nat, len as nat);
        vstd::arithmetic::div_mod::lemma_mod_add_multiples_vanish(at, len);
        assert((at + 1) + len - 1 == len + at);
    } else {
        vstd::arithmetic::div_mod::lemma_mod_self_0(len);
        vstd::arithmetic::div_mod::lemma_fundamental_div_mod_converse(-1, len, -1, len - 1);
        vstd::arithmetic::div_mod::lemma_small_mod((len - 1) as nat, len as nat);
    }
    if at > 0 {
        vstd::arithmetic::div_mod::lemma_small_mod((at - 1) as nat, len as nat);
        vstd::arithmetic::div_mod::lemma_mod_add_multiples_vanish(at - 1, len);
        assert(at + len - 1 == len + (at - 1));
    } else {
        vstd::arithmetic::div_mod::lemma_fundamental_div_mod_converse(-1, len, -1, len - 1);
        vstd::arithmetic::div_mod::lemma_small_mod((len - 1) as nat, len as nat);
        vstd::arithmetic::div_mod::lemma_mod_self_0(len);
    }
}

/// Tab and Shift+Tab cancel: from any control in the order, going on and back,
/// or back and on, ends at that control.
pub proof fn law_tab_and_shift_tab_cancel(order: Seq<usize>, id: usize)
    requires
        order.no_duplicates(),
        order.contains(id),
    ensures
        crate::plan::next_in_order(
            order,
            crate::plan::next_in_order(order, Some(id), false),
            true,
        ) == Some(id),
        crate::plan::next_in_order(
            order,
            crate::plan::next_in_order(order, Some(id), true),
            false,
        ) == Some(id),
{
    let len = order.len() as int;
    order.index_of_first_ensures(id);
    let at = order.index_of_first(id)->0;
    lemma_ring(at, len);
    let on = order[(at + 1) % len];
    order.index_of_first_ensures(on);
    let back = order[(at + len - 1) % len];
    order.index_of_first_ensures(back);
    assert(order.contains(on));
    assert(order.contains(back));
    assert(order.index_of_first(on)->0 == (at + 1) % len);
    assert(order.index_of_first(back)->0 == (at + len - 1) % len);
}

/// Tab reaches a control wherever there is one, and only controls.
pub proof fn law_tab_stays_among_the_controls(
    order: Seq<usize>,
    focused: Option<usize>,
    backwards: bool,
)
    ensures
        order.len() == 0 <==> crate::plan::next_in_order(order, focused, backwards) is None,
        crate::plan::next_in_order(order, focused, backwards) matches Some(id) ==> order.contains(
            id,
        ),
{
    let len = order.len() as int;
    if len > 0 {
        if let Some(id) = focused {
            order.index_of_first_ensures(id);
            if let Some(at) = order.index_of_first(id) {
                lemma_ring(at, len);
            }
        }
    }
}

/// What follows the last dot holds none, and the last dot is one.
proof fn lemma_last_dot(name: Seq<char>, end: int)
    requires
        0 <= end <= name.len(),
    ensures
        ({
            let at = crate::paths::last_dot(name, end);
            &&& -1 <= at < end
            &&& at >= 0 ==> name[at] == '.'
            &&& forall|i: int| at < i < end ==> name[i] != '.'
        }),
    decreases end,
{
    if end > 0 && name[end - 1] != '.' {
        lemma_last_dot(name, end - 1);
    }
}

/// A name that is made of a stem and an extension without dots is taken apart
/// into these two.
proof fn lemma_name_taken_apart(stem: Seq<char>, ext: Seq<char>)
    requires
        stem.len() > 0,
        ext.len() > 0,
        forall|i: int| 0 <= i < ext.len() ==> ext[i] != '.',
    ensures
        crate::paths::name_stem(stem + "."@ + ext) == stem,
        crate::paths::name_extension(stem + "."@ + ext) == Some(ext),
{
    reveal_strlit(".");
    reveal_strlit("..");
    let name = stem + "."@ + ext;
    let len = name.len() as int;
    lemma_last_dot(name, len);
    let at = crate::paths::last_dot(name, len);
    assert(name[stem.len() as int] == '.');
    assert forall|i: int| stem.len() < i < len implies name[i] != '.' by {
        assert(name[i] == ext[i - stem.len() - 1]);
    }
    assert(at == stem.len());
    assert(name[len - 1] != '.');
    assert(".."@[1] == '.');
    assert(name != ".."@);
    assert(name.take(at) =~= stem);
    assert(name.skip(at + 1) =~= ext);
}

/// The name of a capture without a suffix is the name of its own capture, and
/// an empty suffix is none. It has an extension, and a suffix keeps that.
pub proof fn law_capture_names_are_stable(name: Seq<char>, suffix: Seq<char>)
    requires
        name.len() > 0,
    ensures
        ({
            let plain = crate::capture::capture_named(name, None);
            &&& crate::capture::capture_named(plain, None) == plain
            &&& crate::capture::capture_named(name, Some(Seq::empty())) == plain
            &&& crate::paths::name_extension(plain) matches Some(ext) && ext.len() > 0
            &&& crate::paths::name_extension(crate::capture::capture_named(name, Some(suffix)))
                == crate::paths::name_extension(plain)
        }),
{
    reveal_strlit("png");
    reveal_strlit("-");
    lemma_last_dot(name, name.len() as int);
    let stem = crate::paths::name_stem(name);
    let ext = match crate::paths::name_extension(name) {
        Some(e) => if e.len() > 0 {
            e
        } else {
            "png"@
        },
        None => "png"@,
    };
    assert(forall|i: int| 0 <= i < ext.len() ==> ext[i] != '.');
    assert(stem.len() > 0);
    lemma_name_taken_apart(stem, ext);
    lemma_name_taken_apart(stem + "-"@ + suffix, ext);
}

/// A tightly packed pixel byte is that of its row and column in the padded
/// buffer.
pub proof fn law_unpacked_rows_keep_their_bytes(
    data: Seq<u8>,
    row_bytes: int,
    stride: int,
    rows: int,
    y: int,
    x: int,
)
    requires
        0 < row_bytes <= stride,
        0 <= y < rows,
        0 <= x < row_bytes,
        data.len() >= rows * stride,
    ensures
        crate::capture::unpadded(data, row_bytes, stride, rows).len() == rows * row_bytes,
        crate::capture::unpadded(data, row_bytes, stride, rows)[y * row_bytes + x] == data[y
            * stride + x],
    decreases rows,
{
    assert((rows - 1) * stride <= rows * stride) by (nonlinear_arith)
        requires
            stride > 0,
    ;
    lemma_unpadded_len(data, row_bytes, stride, rows - 1);
    lemma_unpadded_len(data, row_bytes, stride, rows);
    assert((rows - 1) * stride + row_bytes <= rows * stride) by (nonlinear_arith)
        requires
            row_bytes <= stride,
    ;
    assert(0 <= (rows - 1) * stride) by (nonlinear_arith)
        requires
            rows > 0,
            stride > 0,
    ;
    if y == rows - 1 {
        assert(0 <= (rows - 1) * row_bytes) by (nonlinear_arith)
            requires
                rows > 0,
                row_bytes > 0,
        ;
    } else {
        assert((y + 1) * row_bytes <= (rows - 1) * row_bytes) by (nonlinear_arith)
            requires
                y + 1 <= rows - 1,
                row_bytes > 0,
        ;
        assert((y + 1) * row_bytes == y * row_bytes + row_bytes) by (nonlinear_arith);
        assert(0 <= y * row_bytes) by (nonlinear_arith)
            requires
                0 <= y,
                row_bytes > 0,
        ;
        law_unpacked_rows_keep_their_bytes(data, row_bytes, stride, rows - 1, y, x);
    }
}

proof fn lemma_unpadded_len(data: Seq<u8>, row_bytes: int, stride: int, rows: int)
    requires
        0 < row_bytes <= stride,
        0 <= rows,
        data.len() >= rows * stride,
    ensures
        crate::capture::unpadded(data, row_bytes, stride, rows).len() == rows * row_bytes,
    decreases rows,
{
    if rows > 0 {
        assert((rows - 1) * stride + row_bytes <= rows * stride) by (nonlinear_arith)
            requires
                row_bytes <= stride,
        ;
        assert(0 <= (rows - 1) * stride) by (nonlinear_arith)
            requires
                rows > 0,
                stride > 0,
        ;
        assert((rows - 1) * stride <= rows * stride) by (nonlinear_arith)
            requires
                stride > 0,
        ;
        lemma_unpadded_len(data, row_bytes, stride, rows - 1);
        assert(rows * row_bytes == (rows - 1) * row_bytes + row_bytes) by (nonlinear_arith);
    } else {
        assert(rows * row_bytes == 0) by (nonlinear_arith)
            requires
                rows == 0,
        ;
    }
}

/// In a buffer for pixels of four bytes, a row begins at the first multiple of
/// 256 bytes that leaves room for the pixels of the row before.
pub proof fn law_rows_begin_at_the_next_boundary(layout: crate::capture::CaptureLayout, at: int)
    requires
        layout.wf(),
        at % 256 == 0,
        at >= 4 * layout.width,
    ensures
        layout.row_bytes == 4 * layout.width,
        layout.stride % 256 == 0,
        4 * layout.width <= layout.stride <= at,
        layout.buffer_len() == layout.stride * layout.height,
        layout.pixels_len() == layout.row_bytes * layout.height,
{
    assert(layout.pixels_len() == layout.row_bytes * layout.height) by (nonlinear_arith)
        requires
            layout.row_bytes == layout.width * 4,
            layout.pixels_len() == layout.width as nat * layout.height as nat * 4,
    ;
}

} // verus!
