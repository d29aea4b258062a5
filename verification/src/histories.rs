//! What holds after any number of calls.

use crate::dispatch_laws;
use crate::input::{InputModel, InputType};
use crate::keys::Edit;
use crate::laws;
use crate::plan::Model;
use crate::protocol::Reply;
use vstd::prelude::*;

verus! {

/// A call that changes an input.
pub enum Call {
    /// The kind is the one that was named.
    SetInputType { kind: InputType },
    SetValue { value: Seq<char> },
    PutValue { value: Seq<char> },
    Insert { text: Seq<char> },
    Backspace,
    DeleteForward,
    DeleteWordLeft,
    DeleteWordRight,
    DeleteSelection,
    SetSelection { anchor: usize, focus: usize },
    SelectAll,
    PlaceCaret { at: usize },
    PlaceCaretAtEnd,
    MoveLeft { extend: bool },
    MoveRight { extend: bool },
    MoveHome { extend: bool },
    MoveEnd { extend: bool },
    MoveWordLeft { extend: bool },
    MoveWordRight { extend: bool },
    SetReadonly { readonly: bool },
    SetDisabled { disabled: bool },
    SetMasked { masked: bool },
    SetChecked { checked: bool },
    /// A character typed into a number.
    InsertNumericChar { c: char },
    /// The text of a number stored in a number or a slider.
    StoreNumber { number: Seq<char> },
}

/// The new state, or the old one where there was nothing to do.
pub open spec fn done(m: InputModel, outcome: Option<InputModel>) -> InputModel {
    match outcome {
        Some(state) => state,
        None => m,
    }
}

/// The input after a call that types or removes.
#[verifier::opaque]
pub open spec fn edited(m: InputModel, call: Call) -> InputModel {
    match call {
        Call::Insert { text } => done(m, m.typing(text)),
        Call::Backspace => done(m, m.backspacing()),
        Call::DeleteForward => done(m, m.deleting()),
        Call::DeleteWordLeft => done(m, m.deleting_word_left()),
        Call::DeleteWordRight => done(m, m.deleting_word_right()),
        Call::DeleteSelection => done(m, m.clearing()),
        _ => m,
    }
}

/// The input after a call that moves the caret or selects.
#[verifier::opaque]
pub open spec fn moved(m: InputModel, call: Call) -> InputModel {
    match call {
        Call::SetSelection { anchor, focus } => m.selected(anchor as int, focus as int),
        Call::SelectAll => done(m, m.selecting_all()),
        Call::PlaceCaret { at } => m.caret_placed(at as int),
        Call::PlaceCaretAtEnd => m.caret_at_end(),
        Call::MoveLeft { extend } => done(m, m.going_left(extend)),
        Call::MoveRight { extend } => done(m, m.going_right(extend)),
        Call::MoveHome { extend } => done(m, m.going_home(extend)),
        Call::MoveEnd { extend } => done(m, m.going_to_end(extend)),
        Call::MoveWordLeft { extend } => done(m, m.going_word_left(extend)),
        Call::MoveWordRight { extend } => done(m, m.going_word_right(extend)),
        _ => m,
    }
}

/// The input after a call that sets something, or types into a number.
#[verifier::opaque]
pub open spec fn assigned(m: InputModel, call: Call) -> InputModel {
    match call {
        Call::SetInputType { kind } => m.with_kind(kind),
        Call::SetValue { value } => m.given(value),
        Call::PutValue { value } => m.put(value),
        Call::SetReadonly { readonly } => InputModel { readonly, ..m },
        Call::SetDisabled { disabled } => m.with_disabled(disabled),
        Call::SetMasked { masked } => InputModel { masked, ..m },
        Call::SetChecked { checked } => m.with_checked(checked),
        Call::InsertNumericChar { c } => if m.kind.numeric_like() {
            Edit::number(m, c).state
        } else {
            m
        },
        Call::StoreNumber { number } => if m.kind.numeric_like() {
            m.with_value(number)
        } else {
            m
        },
        _ => m,
    }
}

/// The input after a call.
pub open spec fn called(m: InputModel, call: Call) -> InputModel {
    match call {
        Call::Insert { .. } | Call::Backspace | Call::DeleteForward | Call::DeleteWordLeft
        | Call::DeleteWordRight | Call::DeleteSelection => edited(m, call),
        Call::SetSelection { .. } | Call::SelectAll | Call::PlaceCaret { .. }
        | Call::PlaceCaretAtEnd | Call::MoveLeft { .. } | Call::MoveRight { .. }
        | Call::MoveHome { .. } | Call::MoveEnd { .. } | Call::MoveWordLeft { .. }
        | Call::MoveWordRight { .. } => moved(m, call),
        _ => assigned(m, call),
    }
}

/// The input after calls, in order.
pub open spec fn after_calls(m: InputModel, calls: Seq<Call>) -> InputModel
    decreases calls.len(),
{
    if calls.len() == 0 {
        m
    } else {
        called(after_calls(m, calls.drop_last()), calls.last())
    }
}

/// The caret and the selection stand within the value, and those of a checkbox
/// or radio button at the start.
pub open spec fn settled(m: InputModel) -> bool {
    &&& m.wf()
    &&& m.kind.checked_like() ==> m.caret == 0
}

/// Characters replaced within the value of a line of text or a number leave
/// it settled.
proof fn lemma_replaced(m: InputModel, start: int, end: int, text: Seq<char>)
    requires
        settled(m),
        !m.kind.checked_like(),
        0 <= start <= end <= m.value.len(),
    ensures
        settled(m.replaced(start, end, text)),
        m.replaced(start, end, text).value.len() == m.value.len() - (end - start) + text.len(),
{
}

proof fn lemma_removing(m: InputModel, start: int, end: int)
    requires
        settled(m),
        m.editable() ==> 0 <= start <= end <= m.value.len(),
    ensures
        settled(done(m, m.removing(start, end))),
        settled(done(m, m.clearing())),
{
    if m.editable() {
        lemma_replaced(m, start, end, Seq::empty());
        lemma_replaced(m, m.sel_start(), m.sel_end(), Seq::empty());
    }
}

proof fn lemma_typed_number(m: InputModel, c: char)
    requires
        settled(m),
        m.kind.numeric_like(),
    ensures
        settled(Edit::number(m, c).state),
{
    lemma_replaced(m, m.sel_start(), m.sel_end(), Seq::empty());
    let rest = m.without_selection();
    assert(settled(rest));
    lemma_replaced(rest, rest.caret, rest.caret, seq![c]);
}

proof fn lemma_edited(m: InputModel, call: Call)
    requires
        settled(m),
    ensures
        settled(edited(m, call)),
{
    reveal(edited);
    let len = m.value.len() as int;
    laws::law_word_left_ends_at_a_word_start(m.value, m.caret);
    laws::law_word_right_ends_at_a_word_end(m.value, m.caret);
    match call {
        Call::Insert { text } => {
            if m.editable() {
                lemma_replaced(m, m.sel_start(), m.sel_end(), text);
            }
        },
        Call::Backspace => lemma_removing(
            m,
            if m.caret > 0 {
                m.caret - 1
            } else {
                0
            },
            m.caret,
        ),
        Call::DeleteForward => lemma_removing(
            m,
            m.caret,
            if m.caret < len {
                m.caret + 1
            } else {
                m.caret
            },
        ),
        Call::DeleteWordLeft => lemma_removing(
            m,
            crate::input::word_left(m.value, m.caret),
            m.caret,
        ),
        Call::DeleteWordRight => lemma_removing(
            m,
            m.caret,
            crate::input::word_right(m.value, m.caret),
        ),
        Call::DeleteSelection => lemma_removing(m, m.caret, m.caret),
        _ => {},
    }
}

#[verifier::rlimit(40)]
proof fn lemma_moved(m: InputModel, call: Call)
    requires
        settled(m),
    ensures
        settled(moved(m, call)),
{
    reveal(moved);
    laws::law_word_left_ends_at_a_word_start(m.value, m.caret);
    laws::law_word_right_ends_at_a_word_end(m.value, m.caret);
}

proof fn lemma_assigned(m: InputModel, call: Call)
    requires
        settled(m),
    ensures
        settled(assigned(m, call)),
{
    reveal(assigned);
    if let Call::InsertNumericChar { c } = call {
        if m.kind.numeric_like() {
            lemma_typed_number(m, c);
        }
    }
}

proof fn lemma_called(m: InputModel, call: Call)
    requires
        settled(m),
    ensures
        settled(called(m, call)),
{
    lemma_edited(m, call);
    lemma_moved(m, call);
    lemma_assigned(m, call);
}

proof fn lemma_after_calls(calls: Seq<Call>)
    ensures
        settled(after_calls(InputModel::new(), calls)),
    decreases calls.len(),
{
    if calls.len() > 0 {
        lemma_after_calls(calls.drop_last());
        lemma_called(after_calls(InputModel::new(), calls.drop_last()), calls.last());
    }
}

/// Whatever is called on a new input, of whatever kind it becomes: its caret
/// and its selection are places in its value, and the caret is at one end of
/// the selection.
pub proof fn law_caret_and_selection_stay_within_the_value(calls: Seq<Call>)
    ensures
        ({
            let m = after_calls(InputModel::new(), calls);
            &&& 0 <= m.caret <= m.value.len()
            &&& 0 <= m.sel_start() <= m.sel_end() <= m.value.len()
            &&& m.caret == m.sel_start() || m.caret == m.sel_end()
        }),
{
    lemma_after_calls(calls);
}

/// A part taken out of what may be typed on the way to a number leaves such a
/// text.
proof fn lemma_number_without_part(s: Seq<char>, from: int, to: int)
    requires
        crate::text::number_text(s),
        0 <= from <= to <= s.len(),
    ensures
        crate::text::number_text(crate::text::spliced(s, from, to, Seq::empty())),
{
    let rest = crate::text::spliced(s, from, to, Seq::empty());
    let body = crate::text::number_body(s);
    let left = crate::text::number_body(rest);
    let skipped: int = s.len() - body.len();
    let dropped: int = rest.len() - left.len();
    // The place in `body` of the character at `i` in `left`.
    let origin = |i: int|
        if i + dropped < from {
            i + dropped - skipped
        } else {
            i + dropped + (to - from) - skipped
        };
    assert forall|i: int| 0 <= i < left.len() implies 0 <= origin(i) < body.len() && #[trigger] left[i]
        == body[origin(i)] by {
        assert(left[i] == rest[i + dropped]);
        if from == 0 && skipped == 1 && to == 0 {
            assert(rest =~= s);
        }
    }
    assert forall|i: int, j: int| 0 <= i < j < left.len() implies !(#[trigger] left[i] == '.'
        && #[trigger] left[j] == '.') by {
        assert(left[i] == body[origin(i)]);
        assert(left[j] == body[origin(j)]);
        assert(origin(i) < origin(j));
    }
    assert forall|i: int| 0 <= i < left.len() implies crate::text::is_digit(#[trigger] left[i])
        || left[i] == '.' by {
        assert(left[i] == body[origin(i)]);
    }
}

/// Typing into a number keeps its value what may be typed on the way to a
/// number. A character that fits is one of those of which numbers are typed;
/// where nothing is selected, it goes in at the caret, which goes behind it,
/// and one that does not fit changes nothing.
pub proof fn law_numbers_stay_numbers(m: InputModel, c: char)
    requires
        settled(m),
        crate::text::number_text(m.value),
    ensures
        crate::text::number_text(Edit::number(m, c).state.value),
        m.typed_into_number(c) matches Some(typed) ==> {
            &&& InputModel::number_char(c)
            &&& crate::text::number_text(typed.value)
            &&& !m.has_selection() ==> typed.value == m.value.take(m.caret) + seq![c] + m.value.skip(
                m.caret,
            ) && typed.caret == m.caret + 1
        },
        crate::text::number_text(m.selection_dropped().value),
        !m.has_selection() ==> m.selection_dropped() == m,
{
    if m.has_selection() {
        lemma_number_without_part(m.value, m.sel_start(), m.sel_end());
    }
    if let Some(typed) = m.typed_into_number(c) {
        let rest = m.without_selection();
        let body = crate::text::number_body(typed.value);
        let at = rest.caret;
        assert(typed.value[at] == c);
        if body.len() == typed.value.len() {
            assert(body[at] == c);
        } else if at > 0 {
            assert(body[at - 1] == c);
        }
        if !m.has_selection() {
            assert(typed.value =~= m.value.take(m.caret) + seq![c] + m.value.skip(m.caret));
        }
    }
}

/// The control that has the focus after so many presses of Tab, or of
/// Shift+Tab.
pub open spec fn tabbed(
    order: Seq<usize>,
    focused: Option<usize>,
    backwards: bool,
    presses: nat,
) -> Option<usize>
    decreases presses,
{
    if presses == 0 {
        focused
    } else {
        crate::plan::next_in_order(
            order,
            tabbed(order, focused, backwards, (presses - 1) as nat),
            backwards,
        )
    }
}

/// The place in a ring of `len` that so many steps lead to.
pub open spec fn ring_place(len: int, at: int, backwards: bool, steps: int) -> int {
    if backwards {
        (at - steps) % len
    } else {
        (at + steps) % len
    }
}

proof fn lemma_tabbed(order: Seq<usize>, at: int, backwards: bool, presses: nat)
    requires
        order.no_duplicates(),
        0 <= at < order.len(),
    ensures
        tabbed(order, Some(order[at]), backwards, presses) == Some(
            order[ring_place(order.len() as int, at, backwards, presses as int)],
        ),
    decreases presses,
{
    let len = order.len() as int;
    if presses == 0 {
        vstd::arithmetic::div_mod::lemma_small_mod(at as nat, len as nat);
    } else {
        lemma_tabbed(order, at, backwards, (presses - 1) as nat);
        let from = ring_place(len, at, backwards, presses - 1);
        let sum = if backwards {
            at - (presses - 1)
        } else {
            at + (presses - 1)
        };
        vstd::arithmetic::div_mod::lemma_mod_bound(sum, len);
        let id = order[from];
        order.index_of_first_ensures(id);
        assert(order.contains(id));
        assert(order.index_of_first(id)->0 == from);
        if backwards {
            vstd::arithmetic::div_mod::lemma_sub_mod_noop(sum, 1, len);
            vstd::arithmetic::div_mod::lemma_sub_mod_noop(from, 1, len);
            vstd::arithmetic::div_mod::lemma_mod_twice(sum, len);
            vstd::arithmetic::div_mod::lemma_mod_add_multiples_vanish(from - 1, len);
            assert(from + len - 1 == len + (from - 1));
        } else {
            vstd::arithmetic::div_mod::lemma_add_mod_noop(sum, 1, len);
            vstd::arithmetic::div_mod::lemma_add_mod_noop(from, 1, len);
            vstd::arithmetic::div_mod::lemma_mod_twice(sum, len);
        }
    }
}

/// From a focused control, as many presses of Tab as there are controls visit
/// each of them once and end where they began. So do as many of Shift+Tab.
pub proof fn law_tabs_visit_every_control_once(order: Seq<usize>, at: int, backwards: bool)
    requires
        order.no_duplicates(),
        0 <= at < order.len(),
    ensures
        forall|id: usize| #[trigger]
            order.contains(id) ==> exists|presses: nat|
                0 < presses <= order.len() && #[trigger] tabbed(
                    order,
                    Some(order[at]),
                    backwards,
                    presses,
                ) == Some(id),
        forall|i: nat, j: nat|
            0 < i < j <= order.len() ==> #[trigger] tabbed(order, Some(order[at]), backwards, i)
                != #[trigger] tabbed(order, Some(order[at]), backwards, j),
        tabbed(order, Some(order[at]), backwards, order.len()) == Some(order[at]),
{
    let len = order.len() as int;
    assert forall|id: usize| #[trigger] order.contains(id) implies exists|presses: nat|
        0 < presses <= order.len() && #[trigger] tabbed(
            order,
            Some(order[at]),
            backwards,
            presses,
        ) == Some(id) by {
        let to = choose|k: int| 0 <= k < order.len() && order[k] == id;
        let ahead = if backwards {
            at - to
        } else {
            to - at
        };
        let presses = (if ahead > 0 {
            ahead
        } else {
            ahead + len
        }) as nat;
        lemma_tabbed(order, at, backwards, presses);
        vstd::arithmetic::div_mod::lemma_small_mod(to as nat, len as nat);
        lemma_ring_wraps(to, len);
        assert(tabbed(order, Some(order[at]), backwards, presses) == Some(id));
    }
    assert forall|i: nat, j: nat| 0 < i < j <= order.len() implies #[trigger] tabbed(
        order,
        Some(order[at]),
        backwards,
        i,
    ) != #[trigger] tabbed(order, Some(order[at]), backwards, j) by {
        lemma_tabbed(order, at, backwards, i);
        lemma_tabbed(order, at, backwards, j);
        lemma_ring_places_differ(len, at, backwards, i as int, j as int);
    }
    lemma_tabbed(order, at, backwards, order.len());
    vstd::arithmetic::div_mod::lemma_small_mod(at as nat, len as nat);
    lemma_ring_wraps(at, len);
}

/// A whole round ends where it began.
proof fn lemma_ring_wraps(at: int, len: int)
    requires
        0 <= at < len,
    ensures
        (at + len) % len == at,
        (at - len) % len == at,
{
    vstd::arithmetic::div_mod::lemma_small_mod(at as nat, len as nat);
    vstd::arithmetic::div_mod::lemma_fundamental_div_mod_converse(at + len, len, 1, at);
    vstd::arithmetic::div_mod::lemma_fundamental_div_mod_converse(at - len, len, -1, at);
}

/// Less than a round apart, two places of a ring differ.
proof fn lemma_ring_places_differ(len: int, at: int, backwards: bool, i: int, j: int)
    requires
        0 <= at < len,
        0 < i < j <= len,
    ensures
        ring_place(len, at, backwards, i) != ring_place(len, at, backwards, j),
        0 <= ring_place(len, at, backwards, i) < len,
        0 <= ring_place(len, at, backwards, j) < len,
{
    let x = if backwards {
        at - i
    } else {
        at + i
    };
    let y = if backwards {
        at - j
    } else {
        at + j
    };
    vstd::arithmetic::div_mod::lemma_mod_bound(x, len);
    vstd::arithmetic::div_mod::lemma_mod_bound(y, len);
    vstd::arithmetic::div_mod::lemma_fundamental_div_mod(x, len);
    vstd::arithmetic::div_mod::lemma_fundamental_div_mod(y, len);
    if x % len == y % len {
        let a = x / len;
        let b = y / len;
        assert(x - y == len * (a - b)) by (nonlinear_arith)
            requires
                x == len * a + x % len,
                y == len * b + y % len,
                x % len == y % len,
        ;
        assert(x == y || x - y >= len || y - x >= len) by (nonlinear_arith)
            requires
                x - y == len * (a - b),
                len > 0,
        ;
        assert(i == 0 || j - i < len);
    }
}

/// Something that happens to an instance with stylesheets.
pub enum SheetCall {
    Add { css: Seq<char> },
    Replace { id: u64, css: Seq<char> },
    Remove { id: u64 },
    /// The host answers what is due.
    Step { reply: Reply },
}

/// The instance after it.
pub open spec fn sheets_called(m: Model, call: SheetCall) -> Model {
    match call {
        SheetCall::Add { css } => m.with_sheet(css),
        SheetCall::Replace { id, css } => m.with_sheet_replaced(id, css),
        SheetCall::Remove { id } => m.without_sheet(id),
        SheetCall::Step { reply } => m.stepped(reply),
    }
}

/// The instance after all of them, in order.
pub open spec fn after_sheet_calls(m: Model, calls: Seq<SheetCall>) -> Model
    decreases calls.len(),
{
    if calls.len() == 0 {
        m
    } else {
        sheets_called(after_sheet_calls(m, calls.drop_last()), calls.last())
    }
}

proof fn lemma_after_sheet_calls(m: Model, id: u64, calls: Seq<SheetCall>)
    requires
        !m.sheets.contains_key(id),
        id < m.next_sheet,
        m.next_sheet + calls.len() <= u64::MAX,
    ensures
        !after_sheet_calls(m, calls).sheets.contains_key(id),
        m.next_sheet <= after_sheet_calls(m, calls).next_sheet <= m.next_sheet + calls.len(),
    decreases calls.len(),
{
    if calls.len() > 0 {
        lemma_after_sheet_calls(m, id, calls.drop_last());
        let n = after_sheet_calls(m, calls.drop_last());
        if let SheetCall::Step { reply } = calls.last() {
            if n.agenda.len() > 0 {
                dispatch_laws::law_answers_keep_the_frame(
                    Model { agenda: n.agenda.drop_last(), ..n },
                    n.agenda.last(),
                    reply,
                );
            }
        }
    }
}

/// A stylesheet that was removed stays removed, whatever is registered,
/// replaced, removed or dispatched since, while there are numbers left: it is
/// not known, to replace or to remove it again changes nothing, and its number
/// is not given to another.
pub proof fn law_removed_stylesheets_stay_removed(m: Model, id: u64, calls: Seq<SheetCall>)
    requires
        m.wf(),
        m.sheets.contains_key(id),
        m.next_sheet + calls.len() <= u64::MAX,
    ensures
        ({
            let n = after_sheet_calls(m.without_sheet(id), calls);
            &&& n.sheet(id) is None
            &&& n.without_sheet(id) == n
            &&& forall|css: Seq<char>| #[trigger] n.with_sheet_replaced(id, css) == n
            &&& n.next_sheet != id
        }),
{
    lemma_after_sheet_calls(m.without_sheet(id), id, calls);
}

} // verus!
