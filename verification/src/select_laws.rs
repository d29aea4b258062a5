//! What each key does to a select, in terms of its options.

use crate::events::{Key, Keystroke};
use crate::select::{OptionModel, SelectModel};
use vstd::prelude::*;

verus! {

/// The option at a place can be selected.
pub open spec fn selectable(m: SelectModel, i: int) -> bool {
    0 <= i < m.options.len() && !m.options[i].disabled
}

/// No option between two places, these left out, can be selected.
pub open spec fn none_between(m: SelectModel, from: int, to: int) -> bool {
    forall|i: int| from < i < to ==> !#[trigger] selectable(m, i)
}

/// The selected and the highlighted option exist.
pub open spec fn consistent(m: SelectModel) -> bool {
    &&& m.selected matches Some(i) ==> 0 <= i < m.options.len()
    &&& m.active matches Some(i) ==> 0 <= i < m.options.len()
}

/// A keystroke selects the option at `i`, which is announced, and changes
/// nothing else.
pub open spec fn selects(m: SelectModel, k: Keystroke, i: int) -> bool {
    m.key(k) matches Some(edit) && edit.emits && edit.state == (SelectModel {
        selected: Some(i),
        ..m
    })
}

/// A keystroke highlights the option at `i`, which is not announced, and changes
/// nothing else.
pub open spec fn highlights(m: SelectModel, k: Keystroke, i: int) -> bool {
    m.key(k) matches Some(edit) && !edit.emits && edit.state == (SelectModel {
        active: Some(i),
        ..m
    })
}

/// The place of the selected option, or that before the first.
pub open spec fn place_or_before(m: SelectModel) -> int {
    match m.selected {
        Some(i) => i,
        None => -1,
    }
}

/// The place of the selected option, or that behind the last.
pub open spec fn place_or_behind(m: SelectModel) -> int {
    match m.selected {
        Some(i) => i,
        None => m.options.len() as int,
    }
}

proof fn lemma_enabled_from(m: SelectModel, i: int)
    requires
        0 <= i,
    ensures
        match crate::select::enabled_from(m.options, i) {
            Some(j) => i <= j && selectable(m, j) && none_between(m, i - 1, j),
            None => none_between(m, i - 1, m.options.len() as int),
        },
    decreases m.options.len() - i,
{
    if i < m.options.len() && m.options[i].disabled {
        lemma_enabled_from(m, i + 1);
        assert(!selectable(m, i));
    }
}

proof fn lemma_enabled_to(m: SelectModel, i: int)
    requires
        i < m.options.len(),
    ensures
        match crate::select::enabled_to(m.options, i) {
            Some(j) => j <= i && selectable(m, j) && none_between(m, j, i + 1),
            None => none_between(m, -1, i + 1),
        },
    decreases i + 1,
{
    if 0 <= i && m.options[i].disabled {
        lemma_enabled_to(m, i - 1);
        assert(!selectable(m, i));
    }
}

/// On a closed select the down arrow selects the next option that can be
/// selected, and the up arrow the one before: every option passed cannot. Where
/// there is none ahead, nothing happens.
pub proof fn law_arrows_select_the_neighbour(m: SelectModel, k: Keystroke)
    requires
        consistent(m),
        !m.open,
        !m.disabled,
        ((k.key is ArrowDown || k.key is Down) && !k.alt) || k.key is ArrowUp || k.key is Up,
    ensures
        k.key is ArrowDown || k.key is Down ==> match m.key(k) {
            Some(edit) => edit.state.selected matches Some(j) && selects(m, k, j) && selectable(
                m,
                j,
            ) && place_or_before(m) < j && none_between(m, place_or_before(m), j),
            None => none_between(m, place_or_before(m), m.options.len() as int),
        },
        k.key is ArrowUp || k.key is Up ==> match m.key(k) {
            Some(edit) => edit.state.selected matches Some(j) && selects(m, k, j) && selectable(
                m,
                j,
            ) && j < place_or_behind(m) && none_between(m, j, place_or_behind(m)),
            None => none_between(m, -1, place_or_behind(m)),
        },
{
    let len = m.options.len() as int;
    let from = place_or_before(m);
    let to = if from + 1 < len - 1 {
        from + 1
    } else {
        len - 1
    };
    let above = place_or_behind(m);
    let up = if above - 1 > 0 {
        above - 1
    } else {
        0
    };
    if len > 0 {
        lemma_enabled_from(m, to);
        lemma_enabled_to(m, to);
        lemma_enabled_from(m, up);
        lemma_enabled_to(m, up);
    }
}

/// Where every option can be selected, the arrows go one option on and one
/// back, and at the ends do nothing.
pub proof fn law_arrows_step_by_one(m: SelectModel, down: Keystroke, up: Keystroke, i: int)
    requires
        consistent(m),
        !m.open,
        !m.disabled,
        m.selected == Some(i),
        forall|j: int| 0 <= j < m.options.len() ==> #[trigger] selectable(m, j),
        down.key is ArrowDown,
        !down.alt,
        up.key is ArrowUp,
    ensures
        if i + 1 < m.options.len() {
            selects(m, down, i + 1)
        } else {
            m.key(down) is None
        },
        if i > 0 {
            selects(m, up, i - 1)
        } else {
            m.key(up) is None
        },
{
    law_arrows_select_the_neighbour(m, down);
    law_arrows_select_the_neighbour(m, up);
    assert(selectable(m, i));
    if i + 1 < m.options.len() {
        assert(selectable(m, i + 1));
    }
    if i > 0 {
        assert(selectable(m, i - 1));
    }
}

/// On a closed select the page keys go ten options on or back, or to the last or
/// the first option where there are fewer. From there they go on, in the same
/// direction, to the next option that can be selected, or else come back to the
/// last one that was passed. Where none is ahead, nothing happens.
pub proof fn law_page_keys_go_ten_options(m: SelectModel, k: Keystroke)
    requires
        consistent(m),
        !m.open,
        !m.disabled,
        k.key is PageDown || k.key is PageUp,
    ensures
        k.key is PageDown ==> ({
            let last = m.options.len() - 1;
            let goal = if place_or_before(m) + 10 < last {
                place_or_before(m) + 10
            } else {
                last
            };
            match m.key(k) {
                Some(edit) => edit.state.selected matches Some(j) && selects(m, k, j) && selectable(
                    m,
                    j,
                ) && place_or_before(m) < j && (if j >= goal {
                    none_between(m, goal - 1, j)
                } else {
                    none_between(m, j, m.options.len() as int)
                }),
                None => none_between(m, place_or_before(m), m.options.len() as int),
            }
        }),
        k.key is PageUp ==> ({
            let goal = if place_or_behind(m) - 10 > 0 {
                place_or_behind(m) - 10
            } else {
                0
            };
            match m.key(k) {
                Some(edit) => edit.state.selected matches Some(j) && selects(m, k, j) && selectable(
                    m,
                    j,
                ) && j < place_or_behind(m) && (if j <= goal {
                    none_between(m, j, goal + 1)
                } else {
                    none_between(m, -1, j)
                }),
                None => none_between(m, -1, place_or_behind(m)),
            }
        }),
{
    let len = m.options.len() as int;
    let from = place_or_before(m);
    let to = if from + 10 < len - 1 {
        from + 10
    } else {
        len - 1
    };
    let above = place_or_behind(m);
    let up = if above - 10 > 0 {
        above - 10
    } else {
        0
    };
    if len > 0 {
        lemma_enabled_from(m, to);
        lemma_enabled_to(m, to);
        lemma_enabled_from(m, up);
        lemma_enabled_to(m, up);
    }
}

/// Home and End go to the first and to the last option that can be selected: on
/// a closed select they select it, unless it is selected, and on an open one
/// they highlight it.
pub proof fn law_home_and_end_go_to_the_outermost_options(m: SelectModel, k: Keystroke)
    requires
        consistent(m),
        !m.disabled,
        k.key is Home || k.key is End,
    ensures
        match m.key(k) {
            Some(edit) => {
                let to = if m.open {
                    edit.state.active
                } else {
                    edit.state.selected
                };
                &&& to matches Some(j) && selectable(m, j) && (if k.key is Home {
                    none_between(m, -1, j)
                } else {
                    none_between(m, j, m.options.len() as int)
                }) && (if m.open {
                    highlights(m, k, j)
                } else {
                    selects(m, k, j) && m.selected != Some(j)
                })
            },
            None => none_between(m, -1, m.options.len() as int) || (!m.open && (
            m.selected matches Some(j) && selectable(m, j) && (if k.key is Home {
                none_between(m, -1, j)
            } else {
                none_between(m, j, m.options.len() as int)
            }))),
        },
{
    lemma_enabled_from(m, 0);
    lemma_enabled_to(m, m.options.len() - 1);
}

/// The select is open, with the selected option highlighted, or else the first
/// that can be selected. The selection stays.
pub open spec fn popped_up(m: SelectModel, after: SelectModel) -> bool {
    &&& after == (SelectModel { open: true, active: after.active, ..m })
    &&& match after.active {
        Some(i) => selectable(m, i) && (m.selected == Some(i) || (!(m.selected is Some
            && selectable(m, m.selected->0)) && none_between(m, -1, i))),
        None => none_between(m, -1, m.options.len() as int),
    }
}

/// The space bar, Enter and Alt with the down arrow open a closed select,
/// without an announcement.
pub proof fn law_keys_open_a_select(m: SelectModel, k: Keystroke)
    requires
        consistent(m),
        !m.open,
        !m.disabled,
        k.key is Space || k.key is Enter || ((k.key is ArrowDown || k.key is Down) && k.alt),
    ensures
        m.key(k) matches Some(edit) && !edit.emits && popped_up(m, edit.state),
{
    lemma_enabled_from(m, 0);
    if let Some(i) = m.selected {
        assert(selectable(m, i) == !m.options[i].disabled);
    }
}

/// Two characters are the same letter, whatever the case, or the same character.
pub open spec fn same_letter(a: char, b: char) -> bool {
    a == b || ('A' <= a && a <= 'Z' && b as u32 == a as u32 + 32) || ('A' <= b && b <= 'Z'
        && a as u32 == b as u32 + 32)
}

/// Typing `c` may go to the option: it can be selected, and its label begins
/// with that letter.
pub open spec fn begins_with(option: OptionModel, c: char) -> bool {
    !option.disabled && option.label.len() > 0 && same_letter(option.label[0], c)
}

proof fn lemma_same_letter(a: char, b: char)
    ensures
        same_letter(a, b) == (crate::text::ascii_lower(a) == crate::text::ascii_lower(b)),
{
    if 'A' <= a && a <= 'Z' {
        assert(crate::text::ascii_lower(a) as u32 == a as u32 + 32);
    }
    if 'A' <= b && b <= 'Z' {
        assert(crate::text::ascii_lower(b) as u32 == b as u32 + 32);
    }
    assert(a as u32 == b as u32 ==> a == b);
}

/// The place so many options behind `from`, going round.
pub open spec fn round(m: SelectModel, from: int, ahead: int) -> int {
    (from + ahead) % (m.options.len() as int)
}

proof fn lemma_typed_ahead(m: SelectModel, c: char, from: int, passed: int, left: int)
    requires
        m.options.len() > 0,
        0 <= passed,
        0 <= left,
        from >= 0,
        forall|d: int| 0 <= d < passed ==> !begins_with(m.options[#[trigger] round(m, from, d)], c),
    ensures
        match crate::select::typed_ahead(m.options, c, from + passed, left) {
            Some(j) => exists|d: int| {
                &&& passed <= d < passed + left
                &&& j == #[trigger] round(m, from, d)
                &&& begins_with(m.options[j], c)
                &&& forall|e: int|
                    0 <= e < d ==> !begins_with(m.options[#[trigger] round(m, from, e)], c)
            },
            None => forall|d: int|
                0 <= d < passed + left ==> !begins_with(m.options[#[trigger] round(m, from, d)], c),
        },
    decreases left,
{
    if left > 0 {
        let at = round(m, from, passed);
        vstd::arithmetic::div_mod::lemma_mod_bound(from + passed, m.options.len() as int);
        lemma_same_letter(m.options[at].label[0], c);
        if !begins_with(m.options[at], c) {
            lemma_typed_ahead(m, c, from, passed + 1, left - 1);
            assert(from + passed + 1 == from + (passed + 1));
        } else {
            assert(crate::select::answers_to(m.options[at], c));
        }
    }
}

/// A character typed on a closed select goes to the first option behind the
/// selected one, going round, whose label begins with it, whatever the case.
/// Where there is none but the selected one, nothing happens.
pub proof fn law_typing_ahead_goes_to_the_next_label(m: SelectModel, k: Keystroke, c: char)
    requires
        consistent(m),
        !m.open,
        !m.disabled,
        m.options.len() > 0,
        k.key == Key::Char(c),
        !k.ctrl,
        !k.alt,
        !k.meta,
    ensures
        ({
            let from = place_or_before(m) + 1;
            let len = m.options.len() as int;
            match m.key(k) {
                Some(edit) => exists|d: int| {
                    &&& 0 <= d < len
                    &&& selects(m, k, #[trigger] round(m, from, d))
                    &&& begins_with(m.options[round(m, from, d)], c)
                    &&& forall|e: int|
                        0 <= e < d ==> !begins_with(m.options[#[trigger] round(m, from, e)], c)
                },
                None => forall|d: int|
                    0 <= d < len && m.selected != Some(#[trigger] round(m, from, d))
                        ==> !begins_with(m.options[round(m, from, d)], c),
            }
        }),
{
    let from = place_or_before(m) + 1;
    let len = m.options.len() as int;
    lemma_typed_ahead(m, c, from, 0, len);
    if m.key(k) is None {
        if let Some(j) = crate::select::typed_ahead(m.options, c, from, len) {
            let d = choose|d: int| {
                &&& 0 <= d < len
                &&& j == #[trigger] round(m, from, d)
                &&& begins_with(m.options[j], c)
                &&& forall|e: int|
                    0 <= e < d ==> !begins_with(m.options[#[trigger] round(m, from, e)], c)
            };
            assert(m.selected == Some(j));
            // The selected option is the last to be looked at.
            assert(d == len - 1) by {
                let i = j;
                assert(from == i + 1);
                if d < len - 1 {
                    if i + 1 + d < len {
                        vstd::arithmetic::div_mod::lemma_small_mod((i + 1 + d) as nat, len as nat);
                    } else {
                        vstd::arithmetic::div_mod::lemma_small_mod(
                            (i + 1 + d - len) as nat,
                            len as nat,
                        );
                        vstd::arithmetic::div_mod::lemma_mod_add_multiples_vanish(
                            i + 1 + d - len,
                            len,
                        );
                        assert(len + (i + 1 + d - len) == from + d);
                    }
                }
            }
        }
    }
}

/// The option from which the arrows move the highlight: the highlighted one, or
/// else the selected one, or else the first.
pub open spec fn highlight_from(m: SelectModel) -> int {
    match m.active {
        Some(i) => i,
        None => match m.selected {
            Some(i) => i,
            None => 0,
        },
    }
}

/// In an open select the down arrow highlights the following option, and behind
/// the last one the first; the up arrow goes the other way. The selection stays,
/// and nothing is announced.
pub proof fn law_arrows_move_the_highlight(m: SelectModel, k: Keystroke)
    requires
        consistent(m),
        m.open,
        !m.disabled,
        m.options.len() > 0,
        k.key is ArrowDown || k.key is Down || ((k.key is ArrowUp || k.key is Up) && !k.alt),
    ensures
        ({
            let at = highlight_from(m);
            let last = m.options.len() - 1;
            if k.key is ArrowDown || k.key is Down {
                highlights(
                    m,
                    k,
                    if at < last {
                        at + 1
                    } else {
                        0
                    },
                )
            } else {
                highlights(
                    m,
                    k,
                    if at > 0 {
                        at - 1
                    } else {
                        last
                    },
                )
            }
        }),
{
    let len = m.options.len() as int;
    let at = highlight_from(m);
    if at + 1 < len {
        vstd::arithmetic::div_mod::lemma_small_mod((at + 1) as nat, len as nat);
    } else {
        vstd::arithmetic::div_mod::lemma_mod_self_0(len);
    }
    if at > 0 {
        vstd::arithmetic::div_mod::lemma_small_mod((at - 1) as nat, len as nat);
    } else {
        vstd::arithmetic::div_mod::lemma_fundamental_div_mod_converse(-1, len, -1, len - 1);
    }
}

/// Enter, the space bar, Tab and Alt with the up arrow close an open select with
/// nothing highlighted, and select what was, where it can be selected. That is
/// announced.
pub proof fn law_keys_commit_the_highlight(m: SelectModel, k: Keystroke)
    requires
        consistent(m),
        m.open,
        !m.disabled,
        k.key is Enter || k.key is Space || k.key is Tab || ((k.key is ArrowUp || k.key is Up)
            && k.alt),
    ensures
        m.key(k) matches Some(edit) && edit.emits && edit.state == (SelectModel {
            open: false,
            active: None,
            selected: if m.active matches Some(i) && selectable(m, i) {
                m.active
            } else {
                m.selected
            },
            ..m
        }),
{
}

/// Escape closes an open select with nothing highlighted. The selection stays,
/// and nothing is announced.
pub proof fn law_escape_closes_a_select(m: SelectModel, k: Keystroke)
    requires
        m.open,
        !m.disabled,
        k.key is Escape,
    ensures
        m.key(k) matches Some(edit) && !edit.emits && edit.state == (SelectModel {
            open: false,
            active: None,
            ..m
        }),
{
}

/// A disabled select takes no key. An open one leaves characters, the page keys
/// and the keys of text editing to others, and a closed one Tab, Escape,
/// characters with modifiers and the keys of text editing.
pub proof fn law_other_keys_leave_selects_alone(m: SelectModel, k: Keystroke)
    requires
        m.disabled || k.key is Backspace || k.key is Delete || k.key is ArrowLeft || k.key is ArrowRight
            || k.key is Other || (m.open && (k.key is Char || k.key is PageUp || k.key is PageDown))
            || (!m.open && (k.key is Tab || k.key is Escape || (k.key is Char && (k.ctrl || k.alt
            || k.meta)))),
    ensures
        m.key(k) is None,
{
}

/// The first and the last option that can be selected are found, where there is
/// one: no option beyond them can be.
pub proof fn law_the_outermost_options_are_found(m: SelectModel)
    ensures
        match crate::select::enabled_from(m.options, 0) {
            Some(j) => selectable(m, j) && none_between(m, -1, j),
            None => none_between(m, -1, m.options.len() as int),
        },
        match crate::select::enabled_to(m.options, m.options.len() - 1) {
            Some(j) => selectable(m, j) && none_between(m, j, m.options.len() as int),
            None => none_between(m, -1, m.options.len() as int),
        },
{
    lemma_enabled_from(m, 0);
    lemma_enabled_to(m, m.options.len() - 1);
}

/// Some options on, or to the last where there are fewer, there is the place to
/// go to, and then on to the next option that can be selected; where there is
/// none, back to the last one that was passed. The other way it is the same.
pub proof fn law_selections_move_by_steps(m: SelectModel, step: int)
    requires
        consistent(m),
        1 <= step,
        m.options.len() > 0,
    ensures
        ({
            let last = m.options.len() - 1;
            let from = place_or_before(m);
            let goal = if from + step < last {
                from + step
            } else {
                last
            };
            match m.forwards(step) {
                Some(j) => selectable(m, j) && (if j >= goal {
                    none_between(m, goal - 1, j)
                } else {
                    from < j && none_between(m, j, m.options.len() as int)
                }),
                None => none_between(m, from, m.options.len() as int),
            }
        }),
        ({
            let from = place_or_behind(m);
            let goal = if from - step > 0 {
                from - step
            } else {
                0
            };
            match m.backwards(step) {
                Some(j) => selectable(m, j) && (if j <= goal {
                    none_between(m, j, goal + 1)
                } else {
                    j < from && none_between(m, -1, j)
                }),
                None => none_between(m, -1, from),
            }
        }),
{
    let len = m.options.len() as int;
    let from = place_or_before(m);
    let to = if from + step < len - 1 {
        from + step
    } else {
        len - 1
    };
    let above = place_or_behind(m);
    let up = if above - step > 0 {
        above - step
    } else {
        0
    };
    lemma_enabled_from(m, to);
    lemma_enabled_to(m, to);
    lemma_enabled_from(m, up);
    lemma_enabled_to(m, up);
}

/// An option is selected where it is another than the selected one; nothing
/// else changes.
pub proof fn law_other_options_are_selected(m: SelectModel, to: Option<int>)
    ensures
        m.selecting(to) == if to is None || to == m.selected {
            None
        } else {
            Some(SelectModel { selected: to, ..m })
        },
{
}

/// An option of a popup shows the text of its element, where there is one, or
/// else its label.
pub proof fn law_popups_show_the_text_of_elements(
    m: SelectModel,
    texts: Seq<Option<String>>,
    i: int,
)
    requires
        0 <= i < m.options.len(),
    ensures
        i < texts.len() && texts[i] is Some ==> crate::select::popup_label(m, texts, i) == (
        texts[i]->0)@,
        i >= texts.len() || texts[i] is None ==> crate::select::popup_label(m, texts, i)
            == m.options[i].label,
{
}

} // verus!
