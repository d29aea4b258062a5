//! What keys do to the controls of a document, and what numbers come to.

use crate::events::{Key, Keystroke, TickResult};
use crate::input::InputModel;
use crate::keys::KeyEdit;
use crate::plan::{Model, Ui};
use crate::press_laws;
use crate::protocol::{Ask, EventName, KeyTail, Motion, Next, Purpose, Reply};
use crate::select::SelectModel;
use crate::typing_laws;
use vstd::prelude::*;

verus! {

/// Enter going down and the space bar coming up, without modifiers, stand for a
/// click.
pub open spec fn stands_for_a_click(down: bool, k: Keystroke) -> bool {
    !k.ctrl && !k.alt && !k.meta && (if down {
        k.key is Enter
    } else {
        k.key is Space
    })
}

/// The key event goes to a node, with nothing to follow from the control there.
pub open spec fn plain_tail(node: usize) -> KeyTail {
    KeyTail { node, edited: false, emits: false, target: None }
}

/// A key goes to the node that has the focus. Where none has it, nothing
/// happens.
pub proof fn law_keys_need_the_focus(m: Model, down: bool, k: Keystroke)
    requires
        m.ui.focused is None,
        !(down && k.key is Tab),
    ensures
        m.key(down, k) == m,
{
}

/// A key that comes up, and one that goes down on a node that is no control, is
/// sent there and does nothing else.
pub proof fn law_keys_are_sent(m: Model, down: bool, k: Keystroke, node: usize)
    requires
        m.ui.focused == Some(node),
        !(down && k.key is Tab),
        down ==> !m.inputs.contains_key(node) && !m.selects.contains_key(node),
    ensures
        m.key(down, k) == press_laws::goes_on(
            m,
            m.ui,
            seq![
                Ask::SendKey {
                    down,
                    activate: stands_for_a_click(down, k),
                    tail: plain_tail(node),
                },
            ],
        ),
{
    reveal(Model::key_on);
    let n = m.key(down, k);
    assert(n.agenda =~= m.agenda + seq![n.agenda.last()]);
}

/// Tab asks for the order of the controls, backwards with Shift. An open select
/// that has the focus takes its highlighted option first: what shows follows,
/// and then the announcement.
pub proof fn law_tab_asks_for_the_order(m: Model, k: Keystroke)
    requires
        k.key is Tab,
    ensures
        ({
            let n = m.key(true, k);
            let order = seq![Ask::TabOrder { backwards: k.shift }];
            if m.ui.focused is Some && m.selects.contains_key(m.ui.focused->0)
                && m.selects[m.ui.focused->0].open && !m.selects[m.ui.focused->0].disabled {
                let select = m.ui.focused->0;
                n == (Model {
                    selects: m.selects.insert(select, m.selects[select].key(k)->0.state),
                    ..press_laws::goes_on(
                        m,
                        press_laws::changed(m.ui),
                        order + seq![
                            Ask::SendChange { select },
                            Ask::RefreshSelect { select },
                            Ask::SyncPopups,
                        ],
                    )
                })
            } else {
                n == press_laws::goes_on(m, m.ui, order)
            }
        }),
{
    let n = m.key(true, k);
    let order = seq![Ask::TabOrder { backwards: k.shift }];
    if let Some(select) = m.ui.focused {
        assert(n.agenda =~= m.agenda + order || n.agenda =~= m.agenda + (order + seq![
            Ask::SendChange { select },
            Ask::RefreshSelect { select },
            Ask::SyncPopups,
        ]));
    } else {
        assert(n.agenda =~= m.agenda + order);
    }
}

/// Tab goes to the control behind the focused one, and from the last to the
/// first; Shift+Tab goes the other way. Where no control of the order has the
/// focus, they go to the first and to the last. Where there is none, nothing
/// happens.
pub proof fn law_tab_goes_to_the_neighbour(m: Model, order: Vec<usize>, backwards: bool, at: int)
    requires
        order@.no_duplicates(),
        m.ui.focused is Some && order@.contains(m.ui.focused->0) ==> 0 <= at < order@.len()
            && m.ui.focused == Some(order@[at]),
    ensures
        ({
            let n = m.answered(Ask::TabOrder { backwards }, Reply::Path(order));
            let last = order@.len() - 1;
            let to = if !(m.ui.focused is Some && order@.contains(m.ui.focused->0)) {
                if backwards {
                    last
                } else {
                    0
                }
            } else if backwards {
                if at > 0 {
                    at - 1
                } else {
                    last
                }
            } else if at < last {
                at + 1
            } else {
                0
            };
            if order@.len() == 0 {
                n == m
            } else {
                &&& n.agenda == m.agenda + press_laws::focus_moves(m, Some(order@[to]))
                &&& n.ui.result.needs_paint
                &&& n.inputs == m.focusing(Some(order@[to])).inputs
                &&& n.ui.focused == m.focusing(Some(order@[to])).ui.focused
            }
        }),
{
    reveal(Model::focusing);
    reveal(Model::focusing_on);
    let s = order@;
    let len = s.len() as int;
    if len > 0 {
        if let Some(id) = m.ui.focused {
            s.index_of_first_ensures(id);
            if s.contains(id) {
                assert(s.index_of_first(id)->0 == at);
                if at + 1 < len {
                    vstd::arithmetic::div_mod::lemma_small_mod((at + 1) as nat, len as nat);
                } else {
                    vstd::arithmetic::div_mod::lemma_mod_self_0(len);
                }
                if at > 0 {
                    vstd::arithmetic::div_mod::lemma_mod_add_multiples_vanish(at - 1, len);
                    vstd::arithmetic::div_mod::lemma_small_mod((at - 1) as nat, len as nat);
                    assert(at + len - 1 == len + (at - 1));
                } else {
                    vstd::arithmetic::div_mod::lemma_small_mod((len - 1) as nat, len as nat);
                }
            }
        }
        let to = crate::plan::next_in_order(s, m.ui.focused, backwards);
        let p = m.joined(TickResult { needs_paint: true, jobs_pending: false });
        press_laws::law_focus_moves(p, to);
        press_laws::law_focus_moves(m, to);
        assert(press_laws::focus_moves(p, to) == press_laws::focus_moves(m, to));
    }
}

/// On a radio button, the left and the up arrow ask for the one before it, the
/// right and the down arrow for the one behind it, and Home and End for the
/// first and the last. Nothing has changed yet.
pub proof fn law_arrows_ask_for_radio_buttons(m: Model, k: Keystroke, node: usize)
    requires
        m.ui.focused == Some(node),
        m.inputs.contains_key(node),
        m.inputs[node].kind is Radio,
        k.key is ArrowLeft || k.key is ArrowRight || k.key is ArrowUp || k.key is ArrowDown
            || k.key is Home || k.key is End,
    ensures
        m.key(true, k) == press_laws::goes_on(
            m,
            m.ui,
            seq![
                Ask::RadioOrder {
                    node,
                    motion: match k.key {
                        Key::ArrowLeft | Key::ArrowUp => Motion::Previous,
                        Key::Home => Motion::First,
                        Key::End => Motion::Last,
                        _ => Motion::Following,
                    },
                    activate: false,
                },
            ],
        ),
{
    reveal(Model::key_on);
    let n = m.key(true, k);
    assert(n.agenda =~= m.agenda + seq![n.agenda.last()]);
}

/// The radio buttons of the group of `node`, in the order of the document,
/// without those that are disabled.
pub open spec fn group_of(m: Model, order: Seq<usize>, node: usize) -> Seq<usize> {
    order.filter(
        |k: usize|
            m.inputs.contains_key(k) && !m.inputs[k].disabled && typing_laws::of_one_group(
                m.inputs[node],
                m.inputs[k],
            ),
    )
}

/// Among the radio buttons of a group that are not disabled, the one before, the
/// one behind, going round, the first or the last is chosen and is to get the
/// focus. Where that is the button itself, or the button is not among them,
/// nothing is chosen. Either way the key is sent.
pub proof fn law_arrows_choose_radio_buttons(
    m: Model,
    node: usize,
    motion: Motion,
    activate: bool,
    order: Vec<usize>,
    at: int,
)
    requires
        m.inputs.contains_key(node),
        m.inputs[node].kind is Radio,
        order@.no_duplicates(),
        group_of(m, order@, node).contains(node) ==> 0 <= at < group_of(m, order@, node).len()
            && group_of(m, order@, node)[at] == node,
    ensures
        ({
            let n = m.answered(Ask::RadioOrder { node, motion, activate }, Reply::Path(order));
            let group = group_of(m, order@, node);
            let last = group.len() - 1;
            let to = group[match motion {
                Motion::Previous => if at > 0 {
                    at - 1
                } else {
                    last
                },
                Motion::Following => if at < last {
                    at + 1
                } else {
                    0
                },
                Motion::First => 0,
                Motion::Last => last,
            }];
            if group.contains(node) && to != node {
                &&& typing_laws::chosen_in_its_group(m.inputs, n.inputs, to)
                &&& n == (Model {
                    inputs: n.inputs,
                    ..press_laws::goes_on(
                        m,
                        m.ui,
                        seq![
                            Ask::SendKey {
                                down: true,
                                activate,
                                tail: KeyTail {
                                    node,
                                    edited: true,
                                    emits: true,
                                    target: Some(to),
                                },
                            },
                        ],
                    )
                })
            } else {
                n == press_laws::goes_on(
                    m,
                    m.ui,
                    seq![Ask::SendKey { down: true, activate, tail: plain_tail(node) }],
                )
            }
        }),
{
    reveal(Model::radio_moved);
    let n = m.answered(Ask::RadioOrder { node, motion, activate }, Reply::Path(order));
    let group = group_of(m, order@, node);
    let mine = |k: usize|
        m.inputs.contains_key(k) && !m.inputs[k].disabled && typing_laws::of_one_group(
            m.inputs[node],
            m.inputs[k],
        );
    let theirs = |k: usize| crate::plan::reachable_radio(m.inputs, node, k);
    assert(mine =~= theirs);
    assert(order@.filter(theirs) == group);
    let len = group.len() as int;
    group.index_of_first_ensures(node);
    assert(group.no_duplicates()) by {
        lemma_filter_keeps_apart(order@, mine);
    }
    if group.contains(node) {
        assert(group.index_of_first(node)->0 == at);
        if at + 1 < len {
            vstd::arithmetic::div_mod::lemma_small_mod((at + 1) as nat, len as nat);
        } else {
            vstd::arithmetic::div_mod::lemma_mod_self_0(len);
        }
        if at > 0 {
            vstd::arithmetic::div_mod::lemma_mod_add_multiples_vanish(at - 1, len);
            vstd::arithmetic::div_mod::lemma_small_mod((at - 1) as nat, len as nat);
            assert(at + len - 1 == len + (at - 1));
        } else {
            vstd::arithmetic::div_mod::lemma_small_mod((len - 1) as nat, len as nat);
        }
    }
    if let Some(to) = crate::plan::radio_target(m.inputs, order@, node, motion) {
        assert(crate::keys::radio_chosen(m.inputs, to).dom() =~= m.inputs.dom());
        assert(group.contains(to));
        lemma_filter_holds(order@, mine, to);
    }
    assert(n.agenda =~= m.agenda + seq![n.agenda.last()]);
}

/// What is filtered out of a sequence is of it, and passes the filter.
proof fn lemma_filter_holds(s: Seq<usize>, keep: spec_fn(usize) -> bool, x: usize)
    requires
        s.filter(keep).contains(x),
    ensures
        keep(x),
        s.contains(x),
    decreases s.len(),
{
    reveal(Seq::filter);
    if s.len() > 0 {
        let rest = s.drop_last().filter(keep);
        let i = choose|i: int| 0 <= i < s.filter(keep).len() && s.filter(keep)[i] == x;
        if keep(s.last()) && i == rest.len() {
            assert(s[s.len() - 1] == x);
        } else {
            assert(rest[i] == x);
            lemma_filter_holds(s.drop_last(), keep, x);
            let j = choose|j: int| 0 <= j < s.drop_last().len() && s.drop_last()[j] == x;
            assert(s[j] == x);
        }
    }
}

/// A sequence in which nothing occurs twice stays so when it is filtered.
proof fn lemma_filter_keeps_apart(s: Seq<usize>, keep: spec_fn(usize) -> bool)
    requires
        s.no_duplicates(),
    ensures
        s.filter(keep).no_duplicates(),
    decreases s.len(),
{
    reveal(Seq::filter);
    if s.len() > 0 {
        let rest = s.drop_last();
        lemma_filter_keeps_apart(rest, keep);
        if rest.filter(keep).contains(s.last()) {
            lemma_filter_holds(rest, keep, s.last());
            let j = choose|j: int| 0 <= j < rest.len() && rest[j] == s.last();
            assert(s[j] == s[s.len() - 1]);
        }
    }
}

/// A key on an input that asks for a step, or for a bound, of its number has
/// changed nothing yet.
pub proof fn law_keys_ask_for_numbers(m: Model, k: Keystroke, node: usize)
    requires
        m.ui.focused == Some(node),
        m.inputs.contains_key(node),
        (m.inputs[node].kind is Number && (k.key is ArrowUp || k.key is ArrowDown)) || (
        m.inputs[node].kind is Range && (k.key is ArrowUp || k.key is ArrowDown || k.key is ArrowLeft
            || k.key is ArrowRight || k.key is PageUp || k.key is PageDown || k.key is Home
            || k.key is End)),
    ensures
        m.key(true, k) == press_laws::goes_on(
            m,
            m.ui,
            seq![
                match k.key {
                    Key::Home => Ask::ExtremeText { node, maximum: false, activate: false },
                    Key::End => Ask::ExtremeText { node, maximum: true, activate: false },
                    Key::ArrowUp | Key::ArrowRight => Ask::StepText {
                        node,
                        count: 1i8,
                        purpose: Purpose::Key { activate: false },
                    },
                    Key::PageUp => Ask::StepText {
                        node,
                        count: 10i8,
                        purpose: Purpose::Key { activate: false },
                    },
                    Key::PageDown => Ask::StepText {
                        node,
                        count: -10i8,
                        purpose: Purpose::Key { activate: false },
                    },
                    _ => Ask::StepText {
                        node,
                        count: -1i8,
                        purpose: Purpose::Key { activate: false },
                    },
                },
            ],
        ),
{
    reveal(Model::key_on);
    let n = m.key(true, k);
    assert(n.agenda =~= m.agenda + seq![n.agenda.last()]);
}

/// Any other key on an input does there what it does, and is then sent.
pub proof fn law_keys_edit_inputs(m: Model, k: Keystroke, node: usize, did: bool, emits: bool)
    requires
        m.ui.focused == Some(node),
        m.inputs.contains_key(node),
        !(k.key is Tab),
        m.inputs[node].kind is Radio ==> !(k.key is ArrowLeft || k.key is ArrowRight || k.key is ArrowUp
            || k.key is ArrowDown || k.key is Home || k.key is End),
        crate::keys::key_edit(m.inputs, node, k).1 == (KeyEdit::Done { changed: did, emits }),
    ensures
        m.key(true, k) == (Model {
            inputs: crate::keys::key_edit(m.inputs, node, k).0,
            ..press_laws::goes_on(
                m,
                m.ui,
                seq![
                    Ask::SendKey {
                        down: true,
                        activate: stands_for_a_click(true, k),
                        tail: KeyTail { node, edited: did, emits, target: None },
                    },
                ],
            )
        }),
{
    reveal(Model::key_on);
    let n = m.key(true, k);
    assert(n.agenda =~= m.agenda + seq![n.agenda.last()]);
}

/// An arrow that would move the highlight of an open popup.
pub open spec fn moves_highlight(m: SelectModel, k: Keystroke) -> bool {
    m.open && !m.disabled && (k.key is ArrowDown || k.key is Down || ((k.key is ArrowUp
        || k.key is Up) && !k.alt))
}

/// In an open popup without options, an arrow that would move the highlight is
/// only sent.
pub proof fn law_empty_popups_leave_the_arrows(m: Model, k: Keystroke, node: usize)
    requires
        m.ui.focused == Some(node),
        !m.inputs.contains_key(node),
        m.selects.contains_key(node),
        m.selects[node].options.len() == 0,
        moves_highlight(m.selects[node], k),
    ensures
        m.key(true, k) == press_laws::goes_on(
            m,
            m.ui,
            seq![Ask::SendKey { down: true, activate: false, tail: plain_tail(node) }],
        ),
        m.selects[node].key_needs_options(k),
{
    reveal(Model::key_on);
    let n = m.key(true, k);
    assert(n.agenda =~= m.agenda + seq![n.agenda.last()]);
}

/// A key on a select that does something does it there; the popups follow, and
/// the key is then sent. One that does nothing is only sent.
pub proof fn law_keys_edit_selects(m: Model, k: Keystroke, node: usize)
    requires
        m.ui.focused == Some(node),
        !m.inputs.contains_key(node),
        m.selects.contains_key(node),
        m.selects[node].options.len() > 0 || !moves_highlight(m.selects[node], k),
        !(k.key is Tab),
    ensures
        m.selects[node].key_needs_options(k) == moves_highlight(m.selects[node], k),
        m.key(true, k) == match m.selects[node].key(k) {
            Some(edit) => Model {
                selects: m.selects.insert(node, edit.state),
                ..press_laws::goes_on(
                    m,
                    m.ui,
                    seq![
                        Ask::SendKey {
                            down: true,
                            activate: stands_for_a_click(true, k),
                            tail: KeyTail {
                                node,
                                edited: true,
                                emits: edit.emits,
                                target: None,
                            },
                        },
                        Ask::SyncPopups,
                    ],
                )
            },
            None => press_laws::goes_on(
                m,
                m.ui,
                seq![
                    Ask::SendKey {
                        down: true,
                        activate: stands_for_a_click(true, k),
                        tail: plain_tail(node),
                    },
                ],
            ),
        },
{
    reveal(Model::key_on);
    let n = m.key(true, k);
    if m.selects[node].key(k) is Some {
        assert(n.agenda =~= m.agenda + seq![
            Ask::SendKey {
                down: true,
                activate: stands_for_a_click(true, k),
                tail: KeyTail {
                    node,
                    edited: true,
                    emits: (m.selects[node].key(k)->0).emits,
                    target: None,
                },
            },
            Ask::SyncPopups,
        ]);
    } else {
        assert(n.agenda =~= m.agenda + seq![n.agenda.last()]);
    }
}

/// What follows a key that has been sent: an announcement of what changed at the
/// control, and before it what shows there.
pub open spec fn tail_asks(m: Model, tail: KeyTail) -> Seq<Ask> {
    let node = match tail.target {
        Some(target) => target,
        None => tail.node,
    };
    (if tail.emits && m.inputs.contains_key(node) {
        seq![Ask::SendInput { node }]
    } else if tail.emits && m.selects.contains_key(node) {
        seq![Ask::SendChange { select: node }]
    } else {
        seq![]
    }) + (if tail.edited {
        seq![Ask::RefreshSelect { select: node }, Ask::RefreshInput { node }]
    } else {
        seq![]
    })
}

/// Once the focus has followed a key, what shows at the control follows, and
/// then the announcement of what changed there.
pub proof fn law_changes_by_keys_are_announced(m: Model, tail: KeyTail)
    ensures
        m.answered(Ask::Proceed { stage: Next::KeyFocused { tail } }, Reply::Nothing) == press_laws::goes_on(
            m,
            if tail.edited {
                press_laws::changed(m.ui)
            } else {
                m.ui
            },
            tail_asks(m, tail),
        ),
{
    reveal(Model::proceeded);
    reveal(Model::key_focused);
    let n = m.answered(Ask::Proceed { stage: Next::KeyFocused { tail } }, Reply::Nothing);
    assert(n.agenda =~= m.agenda + tail_asks(m, tail));
}

/// The instance once a key has been sent: paint that a script asked for is
/// marked; then the focus goes where the key leads, or what changed at the
/// control is announced.
pub open spec fn key_done(m: Model, after: Model, tail: KeyTail) -> bool {
    &&& m.ui.result.needs_paint || (tail.target is None && tail.edited) ==> after.ui.needs_paint
    &&& match tail.target {
        Some(node) => {
            &&& after.agenda == m.agenda + seq![
                Ask::Proceed { stage: Next::KeyFocused { tail } },
            ] + press_laws::focus_moves(m, Some(node))
            &&& after.inputs == m.focusing(Some(node)).inputs
            &&& after.ui.focused == m.focusing(Some(node)).ui.focused
        },
        None => after == press_laws::goes_on(
            m,
            if tail.edited || m.ui.result.needs_paint {
                press_laws::changed(m.ui)
            } else {
                m.ui
            },
            tail_asks(m, tail),
        ),
    }
}

proof fn lemma_key_done(m: Model, tail: KeyTail)
    ensures
        key_done(m, m.key_sent(tail), tail),
{
    reveal(Model::key_sent);
    reveal(Model::key_focused);
    let n = m.key_sent(tail);
    match tail.target {
        Some(node) => {
            let p = if m.ui.result.needs_paint {
                m.marked()
            } else {
                m
            };
            let q = p.first(Ask::Proceed { stage: Next::KeyFocused { tail } });
            press_laws::law_focus_moves(q, Some(node));
            press_laws::law_focus_moves(m, Some(node));
            assert(press_laws::focus_moves(q, Some(node)) == press_laws::focus_moves(m, Some(node)));
            assert(q.agenda =~= m.agenda + seq![Ask::Proceed { stage: Next::KeyFocused { tail } }]);
            assert(n == q.focusing(Some(node)));
        },
        None => {
            assert(n.agenda =~= m.agenda + tail_asks(m, tail));
        },
    }
}

/// What a script did in answer to a key counts. A key that stands for a click is
/// one where a button has the focus: that comes before what the key changed is
/// announced.
pub proof fn law_keys_are_answered(
    m: Model,
    down: bool,
    activate: bool,
    tail: KeyTail,
    tick: TickResult,
)
    ensures
        ({
            let n = m.answered(Ask::SendKey { down, activate, tail }, Reply::Tick(tick));
            if activate {
                n == press_laws::goes_on(m, press_laws::ran(m.ui, tick), seq![Ask::IsButton { tail }])
            } else {
                key_done(Model { ui: press_laws::ran(m.ui, tick), ..m }, n, tail)
            }
        }),
        m.answered(Ask::IsButton { tail }, Reply::Flag(true)) == press_laws::goes_on(
            m,
            m.ui,
            seq![
                Ask::Proceed { stage: Next::KeySent { tail } },
                Ask::Send {
                    node: tail.node,
                    event: EventName::Click,
                    related: None,
                    marks: false,
                },
            ],
        ),
        key_done(m, m.answered(Ask::IsButton { tail }, Reply::Flag(false)), tail),
        key_done(
            m,
            m.answered(Ask::Proceed { stage: Next::KeySent { tail } }, Reply::Nothing),
            tail,
        ),
{
    reveal(Model::proceeded);
    let n = m.answered(Ask::SendKey { down, activate, tail }, Reply::Tick(tick));
    if activate {
        assert(n.agenda =~= m.agenda + seq![Ask::IsButton { tail }]);
    }
    lemma_key_done(m.joined(tick), tail);
    lemma_key_done(m, tail);
    assert(m.joined(tick) == Model { ui: press_laws::ran(m.ui, tick), ..m });
    let o = m.answered(Ask::IsButton { tail }, Reply::Flag(true));
    assert(o.agenda =~= m.agenda + seq![
        Ask::Proceed { stage: Next::KeySent { tail } },
        Ask::Send { node: tail.node, event: EventName::Click, related: None, marks: false },
    ]);
}

/// An input takes the text of a number: it is another than its value, and the
/// input is not disabled.
pub open spec fn takes(m: Model, node: usize, text: Option<String>) -> bool {
    text is Some && m.inputs.contains_key(node) && !m.inputs[node].disabled && m.inputs[node].value
        != (text->0)@
}

/// The inputs with the text of a number as the value of one, its caret at the
/// end.
pub open spec fn with_number(m: Model, node: usize, text: Seq<char>) -> Map<usize, InputModel> {
    m.inputs.insert(
        node,
        typing_laws::with_text(m.inputs[node], text, text.len() as int),
    )
}

/// The text of a stepped number becomes the value of its input, which is marked
/// and announced. Where it is the value already, or there is none, or the input
/// is disabled, nothing happens.
pub proof fn law_steps_become_values(m: Model, node: usize, count: i8, text: Option<String>)
    ensures
        m.answered(
            Ask::StepText { node, count, purpose: Purpose::Press },
            Reply::Text(text),
        ) == if takes(m, node, text) {
            Model {
                inputs: with_number(m, node, (text->0)@),
                ..press_laws::goes_on(
                    m,
                    press_laws::changed(m.ui),
                    seq![Ask::SendInput { node }, Ask::RefreshInput { node }],
                )
            }
        } else {
            m
        },
{
    reveal(Model::number_entered);
    let n = m.answered(Ask::StepText { node, count, purpose: Purpose::Press }, Reply::Text(text));
    if n.agenda.len() > m.agenda.len() {
        assert(n.agenda =~= m.agenda + seq![Ask::SendInput { node }, Ask::RefreshInput { node }]);
    }
}

/// The text of a number that a key asked for becomes the value of its input, and
/// the key is then sent, with what follows from the change.
pub proof fn law_keyed_numbers_become_values(
    m: Model,
    node: usize,
    count: i8,
    maximum: bool,
    activate: bool,
    text: Option<String>,
)
    ensures
        ({
            let took = takes(m, node, text);
            let n = m.answered(
                Ask::StepText { node, count, purpose: Purpose::Key { activate } },
                Reply::Text(text),
            );
            &&& n == (Model {
                inputs: if took {
                    with_number(m, node, (text->0)@)
                } else {
                    m.inputs
                },
                ..press_laws::goes_on(
                    m,
                    m.ui,
                    seq![
                        Ask::SendKey {
                            down: true,
                            activate,
                            tail: KeyTail { node, edited: took, emits: took, target: None },
                        },
                    ],
                )
            })
            &&& n == m.answered(Ask::ExtremeText { node, maximum, activate }, Reply::Text(text))
        }),
{
    reveal(Model::key_number);
    let n = m.answered(
        Ask::StepText { node, count, purpose: Purpose::Key { activate } },
        Reply::Text(text),
    );
    assert(n.agenda =~= m.agenda + seq![n.agenda.last()]);
}

/// The text of the number at the pointer becomes the value of a slider, as a
/// step does. A press on the slider begins a drag, and asks for paint.
pub proof fn law_sliders_take_the_number_at_the_pointer(
    m: Model,
    node: usize,
    press: bool,
    text: Option<String>,
)
    ensures
        ({
            let took = takes(m, node, text) && m.inputs[node].kind is Range;
            let ui = if took {
                press_laws::changed(m.ui)
            } else {
                m.ui
            };
            m.answered(Ask::RangeText { node, press }, Reply::Text(text)) == (Model {
                inputs: if took {
                    with_number(m, node, (text->0)@)
                } else {
                    m.inputs
                },
                ..press_laws::goes_on(
                    m,
                    if press {
                        Ui { range_drag: Some(node), ..press_laws::painting(ui) }
                    } else {
                        ui
                    },
                    if took {
                        seq![Ask::SendInput { node }, Ask::RefreshInput { node }]
                    } else {
                        seq![]
                    },
                )
            })
        }),
{
    reveal(Model::slid);
    let n = m.answered(Ask::RangeText { node, press }, Reply::Text(text));
    assert(m.agenda + Seq::<Ask>::empty() =~= m.agenda);
    if n.agenda.len() > m.agenda.len() {
        assert(n.agenda =~= m.agenda + seq![Ask::SendInput { node }, Ask::RefreshInput { node }]);
    }
}

/// The text of a number that was given, brought within its bounds, becomes the
/// value of its input, which is marked, and announced where that is due.
pub proof fn law_bounded_numbers_become_values(
    m: Model,
    node: usize,
    emits: bool,
    text: Option<String>,
)
    ensures
        m.answered(Ask::ClampText { node, emits }, Reply::Text(text)) == if text is Some
            && m.inputs.contains_key(node) {
            Model {
                inputs: with_number(m, node, (text->0)@),
                ..press_laws::goes_on(
                    m,
                    press_laws::changed(m.ui),
                    (if emits {
                        seq![Ask::SendInput { node }]
                    } else {
                        seq![]
                    }) + seq![Ask::RefreshInput { node }],
                )
            }
        } else {
            m
        },
{
    reveal(Model::clamped);
    let n = m.answered(Ask::ClampText { node, emits }, Reply::Text(text));
    if n.agenda.len() > m.agenda.len() {
        assert(n.agenda =~= m.agenda + ((if emits {
            seq![Ask::SendInput { node }]
        } else {
            seq![]
        }) + seq![Ask::RefreshInput { node }]));
    }
}

/// A value is put into an input as it is, with the caret at its end, and shown.
/// A number is first to be brought within its bounds, and then nothing has
/// changed yet. A checkbox or radio button keeps its caret.
pub proof fn law_values_are_put(m: Model, node: usize, value: Seq<char>)
    requires
        m.inputs.contains_key(node),
    ensures
        ({
            let n = m.putting(node, value);
            let was = m.inputs[node];
            let check = was.kind is Checkbox || was.kind is Radio;
            if (was.kind is Number || was.kind is Range) && value != was.value && value.len() > 0
                && typing_laws::numeric(value) {
                n == press_laws::goes_on(m, m.ui, seq![Ask::ClampText { node, emits: false }])
            } else {
                &&& n == (Model {
                    inputs: n.inputs,
                    ..press_laws::goes_on(m, press_laws::changed(m.ui), seq![Ask::RefreshInput { node }])
                })
                &&& !check ==> n.inputs == with_number(m, node, value)
                &&& check && value == was.value ==> n.inputs == m.inputs
                &&& check && value != was.value ==> n.inputs == m.inputs.insert(
                    node,
                    typing_laws::with_text(was, value, was.caret),
                )
            }
        }),
{
    typing_laws::lemma_numeric(value);
    let n = m.putting(node, value);
    assert(n.agenda =~= m.agenda + seq![n.agenda.last()]);
    assert(m.inputs.insert(node, m.inputs[node]) =~= m.inputs);
}

} // verus!
