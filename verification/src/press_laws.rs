//! What presses, moves and releases of the pointer do.

use crate::events::TickResult;
use crate::input::InputModel;
use crate::plan::{Model, ScrollbarDrag, Ui};
use crate::protocol::{
    Ask, EventName, Hit, Lookup, MouseButton, MouseEvent, Next, Probe, Purpose, Reply, ScrollbarHit,
};
use crate::select::SelectModel;
use crate::select_laws;
use crate::typing_laws;
use vstd::prelude::*;

verus! {

/// The state with the mark for paint, and with a result that asks for it.
pub open spec fn painting(ui: Ui) -> Ui {
    Ui {
        needs_paint: true,
        result: TickResult { needs_paint: true, jobs_pending: ui.result.jobs_pending },
        ..ui
    }
}

/// The state with the mark for paint.
pub open spec fn changed(ui: Ui) -> Ui {
    Ui { needs_paint: true, ..ui }
}

/// The state with what a script's run came to.
pub open spec fn ran(ui: Ui, tick: TickResult) -> Ui {
    Ui {
        result: TickResult {
            needs_paint: ui.result.needs_paint || tick.needs_paint,
            jobs_pending: ui.result.jobs_pending || tick.jobs_pending,
        },
        ..ui
    }
}

/// The instance with another plain state and with more to ask, the last of
/// that first.
pub open spec fn goes_on(m: Model, ui: Ui, more: Seq<Ask>) -> Model {
    Model { ui, agenda: m.agenda + more, ..m }
}

/// What is asked to move the pressed state.
pub open spec fn press_moves(m: Model, to: Option<usize>) -> Seq<Ask> {
    if m.ui.active == to {
        seq![]
    } else {
        seq![Ask::Activate { from: m.ui.active, to }]
    }
}

/// Without a drag, each thing that the pointer does asks for what lies under it,
/// and why it asks tells them apart. A press of the left button first looks for
/// the buttons of numbers. A release ends the pressed state.
pub proof fn law_pointer_asks_what_lies_under_it(m: Model, event: MouseEvent)
    requires
        event is Move || event is Up ==> m.ui.scrollbar_drag is None && m.ui.range_drag is None,
    ensures
        m.pointer(event) == match event {
            MouseEvent::Move => goes_on(m, m.ui, seq![Ask::HitTest { probe: Probe::Hover }]),
            MouseEvent::Wheel => goes_on(m, m.ui, seq![Ask::HitTest { probe: Probe::Wheel }]),
            MouseEvent::Down { button: MouseButton::Left } => goes_on(m, m.ui, seq![Ask::Spinner]),
            MouseEvent::Down { button: MouseButton::Right } => goes_on(
                m,
                m.ui,
                seq![Ask::HitTest { probe: Probe::Plain { event: EventName::ContextMenu } }],
            ),
            MouseEvent::Down { button: MouseButton::Middle } => goes_on(
                m,
                m.ui,
                seq![Ask::HitTest { probe: Probe::Plain { event: EventName::AuxClick } }],
            ),
            MouseEvent::Up { .. } => goes_on(
                m,
                if m.ui.active is Some {
                    Ui { active: None, ..changed(m.ui) }
                } else {
                    m.ui
                },
                seq![Ask::HitTest { probe: Probe::Plain { event: EventName::MouseUp } }]
                    + press_moves(m, None),
            ),
        },
{
    reveal(Model::pointer);
    let n = m.pointer(event);
    match event {
        MouseEvent::Up { .. } => {
            assert(n.agenda =~= m.agenda + (seq![
                Ask::HitTest { probe: Probe::Plain { event: EventName::MouseUp } },
            ] + press_moves(m, None)));
        },
        _ => {
            assert(n.agenda =~= m.agenda + seq![n.agenda.last()]);
        },
    }
}

/// While a thumb is held, a move scrolls its node along its axis; while a slider
/// is dragged, a move asks for its number. A release ends the one that is under
/// way, the thumb before the slider, and does nothing else.
pub proof fn law_drags_follow_the_pointer(m: Model, event: MouseEvent)
    requires
        event is Move || event is Up,
        m.ui.scrollbar_drag is Some || m.ui.range_drag is Some,
    ensures
        event is Move ==> m.pointer(event) == match m.ui.scrollbar_drag {
            Some(drag) => goes_on(
                m,
                painting(m.ui),
                seq![Ask::DragScroll { node: drag.node, axis: drag.axis }],
            ),
            None => goes_on(
                m,
                m.ui,
                seq![Ask::RangeText { node: m.ui.range_drag->0, press: false }],
            ),
        },
        event is Up ==> m.pointer(event) == (Model {
            ui: if m.ui.scrollbar_drag is Some {
                Ui { scrollbar_drag: None, ..m.ui }
            } else {
                Ui { range_drag: None, ..m.ui }
            },
            ..m
        }),
{
    reveal(Model::pointer);
    let n = m.pointer(event);
    if event is Move {
        assert(n.agenda =~= m.agenda + seq![n.agenda.last()]);
    }
}

/// A press on a button of a number asks for one step, up on the upper button and
/// down on the lower one. A press elsewhere goes on to the scrollbars.
pub proof fn law_spin_buttons_step(m: Model, node: usize, up: bool)
    ensures
        m.answered(Ask::Spinner, Reply::Spinner(Some((node, up)))) == goes_on(
            m,
            painting(m.ui),
            if m.inputs.contains_key(node) && (m.inputs[node].kind is Number
                || m.inputs[node].kind is Range) {
                seq![
                    Ask::StepText {
                        node,
                        count: if up {
                            1i8
                        } else {
                            -1i8
                        },
                        purpose: Purpose::Press,
                    },
                ]
            } else {
                seq![]
            },
        ),
        m.answered(Ask::Spinner, Reply::Spinner(None)) == goes_on(m, m.ui, seq![Ask::Scrollbar]),
{
    let n = m.answered(Ask::Spinner, Reply::Spinner(Some((node, up))));
    assert(m.agenda + Seq::<Ask>::empty() =~= m.agenda);
    assert(n.agenda.len() > m.agenda.len() ==> n.agenda =~= m.agenda + seq![n.agenda.last()]);
    let o = m.answered(Ask::Spinner, Reply::Spinner(None));
    assert(o.agenda =~= m.agenda + seq![Ask::Scrollbar]);
}

/// A press on the thumb of a scrollbar holds it, a press on its track scrolls by
/// a page, and a press elsewhere goes on to what lies there.
pub proof fn law_scrollbars_are_pressed(m: Model, hit: ScrollbarHit)
    ensures
        m.answered(Ask::Scrollbar, Reply::Scrollbar(hit)) == match hit {
            ScrollbarHit::Thumb { node, axis } => Model {
                ui: Ui { scrollbar_drag: Some(ScrollbarDrag { node, axis }), ..m.ui },
                ..m
            },
            ScrollbarHit::Track { node, axis } => goes_on(
                m,
                painting(m.ui),
                seq![Ask::PageScroll { node, axis }],
            ),
            ScrollbarHit::Nothing => goes_on(
                m,
                m.ui,
                seq![Ask::HitTest { probe: Probe::Press }],
            ),
        },
{
    reveal(Model::scrollbar_hit);
    let n = m.answered(Ask::Scrollbar, Reply::Scrollbar(hit));
    assert(n.agenda.len() > m.agenda.len() ==> n.agenda =~= m.agenda + seq![n.agenda.last()]);
}

/// A press on an option of a popup selects it and closes the popup with nothing
/// highlighted; what shows follows, and then the announcement. A press on an
/// option that is disabled, or that is not there, does nothing.
pub proof fn law_pressed_options_are_selected(m: Model, node: usize, select: usize, index: usize)
    ensures
        m.answered(
            Ask::HitTest { probe: Probe::Press },
            Reply::Hit(Hit::Choice { node, select, index }),
        ) == if m.selects.contains_key(select) && index < m.selects[select].options.len()
            && !m.selects[select].options[index as int].disabled {
            Model {
                selects: m.selects.insert(
                    select,
                    SelectModel {
                        selected: Some(index as int),
                        open: false,
                        active: None,
                        ..m.selects[select]
                    },
                ),
                ..goes_on(
                    m,
                    changed(m.ui),
                    seq![
                        Ask::SendChange { select },
                        Ask::RefreshSelect { select },
                        Ask::SyncPopups,
                    ],
                )
            }
        } else {
            m
        },
{
    reveal(Model::hit);
    reveal(Model::choice_pressed);
    let n = m.answered(
        Ask::HitTest { probe: Probe::Press },
        Reply::Hit(Hit::Choice { node, select, index }),
    );
    if n.agenda.len() > m.agenda.len() {
        assert(n.agenda =~= m.agenda + seq![
            Ask::SendChange { select },
            Ask::RefreshSelect { select },
            Ask::SyncPopups,
        ]);
    }
}

/// The selects with every one closed but the one that a press belongs to.
pub open spec fn closed_but(m: Model, after: Model, owner: Option<usize>) -> bool {
    &&& after.selects.dom() == m.selects.dom()
    &&& forall|k: usize| #[trigger]
        m.selects.contains_key(k) ==> after.selects[k] == if m.selects[k].open && owner != Some(k) {
            SelectModel { open: false, active: None, ..m.selects[k] }
        } else {
            m.selects[k]
        }
}

/// A select other than the one that a press belongs to is open.
pub open spec fn another_open(m: Model, owner: Option<usize>) -> bool {
    exists|k: usize| #[trigger] m.selects.contains_key(k) && m.selects[k].open && owner != Some(k)
}

/// A press on the document closes every popup but that of the select it belongs
/// to, and then asks once more what lies there. Where it hits nothing, it
/// belongs to none.
pub proof fn law_presses_close_other_popups(m: Model, node: usize, owner: Option<usize>)
    ensures
        m.answered(
            Ask::HitTest { probe: Probe::Press },
            Reply::Hit(Hit::Node { node }),
        ) == goes_on(m, m.ui, seq![Ask::Owner { node }]),
        ({
            let n = m.answered(Ask::Owner { node }, Reply::Node(owner));
            &&& closed_but(m, n, owner)
            &&& n == (Model {
                selects: n.selects,
                ..goes_on(
                    m,
                    if another_open(m, owner) {
                        changed(m.ui)
                    } else {
                        m.ui
                    },
                    seq![Ask::HitTest { probe: Probe::Target }] + if another_open(m, owner) {
                        seq![Ask::SyncPopups]
                    } else {
                        seq![]
                    },
                )
            })
        }),
        m.answered(Ask::HitTest { probe: Probe::Press }, Reply::Hit(Hit::Nothing)) == m.answered(
            Ask::Owner { node },
            Reply::Node(None),
        ),
{
    reveal(Model::hit);
    reveal(Model::closing_others);
    let n = m.answered(Ask::Owner { node }, Reply::Node(owner));
    let a = m.answered(Ask::HitTest { probe: Probe::Press }, Reply::Hit(Hit::Node { node }));
    assert(a.agenda =~= m.agenda + seq![Ask::Owner { node }]);
    assert(another_open(m, owner) == crate::select::others_open(m.selects, owner)) by {
        if another_open(m, owner) {
            let k = choose|k: usize| #[trigger]
                m.selects.contains_key(k) && m.selects[k].open && owner != Some(k);
            assert(m.selects.contains_key(k) && m.selects[k].open && Some(k) != owner);
        }
    }
    assert(n.agenda =~= m.agenda + (seq![Ask::HitTest { probe: Probe::Target }] + if another_open(
        m,
        owner,
    ) {
        seq![Ask::SyncPopups]
    } else {
        seq![]
    }));
    assert(n.selects.dom() =~= m.selects.dom());
    assert forall|k: usize| #[trigger] m.selects.contains_key(k) implies n.selects[k] == if m.selects[k].open
        && owner != Some(k) {
        SelectModel { open: false, active: None, ..m.selects[k] }
    } else {
        m.selects[k]
    } by {
        if m.selects[k].open && owner != Some(k) {
            assert(another_open(m, owner));
        }
    }
}

/// An input of that node cannot have the focus.
pub open spec fn locked(m: Model, next: Option<usize>) -> bool {
    next is Some && m.inputs.contains_key(next->0) && m.inputs[next->0].disabled
}

/// What is asked to give the focus to a node when none has it: its event comes
/// last, behind the document's own focus and what shows of an input.
pub open spec fn focus_given(m: Model, node: usize) -> Seq<Ask> {
    seq![Ask::Focus { node }] + (if m.inputs.contains_key(node) {
        seq![Ask::RefreshInput { node }]
    } else {
        seq![]
    }) + seq![Ask::SetFocus { node }]
}

/// What is asked to move the focus.
pub open spec fn focus_moves(m: Model, next: Option<usize>) -> Seq<Ask> {
    if m.ui.focused == next || locked(m, next) {
        seq![]
    } else {
        match m.ui.focused {
            Some(node) => seq![Ask::Blur { node, next }] + if m.selects.contains_key(node)
                && m.selects[node].open {
                seq![Ask::SyncPopups]
            } else {
                seq![]
            },
            None => match next {
                Some(node) => focus_given(m, node),
                None => seq![],
            },
        }
    }
}

/// The input with its caret at the end and nothing selected, where it is a line
/// of text that is not disabled.
pub open spec fn caret_to_end(m: InputModel) -> InputModel {
    if typing_laws::line_of_text(m) && !m.disabled {
        typing_laws::with_caret(m, m.value.len() as int, false)
    } else {
        m
    }
}

/// The inputs once the focus is given to a node.
pub open spec fn inputs_focused(m: Model, node: usize) -> Map<usize, InputModel> {
    if m.inputs.contains_key(node) {
        m.inputs.insert(node, caret_to_end(m.inputs[node]))
    } else {
        m.inputs
    }
}

/// The focus moves at once where no node has it: the node that gets it is the
/// focused one, and the caret of an input goes to its end. Where one has it,
/// that keeps it until it has heard of the loss, and its popup closes. To a
/// disabled input, or to the node that has it, the focus does not move.
pub proof fn law_focus_moves(m: Model, next: Option<usize>)
    ensures
        ({
            let n = m.focusing(next);
            &&& n.agenda == m.agenda + focus_moves(m, next)
            &&& m.ui.focused == next || locked(m, next) ==> n == m
            &&& m.ui.focused != next && !locked(m, next) ==> match (m.ui.focused, next) {
                (Some(node), _) => {
                    let open = m.selects.contains_key(node) && m.selects[node].open;
                    &&& n.inputs == m.inputs
                    &&& n.ui == (Ui {
                        focus_paint: false,
                        needs_paint: m.ui.needs_paint || open,
                        ..m.ui
                    })
                    &&& n.selects == if open {
                        m.selects.insert(
                            node,
                            SelectModel { open: false, active: None, ..m.selects[node] },
                        )
                    } else {
                        m.selects
                    }
                },
                (None, Some(node)) => {
                    &&& n.inputs == inputs_focused(m, node)
                    &&& n.selects == m.selects
                    &&& n.ui == (Ui {
                        focused: Some(node),
                        focus_paint: false,
                        needs_paint: m.ui.needs_paint || m.inputs.contains_key(node),
                        ..m.ui
                    })
                },
                (None, None) => true,
            }
        }),
{
    reveal(Model::focusing);
    reveal(Model::focusing_on);
    assert(m.focusing(next).agenda =~= m.agenda + focus_moves(m, next));
}

/// Once the node that had the focus has heard of the loss, the document's focus
/// is cleared and what shows of an input follows; only then does the next node
/// get it. Without a next one, no node has the focus.
pub proof fn law_focus_arrives(m: Model, node: usize, next: Option<usize>, tick: TickResult)
    ensures
        ({
            let n = m.answered(Ask::Blur { node, next }, Reply::Tick(tick));
            let shows = m.inputs.contains_key(node) || (next is Some && m.inputs.contains_key(
                next->0,
            ));
            &&& n.ui == (Ui {
                focused: next,
                focus_paint: m.ui.focus_paint || tick.needs_paint,
                needs_paint: m.ui.needs_paint || shows || (next is None && (m.ui.focus_paint
                    || tick.needs_paint)),
                ..ran(m.ui, tick)
            })
            &&& n.inputs == match next {
                Some(to) => inputs_focused(m, to),
                None => m.inputs,
            }
            &&& n.selects == m.selects
            &&& n.agenda == m.agenda + (match next {
                Some(to) => focus_given(m, to),
                None => seq![],
            }) + seq![Ask::ClearFocus] + if m.inputs.contains_key(node) {
                seq![Ask::RefreshInput { node }]
            } else {
                seq![]
            }
        }),
{
    reveal(Model::blurred);
    reveal(Model::focusing_on);
    let n = m.answered(Ask::Blur { node, next }, Reply::Tick(tick));
    assert(n.agenda =~= m.agenda + (match next {
        Some(to) => focus_given(m, to),
        None => seq![],
    }) + seq![Ask::ClearFocus] + if m.inputs.contains_key(node) {
        seq![Ask::RefreshInput { node }]
    } else {
        seq![]
    });
}

/// What a script did in answer to `focus` counts, and paint that either event of
/// the focus change asked for is not lost.
pub proof fn law_focus_is_heard(m: Model, node: usize, tick: TickResult)
    ensures
        m.answered(Ask::Focus { node }, Reply::Tick(tick)) == (Model {
            ui: Ui {
                focus_paint: m.ui.focus_paint || tick.needs_paint,
                needs_paint: m.ui.needs_paint || m.ui.focus_paint || tick.needs_paint,
                ..ran(m.ui, tick)
            },
            ..m
        }),
{
}

/// A press looks for the node that takes the focus: the nearest that hears
/// `focus`, or else the nearest that hears keys, or else the one that was hit. A
/// press on nothing takes the focus and the pressed state away.
pub proof fn law_presses_look_for_the_focus(m: Model, hit: Hit, node: usize, id: usize)
    ensures
        hit is Nothing ==> m.answered(
            Ask::HitTest { probe: Probe::Target },
            Reply::Hit(hit),
        ).agenda == m.agenda + focus_moves(m, None) + press_moves(m, None),
        hit is Nothing ==> m.answered(
            Ask::HitTest { probe: Probe::Target },
            Reply::Hit(hit),
        ).ui.active is None,
        (hit matches Hit::Node { node: at } && at == id) || (hit matches Hit::Choice {
            node: at,
            ..
        } && at == id) ==> m.answered(Ask::HitTest { probe: Probe::Target }, Reply::Hit(hit))
            == goes_on(
            m,
            m.ui,
            seq![
                Ask::FindHandler {
                    node: id,
                    event: EventName::Focus,
                    lookup: Lookup::FocusTarget { hit: id },
                },
            ],
        ),
        m.answered(
            Ask::FindHandler {
                node,
                event: EventName::Focus,
                lookup: Lookup::FocusTarget { hit: id },
            },
            Reply::Node(None),
        ) == goes_on(
            m,
            m.ui,
            seq![
                Ask::FindHandler {
                    node,
                    event: EventName::KeyDown,
                    lookup: Lookup::FocusTarget { hit: id },
                },
            ],
        ),
{
    reveal(Model::hit);
    reveal(Model::handler_found);
    law_focus_moves(m, None);
    let n = m.answered(Ask::HitTest { probe: Probe::Target }, Reply::Hit(hit));
    if hit is Nothing {
        assert(m.focusing(None).ui.active == m.ui.active);
        assert(n.agenda =~= m.agenda + focus_moves(m, None) + press_moves(m, None));
    } else {
        assert(n.agenda =~= m.agenda + seq![n.agenda.last()]);
    }
    let o = m.answered(
        Ask::FindHandler { node, event: EventName::Focus, lookup: Lookup::FocusTarget { hit: id } },
        Reply::Node(None),
    );
    assert(o.agenda =~= m.agenda + seq![o.agenda.last()]);
}

/// Once it is known which node takes the focus, the pressed state goes to the
/// node that was hit, the focus to the one that was found, and then the press
/// goes on. Where none was found, the node that was hit takes the focus too.
pub proof fn law_presses_take_the_focus(
    m: Model,
    node: usize,
    event: EventName,
    hit: usize,
    found: Option<usize>,
)
    requires
        found is Some || !(event is Focus),
    ensures
        ({
            let n = m.answered(
                Ask::FindHandler { node, event, lookup: Lookup::FocusTarget { hit } },
                Reply::Node(found),
            );
            let to = Some(if found is Some {
                found->0
            } else {
                hit
            });
            &&& n.ui.active == Some(hit)
            &&& n.agenda == m.agenda + seq![Ask::Proceed { stage: Next::Pressed { hit } }]
                + focus_moves(m, to) + press_moves(m, Some(hit))
            &&& n.inputs == m.focusing(to).inputs
            &&& n.selects == m.focusing(to).selects
            &&& n.ui.focused == m.focusing(to).ui.focused
        }),
{
    reveal(Model::handler_found);
    reveal(Model::pressing);
    reveal(Model::focusing);
    reveal(Model::focusing_on);
    let n = m.answered(
        Ask::FindHandler { node, event, lookup: Lookup::FocusTarget { hit } },
        Reply::Node(found),
    );
    let to = Some(if found is Some {
        found->0
    } else {
        hit
    });
    let p = m.first(Ask::Proceed { stage: Next::Pressed { hit } });
    law_focus_moves(p, to);
    law_focus_moves(m, to);
    assert(focus_moves(p, to) == focus_moves(m, to));
    assert(n.agenda =~= m.agenda + seq![Ask::Proceed { stage: Next::Pressed { hit } }]
        + focus_moves(m, to) + press_moves(m, Some(hit)));
}

/// A press that ends on a checkbox flips it, unless that is locked; one that
/// ends on a radio button chooses it, unless it is chosen or disabled. The
/// document's check marks follow, and then the `input` event.
pub proof fn law_presses_operate_checks(m: Model, hit: usize)
    requires
        m.inputs.contains_key(hit),
        m.inputs[hit].kind is Checkbox || m.inputs[hit].kind is Radio,
    ensures
        ({
            let n = m.answered(Ask::Proceed { stage: Next::Pressed { hit } }, Reply::Nothing);
            let was = m.inputs[hit];
            let flips = !was.disabled && (if was.kind is Radio {
                !was.checked
            } else {
                !was.readonly
            });
            &&& n == (Model {
                inputs: n.inputs,
                ..goes_on(
                    m,
                    painting(m.ui),
                    if flips {
                        seq![Ask::SendInput { node: hit }, Ask::SyncChecked { node: hit }]
                    } else {
                        seq![]
                    },
                )
            })
            &&& !flips ==> n.inputs == m.inputs
            &&& flips && was.kind is Checkbox ==> n.inputs == m.inputs.insert(
                hit,
                typing_laws::with_check(was, !was.checked),
            )
            &&& flips && was.kind is Radio ==> typing_laws::chosen_in_its_group(
                m.inputs,
                n.inputs,
                hit,
            )
        }),
{
    reveal(Model::proceeded);
    reveal(Model::pressed);
    reveal(Model::check_clicked);
    let n = m.answered(Ask::Proceed { stage: Next::Pressed { hit } }, Reply::Nothing);
    assert(crate::keys::radio_chosen(m.inputs, hit).dom() =~= m.inputs.dom());
    assert(m.agenda + Seq::<Ask>::empty() =~= m.agenda);
    if n.agenda.len() > m.agenda.len() {
        assert(n.agenda =~= m.agenda + seq![
            Ask::SendInput { node: hit },
            Ask::SyncChecked { node: hit },
        ]);
    }
}

/// A press that ends on a slider asks for the number there; on any other node
/// but a select, it is a click for the nearest node that hears clicks.
pub proof fn law_presses_move_sliders_or_click(m: Model, hit: usize)
    requires
        !(m.inputs.contains_key(hit) && (m.inputs[hit].kind is Checkbox || m.inputs[hit].kind is Radio)),
        !m.selects.contains_key(hit) || (m.inputs.contains_key(hit) && m.inputs[hit].kind is Range),
    ensures
        m.answered(Ask::Proceed { stage: Next::Pressed { hit } }, Reply::Nothing) == goes_on(
            m,
            m.ui,
            if m.inputs.contains_key(hit) && m.inputs[hit].kind is Range {
                seq![Ask::RangeText { node: hit, press: true }]
            } else {
                seq![
                    Ask::FindHandler {
                        node: hit,
                        event: EventName::Click,
                        lookup: Lookup::Deliver,
                    },
                ]
            },
        ),
{
    reveal(Model::proceeded);
    reveal(Model::pressed);
    let n = m.answered(Ask::Proceed { stage: Next::Pressed { hit } }, Reply::Nothing);
    assert(n.agenda =~= m.agenda + seq![n.agenda.last()]);
}

/// A press that ends on a select flips whether its popup is open. Opened, it
/// highlights the selected option, or else the first that can be selected;
/// closed, nothing stays highlighted. The selection stays.
pub proof fn law_presses_flip_selects(m: Model, select: usize)
    requires
        m.selects.contains_key(select),
        select_laws::consistent(m.selects[select]),
        m.inputs.contains_key(select) ==> !(m.inputs[select].kind is Checkbox
            || m.inputs[select].kind is Radio || m.inputs[select].kind is Range),
    ensures
        ({
            let n = m.answered(
                Ask::Proceed { stage: Next::Pressed { hit: select } },
                Reply::Nothing,
            );
            let was = m.selects[select];
            let is = n.selects[select];
            &&& is.open == !was.open
            &&& was.open ==> is == (SelectModel { open: false, active: None, ..was })
            &&& !was.open ==> select_laws::popped_up(was, is)
            &&& n == (Model {
                selects: m.selects.insert(select, is),
                ..goes_on(
                    m,
                    painting(m.ui),
                    seq![Ask::RefreshSelect { select }, Ask::SyncPopups],
                )
            })
        }),
{
    reveal(Model::proceeded);
    reveal(Model::pressed);
    reveal(Model::select_clicked);
    let n = m.answered(Ask::Proceed { stage: Next::Pressed { hit: select } }, Reply::Nothing);
    assert(n.agenda =~= m.agenda + seq![Ask::RefreshSelect { select }, Ask::SyncPopups]);
    lemma_opened(m.selects[select]);
}

pub proof fn lemma_opened(m: SelectModel)
    requires
        select_laws::consistent(m),
    ensures
        select_laws::popped_up(m, m.opened()),
{
    let k = crate::events::Keystroke {
        key: crate::events::Key::Enter,
        shift: false,
        ctrl: false,
        alt: false,
        meta: false,
    };
    let o = SelectModel { open: false, disabled: false, ..m };
    select_laws::law_keys_open_a_select(o, k);
    assert(o.key(k)->0.state.active == m.opened().active);
    assert(forall|i: int| select_laws::selectable(o, i) == select_laws::selectable(m, i));
    assert(select_laws::none_between(o, -1, m.options.len() as int)
        == select_laws::none_between(m, -1, m.options.len() as int));
    if let Some(i) = m.opened().active {
        assert(select_laws::none_between(o, -1, i) == select_laws::none_between(m, -1, i));
    }
}

/// Two presses on a select leave its popup as it was: open or closed, and with
/// the same selection.
pub proof fn law_two_presses_restore_a_select(m: Model, select: usize)
    requires
        m.selects.contains_key(select),
        select_laws::consistent(m.selects[select]),
        m.inputs.contains_key(select) ==> !(m.inputs[select].kind is Checkbox
            || m.inputs[select].kind is Radio || m.inputs[select].kind is Range),
    ensures
        ({
            let ask = Ask::Proceed { stage: Next::Pressed { hit: select } };
            let once = m.answered(ask, Reply::Nothing);
            let twice = once.answered(ask, Reply::Nothing);
            &&& once.selects[select].open != m.selects[select].open
            &&& twice.selects[select].open == m.selects[select].open
            &&& twice.selects[select].selected == m.selects[select].selected
        }),
{
    let ask = Ask::Proceed { stage: Next::Pressed { hit: select } };
    law_presses_flip_selects(m, select);
    law_presses_flip_selects(m.answered(ask, Reply::Nothing), select);
}

/// An event goes to the nearest node that hears it, and to nobody where none
/// does.
pub proof fn law_events_go_to_the_nearest_handler(
    m: Model,
    node: usize,
    event: EventName,
    found: Option<usize>,
    marks: bool,
)
    ensures
        m.answered(
            Ask::FindHandler {
                node,
                event,
                lookup: if marks {
                    Lookup::DeliverAndMark
                } else {
                    Lookup::Deliver
                },
            },
            Reply::Node(found),
        ) == match found {
            Some(target) => goes_on(
                m,
                m.ui,
                seq![Ask::Send { node: target, event, related: None, marks }],
            ),
            None => m,
        },
{
    reveal(Model::handler_found);
    let n = m.answered(
        Ask::FindHandler {
            node,
            event,
            lookup: if marks {
                Lookup::DeliverAndMark
            } else {
                Lookup::Deliver
            },
        },
        Reply::Node(found),
    );
    assert(n.agenda.len() > m.agenda.len() ==> n.agenda =~= m.agenda + seq![n.agenda.last()]);
}

/// What a script did in answer to an event counts towards the result, and marks
/// the instance where that is wanted.
pub proof fn law_answers_to_events_count(
    m: Model,
    node: usize,
    event: EventName,
    related: Option<usize>,
    marks: bool,
    tick: TickResult,
)
    ensures
        m.answered(Ask::Send { node, event, related, marks }, Reply::Tick(tick)) == (Model {
            ui: Ui {
                needs_paint: m.ui.needs_paint || (marks && tick.needs_paint),
                ..ran(m.ui, tick)
            },
            ..m
        }),
        m.answered(Ask::SendInput { node }, Reply::Tick(tick)) == (Model {
            ui: ran(m.ui, tick),
            ..m
        }),
        m.answered(Ask::SendChange { select: node }, Reply::Tick(tick)) == (Model {
            ui: ran(m.ui, tick),
            ..m
        }),
        m.answered(Ask::SendScroll { node }, Reply::Tick(tick)) == (Model {
            ui: ran(m.ui, tick),
            ..m
        }),
        m.answered(Ask::RunJobs, Reply::Tick(tick)) == (Model { ui: ran(m.ui, tick), ..m }),
        m.answered(Ask::SendRuntime, Reply::Tick(tick)) == (Model {
            ui: Ui {
                needs_paint: m.ui.needs_paint || tick.needs_paint,
                ..ran(m.ui, tick)
            },
            ..m
        }),
{
}

/// An event that only goes to its handler, such as that of a release, looks for
/// it from the node that was hit. Where nothing was hit, nothing happens.
pub proof fn law_plain_events_look_for_their_handler(m: Model, event: EventName, hit: Hit)
    ensures
        m.answered(Ask::HitTest { probe: Probe::Plain { event } }, Reply::Hit(hit)) == match hit {
            Hit::Nothing => m,
            Hit::Node { node } | Hit::Choice { node, .. } => goes_on(
                m,
                m.ui,
                seq![Ask::FindHandler { node, event, lookup: Lookup::DeliverAndMark }],
            ),
        },
{
    reveal(Model::hit);
    let n = m.answered(Ask::HitTest { probe: Probe::Plain { event } }, Reply::Hit(hit));
    assert(n.agenda.len() > m.agenda.len() ==> n.agenda =~= m.agenda + seq![n.agenda.last()]);
}

/// A move asks the document to move its hover state from the node that had it
/// to the one that was hit. An option of a popup that is there is highlighted,
/// which is shown first.
pub proof fn law_moves_hover_and_highlight(m: Model, hit: Hit)
    ensures
        ({
            let n = m.answered(Ask::HitTest { probe: Probe::Hover }, Reply::Hit(hit));
            let to = match hit {
                Hit::Nothing => None,
                Hit::Node { node } | Hit::Choice { node, .. } => Some(node),
            };
            let moves = seq![Ask::Hover { from: m.ui.hovered, to }];
            n == match hit {
                Hit::Choice { select, index, .. } => if m.selects.contains_key(select) && index
                    < m.selects[select].options.len() && m.selects[select].active != Some(
                    index as int,
                ) {
                    Model {
                        selects: m.selects.insert(
                            select,
                            SelectModel { active: Some(index as int), ..m.selects[select] },
                        ),
                        ..goes_on(m, changed(m.ui), moves + seq![Ask::SyncPopups])
                    }
                } else {
                    goes_on(m, m.ui, moves)
                },
                _ => goes_on(m, m.ui, moves),
            }
        }),
{
    reveal(Model::hit);
    reveal(Model::hover_hit);
    let n = m.answered(Ask::HitTest { probe: Probe::Hover }, Reply::Hit(hit));
    let to = match hit {
        Hit::Nothing => None,
        Hit::Node { node } | Hit::Choice { node, .. } => Some(node),
    };
    let moves = seq![Ask::Hover { from: m.ui.hovered, to }];
    assert(n.agenda =~= m.agenda + moves || n.agenda =~= m.agenda + (moves + seq![
        Ask::SyncPopups,
    ]));
}

/// The end of a move asks for paint where the hover state changed or a script
/// wants it, and else leaves everything as it is.
pub proof fn law_moves_end(m: Model, hover_changed: bool)
    ensures
        m.answered(
            Ask::Proceed { stage: Next::EndMove { hover_changed } },
            Reply::Nothing,
        ) == if hover_changed || m.ui.result.needs_paint {
            Model { ui: painting(m.ui), ..m }
        } else {
            m
        },
{
    reveal(Model::proceeded);
}

} // verus!
