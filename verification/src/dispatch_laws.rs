//! What holds of every dispatch, whatever the host answers.

use crate::events::{Keystroke, TickResult};
use crate::input::InputModel;
use crate::keys::KeyEdit;
use crate::plan::{Model, Ui};
use crate::protocol::{
    Action, Ask, EventName, GestureMode, Hit, ImgEvent, KeyTail, Lookup, Motion, MouseEvent, Next,
    Probe, Release, Reply, ScrollbarHit, TouchEvent,
};
use crate::select::SelectModel;
use vstd::prelude::*;

verus! {

/// What a dispatch may not touch: the size, the stylesheets, the base address
/// and which controls there are. A mark for paint stays, and what was still
/// to be asked stays to be asked.
pub open spec fn keeps(a: Model, b: Model) -> bool {
    &&& b.ui.width == a.ui.width
    &&& b.ui.height == a.ui.height
    &&& b.ui.container == a.ui.container
    &&& b.ui.document_scroll == a.ui.document_scroll
    &&& a.ui.needs_paint ==> b.ui.needs_paint
    &&& b.sheets == a.sheets
    &&& b.next_sheet == a.next_sheet
    &&& b.base_url == a.base_url
    &&& b.inputs.dom() == a.inputs.dom()
    &&& b.selects.dom() == a.selects.dom()
    &&& a.agenda.is_prefix_of(b.agenda)
}

proof fn lemma_first(a: Model, m: Model, ask: Ask)
    requires
        keeps(a, m),
    ensures
        keeps(a, m.first(ask)),
        keeps(a, m.first(ask).marked()),
        keeps(a, m.marked()),
        keeps(a, m.repainted()),
{
    assert(a.agenda =~= m.first(ask).agenda.subrange(0, a.agenda.len() as int));
}

proof fn lemma_self(a: Model)
    ensures
        keeps(a, a),
{
    assert(a.agenda =~= a.agenda.subrange(0, a.agenda.len() as int));
}

/// A change of the plain state that keeps what is to be kept.
proof fn lemma_ui(a: Model, m: Model, ui: Ui)
    requires
        keeps(a, m),
        ui.width == m.ui.width,
        ui.height == m.ui.height,
        ui.container == m.ui.container,
        ui.document_scroll == m.ui.document_scroll,
        m.ui.needs_paint ==> ui.needs_paint,
    ensures
        keeps(a, Model { ui, ..m }),
{
}

proof fn lemma_input(a: Model, m: Model, node: usize, state: InputModel)
    requires
        keeps(a, m),
        m.has_input(node),
    ensures
        keeps(a, Model { inputs: m.inputs.insert(node, state), ..m }),
{
    assert(m.inputs.insert(node, state).dom() =~= m.inputs.dom());
}

proof fn lemma_select(a: Model, m: Model, node: usize, state: SelectModel)
    requires
        keeps(a, m),
        m.has_select(node),
    ensures
        keeps(a, Model { selects: m.selects.insert(node, state), ..m }),
{
    assert(m.selects.insert(node, state).dom() =~= m.selects.dom());
}

proof fn lemma_activating(a: Model, m: Model, to: Option<usize>)
    requires
        keeps(a, m),
    ensures
        keeps(a, m.activating(to)),
{
    let n = Model { ui: Ui { active: to, ..m.ui }, ..m };
    lemma_ui(a, m, n.ui);
    lemma_first(a, n, Ask::Activate { from: m.ui.active, to });
    lemma_first(a, n.marked(), Ask::Activate { from: m.ui.active, to });
}

proof fn lemma_closing(a: Model, m: Model, select: usize)
    requires
        keeps(a, m),
        m.has_select(select),
    ensures
        keeps(a, m.closing(select)),
{
    lemma_select(a, m, select, m.selects[select].closed());
    let n = Model { selects: m.selects.insert(select, m.selects[select].closed()), ..m };
    lemma_first(a, n, Ask::SyncPopups);
    lemma_first(a, n.marked(), Ask::SyncPopups);
}

proof fn lemma_closing_others(a: Model, m: Model, owner: Option<usize>)
    requires
        keeps(a, m),
    ensures
        keeps(a, m.closing_others(owner)),
{
    reveal(Model::closing_others);
    let n = Model { selects: crate::select::others_closed(m.selects, owner), ..m };
    assert(n.selects.dom() =~= m.selects.dom());
    lemma_first(a, n, Ask::SyncPopups);
    lemma_first(a, n.marked(), Ask::SyncPopups);
}

proof fn lemma_focusing_on(a: Model, m: Model, node: usize)
    requires
        keeps(a, m),
    ensures
        keeps(a, m.focusing_on(node)),
{
    reveal(Model::focusing_on);
    let n = Model { ui: Ui { focused: Some(node), ..m.ui }, ..m };
    lemma_ui(a, m, n.ui);
    lemma_first(a, n, Ask::Focus { node });
    let n = n.first(Ask::Focus { node });
    if n.has_input(node) {
        lemma_input(a, n, node, n.inputs[node].caret_at_end());
        let o = Model { inputs: n.inputs.insert(node, n.inputs[node].caret_at_end()), ..n };
        lemma_first(a, o, Ask::RefreshInput { node });
        lemma_first(a, o.marked(), Ask::RefreshInput { node });
        lemma_first(a, o.marked().first(Ask::RefreshInput { node }), Ask::SetFocus { node });
    } else {
        lemma_first(a, n, Ask::SetFocus { node });
    }
}

proof fn lemma_focusing(a: Model, m: Model, next: Option<usize>)
    requires
        keeps(a, m),
    ensures
        keeps(a, m.focusing(next)),
{
    reveal(Model::focusing);
    let n = Model { ui: Ui { focus_paint: false, ..m.ui }, ..m };
    lemma_ui(a, m, n.ui);
    match m.ui.focused {
        Some(previous) => {
            lemma_first(a, n, Ask::Blur { node: previous, next });
            let n = n.first(Ask::Blur { node: previous, next });
            if n.has_select(previous) {
                lemma_closing(a, n, previous);
            }
        },
        None => {
            if let Some(node) = next {
                lemma_focusing_on(a, n, node);
            }
        },
    }
}

proof fn lemma_blurred(
    a: Model,
    m: Model,
    previous: usize,
    next: Option<usize>,
    tick: TickResult,
)
    requires
        keeps(a, m),
    ensures
        keeps(a, m.blurred(previous, next, tick)),
{
    reveal(Model::blurred);
    let n = m.focus_event_sent(tick);
    lemma_ui(a, m, n.ui);
    let n = Model { ui: Ui { focused: None, ..n.ui }, ..n };
    lemma_ui(a, m.focus_event_sent(tick), n.ui);
    let o = match next {
        Some(node) => n.focusing_on(node),
        None => n.focus_settled(),
    };
    match next {
        Some(node) => {
            lemma_focusing_on(a, n, node);
        },
        None => {
            lemma_first(a, n, Ask::ClearFocus);
        },
    }
    lemma_first(a, o, Ask::ClearFocus);
    let p = o.first(Ask::ClearFocus);
    lemma_first(a, p, Ask::RefreshInput { node: previous });
    lemma_first(a, p.marked(), Ask::RefreshInput { node: previous });
}

proof fn lemma_pointer(a: Model, m: Model, event: MouseEvent)
    requires
        keeps(a, m),
    ensures
        keeps(a, m.pointer(event)),
{
    reveal(Model::pointer);
    if event is Move && m.ui.scrollbar_drag is Some {
        let drag = m.ui.scrollbar_drag->0;
        let ask = Ask::DragScroll { node: drag.node, axis: drag.axis };
        lemma_first(a, m, ask);
        lemma_first(a, m.repainted(), ask);
    } else {
        lemma_first(a, m, Ask::HitTest { probe: Probe::Hover });
        lemma_first(a, m, Ask::HitTest { probe: Probe::Wheel });
        lemma_first(a, m, Ask::Spinner);
        if let Some(node) = m.ui.range_drag {
            lemma_first(a, m, Ask::RangeText { node, press: false });
        }
        let menu = Ask::HitTest { probe: Probe::Plain { event: EventName::ContextMenu } };
        lemma_first(a, m, menu);
        let aux = Ask::HitTest { probe: Probe::Plain { event: EventName::AuxClick } };
        lemma_first(a, m, aux);
        let up = Ask::HitTest { probe: Probe::Plain { event: EventName::MouseUp } };
        lemma_first(a, m, up);
        lemma_activating(a, m.first(up), None);
    }
}

proof fn lemma_stepping(a: Model, m: Model, node: usize, count: i8)
    requires
        keeps(a, m),
    ensures
        keeps(a, m.stepping(node, count)),
{
    lemma_first(
        a,
        m,
        Ask::StepText { node, count, purpose: crate::protocol::Purpose::Press },
    );
}

proof fn lemma_input_changed(a: Model, m: Model, node: usize)
    requires
        keeps(a, m),
    ensures
        keeps(a, m.input_changed(node)),
{
    lemma_first(a, m, Ask::SendInput { node });
    lemma_first(a, m.first(Ask::SendInput { node }), Ask::RefreshInput { node });
}

proof fn lemma_committed(a: Model, m: Model, node: usize, number: Seq<char>)
    requires
        keeps(a, m),
    ensures
        keeps(
            a,
            Model { inputs: crate::keys::number_committed(m.inputs, node, number), ..m },
        ),
{
    if m.has_input(node) {
        lemma_input(a, m, node, m.inputs[node].with_value(number));
    }
}

proof fn lemma_number_entered(a: Model, m: Model, node: usize, number: Option<Seq<char>>)
    requires
        keeps(a, m),
    ensures
        keeps(a, m.number_entered(node, number)),
{
    reveal(Model::number_entered);
    if let Some(text) = number {
        lemma_committed(a, m, node, text);
        let n = Model { inputs: crate::keys::number_committed(m.inputs, node, text), ..m };
        lemma_first(a, n, Ask::RefreshInput { node });
        lemma_input_changed(a, n.marked(), node);
    }
}

proof fn lemma_slid(a: Model, m: Model, node: usize, press: bool, number: Option<Seq<char>>)
    requires
        keeps(a, m),
    ensures
        keeps(a, m.slid(node, press, number)),
{
    reveal(Model::slid);
    let n = if number is Some && m.inputs[node].kind is Range && crate::keys::takes_number(
        m.inputs,
        node,
        number->0,
    ) {
        let o = Model { inputs: crate::keys::number_committed(m.inputs, node, number->0), ..m };
        lemma_committed(a, m, node, number->0);
        lemma_first(a, o, Ask::RefreshInput { node });
        lemma_input_changed(a, o.marked(), node);
        o.marked().input_changed(node)
    } else {
        m
    };
    let p = Model { ui: Ui { range_drag: Some(node), ..n.ui }, ..n };
    lemma_ui(a, n, p.ui);
    lemma_first(a, p, Ask::RefreshInput { node });
}

proof fn lemma_value_given(a: Model, m: Model, node: usize, emits: bool)
    requires
        keeps(a, m),
    ensures
        keeps(a, m.value_given(node, emits)),
{
    lemma_first(a, m, Ask::SendInput { node });
    let n = if emits {
        m.first(Ask::SendInput { node })
    } else {
        m
    };
    lemma_first(a, n, Ask::RefreshInput { node });
    lemma_first(a, n.marked(), Ask::RefreshInput { node });
}

proof fn lemma_clamped(a: Model, m: Model, node: usize, emits: bool, number: Option<Seq<char>>)
    requires
        keeps(a, m),
    ensures
        keeps(a, m.clamped(node, emits, number)),
{
    reveal(Model::clamped);
    if let Some(text) = number {
        if m.has_input(node) {
            lemma_input(a, m, node, m.inputs[node].with_value(text));
            let n = Model {
                inputs: m.inputs.insert(node, m.inputs[node].with_value(text)),
                ..m
            };
            lemma_value_given(a, n, node, emits);
        }
    }
}

proof fn lemma_giving(a: Model, m: Model, node: usize, value: Seq<char>)
    requires
        keeps(a, m),
        m.has_input(node),
    ensures
        keeps(a, m.giving(node, value)),
{
    lemma_input(a, m, node, m.inputs[node].given(value));
    let n = Model { inputs: m.inputs.insert(node, m.inputs[node].given(value)), ..m };
    lemma_first(a, n, Ask::ClampText { node, emits: true });
    lemma_value_given(a, n, node, true);
}

proof fn lemma_hover_hit(a: Model, m: Model, hit: Hit)
    requires
        keeps(a, m),
    ensures
        keeps(a, m.hover_hit(hit)),
{
    reveal(Model::hover_hit);
    let ask = Ask::Hover { from: m.ui.hovered, to: hit.id() };
    lemma_first(a, m, ask);
    let n = m.first(ask);
    if let Hit::Choice { select, index, .. } = hit {
        if n.has_select(select) {
            let state = SelectModel { active: Some(index as int), ..n.selects[select] };
            lemma_select(a, n, select, state);
            let o = Model { selects: n.selects.insert(select, state), ..n };
            lemma_first(a, o, Ask::SyncPopups);
            lemma_first(a, o.marked(), Ask::SyncPopups);
        }
    }
}

proof fn lemma_choice_pressed(a: Model, m: Model, select: usize, index: int)
    requires
        keeps(a, m),
    ensures
        keeps(a, m.choice_pressed(select, index)),
{
    reveal(Model::choice_pressed);
    if m.has_select(select) {
        let chosen = SelectModel { selected: Some(index), ..m.selects[select] };
        lemma_select(a, m, select, chosen.closed());
        let n = Model { selects: m.selects.insert(select, chosen.closed()), ..m };
        lemma_first(a, n, Ask::SyncPopups);
        let n = n.marked();
        lemma_first(a, n, Ask::SendChange { select });
        let n = n.first(Ask::SendChange { select });
        lemma_first(a, n, Ask::RefreshSelect { select });
        lemma_first(a, n.first(Ask::RefreshSelect { select }), Ask::SyncPopups);
    }
}

proof fn lemma_telling(
    a: Model,
    m: Model,
    node: usize,
    event: EventName,
    related: Option<usize>,
)
    requires
        keeps(a, m),
    ensures
        keeps(a, m.telling(node, event, related)),
{
    lemma_first(a, m, Ask::Send { node, event, related, marks: false });
}

proof fn lemma_entering_leaving(a: Model, m: Model, from: Option<usize>, to: Option<usize>)
    requires
        keeps(a, m),
    ensures
        keeps(a, m.entering(from, to)),
        keeps(a, m.leaving(from, to)),
{
    if let Some(node) = to {
        lemma_telling(a, m, node, EventName::HoverEnter, from);
        let n = m.telling(node, EventName::HoverEnter, from);
        lemma_telling(a, n, node, EventName::Hover, from);
        let n = n.telling(node, EventName::Hover, from);
        lemma_telling(a, n, node, EventName::MouseEnter, from);
        let n = n.telling(node, EventName::MouseEnter, from);
        lemma_telling(a, n, node, EventName::MouseOver, from);
    }
    if let Some(node) = from {
        lemma_telling(a, m, node, EventName::HoverLeave, to);
        let n = m.telling(node, EventName::HoverLeave, to);
        lemma_telling(a, n, node, EventName::MouseLeave, to);
        let n = n.telling(node, EventName::MouseLeave, to);
        lemma_telling(a, n, node, EventName::MouseOut, to);
    }
}

proof fn lemma_hover_moved(
    a: Model,
    m: Model,
    from: Option<usize>,
    to: Option<usize>,
    changed: bool,
)
    requires
        keeps(a, m),
    ensures
        keeps(a, m.hover_moved(from, to, changed)),
{
    reveal(Model::hover_moved);
    let n = Model { ui: Ui { hovered: to, ..m.ui }, ..m };
    lemma_ui(a, m, n.ui);
    let end = Ask::Proceed { stage: Next::EndMove { hover_changed: changed || from != to } };
    lemma_first(a, n, end);
    let n = n.first(end);
    let o = match to {
        Some(node) => n.telling(node, EventName::MouseMove, None),
        None => n,
    };
    if let Some(node) = to {
        lemma_telling(a, n, node, EventName::MouseMove, None);
    }
    lemma_entering_leaving(a, o, from, to);
    lemma_entering_leaving(a, o.entering(from, to), from, to);
    let p = if from != to {
        o.entering(from, to).leaving(from, to)
    } else {
        o
    };
    lemma_activating(a, p, None);
}

proof fn lemma_pressing(a: Model, m: Model, hit: usize, focus: usize)
    requires
        keeps(a, m),
    ensures
        keeps(a, m.pressing(hit, focus)),
{
    reveal(Model::pressing);
    let ask = Ask::Proceed { stage: Next::Pressed { hit } };
    lemma_first(a, m, ask);
    lemma_focusing(a, m.first(ask), Some(focus));
    lemma_activating(a, m.first(ask).focusing(Some(focus)), Some(hit));
}

proof fn lemma_check_clicked(a: Model, m: Model, node: usize)
    requires
        keeps(a, m),
        m.has_input(node),
    ensures
        keeps(a, m.check_clicked(node)),
{
    reveal(Model::check_clicked);
    if let Some(inputs) = crate::keys::check_toggled(m.inputs, node) {
        assert(inputs.dom() =~= m.inputs.dom());
        let n = Model { inputs, ..m };
        lemma_first(a, n, Ask::SendInput { node });
        lemma_first(a, n.first(Ask::SendInput { node }), Ask::SyncChecked { node });
    }
}

proof fn lemma_select_clicked(a: Model, m: Model, select: usize)
    requires
        keeps(a, m),
        m.has_select(select),
    ensures
        keeps(a, m.select_clicked(select)),
{
    reveal(Model::select_clicked);
    let state = m.selects[select];
    let next = if state.open {
        state.closed()
    } else {
        state.opened()
    };
    lemma_select(a, m, select, next);
    let n = Model { selects: m.selects.insert(select, next), ..m };
    lemma_first(a, n, Ask::SyncPopups);
    lemma_first(a, n.repainted(), Ask::RefreshSelect { select });
    lemma_first(a, n.repainted().first(Ask::RefreshSelect { select }), Ask::SyncPopups);
}

proof fn lemma_pressed(a: Model, m: Model, hit: usize)
    requires
        keeps(a, m),
    ensures
        keeps(a, m.pressed(hit)),
{
    reveal(Model::pressed);
    if m.has_input(hit) {
        lemma_check_clicked(a, m, hit);
        lemma_first(a, m.check_clicked(hit), Ask::SyncPopups);
        lemma_first(a, m, Ask::RangeText { node: hit, press: true });
    }
    if m.has_select(hit) {
        lemma_select_clicked(a, m, hit);
    }
    lemma_first(
        a,
        m,
        Ask::FindHandler { node: hit, event: EventName::Click, lookup: Lookup::Deliver },
    );
}

proof fn lemma_touched(a: Model, m: Model, id: u64, mode: GestureMode)
    requires
        keeps(a, m),
    ensures
        keeps(a, m.touched(id, mode)),
{
    reveal(Model::touched);
    let n = Model {
        ui: Ui { touch: Some(crate::plan::ActiveTouch { id, mode }), ..m.ui },
        ..m
    };
    lemma_ui(a, m, n.ui);
    lemma_pointer(a, n, MouseEvent::Down { button: crate::protocol::MouseButton::Left });
}

proof fn lemma_hit(a: Model, m: Model, probe: Probe, hit: Hit)
    requires
        keeps(a, m),
    ensures
        keeps(a, m.hit(probe, hit)),
{
    reveal(Model::hit);
    match probe {
        Probe::Hover => lemma_hover_hit(a, m, hit),
        Probe::Press => match hit {
            Hit::Choice { select, index, .. } => lemma_choice_pressed(
                a,
                m,
                select,
                index as int,
            ),
            Hit::Node { node } => lemma_first(a, m, Ask::Owner { node }),
            Hit::Nothing => {
                let ask = Ask::HitTest { probe: Probe::Target };
                lemma_first(a, m, ask);
                lemma_closing_others(a, m.first(ask), None);
            },
        },
        Probe::Target => match hit.id() {
            Some(node) => lemma_first(
                a,
                m,
                Ask::FindHandler {
                    node,
                    event: EventName::Focus,
                    lookup: Lookup::FocusTarget { hit: node },
                },
            ),
            None => {
                lemma_focusing(a, m, None);
                lemma_activating(a, m.focusing(None), None);
            },
        },
        Probe::Plain { event } => {
            if let Some(node) = hit.id() {
                lemma_first(
                    a,
                    m,
                    Ask::FindHandler { node, event, lookup: Lookup::DeliverAndMark },
                );
            }
        },
        Probe::Wheel => {
            if let Some(node) = hit.id() {
                lemma_first(a, m, Ask::ScrollBy { node });
            }
        },
        Probe::Touch { id } => match hit {
            Hit::Nothing => lemma_touched(
                a,
                m,
                id,
                GestureMode::Pan { node: m.ui.container },
            ),
            Hit::Choice { .. } => lemma_touched(a, m, id, GestureMode::Control),
            Hit::Node { node } => {
                lemma_touched(a, m, id, GestureMode::Control);
                lemma_first(
                    a,
                    m,
                    Ask::FindHandler {
                        node,
                        event: EventName::Click,
                        lookup: Lookup::Touch { id },
                    },
                );
            },
        },
    }
}

proof fn lemma_wheeled(a: Model, m: Model, scrolled: Option<usize>, viewport: bool)
    requires
        keeps(a, m),
    ensures
        keeps(a, m.wheeled(scrolled, viewport)),
{
    reveal(Model::wheeled);
    let ask = Ask::Proceed { stage: Next::Scrolled };
    lemma_first(a, m, ask);
    let n = m.first(ask);
    if let Some(node) = scrolled {
        lemma_first(a, n, Ask::SendScroll { node });
    }
    lemma_first(a, n, Ask::SendScroll { node: m.ui.container });
}

proof fn lemma_handler_found(
    a: Model,
    m: Model,
    node: usize,
    event: EventName,
    lookup: Lookup,
    handler: Option<usize>,
)
    requires
        keeps(a, m),
    ensures
        keeps(a, m.handler_found(node, event, lookup, handler)),
{
    reveal(Model::handler_found);
    lemma_first(a, m, Ask::FindHandler { node, event: EventName::KeyDown, lookup });
    lemma_first(a, m, Ask::FindHandler { node, event: EventName::Focus, lookup });
    match lookup {
        Lookup::FocusTarget { hit } => {
            lemma_pressing(a, m, hit, hit);
            if let Some(focus) = handler {
                lemma_pressing(a, m, hit, focus);
            }
        },
        Lookup::Deliver => {
            if let Some(target) = handler {
                lemma_first(a, m, Ask::Send { node: target, event, related: None, marks: false });
            }
        },
        Lookup::DeliverAndMark => {
            if let Some(target) = handler {
                lemma_first(a, m, Ask::Send { node: target, event, related: None, marks: true });
            }
        },
        Lookup::Wheel { start, scrolled, viewport } => {
            if let Some(target) = handler {
                lemma_first(a, m, Ask::SendWheel { node: target, start, scrolled, viewport });
            }
            lemma_wheeled(a, m, scrolled, viewport);
        },
        Lookup::Touch { id } => {
            lemma_touched(a, m, id, GestureMode::Control);
            lemma_touched(a, m, id, GestureMode::Pan { node });
        },
    }
}

proof fn lemma_key_focused(a: Model, m: Model, tail: KeyTail)
    requires
        keeps(a, m),
    ensures
        keeps(a, m.key_focused(tail)),
{
    reveal(Model::key_focused);
    let node = match tail.target {
        Some(target) => target,
        None => tail.node,
    };
    let n = if !tail.emits {
        m
    } else if m.has_input(node) {
        m.first(Ask::SendInput { node })
    } else if m.has_select(node) {
        m.first(Ask::SendChange { select: node })
    } else {
        m
    };
    lemma_first(a, m, Ask::SendInput { node });
    lemma_first(a, m, Ask::SendChange { select: node });
    lemma_first(a, n, Ask::RefreshSelect { select: node });
    lemma_first(a, n.marked(), Ask::RefreshSelect { select: node });
    lemma_first(
        a,
        n.marked().first(Ask::RefreshSelect { select: node }),
        Ask::RefreshInput { node },
    );
}

proof fn lemma_key_sent(a: Model, m: Model, tail: KeyTail)
    requires
        keeps(a, m),
    ensures
        keeps(a, m.key_sent(tail)),
{
    reveal(Model::key_sent);
    let ask = Ask::Proceed { stage: Next::KeyFocused { tail } };
    lemma_first(a, m, ask);
    let n = if m.ui.result.needs_paint {
        m.marked()
    } else {
        m
    };
    lemma_first(a, n, ask);
    if let Some(node) = tail.target {
        lemma_focusing(a, n.first(ask), Some(node));
    }
    lemma_key_focused(a, n, tail);
}

proof fn lemma_key_number(
    a: Model,
    m: Model,
    node: usize,
    activate: bool,
    number: Option<Seq<char>>,
)
    requires
        keeps(a, m),
    ensures
        keeps(a, m.key_number(node, activate, number)),
{
    reveal(Model::key_number);
    let changed = number is Some && crate::keys::takes_number(m.inputs, node, number->0);
    let n = if changed {
        Model { inputs: crate::keys::number_committed(m.inputs, node, number->0), ..m }
    } else {
        m
    };
    if number is Some {
        lemma_committed(a, m, node, number->0);
    }
    let tail = KeyTail { node, edited: changed, emits: changed, target: None };
    lemma_first(a, n, Ask::SendKey { down: true, activate, tail });
}

proof fn lemma_radio_moved(
    a: Model,
    m: Model,
    node: usize,
    motion: Motion,
    activate: bool,
    order: Seq<usize>,
)
    requires
        keeps(a, m),
    ensures
        keeps(a, m.radio_moved(node, motion, activate, order)),
{
    reveal(Model::radio_moved);
    let target = if m.has_input(node) {
        crate::plan::radio_target(m.inputs, order, node, motion)
    } else {
        None
    };
    let n = match target {
        Some(to) => Model { inputs: crate::keys::radio_chosen(m.inputs, to), ..m },
        None => m,
    };
    assert(n.inputs.dom() =~= m.inputs.dom());
    let tail = KeyTail { node, edited: target is Some, emits: target is Some, target };
    lemma_first(a, n, Ask::SendKey { down: true, activate, tail });
}

proof fn lemma_key_on(a: Model, m: Model, node: usize, down: bool, k: Keystroke)
    requires
        keeps(a, m),
    ensures
        keeps(a, m.key_on(node, down, k)),
{
    reveal(Model::key_on);
    let activate = Model::activates(down, k);
    let plain = KeyTail { node, edited: false, emits: false, target: None };
    lemma_first(a, m, Ask::SendKey { down, activate, tail: plain });
    if down && m.has_input(node) {
        if let Some(motion) = crate::plan::radio_motion(k.key) {
            lemma_first(a, m, Ask::RadioOrder { node, motion, activate });
        }
        let (inputs, edit) = crate::keys::key_edit(m.inputs, node, k);
        assert(inputs.dom() =~= m.inputs.dom());
        match edit {
            crate::keys::KeyEdit::Done { changed, emits } => {
                let tail = KeyTail { node, edited: changed, emits, target: None };
                lemma_first(a, Model { inputs, ..m }, Ask::SendKey { down, activate, tail });
            },
            crate::keys::KeyEdit::Step { count } => {
                lemma_first(
                    a,
                    m,
                    Ask::StepText {
                        node,
                        count,
                        purpose: crate::protocol::Purpose::Key { activate },
                    },
                );
            },
            crate::keys::KeyEdit::Extreme { maximum } => {
                lemma_first(a, m, Ask::ExtremeText { node, maximum, activate });
            },
        }
    } else if down && m.has_select(node) {
        if let Some(edit) = m.selects[node].key(k) {
            lemma_select(a, m, node, edit.state);
            let n = Model { selects: m.selects.insert(node, edit.state), ..m };
            let tail = KeyTail { node, edited: true, emits: edit.emits, target: None };
            let ask = Ask::SendKey { down, activate, tail };
            lemma_first(a, n, ask);
            lemma_first(a, n.first(ask), Ask::SyncPopups);
        }
    }
}

proof fn lemma_key(a: Model, m: Model, down: bool, k: Keystroke)
    requires
        keeps(a, m),
    ensures
        keeps(a, m.key(down, k)),
{
    let tab = Ask::TabOrder { backwards: k.shift };
    lemma_first(a, m, tab);
    let n = m.first(tab);
    if let Some(node) = m.ui.focused {
        if m.has_select(node) {
            if let Some(edit) = m.selects[node].key(k) {
                lemma_select(a, n, node, edit.state);
                let o = Model { selects: n.selects.insert(node, edit.state), ..n };
                lemma_first(a, o, Ask::SyncPopups);
                let o = o.marked();
                lemma_first(a, o, Ask::SendChange { select: node });
                let o = o.first(Ask::SendChange { select: node });
                lemma_first(a, o, Ask::RefreshSelect { select: node });
                lemma_first(a, o.first(Ask::RefreshSelect { select: node }), Ask::SyncPopups);
            }
        }
        lemma_key_on(a, m, node, down, k);
    }
}

proof fn lemma_clicking(a: Model, m: Model)
    requires
        keeps(a, m),
    ensures
        keeps(a, m.clicking()),
{
    let ask = Ask::Proceed { stage: Next::Release };
    lemma_first(a, m, ask);
    lemma_pointer(
        a,
        m.first(ask),
        MouseEvent::Down { button: crate::protocol::MouseButton::Left },
    );
}

proof fn lemma_lifted(a: Model, m: Model, node: usize, release: Release)
    requires
        keeps(a, m),
    ensures
        keeps(a, m.lifted(node, release)),
{
    reveal(Model::lifted);
    lemma_clicking(a, m);
    let n = Model { ui: Ui { momentum: Some(node), ..m.ui }, ..m };
    lemma_ui(a, m, n.ui);
    lemma_first(a, n, Ask::SyncPopups);
    lemma_ui(a, m, Ui { momentum: None, ..m.ui });
}

proof fn lemma_telling_images(a: Model, m: Model, images: Seq<ImgEvent>)
    requires
        keeps(a, m),
    ensures
        keeps(a, m.telling_images(images)),
    decreases images.len(),
{
    if images.len() > 0 {
        lemma_telling_images(a, m, images.skip(1));
        lemma_first(a, m.telling_images(images.skip(1)), crate::plan::image_ask(images[0]));
    }
}

proof fn lemma_proceeded(a: Model, m: Model, next: Next)
    requires
        keeps(a, m),
    ensures
        keeps(a, m.proceeded(next)),
{
    reveal(Model::proceeded);
    lemma_first(a, m, Ask::SyncPopups);
    match next {
        Next::Pressed { hit } => lemma_pressed(a, m, hit),
        Next::KeySent { tail } => lemma_key_sent(a, m, tail),
        Next::KeyFocused { tail } => lemma_key_focused(a, m, tail),
        Next::Release => lemma_pointer(
            a,
            m,
            MouseEvent::Up { button: crate::protocol::MouseButton::Left },
        ),
        Next::EndTick => {
            reveal(Model::ticked);
        },
        _ => {},
    }
}

proof fn lemma_scrollbar_hit(a: Model, m: Model, hit: ScrollbarHit)
    requires
        keeps(a, m),
    ensures
        keeps(a, m.scrollbar_hit(hit)),
{
    reveal(Model::scrollbar_hit);
    lemma_first(a, m, Ask::HitTest { probe: Probe::Press });
    match hit {
        ScrollbarHit::Track { node, axis } => {
            lemma_first(a, m.repainted(), Ask::PageScroll { node, axis });
        },
        _ => {},
    }
}

/// A dispatch leaves alone what is not its business: whatever the host
/// answers, the size, the stylesheets, the base address and the set of
/// controls stay, a mark for paint is not lost, and neither is anything that
/// was still to be asked.
#[verifier::rlimit(40)]
pub proof fn law_answers_keep_the_frame(m: Model, ask: Ask, reply: Reply)
    ensures
        keeps(m, m.answered(ask, reply)),
{
    lemma_self(m);
    let a = m;
    match ask {
        Ask::HitTest { probe } => lemma_hit(a, m, probe, reply.hit()),
        Ask::Spinner => {
            lemma_first(a, m, Ask::Scrollbar);
            if let Some((node, up)) = reply.spinner() {
                lemma_stepping(a, m.repainted(), node, 1);
                lemma_stepping(a, m.repainted(), node, -1i8);
            }
        },
        Ask::Scrollbar => lemma_scrollbar_hit(a, m, reply.scrollbar()),
        Ask::RangeText { node, press } => lemma_slid(a, m, node, press, reply.text()),
        Ask::StepText { node, purpose, .. } => {
            lemma_number_entered(a, m, node, reply.text());
            if let crate::protocol::Purpose::Key { activate } = purpose {
                lemma_key_number(a, m, node, activate, reply.text());
            }
        },
        Ask::ExtremeText { node, activate, .. } => lemma_key_number(
            a,
            m,
            node,
            activate,
            reply.text(),
        ),
        Ask::ClampText { node, emits } => lemma_clamped(a, m, node, emits, reply.text()),
        Ask::Hover { from, to } => lemma_hover_moved(a, m, from, to, reply.flag()),
        Ask::FindHandler { node, event, lookup } => lemma_handler_found(
            a,
            m,
            node,
            event,
            lookup,
            reply.node(),
        ),
        Ask::SendKey { activate, tail, .. } => {
            lemma_first(a, m.joined(reply.tick()), Ask::IsButton { tail });
            lemma_key_sent(a, m.joined(reply.tick()), tail);
        },
        Ask::IsButton { tail } => {
            lemma_key_sent(a, m, tail);
            let next = Ask::Proceed { stage: Next::KeySent { tail } };
            lemma_first(a, m, next);
            lemma_telling(a, m.first(next), tail.node, EventName::Click, None);
        },
        Ask::SendWheel { scrolled, viewport, .. } => lemma_wheeled(
            a,
            m.joined(reply.tick()),
            scrolled,
            viewport,
        ),
        Ask::Blur { node, next } => lemma_blurred(a, m, node, next, reply.tick()),
        Ask::TabOrder { backwards } => {
            if let Some(node) = crate::plan::next_in_order(
                reply.path(),
                m.ui.focused,
                backwards,
            ) {
                lemma_focusing(
                    a,
                    m.joined(TickResult { needs_paint: true, jobs_pending: false }),
                    Some(node),
                );
            }
        },
        Ask::RadioOrder { node, motion, activate } => lemma_radio_moved(
            a,
            m,
            node,
            motion,
            activate,
            reply.path(),
        ),
        Ask::Owner { .. } => {
            let next = Ask::HitTest { probe: Probe::Target };
            lemma_first(a, m, next);
            lemma_closing_others(a, m.first(next), reply.node());
        },
        Ask::ScrollBy { node } => lemma_first(
            a,
            m,
            Ask::FindHandler {
                node,
                event: EventName::Wheel,
                lookup: Lookup::Wheel {
                    start: node,
                    scrolled: reply.scrolled().0,
                    viewport: reply.scrolled().1,
                },
            },
        ),
        Ask::Overlay { id } => {
            lemma_touched(a, m, id, GestureMode::Control);
            lemma_first(a, m, Ask::HitTest { probe: Probe::Touch { id } });
        },
        Ask::TrackMove { node } => lemma_first(a, m.repainted(), Ask::PanBy { node }),
        Ask::Lift { node } => lemma_lifted(a, m, node, reply.release()),
        Ask::Images => lemma_telling_images(a, m, reply.images()),
        Ask::Proceed { stage } => lemma_proceeded(a, m, stage),
        _ => {},
    }
}

/// The start of a dispatch keeps the frame as its answers do.
pub proof fn law_dispatch_keeps_the_frame(
    m: Model,
    event: MouseEvent,
    touch: TouchEvent,
    down: bool,
    k: Keystroke,
    next: Option<usize>,
)
    ensures
        keeps(m, m.begun().pointer(event)),
        keeps(m, m.begun().touch(touch)),
        keeps(m, m.begun().key(down, k)),
        keeps(m, m.begun().focusing(next)),
        keeps(m, m.begun().ticking()),
{
    lemma_self(m);
    let b = m.begun();
    lemma_ui(m, m, b.ui);
    lemma_pointer(m, b, event);
    lemma_key(m, b, down, k);
    lemma_focusing(m, b, next);
    lemma_touch(m, b, touch);
    let n = b.first(Ask::Proceed { stage: Next::EndTick });
    lemma_first(m, b, Ask::Proceed { stage: Next::EndTick });
    lemma_first(m, n, Ask::Images);
    let n = n.first(Ask::Images);
    let o = match b.ui.momentum {
        Some(node) => n.first(Ask::Coast { node }),
        None => n,
    };
    if let Some(node) = b.ui.momentum {
        lemma_first(m, n, Ask::Coast { node });
    }
    lemma_first(m, o, Ask::Blink);
    lemma_first(m, o.first(Ask::Blink), Ask::RunJobs);
}

proof fn lemma_touch(a: Model, m: Model, event: TouchEvent)
    requires
        keeps(a, m),
    ensures
        keeps(a, m.touch(event)),
{
    let n = Model { ui: Ui { momentum: None, ..m.ui }, ..m };
    lemma_ui(a, m, n.ui);
    lemma_first(a, n, Ask::Overlay { id: event.id });
    let u = m.untouched();
    lemma_ui(a, m, u.ui);
    lemma_pointer(a, m, MouseEvent::Move);
    lemma_pointer(a, u, MouseEvent::Up { button: crate::protocol::MouseButton::Left });
    if let Some(touch) = m.ui.touch {
        if let GestureMode::Pan { node } = touch.mode {
            lemma_first(a, m, Ask::TrackMove { node });
            lemma_first(a, u, Ask::Lift { node });
        }
    }
}

/// What an assistive technology asks for keeps the frame too.
pub proof fn law_assistance_keeps_the_frame(
    m: Model,
    node: usize,
    action: Action,
    value: Seq<char>,
)
    ensures
        keeps(m, m.assisting(node, action, value)),
{
    lemma_self(m);
    match action {
        Action::Focus => lemma_focusing(m, m, Some(node)),
        Action::Blur => lemma_focusing(m, m, None),
        Action::Increment => lemma_stepping(m, m, node, 1),
        Action::Decrement => lemma_stepping(m, m, node, -1i8),
        Action::SetValue => {
            if m.has_input(node) {
                lemma_giving(m, m, node, value);
            }
        },
        Action::Click => {
            if m.has_input(node) {
                lemma_check_clicked(m, m, node);
            }
            if m.has_select(node) {
                lemma_select_clicked(m, m, node);
            }
            lemma_clicking(m, m);
        },
        Action::ScrollIntoView => lemma_first(m, m.repainted(), Ask::Reveal { node }),
        Action::Other => {},
    }
}

/// A value that is put into an input keeps the frame too.
pub proof fn law_put_values_keep_the_frame(m: Model, node: usize, value: Seq<char>)
    requires
        m.has_input(node),
    ensures
        keeps(m, m.begun().putting(node, value)),
{
    let b = m.begun();
    lemma_self(m);
    lemma_ui(m, m, b.ui);
    lemma_input(m, b, node, b.inputs[node].put(value));
    let n = Model { inputs: b.inputs.insert(node, b.inputs[node].put(value)), ..b };
    lemma_first(m, n, Ask::ClampText { node, emits: false });
    lemma_value_given(m, n, node, false);
}

/// An answer of the host does not clear the mark for paint: only painting
/// does.
pub proof fn law_only_painting_clears_the_mark(m: Model, reply: Reply)
    requires
        m.ui.needs_paint,
    ensures
        m.stepped(reply).ui.needs_paint,
{
    if m.agenda.len() > 0 {
        law_answers_keep_the_frame(
            Model { agenda: m.agenda.drop_last(), ..m },
            m.agenda.last(),
            reply,
        );
    }
}

/// An event that a move of the pointer brings to `node`.
pub open spec fn told(node: usize, event: EventName, related: Option<usize>) -> Ask {
    Ask::Send { node, event, related, marks: false }
}

/// What the node that the pointer left hears, the last first.
pub open spec fn left_told(from: Option<usize>, to: Option<usize>) -> Seq<Ask> {
    match from {
        Some(node) => if from != to {
            seq![
                told(node, EventName::HoverLeave, to),
                told(node, EventName::MouseLeave, to),
                told(node, EventName::MouseOut, to),
            ]
        } else {
            seq![]
        },
        None => seq![],
    }
}

/// What the node that the pointer entered hears, the last first.
pub open spec fn entered_told(from: Option<usize>, to: Option<usize>) -> Seq<Ask> {
    match to {
        Some(node) => if from != to {
            seq![
                told(node, EventName::HoverEnter, from),
                told(node, EventName::Hover, from),
                told(node, EventName::MouseEnter, from),
                told(node, EventName::MouseOver, from),
            ]
        } else {
            seq![]
        },
        None => seq![],
    }
}

/// What the node under the pointer hears of the move.
pub open spec fn moved_told(to: Option<usize>) -> Seq<Ask> {
    match to {
        Some(node) => seq![told(node, EventName::MouseMove, None)],
        None => seq![],
    }
}

/// A pressed node that the pointer has left is no longer shown as such.
pub open spec fn released_told(active: Option<usize>, to: Option<usize>) -> Seq<Ask> {
    if active is Some && active != to {
        seq![Ask::Activate { from: active, to: None }]
    } else {
        seq![]
    }
}

/// The events of a move come in order. First the node that is left hears of
/// it, then the node that is entered, then the node under the pointer hears of
/// the move itself, which ends the dispatch.
pub proof fn law_hover_events_come_in_order(
    m: Model,
    from: Option<usize>,
    to: Option<usize>,
    changed: bool,
)
    ensures
        m.hover_moved(from, to, changed).agenda == m.agenda + seq![
            Ask::Proceed { stage: Next::EndMove { hover_changed: changed || from != to } },
        ] + moved_told(to) + entered_told(from, to) + left_told(from, to) + released_told(
            m.ui.active,
            to,
        ),
        m.hover_moved(from, to, changed).ui.hovered == to,
{
    reveal(Model::hover_moved);
    assert(m.hover_moved(from, to, changed).agenda =~= m.agenda + seq![
        Ask::Proceed { stage: Next::EndMove { hover_changed: changed || from != to } },
    ] + moved_told(to) + entered_told(from, to) + left_told(from, to) + released_told(
        m.ui.active,
        to,
    ));
}

/// The focus is not given to a disabled input: it stays where it is, and
/// nobody hears anything.
pub proof fn law_disabled_inputs_are_not_focused(m: Model, node: usize)
    requires
        m.has_input(node),
        m.inputs[node].disabled,
    ensures
        m.focusing(Some(node)) == m,
{
    reveal(Model::focusing);
}

/// Giving the focus to the node that has it does nothing.
pub proof fn law_refocusing_does_nothing(m: Model)
    ensures
        m.focusing(m.ui.focused) == m,
{
    reveal(Model::focusing);
}

/// What is shown of an input is to follow its state.
pub open spec fn refreshed(m: Model, node: usize) -> Seq<Ask> {
    if m.has_input(node) {
        seq![Ask::RefreshInput { node }]
    } else {
        seq![]
    }
}

/// When the focus moves, the node that had it hears of the loss, and the
/// document's focus is cleared, before the node that gets it hears of that. An
/// open select closes before it hears of the loss.
pub proof fn law_blur_comes_before_focus(m: Model, previous: usize, next: usize, tick: TickResult)
    requires
        m.ui.focused == Some(previous),
        previous != next,
        !m.refuses_focus(Some(next)),
    ensures
        m.focusing(Some(next)).agenda == m.agenda.push(
            Ask::Blur { node: previous, next: Some(next) },
        ) + if m.has_select(previous) && m.selects[previous].open {
            seq![Ask::SyncPopups]
        } else {
            seq![]
        },
        m.focusing(Some(next)).ui.focused == Some(previous),
        m.blurred(previous, Some(next), tick).agenda == m.agenda + seq![
            Ask::Focus { node: next },
        ] + refreshed(m, next) + seq![Ask::SetFocus { node: next }, Ask::ClearFocus] + refreshed(
            m,
            previous,
        ),
        m.blurred(previous, Some(next), tick).ui.focused == Some(next),
{
    reveal(Model::focusing);
    reveal(Model::blurred);
    reveal(Model::focusing_on);
    assert(m.focusing(Some(next)).agenda =~= m.agenda.push(
        Ask::Blur { node: previous, next: Some(next) },
    ) + if m.has_select(previous) && m.selects[previous].open {
        seq![Ask::SyncPopups]
    } else {
        seq![]
    });
    assert(m.blurred(previous, Some(next), tick).agenda =~= m.agenda + seq![
        Ask::Focus { node: next },
    ] + refreshed(m, next) + seq![Ask::SetFocus { node: next }, Ask::ClearFocus] + refreshed(
        m,
        previous,
    ));
}

/// A number that a stylesheet gets has not been in use, and stays out of use
/// for others: whatever is registered or removed, the next number only grows.
pub proof fn law_stylesheet_numbers_are_not_reused(m: Model, css: Seq<char>, id: u64)
    requires
        m.wf(),
        m.next_sheet < u64::MAX,
    ensures
        !m.sheets.contains_key(m.next_sheet),
        m.with_sheet(css).next_sheet > m.next_sheet,
        m.with_sheet_replaced(id, css).next_sheet == m.next_sheet,
        m.without_sheet(id).next_sheet == m.next_sheet,
        m.with_sheet(css).without_sheet(m.next_sheet).next_sheet > m.next_sheet,
{
}

/// A stylesheet that was registered or replaced is read back as it was given,
/// one that was removed is not known any more, and the others stay.
pub proof fn law_stylesheets_read_back(m: Model, id: u64, other: u64, css: Seq<char>)
    requires
        m.wf(),
        other != id,
        other != m.next_sheet,
    ensures
        m.with_sheet(css).sheet(m.next_sheet) == Some(css),
        m.sheets.contains_key(id) ==> m.with_sheet_replaced(id, css).sheet(id) == Some(css),
        m.without_sheet(id).sheet(id) is None,
        m.with_sheet(css).sheet(other) == m.sheet(other),
        m.with_sheet_replaced(id, css).sheet(other) == m.sheet(other),
        m.without_sheet(id).sheet(other) == m.sheet(other),
{
}

/// What a key changes in the focused input is changed before the scripts hear
/// of the key. Once they have, what is shown follows where something changed,
/// and then comes the `input` event where the value did.
pub proof fn law_keys_edit_before_the_scripts_hear(
    m: Model,
    node: usize,
    k: Keystroke,
    changed: bool,
    emits: bool,
)
    requires
        m.ui.focused == Some(node),
        m.has_input(node),
        !(k.key is Tab),
        m.inputs[node].kind is Radio ==> crate::plan::radio_motion(k.key) is None,
        crate::keys::key_edit(m.inputs, node, k).1 == (KeyEdit::Done { changed, emits }),
    ensures
        ({
            let n = m.key(true, k);
            let tail = KeyTail { node, edited: changed, emits, target: None };
            &&& n.inputs == crate::keys::key_edit(m.inputs, node, k).0
            &&& n.agenda == m.agenda.push(
                Ask::SendKey { down: true, activate: Model::activates(true, k), tail },
            )
            &&& n.key_sent(tail).agenda == n.agenda + after_key(node, changed, emits)
        }),
{
    reveal(Model::key_on);
    reveal(Model::key_sent);
    reveal(Model::key_focused);
    let n = m.key(true, k);
    let tail = KeyTail { node, edited: changed, emits, target: None };
    assert(n.has_input(node));
    assert(n.key_sent(tail).agenda =~= n.agenda + after_key(node, changed, emits));
}

/// What follows the key event on an input, the last first.
pub open spec fn after_key(node: usize, changed: bool, emits: bool) -> Seq<Ask> {
    let announced = if emits {
        seq![Ask::SendInput { node }]
    } else {
        seq![]
    };
    let shown = if changed {
        seq![Ask::RefreshSelect { select: node }, Ask::RefreshInput { node }]
    } else {
        seq![]
    };
    announced + shown
}

/// A press on a disabled option of a popup does nothing: the popup stays open
/// and the selection as it is.
pub proof fn law_disabled_options_swallow_presses(m: Model, select: usize, index: int)
    requires
        m.choice_exists(select, index),
        m.selects[select].options[index].disabled,
    ensures
        m.choice_pressed(select, index) == m,
{
    reveal(Model::choice_pressed);
}

/// While a finger is followed, no other finger does anything but end a fling.
pub proof fn law_one_finger_at_a_time(m: Model, event: TouchEvent)
    requires
        m.ui.touch is Some,
        (m.ui.touch->0).id != event.id,
    ensures
        m.touch(event) == m || m.touch(event) == (Model {
            ui: Ui { momentum: None, ..m.ui },
            ..m
        }),
{
}

/// Dragging a slider or a scrollbar ends with the release of the button, and
/// nothing else comes of that release.
pub proof fn law_release_ends_a_drag(m: Model, event: MouseEvent)
    requires
        event is Up,
        m.ui.scrollbar_drag is Some || m.ui.range_drag is Some,
    ensures
        m.pointer(event).agenda == m.agenda,
        m.ui.scrollbar_drag is Some ==> m.pointer(event).ui.scrollbar_drag is None,
        m.ui.scrollbar_drag is None ==> m.pointer(event).ui.range_drag is None,
{
    reveal(Model::pointer);
}

} // verus!
