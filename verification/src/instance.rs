//! An instance of the engine: the state of its controls, its focus and its
//! pointer, and the dispatch of events.

use crate::a11y;
use crate::a11y::{A11yModel, A11yNode};
use crate::error::{InstanceError, InstanceErrorModel};
use crate::events::{Key, KeyboardEvent, TickResult};
use crate::focus;
use crate::input::{InputRegistry, InputState, InputType};
use crate::keys;
use crate::keys::KeyEdit;
use crate::plan::{ActiveTouch, Model, ScrollbarDrag, Ui};
use crate::protocol::{
    Action, Ask, EventName, GestureMode, Hit, ImgEvent, KeyTail, Lookup, Motion, MouseButton, MouseEvent,
    Next, Probe, Purpose, Release, Reply, ScrollbarHit, Step, TouchEvent, TouchPhase,
};
use crate::select;
use crate::select::{SelectRegistry, SelectState};
use crate::source::VirtualSourceFile;
use std::collections::HashMap;
use vstd::prelude::*;

verus! {

/// The texts of the registered stylesheets.
pub open spec fn sheet_texts(sheets: Map<u64, String>) -> Map<u64, Seq<char>> {
    sheets.map_values(|s: String| s@)
}

/// An instance of the engine.
pub struct Instance {
    ui: Ui,
    inputs: InputRegistry,
    selects: SelectRegistry,
    agenda: Vec<Ask>,
    sheets: HashMap<u64, String>,
    next_sheet: u64,
    base_url: String,
}

impl View for Instance {
    type V = Model;

    closed spec fn view(&self) -> Model {
        Model {
            ui: self.ui,
            inputs: keys::input_models(self.inputs@),
            selects: select::select_models(self.selects@),
            agenda: self.agenda@,
            sheets: sheet_texts(self.sheets@),
            next_sheet: self.next_sheet,
            base_url: self.base_url@,
        }
    }
}

/// The blink intervals of the inputs.
impl Instance {
    /// The inputs, with their blink intervals.
    pub closed spec fn input_states(&self) -> Map<usize, InputState> {
        self.inputs@
    }

    /// When the caret of the input at `node` last changed or was last shown.
    pub open spec fn blink_started(&self, node: usize) -> u64 {
        self.input_states()[node].last_blink()
    }

    /// Since `before`, the blink interval of every input runs on as it did,
    /// unless it was started anew.
    pub open spec fn timers_run_on(&self, before: Instance) -> bool {
        keys::timers_kept(before.input_states(), self.input_states())
    }

    /// The model of an instance holds those of its inputs.
    pub proof fn law_model_holds_the_input_states(&self)
        ensures
            self@.inputs == keys::input_models(self.input_states()),
    {
    }
}

impl Instance {
    /// Puts something to ask before all else.
    fn first(&mut self, ask: Ask)
        ensures
            final(self).timers_run_on(*old(self)),
            final(self)@ == old(self)@.first(ask),
            old(self)@.wf() ==> final(self)@.wf(),
    {
        self.agenda.push(ask);
    }

    fn mark(&mut self)
        ensures
            final(self).timers_run_on(*old(self)),
            final(self)@ == old(self)@.marked(),
            old(self)@.wf() ==> final(self)@.wf(),
    {
        self.ui.needs_paint = true;
    }

    fn join(&mut self, tick: TickResult)
        ensures
            final(self).timers_run_on(*old(self)),
            final(self)@ == old(self)@.joined(tick),
            old(self)@.wf() ==> final(self)@.wf(),
    {
        self.ui.result = crate::events::combine_tick_result(self.ui.result, tick);
    }

    fn repaint(&mut self)
        ensures
            final(self).timers_run_on(*old(self)),
            final(self)@ == old(self)@.repainted(),
            old(self)@.wf() ==> final(self)@.wf(),
    {
        self.mark();
        self.join(TickResult { needs_paint: true, jobs_pending: false });
    }

    fn same_node(a: Option<usize>, b: Option<usize>) -> (res: bool)
        ensures
            res == (a == b),
    {
        match (a, b) {
            (Some(x), Some(y)) => x == y,
            (None, None) => true,
            _ => false,
        }
    }

    fn has_input(&self, node: usize) -> (res: bool)
        ensures
            res == self@.has_input(node),
    {
        self.inputs.contains_key(&node)
    }

    fn has_select(&self, node: usize) -> (res: bool)
        ensures
            res == self@.has_select(node),
    {
        self.selects.contains_key(&node)
    }

    fn select_is_open(&self, node: usize) -> (res: bool)
        ensures
            res == (self@.has_select(node) && self@.selects[node].open),
    {
        match self.selects.get(&node) {
            Some(state) => state.is_open(),
            None => false,
        }
    }

    fn input_kind(&self, node: usize) -> (res: Option<InputType>)
        ensures
            res == if self@.has_input(node) {
                Some(self@.inputs[node].kind)
            } else {
                None
            },
    {
        match self.inputs.get(&node) {
            Some(state) => Some(state.kind()),
            None => None,
        }
    }

    /// Moves the pressed state to `to`.
    fn activate(&mut self, to: Option<usize>)
        ensures
            final(self).timers_run_on(*old(self)),
            final(self)@ == old(self)@.activating(to),
            old(self)@.wf() ==> final(self)@.wf(),
    {
        let from = self.ui.active;
        if Self::same_node(from, to) {
            return ;
        }
        self.ui.active = to;
        self.mark();
        self.first(Ask::Activate { from, to });
    }

    /// Opens or closes a select.
    fn set_open(&mut self, select: usize, open: bool)
        requires
            old(self)@.wf(),
            old(self)@.has_select(select),
        ensures
            final(self).timers_run_on(*old(self)),
            final(self)@ == (Model {
                selects: old(self)@.selects.insert(
                    select,
                    if open {
                        old(self)@.selects[select].opened()
                    } else {
                        old(self)@.selects[select].closed()
                    },
                ),
                ..old(self)@
            }),
            final(self)@.wf(),
    {
        let ghost before = self@.selects;
        if let Some(mut state) = self.selects.remove(&select) {
            assert(before.contains_key(select));
            state.set_open(open);
            self.selects.insert(select, state);
            assert(self@.selects =~= before.insert(select, state@));
        }
    }

    fn close(&mut self, select: usize)
        requires
            old(self)@.wf(),
            old(self)@.has_select(select),
        ensures
            final(self).timers_run_on(*old(self)),
            final(self)@ == old(self)@.closing(select),
            final(self)@.wf(),
    {
        self.set_open(select, false);
        self.mark();
        self.first(Ask::SyncPopups);
    }

    /// Closes every select but `owner`.
    fn close_others(&mut self, owner: Option<usize>)
        requires
            old(self)@.wf(),
        ensures
            final(self).timers_run_on(*old(self)),
            final(self)@ == old(self)@.closing_others(owner),
            final(self)@.wf(),
    {
        proof {
            reveal(Model::closing_others);
        }
        let ghost before = self@.selects;
        let any = select::close_others(&mut self.selects, owner);
        if any {
            self.mark();
            self.first(Ask::SyncPopups);
        } else {
            proof {
                select::lemma_none_to_close(before, owner);
            }
        }
    }

    fn refuses_focus(&self, next: Option<usize>) -> (res: bool)
        ensures
            res == self@.refuses_focus(next),
    {
        match next {
            Some(node) => match self.inputs.get(&node) {
                Some(state) => state.disabled(),
                None => false,
            },
            None => false,
        }
    }

    /// Sends the focus on its way to `next`.
    fn focus(&mut self, next: Option<usize>)
        requires
            old(self)@.wf(),
        ensures
            final(self).timers_run_on(*old(self)),
            final(self)@ == old(self)@.focusing(next),
            final(self)@.wf(),
    {
        proof {
            reveal(Model::focusing);
        }
        let focused = self.ui.focused;
        if Self::same_node(focused, next) || self.refuses_focus(next) {
            return ;
        }
        self.ui.focus_paint = false;
        match focused {
            Some(previous) => {
                self.first(Ask::Blur { node: previous, next });
                if self.select_is_open(previous) {
                    self.close(previous);
                }
            },
            None => {
                if let Some(node) = next {
                    self.focus_on(node);
                }
            },
        }
    }

    fn focus_on(&mut self, node: usize)
        requires
            old(self)@.wf(),
        ensures
            final(self).timers_run_on(*old(self)),
            final(self)@ == old(self)@.focusing_on(node),
            final(self)@.wf(),
    {
        proof {
            reveal(Model::focusing_on);
        }
        self.ui.focused = Some(node);
        self.first(Ask::Focus { node });
        let ghost before = self@.inputs;
        let ghost states = self.inputs@;
        if let Some(mut state) = self.inputs.remove(&node) {
            assert(before.contains_key(node));
            state.place_caret_at_end();
            self.inputs.insert(node, state);
            assert(self@.inputs =~= before.insert(node, state@));
            assert(keys::timers_kept(states, self.inputs@));
            self.mark();
            self.first(Ask::RefreshInput { node });
        } else {
            assert(self@.inputs =~= before);
            assert(self.inputs@ =~= states);
        }
        self.first(Ask::SetFocus { node });
    }

    fn focus_event_sent(&mut self, tick: TickResult)
        ensures
            final(self).timers_run_on(*old(self)),
            final(self)@ == old(self)@.focus_event_sent(tick),
            old(self)@.wf() ==> final(self)@.wf(),
    {
        self.join(tick);
        self.ui.focus_paint = self.ui.focus_paint || tick.needs_paint;
    }

    fn focus_settled(&mut self)
        ensures
            final(self).timers_run_on(*old(self)),
            final(self)@ == old(self)@.focus_settled(),
            old(self)@.wf() ==> final(self)@.wf(),
    {
        if self.ui.focus_paint {
            self.mark();
        }
    }

    fn blurred(&mut self, previous: usize, next: Option<usize>, tick: TickResult)
        requires
            old(self)@.wf(),
        ensures
            final(self).timers_run_on(*old(self)),
            final(self)@ == old(self)@.blurred(previous, next, tick),
            final(self)@.wf(),
    {
        proof {
            reveal(Model::blurred);
        }
        let was_input = self.has_input(previous);
        self.focus_event_sent(tick);
        self.ui.focused = None;
        match next {
            Some(node) => self.focus_on(node),
            None => self.focus_settled(),
        }
        self.first(Ask::ClearFocus);
        if was_input {
            self.mark();
            self.first(Ask::RefreshInput { node: previous });
        }
    }

    /// The pointer did something.
    fn pointer(&mut self, event: MouseEvent)
        ensures
            final(self).timers_run_on(*old(self)),
            final(self)@ == old(self)@.pointer(event),
            old(self)@.wf() ==> final(self)@.wf(),
    {
        proof {
            reveal(Model::pointer);
        }
        if let Some(drag) = self.ui.scrollbar_drag {
            match event {
                MouseEvent::Move => {
                    self.repaint();
                    self.first(Ask::DragScroll { node: drag.node, axis: drag.axis });
                    return ;
                },
                MouseEvent::Up { .. } => {
                    self.ui.scrollbar_drag = None;
                    return ;
                },
                _ => {},
            }
        }
        if let Some(node) = self.ui.range_drag {
            match event {
                MouseEvent::Move => {
                    self.first(Ask::RangeText { node, press: false });
                    return ;
                },
                MouseEvent::Up { .. } => {
                    self.ui.range_drag = None;
                    return ;
                },
                _ => {},
            }
        }
        match event {
            MouseEvent::Move => self.first(Ask::HitTest { probe: Probe::Hover }),
            MouseEvent::Wheel => self.first(Ask::HitTest { probe: Probe::Wheel }),
            MouseEvent::Down { button } => match button {
                MouseButton::Left => self.first(Ask::Spinner),
                MouseButton::Right => self.first(
                    Ask::HitTest { probe: Probe::Plain { event: EventName::ContextMenu } },
                ),
                MouseButton::Middle => self.first(
                    Ask::HitTest { probe: Probe::Plain { event: EventName::AuxClick } },
                ),
            },
            MouseEvent::Up { .. } => {
                self.first(Ask::HitTest { probe: Probe::Plain { event: EventName::MouseUp } });
                self.activate(None);
            },
        }
    }

    fn step_number(&mut self, node: usize, count: i8)
        ensures
            final(self).timers_run_on(*old(self)),
            final(self)@ == old(self)@.stepping(node, count),
            old(self)@.wf() ==> final(self)@.wf(),
    {
        if let Some(kind) = self.input_kind(node) {
            if kind.is_numeric_like() {
                self.first(Ask::StepText { node, count, purpose: Purpose::Press });
            }
        }
    }

    fn input_changed(&mut self, node: usize)
        ensures
            final(self).timers_run_on(*old(self)),
            final(self)@ == old(self)@.input_changed(node),
            old(self)@.wf() ==> final(self)@.wf(),
    {
        self.first(Ask::SendInput { node });
        self.first(Ask::RefreshInput { node });
    }

    /// Takes over the text of a number. Returns whether the value is another.
    fn commit(&mut self, node: usize, number: &str) -> (res: bool)
        requires
            old(self)@.wf(),
        ensures
            final(self).timers_run_on(*old(self)),
            res == keys::takes_number(old(self)@.inputs, node, number@),
            final(self)@ == (Model {
                inputs: keys::number_committed(old(self)@.inputs, node, number@),
                ..old(self)@
            }),
            final(self)@.wf(),
    {
        keys::commit_number(&mut self.inputs, node, number)
    }

    fn number_entered(&mut self, node: usize, number: Option<&str>)
        requires
            old(self)@.wf(),
        ensures
            final(self).timers_run_on(*old(self)),
            final(self)@ == old(self)@.number_entered(node, crate::input::str_view(number)),
            final(self)@.wf(),
    {
        proof {
            reveal(Model::number_entered);
        }
        if let Some(text) = number {
            if self.commit(node, text) {
                self.mark();
                self.input_changed(node);
            }
        }
    }

    fn slid(&mut self, node: usize, press: bool, number: Option<&str>)
        requires
            old(self)@.wf(),
        ensures
            final(self).timers_run_on(*old(self)),
            final(self)@ == old(self)@.slid(node, press, crate::input::str_view(number)),
            final(self)@.wf(),
    {
        proof {
            reveal(Model::slid);
        }
        if let Some(text) = number {
            if let Some(kind) = self.input_kind(node) {
                if kind.is_range() && self.commit(node, text) {
                    self.mark();
                    self.input_changed(node);
                }
            }
        }
        if press {
            self.ui.range_drag = Some(node);
            self.repaint();
        }
    }

    fn hit(&mut self, probe: Probe, hit: Hit)
        requires
            old(self)@.wf(),
        ensures
            final(self).timers_run_on(*old(self)),
            final(self)@ == old(self)@.hit(probe, hit),
            final(self)@.wf(),
    {
        proof {
            reveal(Model::hit);
        }
        match probe {
            Probe::Hover => self.hover_hit(hit),
            Probe::Press => match hit {
                Hit::Choice { select, index, .. } => self.choice_pressed(select, index),
                Hit::Node { node } => self.first(Ask::Owner { node }),
                Hit::Nothing => {
                    self.first(Ask::HitTest { probe: Probe::Target });
                    self.close_others(None);
                },
            },
            Probe::Target => match hit.node_id() {
                Some(node) => self.first(
                    Ask::FindHandler {
                        node,
                        event: EventName::Focus,
                        lookup: Lookup::FocusTarget { hit: node },
                    },
                ),
                None => {
                    self.focus(None);
                    self.activate(None);
                },
            },
            Probe::Plain { event } => {
                if let Some(node) = hit.node_id() {
                    self.first(Ask::FindHandler { node, event, lookup: Lookup::DeliverAndMark });
                }
            },
            Probe::Wheel => {
                if let Some(node) = hit.node_id() {
                    self.first(Ask::ScrollBy { node });
                }
            },
            Probe::Touch { id } => match hit {
                Hit::Nothing => {
                    let node: usize = self.ui.container;
                    self.touched(id, GestureMode::Pan { node });
                },
                Hit::Choice { .. } => self.touched(id, GestureMode::Control),
                Hit::Node { node } => {
                    if self.has_input(node) || self.has_select(node) {
                        self.touched(id, GestureMode::Control);
                    } else {
                        self.first(
                            Ask::FindHandler {
                                node,
                                event: EventName::Click,
                                lookup: Lookup::Touch { id },
                            },
                        );
                    }
                },
            },
        }
    }

    fn hover_hit(&mut self, hit: Hit)
        requires
            old(self)@.wf(),
        ensures
            final(self).timers_run_on(*old(self)),
            final(self)@ == old(self)@.hover_hit(hit),
            final(self)@.wf(),
    {
        proof {
            reveal(Model::hover_hit);
        }
        let from = self.ui.hovered;
        self.first(Ask::Hover { from, to: hit.node_id() });
        if let Hit::Choice { select, index, .. } = hit {
            let ghost before = self@.selects;
            let mut changed = false;
            if let Some(mut state) = self.selects.remove(&select) {
                assert(before.contains_key(select));
                let same = match state.active_index() {
                    Some(active) => active == index,
                    None => false,
                };
                if index < state.option_count() && !same {
                    state.set_active_index(Some(index));
                    changed = true;
                }
                self.selects.insert(select, state);
                assert(self@.selects =~= before.insert(select, state@));
                assert(before.insert(select, before[select]) =~= before);
            } else {
                assert(self@.selects =~= before);
            }
            if changed {
                self.mark();
                self.first(Ask::SyncPopups);
            }
        }
    }

    fn choice_pressed(&mut self, select: usize, index: usize)
        requires
            old(self)@.wf(),
        ensures
            final(self).timers_run_on(*old(self)),
            final(self)@ == old(self)@.choice_pressed(select, index as int),
            final(self)@.wf(),
    {
        proof {
            reveal(Model::choice_pressed);
        }
        let ghost before = self@.selects;
        let mut chosen = false;
        if let Some(mut state) = self.selects.remove(&select) {
            assert(before.contains_key(select));
            if index < state.option_count() && !state.option_disabled(index) {
                state.set_selected_index(Some(index));
                state.set_open(false);
                chosen = true;
            }
            self.selects.insert(select, state);
            assert(self@.selects =~= before.insert(select, state@));
            assert(before.insert(select, before[select]) =~= before);
        } else {
            assert(self@.selects =~= before);
        }
        if chosen {
            self.mark();
            self.first(Ask::SendChange { select });
            self.first(Ask::RefreshSelect { select });
            self.first(Ask::SyncPopups);
        }
    }

    fn tell(&mut self, node: usize, event: EventName, related: Option<usize>)
        ensures
            final(self).timers_run_on(*old(self)),
            final(self)@ == old(self)@.telling(node, event, related),
            old(self)@.wf() ==> final(self)@.wf(),
    {
        self.first(Ask::Send { node, event, related, marks: false });
    }

    fn hover_moved(&mut self, from: Option<usize>, to: Option<usize>, changed: bool)
        requires
            old(self)@.wf(),
        ensures
            final(self).timers_run_on(*old(self)),
            final(self)@ == old(self)@.hover_moved(from, to, changed),
            final(self)@.wf(),
    {
        proof {
            reveal(Model::hover_moved);
        }
        let moved = !Self::same_node(from, to);
        self.ui.hovered = to;
        self.first(Ask::Proceed { stage: Next::EndMove { hover_changed: changed || moved } });
        if let Some(node) = to {
            self.tell(node, EventName::MouseMove, None);
        }
        if moved {
            if let Some(node) = to {
                self.tell(node, EventName::HoverEnter, from);
                self.tell(node, EventName::Hover, from);
                self.tell(node, EventName::MouseEnter, from);
                self.tell(node, EventName::MouseOver, from);
            }
            if let Some(node) = from {
                self.tell(node, EventName::HoverLeave, to);
                self.tell(node, EventName::MouseLeave, to);
                self.tell(node, EventName::MouseOut, to);
            }
        }
        if self.ui.active.is_some() && !Self::same_node(self.ui.active, to) {
            self.activate(None);
        }
    }

    fn press(&mut self, hit: usize, focus: usize)
        requires
            old(self)@.wf(),
        ensures
            final(self).timers_run_on(*old(self)),
            final(self)@ == old(self)@.pressing(hit, focus),
            final(self)@.wf(),
    {
        proof {
            reveal(Model::pressing);
        }
        self.first(Ask::Proceed { stage: Next::Pressed { hit } });
        self.focus(Some(focus));
        self.activate(Some(hit));
    }

    fn pressed(&mut self, hit: usize)
        requires
            old(self)@.wf(),
        ensures
            final(self).timers_run_on(*old(self)),
            final(self)@ == old(self)@.pressed(hit),
            final(self)@.wf(),
    {
        proof {
            reveal(Model::pressed);
        }
        if let Some(kind) = self.input_kind(hit) {
            if kind.is_checked_like() {
                self.check_clicked(hit);
                self.repaint();
                return ;
            }
            if kind.is_range() {
                self.first(Ask::RangeText { node: hit, press: true });
                return ;
            }
        }
        if self.has_select(hit) {
            self.select_clicked(hit);
        } else {
            self.first(
                Ask::FindHandler { node: hit, event: EventName::Click, lookup: Lookup::Deliver },
            );
        }
    }

    fn check_clicked(&mut self, node: usize)
        requires
            old(self)@.wf(),
            old(self)@.has_input(node),
        ensures
            final(self).timers_run_on(*old(self)),
            final(self)@ == old(self)@.check_clicked(node),
            final(self)@.wf(),
    {
        proof {
            reveal(Model::check_clicked);
        }
        if keys::toggle_check(&mut self.inputs, node) {
            self.first(Ask::SendInput { node });
            self.first(Ask::SyncChecked { node });
        }
    }

    fn select_clicked(&mut self, select: usize)
        requires
            old(self)@.wf(),
            old(self)@.has_select(select),
        ensures
            final(self).timers_run_on(*old(self)),
            final(self)@ == old(self)@.select_clicked(select),
            final(self)@.wf(),
    {
        proof {
            reveal(Model::select_clicked);
        }
        let open = self.select_is_open(select);
        self.set_open(select, !open);
        self.repaint();
        self.first(Ask::RefreshSelect { select });
        self.first(Ask::SyncPopups);
    }

    fn handler_found(
        &mut self,
        node: usize,
        event: EventName,
        lookup: Lookup,
        handler: Option<usize>,
    )
        requires
            old(self)@.wf(),
        ensures
            final(self).timers_run_on(*old(self)),
            final(self)@ == old(self)@.handler_found(node, event, lookup, handler),
            final(self)@.wf(),
    {
        proof {
            reveal(Model::handler_found);
        }
        match lookup {
            Lookup::FocusTarget { hit } => match handler {
                Some(focus) => self.press(hit, focus),
                None => {
                    if event == EventName::Focus {
                        self.first(Ask::FindHandler { node, event: EventName::KeyDown, lookup });
                    } else {
                        self.press(hit, hit);
                    }
                },
            },
            Lookup::Deliver => {
                if let Some(target) = handler {
                    self.first(Ask::Send { node: target, event, related: None, marks: false });
                }
            },
            Lookup::DeliverAndMark => {
                if let Some(target) = handler {
                    self.first(Ask::Send { node: target, event, related: None, marks: true });
                }
            },
            Lookup::Wheel { start, scrolled, viewport } => match handler {
                Some(target) => self.first(
                    Ask::SendWheel { node: target, start, scrolled, viewport },
                ),
                None => self.wheeled(scrolled, viewport),
            },
            Lookup::Touch { id } => {
                if handler.is_some() {
                    self.touched(id, GestureMode::Control);
                } else if event == EventName::Click {
                    self.first(Ask::FindHandler { node, event: EventName::KeyDown, lookup });
                } else if event == EventName::KeyDown {
                    self.first(Ask::FindHandler { node, event: EventName::Focus, lookup });
                } else {
                    self.touched(id, GestureMode::Pan { node });
                }
            },
        }
    }

    fn wheeled(&mut self, scrolled: Option<usize>, viewport: bool)
        ensures
            final(self).timers_run_on(*old(self)),
            final(self)@ == old(self)@.wheeled(scrolled, viewport),
            old(self)@.wf() ==> final(self)@.wf(),
    {
        proof {
            reveal(Model::wheeled);
        }
        let target = match scrolled {
            Some(node) => Some(node),
            None => if viewport {
                Some(self.ui.container)
            } else {
                None
            },
        };
        match target {
            Some(node) => {
                self.first(Ask::Proceed { stage: Next::Scrolled });
                self.first(Ask::SendScroll { node });
            },
            None => {
                if self.ui.result.needs_paint {
                    self.mark();
                } else {
                    self.ui.result = TickResult { needs_paint: false, jobs_pending: false };
                }
            },
        }
    }

    fn key_sent(&mut self, tail: KeyTail)
        requires
            old(self)@.wf(),
        ensures
            final(self).timers_run_on(*old(self)),
            final(self)@ == old(self)@.key_sent(tail),
            final(self)@.wf(),
    {
        proof {
            reveal(Model::key_sent);
        }
        if self.ui.result.needs_paint {
            self.mark();
        }
        match tail.target {
            Some(node) => {
                self.first(Ask::Proceed { stage: Next::KeyFocused { tail } });
                self.focus(Some(node));
            },
            None => self.key_focused(tail),
        }
    }

    fn key_focused(&mut self, tail: KeyTail)
        ensures
            final(self).timers_run_on(*old(self)),
            final(self)@ == old(self)@.key_focused(tail),
            old(self)@.wf() ==> final(self)@.wf(),
    {
        proof {
            reveal(Model::key_focused);
        }
        let node: usize = match tail.target {
            Some(target) => target,
            None => tail.node,
        };
        if tail.emits {
            if self.has_input(node) {
                self.first(Ask::SendInput { node });
            } else if self.has_select(node) {
                self.first(Ask::SendChange { select: node });
            }
        }
        if tail.edited {
            self.mark();
            self.first(Ask::RefreshSelect { select: node });
            self.first(Ask::RefreshInput { node });
        }
    }

    fn send_key(&mut self, down: bool, activate: bool, tail: KeyTail)
        ensures
            final(self).timers_run_on(*old(self)),
            final(self)@ == old(self)@.sending_key(down, activate, tail),
            old(self)@.wf() ==> final(self)@.wf(),
    {
        self.first(Ask::SendKey { down, activate, tail });
    }

    fn key_number(&mut self, node: usize, activate: bool, number: Option<&str>)
        requires
            old(self)@.wf(),
        ensures
            final(self).timers_run_on(*old(self)),
            final(self)@ == old(self)@.key_number(
                node,
                activate,
                crate::input::str_view(number),
            ),
            final(self)@.wf(),
    {
        proof {
            reveal(Model::key_number);
        }
        let changed = match number {
            Some(text) => self.commit(node, text),
            None => false,
        };
        self.send_key(
            true,
            activate,
            KeyTail { node, edited: changed, emits: changed, target: None },
        );
    }

    fn radio_moved(&mut self, node: usize, motion: Motion, activate: bool, order: &Vec<usize>)
        requires
            old(self)@.wf(),
        ensures
            final(self).timers_run_on(*old(self)),
            final(self)@ == old(self)@.radio_moved(node, motion, activate, order@),
            final(self)@.wf(),
    {
        proof {
            reveal(Model::radio_moved);
        }
        let target = if self.has_input(node) {
            focus::radio_destination(&self.inputs, order, node, motion)
        } else {
            None
        };
        let moved = target.is_some();
        if let Some(to) = target {
            keys::choose_radio(&mut self.inputs, to);
        }
        self.send_key(true, activate, KeyTail { node, edited: moved, emits: moved, target });
    }

    fn touched(&mut self, id: u64, mode: GestureMode)
        ensures
            final(self).timers_run_on(*old(self)),
            final(self)@ == old(self)@.touched(id, mode),
            old(self)@.wf() ==> final(self)@.wf(),
    {
        proof {
            reveal(Model::touched);
        }
        self.ui.touch = Some(ActiveTouch { id, mode });
        if let GestureMode::Control = mode {
            self.pointer(MouseEvent::Down { button: MouseButton::Left });
        }
    }

    fn click(&mut self)
        ensures
            final(self).timers_run_on(*old(self)),
            final(self)@ == old(self)@.clicking(),
            old(self)@.wf() ==> final(self)@.wf(),
    {
        self.first(Ask::Proceed { stage: Next::Release });
        self.pointer(MouseEvent::Down { button: MouseButton::Left });
    }

    fn lifted(&mut self, node: usize, release: Release)
        ensures
            final(self).timers_run_on(*old(self)),
            final(self)@ == old(self)@.lifted(node, release),
            old(self)@.wf() ==> final(self)@.wf(),
    {
        proof {
            reveal(Model::lifted);
        }
        match release {
            Release::Tap => self.click(),
            Release::Pan { coasting } => {
                if coasting {
                    self.ui.momentum = Some(node);
                    self.repaint();
                } else {
                    self.ui.momentum = None;
                }
            },
        }
    }

    fn ticked(&mut self)
        ensures
            final(self).timers_run_on(*old(self)),
            final(self)@ == old(self)@.ticked(),
            old(self)@.wf() ==> final(self)@.wf(),
    {
        proof {
            reveal(Model::ticked);
        }
        let paint = self.ui.result.needs_paint || self.ui.needs_paint;
        if self.ui.result.needs_paint {
            self.mark();
        }
        self.ui.result =
        TickResult { needs_paint: paint, jobs_pending: self.ui.result.jobs_pending };
    }

    fn tell_images(&mut self, images: &Vec<ImgEvent>)
        ensures
            final(self).timers_run_on(*old(self)),
            final(self)@ == old(self)@.telling_images(images@),
            old(self)@.wf() ==> final(self)@.wf(),
    {
        let ghost before = self@;
        let mut i: usize = images.len();
        assert(images@.skip(i as int) =~= Seq::<ImgEvent>::empty());
        while i > 0
            invariant
                i <= images.len(),
                self@ == before.telling_images(images@.skip(i as int)),
                before.wf() ==> self@.wf(),
                self.timers_run_on(*old(self)),
            decreases i,
        {
            i -= 1;
            let ask = match images[i] {
                ImgEvent::Load { node } => Ask::Send {
                    node,
                    event: EventName::Load,
                    related: None,
                    marks: true,
                },
                ImgEvent::Error { node } => Ask::Send {
                    node,
                    event: EventName::Error,
                    related: None,
                    marks: true,
                },
            };
            assert(images@.skip(i as int).skip(1) =~= images@.skip(i as int + 1));
            self.first(ask);
        }
        assert(images@.skip(0) =~= images@);
    }

    fn proceed(&mut self, next: Next)
        requires
            old(self)@.wf(),
        ensures
            final(self).timers_run_on(*old(self)),
            final(self)@ == old(self)@.proceeded(next),
            final(self)@.wf(),
    {
        proof {
            reveal(Model::proceeded);
        }
        match next {
            Next::EndMove { hover_changed } => {
                if hover_changed || self.ui.result.needs_paint {
                    self.repaint();
                }
            },
            Next::Pressed { hit } => self.pressed(hit),
            Next::KeySent { tail } => self.key_sent(tail),
            Next::KeyFocused { tail } => self.key_focused(tail),
            Next::Scrolled => self.repaint(),
            Next::Release => self.pointer(MouseEvent::Up { button: MouseButton::Left }),
            Next::EndTick => self.ticked(),
        }
    }

    fn scrollbar_hit(&mut self, hit: ScrollbarHit)
        ensures
            final(self).timers_run_on(*old(self)),
            final(self)@ == old(self)@.scrollbar_hit(hit),
            old(self)@.wf() ==> final(self)@.wf(),
    {
        proof {
            reveal(Model::scrollbar_hit);
        }
        match hit {
            ScrollbarHit::Thumb { node, axis } => {
                self.ui.scrollbar_drag = Some(ScrollbarDrag { node, axis });
            },
            ScrollbarHit::Track { node, axis } => {
                self.repaint();
                self.first(Ask::PageScroll { node, axis });
            },
            ScrollbarHit::Nothing => self.first(Ask::HitTest { probe: Probe::Press }),
        }
    }

    fn clamped(&mut self, node: usize, emits: bool, number: Option<&str>)
        requires
            old(self)@.wf(),
        ensures
            final(self).timers_run_on(*old(self)),
            final(self)@ == old(self)@.clamped(node, emits, crate::input::str_view(number)),
            final(self)@.wf(),
    {
        proof {
            reveal(Model::clamped);
        }
        if let Some(text) = number {
            let ghost before = self@.inputs;
            if let Some(mut state) = self.inputs.remove(&node) {
                assert(before.contains_key(node));
                state.store_number(text);
                self.inputs.insert(node, state);
                assert(self@.inputs =~= before.insert(node, state@));
                self.value_given(node, emits);
            } else {
                assert(self@.inputs =~= before);
            }
        }
    }

    fn value_given(&mut self, node: usize, emits: bool)
        ensures
            final(self).timers_run_on(*old(self)),
            final(self)@ == old(self)@.value_given(node, emits),
            old(self)@.wf() ==> final(self)@.wf(),
    {
        if emits {
            self.first(Ask::SendInput { node });
        }
        self.mark();
        self.first(Ask::RefreshInput { node });
    }

    fn put(&mut self, node: usize, value: &str)
        requires
            old(self)@.wf(),
            old(self)@.has_input(node),
        ensures
            final(self).timers_run_on(*old(self)),
            final(self)@ == old(self)@.putting(node, value@),
            final(self)@.wf(),
    {
        let ghost before = self@.inputs;
        let mut pending = false;
        if let Some(mut state) = self.inputs.remove(&node) {
            assert(before.contains_key(node));
            pending = state.put_value(value);
            self.inputs.insert(node, state);
            assert(self@.inputs =~= before.insert(node, state@));
        }
        if pending {
            self.first(Ask::ClampText { node, emits: false });
        } else {
            self.value_given(node, false);
        }
    }

    fn give(&mut self, node: usize, value: &str)
        requires
            old(self)@.wf(),
            old(self)@.has_input(node),
        ensures
            final(self).timers_run_on(*old(self)),
            final(self)@ == old(self)@.giving(node, value@),
            final(self)@.wf(),
    {
        let ghost before = self@.inputs;
        let mut pending = false;
        if let Some(mut state) = self.inputs.remove(&node) {
            assert(before.contains_key(node));
            pending = state.set_value(value);
            self.inputs.insert(node, state);
            assert(self@.inputs =~= before.insert(node, state@));
        }
        if pending {
            self.first(Ask::ClampText { node, emits: true });
        } else {
            self.value_given(node, true);
        }
    }

    /// Goes on with the answer to `ask`.
    fn answer(&mut self, ask: Ask, reply: Reply)
        requires
            old(self)@.wf(),
        ensures
            final(self).timers_run_on(*old(self)),
            final(self)@ == old(self)@.answered(ask, reply),
            final(self)@.wf(),
    {
        match ask {
            Ask::HitTest { probe } => self.hit(probe, reply.take_hit()),
            Ask::Spinner => match reply.take_spinner() {
                Some((node, up)) => {
                    self.repaint();
                    self.step_number(
                        node,
                        if up {
                            1
                        } else {
                            -1
                        },
                    );
                },
                None => self.first(Ask::Scrollbar),
            },
            Ask::Scrollbar => self.scrollbar_hit(reply.take_scrollbar()),
            Ask::RangeText { node, press } => self.slid(node, press, reply.take_text()),
            Ask::StepText { node, purpose, .. } => match purpose {
                Purpose::Press => self.number_entered(node, reply.take_text()),
                Purpose::Key { activate } => self.key_number(node, activate, reply.take_text()),
            },
            Ask::ExtremeText { node, activate, .. } => self.key_number(
                node,
                activate,
                reply.take_text(),
            ),
            Ask::ClampText { node, emits } => self.clamped(node, emits, reply.take_text()),
            Ask::Hover { from, to } => self.hover_moved(from, to, reply.take_flag()),
            Ask::FindHandler { node, event, lookup } => self.handler_found(
                node,
                event,
                lookup,
                reply.take_node(),
            ),
            Ask::Send { marks, .. } => {
                let tick = reply.take_tick();
                self.join(tick);
                if marks && tick.needs_paint {
                    self.mark();
                }
            },
            Ask::SendInput { .. } | Ask::SendChange { .. } | Ask::SendScroll { .. }
            | Ask::RunJobs => self.join(reply.take_tick()),
            Ask::SendRuntime => {
                let tick = reply.take_tick();
                self.join(tick);
                if tick.needs_paint {
                    self.mark();
                }
            },
            Ask::SendKey { activate, tail, .. } => {
                self.join(reply.take_tick());
                if activate {
                    self.first(Ask::IsButton { tail });
                } else {
                    self.key_sent(tail);
                }
            },
            Ask::IsButton { tail } => {
                if reply.take_flag() {
                    self.first(Ask::Proceed { stage: Next::KeySent { tail } });
                    self.tell(tail.node, EventName::Click, None);
                } else {
                    self.key_sent(tail);
                }
            },
            Ask::SendWheel { scrolled, viewport, .. } => {
                self.join(reply.take_tick());
                self.wheeled(scrolled, viewport);
            },
            Ask::Blur { node, next } => self.blurred(node, next, reply.take_tick()),
            Ask::Focus { .. } => {
                self.focus_event_sent(reply.take_tick());
                self.focus_settled();
            },
            Ask::TabOrder { backwards } => {
                let order = reply.take_path();
                if let Some(node) = focus::next_control(&order, self.ui.focused, backwards) {
                    self.join(TickResult { needs_paint: true, jobs_pending: false });
                    self.focus(Some(node));
                }
            },
            Ask::RadioOrder { node, motion, activate } => {
                let order = reply.take_path();
                self.radio_moved(node, motion, activate, &order);
            },
            Ask::Owner { .. } => {
                self.first(Ask::HitTest { probe: Probe::Target });
                self.close_others(reply.take_node());
            },
            Ask::ScrollBy { node } => {
                let (scrolled, viewport) = reply.take_scrolled();
                self.first(
                    Ask::FindHandler {
                        node,
                        event: EventName::Wheel,
                        lookup: Lookup::Wheel { start: node, scrolled, viewport },
                    },
                );
            },
            Ask::Overlay { id } => {
                if reply.take_flag() {
                    self.touched(id, GestureMode::Control);
                } else {
                    self.first(Ask::HitTest { probe: Probe::Touch { id } });
                }
            },
            Ask::TrackMove { node } => {
                if reply.take_flag() {
                    self.repaint();
                    self.first(Ask::PanBy { node });
                }
            },
            Ask::Lift { node } => self.lifted(node, reply.take_release()),
            Ask::Blink => {
                if reply.take_flag() {
                    self.mark();
                }
            },
            Ask::Coast { node } => {
                let (scrolled, alive) = reply.take_coast();
                self.ui.momentum = if alive {
                    Some(node)
                } else {
                    None
                };
                if scrolled {
                    self.mark();
                }
            },
            Ask::Images => {
                let images = reply.take_images();
                self.tell_images(&images);
            },
            Ask::Proceed { stage } => self.proceed(stage),
            Ask::DragScroll { .. } | Ask::PageScroll { .. } | Ask::Activate { .. }
            | Ask::ClearFocus | Ask::SetFocus { .. } | Ask::RefreshInput { .. }
            | Ask::RefreshSelect { .. } | Ask::SyncPopups | Ask::SyncChecked { .. }
            | Ask::PanBy { .. } | Ask::Reveal { .. } => {},
        }
    }
}

/// The number of a stylesheet.
#[derive(Debug, Clone, Copy, PartialEq, Eq, Hash, Structural)]
pub struct StylesheetId(pub u64);

/// What an `input` event tells of an input.
#[derive(Debug)]
pub struct InputSnapshot {
    pub value: String,
    pub checked: bool,
    pub selection_start: usize,
    pub selection_end: usize,
}

/// What a `change` event tells of a select.
#[derive(Debug)]
pub struct SelectSnapshot {
    pub value: String,
    pub selected_index: Option<usize>,
}

/// The selected characters of an input, and where they are in the text it
/// shows.
#[derive(Debug, Clone, Copy, PartialEq, Eq, Structural)]
pub struct SelectionSpan {
    pub node: usize,
    pub start_chars: usize,
    pub end_chars: usize,
    pub start_byte: usize,
    pub end_byte: usize,
}

/// What an input shows, and where the caret is in it.
#[derive(Debug)]
pub struct RenderText {
    pub node: usize,
    pub text: String,
    pub placeholder: bool,
    pub caret_byte: usize,
}

impl RenderText {
    /// This is what the input `m` at `node` shows.
    pub open spec fn shows(self, node: usize, m: crate::input::InputModel) -> bool {
        &&& self.node == node
        &&& self.text@ == m.rendered()
        &&& self.placeholder == m.shows_placeholder()
        &&& self.caret_byte == m.display_caret_byte()
    }
}

/// The dispatch of events.
impl Instance {
    /// What the host is to do next.
    fn due(&self) -> (res: Step)
        ensures
            res == self@.due(),
    {
        let len: usize = self.agenda.len();
        if len == 0 {
            Step::Done { result: self.ui.result }
        } else {
            Step::Ask { ask: self.agenda[len - 1] }
        }
    }

    fn begin(&mut self)
        ensures
            final(self).timers_run_on(*old(self)),
            final(self)@ == old(self)@.begun(),
            old(self)@.wf() ==> final(self)@.wf(),
    {
        self.ui.result = TickResult { needs_paint: false, jobs_pending: false };
    }

    /// Takes the answer to what was asked last, and says what is next.
    pub fn step(&mut self, reply: Reply) -> (res: Step)
        requires
            old(self)@.wf(),
        ensures
            final(self).timers_run_on(*old(self)),
            final(self)@ == old(self)@.stepped(reply),
            final(self)@.wf(),
            res == final(self)@.due(),
    {
        if let Some(ask) = self.agenda.pop() {
            self.answer(ask, reply);
        }
        self.due()
    }

    /// The pointer did something.
    pub fn dispatch_mouse(&mut self, event: MouseEvent) -> (res: Step)
        requires
            old(self)@.wf(),
        ensures
            final(self).timers_run_on(*old(self)),
            final(self)@ == old(self)@.begun().pointer(event),
            final(self)@.wf(),
            res == final(self)@.due(),
    {
        self.begin();
        self.pointer(event);
        self.due()
    }

    /// The wheel turned.
    pub fn dispatch_wheel(&mut self) -> (res: Step)
        requires
            old(self)@.wf(),
        ensures
            final(self).timers_run_on(*old(self)),
            final(self)@ == old(self)@.begun().first(Ask::HitTest { probe: Probe::Wheel }),
            final(self)@.wf(),
            res == final(self)@.due(),
    {
        self.begin();
        self.first(Ask::HitTest { probe: Probe::Wheel });
        self.due()
    }

    /// A finger did something.
    pub fn dispatch_touch(&mut self, event: TouchEvent) -> (res: Step)
        requires
            old(self)@.wf(),
        ensures
            final(self).timers_run_on(*old(self)),
            final(self)@ == old(self)@.begun().touch(event),
            final(self)@.wf(),
            res == final(self)@.due(),
    {
        self.begin();
        match event.phase {
            TouchPhase::Started => {
                self.ui.momentum = None;
                if self.ui.touch.is_none() {
                    self.first(Ask::Overlay { id: event.id });
                }
            },
            TouchPhase::Moved => {
                if let Some(touch) = self.ui.touch {
                    if touch.id == event.id {
                        match touch.mode {
                            GestureMode::Control => self.pointer(MouseEvent::Move),
                            GestureMode::Pan { node } => self.first(Ask::TrackMove { node }),
                        }
                    }
                }
            },
            TouchPhase::Ended => {
                if let Some(touch) = self.ui.touch {
                    if touch.id == event.id {
                        self.ui.touch = None;
                        match touch.mode {
                            GestureMode::Control => self.pointer(
                                MouseEvent::Up { button: MouseButton::Left },
                            ),
                            GestureMode::Pan { node } => self.first(Ask::Lift { node }),
                        }
                    }
                }
            },
            TouchPhase::Cancelled => {
                if let Some(touch) = self.ui.touch {
                    if touch.id == event.id {
                        self.ui.touch = None;
                        if let GestureMode::Control = touch.mode {
                            self.pointer(MouseEvent::Up { button: MouseButton::Left });
                        }
                    }
                }
            },
        }
        self.due()
    }

    /// A key went down.
    pub fn dispatch_key_down(&mut self, event: &KeyboardEvent) -> (res: Step)
        requires
            old(self)@.wf(),
        ensures
            final(self).timers_run_on(*old(self)),
            final(self)@ == old(self)@.begun().key(true, event.stroke()),
            final(self)@.wf(),
            res == final(self)@.due(),
    {
        self.begin();
        self.key(true, event);
        self.due()
    }

    /// A key came up.
    pub fn dispatch_key_up(&mut self, event: &KeyboardEvent) -> (res: Step)
        requires
            old(self)@.wf(),
        ensures
            final(self).timers_run_on(*old(self)),
            final(self)@ == old(self)@.begun().key(false, event.stroke()),
            final(self)@.wf(),
            res == final(self)@.due(),
    {
        self.begin();
        self.key(false, event);
        self.due()
    }

    fn key(&mut self, down: bool, event: &KeyboardEvent)
        requires
            old(self)@.wf(),
        ensures
            final(self).timers_run_on(*old(self)),
            final(self)@ == old(self)@.key(down, event.stroke()),
            final(self)@.wf(),
    {
        let k = event.keystroke();
        if down && k.key == Key::Tab {
            self.first(Ask::TabOrder { backwards: k.shift });
            if let Some(node) = self.ui.focused {
                if self.select_is_open(node) {
                    let (edited, _) = select::apply_select_key(&mut self.selects, node, event);
                    if edited {
                        self.mark();
                        self.first(Ask::SendChange { select: node });
                        self.first(Ask::RefreshSelect { select: node });
                        self.first(Ask::SyncPopups);
                    }
                }
            }
            return ;
        }
        if let Some(node) = self.ui.focused {
            self.key_on(node, down, event);
        }
    }

    fn key_on(&mut self, node: usize, down: bool, event: &KeyboardEvent)
        requires
            old(self)@.wf(),
        ensures
            final(self).timers_run_on(*old(self)),
            final(self)@ == old(self)@.key_on(node, down, event.stroke()),
            final(self)@.wf(),
    {
        proof {
            reveal(Model::key_on);
        }
        let k = event.keystroke();
        let activate = !k.is_modified() && ((down && k.key == Key::Enter) || (!down && k.key
            == Key::Space));
        let mut tail = KeyTail { node, edited: false, emits: false, target: None };
        if down && self.has_input(node) {
            let motion = Self::radio_motion(k.key);
            if let Some(InputType::Radio) = self.input_kind(node) {
                if let Some(motion) = motion {
                    self.first(Ask::RadioOrder { node, motion, activate });
                    return ;
                }
            }
            let ghost before = self@.inputs;
            match keys::apply_input_key(&mut self.inputs, node, event) {
                KeyEdit::Done { changed, emits } => {
                    tail.edited = changed;
                    tail.emits = emits;
                },
                KeyEdit::Step { count } => {
                    assert(self@.inputs == before);
                    self.first(Ask::StepText { node, count, purpose: Purpose::Key { activate } });
                    return ;
                },
                KeyEdit::Extreme { maximum } => {
                    assert(self@.inputs == before);
                    self.first(Ask::ExtremeText { node, maximum, activate });
                    return ;
                },
            }
        } else if down && self.has_select(node) {
            if self.lacks_options(node, event) {
                self.send_key(down, activate, tail);
                return ;
            }
            let (edited, emits) = select::apply_select_key(&mut self.selects, node, event);
            if edited {
                tail.edited = true;
                tail.emits = emits;
                self.send_key(down, activate, tail);
                self.first(Ask::SyncPopups);
                return ;
            }
        }
        self.send_key(down, activate, tail);
    }

    /// The key would move the highlight of an open popup without options.
    fn lacks_options(&self, node: usize, event: &KeyboardEvent) -> (res: bool)
        requires
            self@.has_select(node),
        ensures
            res == (self@.selects[node].key_needs_options(event.stroke())
                && self@.selects[node].options.len() == 0),
    {
        let k = event.keystroke();
        let down = matches!(k.key, Key::ArrowDown | Key::Down);
        let up = matches!(k.key, Key::ArrowUp | Key::Up) && !k.alt;
        match self.selects.get(&node) {
            Some(state) => !state.disabled() && state.is_open() && (down || up)
                && state.option_count() == 0,
            None => false,
        }
    }

    fn radio_motion(key: Key) -> (res: Option<Motion>)
        ensures
            res == crate::plan::radio_motion(key),
    {
        match key {
            Key::ArrowLeft | Key::ArrowUp => Some(Motion::Previous),
            Key::ArrowRight | Key::ArrowDown => Some(Motion::Following),
            Key::Home => Some(Motion::First),
            Key::End => Some(Motion::Last),
            _ => None,
        }
    }

    /// Moves the focus, or takes it away.
    pub fn set_focused_node(&mut self, next_focus: Option<usize>) -> (res: Step)
        requires
            old(self)@.wf(),
        ensures
            final(self).timers_run_on(*old(self)),
            final(self)@ == old(self)@.begun().focusing(next_focus),
            final(self)@.wf(),
            res == final(self)@.due(),
    {
        self.begin();
        self.focus(next_focus);
        self.due()
    }

    /// Lets time pass.
    pub fn tick(&mut self) -> (res: Step)
        requires
            old(self)@.wf(),
        ensures
            final(self).timers_run_on(*old(self)),
            final(self)@ == old(self)@.begun().ticking(),
            final(self)@.wf(),
            res == final(self)@.due(),
    {
        self.begin();
        self.first(Ask::Proceed { stage: Next::EndTick });
        self.first(Ask::Images);
        if let Some(node) = self.ui.momentum {
            self.first(Ask::Coast { node });
        }
        self.first(Ask::Blink);
        self.first(Ask::RunJobs);
        self.due()
    }

    /// Sends a runtime event to the scripts.
    pub fn dispatch_runtime_event(&mut self) -> (res: Step)
        requires
            old(self)@.wf(),
        ensures
            final(self).timers_run_on(*old(self)),
            final(self)@ == old(self)@.begun().first(Ask::SendRuntime),
            final(self)@.wf(),
            res == final(self)@.due(),
    {
        self.begin();
        self.first(Ask::SendRuntime);
        self.due()
    }

    /// Does what an assistive technology asks of a node. `value` is what a
    /// value is to be set to. The target `u64::MAX` is no node.
    pub fn perform_accessibility_action(
        &mut self,
        target: u64,
        action: Action,
        value: Option<&str>,
    ) -> (res: Step)
        requires
            old(self)@.wf(),
        ensures
            final(self).timers_run_on(*old(self)),
            final(self)@ == if target == u64::MAX || (action is SetValue && value is None) {
                old(self)@.begun()
            } else {
                old(self)@.begun().assisting(
                    target as usize,
                    action,
                    match value {
                        Some(text) => text@,
                        None => Seq::empty(),
                    },
                )
            },
            final(self)@.wf(),
            res == final(self)@.due(),
    {
        self.begin();
        if target != u64::MAX {
            let node: usize = target as usize;
            match action {
                Action::Focus => self.focus(Some(node)),
                Action::Blur => self.focus(None),
                Action::Increment => self.step_number(node, 1),
                Action::Decrement => self.step_number(node, -1),
                Action::SetValue => {
                    if let Some(text) = value {
                        self.set_input_value_via_a11y(node, text);
                    }
                },
                Action::Click => self.activate_node_via_a11y(node),
                Action::ScrollIntoView => {
                    self.repaint();
                    self.first(Ask::Reveal { node });
                },
                Action::Other => {},
            }
        }
        self.due()
    }

    fn set_input_value_via_a11y(&mut self, node: usize, value: &str)
        requires
            old(self)@.wf(),
        ensures
            final(self).timers_run_on(*old(self)),
            final(self)@ == old(self)@.assisting(node, Action::SetValue, value@),
            final(self)@.wf(),
    {
        let open = match self.inputs.get(&node) {
            Some(state) => !state.disabled() && !state.readonly(),
            None => false,
        };
        if open {
            self.give(node, value);
        }
    }

    fn activate_node_via_a11y(&mut self, node: usize)
        requires
            old(self)@.wf(),
        ensures
            final(self).timers_run_on(*old(self)),
            final(self)@ == old(self)@.assisting(node, Action::Click, Seq::empty()),
            final(self)@.wf(),
    {
        if let Some(kind) = self.input_kind(node) {
            if kind.is_checked_like() {
                self.check_clicked(node);
                return ;
            }
        }
        if self.has_select(node) {
            self.select_clicked(node);
        } else {
            self.click();
        }
    }
}

/// What an instance is made with.
#[derive(Debug)]
pub struct InstanceConfig {
    pub width: u32,
    pub height: u32,
    /// Stylesheets that apply before the component mounts.
    pub stylesheets: Vec<String>,
    /// The container becomes a scroll container of the instance's height.
    pub document_scroll: bool,
    /// The address that relative addresses are resolved against.
    pub base_url: Option<String>,
}

impl Model {
    /// An instance before anything has happened to it. Its first frame is
    /// always to be painted.
    pub open spec fn fresh(
        width: u32,
        height: u32,
        container: usize,
        document_scroll: bool,
        sheets: Seq<String>,
        base_url: Seq<char>,
    ) -> Model {
        Model {
            ui: Ui {
                width,
                height,
                container,
                document_scroll,
                needs_paint: true,
                result: TickResult::nothing(),
                focus_paint: false,
                hovered: None,
                active: None,
                focused: None,
                range_drag: None,
                scrollbar_drag: None,
                touch: None,
                momentum: None,
            },
            inputs: Map::empty(),
            selects: Map::empty(),
            agenda: Seq::empty(),
            sheets: Map::new(|id: u64| id < sheets.len(), |id: u64| sheets[id as int]@),
            next_sheet: sheets.len() as u64,
            base_url,
        }
    }

    /// With a stylesheet registered under the next number.
    pub open spec fn with_sheet(self, css: Seq<char>) -> Model {
        (Model {
            sheets: self.sheets.insert(self.next_sheet, css),
            next_sheet: (self.next_sheet + 1) as u64,
            ..self
        }).marked()
    }

    /// With another text for a registered stylesheet.
    pub open spec fn with_sheet_replaced(self, id: u64, css: Seq<char>) -> Model {
        if self.sheets.contains_key(id) {
            (Model { sheets: self.sheets.insert(id, css), ..self }).marked()
        } else {
            self
        }
    }

    /// Without a stylesheet.
    pub open spec fn without_sheet(self, id: u64) -> Model {
        if self.sheets.contains_key(id) {
            (Model { sheets: self.sheets.remove(id), ..self }).marked()
        } else {
            self
        }
    }

    /// A node stands for an option in the popup of a select.
    pub open spec fn shows_option(self, select: usize, index: int, node: usize) -> bool {
        &&& self.has_select(select)
        &&& 0 <= index < self.selects[select].option_nodes.len()
        &&& self.selects[select].option_nodes[index] == Some(node)
    }

    /// What is told to assistive technologies of a node.
    pub open spec fn told(
        self,
        node: usize,
        element: Option<(Seq<char>, Seq<(String, String)>)>,
    ) -> A11yModel {
        let live = if self.has_input(node) {
            A11yModel::new().with_input(self.inputs[node])
        } else if self.has_select(node) {
            A11yModel::new().with_select(self.selects[node])
        } else {
            A11yModel::new()
        };
        match element {
            Some((tag, attrs)) => live.with_attrs(attrs, attrs.len() as int).with_element(
                tag,
                a11y::has_href(attrs),
            ),
            None => live,
        }
    }

    /// The text of a stylesheet, where it is registered.
    pub open spec fn sheet(self, id: u64) -> Option<Seq<char>> {
        if self.sheets.contains_key(id) {
            Some(self.sheets[id])
        } else {
            None
        }
    }
}

/// What the host sets up and reads.
impl Instance {
    /// This is the instance that `config` calls for, with a base address in its
    /// canonical form.
    pub open spec fn made_with(&self, config: InstanceConfig, container: usize, base_url: Seq<char>) -> bool {
        &&& self@ == Model::fresh(
            config.width,
            config.height,
            container,
            config.document_scroll,
            config.stylesheets@,
            base_url,
        )
        &&& self@.wf()
    }

    /// Makes an instance whose component lives in the node `container`.
    /// `default_base_url` stands in where the configuration names none.
    pub fn new(config: InstanceConfig, container: usize, default_base_url: String) -> (res: Result<
        Instance,
        InstanceError,
    >)
        ensures
            ({
                let value = crate::base_url::chosen(
                    crate::input::text_view(config.base_url),
                    None,
                    default_base_url@,
                );
                match crate::base_url::canonical(value) {
                    Ok(url) => res matches Ok(instance) && instance.made_with(
                        config,
                        container,
                        url,
                    ),
                    Err(error) => res matches Err(e) && e@ == error,
                }
            }),
    {
        Self::new_in(config, container, None, default_base_url)
    }

    /// Makes an instance. Where the configuration names no base address, that
    /// of the directory `parent` stands in, or else the default.
    fn new_in(
        config: InstanceConfig,
        container: usize,
        parent: Option<&str>,
        default_base_url: String,
    ) -> (res: Result<Instance, InstanceError>)
        ensures
            ({
                let value = crate::base_url::chosen(
                    crate::input::text_view(config.base_url),
                    crate::base_url::parent_address(crate::input::str_view(parent)),
                    default_base_url@,
                );
                match crate::base_url::canonical(value) {
                    Ok(url) => res matches Ok(instance) && instance.made_with(
                        config,
                        container,
                        url,
                    ),
                    Err(error) => res matches Err(e) && e@ == error,
                }
            }),
    {
        let value = crate::base_url::base_url_for(config.base_url, parent, default_base_url);
        match crate::base_url::parse_base_url(value.as_str()) {
            Ok(base_url) => Ok(
                Self::with_base_url(
                    config.width,
                    config.height,
                    container,
                    config.document_scroll,
                    &config.stylesheets,
                    base_url,
                ),
            ),
            Err(error) => Err(error),
        }
    }

    /// Makes an instance for a component whose source was read from
    /// `component_path`, and hands back the module to mount. `compiled`: what
    /// the compiler made of the source, where there is one. Relative addresses
    /// are resolved against the directory of the file where the configuration
    /// names no base address.
    pub fn new_from_file(
        config: InstanceConfig,
        container: usize,
        component_path: &str,
        component_source: String,
        compiled: Option<Result<String, String>>,
        default_base_url: String,
    ) -> (res: Result<(Instance, String), InstanceError>)
        ensures
            ({
                let value = crate::base_url::chosen(
                    crate::input::text_view(config.base_url),
                    crate::base_url::parent_address(crate::paths::path_parent(component_path@)),
                    default_base_url@,
                );
                match crate::source::module_outcome(
                    component_path@,
                    component_source@,
                    compiled,
                ) {
                    Ok(module) => match crate::base_url::canonical(value) {
                        Ok(url) => res matches Ok((instance, text)) && instance.made_with(
                            config,
                            container,
                            url,
                        ) && text@ == module,
                        Err(error) => res matches Err(e) && e@ == error,
                    },
                    Err(error) => res matches Err(e) && e@ == error,
                }
            }),
    {
        let module = match crate::source::component_module(
            component_path,
            component_source,
            compiled,
        ) {
            Ok(module) => module,
            Err(error) => {
                return Err(error);
            },
        };
        let made = match crate::paths::parent(component_path) {
            Some(parent) => Self::new_in(
                config,
                container,
                Some(parent.as_str()),
                default_base_url,
            ),
            None => Self::new_in(config, container, None, default_base_url),
        };
        match made {
            Ok(instance) => Ok((instance, module)),
            Err(error) => Err(error),
        }
    }

    /// Makes an instance for a component that is kept in memory, and hands back
    /// the module of its entry point to mount. `compiled`: what the compiler
    /// made of its source, where there is one.
    pub fn new_from_virtual_files(
        config: InstanceConfig,
        container: usize,
        files: &Vec<VirtualSourceFile>,
        entrypoint: &str,
        compiled: Option<Result<String, String>>,
        default_base_url: String,
    ) -> (res: Result<(Instance, String), InstanceError>)
        ensures
            ({
                let value = crate::base_url::chosen(
                    crate::input::text_view(config.base_url),
                    None,
                    default_base_url@,
                );
                if exists|i: int| crate::source::first_with_path(files@, entrypoint@, i) {
                    let i = choose|i: int|
                        crate::source::first_with_path(files@, entrypoint@, i);
                    match crate::source::module_outcome(
                        entrypoint@,
                        files@[i].source@,
                        compiled,
                    ) {
                        Ok(module) => match crate::base_url::canonical(value) {
                            Ok(url) => res matches Ok((instance, text)) && instance.made_with(
                                config,
                                container,
                                url,
                            ) && text@ == module,
                            Err(error) => res matches Err(e) && e@ == error,
                        },
                        Err(error) => res matches Err(e) && e@ == error,
                    }
                } else {
                    res matches Err(e) && e@ == (InstanceErrorModel::MissingVirtualEntrypoint {
                        path: entrypoint@,
                    })
                }
            }),
    {
        let source = match crate::source::virtual_entrypoint_source(files, entrypoint) {
            Ok(source) => source,
            Err(error) => {
                return Err(error);
            },
        };
        let module = match crate::source::component_module(entrypoint, source, compiled) {
            Ok(module) => module,
            Err(error) => {
                return Err(error);
            },
        };
        match Self::new_in(config, container, None, default_base_url) {
            Ok(instance) => Ok((instance, module)),
            Err(error) => Err(error),
        }
    }

    /// Makes an instance with a base address in its canonical form.
    pub fn with_base_url(
        width: u32,
        height: u32,
        container: usize,
        document_scroll: bool,
        stylesheets: &Vec<String>,
        base_url: String,
    ) -> (res: Instance)
        ensures
            res@ == Model::fresh(
                width,
                height,
                container,
                document_scroll,
                stylesheets@,
                base_url@,
            ),
            res@.wf(),
    {
        let mut sheets: HashMap<u64, String> = HashMap::new();
        let mut i: usize = 0;
        while i < stylesheets.len()
            invariant
                i <= stylesheets.len(),
                forall|id: u64| #[trigger] sheets@.contains_key(id) <==> id < i,
                forall|id: u64| id < i ==> (#[trigger] sheets@[id])@ == stylesheets@[id as int]@,
            decreases stylesheets.len() - i,
        {
            sheets.insert(i as u64, stylesheets[i].clone());
            i += 1;
        }
        let inputs: InputRegistry = HashMap::new();
        let selects: SelectRegistry = HashMap::new();
        let res = Instance {
            ui: Ui {
                width,
                height,
                container,
                document_scroll,
                needs_paint: true,
                result: TickResult { needs_paint: false, jobs_pending: false },
                focus_paint: false,
                hovered: None,
                active: None,
                focused: None,
                range_drag: None,
                scrollbar_drag: None,
                touch: None,
                momentum: None,
            },
            inputs,
            selects,
            agenda: Vec::new(),
            sheets,
            next_sheet: stylesheets.len() as u64,
            base_url,
        };
        let ghost goal = Model::fresh(
            width,
            height,
            container,
            document_scroll,
            stylesheets@,
            base_url@,
        );
        assert(res@.inputs =~= goal.inputs);
        assert(res@.selects =~= goal.selects);
        assert(res@.sheets =~= goal.sheets);
        res
    }

    /// Registers an input that was created at `node`, in place of one that was
    /// there.
    pub fn register_input(&mut self, node: usize, state: InputState)
        requires
            old(self)@.wf(),
            state@.wf(),
        ensures
            final(self)@ == (Model {
                inputs: old(self)@.inputs.insert(node, state@),
                ..old(self)@
            }),
            final(self).input_states() == old(self).input_states().insert(node, state),
            final(self)@.wf(),
    {
        let ghost before = self@.inputs;
        self.inputs.insert(node, state);
        assert(self@.inputs =~= before.insert(node, state@));
    }

    /// Forgets the input at `node`.
    pub fn remove_input(&mut self, node: usize)
        requires
            old(self)@.wf(),
        ensures
            final(self)@ == (Model { inputs: old(self)@.inputs.remove(node), ..old(self)@ }),
            final(self).input_states() == old(self).input_states().remove(node),
            final(self)@.wf(),
    {
        let ghost before = self@.inputs;
        self.inputs.remove(&node);
        assert(self@.inputs =~= before.remove(node));
    }

    /// Registers a select that was created at `node`, in place of one that was
    /// there.
    pub fn register_select(&mut self, node: usize, state: SelectState)
        requires
            old(self)@.wf(),
            state@.wf(),
        ensures
            final(self).timers_run_on(*old(self)),
            final(self)@ == (Model {
                selects: old(self)@.selects.insert(node, state@),
                ..old(self)@
            }),
            final(self)@.wf(),
    {
        let ghost before = self@.selects;
        self.selects.insert(node, state);
        assert(self@.selects =~= before.insert(node, state@));
    }

    /// Forgets the select at `node`.
    pub fn remove_select(&mut self, node: usize)
        requires
            old(self)@.wf(),
        ensures
            final(self).timers_run_on(*old(self)),
            final(self)@ == (Model { selects: old(self)@.selects.remove(node), ..old(self)@ }),
            final(self)@.wf(),
    {
        let ghost before = self@.selects;
        self.selects.remove(&node);
        assert(self@.selects =~= before.remove(node));
    }

    /// The input at `node`.
    pub fn input(&self, node: usize) -> (res: Option<&InputState>)
        requires
            self@.wf(),
        ensures
            match res {
                Some(state) => self@.has_input(node) && state@ == self@.inputs[node]
                    && *state == self.input_states()[node] && state@.wf(),
                None => !self@.has_input(node),
            },
    {
        let res = self.inputs.get(&node);
        assert(res is Some ==> self@.inputs.contains_key(node));
        res
    }

    /// The select at `node`.
    pub fn select(&self, node: usize) -> (res: Option<&SelectState>)
        requires
            self@.wf(),
        ensures
            match res {
                Some(state) => self@.has_select(node) && state@ == self@.selects[node]
                    && state@.wf(),
                None => !self@.has_select(node),
            },
    {
        let res = self.selects.get(&node);
        assert(res is Some ==> self@.selects.contains_key(node));
        res
    }

    pub fn size(&self) -> (res: (u32, u32))
        ensures
            res == (self@.ui.width, self@.ui.height),
    {
        (self.ui.width, self.ui.height)
    }

    pub fn container_id(&self) -> (res: usize)
        ensures
            res == self@.ui.container,
    {
        self.ui.container
    }

    pub fn focused_node_id(&self) -> (res: Option<usize>)
        ensures
            res == self@.ui.focused,
    {
        self.ui.focused
    }

    pub fn hovered_node_id(&self) -> (res: Option<usize>)
        ensures
            res == self@.ui.hovered,
    {
        self.ui.hovered
    }

    pub fn active_node_id(&self) -> (res: Option<usize>)
        ensures
            res == self@.ui.active,
    {
        self.ui.active
    }

    /// Something has changed since the last paint.
    pub fn needs_paint(&self) -> (res: bool)
        ensures
            res == self@.ui.needs_paint,
    {
        self.ui.needs_paint
    }

    /// A frame has been painted.
    pub fn painted(&mut self)
        ensures
            final(self).timers_run_on(*old(self)),
            final(self)@ == (Model {
                ui: Ui { needs_paint: false, ..old(self)@.ui },
                ..old(self)@
            }),
            old(self)@.wf() ==> final(self)@.wf(),
    {
        self.ui.needs_paint = false;
    }

    /// Takes another size. Where the result is `Some`, the container is a
    /// scroll container, and this is to be its height.
    pub fn resize(&mut self, width: u32, height: u32) -> (res: Option<String>)
        ensures
            final(self).timers_run_on(*old(self)),
            final(self)@ == (Model {
                ui: Ui { width, height, ..old(self)@.ui },
                ..old(self)@
            }).marked(),
            crate::input::text_view(res) == if old(self)@.ui.document_scroll {
                Some(crate::text::decimal(height as nat) + "px"@)
            } else {
                None
            },
            old(self)@.wf() ==> final(self)@.wf(),
    {
        self.ui.width = width;
        self.ui.height = height;
        self.mark();
        self.container_height()
    }

    /// The height of the container in the style sheet language, where it is a
    /// scroll container.
    pub fn container_height(&self) -> (res: Option<String>)
        ensures
            crate::input::text_view(res) == if self@.ui.document_scroll {
                Some(crate::text::decimal(self@.ui.height as nat) + "px"@)
            } else {
                None
            },
    {
        if self.ui.document_scroll {
            let mut res = crate::text::to_decimal(self.ui.height as u64);
            res.append("px");
            Some(res)
        } else {
            None
        }
    }

    /// The colours of the scrollbars have changed.
    pub fn set_scrollbar_theme(&mut self)
        ensures
            final(self).timers_run_on(*old(self)),
            final(self)@ == old(self)@.marked(),
            old(self)@.wf() ==> final(self)@.wf(),
    {
        self.mark();
    }

    /// The address that relative addresses are resolved against.
    pub fn base_url(&self) -> (res: &str)
        ensures
            res@ == self@.base_url,
    {
        self.base_url.as_str()
    }

    /// Takes another base address, where `url` is an absolute address. Returns
    /// whether it is.
    pub fn set_base_url(&mut self, url: &str) -> (res: bool)
        ensures
            final(self).timers_run_on(*old(self)),
            res == (crate::base_url::url_parsed(url@) is Ok),
            final(self)@ == match crate::base_url::url_parsed(url@) {
                Ok(canonical) => Model { base_url: canonical, ..old(self)@ },
                Err(_) => old(self)@,
            },
            old(self)@.wf() ==> final(self)@.wf(),
    {
        let checked = crate::base_url::checked_base_url(url);
        self.adopt_base_url(checked)
    }

    /// Takes another base address, where there is one. Returns whether there
    /// is.
    pub fn adopt_base_url(&mut self, canonical: Option<String>) -> (res: bool)
        ensures
            final(self).timers_run_on(*old(self)),
            res == (canonical is Some),
            final(self)@ == match canonical {
                Some(url) => Model { base_url: url@, ..old(self)@ },
                None => old(self)@,
            },
            old(self)@.wf() ==> final(self)@.wf(),
    {
        match canonical {
            Some(url) => {
                self.base_url = url;
                true
            },
            None => false,
        }
    }

    /// Registers a stylesheet, which the host adds to the document.
    pub fn add_stylesheet(&mut self, css: &str) -> (res: StylesheetId)
        requires
            old(self)@.wf(),
            old(self)@.next_sheet < u64::MAX,
        ensures
            final(self).timers_run_on(*old(self)),
            res.0 == old(self)@.next_sheet,
            final(self)@ == old(self)@.with_sheet(css@),
            final(self)@.wf(),
    {
        let ghost before = self@.sheets;
        let id: u64 = self.next_sheet;
        self.next_sheet += 1;
        self.sheets.insert(id, css.to_owned());
        assert(self@.sheets =~= before.insert(id, css@));
        self.mark();
        StylesheetId(id)
    }

    /// Registers a font, whose `@font-face` rule the host adds to the document.
    /// The number is that of the rule.
    pub fn register_font_bytes(&mut self, font_face_css: &str) -> (res: StylesheetId)
        requires
            old(self)@.wf(),
            old(self)@.next_sheet < u64::MAX,
        ensures
            final(self).timers_run_on(*old(self)),
            res.0 == old(self)@.next_sheet,
            final(self)@ == old(self)@.with_sheet(font_face_css@),
            final(self)@.wf(),
    {
        self.add_stylesheet(font_face_css)
    }

    /// Replaces the text of a stylesheet. Returns the text that the host takes
    /// out of the document, where the stylesheet is known.
    pub fn replace_stylesheet(&mut self, id: StylesheetId, css: &str) -> (res: Option<String>)
        requires
            old(self)@.wf(),
        ensures
            final(self).timers_run_on(*old(self)),
            crate::input::text_view(res) == old(self)@.sheet(id.0),
            final(self)@ == old(self)@.with_sheet_replaced(id.0, css@),
            final(self)@.wf(),
    {
        let ghost before = self@.sheets;
        let previous = self.sheets.remove(&id.0);
        if previous.is_some() {
            assert(before.contains_key(id.0));
            self.sheets.insert(id.0, css.to_owned());
            assert(self@.sheets =~= before.insert(id.0, css@));
            self.mark();
        } else {
            assert(self@.sheets =~= before);
        }
        previous
    }

    /// Forgets a stylesheet. Returns the text that the host takes out of the
    /// document, where the stylesheet is known.
    pub fn remove_stylesheet(&mut self, id: StylesheetId) -> (res: Option<String>)
        requires
            old(self)@.wf(),
        ensures
            final(self).timers_run_on(*old(self)),
            crate::input::text_view(res) == old(self)@.sheet(id.0),
            final(self)@ == old(self)@.without_sheet(id.0),
            final(self)@.wf(),
    {
        let ghost before = self@.sheets;
        let previous = self.sheets.remove(&id.0);
        if previous.is_some() {
            assert(self@.sheets =~= before.remove(id.0));
            self.mark();
        } else {
            assert(self@.sheets =~= before);
        }
        previous
    }

    /// Replaces a stylesheet, or registers it where its number is not known.
    /// Returns the number to use from then on, and the text that the host
    /// takes out of the document.
    pub fn upsert_stylesheet(&mut self, stylesheet_id: Option<StylesheetId>, css: &str) -> (res: (
        StylesheetId,
        Option<String>,
    ))
        requires
            old(self)@.wf(),
            old(self)@.next_sheet < u64::MAX,
        ensures
            final(self).timers_run_on(*old(self)),
            ({
                let known = stylesheet_id matches Some(id) && old(self)@.sheets.contains_key(id.0);
                &&& known ==> res.0 == stylesheet_id->0 && final(self)@ == old(
                    self,
                )@.with_sheet_replaced((stylesheet_id->0).0, css@) && crate::input::text_view(res.1)
                    == old(self)@.sheet((stylesheet_id->0).0)
                &&& !known ==> res.0.0 == old(self)@.next_sheet && final(self)@ == old(
                    self,
                )@.with_sheet(css@) && res.1 is None
            }),
            final(self)@.wf(),
    {
        if let Some(id) = stylesheet_id {
            let previous = self.replace_stylesheet(id, css);
            if previous.is_some() {
                return (id, previous);
            }
        }
        (self.add_stylesheet(css), None)
    }

    /// The text of a stylesheet.
    pub fn stylesheet(&self, id: StylesheetId) -> (res: Option<&str>)
        ensures
            crate::input::str_view(res) == self@.sheet(id.0),
    {
        match self.sheets.get(&id.0) {
            Some(css) => Some(css.as_str()),
            None => None,
        }
    }

    /// Imported stylesheets have been looked at for changes, each with the
    /// given outcome. Returns whether any has been replaced.
    pub fn reload_imported_stylesheets(&mut self, replaced: &Vec<bool>) -> (res: bool)
        ensures
            final(self).timers_run_on(*old(self)),
            res == replaced@.contains(true),
            final(self)@ == if res {
                old(self)@.marked()
            } else {
                old(self)@
            },
            old(self)@.wf() ==> final(self)@.wf(),
    {
        let mut changed = false;
        let mut i: usize = 0;
        while i < replaced.len()
            invariant
                i <= replaced.len(),
                changed == exists|j: int| 0 <= j < i && #[trigger] replaced@[j],
            decreases replaced.len() - i,
        {
            if replaced[i] {
                changed = true;
            }
            i += 1;
        }
        if changed {
            self.mark();
        }
        changed
    }

    /// The value of the input at `node`; of a checkbox or radio button, the
    /// text that stands for its state.
    pub fn input_value(&self, node: usize) -> (res: Option<String>)
        ensures
            crate::input::text_view(res) == if self@.has_input(node) {
                Some(
                    if self@.inputs[node].kind.checked_like() {
                        self@.inputs[node].rendered()
                    } else {
                        self@.inputs[node].value
                    },
                )
            } else {
                None
            },
    {
        match self.inputs.get(&node) {
            Some(state) => if state.is_checked_like() {
                Some(state.render(false).0)
            } else {
                Some(state.value().to_owned())
            },
            None => None,
        }
    }

    /// Puts a value into the input at `node`, without an event: the caret goes
    /// to the end of the text, and what is shown is to follow. `None` where
    /// there is no input.
    pub fn set_input_value(&mut self, node: usize, value: &str) -> (res: Option<Step>)
        requires
            old(self)@.wf(),
        ensures
            final(self).timers_run_on(*old(self)),
            final(self)@ == if old(self)@.has_input(node) {
                old(self)@.begun().putting(node, value@)
            } else {
                old(self)@
            },
            final(self)@.wf(),
            res == if old(self)@.has_input(node) {
                Some(final(self)@.due())
            } else {
                None
            },
    {
        if !self.has_input(node) {
            return None;
        }
        self.begin();
        self.put(node, value);
        Some(self.due())
    }

    /// The text to show inside the input at `node`. A slider shows none.
    pub fn input_text(&self, node: usize) -> (res: Option<String>)
        ensures
            crate::input::text_view(res) == if self@.has_input(node)
                && !(self@.inputs[node].kind is Range) {
                Some(self@.inputs[node].rendered())
            } else {
                None
            },
    {
        match self.inputs.get(&node) {
            Some(state) => if state.is_range() {
                None
            } else {
                Some(state.render(false).0)
            },
            None => None,
        }
    }

    /// What an `input` event tells of the input at `node`.
    pub fn input_snapshot(&self, node: usize) -> (res: Option<InputSnapshot>)
        ensures
            match res {
                Some(snapshot) => {
                    &&& self@.has_input(node)
                    &&& snapshot.value@ == self@.inputs[node].value
                    &&& snapshot.checked == self@.inputs[node].checked
                    &&& snapshot.selection_start == self@.inputs[node].sel_start()
                    &&& snapshot.selection_end == self@.inputs[node].sel_end()
                },
                None => !self@.has_input(node),
            },
    {
        match self.inputs.get(&node) {
            Some(state) => Some(
                InputSnapshot {
                    value: state.value().to_owned(),
                    checked: state.checked(),
                    selection_start: state.selection_start(),
                    selection_end: state.selection_end(),
                },
            ),
            None => None,
        }
    }

    /// What a `change` event tells of the select at `node`. The value is empty
    /// where no option is selected.
    pub fn select_snapshot(&self, node: usize) -> (res: Option<SelectSnapshot>)
        requires
            self@.wf(),
        ensures
            match res {
                Some(snapshot) => {
                    &&& self@.has_select(node)
                    &&& snapshot.value@ == match self@.selects[node].selected {
                        Some(i) => self@.selects[node].options[i].value,
                        None => Seq::empty(),
                    }
                    &&& select::index_view(snapshot.selected_index)
                        == self@.selects[node].selected
                },
                None => !self@.has_select(node),
            },
    {
        match self.select(node) {
            Some(state) => {
                let value = match state.value() {
                    Some(value) => value,
                    None => String::new(),
                };
                Some(SelectSnapshot { value, selected_index: state.selected_index() })
            },
            None => None,
        }
    }

    /// The label to show for the select at `node`.
    pub fn select_text(&self, node: usize) -> (res: Option<String>)
        requires
            self@.wf(),
        ensures
            crate::input::text_view(res) == if self@.has_select(node) {
                Some(self@.selects[node].label())
            } else {
                None
            },
    {
        match self.select(node) {
            Some(state) => Some(state.current_label()),
            None => None,
        }
    }

    /// The nodes of the selects, each once.
    pub fn select_node_ids(&self) -> (res: Vec<usize>)
        ensures
            res@.no_duplicates(),
            forall|id: usize| res@.contains(id) <==> self@.has_select(id),
    {
        crate::registry::ids_of(&self.selects)
    }

    /// Opens or closes the popup of the select at `select_id`.
    pub fn set_select_dropdown_open(&mut self, select_id: usize, open: bool) -> (res: Step)
        requires
            old(self)@.wf(),
        ensures
            final(self).timers_run_on(*old(self)),
            final(self)@ == if old(self)@.has_select(select_id) {
                (Model {
                    selects: old(self)@.selects.insert(
                        select_id,
                        if open {
                            old(self)@.selects[select_id].opened()
                        } else {
                            old(self)@.selects[select_id].closed()
                        },
                    ),
                    ..old(self)@.begun()
                }).marked().first(Ask::SyncPopups)
            } else {
                old(self)@.begun()
            },
            final(self)@.wf(),
            res == final(self)@.due(),
    {
        self.begin();
        if self.has_select(select_id) {
            self.set_open(select_id, open);
            self.mark();
            self.first(Ask::SyncPopups);
        }
        self.due()
    }

    /// Notes the nodes that show the popup of the select at `select_id`.
    pub fn set_select_popup(
        &mut self,
        select_id: usize,
        root: Option<usize>,
        option_nodes: Vec<Option<usize>>,
    )
        requires
            old(self)@.wf(),
        ensures
            final(self).timers_run_on(*old(self)),
            final(self)@ == if old(self)@.has_select(select_id) {
                Model {
                    selects: old(self)@.selects.insert(
                        select_id,
                        crate::select::SelectModel {
                            popup_root: root,
                            option_nodes: option_nodes@,
                            ..old(self)@.selects[select_id]
                        },
                    ),
                    ..old(self)@
                }
            } else {
                old(self)@
            },
            final(self)@.wf(),
    {
        let ghost before = self@.selects;
        if let Some(mut state) = self.selects.remove(&select_id) {
            assert(before.contains_key(select_id));
            state.set_popup(root, option_nodes);
            self.selects.insert(select_id, state);
            assert(self@.selects =~= before.insert(select_id, state@));
        } else {
            assert(self@.selects =~= before);
        }
    }

    /// The present reading of the clock of the focused input.
    pub fn blink_clock(&self) -> (res: Option<u64>)
        ensures
            (res is Some) == (self@.ui.focused matches Some(node) && self@.has_input(node)),
    {
        match self.ui.focused {
            Some(node) => match self.inputs.get(&node) {
                Some(state) => Some(state.now()),
                None => None,
            },
            None => None,
        }
    }

    /// Flips the caret of the focused input where its blink interval has
    /// passed at `now`. Returns whether it did.
    pub fn advance_input_blink(&mut self, now: u64) -> (res: bool)
        requires
            old(self)@.wf(),
        ensures
            ({
                let owner = old(self)@.ui.focused;
                &&& res == (owner matches Some(node) && old(self)@.has_input(node) && now - old(
                    self,
                ).blink_started(node) >= crate::input::BLINK_INTERVAL)
                &&& final(self)@ == if res {
                    Model {
                        inputs: old(self)@.inputs.insert(
                            owner->0,
                            crate::input::InputModel {
                                blink_visible: !old(self)@.inputs[owner->0].blink_visible,
                                ..old(self)@.inputs[owner->0]
                            },
                        ),
                        ..old(self)@
                    }
                } else {
                    old(self)@
                }
                &&& res ==> final(self).blink_started(owner->0) == now
                &&& forall|n: usize|
                    old(self)@.has_input(n) && !(res && owner == Some(n)) ==> (
                    #[trigger] final(self).blink_started(n)) == old(self).blink_started(n)
            }),
            final(self)@.wf(),
    {
        let mut flipped = false;
        if let Some(node) = self.ui.focused {
            let ghost before = self@.inputs;
            if let Some(mut state) = self.inputs.remove(&node) {
                assert(before.contains_key(node));
                flipped = state.tick_blink(now);
                self.inputs.insert(node, state);
                assert(self@.inputs =~= before.insert(node, state@));
                assert(before.insert(node, before[node]) =~= before);
            } else {
                assert(self@.inputs =~= before);
            }
        }
        flipped
    }

    /// When the caret of the focused input is to blink next.
    pub fn next_blink_deadline(&self) -> (res: Option<u64>)
        ensures
            (res is Some) == (self@.ui.focused matches Some(node) && self@.has_input(node)),
            res matches Some(at) ==> at == if self.blink_started(self@.ui.focused->0)
                + crate::input::BLINK_INTERVAL <= u64::MAX {
                self.blink_started(self@.ui.focused->0) + crate::input::BLINK_INTERVAL
            } else {
                u64::MAX as int
            },
    {
        match self.ui.focused {
            Some(node) => match self.inputs.get(&node) {
                Some(state) => Some(state.next_blink_at()),
                None => None,
            },
            None => None,
        }
    }

    /// When the host is to tick next: at once while a node coasts, or else
    /// when the caret blinks.
    pub fn next_wake_deadline(&self, now: u64) -> (res: Option<u64>)
        ensures
            self@.ui.momentum is None ==> (res is Some) == (self@.ui.focused matches Some(node)
                && self@.has_input(node)),
            self@.ui.momentum is Some ==> res is Some && res->0 <= now,
            ({
                let blink = if self.blink_started(self@.ui.focused->0)
                    + crate::input::BLINK_INTERVAL <= u64::MAX {
                    self.blink_started(self@.ui.focused->0) + crate::input::BLINK_INTERVAL
                } else {
                    u64::MAX as int
                };
                let blinks = self@.ui.focused matches Some(node) && self@.has_input(node);
                res matches Some(at) ==> at == if self@.ui.momentum is Some && (!blinks || now
                    < blink) {
                    now as int
                } else {
                    blink
                }
            }),
    {
        let blink = self.next_blink_deadline();
        if self.ui.momentum.is_some() {
            return match blink {
                Some(at) => if at < now {
                    Some(at)
                } else {
                    Some(now)
                },
                None => Some(now),
            };
        }
        blink
    }

    /// The input whose caret is to be painted: the focused one, while its
    /// caret is visible.
    pub fn caret_owner(&self) -> (res: Option<usize>)
        ensures
            res == match self@.ui.focused {
                Some(node) => if self@.has_input(node) && self@.inputs[node].blink_visible {
                    Some(node)
                } else {
                    None
                },
                None => None,
            },
    {
        match self.ui.focused {
            Some(node) => match self.inputs.get(&node) {
                Some(state) => if state.blink_visible() {
                    Some(node)
                } else {
                    None
                },
                None => None,
            },
            None => None,
        }
    }

    /// The selection to be painted: that of the focused input, where it is a
    /// line of text, with the place of the selected characters in the text
    /// that it shows.
    pub fn selection_to_paint(&self) -> (res: Option<SelectionSpan>)
        ensures
            match self@.ui.focused {
                Some(node) => if self@.has_input(node) && self@.inputs[node].has_selection()
                    && self@.inputs[node].kind.text_like() {
                    let m = self@.inputs[node];
                    res matches Some(span) && {
                        &&& span.node == node
                        &&& span.start_chars == m.sel_start()
                        &&& span.end_chars == m.sel_end()
                        &&& span.start_byte == crate::text::byte_offset(
                            m.rendered(),
                            m.sel_start(),
                        )
                        &&& span.end_byte == crate::text::byte_offset(m.rendered(), m.sel_end())
                    }
                } else {
                    res is None
                },
                None => res is None,
            },
    {
        let node = match self.ui.focused {
            Some(node) => node,
            None => {
                return None;
            },
        };
        match self.inputs.get(&node) {
            Some(state) => {
                if !state.has_selection() || !state.is_text_like() {
                    return None;
                }
                let start_chars: usize = state.selection_start();
                let end_chars: usize = state.selection_end();
                let (shown, _) = state.render(true);
                Some(
                    SelectionSpan {
                        node,
                        start_chars,
                        end_chars,
                        start_byte: crate::text::char_index_to_byte_index(
                            shown.as_str(),
                            start_chars,
                        ),
                        end_byte: crate::text::char_index_to_byte_index(
                            shown.as_str(),
                            end_chars,
                        ),
                    },
                )
            },
            None => None,
        }
    }

    /// What the input at `node` shows.
    pub fn render_text(&self, node: usize) -> (res: Option<RenderText>)
        ensures
            match res {
                Some(shown) => self@.has_input(node) && shown.shows(node, self@.inputs[node]),
                None => !self@.has_input(node),
            },
    {
        match self.inputs.get(&node) {
            Some(state) => {
                let (text, placeholder) = state.render(false);
                let caret_byte: usize = state.display_caret_byte_index();
                Some(RenderText { node, text, placeholder, caret_byte })
            },
            None => None,
        }
    }

    /// What every input shows, for the layout. Each input occurs once.
    pub fn render_texts(&self) -> (res: Vec<RenderText>)
        ensures
            forall|i: int|
                0 <= i < res.len() ==> self@.has_input((#[trigger] res@[i]).node) && res@[i].shows(
                    res@[i].node,
                    self@.inputs[res@[i].node],
                ),
            forall|node: usize| #[trigger]
                self@.has_input(node) ==> exists|i: int|
                    0 <= i < res.len() && (#[trigger] res@[i]).node == node,
            forall|i: int, j: int| 0 <= i < j < res.len() ==> res@[i].node != res@[j].node,
    {
        let ghost models = self@.inputs;
        let ids = crate::registry::ids_of(&self.inputs);
        let mut res: Vec<RenderText> = Vec::new();
        let mut i: usize = 0;
        while i < ids.len()
            invariant
                i <= ids.len(),
                models == self@.inputs,
                forall|k: usize| ids@.contains(k) <==> self.inputs@.contains_key(k),
                res.len() == i,
                forall|j: int| 0 <= j < i ==> (#[trigger] res@[j]).node == ids@[j],
                forall|j: int| 0 <= j < i ==> models.contains_key((#[trigger] res@[j]).node),
                forall|j: int|
                    0 <= j < i ==> (#[trigger] res@[j]).shows(res@[j].node, models[res@[j].node]),
            decreases ids.len() - i,
        {
            let node: usize = ids[i];
            assert(ids@.contains(node));
            if let Some(shown) = self.render_text(node) {
                res.push(shown);
            }
            i += 1;
        }
        assert forall|node: usize| #[trigger] self@.has_input(node) implies exists|i: int|
            0 <= i < res.len() && (#[trigger] res@[i]).node == node by {
            assert(ids@.contains(node));
            let j = choose|j: int| 0 <= j < ids.len() && ids@[j] == node;
            assert(res@[j].node == node);
        }
        res
    }

    /// What is told to assistive technologies of the node `node_id`: the live
    /// state of a control, and on top of it what the element says by its tag
    /// and its attributes. The number `u64::MAX` is that of no node.
    pub fn accessibility_node(
        &self,
        node_id: u64,
        element: Option<(&str, &Vec<(String, String)>)>,
    ) -> (res: Option<A11yNode>)
        requires
            self@.wf(),
        ensures
            match res {
                Some(node) => node_id != u64::MAX && node@ == self@.told(
                    node_id as usize,
                    match element {
                        Some((tag, attrs)) => Some((tag@, attrs@)),
                        None => None,
                    },
                ),
                None => node_id == u64::MAX,
            },
    {
        if node_id == u64::MAX {
            return None;
        }
        let id: usize = node_id as usize;
        let mut node = A11yNode::new();
        if let Some(state) = self.input(id) {
            a11y::enrich_input_a11y_node(&mut node, state);
        } else if let Some(state) = self.select(id) {
            a11y::enrich_select_a11y_node(&mut node, state);
        }
        if let Some((tag, attrs)) = element {
            a11y::enrich_a11y_node_from_attrs(&mut node, tag, attrs);
        }
        Some(node)
    }

    /// The number of the node that has the focus; `u64::MAX` where none has.
    pub fn accessibility_focus(&self) -> (res: u64)
        ensures
            res == match self@.ui.focused {
                Some(node) => node as u64,
                None => u64::MAX,
            },
    {
        match self.ui.focused {
            Some(node) => node as u64,
            None => u64::MAX,
        }
    }

    /// The option of a popup that the node stands for, and its select.
    pub fn popup_option_for_hit(&self, node: usize) -> (res: Option<(usize, usize)>)
        ensures
            match res {
                Some((select, index)) => self@.shows_option(select, index as int, node),
                None => forall|select: usize, index: int| !self@.shows_option(select, index, node),
            },
    {
        let ids = crate::registry::ids_of(&self.selects);
        let mut i: usize = 0;
        while i < ids.len()
            invariant
                i <= ids.len(),
                forall|k: usize| ids@.contains(k) <==> self.selects@.contains_key(k),
                forall|j: int, index: int|
                    0 <= j < i ==> !#[trigger] self@.shows_option(ids@[j], index, node),
            decreases ids.len() - i,
        {
            let select: usize = ids[i];
            assert(ids@.contains(select));
            if let Some(state) = self.selects.get(&select) {
                let nodes = state.option_nodes();
                let mut index: usize = 0;
                while index < nodes.len()
                    invariant
                        index <= nodes.len(),
                        self@.has_select(select),
                        nodes@ == self@.selects[select].option_nodes,
                        forall|k: int|
                            0 <= k < index ==> !self@.shows_option(select, k, node),
                    decreases nodes.len() - index,
                {
                    if let Some(id) = nodes[index] {
                        if id == node {
                            return Some((select, index));
                        }
                    }
                    index += 1;
                }
            }
            i += 1;
        }
        assert forall|select: usize, index: int| !self@.shows_option(select, index, node) by {
            if self@.has_select(select) {
                assert(ids@.contains(select));
                let j = choose|j: int| 0 <= j < ids.len() && ids@[j] == select;
                assert(!self@.shows_option(ids@[j], index, node));
            }
        }
        None
    }

    /// What a node under the pointer is: an option of a popup, or a plain
    /// node.
    pub fn classify_hit(&self, node: Option<usize>) -> (res: Hit)
        ensures
            match node {
                None => res == Hit::Nothing,
                Some(id) => match res {
                    Hit::Nothing => false,
                    Hit::Choice { node: n, select, index } => n == id && self@.shows_option(
                        select,
                        index as int,
                        id,
                    ),
                    Hit::Node { node: n } => n == id && forall|select: usize, index: int|
                        !self@.shows_option(select, index, id),
                },
            },
    {
        match node {
            None => Hit::Nothing,
            Some(id) => match self.popup_option_for_hit(id) {
                Some((select, index)) => Hit::Choice { node: id, select, index },
                None => Hit::Node { node: id },
            },
        }
    }

    /// The number inputs, each once, for the layout of their buttons.
    pub fn number_input_ids(&self) -> (res: Vec<usize>)
        ensures
            res@.no_duplicates(),
            forall|id: usize| res@.contains(id) <==> self@.has_input(id)
                && self@.inputs[id].kind is Number,
    {
        let ghost models = self@.inputs;
        let ids = crate::registry::ids_of(&self.inputs);
        let mut res: Vec<usize> = Vec::new();
        let mut i: usize = 0;
        while i < ids.len()
            invariant
                i <= ids.len(),
                models == self@.inputs,
                ids@.no_duplicates(),
                forall|k: usize| ids@.contains(k) <==> models.contains_key(k),
                res@.no_duplicates(),
                forall|j: int|
                    0 <= j < i && models[#[trigger] ids@[j]].kind is Number ==> res@.contains(
                        ids@[j],
                    ),
                forall|a: int|
                    0 <= a < res.len() ==> models.contains_key(#[trigger] res@[a])
                        && models[res@[a]].kind is Number && ids@.subrange(0, i as int).contains(
                        res@[a],
                    ),
            decreases ids.len() - i,
        {
            let node: usize = ids[i];
            let ghost before = res@;
            assert(ids@.contains(node));
            let number = match self.inputs.get(&node) {
                Some(state) => state.is_number(),
                None => false,
            };
            assert(number == (models[node].kind is Number));
            proof {
                assert forall|k: usize| #[trigger]
                    ids@.subrange(0, i as int).contains(k) implies k != node && ids@.subrange(
                    0,
                    i + 1,
                ).contains(k) by {
                    let j = choose|j: int| 0 <= j < i && ids@.subrange(0, i as int)[j] == k;
                    assert(ids@.subrange(0, i + 1)[j] == k);
                    assert(ids@[j] != ids@[i as int]);
                }
                assert(ids@.subrange(0, i + 1)[i as int] == node);
            }
            if number {
                res.push(node);
                assert(res@[before.len() as int] == node);
                assert forall|k: usize| before.contains(k) implies res@.contains(k) by {
                    let j = choose|j: int| 0 <= j < before.len() && before[j] == k;
                    assert(res@[j] == k);
                }
            }
            i += 1;
        }
        assert forall|id: usize| self@.has_input(id) && self@.inputs[id].kind is Number implies
            res@.contains(id) by {
            assert(ids@.contains(id));
            let j = choose|j: int| 0 <= j < ids.len() && ids@[j] == id;
            assert(res@.contains(ids@[j]));
        }
        res
    }
}

} // verus!
