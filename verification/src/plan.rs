//! How an instance goes on with each answer, stated over what it holds.

use crate::events::{Key, Keystroke, TickResult};
use crate::input::InputModel;
use crate::keys::KeyEdit;
use crate::protocol::{
    Action, Ask, EventName, GestureMode, Hit, ImgEvent, KeyTail, Lookup, Motion, MouseButton, MouseEvent,
    Next, Probe, Purpose, Release, Reply, ScrollAxis, ScrollbarHit, Step, TouchEvent, TouchPhase,
};
use crate::select::SelectModel;
use vstd::prelude::*;

verus! {

/// A touch that is being followed.
#[derive(Debug, Clone, Copy)]
pub struct ActiveTouch {
    pub id: u64,
    pub mode: GestureMode,
}

/// A scrollbar whose thumb is held.
#[derive(Debug, Clone, Copy)]
pub struct ScrollbarDrag {
    pub node: usize,
    pub axis: ScrollAxis,
}

/// The plain state of an instance.
#[derive(Debug, Clone, Copy)]
pub struct Ui {
    pub width: u32,
    pub height: u32,
    /// The node that holds the component.
    pub container: usize,
    pub document_scroll: bool,
    /// Something has changed since the last paint.
    pub needs_paint: bool,
    /// What the running dispatch has come to.
    pub result: TickResult,
    /// The events of the running focus change asked for paint.
    pub focus_paint: bool,
    pub hovered: Option<usize>,
    pub active: Option<usize>,
    pub focused: Option<usize>,
    pub range_drag: Option<usize>,
    pub scrollbar_drag: Option<ScrollbarDrag>,
    pub touch: Option<ActiveTouch>,
    /// The node that coasts after a fling.
    pub momentum: Option<usize>,
}

/// What an instance holds. The end of the agenda is due first.
#[verifier::ext_equal]
pub struct Model {
    pub ui: Ui,
    pub inputs: Map<usize, InputModel>,
    pub selects: Map<usize, SelectModel>,
    pub agenda: Seq<Ask>,
    /// The registered stylesheets, by number.
    pub sheets: Map<u64, Seq<char>>,
    pub next_sheet: u64,
    /// The address that relative addresses are resolved against.
    pub base_url: Seq<char>,
}

/// The control that Tab goes to: the neighbour of the focused one, wrapping
/// round; the first or last where none has the focus.
pub open spec fn next_in_order(
    order: Seq<usize>,
    focused: Option<usize>,
    backwards: bool,
) -> Option<usize> {
    let len = order.len() as int;
    if len == 0 {
        None
    } else {
        match focused {
            Some(id) => match order.index_of_first(id) {
                Some(at) => if backwards {
                    Some(order[(at + len - 1) % len])
                } else {
                    Some(order[(at + 1) % len])
                },
                None => if backwards {
                    Some(order[len - 1])
                } else {
                    Some(order[0])
                },
            },
            None => if backwards {
                Some(order[len - 1])
            } else {
                Some(order[0])
            },
        }
    }
}

/// A radio button that the arrow keys reach from `node`: one of its group
/// that is not disabled.
pub open spec fn reachable_radio(
    inputs: Map<usize, InputModel>,
    node: usize,
    other: usize,
) -> bool {
    &&& inputs.contains_key(other)
    &&& !inputs[other].disabled
    &&& inputs[node].name matches Some(group) && inputs[other].in_group(group)
}

/// The radio button that a motion leads to from `node`, wrapping round;
/// `None` where it leads nowhere else.
pub open spec fn radio_target(
    inputs: Map<usize, InputModel>,
    order: Seq<usize>,
    node: usize,
    motion: Motion,
) -> Option<usize> {
    let group = order.filter(|k: usize| reachable_radio(inputs, node, k));
    let len = group.len() as int;
    match group.index_of_first(node) {
        Some(at) => {
            let to = match motion {
                Motion::Previous => group[(at + len - 1) % len],
                Motion::Following => group[(at + 1) % len],
                Motion::First => group[0],
                Motion::Last => group[len - 1],
            };
            if to == node {
                None
            } else {
                Some(to)
            }
        },
        None => None,
    }
}

/// The motion that a key stands for among radio buttons.
pub open spec fn radio_motion(key: Key) -> Option<Motion> {
    match key {
        Key::ArrowLeft | Key::ArrowUp => Some(Motion::Previous),
        Key::ArrowRight | Key::ArrowDown => Some(Motion::Following),
        Key::Home => Some(Motion::First),
        Key::End => Some(Motion::Last),
        _ => None,
    }
}

/// The event that tells a script what became of an image.
pub open spec fn image_ask(image: ImgEvent) -> Ask {
    match image {
        ImgEvent::Load { node } => Ask::Send {
            node,
            event: EventName::Load,
            related: None,
            marks: true,
        },
        ImgEvent::Error { node } => Ask::Send {
            node,
            event: EventName::Error,
            related: None,
            marks: true,
        },
    }
}

impl Model {
    /// Every control is in order, and no stylesheet has a number that is still
    /// to be given.
    pub open spec fn wf(self) -> bool {
        &&& crate::keys::inputs_wf(self.inputs)
        &&& crate::select::selects_wf(self.selects)
        &&& forall|id: u64| #[trigger] self.sheets.contains_key(id) ==> id < self.next_sheet
    }

    /// With something to ask before all else.
    pub open spec fn first(self, ask: Ask) -> Model {
        Model { agenda: self.agenda.push(ask), ..self }
    }

    /// Marked as changed since the last paint.
    pub open spec fn marked(self) -> Model {
        Model { ui: Ui { needs_paint: true, ..self.ui }, ..self }
    }

    /// With a result joined to that of the dispatch.
    pub open spec fn joined(self, tick: TickResult) -> Model {
        Model { ui: Ui { result: self.ui.result.and(tick), ..self.ui }, ..self }
    }

    /// Marked, with a result that asks for paint.
    pub open spec fn repainted(self) -> Model {
        self.marked().joined(TickResult { needs_paint: true, jobs_pending: false })
    }

    pub open spec fn has_input(self, node: usize) -> bool {
        self.inputs.contains_key(node)
    }

    pub open spec fn has_select(self, node: usize) -> bool {
        self.selects.contains_key(node)
    }

    /// The pressed state moved to `to`.
    pub open spec fn activating(self, to: Option<usize>) -> Model {
        if self.ui.active == to {
            self
        } else {
            (Model { ui: Ui { active: to, ..self.ui }, ..self }).marked().first(
                Ask::Activate { from: self.ui.active, to },
            )
        }
    }

    /// A select closed.
    pub open spec fn closing(self, select: usize) -> Model {
        (Model {
            selects: self.selects.insert(select, self.selects[select].closed()),
            ..self
        }).marked().first(Ask::SyncPopups)
    }

    /// Every select closed but `owner`.
    #[verifier::opaque]
    pub open spec fn closing_others(self, owner: Option<usize>) -> Model {
        if crate::select::others_open(self.selects, owner) {
            (Model { selects: crate::select::others_closed(self.selects, owner), ..self }).marked().first(
                Ask::SyncPopups,
            )
        } else {
            self
        }
    }

    /// The focus cannot be given to a disabled input.
    pub open spec fn refuses_focus(self, next: Option<usize>) -> bool {
        next matches Some(node) && self.has_input(node) && self.inputs[node].disabled
    }

    /// The focus on its way to `next`: the node that has it hears of its loss
    /// first, and where that is an open select, it closes. Where `next` is a
    /// disabled input, the focus stays where it is.
    #[verifier::opaque]
    pub open spec fn focusing(self, next: Option<usize>) -> Model {
        if self.ui.focused == next || self.refuses_focus(next) {
            self
        } else {
            let m = Model { ui: Ui { focus_paint: false, ..self.ui }, ..self };
            match self.ui.focused {
                Some(previous) => {
                    let m = m.first(Ask::Blur { node: previous, next });
                    if m.has_select(previous) && m.selects[previous].open {
                        m.closing(previous)
                    } else {
                        m
                    }
                },
                None => match next {
                    Some(node) => m.focusing_on(node),
                    None => m,
                },
            }
        }
    }

    /// The focus given to `node`. The caret of an input goes to the end.
    #[verifier::opaque]
    pub open spec fn focusing_on(self, node: usize) -> Model {
        let m = (Model { ui: Ui { focused: Some(node), ..self.ui }, ..self }).first(
            Ask::Focus { node },
        );
        let m = if m.has_input(node) {
            (Model {
                inputs: m.inputs.insert(node, m.inputs[node].caret_at_end()),
                ..m
            }).marked().first(Ask::RefreshInput { node })
        } else {
            m
        };
        m.first(Ask::SetFocus { node })
    }

    /// An event of the focus change sent.
    pub open spec fn focus_event_sent(self, tick: TickResult) -> Model {
        let m = self.joined(tick);
        Model {
            ui: Ui { focus_paint: m.ui.focus_paint || tick.needs_paint, ..m.ui },
            ..m
        }
    }

    /// Marked where the events of the focus change asked for paint.
    pub open spec fn focus_settled(self) -> Model {
        if self.ui.focus_paint {
            self.marked()
        } else {
            self
        }
    }

    /// `previous` has heard of the loss of focus.
    #[verifier::opaque]
    pub open spec fn blurred(
        self,
        previous: usize,
        next: Option<usize>,
        tick: TickResult,
    ) -> Model {
        let m = self.focus_event_sent(tick);
        let m = Model { ui: Ui { focused: None, ..m.ui }, ..m };
        let m = match next {
            Some(node) => m.focusing_on(node),
            None => m.focus_settled(),
        };
        let m = m.first(Ask::ClearFocus);
        if self.has_input(previous) {
            m.marked().first(Ask::RefreshInput { node: previous })
        } else {
            m
        }
    }

    /// The pointer did something.
    #[verifier::opaque]
    pub open spec fn pointer(self, event: MouseEvent) -> Model {
        if event is Move && self.ui.scrollbar_drag is Some {
            let drag = self.ui.scrollbar_drag->0;
            self.repainted().first(Ask::DragScroll { node: drag.node, axis: drag.axis })
        } else if event is Up && self.ui.scrollbar_drag is Some {
            Model { ui: Ui { scrollbar_drag: None, ..self.ui }, ..self }
        } else if event is Move && self.ui.range_drag is Some {
            self.first(Ask::RangeText { node: self.ui.range_drag->0, press: false })
        } else if event is Up && self.ui.range_drag is Some {
            Model { ui: Ui { range_drag: None, ..self.ui }, ..self }
        } else {
            match event {
                MouseEvent::Move => self.first(Ask::HitTest { probe: Probe::Hover }),
                MouseEvent::Wheel => self.first(Ask::HitTest { probe: Probe::Wheel }),
                MouseEvent::Down { button: MouseButton::Left } => self.first(Ask::Spinner),
                MouseEvent::Down { button: MouseButton::Right } => self.first(
                    Ask::HitTest { probe: Probe::Plain { event: EventName::ContextMenu } },
                ),
                MouseEvent::Down { button: MouseButton::Middle } => self.first(
                    Ask::HitTest { probe: Probe::Plain { event: EventName::AuxClick } },
                ),
                MouseEvent::Up { .. } => self.first(
                    Ask::HitTest { probe: Probe::Plain { event: EventName::MouseUp } },
                ).activating(None),
            }
        }
    }

    /// A number to be raised by some of its steps.
    pub open spec fn stepping(self, node: usize, count: i8) -> Model {
        if self.has_input(node) && self.inputs[node].kind.numeric_like() {
            self.first(Ask::StepText { node, count, purpose: Purpose::Press })
        } else {
            self
        }
    }

    /// What an input shows has changed, and so has its value.
    pub open spec fn input_changed(self, node: usize) -> Model {
        self.first(Ask::SendInput { node }).first(Ask::RefreshInput { node })
    }

    /// The text of a number has come for an input.
    #[verifier::opaque]
    pub open spec fn number_entered(self, node: usize, number: Option<Seq<char>>) -> Model {
        match number {
            Some(text) => if crate::keys::takes_number(self.inputs, node, text) {
                (Model {
                    inputs: crate::keys::number_committed(self.inputs, node, text),
                    ..self
                }).marked().input_changed(node)
            } else {
                self
            },
            None => self,
        }
    }

    /// The text of a number that was given as a value, within its bounds, has
    /// come.
    #[verifier::opaque]
    pub open spec fn clamped(self, node: usize, emits: bool, number: Option<Seq<char>>) -> Model {
        match number {
            Some(text) => if self.has_input(node) {
                (Model {
                    inputs: self.inputs.insert(node, self.inputs[node].with_value(text)),
                    ..self
                }).value_given(node, emits)
            } else {
                self
            },
            None => self,
        }
    }

    /// A value has been given to an input.
    pub open spec fn value_given(self, node: usize, emits: bool) -> Model {
        let m = if emits {
            self.first(Ask::SendInput { node })
        } else {
            self
        };
        m.marked().first(Ask::RefreshInput { node })
    }

    /// A value is put into an input, without an event. A number is brought
    /// within its bounds first.
    pub open spec fn putting(self, node: usize, value: Seq<char>) -> Model {
        let m = Model {
            inputs: self.inputs.insert(node, self.inputs[node].put(value)),
            ..self
        };
        if self.inputs[node].number_pending(value) {
            m.first(Ask::ClampText { node, emits: false })
        } else {
            m.value_given(node, false)
        }
    }

    /// A value is given to an input, with an event. A number is brought within
    /// its bounds first.
    pub open spec fn giving(self, node: usize, value: Seq<char>) -> Model {
        let m = Model {
            inputs: self.inputs.insert(node, self.inputs[node].given(value)),
            ..self
        };
        if self.inputs[node].number_pending(value) {
            m.first(Ask::ClampText { node, emits: true })
        } else {
            m.value_given(node, true)
        }
    }

    /// The text of the number at the pointer has come for a slider.
    #[verifier::opaque]
    pub open spec fn slid(self, node: usize, press: bool, number: Option<Seq<char>>) -> Model {
        let m = if number is Some && self.inputs[node].kind is Range && crate::keys::takes_number(
            self.inputs,
            node,
            number->0,
        ) {
            (Model {
                inputs: crate::keys::number_committed(self.inputs, node, number->0),
                ..self
            }).marked().input_changed(node)
        } else {
            self
        };
        if press {
            (Model { ui: Ui { range_drag: Some(node), ..m.ui }, ..m }).repainted()
        } else {
            m
        }
    }

    /// It is known what lies under the pointer.
    #[verifier::opaque]
    pub open spec fn hit(self, probe: Probe, hit: Hit) -> Model {
        match probe {
            Probe::Hover => self.hover_hit(hit),
            Probe::Press => match hit {
                Hit::Choice { select, index, .. } => self.choice_pressed(select, index as int),
                Hit::Node { node } => self.first(Ask::Owner { node }),
                Hit::Nothing => self.first(
                    Ask::HitTest { probe: Probe::Target },
                ).closing_others(None),
            },
            Probe::Target => match hit.id() {
                Some(node) => self.first(
                    Ask::FindHandler {
                        node,
                        event: EventName::Focus,
                        lookup: Lookup::FocusTarget { hit: node },
                    },
                ),
                None => self.focusing(None).activating(None),
            },
            Probe::Plain { event } => match hit.id() {
                Some(node) => self.first(
                    Ask::FindHandler { node, event, lookup: Lookup::DeliverAndMark },
                ),
                None => self,
            },
            Probe::Wheel => match hit.id() {
                Some(node) => self.first(Ask::ScrollBy { node }),
                None => self,
            },
            Probe::Touch { id } => match hit {
                Hit::Nothing => self.touched(
                    id,
                    GestureMode::Pan { node: self.ui.container },
                ),
                Hit::Choice { .. } => self.touched(id, GestureMode::Control),
                Hit::Node { node } => if self.has_input(node) || self.has_select(node) {
                    self.touched(id, GestureMode::Control)
                } else {
                    self.first(
                        Ask::FindHandler {
                            node,
                            event: EventName::Click,
                            lookup: Lookup::Touch { id },
                        },
                    )
                },
            },
        }
    }

    /// An option that can be chosen.
    pub open spec fn choice_exists(self, select: usize, index: int) -> bool {
        self.has_select(select) && 0 <= index < self.selects[select].options.len()
    }

    /// The pointer is over something: an option there is highlighted.
    #[verifier::opaque]
    pub open spec fn hover_hit(self, hit: Hit) -> Model {
        let m = self.first(Ask::Hover { from: self.ui.hovered, to: hit.id() });
        match hit {
            Hit::Choice { select, index, .. } => if self.choice_exists(select, index as int)
                && self.selects[select].active != Some(index as int) {
                (Model {
                    selects: m.selects.insert(
                        select,
                        SelectModel { active: Some(index as int), ..m.selects[select] },
                    ),
                    ..m
                }).marked().first(Ask::SyncPopups)
            } else {
                m
            },
            _ => m,
        }
    }

    /// An option was pressed: unless it is disabled, it is selected and the
    /// popup closes.
    #[verifier::opaque]
    pub open spec fn choice_pressed(self, select: usize, index: int) -> Model {
        if self.choice_exists(select, index) && !self.selects[select].options[index].disabled {
            let chosen = SelectModel { selected: Some(index), ..self.selects[select] };
            (Model { selects: self.selects.insert(select, chosen.closed()), ..self }).marked().first(
                Ask::SendChange { select },
            ).first(Ask::RefreshSelect { select }).first(Ask::SyncPopups)
        } else {
            self
        }
    }

    /// The hover state has moved: the node that was left hears of it, then
    /// the node that was entered, then the node under the pointer of the move.
    #[verifier::opaque]
    pub open spec fn hover_moved(
        self,
        from: Option<usize>,
        to: Option<usize>,
        changed: bool,
    ) -> Model {
        let m = Model { ui: Ui { hovered: to, ..self.ui }, ..self };
        let m = m.first(
            Ask::Proceed { stage: Next::EndMove { hover_changed: changed || from != to } },
        );
        let m = match to {
            Some(node) => m.first(
                Ask::Send { node, event: EventName::MouseMove, related: None, marks: false },
            ),
            None => m,
        };
        let m = if from != to {
            m.entering(from, to).leaving(from, to)
        } else {
            m
        };
        if m.ui.active is Some && m.ui.active != to {
            m.activating(None)
        } else {
            m
        }
    }

    pub open spec fn telling(self, node: usize, event: EventName, related: Option<usize>) -> Model {
        self.first(Ask::Send { node, event, related, marks: false })
    }

    pub open spec fn entering(self, from: Option<usize>, to: Option<usize>) -> Model {
        match to {
            Some(node) => self.telling(node, EventName::HoverEnter, from).telling(
                node,
                EventName::Hover,
                from,
            ).telling(node, EventName::MouseEnter, from).telling(
                node,
                EventName::MouseOver,
                from,
            ),
            None => self,
        }
    }

    pub open spec fn leaving(self, from: Option<usize>, to: Option<usize>) -> Model {
        match from {
            Some(node) => self.telling(node, EventName::HoverLeave, to).telling(
                node,
                EventName::MouseLeave,
                to,
            ).telling(node, EventName::MouseOut, to),
            None => self,
        }
    }

    /// A press on `hit` gives the focus to `focus`.
    #[verifier::opaque]
    pub open spec fn pressing(self, hit: usize, focus: usize) -> Model {
        self.first(Ask::Proceed { stage: Next::Pressed { hit } }).focusing(Some(focus)).activating(
            Some(hit),
        )
    }

    /// The focus has followed a press on `hit`: a control there is operated,
    /// or else the press is a click.
    #[verifier::opaque]
    pub open spec fn pressed(self, hit: usize) -> Model {
        if self.has_input(hit) && self.inputs[hit].kind.checked_like() {
            self.check_clicked(hit).repainted()
        } else if self.has_input(hit) && self.inputs[hit].kind is Range {
            self.first(Ask::RangeText { node: hit, press: true })
        } else if self.has_select(hit) {
            self.select_clicked(hit)
        } else {
            self.first(
                Ask::FindHandler { node: hit, event: EventName::Click, lookup: Lookup::Deliver },
            )
        }
    }

    /// A checkbox or radio button was clicked.
    #[verifier::opaque]
    pub open spec fn check_clicked(self, node: usize) -> Model {
        match crate::keys::check_toggled(self.inputs, node) {
            Some(inputs) => (Model { inputs, ..self }).first(Ask::SendInput { node }).first(
                Ask::SyncChecked { node },
            ),
            None => self,
        }
    }

    /// A select was clicked: its popup opens or closes.
    #[verifier::opaque]
    pub open spec fn select_clicked(self, select: usize) -> Model {
        let state = self.selects[select];
        (Model {
            selects: self.selects.insert(
                select,
                if state.open {
                    state.closed()
                } else {
                    state.opened()
                },
            ),
            ..self
        }).repainted().first(Ask::RefreshSelect { select }).first(Ask::SyncPopups)
    }

    /// It is known which node handles an event.
    #[verifier::opaque]
    pub open spec fn handler_found(
        self,
        node: usize,
        event: EventName,
        lookup: Lookup,
        handler: Option<usize>,
    ) -> Model {
        match lookup {
            Lookup::FocusTarget { hit } => match handler {
                Some(focus) => self.pressing(hit, focus),
                None => if event is Focus {
                    self.first(Ask::FindHandler { node, event: EventName::KeyDown, lookup })
                } else {
                    self.pressing(hit, hit)
                },
            },
            Lookup::Deliver => match handler {
                Some(target) => self.first(
                    Ask::Send { node: target, event, related: None, marks: false },
                ),
                None => self,
            },
            Lookup::DeliverAndMark => match handler {
                Some(target) => self.first(
                    Ask::Send { node: target, event, related: None, marks: true },
                ),
                None => self,
            },
            Lookup::Wheel { start, scrolled, viewport } => match handler {
                Some(target) => self.first(
                    Ask::SendWheel { node: target, start, scrolled, viewport },
                ),
                None => self.wheeled(scrolled, viewport),
            },
            Lookup::Touch { id } => match handler {
                Some(_) => self.touched(id, GestureMode::Control),
                None => match event {
                    EventName::Click => self.first(
                        Ask::FindHandler { node, event: EventName::KeyDown, lookup },
                    ),
                    EventName::KeyDown => self.first(
                        Ask::FindHandler { node, event: EventName::Focus, lookup },
                    ),
                    _ => self.touched(id, GestureMode::Pan { node }),
                },
            },
        }
    }

    /// The wheel event has been sent. Where something scrolled, that node, or
    /// else the container, hears of it.
    #[verifier::opaque]
    pub open spec fn wheeled(self, scrolled: Option<usize>, viewport: bool) -> Model {
        let target = if scrolled is Some {
            scrolled
        } else if viewport {
            Some(self.ui.container)
        } else {
            None
        };
        match target {
            Some(node) => self.first(Ask::Proceed { stage: Next::Scrolled }).first(
                Ask::SendScroll { node },
            ),
            None => if self.ui.result.needs_paint {
                self.marked()
            } else {
                Model { ui: Ui { result: TickResult::nothing(), ..self.ui }, ..self }
            },
        }
    }

    /// The key event has been sent.
    #[verifier::opaque]
    pub open spec fn key_sent(self, tail: KeyTail) -> Model {
        let m = if self.ui.result.needs_paint {
            self.marked()
        } else {
            self
        };
        match tail.target {
            Some(node) => m.first(Ask::Proceed { stage: Next::KeyFocused { tail } }).focusing(
                Some(node),
            ),
            None => m.key_focused(tail),
        }
    }

    /// The focus has followed the key event: what the control shows follows,
    /// and the event that its change calls for is sent.
    #[verifier::opaque]
    pub open spec fn key_focused(self, tail: KeyTail) -> Model {
        let node = match tail.target {
            Some(target) => target,
            None => tail.node,
        };
        let m = if !tail.emits {
            self
        } else if self.has_input(node) {
            self.first(Ask::SendInput { node })
        } else if self.has_select(node) {
            self.first(Ask::SendChange { select: node })
        } else {
            self
        };
        if tail.edited {
            m.marked().first(Ask::RefreshSelect { select: node }).first(
                Ask::RefreshInput { node },
            )
        } else {
            m
        }
    }

    pub open spec fn sending_key(self, down: bool, activate: bool, tail: KeyTail) -> Model {
        self.first(Ask::SendKey { down, activate, tail })
    }

    /// The text of a number has come that a key asked for.
    #[verifier::opaque]
    pub open spec fn key_number(
        self,
        node: usize,
        activate: bool,
        number: Option<Seq<char>>,
    ) -> Model {
        let changed = number is Some && crate::keys::takes_number(self.inputs, node, number->0);
        let m = if changed {
            Model {
                inputs: crate::keys::number_committed(self.inputs, node, number->0),
                ..self
            }
        } else {
            self
        };
        m.sending_key(
            true,
            activate,
            KeyTail { node, edited: changed, emits: changed, target: None },
        )
    }

    /// The order of the radio buttons has come that a key asked for: the one
    /// it leads to is checked and gets the focus.
    #[verifier::opaque]
    pub open spec fn radio_moved(
        self,
        node: usize,
        motion: Motion,
        activate: bool,
        order: Seq<usize>,
    ) -> Model {
        let target = if self.has_input(node) {
            radio_target(self.inputs, order, node, motion)
        } else {
            None
        };
        let m = match target {
            Some(to) => Model { inputs: crate::keys::radio_chosen(self.inputs, to), ..self },
            None => self,
        };
        m.sending_key(
            true,
            activate,
            KeyTail { node, edited: target is Some, emits: target is Some, target },
        )
    }

    /// A key went down or up.
    pub open spec fn key(self, down: bool, k: Keystroke) -> Model {
        if down && k.key is Tab {
            let m = self.first(Ask::TabOrder { backwards: k.shift });
            match self.ui.focused {
                Some(node) => if self.has_select(node) && self.selects[node].open {
                    match self.selects[node].key(k) {
                        Some(edit) => (Model {
                            selects: m.selects.insert(node, edit.state),
                            ..m
                        }).marked().first(Ask::SendChange { select: node }).first(
                            Ask::RefreshSelect { select: node },
                        ).first(Ask::SyncPopups),
                        None => m,
                    }
                } else {
                    m
                },
                None => m,
            }
        } else {
            match self.ui.focused {
                Some(node) => self.key_on(node, down, k),
                None => self,
            }
        }
    }

    /// The key stands for a click where a button has the focus: Enter going
    /// down, or the space bar coming up, without modifiers.
    pub open spec fn activates(down: bool, k: Keystroke) -> bool {
        !k.modified() && ((down && k.key is Enter) || (!down && k.key is Space))
    }

    /// A key went down or up while `node` had the focus. A control there
    /// takes it before the scripts do.
    #[verifier::opaque]
    pub open spec fn key_on(self, node: usize, down: bool, k: Keystroke) -> Model {
        let activate = Model::activates(down, k);
        let untouched = self.sending_key(
            down,
            activate,
            KeyTail { node, edited: false, emits: false, target: None },
        );
        if down && self.has_input(node) {
            if self.inputs[node].kind is Radio && radio_motion(k.key) is Some {
                self.first(
                    Ask::RadioOrder { node, motion: radio_motion(k.key)->0, activate },
                )
            } else {
                let (inputs, edit) = crate::keys::key_edit(self.inputs, node, k);
                match edit {
                    KeyEdit::Done { changed, emits } => (Model { inputs, ..self }).sending_key(
                        down,
                        activate,
                        KeyTail { node, edited: changed, emits, target: None },
                    ),
                    KeyEdit::Step { count } => self.first(
                        Ask::StepText { node, count, purpose: Purpose::Key { activate } },
                    ),
                    KeyEdit::Extreme { maximum } => self.first(
                        Ask::ExtremeText { node, maximum, activate },
                    ),
                }
            }
        } else if down && self.has_select(node) {
            if self.selects[node].key_needs_options(k) && self.selects[node].options.len() == 0 {
                untouched
            } else {
                match self.selects[node].key(k) {
                    Some(edit) => (Model {
                        selects: self.selects.insert(node, edit.state),
                        ..self
                    }).sending_key(
                        down,
                        activate,
                        KeyTail { node, edited: true, emits: edit.emits, target: None },
                    ).first(Ask::SyncPopups),
                    None => untouched,
                }
            }
        } else {
            untouched
        }
    }

    /// A touch is followed as a gesture. One that operates a control presses
    /// it at once.
    #[verifier::opaque]
    pub open spec fn touched(self, id: u64, mode: GestureMode) -> Model {
        let m = Model { ui: Ui { touch: Some(ActiveTouch { id, mode }), ..self.ui }, ..self };
        match mode {
            GestureMode::Control => m.pointer(MouseEvent::Down { button: MouseButton::Left }),
            GestureMode::Pan { .. } => m,
        }
    }

    /// The finger of the followed touch is off.
    pub open spec fn untouched(self) -> Model {
        Model { ui: Ui { touch: None, ..self.ui }, ..self }
    }

    /// A finger did something. Only one is followed at a time.
    pub open spec fn touch(self, event: TouchEvent) -> Model {
        match event.phase {
            TouchPhase::Started => {
                let m = Model { ui: Ui { momentum: None, ..self.ui }, ..self };
                if self.ui.touch is Some {
                    m
                } else {
                    m.first(Ask::Overlay { id: event.id })
                }
            },
            TouchPhase::Moved => match self.ui.touch {
                Some(touch) => if touch.id != event.id {
                    self
                } else {
                    match touch.mode {
                        GestureMode::Control => self.pointer(MouseEvent::Move),
                        GestureMode::Pan { node } => self.first(Ask::TrackMove { node }),
                    }
                },
                None => self,
            },
            TouchPhase::Ended => match self.ui.touch {
                Some(touch) => if touch.id != event.id {
                    self
                } else {
                    match touch.mode {
                        GestureMode::Control => self.untouched().pointer(
                            MouseEvent::Up { button: MouseButton::Left },
                        ),
                        GestureMode::Pan { node } => self.untouched().first(Ask::Lift { node }),
                    }
                },
                None => self,
            },
            TouchPhase::Cancelled => match self.ui.touch {
                Some(touch) => if touch.id != event.id {
                    self
                } else {
                    match touch.mode {
                        GestureMode::Control => self.untouched().pointer(
                            MouseEvent::Up { button: MouseButton::Left },
                        ),
                        GestureMode::Pan { .. } => self.untouched(),
                    }
                },
                None => self,
            },
        }
    }

    /// A press and a release at the same place.
    pub open spec fn clicking(self) -> Model {
        self.first(Ask::Proceed { stage: Next::Release }).pointer(
            MouseEvent::Down { button: MouseButton::Left },
        )
    }

    /// The finger of a possible scroll of `node` was lifted.
    #[verifier::opaque]
    pub open spec fn lifted(self, node: usize, release: Release) -> Model {
        match release {
            Release::Tap => self.clicking(),
            Release::Pan { coasting } => if coasting {
                (Model { ui: Ui { momentum: Some(node), ..self.ui }, ..self }).repainted()
            } else {
                Model { ui: Ui { momentum: None, ..self.ui }, ..self }
            },
        }
    }

    /// Time passes: jobs run, the caret blinks, a fling coasts, and scripts
    /// hear of images.
    pub open spec fn ticking(self) -> Model {
        let m = self.first(Ask::Proceed { stage: Next::EndTick }).first(Ask::Images);
        let m = match self.ui.momentum {
            Some(node) => m.first(Ask::Coast { node }),
            None => m,
        };
        m.first(Ask::Blink).first(Ask::RunJobs)
    }

    /// The tick is over. Its result asks for paint where anything has changed
    /// since the last paint.
    #[verifier::opaque]
    pub open spec fn ticked(self) -> Model {
        let paint = self.ui.result.needs_paint || self.ui.needs_paint;
        let m = if self.ui.result.needs_paint {
            self.marked()
        } else {
            self
        };
        Model {
            ui: Ui {
                result: TickResult {
                    needs_paint: paint,
                    jobs_pending: m.ui.result.jobs_pending,
                },
                ..m.ui
            },
            ..m
        }
    }

    /// Scripts are to hear of images, in order.
    pub open spec fn telling_images(self, images: Seq<ImgEvent>) -> Model
        decreases images.len(),
    {
        if images.len() == 0 {
            self
        } else {
            self.telling_images(images.skip(1)).first(image_ask(images[0]))
        }
    }

    /// The instance goes on.
    #[verifier::opaque]
    pub open spec fn proceeded(self, next: Next) -> Model {
        match next {
            Next::EndMove { hover_changed } => if hover_changed || self.ui.result.needs_paint {
                self.repainted()
            } else {
                self
            },
            Next::Pressed { hit } => self.pressed(hit),
            Next::KeySent { tail } => self.key_sent(tail),
            Next::KeyFocused { tail } => self.key_focused(tail),
            Next::Scrolled => self.repainted(),
            Next::Release => self.pointer(MouseEvent::Up { button: MouseButton::Left }),
            Next::EndTick => self.ticked(),
        }
    }

    /// The scrollbar under the pointer is known.
    #[verifier::opaque]
    pub open spec fn scrollbar_hit(self, hit: ScrollbarHit) -> Model {
        match hit {
            ScrollbarHit::Thumb { node, axis } => Model {
                ui: Ui { scrollbar_drag: Some(ScrollbarDrag { node, axis }), ..self.ui },
                ..self
            },
            ScrollbarHit::Track { node, axis } => self.repainted().first(
                Ask::PageScroll { node, axis },
            ),
            ScrollbarHit::Nothing => self.first(Ask::HitTest { probe: Probe::Press }),
        }
    }

    /// The host has answered `ask`, which was taken off the agenda.
    pub open spec fn answered(self, ask: Ask, reply: Reply) -> Model {
        match ask {
            Ask::HitTest { probe } => self.hit(probe, reply.hit()),
            Ask::Spinner => match reply.spinner() {
                Some((node, up)) => self.repainted().stepping(
                    node,
                    if up {
                        1
                    } else {
                        -1i8
                    },
                ),
                None => self.first(Ask::Scrollbar),
            },
            Ask::Scrollbar => self.scrollbar_hit(reply.scrollbar()),
            Ask::RangeText { node, press } => self.slid(node, press, reply.text()),
            Ask::StepText { node, purpose, .. } => match purpose {
                Purpose::Press => self.number_entered(node, reply.text()),
                Purpose::Key { activate } => self.key_number(node, activate, reply.text()),
            },
            Ask::ExtremeText { node, activate, .. } => self.key_number(
                node,
                activate,
                reply.text(),
            ),
            Ask::ClampText { node, emits } => self.clamped(node, emits, reply.text()),
            Ask::Hover { from, to } => self.hover_moved(from, to, reply.flag()),
            Ask::FindHandler { node, event, lookup } => self.handler_found(
                node,
                event,
                lookup,
                reply.node(),
            ),
            Ask::Send { marks, .. } => {
                let m = self.joined(reply.tick());
                if marks && reply.tick().needs_paint {
                    m.marked()
                } else {
                    m
                }
            },
            Ask::SendInput { .. } => self.joined(reply.tick()),
            Ask::SendChange { .. } => self.joined(reply.tick()),
            Ask::SendScroll { .. } => self.joined(reply.tick()),
            Ask::RunJobs => self.joined(reply.tick()),
            Ask::SendRuntime => {
                let m = self.joined(reply.tick());
                if reply.tick().needs_paint {
                    m.marked()
                } else {
                    m
                }
            },
            Ask::SendKey { activate, tail, .. } => {
                let m = self.joined(reply.tick());
                if activate {
                    m.first(Ask::IsButton { tail })
                } else {
                    m.key_sent(tail)
                }
            },
            Ask::IsButton { tail } => if reply.flag() {
                self.first(Ask::Proceed { stage: Next::KeySent { tail } }).first(
                    Ask::Send {
                        node: tail.node,
                        event: EventName::Click,
                        related: None,
                        marks: false,
                    },
                )
            } else {
                self.key_sent(tail)
            },
            Ask::SendWheel { scrolled, viewport, .. } => self.joined(reply.tick()).wheeled(
                scrolled,
                viewport,
            ),
            Ask::Blur { node, next } => self.blurred(node, next, reply.tick()),
            Ask::Focus { .. } => self.focus_event_sent(reply.tick()).focus_settled(),
            Ask::TabOrder { backwards } => match next_in_order(
                reply.path(),
                self.ui.focused,
                backwards,
            ) {
                Some(node) => self.joined(
                    TickResult { needs_paint: true, jobs_pending: false },
                ).focusing(Some(node)),
                None => self,
            },
            Ask::RadioOrder { node, motion, activate } => self.radio_moved(
                node,
                motion,
                activate,
                reply.path(),
            ),
            Ask::Owner { .. } => self.first(Ask::HitTest { probe: Probe::Target }).closing_others(
                reply.node(),
            ),
            Ask::ScrollBy { node } => self.first(
                Ask::FindHandler {
                    node,
                    event: EventName::Wheel,
                    lookup: Lookup::Wheel {
                        start: node,
                        scrolled: reply.scrolled().0,
                        viewport: reply.scrolled().1,
                    },
                },
            ),
            Ask::Overlay { id } => if reply.flag() {
                self.touched(id, GestureMode::Control)
            } else {
                self.first(Ask::HitTest { probe: Probe::Touch { id } })
            },
            Ask::TrackMove { node } => if reply.flag() {
                self.repainted().first(Ask::PanBy { node })
            } else {
                self
            },
            Ask::Lift { node } => self.lifted(node, reply.release()),
            Ask::Blink => if reply.flag() {
                self.marked()
            } else {
                self
            },
            Ask::Coast { node } => {
                let m = Model {
                    ui: Ui {
                        momentum: if reply.coast().1 {
                            Some(node)
                        } else {
                            None
                        },
                        ..self.ui
                    },
                    ..self
                };
                if reply.coast().0 {
                    m.marked()
                } else {
                    m
                }
            },
            Ask::Images => self.telling_images(reply.images()),
            Ask::Proceed { stage } => self.proceeded(stage),
            Ask::DragScroll { .. } | Ask::PageScroll { .. } | Ask::Activate { .. }
            | Ask::ClearFocus | Ask::SetFocus { .. } | Ask::RefreshInput { .. }
            | Ask::RefreshSelect { .. } | Ask::SyncPopups | Ask::SyncChecked { .. }
            | Ask::PanBy { .. } | Ask::Reveal { .. } => self,
        }
    }

    /// The host has answered what was due.
    pub open spec fn stepped(self, reply: Reply) -> Model {
        if self.agenda.len() == 0 {
            self
        } else {
            (Model { agenda: self.agenda.drop_last(), ..self }).answered(
                self.agenda.last(),
                reply,
            )
        }
    }

    /// At the start of a dispatch.
    pub open spec fn begun(self) -> Model {
        Model { ui: Ui { result: TickResult::nothing(), ..self.ui }, ..self }
    }

    /// What the host is to do next.
    pub open spec fn due(self) -> Step {
        if self.agenda.len() == 0 {
            Step::Done { result: self.ui.result }
        } else {
            Step::Ask { ask: self.agenda.last() }
        }
    }

    /// What an assistive technology asks for.
    pub open spec fn assisting(self, node: usize, action: Action, value: Seq<char>) -> Model {
        match action {
            Action::Focus => self.focusing(Some(node)),
            Action::Blur => self.focusing(None),
            Action::Increment => self.stepping(node, 1),
            Action::Decrement => self.stepping(node, -1i8),
            Action::SetValue => if self.has_input(node) && !self.inputs[node].disabled
                && !self.inputs[node].readonly {
                self.giving(node, value)
            } else {
                self
            },
            Action::Click => if self.has_input(node) && self.inputs[node].kind.checked_like() {
                self.check_clicked(node)
            } else if self.has_select(node) {
                self.select_clicked(node)
            } else {
                self.clicking()
            },
            Action::ScrollIntoView => self.repainted().first(Ask::Reveal { node }),
            Action::Other => self,
        }
    }
}

} // verus!
