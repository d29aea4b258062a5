//! What an instance asks of its host, and what the host answers.
//!
//! An instance decides; the host owns the document, its layout and the script
//! engine. While an event is dispatched, the instance hands out one [`Ask`]
//! after the other, and the host answers each with a [`Reply`].

use crate::events::TickResult;
use vstd::prelude::*;

verus! {

/// The events that reach scripts.
#[derive(Debug, Clone, Copy, PartialEq, Eq, Structural)]
pub enum EventName {
    Click,
    ContextMenu,
    AuxClick,
    MouseUp,
    MouseOut,
    MouseLeave,
    HoverLeave,
    MouseOver,
    MouseEnter,
    Hover,
    HoverEnter,
    MouseMove,
    Focus,
    Blur,
    KeyDown,
    KeyUp,
    Wheel,
    Scroll,
    Input,
    Change,
    Load,
    Error,
}

impl EventName {
    /// The name by which scripts know the event.
    pub open spec fn name(self) -> Seq<char> {
        match self {
            EventName::Click => "click"@,
            EventName::ContextMenu => "contextmenu"@,
            EventName::AuxClick => "auxclick"@,
            EventName::MouseUp => "mouseup"@,
            EventName::MouseOut => "mouseout"@,
            EventName::MouseLeave => "mouseleave"@,
            EventName::HoverLeave => "hoverleave"@,
            EventName::MouseOver => "mouseover"@,
            EventName::MouseEnter => "mouseenter"@,
            EventName::Hover => "hover"@,
            EventName::HoverEnter => "hoverenter"@,
            EventName::MouseMove => "mousemove"@,
            EventName::Focus => "focus"@,
            EventName::Blur => "blur"@,
            EventName::KeyDown => "keydown"@,
            EventName::KeyUp => "keyup"@,
            EventName::Wheel => "wheel"@,
            EventName::Scroll => "scroll"@,
            EventName::Input => "input"@,
            EventName::Change => "change"@,
            EventName::Load => "load"@,
            EventName::Error => "error"@,
        }
    }

    /// The name by which scripts know the event.
    pub fn as_str(self) -> (res: &'static str)
        ensures
            res@ == self.name(),
    {
        match self {
            EventName::Click => "click",
            EventName::ContextMenu => "contextmenu",
            EventName::AuxClick => "auxclick",
            EventName::MouseUp => "mouseup",
            EventName::MouseOut => "mouseout",
            EventName::MouseLeave => "mouseleave",
            EventName::HoverLeave => "hoverleave",
            EventName::MouseOver => "mouseover",
            EventName::MouseEnter => "mouseenter",
            EventName::Hover => "hover",
            EventName::HoverEnter => "hoverenter",
            EventName::MouseMove => "mousemove",
            EventName::Focus => "focus",
            EventName::Blur => "blur",
            EventName::KeyDown => "keydown",
            EventName::KeyUp => "keyup",
            EventName::Wheel => "wheel",
            EventName::Scroll => "scroll",
            EventName::Input => "input",
            EventName::Change => "change",
            EventName::Load => "load",
            EventName::Error => "error",
        }
    }
}

#[derive(Debug, Clone, Copy, PartialEq, Eq, Structural)]
pub enum MouseButton {
    Left,
    Right,
    Middle,
}

/// What the pointer did. Where it is, the host knows.
#[derive(Debug, Clone, Copy, PartialEq, Eq, Structural)]
pub enum MouseEvent {
    Move,
    Down { button: MouseButton },
    Up { button: MouseButton },
    Wheel,
}

#[derive(Debug, Clone, Copy, PartialEq, Eq, Structural)]
pub enum TouchPhase {
    Started,
    Moved,
    Ended,
    Cancelled,
}

/// What a finger did. Where it is, the host knows.
#[derive(Debug, Clone, Copy, PartialEq, Eq, Structural)]
pub struct TouchEvent {
    pub id: u64,
    pub phase: TouchPhase,
}

#[derive(Debug, Clone, Copy, PartialEq, Eq, Structural)]
pub enum ScrollAxis {
    Vertical,
    Horizontal,
}

/// What a touch is taken for.
#[derive(Debug, Clone, Copy, PartialEq, Eq, Structural)]
pub enum GestureMode {
    /// It operates a control, as the mouse would.
    Control,
    /// It may become a scroll of the node, or a tap.
    Pan { node: usize },
}

/// What lies under the pointer.
#[derive(Debug, Clone, Copy, PartialEq, Eq, Structural)]
pub enum Hit {
    Nothing,
    Node { node: usize },
    /// An option in the popup of a select.
    Choice { node: usize, select: usize, index: usize },
}

impl Hit {
    pub open spec fn id(self) -> Option<usize> {
        match self {
            Hit::Nothing => None,
            Hit::Node { node } => Some(node),
            Hit::Choice { node, .. } => Some(node),
        }
    }

    pub fn node_id(self) -> (res: Option<usize>)
        ensures
            res == self.id(),
    {
        match self {
            Hit::Nothing => None,
            Hit::Node { node } => Some(node),
            Hit::Choice { node, .. } => Some(node),
        }
    }
}

/// Why the host is asked what lies under the pointer.
#[derive(Debug, Clone, Copy, PartialEq, Eq, Structural)]
pub enum Probe {
    Hover,
    /// The button was pressed.
    Press,
    /// The button was pressed, and popups that it missed have been closed.
    Target,
    /// An event that only goes to its handler.
    Plain { event: EventName },
    Wheel,
    Touch { id: u64 },
}

/// Why the host is asked for the nearest handler of an event.
#[derive(Debug, Clone, Copy, PartialEq, Eq, Structural)]
pub enum Lookup {
    /// To find what a press gives the focus to.
    FocusTarget { hit: usize },
    /// To send the event there.
    Deliver,
    /// To send it there and mark the instance where that asks for paint.
    DeliverAndMark,
    /// To send the wheel event there.
    Wheel { start: usize, scrolled: Option<usize>, viewport: bool },
    /// To tell a tap from a scroll.
    Touch { id: u64 },
}

/// Why the host is asked for the text of a stepped number.
#[derive(Debug, Clone, Copy, PartialEq, Eq, Structural)]
pub enum Purpose {
    /// A button of the control, or an assistive technology.
    Press,
    /// A key went down.
    Key { activate: bool },
}

/// What is left to do after a key event has been sent.
#[derive(Debug, Clone, Copy, PartialEq, Eq, Structural)]
pub struct KeyTail {
    /// The node that had the focus.
    pub node: usize,
    /// What the control shows is another.
    pub edited: bool,
    /// An `input` or `change` event is due.
    pub emits: bool,
    /// The focus goes to this node.
    pub target: Option<usize>,
}

/// Where an instance goes on without anything from the host.
#[derive(Debug, Clone, Copy, PartialEq, Eq, Structural)]
pub enum Next {
    /// The events of a move have been sent.
    EndMove { hover_changed: bool },
    /// The focus has followed a press on the node.
    Pressed { hit: usize },
    /// A key event, and the click it may stand for, have been sent.
    KeySent { tail: KeyTail },
    /// The focus has followed a key event.
    KeyFocused { tail: KeyTail },
    /// The scroll event has been sent.
    Scrolled,
    /// A press that stood for a whole click is followed by its release.
    Release,
    /// The jobs and events of a tick have run.
    EndTick,
}

/// One thing that the host is to do or tell.
#[derive(Debug, Clone, Copy, PartialEq, Eq, Structural)]
pub enum Ask {
    /// What lies under the pointer? Answered with [`Reply::Hit`].
    HitTest { probe: Probe },
    /// Which button of a number input lies under the pointer? Answered with
    /// [`Reply::Spinner`].
    Spinner,
    /// Which part of a scrollbar lies under the pointer? Answered with
    /// [`Reply::Scrollbar`].
    Scrollbar,
    /// Scroll the node so that its thumb follows the pointer.
    DragScroll { node: usize, axis: ScrollAxis },
    /// Scroll the node by a page towards the pointer.
    PageScroll { node: usize, axis: ScrollAxis },
    /// The text of the number at the pointer's place on a slider? Answered
    /// with [`Reply::Text`].
    RangeText { node: usize, press: bool },
    /// The text of the number so many steps away, within its bounds? Answered
    /// with [`Reply::Text`].
    StepText { node: usize, count: i8, purpose: Purpose },
    /// The text of the lower or upper bound of a slider? Answered with
    /// [`Reply::Text`].
    ExtremeText { node: usize, maximum: bool, activate: bool },
    /// The text of the number that was to be the value, within its bounds?
    /// Answered with [`Reply::Text`]. `emits`: an `input` event is due.
    ClampText { node: usize, emits: bool },
    /// Move the hover state from one node to another. Answered with
    /// [`Reply::Flag`]: whether the document saw a change.
    Hover { from: Option<usize>, to: Option<usize> },
    /// Move the pressed state from one node to another.
    Activate { from: Option<usize>, to: Option<usize> },
    /// The nearest node from this one upwards that handles the event?
    /// Answered with [`Reply::Node`].
    FindHandler { node: usize, event: EventName, lookup: Lookup },
    /// Send the event to the node. Answered with [`Reply::Tick`].
    Send { node: usize, event: EventName, related: Option<usize>, marks: bool },
    /// Send an `input` event with the state of the input. Answered with
    /// [`Reply::Tick`].
    SendInput { node: usize },
    /// Send a `change` event with the state of the select. Answered with
    /// [`Reply::Tick`].
    SendChange { select: usize },
    /// Send the key event to the node. Answered with [`Reply::Tick`].
    SendKey { down: bool, activate: bool, tail: KeyTail },
    /// Send the wheel event to the node. Answered with [`Reply::Tick`].
    SendWheel { node: usize, start: usize, scrolled: Option<usize>, viewport: bool },
    /// Send a `scroll` event to the node. Answered with [`Reply::Tick`].
    SendScroll { node: usize },
    /// Send `blur` to the node. Answered with [`Reply::Tick`].
    Blur { node: usize, next: Option<usize> },
    /// Send `focus` to the node. Answered with [`Reply::Tick`].
    Focus { node: usize },
    /// Take the document's focus away.
    ClearFocus,
    /// Give the document's focus to the node.
    SetFocus { node: usize },
    /// Is the node a button? Answered with [`Reply::Flag`].
    IsButton { tail: KeyTail },
    /// The controls in the order in which Tab visits them? Answered with
    /// [`Reply::Path`].
    TabOrder { backwards: bool },
    /// The radio buttons of the document in its order? Answered with
    /// [`Reply::Path`].
    RadioOrder { node: usize, motion: Motion, activate: bool },
    /// The select to which the node belongs? Answered with [`Reply::Node`].
    Owner { node: usize },
    /// Show the text of the input.
    RefreshInput { node: usize },
    /// Show the label of the select.
    RefreshSelect { select: usize },
    /// Bring the popups in line with the selects.
    SyncPopups,
    /// Bring the document's check marks in line with the inputs.
    SyncChecked { node: usize },
    /// Scroll by the wheel's delta from the node outwards. Answered with
    /// [`Reply::Scrolled`].
    ScrollBy { node: usize },
    /// Does a scrollbar or a button of a number input lie under the finger?
    /// Answered with [`Reply::Flag`].
    Overlay { id: u64 },
    /// Does the finger's move pan the node? Answered with [`Reply::Flag`].
    TrackMove { node: usize },
    /// Scroll the node by the finger's move.
    PanBy { node: usize },
    /// What became of the gesture, now that the finger is lifted? Answered
    /// with [`Reply::Release`].
    Lift { node: usize },
    /// Run the pending jobs. Answered with [`Reply::Tick`].
    RunJobs,
    /// Let the caret blink, with `Instance::advance_input_blink`. Answered
    /// with [`Reply::Flag`]: whether it did.
    Blink,
    /// Let the node coast on. Answered with [`Reply::Coast`].
    Coast { node: usize },
    /// Which images have loaded or failed? Answered with [`Reply::Images`].
    Images,
    /// Scroll the node into view.
    Reveal { node: usize },
    /// Send the runtime event. Answered with [`Reply::Tick`].
    SendRuntime,
    /// Nothing: go on.
    Proceed { stage: Next },
}

/// The moves among the radio buttons of a group.
#[derive(Debug, Clone, Copy, PartialEq, Eq, Structural)]
pub enum Motion {
    Previous,
    Following,
    First,
    Last,
}

#[derive(Debug, Clone, Copy, PartialEq, Eq, Structural)]
pub enum ScrollbarHit {
    Nothing,
    Thumb { node: usize, axis: ScrollAxis },
    Track { node: usize, axis: ScrollAxis },
}

#[derive(Debug, Clone, Copy, PartialEq, Eq, Structural)]
pub enum Release {
    /// The finger did not move far: a tap.
    Tap,
    /// The finger panned; whether the node coasts on.
    Pan { coasting: bool },
}

/// An image that has loaded or failed to.
#[derive(Debug, Clone, Copy, PartialEq, Eq, Structural)]
pub enum ImgEvent {
    Load { node: usize },
    Error { node: usize },
}

/// An answer of the host. One that does not belong to the question stands for
/// "nothing".
#[derive(Debug)]
pub enum Reply {
    Nothing,
    Node(Option<usize>),
    Hit(Hit),
    Flag(bool),
    Tick(TickResult),
    Text(Option<String>),
    Path(Vec<usize>),
    /// The number input and whether it is the upper button.
    Spinner(Option<(usize, bool)>),
    Scrollbar(ScrollbarHit),
    /// The first node outwards whose offset changed, and whether the
    /// viewport's did.
    Scrolled { node: Option<usize>, viewport: bool },
    Release(Release),
    Coast { scrolled: bool, alive: bool },
    Images(Vec<ImgEvent>),
}

impl Reply {
    pub open spec fn node(self) -> Option<usize> {
        match self {
            Reply::Node(node) => node,
            _ => None,
        }
    }

    pub open spec fn hit(self) -> Hit {
        match self {
            Reply::Hit(hit) => hit,
            _ => Hit::Nothing,
        }
    }

    pub open spec fn flag(self) -> bool {
        self matches Reply::Flag(flag) && flag
    }

    pub open spec fn tick(self) -> TickResult {
        match self {
            Reply::Tick(tick) => tick,
            _ => TickResult::nothing(),
        }
    }

    pub open spec fn text(self) -> Option<Seq<char>> {
        match self {
            Reply::Text(Some(text)) => Some(text@),
            _ => None,
        }
    }

    pub open spec fn path(self) -> Seq<usize> {
        match self {
            Reply::Path(path) => path@,
            _ => Seq::empty(),
        }
    }

    pub open spec fn spinner(self) -> Option<(usize, bool)> {
        match self {
            Reply::Spinner(spinner) => spinner,
            _ => None,
        }
    }

    pub open spec fn scrollbar(self) -> ScrollbarHit {
        match self {
            Reply::Scrollbar(hit) => hit,
            _ => ScrollbarHit::Nothing,
        }
    }

    pub open spec fn scrolled(self) -> (Option<usize>, bool) {
        match self {
            Reply::Scrolled { node, viewport } => (node, viewport),
            _ => (None, false),
        }
    }

    pub open spec fn release(self) -> Release {
        match self {
            Reply::Release(release) => release,
            _ => Release::Pan { coasting: false },
        }
    }

    pub open spec fn coast(self) -> (bool, bool) {
        match self {
            Reply::Coast { scrolled, alive } => (scrolled, alive),
            _ => (false, false),
        }
    }

    pub open spec fn images(self) -> Seq<ImgEvent> {
        match self {
            Reply::Images(images) => images@,
            _ => Seq::empty(),
        }
    }

    pub fn take_node(&self) -> (res: Option<usize>)
        ensures
            res == self.node(),
    {
        match self {
            Reply::Node(node) => *node,
            _ => None,
        }
    }

    pub fn take_hit(&self) -> (res: Hit)
        ensures
            res == self.hit(),
    {
        match self {
            Reply::Hit(hit) => *hit,
            _ => Hit::Nothing,
        }
    }

    pub fn take_flag(&self) -> (res: bool)
        ensures
            res == self.flag(),
    {
        match self {
            Reply::Flag(flag) => *flag,
            _ => false,
        }
    }

    pub fn take_tick(&self) -> (res: TickResult)
        ensures
            res == self.tick(),
    {
        match self {
            Reply::Tick(tick) => *tick,
            _ => TickResult { needs_paint: false, jobs_pending: false },
        }
    }

    pub fn take_text(&self) -> (res: Option<&str>)
        ensures
            crate::input::str_view(res) == self.text(),
    {
        match self {
            Reply::Text(Some(text)) => Some(text.as_str()),
            _ => None,
        }
    }

    pub fn take_spinner(&self) -> (res: Option<(usize, bool)>)
        ensures
            res == self.spinner(),
    {
        match self {
            Reply::Spinner(spinner) => *spinner,
            _ => None,
        }
    }

    pub fn take_scrollbar(&self) -> (res: ScrollbarHit)
        ensures
            res == self.scrollbar(),
    {
        match self {
            Reply::Scrollbar(hit) => *hit,
            _ => ScrollbarHit::Nothing,
        }
    }

    pub fn take_scrolled(&self) -> (res: (Option<usize>, bool))
        ensures
            res == self.scrolled(),
    {
        match self {
            Reply::Scrolled { node, viewport } => (*node, *viewport),
            _ => (None, false),
        }
    }

    pub fn take_release(&self) -> (res: Release)
        ensures
            res == self.release(),
    {
        match self {
            Reply::Release(release) => *release,
            _ => Release::Pan { coasting: false },
        }
    }

    pub fn take_coast(&self) -> (res: (bool, bool))
        ensures
            res == self.coast(),
    {
        match self {
            Reply::Coast { scrolled, alive } => (*scrolled, *alive),
            _ => (false, false),
        }
    }

    pub fn take_path(self) -> (res: Vec<usize>)
        ensures
            res@ == self.path(),
    {
        match self {
            Reply::Path(path) => path,
            _ => Vec::new(),
        }
    }

    pub fn take_images(self) -> (res: Vec<ImgEvent>)
        ensures
            res@ == self.images(),
    {
        match self {
            Reply::Images(images) => images,
            _ => Vec::new(),
        }
    }
}

/// What an assistive technology can ask of a node.
#[derive(Debug, Clone, Copy, PartialEq, Eq, Structural)]
pub enum Action {
    Focus,
    Blur,
    Increment,
    Decrement,
    SetValue,
    /// Also for expanding and collapsing.
    Click,
    ScrollIntoView,
    Other,
}

/// What an instance wants next.
#[derive(Debug, Clone, Copy, PartialEq, Eq, Structural)]
pub enum Step {
    /// An answer to this.
    Ask { ask: Ask },
    /// Nothing more; the dispatch has this result.
    Done { result: TickResult },
}

} // verus!
