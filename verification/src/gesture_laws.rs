//! What fingers, the wheel and the passing of time do.

use crate::events::TickResult;
use crate::plan::{ActiveTouch, Model, Ui};
use crate::press_laws;
use crate::protocol::{
    Ask, EventName, GestureMode, Hit, ImgEvent, KeyTail, Lookup, Motion, MouseButton, MouseEvent, Next, Probe,
    Release, Reply, ScrollbarHit, Step, TouchEvent, TouchPhase,
};
use vstd::prelude::*;

verus! {

/// Once a node was asked to coast on, it is the one that coasts exactly where
/// the fling is still alive; and where it scrolled, that is to be painted.
/// Nothing else changes.
pub proof fn law_flings_coast_while_alive(m: Model, node: usize, scrolled: bool, alive: bool)
    ensures
        ({
            let n = m.answered(Ask::Coast { node }, Reply::Coast { scrolled, alive });
            &&& n.ui.momentum == Some(node) <==> alive
            &&& n.ui.momentum is Some <==> alive
            &&& n == (Model {
                ui: Ui {
                    momentum: n.ui.momentum,
                    needs_paint: m.ui.needs_paint || scrolled,
                    ..m.ui
                },
                ..m
            })
        }),
{
}

/// What a tick asks for, the last of it first: jobs run, the caret blinks, the
/// node of a fling coasts on, and images are heard of, before the tick ends.
pub open spec fn tick_asks(momentum: Option<usize>) -> Seq<Ask> {
    seq![Ask::Proceed { stage: Next::EndTick }, Ask::Images] + (match momentum {
        Some(node) => seq![Ask::Coast { node }],
        None => seq![],
    }) + seq![Ask::Blink, Ask::RunJobs]
}

/// A tick asks the node that coasts, and no other, to coast on, behind the jobs
/// and the caret and before the images.
pub proof fn law_ticks_ask_in_order(m: Model)
    ensures
        m.ticking() == press_laws::goes_on(m, m.ui, tick_asks(m.ui.momentum)),
        forall|node: usize|
            m.ticking().agenda.skip(m.agenda.len() as int).contains(Ask::Coast { node }) <==> m.ui.momentum
                == Some(node),
{
    let n = m.ticking();
    let asks = tick_asks(m.ui.momentum);
    assert(n.agenda =~= m.agenda + asks);
    assert(n.agenda.skip(m.agenda.len() as int) =~= asks);
    assert forall|node: usize| asks.contains(Ask::Coast { node }) <==> m.ui.momentum == Some(
        node,
    ) by {
        if m.ui.momentum == Some(node) {
            assert(asks[2] == Ask::Coast { node });
        }
    }
}

/// A fling that coasts is asked for again in the next tick exactly where it was
/// alive; that tick leaves it where it is until its turn comes.
pub proof fn law_flings_are_asked_for_in_every_tick(
    m: Model,
    later: Model,
    node: usize,
    scrolled: bool,
    alive: bool,
)
    requires
        later.ui.momentum == m.answered(
            Ask::Coast { node },
            Reply::Coast { scrolled, alive },
        ).ui.momentum,
    ensures
        later.ticking().agenda.skip(later.agenda.len() as int).contains(Ask::Coast { node })
            <==> alive,
        later.ticking().ui.momentum == later.ui.momentum,
{
    law_flings_coast_while_alive(m, node, scrolled, alive);
    law_ticks_ask_in_order(later);
}

/// The focus moves, and the fling goes on.
proof fn lemma_focus_keeps_flings()
    ensures
        forall|m: Model, next: Option<usize>| (#[trigger] m.focusing(next)).ui.momentum == m.ui.momentum,
        forall|m: Model, node: usize| (#[trigger] m.focusing_on(node)).ui.momentum == m.ui.momentum,
        forall|m: Model, owner: Option<usize>|
            (#[trigger] m.closing_others(owner)).ui.momentum == m.ui.momentum,
        forall|m: Model, node: usize, next: Option<usize>, tick: TickResult|
            (#[trigger] m.blurred(node, next, tick)).ui.momentum == m.ui.momentum,
{
    reveal(Model::focusing);
    reveal(Model::focusing_on);
    reveal(Model::closing_others);
    reveal(Model::blurred);
}

/// The pointer works, and the fling goes on.
proof fn lemma_pointers_keep_flings()
    ensures
        forall|m: Model, event: MouseEvent| (#[trigger] m.pointer(event)).ui.momentum == m.ui.momentum,
        forall|m: Model, id: u64, mode: GestureMode|
            (#[trigger] m.touched(id, mode)).ui.momentum == m.ui.momentum,
        forall|m: Model, from: Option<usize>, to: Option<usize>, saw: bool|
            (#[trigger] m.hover_moved(from, to, saw)).ui.momentum == m.ui.momentum,
        forall|m: Model, hit: ScrollbarHit|
            (#[trigger] m.scrollbar_hit(hit)).ui.momentum == m.ui.momentum,
        forall|m: Model, hit: Hit| (#[trigger] m.hover_hit(hit)).ui.momentum == m.ui.momentum,
        forall|m: Model, select: usize, index: int|
            (#[trigger] m.choice_pressed(select, index)).ui.momentum == m.ui.momentum,
{
    assert forall|m: Model, event: MouseEvent| (#[trigger] m.pointer(
        event,
    )).ui.momentum == m.ui.momentum by {
        reveal(Model::pointer);
    }
    assert forall|m: Model, id: u64, mode: GestureMode| (#[trigger] m.touched(
        id,
        mode,
    )).ui.momentum == m.ui.momentum by {
        reveal(Model::touched);
    }
    assert forall|m: Model, from: Option<usize>, to: Option<usize>, saw: bool| (
    #[trigger] m.hover_moved(from, to, saw)).ui.momentum == m.ui.momentum by {
        reveal(Model::hover_moved);
    }
    reveal(Model::scrollbar_hit);
    reveal(Model::hover_hit);
    reveal(Model::choice_pressed);
}

/// Numbers come, and the fling goes on.
proof fn lemma_numbers_keep_flings()
    ensures
        forall|m: Model, node: usize, press: bool, text: Option<Seq<char>>|
            (#[trigger] m.slid(node, press, text)).ui.momentum == m.ui.momentum,
        forall|m: Model, node: usize, text: Option<Seq<char>>|
            (#[trigger] m.number_entered(node, text)).ui.momentum == m.ui.momentum,
        forall|m: Model, node: usize, activate: bool, text: Option<Seq<char>>|
            (#[trigger] m.key_number(node, activate, text)).ui.momentum == m.ui.momentum,
        forall|m: Model, node: usize, emits: bool, text: Option<Seq<char>>|
            (#[trigger] m.clamped(node, emits, text)).ui.momentum == m.ui.momentum,
        forall|m: Model, node: usize, motion: Motion, activate: bool, order: Seq<usize>|
            (#[trigger] m.radio_moved(node, motion, activate, order)).ui.momentum == m.ui.momentum,
{
    reveal(Model::slid);
    reveal(Model::number_entered);
    reveal(Model::key_number);
    reveal(Model::clamped);
    reveal(Model::radio_moved);
}

/// Presses end and keys are heard, and the fling goes on.
proof fn lemma_presses_keep_flings()
    ensures
        forall|m: Model, hit: usize, focus: usize|
            (#[trigger] m.pressing(hit, focus)).ui.momentum == m.ui.momentum,
        forall|m: Model, hit: usize| (#[trigger] m.pressed(hit)).ui.momentum == m.ui.momentum,
        forall|m: Model, scrolled: Option<usize>, viewport: bool|
            (#[trigger] m.wheeled(scrolled, viewport)).ui.momentum == m.ui.momentum,
        forall|m: Model, tail: KeyTail| (#[trigger] m.key_sent(tail)).ui.momentum == m.ui.momentum,
        forall|m: Model, tail: KeyTail| (#[trigger] m.key_focused(tail)).ui.momentum == m.ui.momentum,
{
    lemma_focus_keeps_flings();
    reveal(Model::check_clicked);
    reveal(Model::select_clicked);
    reveal(Model::pressing);
    reveal(Model::pressed);
    reveal(Model::wheeled);
    reveal(Model::key_sent);
    reveal(Model::key_focused);
}

/// Nothing but the answer about a fling, a finger that is lifted and a new
/// finger changes which node coasts.
pub proof fn law_flings_last(m: Model, ask: Ask, reply: Reply)
    requires
        !(ask is Coast),
        !(ask is Lift),
    ensures
        m.answered(ask, reply).ui.momentum == m.ui.momentum,
{
    lemma_focus_keeps_flings();
    lemma_pointers_keep_flings();
    lemma_numbers_keep_flings();
    lemma_presses_keep_flings();
    match ask {
        Ask::HitTest { .. } => {
            reveal(Model::hit);
        },
        Ask::FindHandler { .. } => {
            reveal(Model::handler_found);
        },
        Ask::Proceed { .. } => {
            reveal(Model::proceeded);
            reveal(Model::ticked);
        },
        Ask::Images => {
            lemma_images(m, reply.images());
        },
        _ => {},
    }
}

/// The node that coasts keeps coasting through everything that a user can do but
/// putting a finger down.
pub proof fn law_flings_outlast_other_events(
    m: Model,
    event: MouseEvent,
    touch: TouchEvent,
    down: bool,
    k: crate::events::Keystroke,
)
    ensures
        m.pointer(event).ui.momentum == m.ui.momentum,
        m.key(down, k).ui.momentum == m.ui.momentum,
        m.ticking().ui.momentum == m.ui.momentum,
        !(touch.phase is Started) ==> m.touch(touch).ui.momentum == m.ui.momentum,
        touch.phase is Started ==> m.touch(touch).ui.momentum is None,
{
    reveal(Model::pointer);
    reveal(Model::key_on);
}

/// The events that tell scripts of images, the first image's last.
pub open spec fn images_told(images: Seq<ImgEvent>) -> Seq<Ask> {
    Seq::new(
        images.len(),
        |i: int|
            match images[images.len() - 1 - i] {
                ImgEvent::Load { node } => Ask::Send {
                    node,
                    event: EventName::Load,
                    related: None,
                    marks: true,
                },
                ImgEvent::Error { node } => Ask::Send {
                    node,
                    event: EventName::Error,
                    related: None,
                    marks: true,
                },
            },
    )
}

proof fn lemma_images(m: Model, images: Seq<ImgEvent>)
    ensures
        m.telling_images(images) == press_laws::goes_on(m, m.ui, images_told(images)),
    decreases images.len(),
{
    let n = m.telling_images(images);
    if images.len() == 0 {
        assert(m.agenda + images_told(images) =~= m.agenda);
    } else {
        let rest = images.skip(1);
        lemma_images(m, rest);
        assert(n.agenda =~= m.agenda + images_told(images)) by {
            assert(images_told(images) =~= images_told(rest).push(images_told(images).last()));
        }
    }
}

/// Scripts hear of each image in the order in which it came in, by `load` where
/// it has loaded and by `error` where it has not.
pub proof fn law_images_are_told_in_order(m: Model, images: Vec<ImgEvent>)
    ensures
        m.answered(Ask::Images, Reply::Images(images)) == press_laws::goes_on(
            m,
            m.ui,
            images_told(images@),
        ),
{
    lemma_images(m, images@);
}

/// A caret that blinked is to be painted.
pub proof fn law_blinks_are_painted(m: Model, blinked: bool)
    ensures
        m.answered(Ask::Blink, Reply::Flag(blinked)) == (Model {
            ui: Ui { needs_paint: m.ui.needs_paint || blinked, ..m.ui },
            ..m
        }),
{
}

/// The result of a tick asks for paint exactly where a script did or anything
/// has changed since the last paint, and what a script asked for is not lost.
pub proof fn law_ticks_end(m: Model)
    ensures
        m.answered(Ask::Proceed { stage: Next::EndTick }, Reply::Nothing) == (Model {
            ui: Ui {
                needs_paint: m.ui.needs_paint || m.ui.result.needs_paint,
                result: TickResult {
                    needs_paint: m.ui.needs_paint || m.ui.result.needs_paint,
                    jobs_pending: m.ui.result.jobs_pending,
                },
                ..m.ui
            },
            ..m
        }),
{
    reveal(Model::proceeded);
    reveal(Model::ticked);
}

/// A dispatch begins with a result that asks for nothing; the host is asked what
/// is last in the agenda, the answer takes that off, and the dispatch is over
/// once nothing is left, with the result that has come together.
pub proof fn law_dispatches_go_from_ask_to_ask(m: Model, reply: Reply)
    ensures
        m.begun() == (Model {
            ui: Ui {
                result: TickResult { needs_paint: false, jobs_pending: false },
                ..m.ui
            },
            ..m
        }),
        m.agenda.len() == 0 ==> m.due() == (Step::Done { result: m.ui.result }),
        m.agenda.len() > 0 ==> m.due() == (Step::Ask { ask: m.agenda[m.agenda.len() - 1] }),
        m.agenda.len() == 0 ==> m.stepped(reply) == m,
        m.agenda.len() > 0 ==> m.stepped(reply) == (Model {
            agenda: m.agenda.take(m.agenda.len() - 1),
            ..m
        }).answered(m.agenda[m.agenda.len() - 1], reply),
{
    if m.agenda.len() > 0 {
        assert(m.agenda.drop_last() =~= m.agenda.take(m.agenda.len() - 1));
    }
}

/// What the host was only told to do, and needs no answer, changes nothing.
pub proof fn law_orders_change_nothing(m: Model, ask: Ask, reply: Reply)
    requires
        ask is DragScroll || ask is PageScroll || ask is Activate || ask is ClearFocus
            || ask is SetFocus || ask is RefreshInput || ask is RefreshSelect || ask is SyncPopups
            || ask is SyncChecked || ask is PanBy || ask is Reveal,
    ensures
        m.answered(ask, reply) == m,
{
}

/// A finger that is put down ends a fling, and is asked about where no other is
/// followed.
pub proof fn law_fingers_stop_flings(m: Model, id: u64)
    ensures
        m.touch(TouchEvent { id, phase: TouchPhase::Started }) == press_laws::goes_on(
            m,
            Ui { momentum: None, ..m.ui },
            if m.ui.touch is Some {
                seq![]
            } else {
                seq![Ask::Overlay { id }]
            },
        ),
{
    let n = m.touch(TouchEvent { id, phase: TouchPhase::Started });
    assert(m.agenda + Seq::<Ask>::empty() =~= m.agenda);
    assert(n.agenda.len() > m.agenda.len() ==> n.agenda =~= m.agenda + seq![n.agenda.last()]);
}

/// The instance that follows a finger.
pub open spec fn following(m: Model, id: u64, mode: GestureMode) -> Model {
    Model { ui: Ui { touch: Some(ActiveTouch { id, mode }), ..m.ui }, ..m }
}

/// The instance that follows no finger.
pub open spec fn let_go(m: Model) -> Model {
    Model { ui: Ui { touch: None, ..m.ui }, ..m }
}

/// A finger that operates a control is the pointer: it presses at once.
pub open spec fn operating(m: Model, id: u64) -> Model {
    following(m, id, GestureMode::Control).pointer(MouseEvent::Down { button: MouseButton::Left })
}

/// A finger on a scrollbar or on a button of a number operates it. Elsewhere it
/// is asked what lies there: an option, an input or a select is operated; where
/// nothing lies, the finger may scroll the container; and any other node is
/// asked for what it hears.
pub proof fn law_fingers_operate_controls(m: Model, id: u64, hit: Hit)
    ensures
        m.answered(Ask::Overlay { id }, Reply::Flag(true)) == operating(m, id),
        m.answered(Ask::Overlay { id }, Reply::Flag(false)) == press_laws::goes_on(
            m,
            m.ui,
            seq![Ask::HitTest { probe: Probe::Touch { id } }],
        ),
        m.answered(Ask::HitTest { probe: Probe::Touch { id } }, Reply::Hit(hit)) == match hit {
            Hit::Choice { .. } => operating(m, id),
            Hit::Nothing => following(m, id, GestureMode::Pan { node: m.ui.container }),
            Hit::Node { node } => if m.inputs.contains_key(node) || m.selects.contains_key(node) {
                operating(m, id)
            } else {
                press_laws::goes_on(
                    m,
                    m.ui,
                    seq![
                        Ask::FindHandler {
                            node,
                            event: EventName::Click,
                            lookup: Lookup::Touch { id },
                        },
                    ],
                )
            },
        },
{
    reveal(Model::touched);
    reveal(Model::hit);
    let n = m.answered(Ask::Overlay { id }, Reply::Flag(false));
    assert(n.agenda =~= m.agenda + seq![n.agenda.last()]);
    let o = m.answered(Ask::HitTest { probe: Probe::Touch { id } }, Reply::Hit(hit));
    if let Hit::Node { node } = hit {
        if !(m.inputs.contains_key(node) || m.selects.contains_key(node)) {
            assert(o.agenda =~= m.agenda + seq![o.agenda.last()]);
        }
    }
}

/// A finger on a node that hears clicks, or else keys, or else the focus,
/// operates it; on one that hears none of them, it may scroll the node.
pub proof fn law_fingers_scroll_what_hears_nothing(
    m: Model,
    node: usize,
    id: u64,
    event: EventName,
    handler: usize,
)
    requires
        event is Click || event is KeyDown || event is Focus,
    ensures
        ({
            let lookup = Lookup::Touch { id };
            let ask = Ask::FindHandler { node, event, lookup };
            &&& m.answered(ask, Reply::Node(Some(handler))) == operating(m, id)
            &&& m.answered(ask, Reply::Node(None)) == match event {
                EventName::Click => press_laws::goes_on(
                    m,
                    m.ui,
                    seq![Ask::FindHandler { node, event: EventName::KeyDown, lookup }],
                ),
                EventName::KeyDown => press_laws::goes_on(
                    m,
                    m.ui,
                    seq![Ask::FindHandler { node, event: EventName::Focus, lookup }],
                ),
                _ => following(m, id, GestureMode::Pan { node }),
            }
        }),
{
    reveal(Model::touched);
    reveal(Model::handler_found);
    let n = m.answered(
        Ask::FindHandler { node, event, lookup: Lookup::Touch { id } },
        Reply::Node(None),
    );
    assert(event is Click || event is KeyDown ==> n.agenda =~= m.agenda + seq![n.agenda.last()]);
}

/// The followed finger moves, is lifted or is lost: on a control it is the
/// pointer, which is released when it is lifted or lost; else its moves may
/// scroll the node, and only a finger that is lifted asks what became of them.
/// Any other finger does nothing.
pub proof fn law_fingers_are_followed(m: Model, event: TouchEvent)
    requires
        !(event.phase is Started),
    ensures
        m.touch(event) == if m.ui.touch is None || (m.ui.touch->0).id != event.id {
            m
        } else {
            match (event.phase, (m.ui.touch->0).mode) {
                (TouchPhase::Moved, GestureMode::Control) => m.pointer(MouseEvent::Move),
                (TouchPhase::Moved, GestureMode::Pan { node }) => press_laws::goes_on(
                    m,
                    m.ui,
                    seq![Ask::TrackMove { node }],
                ),
                (_, GestureMode::Control) => let_go(m).pointer(
                    MouseEvent::Up { button: MouseButton::Left },
                ),
                (TouchPhase::Ended, GestureMode::Pan { node }) => press_laws::goes_on(
                    m,
                    let_go(m).ui,
                    seq![Ask::Lift { node }],
                ),
                (_, GestureMode::Pan { .. }) => let_go(m),
            }
        },
{
    let n = m.touch(event);
    if let Some(touch) = m.ui.touch {
        if touch.mode is Pan {
            assert(n.agenda.len() > m.agenda.len() ==> n.agenda =~= m.agenda + seq![
                n.agenda.last(),
            ]);
        }
    }
}

/// A move that scrolls, scrolls its node, and is painted. A move that does not
/// yet is nothing.
pub proof fn law_moves_of_fingers_scroll(m: Model, node: usize)
    ensures
        m.answered(Ask::TrackMove { node }, Reply::Flag(true)) == press_laws::goes_on(
            m,
            press_laws::painting(m.ui),
            seq![Ask::PanBy { node }],
        ),
        m.answered(Ask::TrackMove { node }, Reply::Flag(false)) == m,
{
    let n = m.answered(Ask::TrackMove { node }, Reply::Flag(true));
    assert(n.agenda =~= m.agenda + seq![Ask::PanBy { node }]);
}

/// A finger that was lifted without having moved is a click, a press and then a
/// release. One that scrolled leaves its node coasting exactly where the host
/// says so.
pub proof fn law_lifted_fingers_tap_or_fling(m: Model, node: usize, coasting: bool)
    ensures
        m.answered(Ask::Lift { node }, Reply::Release(Release::Tap)) == press_laws::goes_on(
            m,
            m.ui,
            seq![Ask::Proceed { stage: Next::Release }, Ask::Spinner],
        ),
        ({
            let n = m.answered(Ask::Lift { node }, Reply::Release(Release::Pan { coasting }));
            &&& n.ui.momentum == Some(node) <==> coasting
            &&& n.ui.momentum is Some <==> coasting
            &&& n == (Model {
                ui: Ui {
                    momentum: n.ui.momentum,
                    ..if coasting {
                        press_laws::painting(m.ui)
                    } else {
                        m.ui
                    }
                },
                ..m
            })
        }),
        m.answered(Ask::Proceed { stage: Next::Release }, Reply::Nothing) == m.pointer(
            MouseEvent::Up { button: MouseButton::Left },
        ),
{
    reveal(Model::lifted);
    reveal(Model::pointer);
    reveal(Model::proceeded);
    let n = m.answered(Ask::Lift { node }, Reply::Release(Release::Tap));
    assert(n.agenda =~= m.agenda + seq![Ask::Proceed { stage: Next::Release }, Ask::Spinner]);
}

/// The wheel scrolls from the node that was hit outwards, and nothing where none
/// was hit. What scrolled is carried to the nearest node that hears the wheel.
pub proof fn law_wheels_scroll_what_was_hit(
    m: Model,
    hit: Hit,
    node: usize,
    scrolled: Option<usize>,
    viewport: bool,
    target: usize,
    start: usize,
)
    ensures
        m.answered(Ask::HitTest { probe: Probe::Wheel }, Reply::Hit(hit)) == match hit {
            Hit::Nothing => m,
            Hit::Node { node } | Hit::Choice { node, .. } => press_laws::goes_on(
                m,
                m.ui,
                seq![Ask::ScrollBy { node }],
            ),
        },
        m.answered(
            Ask::ScrollBy { node },
            Reply::Scrolled { node: scrolled, viewport },
        ) == press_laws::goes_on(
            m,
            m.ui,
            seq![
                Ask::FindHandler {
                    node,
                    event: EventName::Wheel,
                    lookup: Lookup::Wheel { start: node, scrolled, viewport },
                },
            ],
        ),
        m.answered(
            Ask::FindHandler {
                node,
                event: EventName::Wheel,
                lookup: Lookup::Wheel { start, scrolled, viewport },
            },
            Reply::Node(Some(target)),
        ) == press_laws::goes_on(
            m,
            m.ui,
            seq![Ask::SendWheel { node: target, start, scrolled, viewport }],
        ),
{
    reveal(Model::hit);
    reveal(Model::handler_found);
    let n = m.answered(Ask::HitTest { probe: Probe::Wheel }, Reply::Hit(hit));
    assert(n.agenda.len() > m.agenda.len() ==> n.agenda =~= m.agenda + seq![n.agenda.last()]);
    let o = m.answered(Ask::ScrollBy { node }, Reply::Scrolled { node: scrolled, viewport });
    assert(o.agenda =~= m.agenda + seq![o.agenda.last()]);
    let p = m.answered(
        Ask::FindHandler {
            node,
            event: EventName::Wheel,
            lookup: Lookup::Wheel { start, scrolled, viewport },
        },
        Reply::Node(Some(target)),
    );
    assert(p.agenda =~= m.agenda + seq![p.agenda.last()]);
}

/// The instance once the wheel was heard: the node that scrolled, or else the
/// container where the viewport did, hears of that, and then it is painted.
/// Where nothing scrolled, only what scripts asked to be painted counts.
pub open spec fn after_wheel(m: Model, scrolled: Option<usize>, viewport: bool) -> Model {
    if scrolled is Some || viewport {
        press_laws::goes_on(
            m,
            m.ui,
            seq![
                Ask::Proceed { stage: Next::Scrolled },
                Ask::SendScroll {
                    node: match scrolled {
                        Some(node) => node,
                        None => m.ui.container,
                    },
                },
            ],
        )
    } else if m.ui.result.needs_paint {
        Model { ui: press_laws::changed(m.ui), ..m }
    } else {
        Model {
            ui: Ui {
                result: TickResult { needs_paint: false, jobs_pending: false },
                ..m.ui
            },
            ..m
        }
    }
}

/// What scrolled hears of it once the wheel was heard, or where nobody hears the
/// wheel at once; and then it is painted.
pub proof fn law_wheels_tell_what_scrolled(
    m: Model,
    node: usize,
    start: usize,
    scrolled: Option<usize>,
    viewport: bool,
    tick: TickResult,
)
    ensures
        m.answered(
            Ask::FindHandler {
                node,
                event: EventName::Wheel,
                lookup: Lookup::Wheel { start, scrolled, viewport },
            },
            Reply::Node(None),
        ) == after_wheel(m, scrolled, viewport),
        m.answered(
            Ask::SendWheel { node, start, scrolled, viewport },
            Reply::Tick(tick),
        ) == after_wheel(
            Model { ui: press_laws::ran(m.ui, tick), ..m },
            scrolled,
            viewport,
        ),
        m.answered(Ask::Proceed { stage: Next::Scrolled }, Reply::Nothing) == (Model {
            ui: press_laws::painting(m.ui),
            ..m
        }),
{
    reveal(Model::handler_found);
    reveal(Model::wheeled);
    reveal(Model::proceeded);
    let n = m.answered(
        Ask::FindHandler {
            node,
            event: EventName::Wheel,
            lookup: Lookup::Wheel { start, scrolled, viewport },
        },
        Reply::Node(None),
    );
    assert(n.agenda =~= after_wheel(m, scrolled, viewport).agenda);
    let j = Model { ui: press_laws::ran(m.ui, tick), ..m };
    assert(m.joined(tick) == j);
    let o = m.answered(Ask::SendWheel { node, start, scrolled, viewport }, Reply::Tick(tick));
    assert(o.agenda =~= after_wheel(j, scrolled, viewport).agenda);
}

/// The hover state is where the pointer is once the document has moved it, and
/// the move that follows knows whether the document saw a change or the node is
/// another.
pub proof fn law_hover_follows_the_pointer(
    m: Model,
    from: Option<usize>,
    to: Option<usize>,
    saw: bool,
)
    ensures
        ({
            let n = m.answered(Ask::Hover { from, to }, Reply::Flag(saw));
            &&& n.ui.hovered == to
            &&& n.ui.active == if m.ui.active == to {
                to
            } else {
                None
            }
            &&& n.agenda == m.agenda + seq![
                Ask::Proceed { stage: Next::EndMove { hover_changed: saw || from != to } },
            ] + crate::dispatch_laws::moved_told(to) + (if from != to {
                crate::dispatch_laws::entered_told(from, to) + crate::dispatch_laws::left_told(from, to)
            } else {
                seq![]
            }) + crate::dispatch_laws::released_told(m.ui.active, to)
            &&& n.inputs == m.inputs
            &&& n.selects == m.selects
        }),
{
    reveal(Model::hover_moved);
    crate::dispatch_laws::law_hover_events_come_in_order(m, from, to, saw);
    let n = m.answered(Ask::Hover { from, to }, Reply::Flag(saw));
    assert(n.agenda =~= m.agenda + seq![
        Ask::Proceed { stage: Next::EndMove { hover_changed: saw || from != to } },
    ] + crate::dispatch_laws::moved_told(to) + (if from != to {
        crate::dispatch_laws::entered_told(from, to) + crate::dispatch_laws::left_told(from, to)
    } else {
        seq![]
    }) + crate::dispatch_laws::released_told(m.ui.active, to));
}

/// An answer that does not belong to a question stands for "nothing": nothing was
/// hit or found, nothing changed, no number came, and no finger left a fling.
pub proof fn law_foreign_answers_stand_for_nothing(m: Model, ask: Ask, reply: Reply, none: Reply)
    requires
        match ask {
            Ask::HitTest { .. } => reply !is Hit && none == Reply::Hit(Hit::Nothing),
            Ask::Spinner => reply !is Spinner && none == Reply::Spinner(None),
            Ask::Scrollbar => reply !is Scrollbar && none == Reply::Scrollbar(
                ScrollbarHit::Nothing,
            ),
            Ask::RangeText { .. } | Ask::StepText { .. } | Ask::ExtremeText { .. }
            | Ask::ClampText { .. } => reply !is Text && none == Reply::Text(None),
            Ask::Hover { .. } | Ask::IsButton { .. } | Ask::Overlay { .. } | Ask::TrackMove { .. }
            | Ask::Blink => reply !is Flag && none == Reply::Flag(false),
            Ask::FindHandler { .. } | Ask::Owner { .. } => reply !is Node && none == Reply::Node(
                None,
            ),
            Ask::Send { .. } | Ask::SendInput { .. } | Ask::SendChange { .. } | Ask::SendKey { .. }
            | Ask::SendWheel { .. } | Ask::SendScroll { .. } | Ask::Blur { .. } | Ask::Focus { .. }
            | Ask::RunJobs | Ask::SendRuntime => reply !is Tick && none == Reply::Tick(
                TickResult { needs_paint: false, jobs_pending: false },
            ),
            Ask::ScrollBy { .. } => reply !is Scrolled && none == (Reply::Scrolled {
                node: None,
                viewport: false,
            }),
            Ask::Lift { .. } => reply !is Release && none == Reply::Release(
                Release::Pan { coasting: false },
            ),
            Ask::Coast { .. } => reply !is Coast && none == (Reply::Coast {
                scrolled: false,
                alive: false,
            }),
            _ => none == reply,
        },
    ensures
        m.answered(ask, reply) == m.answered(ask, none),
{
}

/// An answer without a path or images to a question for them stands for an empty
/// one.
pub proof fn law_missing_lists_are_empty(m: Model, backwards: bool, reply: Reply)
    requires
        reply !is Path,
        reply !is Images,
    ensures
        m.answered(Ask::TabOrder { backwards }, reply) == m,
        m.answered(Ask::Images, reply) == m,
{
}

} // verus!
