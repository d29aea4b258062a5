//! Every dispatch ends.

use crate::events::TickResult;
use crate::plan::Model;
use crate::protocol::{
    Ask, EventName, GestureMode, Hit, ImgEvent, KeyTail, Lookup, Motion, MouseEvent, Next, Probe,
    Purpose, Release, Reply, ScrollbarHit,
};
use vstd::prelude::*;

verus! {

/// How many rounds of answers may follow when the instance goes on.
pub open spec fn next_rank(next: Next) -> nat {
    match next {
        Next::EndMove { .. } | Next::Scrolled | Next::EndTick => 0,
        Next::KeyFocused { .. } => 1,
        Next::KeySent { .. } | Next::Pressed { .. } => 2,
        Next::Release => 3,
    }
}

/// How many rounds of answers may follow a search for a handler.
pub open spec fn lookup_rank(event: EventName, lookup: Lookup) -> nat {
    match lookup {
        Lookup::Deliver | Lookup::DeliverAndMark => 1,
        Lookup::Wheel { .. } => 2,
        Lookup::FocusTarget { .. } => if event is Focus {
            4
        } else {
            3
        },
        Lookup::Touch { .. } => match event {
            EventName::Click => 12,
            EventName::KeyDown => 11,
            _ => 10,
        },
    }
}

/// How many rounds of answers may follow a hit test.
pub open spec fn probe_rank(probe: Probe) -> nat {
    match probe {
        Probe::Hover | Probe::Plain { .. } => 2,
        Probe::Wheel => 4,
        Probe::Target => 5,
        Probe::Press => 7,
        Probe::Touch { .. } => 13,
    }
}

/// How many rounds of answers may follow the answer to `ask`.
pub open spec fn rank(ask: Ask) -> nat {
    match ask {
        Ask::Proceed { stage } => next_rank(stage),
        Ask::FindHandler { event, lookup, .. } => lookup_rank(event, lookup),
        Ask::HitTest { probe } => probe_rank(probe),
        Ask::Blur { .. } | Ask::Images | Ask::Hover { .. } | Ask::TrackMove { .. }
        | Ask::RangeText { .. } | Ask::ClampText { .. } | Ask::SendWheel { .. } => 1,
        Ask::StepText { purpose, .. } => match purpose {
            Purpose::Press => 1,
            Purpose::Key { .. } => 5,
        },
        Ask::TabOrder { .. } => 2,
        Ask::IsButton { .. } | Ask::ScrollBy { .. } => 3,
        Ask::SendKey { .. } => 4,
        Ask::ExtremeText { .. } | Ask::RadioOrder { .. } => 5,
        Ask::Owner { .. } => 6,
        Ask::Scrollbar => 8,
        Ask::Spinner => 9,
        Ask::Lift { .. } => 10,
        Ask::Overlay { .. } => 14,
        _ => 0,
    }
}

/// An agenda holds what `base` does, and behind it only what is of a rank
/// below `r`.
#[verifier::opaque]
pub open spec fn adds_below(base: Seq<Ask>, agenda: Seq<Ask>, r: nat) -> bool {
    &&& base.is_prefix_of(agenda)
    &&& forall|i: int| base.len() <= i < agenda.len() ==> rank(#[trigger] agenda[i]) < r
}

broadcast proof fn lemma_push(base: Seq<Ask>, agenda: Seq<Ask>, ask: Ask, r: nat)
    requires
        adds_below(base, agenda, r),
        rank(ask) < r,
    ensures
        #[trigger] adds_below(base, agenda.push(ask), r),
{
    reveal(adds_below);
    assert(base =~= agenda.push(ask).subrange(0, base.len() as int));
}

proof fn lemma_nothing_added(base: Seq<Ask>, r: nat)
    ensures
        adds_below(base, base, r),
{
    reveal(adds_below);
    assert(base =~= base.subrange(0, base.len() as int));
}

proof fn lemma_focusing_on(base: Seq<Ask>, m: Model, node: usize, r: nat)
    requires
        adds_below(base, m.agenda, r),
        r >= 1,
    ensures
        adds_below(base, m.focusing_on(node).agenda, r),
{
    broadcast use lemma_push;

    reveal(Model::focusing_on);
}

proof fn lemma_focusing(base: Seq<Ask>, m: Model, next: Option<usize>, r: nat)
    requires
        adds_below(base, m.agenda, r),
        r >= 2,
    ensures
        adds_below(base, m.focusing(next).agenda, r),
{
    broadcast use lemma_push;

    reveal(Model::focusing);
    let n = Model { ui: crate::plan::Ui { focus_paint: false, ..m.ui }, ..m };
    if let Some(node) = next {
        lemma_focusing_on(base, n, node, r);
    }
}

proof fn lemma_blurred(
    base: Seq<Ask>,
    m: Model,
    previous: usize,
    next: Option<usize>,
    tick: TickResult,
    r: nat,
)
    requires
        adds_below(base, m.agenda, r),
        r >= 1,
    ensures
        adds_below(base, m.blurred(previous, next, tick).agenda, r),
{
    broadcast use lemma_push;

    reveal(Model::blurred);
    let n = m.focus_event_sent(tick);
    let n = Model { ui: crate::plan::Ui { focused: None, ..n.ui }, ..n };
    if let Some(node) = next {
        lemma_focusing_on(base, n, node, r);
    }
}

proof fn lemma_pointer(base: Seq<Ask>, m: Model, event: MouseEvent, r: nat)
    requires
        adds_below(base, m.agenda, r),
        r >= match event {
            MouseEvent::Move => 3nat,
            MouseEvent::Wheel => 5,
            MouseEvent::Down { .. } => 10,
            MouseEvent::Up { .. } => 3,
        },
    ensures
        adds_below(base, m.pointer(event).agenda, r),
{
    broadcast use lemma_push;

    reveal(Model::pointer);
}

proof fn lemma_touched(base: Seq<Ask>, m: Model, id: u64, mode: GestureMode, r: nat)
    requires
        adds_below(base, m.agenda, r),
        r >= 10,
    ensures
        adds_below(base, m.touched(id, mode).agenda, r),
{
    reveal(Model::touched);
    let touch = Some(crate::plan::ActiveTouch { id, mode });
    let n = Model { ui: crate::plan::Ui { touch, ..m.ui }, ..m };
    lemma_pointer(
        base,
        n,
        MouseEvent::Down { button: crate::protocol::MouseButton::Left },
        r,
    );
}

proof fn lemma_hit(base: Seq<Ask>, m: Model, probe: Probe, hit: Hit, r: nat)
    requires
        adds_below(base, m.agenda, r),
        r >= probe_rank(probe),
    ensures
        adds_below(base, m.hit(probe, hit).agenda, r),
{
    broadcast use lemma_push;

    reveal(Model::hit);
    match probe {
        Probe::Hover => {
            reveal(Model::hover_hit);
        },
        Probe::Press => {
            reveal(Model::choice_pressed);
            reveal(Model::closing_others);
        },
        Probe::Target => {
            lemma_focusing(base, m, None, r);
        },
        Probe::Touch { id } => {
            lemma_touched(base, m, id, GestureMode::Pan { node: m.ui.container }, r);
            lemma_touched(base, m, id, GestureMode::Control, r);
        },
        _ => {},
    }
}

proof fn lemma_hover_moved(
    base: Seq<Ask>,
    m: Model,
    from: Option<usize>,
    to: Option<usize>,
    changed: bool,
)
    requires
        adds_below(base, m.agenda, 1),
    ensures
        adds_below(base, m.hover_moved(from, to, changed).agenda, 1),
{
    broadcast use lemma_push;

    reveal(Model::hover_moved);
}

proof fn lemma_pressing(base: Seq<Ask>, m: Model, hit: usize, focus: usize, r: nat)
    requires
        adds_below(base, m.agenda, r),
        r >= 3,
    ensures
        adds_below(base, m.pressing(hit, focus).agenda, r),
{
    broadcast use lemma_push;

    reveal(Model::pressing);
    let n = m.first(Ask::Proceed { stage: Next::Pressed { hit } });
    lemma_focusing(base, n, Some(focus), r);
}

proof fn lemma_wheeled(
    base: Seq<Ask>,
    m: Model,
    scrolled: Option<usize>,
    viewport: bool,
    r: nat,
)
    requires
        adds_below(base, m.agenda, r),
        r >= 1,
    ensures
        adds_below(base, m.wheeled(scrolled, viewport).agenda, r),
{
    broadcast use lemma_push;

    reveal(Model::wheeled);
}

proof fn lemma_handler_found(
    base: Seq<Ask>,
    m: Model,
    node: usize,
    event: EventName,
    lookup: Lookup,
    handler: Option<usize>,
    r: nat,
)
    requires
        adds_below(base, m.agenda, r),
        r == lookup_rank(event, lookup),
    ensures
        adds_below(base, m.handler_found(node, event, lookup, handler).agenda, r),
{
    broadcast use lemma_push;

    reveal(Model::handler_found);
    match lookup {
        Lookup::FocusTarget { hit } => {
            lemma_pressing(base, m, hit, hit, r);
            if let Some(focus) = handler {
                lemma_pressing(base, m, hit, focus, r);
            }
        },
        Lookup::Wheel { scrolled, viewport, .. } => lemma_wheeled(base, m, scrolled, viewport, r),
        Lookup::Touch { id } => {
            lemma_touched(base, m, id, GestureMode::Pan { node }, r);
            lemma_touched(base, m, id, GestureMode::Control, r);
        },
        _ => {},
    }
}

proof fn lemma_pressed(base: Seq<Ask>, m: Model, hit: usize, r: nat)
    requires
        adds_below(base, m.agenda, r),
        r >= 2,
    ensures
        adds_below(base, m.pressed(hit).agenda, r),
{
    broadcast use lemma_push;

    reveal(Model::pressed);
    reveal(Model::check_clicked);
    reveal(Model::select_clicked);
}

proof fn lemma_key_focused(base: Seq<Ask>, m: Model, tail: KeyTail, r: nat)
    requires
        adds_below(base, m.agenda, r),
        r >= 1,
    ensures
        adds_below(base, m.key_focused(tail).agenda, r),
{
    broadcast use lemma_push;

    reveal(Model::key_focused);
}

proof fn lemma_key_sent(base: Seq<Ask>, m: Model, tail: KeyTail, r: nat)
    requires
        adds_below(base, m.agenda, r),
        r >= 2,
    ensures
        adds_below(base, m.key_sent(tail).agenda, r),
{
    broadcast use lemma_push;

    reveal(Model::key_sent);
    let n = if m.ui.result.needs_paint {
        m.marked()
    } else {
        m
    };
    match tail.target {
        Some(node) => {
            let o = n.first(Ask::Proceed { stage: Next::KeyFocused { tail } });
            lemma_focusing(base, o, Some(node), r);
        },
        None => lemma_key_focused(base, n, tail, r),
    }
}

proof fn lemma_numbers(
    base: Seq<Ask>,
    m: Model,
    node: usize,
    press: bool,
    emits: bool,
    number: Option<Seq<char>>,
    r: nat,
)
    requires
        adds_below(base, m.agenda, r),
        r >= 1,
    ensures
        adds_below(base, m.slid(node, press, number).agenda, r),
        adds_below(base, m.number_entered(node, number).agenda, r),
        adds_below(base, m.clamped(node, emits, number).agenda, r),
{
    broadcast use lemma_push;

    reveal(Model::slid);
    reveal(Model::number_entered);
    reveal(Model::clamped);
}

proof fn lemma_keys(
    base: Seq<Ask>,
    m: Model,
    node: usize,
    activate: bool,
    number: Option<Seq<char>>,
    motion: Motion,
    order: Seq<usize>,
    r: nat,
)
    requires
        adds_below(base, m.agenda, r),
        r >= 5,
    ensures
        adds_below(base, m.key_number(node, activate, number).agenda, r),
        adds_below(base, m.radio_moved(node, motion, activate, order).agenda, r),
{
    broadcast use lemma_push;

    reveal(Model::key_number);
    reveal(Model::radio_moved);
}

proof fn lemma_lifted(base: Seq<Ask>, m: Model, node: usize, release: Release, r: nat)
    requires
        adds_below(base, m.agenda, r),
        r >= 10,
    ensures
        adds_below(base, m.lifted(node, release).agenda, r),
{
    broadcast use lemma_push;

    reveal(Model::lifted);
    lemma_pointer(
        base,
        m.first(Ask::Proceed { stage: Next::Release }),
        MouseEvent::Down { button: crate::protocol::MouseButton::Left },
        r,
    );
}

proof fn lemma_telling_images(base: Seq<Ask>, m: Model, images: Seq<ImgEvent>, r: nat)
    requires
        adds_below(base, m.agenda, r),
        r >= 1,
    ensures
        adds_below(base, m.telling_images(images).agenda, r),
    decreases images.len(),
{
    broadcast use lemma_push;

    if images.len() > 0 {
        lemma_telling_images(base, m, images.skip(1), r);
    }
}

proof fn lemma_proceeded(base: Seq<Ask>, m: Model, next: Next, r: nat)
    requires
        adds_below(base, m.agenda, r),
        r == next_rank(next),
    ensures
        adds_below(base, m.proceeded(next).agenda, r),
{
    reveal(Model::proceeded);
    match next {
        Next::Pressed { hit } => lemma_pressed(base, m, hit, r),
        Next::KeySent { tail } => lemma_key_sent(base, m, tail, r),
        Next::KeyFocused { tail } => lemma_key_focused(base, m, tail, r),
        Next::Release => lemma_pointer(
            base,
            m,
            MouseEvent::Up { button: crate::protocol::MouseButton::Left },
            r,
        ),
        Next::EndTick => {
            reveal(Model::ticked);
        },
        _ => {},
    }
}

/// What an answer puts on the agenda is of a lower rank than what was
/// answered, whatever the answer.
pub proof fn law_answers_lead_downwards(m: Model, ask: Ask, reply: Reply)
    ensures
        adds_below(m.agenda, m.answered(ask, reply).agenda, rank(ask)),
{
    broadcast use lemma_push;

    let base = m.agenda;
    let r = rank(ask);
    lemma_nothing_added(base, r);
    match ask {
        Ask::HitTest { probe } => lemma_hit(base, m, probe, reply.hit(), r),
        Ask::Scrollbar => {
            reveal(Model::scrollbar_hit);
        },
        Ask::RangeText { node, press } => lemma_numbers(
            base,
            m,
            node,
            press,
            false,
            reply.text(),
            r,
        ),
        Ask::StepText { node, purpose, .. } => match purpose {
            Purpose::Press => lemma_numbers(base, m, node, false, false, reply.text(), r),
            Purpose::Key { activate } => lemma_keys(
                base,
                m,
                node,
                activate,
                reply.text(),
                Motion::First,
                seq![],
                r,
            ),
        },
        Ask::ExtremeText { node, activate, .. } => lemma_keys(
            base,
            m,
            node,
            activate,
            reply.text(),
            Motion::First,
            seq![],
            r,
        ),
        Ask::ClampText { node, emits } => lemma_numbers(
            base,
            m,
            node,
            false,
            emits,
            reply.text(),
            r,
        ),
        Ask::Hover { from, to } => lemma_hover_moved(base, m, from, to, reply.flag()),
        Ask::FindHandler { node, event, lookup } => lemma_handler_found(
            base,
            m,
            node,
            event,
            lookup,
            reply.node(),
            r,
        ),
        Ask::SendKey { tail, .. } => lemma_key_sent(base, m.joined(reply.tick()), tail, r),
        Ask::IsButton { tail } => lemma_key_sent(base, m, tail, r),
        Ask::SendWheel { scrolled, viewport, .. } => lemma_wheeled(
            base,
            m.joined(reply.tick()),
            scrolled,
            viewport,
            r,
        ),
        Ask::Blur { node, next } => lemma_blurred(base, m, node, next, reply.tick(), r),
        Ask::TabOrder { backwards } => {
            let n = m.joined(TickResult { needs_paint: true, jobs_pending: false });
            let next = crate::plan::next_in_order(reply.path(), m.ui.focused, backwards);
            lemma_focusing(base, n, next, r);
        },
        Ask::RadioOrder { node, motion, activate } => lemma_keys(
            base,
            m,
            node,
            activate,
            None,
            motion,
            reply.path(),
            r,
        ),
        Ask::Owner { .. } => {
            reveal(Model::closing_others);
        },
        Ask::Overlay { id } => lemma_touched(base, m, id, GestureMode::Control, r),
        Ask::Lift { node } => lemma_lifted(base, m, node, reply.release(), r),
        Ask::Images => lemma_telling_images(base, m, reply.images(), r),
        Ask::Proceed { stage } => lemma_proceeded(base, m, stage, r),
        _ => {},
    }
}

/// One agenda follows another: an instance in some state had the first, and
/// has the second once the host has answered.
pub open spec fn follows(agenda: Seq<Ask>, next: Seq<Ask>) -> bool {
    exists|m: Model, reply: Reply|
        m.agenda == agenda && #[trigger] m.stepped(reply).agenda == next
}

/// Agendas that follow one another. Between two of them the host may change
/// the rest of the state.
pub open spec fn agendas_of_a_run(run: spec_fn(nat) -> Seq<Ask>) -> bool {
    forall|k: nat| (#[trigger] run(k)).len() > 0 ==> follows(run(k), run(k + 1))
}

/// What was put on top of `base` is done with after some answers.
proof fn lemma_done_down_to(
    run: spec_fn(nat) -> Seq<Ask>,
    k: nat,
    base: Seq<Ask>,
    r: nat,
) -> (n: nat)
    requires
        agendas_of_a_run(run),
        adds_below(base, run(k), r),
    ensures
        run(n) == base,
    decreases r, run(k).len() - base.len(),
{
    reveal(adds_below);
    if run(k).len() == base.len() {
        assert(run(k) =~= base);
        k
    } else {
        let ask = run(k).last();
        let rest = run(k).drop_last();
        assert(rank(run(k)[run(k).len() - 1]) < r);
        assert(follows(run(k), run(k + 1)));
        let (m, reply) = choose|m: Model, reply: Reply|
            m.agenda == run(k) && #[trigger] m.stepped(reply).agenda == run(k + 1);
        law_answers_lead_downwards(Model { agenda: rest, ..m }, ask, reply);
        let done = lemma_done_down_to(run, k + 1, rest, rank(ask));
        assert(base =~= rest.subrange(0, base.len() as int));
        assert(adds_below(base, run(done), r));
        lemma_done_down_to(run, done, base, r)
    }
}

/// Every dispatch ends: whatever the host answers, and whatever else of the
/// state it changes in between, there comes an answer after which nothing is
/// due any more.
pub proof fn law_every_run_ends(run: spec_fn(nat) -> Seq<Ask>)
    requires
        agendas_of_a_run(run),
    ensures
        exists|n: nat| (#[trigger] run(n)).len() == 0,
{
    reveal(adds_below);
    let base = Seq::<Ask>::empty();
    assert(base =~= run(0).subrange(0, 0));
    assert forall|i: int| 0 <= i < run(0).len() implies rank(#[trigger] run(0)[i]) < 15 by {}
    let n = lemma_done_down_to(run, 0, base, 15);
    assert(run(n).len() == 0);
}

/// The instance after so many answers.
pub open spec fn after_answers(m: Model, replies: spec_fn(nat) -> Reply, n: nat) -> Model
    decreases n,
{
    if n == 0 {
        m
    } else {
        after_answers(m, replies, (n - 1) as nat).stepped(replies((n - 1) as nat))
    }
}

/// From any state, and so after any event, finitely many answers of the host
/// end the dispatch: [`Model::due`] says that it is done.
pub proof fn law_dispatches_end(m: Model, replies: spec_fn(nat) -> Reply)
    ensures
        exists|n: nat| (#[trigger] after_answers(m, replies, n)).due() is Done,
{
    let run = |k: nat| after_answers(m, replies, k).agenda;
    assert forall|k: nat| (#[trigger] run(k)).len() > 0 implies follows(run(k), run(k + 1)) by {
        let n = after_answers(m, replies, k);
        assert(n.stepped(replies(k)).agenda == run(k + 1));
    }
    law_every_run_ends(run);
    let n = choose|n: nat| (#[trigger] run(n)).len() == 0;
    assert(after_answers(m, replies, n).due() is Done);
}

} // verus!
