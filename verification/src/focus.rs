//! Where the keyboard takes the focus.

use crate::input::InputRegistry;
use crate::protocol::Motion;
use crate::text;
use vstd::prelude::*;

verus! {

/// The first place of `id` in `order`.
pub fn position(order: &Vec<usize>, id: usize) -> (res: Option<usize>)
    ensures
        crate::select::index_view(res) == order@.index_of_first(id),
        res matches Some(at) ==> at < order.len() && order@[at as int] == id,
{
    proof {
        order@.index_of_first_ensures(id);
    }
    let mut i: usize = 0;
    while i < order.len()
        invariant
            i <= order.len(),
            forall|j: int| 0 <= j < i ==> order@[j] != id,
            match order@.index_of_first(id) {
                Some(index) => {
                    &&& 0 <= index < order@.len()
                    &&& order@[index] == id
                    &&& forall|j: int| 0 <= j < index ==> order@[j] != id
                },
                None => !order@.contains(id),
            },
        decreases order.len() - i,
    {
        if order[i] == id {
            assert(order@.contains(id));
            return Some(i);
        }
        i += 1;
    }
    None
}

/// The place before or behind `at` in a ring of `len`.
fn neighbour(at: usize, len: usize, backwards: bool) -> (res: usize)
    requires
        at < len,
    ensures
        res < len,
        res as int == if backwards {
            (at + len - 1) % (len as int)
        } else {
            (at + 1) % (len as int)
        },
{
    if backwards {
        let res: usize = if at > 0 {
            at - 1
        } else {
            len - 1
        };
        proof {
            if at > 0 {
                vstd::arithmetic::div_mod::lemma_mod_add_multiples_vanish(at - 1, len as int);
                vstd::arithmetic::div_mod::lemma_small_mod((at - 1) as nat, len as nat);
                assert(at + len - 1 == len + (at - 1));
            } else {
                vstd::arithmetic::div_mod::lemma_small_mod((len - 1) as nat, len as nat);
            }
        }
        res
    } else {
        let res: usize = if at + 1 < len {
            at + 1
        } else {
            0
        };
        proof {
            if at + 1 < len {
                vstd::arithmetic::div_mod::lemma_small_mod((at + 1) as nat, len as nat);
            } else {
                vstd::arithmetic::div_mod::lemma_mod_self_0(len as int);
            }
        }
        res
    }
}

/// The control that Tab goes to from the focused one.
pub fn next_control(order: &Vec<usize>, focused: Option<usize>, backwards: bool) -> (res: Option<
    usize,
>)
    ensures
        res == crate::plan::next_in_order(order@, focused, backwards),
{
    let len: usize = order.len();
    if len == 0 {
        return None;
    }
    let at = match focused {
        Some(id) => position(order, id),
        None => None,
    };
    let next: usize = match at {
        Some(current) => neighbour(current, len, backwards),
        None => if backwards {
            len - 1
        } else {
            0
        },
    };
    Some(order[next])
}

/// The radio button that a motion leads to from `node`.
pub fn radio_destination(
    inputs: &InputRegistry,
    order: &Vec<usize>,
    node: usize,
    motion: Motion,
) -> (res: Option<usize>)
    requires
        inputs@.contains_key(node),
    ensures
        res == crate::plan::radio_target(
            crate::keys::input_models(inputs@),
            order@,
            node,
            motion,
        ),
        res matches Some(to) ==> inputs@.contains_key(to),
{
    let ghost models = crate::keys::input_models(inputs@);
    let ghost reach = |k: usize| crate::plan::reachable_radio(models, node, k);
    let mut group: Vec<usize> = Vec::new();
    let name = match inputs.get(&node) {
        Some(state) => state.name(),
        None => None,
    };
    let mut i: usize = 0;
    assert(order@.take(0).filter(reach) =~= Seq::<usize>::empty()) by {
        reveal(Seq::filter);
    }
    while i < order.len()
        invariant
            i <= order.len(),
            models == crate::keys::input_models(inputs@),
            models.contains_key(node),
            reach == (|k: usize| crate::plan::reachable_radio(models, node, k)),
            crate::input::str_view(name) == models[node].name,
            group@ == order@.take(i as int).filter(reach),
            forall|j: int| 0 <= j < group.len() ==> models.contains_key(#[trigger] group@[j]),
        decreases order.len() - i,
    {
        let k: usize = order[i];
        let mut keep = false;
        if let Some(group_name) = name {
            if let Some(state) = inputs.get(&k) {
                if !state.disabled() && state.is_radio() {
                    if let Some(other) = state.name() {
                        keep = text::same(other, group_name);
                    }
                }
            }
        }
        assert(keep == reach(k));
        proof {
            assert(order@.take(i + 1) =~= order@.take(i as int).push(k));
            order@.take(i as int).lemma_filter_push(k, reach);
            reveal(Seq::filter);
            assert(order@.take(i + 1).drop_last() =~= order@.take(i as int));
        }
        if keep {
            group.push(k);
        }
        i += 1;
    }
    assert(order@.take(order.len() as int) =~= order@);
    let len: usize = group.len();
    match position(&group, node) {
        Some(at) => {
            let to: usize = match motion {
                Motion::Previous => group[neighbour(at, len, true)],
                Motion::Following => group[neighbour(at, len, false)],
                Motion::First => group[0],
                Motion::Last => group[len - 1],
            };
            if to == node {
                None
            } else {
                Some(to)
            }
        },
        None => None,
    }
}

/// An element of the document that may take the focus, in document order.
#[derive(Debug, Clone, Copy, PartialEq, Eq, Structural)]
pub struct TabCandidate {
    pub node: usize,
    /// Its kind takes the focus by default.
    pub focusable: bool,
    pub disabled: bool,
    /// The number that its `tabindex` attribute gives.
    pub tabindex: Option<i32>,
}

impl TabCandidate {
    /// Tab stops here.
    pub open spec fn stops(self) -> bool {
        !self.disabled && match self.tabindex {
            Some(index) => index >= 0,
            None => self.focusable,
        }
    }

    /// Where Tab stops here: numbers above zero come first, from the lowest
    /// up, and then all others.
    pub open spec fn rank(self) -> int {
        match self.tabindex {
            Some(index) => if index > 0 {
                index as int
            } else {
                i32::MAX + 1
            },
            None => i32::MAX + 1,
        }
    }

    fn is_stop(&self) -> (res: bool)
        ensures
            res == self.stops(),
    {
        !self.disabled && match self.tabindex {
            Some(index) => index >= 0,
            None => self.focusable,
        }
    }

    fn order(&self) -> (res: i64)
        ensures
            res == self.rank(),
    {
        match self.tabindex {
            Some(index) => if index > 0 {
                index as i64
            } else {
                2147483648
            },
            None => 2147483648,
        }
    }
}

/// Tab visits the candidate at place `a` before that at place `b`.
pub open spec fn visited_before(candidates: Seq<TabCandidate>, a: int, b: int) -> bool {
    candidates[a].rank() < candidates[b].rank() || (candidates[a].rank() == candidates[b].rank()
        && a < b)
}

/// `places` are the places of the candidates, of the first `n`, at which Tab
/// stops, in the order in which it visits them.
pub open spec fn tab_places(candidates: Seq<TabCandidate>, n: int, places: Seq<usize>) -> bool {
    &&& forall|i: int|
        0 <= i < places.len() ==> (#[trigger] places[i]) < n && candidates[places[i] as int].stops()
    &&& forall|k: int|
        0 <= k < n && (#[trigger] candidates[k]).stops() ==> places.contains(k as usize)
    &&& forall|i: int, j: int|
        0 <= i < j < places.len() ==> visited_before(
            candidates,
            #[trigger] places[i] as int,
            #[trigger] places[j] as int,
        )
}

fn tab_positions(candidates: &Vec<TabCandidate>) -> (res: Vec<usize>)
    ensures
        tab_places(candidates@, candidates.len() as int, res@),
{
    let mut places: Vec<usize> = Vec::new();
    let mut k: usize = 0;
    while k < candidates.len()
        invariant
            k <= candidates.len(),
            tab_places(candidates@, k as int, places@),
        decreases candidates.len() - k,
    {
        let ghost before = places@;
        if candidates[k].is_stop() {
            let rank: i64 = candidates[k].order();
            let mut at: usize = 0;
            while at < places.len() && candidates[places[at]].order() <= rank
                invariant
                    at <= places.len(),
                    k < candidates.len(),
                    places@ == before,
                    tab_places(candidates@, k as int, before),
                    rank == candidates@[k as int].rank(),
                    forall|i: int|
                        0 <= i < at ==> candidates@[(#[trigger] places@[i]) as int].rank() <= rank,
                decreases places.len() - at,
            {
                at += 1;
            }
            places.insert(at, k);
            proof {
                assert(places@ =~= before.insert(at as int, k));
                assert forall|i: int, j: int| 0 <= i < j < places.len() implies visited_before(
                    candidates@,
                    #[trigger] places@[i] as int,
                    #[trigger] places@[j] as int,
                ) by {
                    let old_i = if i < at { i } else { i - 1 };
                    let old_j = if j < at { j } else { j - 1 };
                    if i == at {
                        assert(places@[j] == before[old_j]);
                        if at < before.len() && old_j != at {
                            assert(visited_before(
                                candidates@,
                                before[at as int] as int,
                                before[old_j] as int,
                            ));
                        }
                    } else if j == at {
                        assert(places@[i] == before[i]);
                    } else {
                        assert(places@[i] == before[old_i]);
                        assert(places@[j] == before[old_j]);
                        assert(visited_before(
                            candidates@,
                            before[old_i] as int,
                            before[old_j] as int,
                        ));
                    }
                }
                assert forall|i: int| 0 <= i < places.len() implies (#[trigger] places@[i]) < k + 1
                    && candidates@[places@[i] as int].stops() by {
                    if i < at {
                        assert(places@[i] == before[i]);
                    } else if i > at {
                        assert(places@[i] == before[i - 1]);
                    }
                }
                assert forall|c: int|
                    0 <= c < k + 1 && (#[trigger] candidates@[c]).stops() implies places@.contains(
                    c as usize,
                ) by {
                    if c == k {
                        assert(places@[at as int] == k);
                    } else {
                        assert(before.contains(c as usize));
                        let i = choose|i: int| 0 <= i < before.len() && before[i] == c as usize;
                        if i < at {
                            assert(places@[i] == c as usize);
                        } else {
                            assert(places@[i + 1] == c as usize);
                        }
                    }
                }
            }
        }
        k += 1;
    }
    places
}

/// The nodes that Tab visits, in order: those with a `tabindex` above zero
/// first, from the lowest up, then the others as they come in the document.
/// Disabled elements and those with a negative `tabindex` are left out, and so
/// are those that neither take the focus by default nor have a `tabindex`.
pub fn collect_tab_order(candidates: &Vec<TabCandidate>) -> (res: Vec<usize>)
    ensures
        exists|places: Seq<usize>|
            #![trigger tab_places(candidates@, candidates.len() as int, places)]
            {
                &&& tab_places(candidates@, candidates.len() as int, places)
                &&& res@ == Seq::new(places.len(), |i: int| candidates@[places[i] as int].node)
            },
{
    let places = tab_positions(candidates);
    let mut res: Vec<usize> = Vec::new();
    let mut i: usize = 0;
    while i < places.len()
        invariant
            i <= places.len(),
            tab_places(candidates@, candidates.len() as int, places@),
            res@ =~= Seq::new(i as nat, |j: int| candidates@[places@[j] as int].node),
        decreases places.len() - i,
    {
        res.push(candidates[places[i]].node);
        i += 1;
    }
    res
}

/// The elements that take the focus by default: inputs, selects, buttons, and
/// anchors with an address.
pub open spec fn focusable_by_default(tag: Seq<char>, has_href: bool) -> bool {
    tag == "input"@ || tag == "select"@ || tag == "button"@ || (tag == "a"@ && has_href)
}

/// Whether an element takes the focus by default.
pub fn is_focusable_by_default(tag: &str, has_href: bool) -> (res: bool)
    ensures
        res == focusable_by_default(tag@, has_href),
{
    text::same(tag, "input") || text::same(tag, "select") || text::same(tag, "button") || (
    text::same(tag, "a") && has_href)
}

/// Whether an element is a button.
pub fn is_button(tag: &str) -> (res: bool)
    ensures
        res == (tag@ == "button"@),
{
    text::same(tag, "button")
}

/// The place in the order of Tab that an attribute gives: the whole number
/// that it denotes, white space at either end aside, where that fits.
pub fn parse_tabindex(value: &str) -> (res: Option<i32>)
    ensures
        match text::whole_number(text::trimmed(value@)) {
            Some(n) => if i32::MIN <= n <= i32::MAX {
                res matches Some(place) && place == n
            } else {
                res is None
            },
            None => res is None,
        },
{
    text::parse_whole_number(text::trim(value))
}

/// There is one order in which Tab visits the candidates.
pub proof fn law_tab_order_is_unique(
    candidates: Seq<TabCandidate>,
    n: int,
    a: Seq<usize>,
    b: Seq<usize>,
)
    requires
        0 <= n <= candidates.len(),
        n <= usize::MAX,
        tab_places(candidates, n, a),
        tab_places(candidates, n, b),
    ensures
        a == b,
    decreases a.len(),
{
    lemma_no_stop_twice(candidates, n, a);
    lemma_no_stop_twice(candidates, n, b);
    assert forall|x: usize| a.contains(x) <==> b.contains(x) by {
        if a.contains(x) {
            let i = choose|i: int| 0 <= i < a.len() && a[i] == x;
            assert(candidates[a[i] as int].stops());
            assert(b.contains(x));
        }
        if b.contains(x) {
            let i = choose|i: int| 0 <= i < b.len() && b[i] == x;
            assert(candidates[b[i] as int].stops());
            assert(a.contains(x));
        }
    }
    assert(a.to_set() =~= b.to_set()) by {
        assert forall|x: usize| a.to_set().contains(x) <==> b.to_set().contains(x) by {
            assert(a.to_set().contains(x) <==> a.contains(x));
            assert(b.to_set().contains(x) <==> b.contains(x));
        }
    }
    a.unique_seq_to_set();
    b.unique_seq_to_set();
    lemma_same_order(candidates, a, b, a.len() as int);
    assert(a =~= b);
}

proof fn lemma_no_stop_twice(candidates: Seq<TabCandidate>, n: int, a: Seq<usize>)
    requires
        tab_places(candidates, n, a),
    ensures
        a.no_duplicates(),
{
    assert forall|i: int, j: int| 0 <= i < a.len() && 0 <= j < a.len() && i != j implies a[i]
        != a[j] by {
        if i < j {
            assert(visited_before(candidates, a[i] as int, a[j] as int));
        } else {
            assert(visited_before(candidates, a[j] as int, a[i] as int));
        }
    }
}

/// Two strictly ordered sequences of the same elements agree from the front.
proof fn lemma_same_order(candidates: Seq<TabCandidate>, a: Seq<usize>, b: Seq<usize>, n: int)
    requires
        0 <= n <= a.len(),
        a.len() == b.len(),
        forall|x: usize| a.contains(x) <==> b.contains(x),
        forall|i: int, j: int|
            0 <= i < j < a.len() ==> visited_before(
                candidates,
                #[trigger] a[i] as int,
                #[trigger] a[j] as int,
            ),
        forall|i: int, j: int|
            0 <= i < j < b.len() ==> visited_before(
                candidates,
                #[trigger] b[i] as int,
                #[trigger] b[j] as int,
            ),
    ensures
        forall|i: int| 0 <= i < n ==> a[i] == b[i],
    decreases n,
{
    if n > 0 {
        lemma_same_order(candidates, a, b, n - 1);
        let i = n - 1;
        assert(a.contains(a[i]));
        assert(b.contains(b[i]));
        let p = choose|p: int| 0 <= p < b.len() && b[p] == a[i];
        let q = choose|q: int| 0 <= q < a.len() && a[q] == b[i];
        if p < i {
            assert(a[p] == b[p]);
            assert(visited_before(candidates, a[p] as int, a[i] as int));
        }
        if q < i {
            assert(a[q] == b[q]);
            assert(visited_before(candidates, b[q] as int, b[i] as int));
        }
        if p > i && q > i {
            assert(visited_before(candidates, b[i] as int, b[p] as int));
            assert(visited_before(candidates, a[i] as int, a[q] as int));
        }
    }
}

} // verus!
