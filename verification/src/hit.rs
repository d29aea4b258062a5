//! What lies under a point of the document.

use vstd::prelude::*;

verus! {

/// A node with what a point hits of it, and the nodes painted within it, the
/// last on top.
#[derive(Debug)]
pub struct HitTree {
    pub id: usize,
    /// The point lies where the node or something within it may show.
    pub within_reach: bool,
    /// The point lies in the box of the node itself.
    pub within_box: bool,
    pub children: Vec<HitTree>,
}

/// The deepest node that is hit, of the first `n` nodes: that in the last
/// that has one.
pub open spec fn hit_among(nodes: Seq<HitTree>, n: int) -> Option<usize>
    decreases nodes, n,
{
    if 0 < n <= nodes.len() {
        match hit_in(nodes[n - 1]) {
            Some(id) => Some(id),
            None => hit_among(nodes, n - 1),
        }
    } else {
        None
    }
}

/// The deepest node that is hit: within what is painted on top, or else the
/// node itself.
pub open spec fn hit_in(node: HitTree) -> Option<usize>
    decreases node, 0int,
{
    if !node.within_reach {
        None
    } else {
        match hit_among(node.children@, node.children@.len() as int) {
            Some(id) => Some(id),
            None => if node.within_box {
                Some(node.id)
            } else {
                None
            },
        }
    }
}

/// The deepest node of a tree that is hit.
pub fn hit_visible_node_id(node: &HitTree) -> (res: Option<usize>)
    ensures
        res == hit_in(*node),
    decreases node,
{
    if !node.within_reach {
        return None;
    }
    let mut i: usize = node.children.len();
    while i > 0
        invariant
            i <= node.children.len(),
            node.within_reach,
            hit_among(node.children@, i as int) == hit_among(
                node.children@,
                node.children@.len() as int,
            ),
        decreases i,
    {
        i -= 1;
        let child = &node.children[i];
        let hit = hit_visible_node_id(child);
        if hit.is_some() {
            return hit;
        }
    }
    if node.within_box {
        Some(node.id)
    } else {
        None
    }
}

/// The popup of an open select, with what a point hits of it.
#[derive(Debug)]
pub struct PopupBox {
    pub root: usize,
    pub within: bool,
    /// The nodes of the options, and whether the point lies in them.
    pub options: Vec<(usize, bool)>,
}

/// The first option from `i` on that is hit.
pub open spec fn option_hit(options: Seq<(usize, bool)>, i: int) -> Option<usize>
    decreases options.len() - i,
{
    if 0 <= i < options.len() {
        if options[i].1 {
            Some(options[i].0)
        } else {
            option_hit(options, i + 1)
        }
    } else {
        None
    }
}

/// The first popup from `i` on that is hit: its option there, or else the
/// popup itself.
pub open spec fn popup_hit(popups: Seq<PopupBox>, i: int) -> Option<usize>
    decreases popups.len() - i,
{
    if 0 <= i < popups.len() {
        if popups[i].within {
            match option_hit(popups[i].options@, 0) {
                Some(id) => Some(id),
                None => Some(popups[i].root),
            }
        } else {
            popup_hit(popups, i + 1)
        }
    } else {
        None
    }
}

/// The node of a popup that is hit.
pub fn hit_popup_node(popups: &Vec<PopupBox>) -> (res: Option<usize>)
    ensures
        res == popup_hit(popups@, 0),
{
    let mut i: usize = 0;
    while i < popups.len()
        invariant
            i <= popups.len(),
            popup_hit(popups@, i as int) == popup_hit(popups@, 0),
        decreases popups.len() - i,
    {
        let popup = &popups[i];
        if popup.within {
            let mut j: usize = 0;
            while j < popup.options.len()
                invariant
                    i < popups.len(),
                    popup == &popups@[i as int],
                    popup.within,
                    popup_hit(popups@, i as int) == popup_hit(popups@, 0),
                    j <= popup.options.len(),
                    option_hit(popup.options@, j as int) == option_hit(popup.options@, 0),
                decreases popup.options.len() - j,
            {
                let option = popup.options[j];
                if option.1 {
                    return Some(option.0);
                }
                j += 1;
            }
            return Some(popup.root);
        }
        i += 1;
    }
    None
}

/// The node under a point. Popups lie on top of the document.
pub fn hit_node_id(popups: &Vec<PopupBox>, document: &HitTree) -> (res: Option<usize>)
    ensures
        res == match popup_hit(popups@, 0) {
            Some(id) => Some(id),
            None => hit_in(*document),
        },
{
    match hit_popup_node(popups) {
        Some(id) => Some(id),
        None => hit_visible_node_id(document),
    }
}

/// The length of what two paths from the root have in common, from `i` on.
pub open spec fn common_from(a: Seq<usize>, b: Seq<usize>, i: int) -> int
    decreases a.len() - i,
{
    if 0 <= i < a.len() && i < b.len() && a[i] == b[i] {
        common_from(a, b, i + 1)
    } else {
        i
    }
}

/// The nodes whose pressed state changes when it moves from one path to
/// another: those of the old path that leave it, and those of the new path
/// that enter it.
pub fn active_changes(old_path: &Vec<usize>, new_path: &Vec<usize>) -> (res: (
    Vec<usize>,
    Vec<usize>,
))
    ensures
        res.0@ == old_path@.skip(common_from(old_path@, new_path@, 0)),
        res.1@ == new_path@.skip(common_from(old_path@, new_path@, 0)),
{
    let mut same: usize = 0;
    while same < old_path.len() && same < new_path.len() && old_path[same] == new_path[same]
        invariant
            same <= old_path.len(),
            same <= new_path.len(),
            common_from(old_path@, new_path@, same as int) == common_from(
                old_path@,
                new_path@,
                0,
            ),
        decreases old_path.len() - same,
    {
        same += 1;
    }
    (rest(old_path, same), rest(new_path, same))
}

fn rest(path: &Vec<usize>, from: usize) -> (res: Vec<usize>)
    requires
        from <= path.len(),
    ensures
        res@ == path@.skip(from as int),
{
    let mut res: Vec<usize> = Vec::new();
    let mut i: usize = from;
    while i < path.len()
        invariant
            from <= i <= path.len(),
            res@ == path@.subrange(from as int, i as int),
        decreases path.len() - i,
    {
        res.push(path[i]);
        i += 1;
    }
    assert(res@ =~= path@.skip(from as int));
    res
}

/// The first node from `i` on whose scroll offset changed.
pub open spec fn changed_from(offsets: Seq<(usize, bool)>, i: int) -> Option<usize>
    decreases offsets.len() - i,
{
    if 0 <= i < offsets.len() {
        if offsets[i].1 {
            Some(offsets[i].0)
        } else {
            changed_from(offsets, i + 1)
        }
    } else {
        None
    }
}

/// The innermost node that scrolled: the first of the nodes, from the inside
/// out, whose offset changed.
pub fn scrolled_node(offsets: &Vec<(usize, bool)>) -> (res: Option<usize>)
    ensures
        res == changed_from(offsets@, 0),
{
    let mut i: usize = 0;
    while i < offsets.len()
        invariant
            i <= offsets.len(),
            changed_from(offsets@, i as int) == changed_from(offsets@, 0),
        decreases offsets.len() - i,
    {
        let one = offsets[i];
        if one.1 {
            return Some(one.0);
        }
        i += 1;
    }
    None
}

} // verus!
