//! Tables of the controls of a document, by node.

use std::collections::HashMap;
use vstd::prelude::*;

verus! {

/// The keys of a table, each once, in an order that the table chooses.
pub fn ids_of<V>(table: &HashMap<usize, V>) -> (res: Vec<usize>)
    ensures
        res@.no_duplicates(),
        forall|id: usize| res@.contains(id) <==> table@.contains_key(id),
{
    let mut res: Vec<usize> = Vec::new();
    let ghost all = vstd::std_specs::iter::IteratorSpec::remaining(&table.keys()).unref();
    for id in it: table.keys()
        invariant
            it.seq().no_duplicates(),
            it.seq().unref() == all,
            it.seq().len() == all.len(),
            all.to_set() == table@.dom(),
            res@ == all.take(it.index()),
    {
        res.push(*id);
    }
    assert(res@ =~= all);
    assert forall|id: usize| res@.contains(id) <==> table@.contains_key(id) by {
        assert(res@.to_set().contains(id) <==> res@.contains(id));
    }
    res
}

} // verus!
