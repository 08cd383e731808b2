//! The causal order of events: who is an ancestor of whom.

use super::{known, Service};
use crate::text::{distinct_of, distinct_of_facts};
use vstd::prelude::*;

verus! {

/// The parents that each known event names.
pub type Parents = Map<Seq<char>, Seq<Seq<char>>>;

/// The parents that each event known to `service` names.
pub open spec fn parents_known_to(service: &Service) -> Parents {
    Map::new(
        |e: Seq<char>|
            known(service.stored(), service.positions(), service.outliers(), e) matches Ok(Some(_)),
        |e: Seq<char>|
            known(
                service.stored(),
                service.positions(),
                service.outliers(),
                e,
            ).unwrap().unwrap().0.prev_events,
    )
}

/// `child` names `parent` as one of its parents.
pub open spec fn is_parent(g: Parents, parent: Seq<char>, child: Seq<char>) -> bool {
    g.contains_key(child) && g[child].contains(parent)
}

/// The event at index `k + 1` of `path` is a parent of the one at index `k`.
pub open spec fn step(g: Parents, path: Seq<Seq<char>>, k: int) -> bool {
    is_parent(g, path[k + 1], path[k])
}

/// `path` leads from an event to one of its ancestors, from child to parent
/// at every step.
pub open spec fn descends(g: Parents, path: Seq<Seq<char>>) -> bool {
    path.len() >= 2 && forall|k: int| 0 <= k < path.len() - 1 ==> #[trigger] step(g, path, k)
}

/// `a` is a causal ancestor of `b`: some path leads from `b` to `a`.
pub open spec fn is_ancestor(g: Parents, a: Seq<char>, b: Seq<char>) -> bool {
    exists|path: Seq<Seq<char>>|
        #[trigger] descends(g, path) && path.first() == b && path.last() == a
}

/// No known event names `e` as a parent.
pub open spec fn childless(g: Parents, e: Seq<char>) -> bool {
    forall|child: Seq<char>| !is_parent(g, e, child)
}

/// No event of the list is a causal ancestor of another event of the list.
pub open spec fn unrelated(g: Parents, leaves: Seq<Seq<char>>) -> bool {
    forall|i: int, j: int|
        0 <= i < leaves.len() && 0 <= j < leaves.len() && i != j ==> !is_ancestor(
            g,
            leaves[i],
            leaves[j],
        )
}

/// Every ancestor has a child.
pub proof fn ancestor_has_child(g: Parents, a: Seq<char>, b: Seq<char>)
    requires
        is_ancestor(g, a, b),
    ensures
        !childless(g, a),
{
    let path = choose|path: Seq<Seq<char>>|
        #[trigger] descends(g, path) && path.first() == b && path.last() == a;
    assert(step(g, path, path.len() - 2));
    assert(is_parent(g, a, path[path.len() - 2]));
}

/// Events without a known child, which is what forward extremities are,
/// are pairwise no ancestors of each other.
pub proof fn childless_events_are_unrelated(g: Parents, leaves: Seq<Seq<char>>)
    requires
        forall|i: int| 0 <= i < leaves.len() ==> childless(g, #[trigger] leaves[i]),
    ensures
        unrelated(g, leaves),
{
    assert forall|i: int, j: int|
        0 <= i < leaves.len() && 0 <= j < leaves.len() && i != j implies !is_ancestor(
        g,
        leaves[i],
        leaves[j],
    ) by {
        if is_ancestor(g, leaves[i], leaves[j]) {
            ancestor_has_child(g, leaves[i], leaves[j]);
        }
    }
}

/// A room whose only forward extremity is the event just appended to it,
/// as after every local append, has extremities that are pairwise no
/// ancestors of each other.
pub proof fn single_extremity_is_unrelated(g: Parents, event_id: Seq<char>)
    ensures
        unrelated(g, seq![event_id]),
{
}

/// After an event without a known child was added to the graph, the
/// extremities that it did not name as parents, together with the event,
/// are childless again if they were before.
pub proof fn extremities_after_append(
    g: Parents,
    leaves: Seq<Seq<char>>,
    event_id: Seq<char>,
    prev_events: Seq<Seq<char>>,
)
    requires
        forall|i: int| 0 <= i < leaves.len() ==> childless(g, #[trigger] leaves[i]),
        childless(g, event_id),
        !prev_events.contains(event_id),
    ensures
        forall|i: int|
            0 <= i < leaves.len() && !prev_events.contains(#[trigger] leaves[i]) ==> childless(
                g.insert(event_id, prev_events),
                leaves[i],
            ),
        childless(g.insert(event_id, prev_events), event_id),
{
    let h = g.insert(event_id, prev_events);
    assert forall|i: int|
        0 <= i < leaves.len() && !prev_events.contains(#[trigger] leaves[i]) implies childless(
        h,
        leaves[i],
    ) by {
        assert forall|child: Seq<char>| !is_parent(h, leaves[i], child) by {
            if child != event_id {
                assert(!is_parent(g, leaves[i], child));
            }
        }
    }
    assert forall|child: Seq<char>| !is_parent(h, event_id, child) by {
        if child != event_id {
            assert(!is_parent(g, event_id, child));
        }
    }
}


/// Keeping each event of a list once leaves the list unrelated if it was.
pub proof fn unrelated_when_kept_once(g: Parents, leaves: Seq<Seq<char>>)
    requires
        unrelated(g, leaves),
    ensures
        unrelated(g, distinct_of(leaves)),
{
    let d = distinct_of(leaves);
    distinct_of_facts(leaves);
    assert forall|i: int, j: int| 0 <= i < d.len() && 0 <= j < d.len() && i != j implies !is_ancestor(
        g,
        d[i],
        d[j],
    ) by {
        assert(d.to_set().contains(d[i]));
        assert(d.to_set().contains(d[j]));
        assert(leaves.to_set().contains(d[i]));
        assert(leaves.to_set().contains(d[j]));
        let a = choose|a: int| 0 <= a < leaves.len() && leaves[a] == d[i];
        let b = choose|b: int| 0 <= b < leaves.len() && leaves[b] == d[j];
        assert(d[i] != d[j]);
        assert(a != b);
    }
}

} // verus!
