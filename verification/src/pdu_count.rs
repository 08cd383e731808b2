//! Storage positions of events within a room's timeline.
//!
//! Live events take ascending counter values; events fetched as older history
//! take counter values too, but sort the other way round and below every live
//! event, so history can be prepended without renumbering.

use std::cmp::Ordering;
use vstd::prelude::*;

verus! {

/// Position of an event in a room's timeline.
#[derive(Clone, Copy, Debug, PartialEq, Eq, Hash, Structural)]
pub enum PduCount {
    /// A prepended historical event; a larger counter is an earlier position.
    Backfilled(u64),
    /// A live event; a larger counter is a later position.
    Normal(u64),
}

impl PduCount {
    /// Where the position lies on one ascending line of integers: live
    /// positions at their counter, historical ones mirrored below zero.
    pub open spec fn rank(self) -> int {
        match self {
            PduCount::Backfilled(n) => -n - 1,
            PduCount::Normal(n) => n as int,
        }
    }

    /// The raw counter value, whichever way it sorts.
    pub open spec fn raw(self) -> u64 {
        match self {
            PduCount::Backfilled(n) => n,
            PduCount::Normal(n) => n,
        }
    }

    /// `self` is strictly earlier than `other`.
    pub open spec fn is_before(self, other: PduCount) -> bool {
        self.rank() < other.rank()
    }

    /// The earliest position there is.
    pub fn min() -> (r: PduCount)
        ensures
            r == PduCount::Backfilled(u64::MAX),
            forall|c: PduCount| r.rank() <= c.rank(),
    {
        PduCount::Backfilled(u64::MAX)
    }

    /// The latest position there is.
    pub fn max() -> (r: PduCount)
        ensures
            r == PduCount::Normal(u64::MAX),
            forall|c: PduCount| c.rank() <= r.rank(),
    {
        PduCount::Normal(u64::MAX)
    }

    /// The raw counter value, whichever way it sorts.
    pub fn counter(&self) -> (r: u64)
        ensures
            r == self.raw(),
    {
        match self {
            PduCount::Backfilled(n) => *n,
            PduCount::Normal(n) => *n,
        }
    }

    /// Whether this is the position of a prepended historical event.
    pub fn is_backfilled(&self) -> (r: bool)
        ensures
            r == (*self matches PduCount::Backfilled(_)),
    {
        match self {
            PduCount::Backfilled(_) => true,
            PduCount::Normal(_) => false,
        }
    }
}

/// The three-way comparison of two positions.
pub open spec fn compare(a: PduCount, b: PduCount) -> Ordering {
    if a.rank() < b.rank() {
        Ordering::Less
    } else if a.rank() == b.rank() {
        Ordering::Equal
    } else {
        Ordering::Greater
    }
}

impl PartialOrd for PduCount {
    fn partial_cmp(&self, other: &Self) -> (r: Option<Ordering>) {
        let o = match (self, other) {
            (PduCount::Normal(s), PduCount::Normal(o)) => {
                if *s < *o {
                    Ordering::Less
                } else if *s == *o {
                    Ordering::Equal
                } else {
                    Ordering::Greater
                }
            },
            (PduCount::Backfilled(s), PduCount::Backfilled(o)) => {
                if *o < *s {
                    Ordering::Less
                } else if *s == *o {
                    Ordering::Equal
                } else {
                    Ordering::Greater
                }
            },
            (PduCount::Normal(_), PduCount::Backfilled(_)) => Ordering::Greater,
            (PduCount::Backfilled(_), PduCount::Normal(_)) => Ordering::Less,
        };
        Some(o)
    }
}

impl vstd::std_specs::cmp::PartialOrdSpecImpl for PduCount {
    open spec fn obeys_partial_cmp_spec() -> bool {
        true
    }

    open spec fn partial_cmp_spec(&self, other: &PduCount) -> Option<Ordering> {
        Some(compare(*self, *other))
    }
}

/// Every live position is later than every historical one; live positions
/// follow their counters; historical positions follow them in reverse.
pub proof fn kinds_are_ordered(n: u64, m: u64)
    ensures
        compare(PduCount::Normal(n), PduCount::Backfilled(m)) == Ordering::Greater,
        compare(PduCount::Backfilled(m), PduCount::Normal(n)) == Ordering::Less,
        compare(PduCount::Normal(n), PduCount::Normal(m)) == Ordering::Less <==> n < m,
        compare(PduCount::Normal(n), PduCount::Normal(m)) == Ordering::Equal <==> n == m,
        compare(PduCount::Normal(n), PduCount::Normal(m)) == Ordering::Greater <==> n > m,
        compare(PduCount::Backfilled(n), PduCount::Backfilled(m)) == Ordering::Less <==> n > m,
        compare(PduCount::Backfilled(n), PduCount::Backfilled(m)) == Ordering::Equal <==> n == m,
        compare(PduCount::Backfilled(n), PduCount::Backfilled(m)) == Ordering::Greater <==> n < m,
{
}

/// The comparison is a strict total order: two positions compare equal only
/// when they are the same, swapping the sides swaps the answer, and
/// "earlier than" carries over a middle position.
pub proof fn order_is_total(a: PduCount, b: PduCount, c: PduCount)
    ensures
        compare(a, b) == Ordering::Equal <==> a == b,
        compare(a, b) == Ordering::Less <==> compare(b, a) == Ordering::Greater,
        a.is_before(b) <==> compare(a, b) == Ordering::Less,
        a.is_before(b) && b.is_before(c) ==> a.is_before(c),
        a.is_before(b) || a == b || b.is_before(a),
{
}

} // verus!
