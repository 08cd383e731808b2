//! The timeline store: the events of every room under their positions.

use crate::error::{Error, ErrorKind, Reason};
use crate::json::{duplicate_object, members, Json, JsonObject};
use crate::keymap::StrMap;
use crate::pdu::{shown_to, Pdu, PduEvent};
use crate::pdu_count::PduCount;
use vstd::prelude::*;

verus! {

/// The storage position of an event: the short identifier of its room and
/// its position within that room.
#[derive(Clone, Copy, Debug, PartialEq, Eq, Hash, Structural)]
pub struct PduId {
    pub shortroomid: u64,
    pub count: PduCount,
}

/// `a` sorts before `b`: by room first, by position within a room.
pub open spec fn id_before(a: PduId, b: PduId) -> bool {
    a.shortroomid < b.shortroomid || (a.shortroomid == b.shortroomid && a.count.is_before(
        b.count,
    ))
}

/// `a` sorts before `b`.
pub fn sorts_before(a: &PduId, b: &PduId) -> (r: bool)
    ensures
        r == id_before(*a, *b),
{
    if a.shortroomid != b.shortroomid {
        return a.shortroomid < b.shortroomid;
    }
    match (a.count, b.count) {
        (PduCount::Normal(x), PduCount::Normal(y)) => x < y,
        (PduCount::Backfilled(x), PduCount::Backfilled(y)) => y < x,
        (PduCount::Normal(_), PduCount::Backfilled(_)) => false,
        (PduCount::Backfilled(_), PduCount::Normal(_)) => true,
    }
}

/// An event in the store: the event and its JSON form under its position.
#[derive(Debug)]
pub struct Entry {
    pub id: PduId,
    pub pdu: PduEvent,
    pub json: JsonObject,
}

/// The mathematical value of a stored event.
pub struct Stored {
    pub id: PduId,
    pub pdu: Pdu,
    pub json: Seq<(Seq<char>, Json)>,
}

impl Entry {
    /// The mathematical value of the entry.
    pub open spec fn model(&self) -> Stored {
        Stored { id: self.id, pdu: self.pdu.model(), json: members(self.json@) }
    }
}

/// The mathematical values of a list of entries.
pub open spec fn stored_of(v: Seq<Entry>) -> Seq<Stored> {
    Seq::new(v.len(), |i: int| v[i].model())
}

/// The entries stand in ascending order of their positions, so no position
/// occurs twice.
pub open spec fn ascending(s: Seq<Stored>) -> bool {
    forall|i: int, j: int| 0 <= i < j < s.len() ==> id_before(s[i].id, s[j].id)
}

/// How many entries of `s` sort before `id`.
pub open spec fn rank_in(s: Seq<Stored>, id: PduId) -> int
    decreases s.len(),
{
    if s.len() == 0 {
        0
    } else if id_before(s.last().id, id) {
        s.len() as int
    } else {
        rank_in(s.drop_last(), id)
    }
}

/// In an ascending list, `rank_in` is the index at which `id` stands or
/// would have to stand.
pub proof fn rank_in_facts(s: Seq<Stored>, id: PduId)
    requires
        ascending(s),
    ensures
        0 <= rank_in(s, id) <= s.len(),
        forall|i: int| 0 <= i < rank_in(s, id) ==> id_before(s[i].id, id),
        forall|i: int| rank_in(s, id) <= i < s.len() ==> !id_before(s[i].id, id),
    decreases s.len(),
{
    if s.len() == 0 {
    } else if id_before(s.last().id, id) {
        assert forall|i: int| 0 <= i < s.len() implies id_before(s[i].id, id) by {
            if i < s.len() - 1 {
                assert(id_before(s[i].id, s[s.len() - 1].id));
            }
        }
    } else {
        let t = s.drop_last();
        assert(ascending(t)) by {
            assert forall|i: int, j: int| 0 <= i < j < t.len() implies id_before(
                t[i].id,
                t[j].id,
            ) by {
                assert(t[i] == s[i] && t[j] == s[j]);
            }
        }
        rank_in_facts(t, id);
        assert forall|i: int| 0 <= i < rank_in(s, id) implies id_before(s[i].id, id) by {
            assert(t[i] == s[i]);
        }
        assert forall|i: int| rank_in(s, id) <= i < s.len() implies !id_before(s[i].id, id) by {
            if i < t.len() {
                assert(t[i] == s[i]);
            }
        }
    }
}

/// The entry at position `id`, if there is one.
pub open spec fn entry_at(s: Seq<Stored>, id: PduId) -> Option<Stored> {
    if exists|i: int| 0 <= i < s.len() && s[i].id == id {
        Some(s[choose|i: int| 0 <= i < s.len() && s[i].id == id])
    } else {
        None
    }
}

/// The list after `e` was put at its position: in place of the entry that
/// stood there, or else between its neighbours.
pub open spec fn with_entry(s: Seq<Stored>, e: Stored) -> Seq<Stored> {
    let k = rank_in(s, e.id);
    if k < s.len() && s[k].id == e.id {
        s.update(k, e)
    } else {
        s.insert(k, e)
    }
}

/// Putting an entry at its position keeps the order, makes the entry the one
/// found at its position, and leaves every other position as it was.
pub proof fn with_entry_facts(s: Seq<Stored>, e: Stored)
    requires
        ascending(s),
    ensures
        ascending(with_entry(s, e)),
        entry_at(with_entry(s, e), e.id) == Some(e),
        forall|id: PduId| id != e.id ==> entry_at(with_entry(s, e), id) == entry_at(s, id),
        with_entry(s, e).len() == s.len() + (if entry_at(s, e.id).is_some() {
            0int
        } else {
            1int
        }),
{
    rank_in_facts(s, e.id);
    let k = rank_in(s, e.id);
    let r = with_entry(s, e);
    if k < s.len() && s[k].id == e.id {
        assert forall|i: int, j: int| 0 <= i < j < r.len() implies id_before(r[i].id, r[j].id) by {
            assert(id_before(s[i].id, s[j].id));
        }
        assert(r[k] == e);
        unique_position(r, k);
        assert(entry_at(s, e.id).is_some());
        assert forall|id: PduId| id != e.id implies entry_at(r, id) == entry_at(s, id) by {
            if exists|i: int| 0 <= i < s.len() && s[i].id == id {
                let i = choose|i: int| 0 <= i < s.len() && s[i].id == id;
                assert(r[i] == s[i]);
                unique_position(r, i);
                unique_position(s, i);
            } else {
                if exists|i: int| 0 <= i < r.len() && r[i].id == id {
                    let i = choose|i: int| 0 <= i < r.len() && r[i].id == id;
                    assert(s[i].id == id);
                }
            }
        }
    } else {
        assert forall|i: int| k <= i < s.len() implies id_before(e.id, s[i].id) by {
            assert(!id_before(s[i].id, e.id));
            if i > k {
                assert(id_before(s[k].id, s[i].id));
            }
        }
        assert forall|i: int, j: int| 0 <= i < j < r.len() implies id_before(r[i].id, r[j].id) by {
            let i0 = if i < k { i } else { i - 1 };
            let j0 = if j < k { j } else { j - 1 };
            if i == k {
                assert(r[j] == s[j0]);
            } else if j == k {
                assert(r[i] == s[i0]);
            } else {
                assert(r[i] == s[i0] && r[j] == s[j0]);
                assert(id_before(s[i0].id, s[j0].id));
            }
        }
        assert(r[k] == e);
        unique_position(r, k);
        if exists|i: int| 0 <= i < s.len() && s[i].id == e.id {
            let i = choose|i: int| 0 <= i < s.len() && s[i].id == e.id;
            if i < k {
                assert(id_before(s[i].id, e.id));
            } else {
                assert(id_before(e.id, s[i].id));
            }
            assert(false);
        }
        assert forall|id: PduId| id != e.id implies entry_at(r, id) == entry_at(s, id) by {
            if exists|i: int| 0 <= i < s.len() && s[i].id == id {
                let i = choose|i: int| 0 <= i < s.len() && s[i].id == id;
                let i1 = if i < k { i } else { i + 1 };
                assert(r[i1] == s[i]);
                unique_position(r, i1);
                unique_position(s, i);
            } else {
                if exists|i: int| 0 <= i < r.len() && r[i].id == id {
                    let i = choose|i: int| 0 <= i < r.len() && r[i].id == id;
                    let i0 = if i < k { i } else { i - 1 };
                    assert(r[i] == s[i0]);
                    assert(s[i0].id == id);
                }
            }
        }
    }
}

/// In an ascending list the entry at index `k` is the one found at its
/// position.
pub proof fn unique_position(s: Seq<Stored>, k: int)
    requires
        ascending(s),
        0 <= k < s.len(),
    ensures
        entry_at(s, s[k].id) == Some(s[k]),
{
    let i = choose|i: int| 0 <= i < s.len() && s[i].id == s[k].id;
    if i < k {
        assert(id_before(s[i].id, s[k].id));
    } else if k < i {
        assert(id_before(s[k].id, s[i].id));
    }
}

/// The test "stands in room `room` at a position later than `from`".
pub open spec fn after(room: u64, from: PduCount) -> spec_fn(Stored) -> bool {
    |e: Stored| e.id.shortroomid == room && from.is_before(e.id.count)
}

/// The test "stands in room `room` at a position earlier than `until`".
pub open spec fn before(room: u64, until: PduCount) -> spec_fn(Stored) -> bool {
    |e: Stored| e.id.shortroomid == room && e.id.count.is_before(until)
}

/// The positions and events of `s` as `user` gets to see them.
pub open spec fn listed(s: Seq<Stored>, user: Seq<char>) -> Seq<(PduCount, Pdu)> {
    Seq::new(s.len(), |i: int| (s[i].id.count, shown_to(s[i].pdu, user)))
}

/// The mathematical value of a listing.
pub open spec fn listing(v: Seq<(PduCount, PduEvent)>) -> Seq<(PduCount, Pdu)> {
    Seq::new(v.len(), |i: int| (v[i].0, v[i].1.model()))
}

/// The events of room `room` later than `from`, earliest first.
pub open spec fn timeline_after(s: Seq<Stored>, room: u64, from: PduCount) -> Seq<Stored> {
    s.filter(after(room, from))
}

/// The events of room `room` earlier than `until`, latest first.
pub open spec fn timeline_until(s: Seq<Stored>, room: u64, until: PduCount) -> Seq<Stored> {
    s.filter(before(room, until)).reverse()
}

/// A listing in reverse order.
pub fn reversed(v: Vec<(PduCount, PduEvent)>) -> (r: Vec<(PduCount, PduEvent)>)
    ensures
        listing(r@) == listing(v@).reverse(),
{
    let mut v = v;
    let ghost all = listing(v@);
    let mut out: Vec<(PduCount, PduEvent)> = Vec::new();
    while v.len() > 0
        invariant
            v@.len() + out@.len() == all.len(),
            forall|j: int| 0 <= j < v@.len() ==> listing(v@)[j] == all[j],
            forall|j: int| 0 <= j < out@.len() ==> listing(out@)[j] == all[all.len() - 1 - j],
        decreases v@.len(),
    {
        let ghost v0 = v@;
        let ghost o0 = out@;
        let e = v.pop().unwrap();
        assert(forall|j: int| 0 <= j < v@.len() ==> listing(v@)[j] == listing(v0)[j]);
        assert((e.0, e.1.model()) == listing(v0)[v0.len() - 1]);
        out.push(e);
        assert forall|j: int| 0 <= j < out@.len() implies listing(out@)[j] == all[all.len() - 1
            - j] by {
            if j < o0.len() {
                assert(listing(out@)[j] == listing(o0)[j]);
            } else {
                assert(listing(out@)[j] == (e.0, e.1.model()));
                assert(listing(v0)[v0.len() - 1] == all[v0.len() - 1]);
            }
        }
    }
    assert(listing(out@) =~= all.reverse());
    out
}

/// No stored position was drawn from a counter value above `c`.
pub open spec fn counter_bound(s: Seq<Stored>, c: u64) -> bool {
    forall|i: int| 0 <= i < s.len() ==> (#[trigger] s[i]).id.count.raw() <= c
}

/// Putting an entry whose position was drawn at or below `c` into a list
/// bounded by a smaller value gives a list bounded by `c`.
pub proof fn with_entry_keeps_bound(s: Seq<Stored>, e: Stored, b: u64, c: u64)
    requires
        counter_bound(s, b),
        b <= c,
        e.id.count.raw() <= c,
    ensures
        counter_bound(with_entry(s, e), c),
{
    let k = rank_in(s, e.id);
    let r = with_entry(s, e);
    if s.len() > 0 {
        rank_in_bounds(s, e.id);
    }
    assert forall|i: int| 0 <= i < r.len() implies (#[trigger] r[i]).id.count.raw() <= c by {
        if k < s.len() && s[k].id == e.id {
            if i != k {
                assert(r[i] == s[i]);
            }
        } else {
            if i < k {
                assert(r[i] == s[i]);
            } else if i > k {
                assert(r[i] == s[i - 1]);
            }
        }
    }
}

/// `rank_in` is an index into the list or its length.
pub proof fn rank_in_bounds(s: Seq<Stored>, id: PduId)
    ensures
        0 <= rank_in(s, id) <= s.len(),
    decreases s.len(),
{
    if s.len() > 0 && !id_before(s.last().id, id) {
        rank_in_bounds(s.drop_last(), id);
    }
}

/// A position drawn from a counter value above every value that the stored
/// positions were drawn from holds no event yet.
pub proof fn fresh_position_is_free(s: Seq<Stored>, id: PduId, c: u64)
    requires
        counter_bound(s, c),
        c < id.count.raw(),
    ensures
        entry_at(s, id).is_none(),
{
    if exists|i: int| 0 <= i < s.len() && s[i].id == id {
        let i = choose|i: int| 0 <= i < s.len() && s[i].id == id;
        assert(s[i].id.count.raw() <= c);
    }
}

/// A counter that has gone on still bounds the stored positions.
pub proof fn counter_bound_grows(s: Seq<Stored>, b: u64, c: u64)
    requires
        counter_bound(s, b),
        b <= c,
    ensures
        counter_bound(s, c),
{
}

/// A historical position drawn from a counter value above every value that
/// the stored positions were drawn from is earlier than every position of
/// its room.
pub proof fn fresh_backfill_is_earliest(s: Seq<Stored>, room: u64, c: u64, n: u64)
    requires
        counter_bound(s, c),
        c < n,
    ensures
        forall|i: int|
            0 <= i < s.len() && (#[trigger] s[i]).id.shortroomid == room ==> id_before(
                PduId { shortroomid: room, count: PduCount::Backfilled(n) },
                s[i].id,
            ),
{
}

/// A selection from an ascending list is ascending, and holds nothing but
/// selected entries of the list.
pub proof fn selection_is_ascending(s: Seq<Stored>, p: spec_fn(Stored) -> bool)
    requires
        ascending(s),
    ensures
        ascending(s.filter(p)),
        forall|i: int|
            0 <= i < s.filter(p).len() ==> p(#[trigger] s.filter(p)[i]) && s.contains(
                s.filter(p)[i],
            ),
        forall|i: int| 0 <= i < s.len() && p(s[i]) ==> s.filter(p).contains(#[trigger] s[i]),
    decreases s.len(),
{
    reveal(Seq::filter);
    if s.len() > 0 {
        let t = s.drop_last();
        assert(ascending(t)) by {
            assert forall|i: int, j: int| 0 <= i < j < t.len() implies id_before(
                t[i].id,
                t[j].id,
            ) by {
                assert(t[i] == s[i] && t[j] == s[j]);
            }
        }
        selection_is_ascending(t, p);
        let f = s.filter(p);
        let g = t.filter(p);
        assert forall|i: int| 0 <= i < f.len() implies p(#[trigger] f[i]) && s.contains(f[i]) by {
            if i < g.len() {
                assert(f[i] == g[i]);
                assert(t.contains(g[i]));
                let k = choose|k: int| 0 <= k < t.len() && t[k] == g[i];
                assert(s[k] == g[i]);
            } else {
                assert(f[i] == s.last());
                assert(s[s.len() - 1] == s.last());
            }
        }
        assert forall|i: int, j: int| 0 <= i < j < f.len() implies id_before(f[i].id, f[j].id) by {
            if j < g.len() {
                assert(f[i] == g[i] && f[j] == g[j]);
            } else {
                assert(f[j] == s.last());
                assert(f[i] == g[i]);
                assert(t.contains(g[i]));
                let k = choose|k: int| 0 <= k < t.len() && t[k] == g[i];
                assert(s[k] == g[i]);
                assert(id_before(s[k].id, s[s.len() - 1].id));
            }
        }
        assert forall|i: int| 0 <= i < s.len() && p(s[i]) implies f.contains(#[trigger] s[i]) by {
            if i < t.len() {
                assert(t[i] == s[i]);
                assert(g.contains(t[i]));
                let k = choose|k: int| 0 <= k < g.len() && g[k] == t[i];
                assert(f[k] == g[k]);
            } else {
                assert(f[f.len() - 1] == s.last());
            }
        }
    }
}

/// Every listing shows events in the order of their positions: of two
/// listed events, the one at the earlier position is listed first.
pub proof fn earlier_position_is_listed_first(
    s: Seq<Stored>,
    p: spec_fn(Stored) -> bool,
    i: int,
    j: int,
)
    requires
        ascending(s),
        0 <= i < s.filter(p).len(),
        0 <= j < s.filter(p).len(),
        id_before(s.filter(p)[i].id, s.filter(p)[j].id),
    ensures
        i < j,
{
    selection_is_ascending(s, p);
    let f = s.filter(p);
    if j < i {
        assert(id_before(f[j].id, f[i].id));
    }
}

/// What is kept of an event that is known but stands at no position.
#[derive(Debug)]
pub struct Outlier {
    pub pdu: PduEvent,
    pub json: JsonObject,
}

/// The tables of the timeline store.
pub struct Data {
    pduid_pdu: Vec<Entry>,
    eventid_pduid: StrMap<PduId>,
    eventid_outlierpdu: StrMap<Outlier>,
    lasttimelinecount_cache: StrMap<PduCount>,
}

impl Data {
    /// The stored events, in ascending order of their positions.
    pub closed spec fn stored(&self) -> Seq<Stored> {
        stored_of(self.pduid_pdu@)
    }

    /// The position of each event that has one, by event identifier.
    pub closed spec fn positions(&self) -> Map<Seq<char>, PduId> {
        self.eventid_pduid@
    }

    /// The events that are known but stand at no position, by identifier.
    pub closed spec fn outliers(&self) -> Map<Seq<char>, (Pdu, Seq<(Seq<char>, Json)>)> {
        Map::new(
            |e: Seq<char>| self.eventid_outlierpdu@.contains_key(e),
            |e: Seq<char>|
                (
                    self.eventid_outlierpdu@[e].pdu.model(),
                    members(self.eventid_outlierpdu@[e].json@),
                ),
        )
    }

    /// The latest position that is remembered for each room.
    pub closed spec fn last_counts(&self) -> Map<Seq<char>, PduCount> {
        self.lasttimelinecount_cache@
    }

    /// The tables are well formed, the events stand in ascending order, and
    /// every recorded position holds an event.
    pub closed spec fn wf(&self) -> bool {
        &&& self.eventid_pduid.wf()
        &&& self.eventid_outlierpdu.wf()
        &&& self.lasttimelinecount_cache.wf()
        &&& ascending(self.stored())
        &&& forall|e: Seq<char>| #[trigger]
            self.positions().contains_key(e) ==> entry_at(
                self.stored(),
                self.positions()[e],
            ).is_some()
    }

    /// What `wf` says of the positions: each recorded position holds an
    /// event.
    pub proof fn positions_are_held(&self, event_id: Seq<char>)
        requires
            self.wf(),
            self.positions().contains_key(event_id),
        ensures
            entry_at(self.stored(), self.positions()[event_id]).is_some(),
    {
    }

    /// What `wf` says of the stored events.
    pub proof fn stored_ascending(&self)
        requires
            self.wf(),
        ensures
            ascending(self.stored()),
    {
    }

    /// An empty store.
    pub fn new() -> (r: Self)
        ensures
            r.wf(),
            r.stored() == Seq::<Stored>::empty(),
            r.positions() == Map::<Seq<char>, PduId>::empty(),
            r.outliers() == Map::<Seq<char>, (Pdu, Seq<(Seq<char>, Json)>)>::empty(),
            r.last_counts() == Map::<Seq<char>, PduCount>::empty(),
    {
        let r = Data {
            pduid_pdu: Vec::new(),
            eventid_pduid: StrMap::new(),
            eventid_outlierpdu: StrMap::new(),
            lasttimelinecount_cache: StrMap::new(),
        };
        assert(r.stored() =~= Seq::<Stored>::empty());
        assert(r.outliers() =~= Map::<Seq<char>, (Pdu, Seq<(Seq<char>, Json)>)>::empty());
        r
    }

    /// The index at which `id` stands or would have to stand.
    fn slot(&self, id: &PduId) -> (k: usize)
        requires
            self.wf(),
        ensures
            k == rank_in(self.stored(), *id),
            k <= self.stored().len(),
    {
        proof {
            rank_in_facts(self.stored(), *id);
        }
        let mut i: usize = 0;
        while i < self.pduid_pdu.len()
            invariant
                self.wf(),
                i <= self.pduid_pdu@.len(),
                self.stored().len() == self.pduid_pdu@.len(),
                forall|j: int| 0 <= j < i ==> id_before(self.stored()[j].id, *id),
            decreases self.pduid_pdu@.len() - i,
        {
            if !sorts_before(&self.pduid_pdu[i].id, id) {
                proof {
                    let s = self.stored();
                    let k = rank_in(s, *id);
                    rank_in_facts(s, *id);
                    assert(s[i as int].id == self.pduid_pdu@[i as int].id);
                    if (i as int) < k {
                        assert(id_before(s[i as int].id, *id));
                    }
                    if k < i as int {
                        assert(id_before(s[k].id, *id));
                        assert(!id_before(s[k].id, *id));
                    }
                }
                return i;
            }
            assert(self.stored()[i as int].id == self.pduid_pdu@[i as int].id);
            i += 1;
        }
        proof {
            let s = self.stored();
            let k = rank_in(s, *id);
            rank_in_facts(s, *id);
            if k < i as int {
                assert(id_before(s[k].id, *id));
                assert(!id_before(s[k].id, *id));
            }
        }
        i
    }

    /// The index of the entry at position `id`.
    fn find(&self, id: &PduId) -> (r: Option<usize>)
        requires
            self.wf(),
        ensures
            match r {
                Some(k) => k < self.stored().len() && self.stored()[k as int].id == *id
                    && entry_at(self.stored(), *id) == Some(self.stored()[k as int]),
                None => entry_at(self.stored(), *id).is_none(),
            },
    {
        let k = self.slot(id);
        proof {
            rank_in_facts(self.stored(), *id);
        }
        if k < self.pduid_pdu.len() && self.pduid_pdu[k].id == *id {
            proof {
                assert(self.stored()[k as int].id == self.pduid_pdu@[k as int].id);
                unique_position(self.stored(), k as int);
            }
            Some(k)
        } else {
            proof {
                let s = self.stored();
                if exists|i: int| 0 <= i < s.len() && s[i].id == *id {
                    let i = choose|i: int| 0 <= i < s.len() && s[i].id == *id;
                    if i < k {
                        assert(id_before(s[i].id, *id));
                    } else if i == k {
                        assert(s[k as int].id == self.pduid_pdu@[k as int].id);
                    } else {
                        assert(id_before(s[k as int].id, s[i].id));
                        assert(!id_before(s[k as int].id, *id));
                    }
                    assert(false);
                }
            }
            None
        }
    }

    /// Puts `entry` at its position.
    fn put(&mut self, entry: Entry)
        requires
            old(self).wf(),
        ensures
            final(self).wf(),
            final(self).stored() == with_entry(old(self).stored(), entry.model()),
            final(self).positions() == old(self).positions(),
            final(self).outliers() == old(self).outliers(),
            final(self).last_counts() == old(self).last_counts(),
    {
        let k = self.slot(&entry.id);
        proof {
            with_entry_facts(self.stored(), entry.model());
            assert forall|e: Seq<char>| #[trigger] self.positions().contains_key(e) implies entry_at(
                with_entry(self.stored(), entry.model()),
                self.positions()[e],
            ).is_some() by {
                assert(entry_at(self.stored(), self.positions()[e]).is_some());
            }
        }
        let ghost e = entry.model();
        let ghost s0 = self.stored();
        if k < self.pduid_pdu.len() && self.pduid_pdu[k].id == entry.id {
            assert(s0[k as int].id == self.pduid_pdu@[k as int].id);
            self.pduid_pdu[k] = entry;
            assert(self.stored() =~= s0.update(k as int, e));
        } else {
            assert(k < s0.len() ==> s0[k as int].id == self.pduid_pdu@[k as int].id);
            self.pduid_pdu.insert(k, entry);
            assert(self.stored() =~= s0.insert(k as int, e));
        }
        assert(self.outliers() =~= old(self).outliers());
    }

    /// The position of the event `event_id`, if it has one.
    pub fn get_pdu_id(&self, event_id: &String) -> (r: Result<Option<PduId>, Error>)
        requires
            self.wf(),
        ensures
            r == Ok::<Option<PduId>, Error>(
                if self.positions().contains_key(event_id@) {
                    Some(self.positions()[event_id@])
                } else {
                    None
                },
            ),
    {
        match self.eventid_pduid.get(event_id) {
            Some(id) => Ok(Some(*id)),
            None => Ok(None),
        }
    }

    /// The position within its room of the event `event_id`, if it has one.
    pub fn get_pdu_count(&self, event_id: &String) -> (r: Result<Option<PduCount>, Error>)
        requires
            self.wf(),
        ensures
            r == Ok::<Option<PduCount>, Error>(
                if self.positions().contains_key(event_id@) {
                    Some(self.positions()[event_id@].count)
                } else {
                    None
                },
            ),
    {
        match self.eventid_pduid.get(event_id) {
            Some(id) => Ok(Some(id.count)),
            None => Ok(None),
        }
    }

    /// The event at position `pdu_id`, if there is one.
    pub fn get_pdu_from_id(&self, pdu_id: &PduId) -> (r: Result<Option<&PduEvent>, Error>)
        requires
            self.wf(),
        ensures
            r matches Ok(found) && match found {
                Some(p) => entry_at(self.stored(), *pdu_id) matches Some(e) && e.pdu == p.model(),
                None => entry_at(self.stored(), *pdu_id).is_none(),
            },
    {
        match self.find(pdu_id) {
            Some(k) => Ok(Some(&self.pduid_pdu[k].pdu)),
            None => Ok(None),
        }
    }

    /// The JSON form of the event at position `pdu_id`, if there is one.
    pub fn get_pdu_json_from_id(&self, pdu_id: &PduId) -> (r: Result<Option<&JsonObject>, Error>)
        requires
            self.wf(),
        ensures
            r matches Ok(found) && match found {
                Some(j) => entry_at(self.stored(), *pdu_id) matches Some(e) && e.json == members(
                    j@,
                ),
                None => entry_at(self.stored(), *pdu_id).is_none(),
            },
    {
        match self.find(pdu_id) {
            Some(k) => Ok(Some(&self.pduid_pdu[k].json)),
            None => Ok(None),
        }
    }

    /// Puts the event at position `pdu_id`, remembers the live position
    /// `count` as the latest of the event's room, records the position under
    /// the event's identifier, and strikes the event from the outliers.
    pub fn append_pdu(&mut self, pdu_id: PduId, pdu: &PduEvent, json: &JsonObject, count: u64)
        requires
            old(self).wf(),
        ensures
            final(self).wf(),
            final(self).stored() == with_entry(
                old(self).stored(),
                Stored { id: pdu_id, pdu: pdu.model(), json: members(json@) },
            ),
            final(self).positions() == old(self).positions().insert(pdu.event_id@, pdu_id),
            final(self).outliers() == old(self).outliers().remove(pdu.event_id@),
            final(self).last_counts() == old(self).last_counts().insert(
                pdu.room_id@,
                PduCount::Normal(count),
            ),
    {
        let ghost entry = Stored { id: pdu_id, pdu: pdu.model(), json: members(json@) };
        proof {
            with_entry_facts(self.stored(), entry);
        }
        self.put(Entry { id: pdu_id, pdu: pdu.duplicate(), json: duplicate_object(json) });
        let ghost held = self.positions();
        proof {
            assert forall|e: Seq<char>| #[trigger] held.contains_key(e) implies entry_at(
                self.stored(),
                held[e],
            ).is_some() by {}
        }
        self.lasttimelinecount_cache.insert(pdu.room_id.clone(), PduCount::Normal(count));
        self.eventid_pduid.insert(pdu.event_id.clone(), pdu_id);
        let _o = self.eventid_outlierpdu.remove(&pdu.event_id);
        assert(self.outliers() =~= old(self).outliers().remove(pdu.event_id@));
        proof {
            assert forall|e: Seq<char>| #[trigger] self.positions().contains_key(e) implies entry_at(
                self.stored(),
                self.positions()[e],
            ).is_some() by {
                if e != pdu.event_id@ {
                    assert(held.contains_key(e));
                }
            }
        }
    }

    /// Puts a fetched historical event at position `pdu_id`, records the
    /// position under the event's identifier, and strikes the event from the
    /// outliers.
    pub fn prepend_backfill_pdu(&mut self, pdu_id: PduId, pdu: &PduEvent, json: &JsonObject)
        requires
            old(self).wf(),
        ensures
            final(self).wf(),
            final(self).stored() == with_entry(
                old(self).stored(),
                Stored { id: pdu_id, pdu: pdu.model(), json: members(json@) },
            ),
            final(self).positions() == old(self).positions().insert(pdu.event_id@, pdu_id),
            final(self).outliers() == old(self).outliers().remove(pdu.event_id@),
            final(self).last_counts() == old(self).last_counts(),
    {
        let ghost entry = Stored { id: pdu_id, pdu: pdu.model(), json: members(json@) };
        proof {
            with_entry_facts(self.stored(), entry);
        }
        self.put(Entry { id: pdu_id, pdu: pdu.duplicate(), json: duplicate_object(json) });
        let ghost held = self.positions();
        proof {
            assert forall|e: Seq<char>| #[trigger] held.contains_key(e) implies entry_at(
                self.stored(),
                held[e],
            ).is_some() by {}
        }
        self.eventid_pduid.insert(pdu.event_id.clone(), pdu_id);
        let _o = self.eventid_outlierpdu.remove(&pdu.event_id);
        assert(self.outliers() =~= old(self).outliers().remove(pdu.event_id@));
        proof {
            assert forall|e: Seq<char>| #[trigger] self.positions().contains_key(e) implies entry_at(
                self.stored(),
                self.positions()[e],
            ).is_some() by {
                if e != pdu.event_id@ {
                    assert(held.contains_key(e));
                }
            }
        }
    }

    /// Overwrites the event at position `pdu_id`, which must hold one; the
    /// position and the identifier tables stay as they are.
    pub fn replace_pdu(&mut self, pdu_id: &PduId, pdu_json: &JsonObject, pdu: &PduEvent) -> (r:
        Result<(), Error>)
        requires
            old(self).wf(),
        ensures
            final(self).wf(),
            final(self).positions() == old(self).positions(),
            final(self).outliers() == old(self).outliers(),
            final(self).last_counts() == old(self).last_counts(),
            match r {
                Ok(()) => entry_at(old(self).stored(), *pdu_id).is_some() && final(self).stored()
                    == with_entry(
                    old(self).stored(),
                    Stored { id: *pdu_id, pdu: pdu.model(), json: members(pdu_json@) },
                ) && final(self).stored().len() == old(self).stored().len(),
                Err(e) => e == Error::BadRequest(ErrorKind::InvalidParam, Reason::PduDoesNotExist)
                    && entry_at(old(self).stored(), *pdu_id).is_none() && final(self).stored()
                    == old(self).stored(),
            },
    {
        match self.find(pdu_id) {
            Some(_k) => {
                proof {
                    with_entry_facts(
                        self.stored(),
                        Stored { id: *pdu_id, pdu: pdu.model(), json: members(pdu_json@) },
                    );
                }
                self.put(Entry { id: *pdu_id, pdu: pdu.duplicate(), json: duplicate_object(pdu_json) });
                Ok(())
            },
            None => Err(Error::BadRequest(ErrorKind::InvalidParam, Reason::PduDoesNotExist)),
        }
    }

    /// Keeps `pdu` as an event that is known but stands at no position.
    pub fn add_pdu_outlier(&mut self, pdu: &PduEvent, json: &JsonObject)
        requires
            old(self).wf(),
        ensures
            final(self).wf(),
            final(self).stored() == old(self).stored(),
            final(self).positions() == old(self).positions(),
            final(self).outliers() == old(self).outliers().insert(
                pdu.event_id@,
                (pdu.model(), members(json@)),
            ),
            final(self).last_counts() == old(self).last_counts(),
    {
        self.eventid_outlierpdu.insert(
            pdu.event_id.clone(),
            Outlier { pdu: pdu.duplicate(), json: duplicate_object(json) },
        );
        assert(self.outliers() =~= old(self).outliers().insert(
            pdu.event_id@,
            (pdu.model(), members(json@)),
        ));
    }

    /// The events of room `shortroomid` on one side of `bound`, in ascending
    /// order: those later than it where `forward`, those earlier otherwise.
    fn scan(&self, user_id: &String, shortroomid: u64, bound: PduCount, forward: bool) -> (r: Vec<
        (PduCount, PduEvent),
    >)
        ensures
            listing(r@) == listed(
                self.stored().filter(
                    if forward {
                        after(shortroomid, bound)
                    } else {
                        before(shortroomid, bound)
                    },
                ),
                user_id@,
            ),
    {
        let ghost s = self.stored();
        let ghost p = if forward {
            after(shortroomid, bound)
        } else {
            before(shortroomid, bound)
        };
        let mut out: Vec<(PduCount, PduEvent)> = Vec::new();
        let mut i: usize = 0;
        proof {
            reveal(Seq::filter);
            assert(s.take(0) =~= Seq::<Stored>::empty());
            assert(listing(out@) =~= listed(s.take(0).filter(p), user_id@));
        }
        let edge = PduId { shortroomid, count: bound };
        while i < self.pduid_pdu.len()
            invariant
                i <= self.pduid_pdu@.len(),
                s == self.stored(),
                s.len() == self.pduid_pdu@.len(),
                edge == (PduId { shortroomid, count: bound }),
                p == (if forward {
                    after(shortroomid, bound)
                } else {
                    before(shortroomid, bound)
                }),
                listing(out@) == listed(s.take(i as int).filter(p), user_id@),
            decreases self.pduid_pdu@.len() - i,
        {
            let e = &self.pduid_pdu[i];
            proof {
                reveal(Seq::filter);
                assert(s.take(i as int + 1).drop_last() =~= s.take(i as int));
                assert(s.take(i as int + 1).last() == s[i as int]);
                assert(s[i as int] == e.model());
            }
            let hit = e.id.shortroomid == shortroomid && (if forward {
                sorts_before(&edge, &e.id)
            } else {
                sorts_before(&e.id, &edge)
            });
            if hit {
                assert(p(s[i as int]));
                let mut pdu = e.pdu.duplicate();
                if pdu.sender != *user_id {
                    pdu.remove_transaction_id();
                }
                let ghost before_push = listing(out@);
                out.push((e.id.count, pdu));
                assert(listing(out@) =~= before_push.push((e.id.count, shown_to(e.pdu.model(), user_id@))));
                assert(listed(s.take(i as int + 1).filter(p), user_id@) =~= listed(
                    s.take(i as int).filter(p),
                    user_id@,
                ).push((e.id.count, shown_to(e.pdu.model(), user_id@))));
            } else {
                assert(!p(s[i as int]));
            }
            i += 1;
        }
        assert(s.take(s.len() as int) =~= s);
        out
    }

    /// The events of room `shortroomid` later than `from`, as `user_id`
    /// gets to see them, earliest first.
    pub fn pdus_after(&self, user_id: &String, shortroomid: u64, from: PduCount) -> (r: Vec<
        (PduCount, PduEvent),
    >)
        ensures
            listing(r@) == listed(timeline_after(self.stored(), shortroomid, from), user_id@),
    {
        self.scan(user_id, shortroomid, from, true)
    }

    /// The events of room `shortroomid` earlier than `until`, as `user_id`
    /// gets to see them, latest first.
    pub fn pdus_until(&self, user_id: &String, shortroomid: u64, until: PduCount) -> (r: Vec<
        (PduCount, PduEvent),
    >)
        ensures
            listing(r@) == listed(timeline_until(self.stored(), shortroomid, until), user_id@),
    {
        let v = self.scan(user_id, shortroomid, until, false);
        let r = reversed(v);
        assert(listing(r@) =~= listed(
            timeline_until(self.stored(), shortroomid, until),
            user_id@,
        ));
        r
    }

    /// The latest position that is remembered for `room_id`, if one is.
    pub fn cached_count(&self, room_id: &String) -> (r: Option<PduCount>)
        requires
            self.wf(),
        ensures
            r == (if self.last_counts().contains_key(room_id@) {
                Some(self.last_counts()[room_id@])
            } else {
                None
            }),
    {
        match self.lasttimelinecount_cache.get(room_id) {
            Some(c) => Some(*c),
            None => None,
        }
    }

    /// Remembers `count` as the latest position of `room_id`.
    pub fn cache_count(&mut self, room_id: &String, count: PduCount)
        requires
            old(self).wf(),
        ensures
            final(self).wf(),
            final(self).stored() == old(self).stored(),
            final(self).positions() == old(self).positions(),
            final(self).outliers() == old(self).outliers(),
            final(self).last_counts() == old(self).last_counts().insert(room_id@, count),
    {
        self.lasttimelinecount_cache.insert(room_id.clone(), count);
        assert(self.outliers() =~= old(self).outliers());
    }

    /// Forgets the remembered latest positions.
    pub fn clear_cache(&mut self)
        requires
            old(self).wf(),
        ensures
            final(self).wf(),
            final(self).stored() == old(self).stored(),
            final(self).positions() == old(self).positions(),
            final(self).outliers() == old(self).outliers(),
            final(self).last_counts() == Map::<Seq<char>, PduCount>::empty(),
    {
        self.lasttimelinecount_cache.clear();
        assert(self.outliers() =~= old(self).outliers());
    }

    /// How many rooms have a remembered latest position.
    pub fn cache_len(&self) -> (n: usize)
        requires
            self.wf(),
        ensures
            n == self.last_counts().dom().len(),
    {
        self.lasttimelinecount_cache.len()
    }

    /// Whether no stored position was drawn from a counter value above
    /// `count`.
    pub fn bounded_by(&self, count: u64) -> (b: bool)
        ensures
            b == counter_bound(self.stored(), count),
    {
        let mut i: usize = 0;
        while i < self.pduid_pdu.len()
            invariant
                i <= self.pduid_pdu@.len(),
                self.stored().len() == self.pduid_pdu@.len(),
                forall|j: int| 0 <= j < i ==> (#[trigger] self.stored()[j]).id.count.raw() <= count,
            decreases self.pduid_pdu@.len() - i,
        {
            if self.pduid_pdu[i].id.count.counter() > count {
                assert(self.stored()[i as int].id == self.pduid_pdu@[i as int].id);
                return false;
            }
            assert(self.stored()[i as int].id == self.pduid_pdu@[i as int].id);
            i += 1;
        }
        true
    }

    /// The number of stored events.
    pub fn len(&self) -> (n: usize)
        ensures
            n == self.stored().len(),
    {
        self.pduid_pdu.len()
    }

    /// The stored event at index `i` of the ascending order.
    pub fn entry(&self, i: usize) -> (e: &Entry)
        requires
            i < self.stored().len(),
        ensures
            e.model() == self.stored()[i as int],
    {
        &self.pduid_pdu[i]
    }

    /// The outlier `event_id`, if there is one.
    pub fn outlier(&self, event_id: &String) -> (r: Option<&Outlier>)
        requires
            self.wf(),
        ensures
            match r {
                Some(o) => self.outliers().contains_key(event_id@) && self.outliers()[event_id@] == (
                    o.pdu.model(),
                    members(o.json@),
                ),
                None => !self.outliers().contains_key(event_id@),
            },
    {
        self.eventid_outlierpdu.get(event_id)
    }
}

} // verus!
