//! Per-room gates: at most one holder per room and gate at any time.
//!
//! A gate hands out a guard for a room only while no other guard for that
//! room is out. Waiting for a busy room is the caller's business; a gate
//! only decides who may enter.

use vstd::prelude::*;

verus! {

/// Which critical section a gate protects.
#[derive(Clone, Copy, Debug, PartialEq, Eq, Hash, Structural)]
pub enum GateKind {
    /// State changes and appends together.
    State,
    /// Allocating a position and writing the event under it.
    Insert,
    /// Taking in one event from another server.
    Federation,
}

/// Proof of exclusive access to one room under one gate.
///
/// A guard cannot be copied; it comes out of `RoomMutexMap::try_lock` and
/// goes back into `RoomMutexMap::unlock`.
pub struct RoomMutexGuard {
    kind: GateKind,
    room_id: String,
}

impl RoomMutexGuard {
    /// The room that the guard gives access to.
    pub closed spec fn room(&self) -> Seq<char> {
        self.room_id@
    }

    /// The kind of gate that handed the guard out.
    pub closed spec fn kind(&self) -> GateKind {
        self.kind
    }

    /// The room that the guard gives access to.
    pub fn room_id(&self) -> (r: &String)
        ensures
            r@ == self.room(),
    {
        &self.room_id
    }

    /// The kind of gate that handed the guard out.
    pub fn gate_kind(&self) -> (k: GateKind)
        ensures
            k == self.kind(),
    {
        self.kind
    }
}

/// A gate: the rooms that are locked right now.
pub struct RoomMutexMap {
    kind: GateKind,
    held: Vec<String>,
}

impl RoomMutexMap {
    /// The locked rooms, in the order in which they were locked.
    pub closed spec fn holders(&self) -> Seq<Seq<char>> {
        Seq::new(self.held@.len(), |i: int| self.held@[i]@)
    }

    /// The critical section that this gate protects.
    pub closed spec fn kind(&self) -> GateKind {
        self.kind
    }

    /// No room is locked twice.
    pub open spec fn wf(&self) -> bool {
        self.holders().no_duplicates()
    }

    /// Whether a guard for `room` is out.
    pub open spec fn is_locked(&self, room: Seq<char>) -> bool {
        self.holders().contains(room)
    }

    /// How many guards for `room` are out.
    pub open spec fn held_count(&self, room: Seq<char>) -> nat {
        self.holders().filter(same_room(room)).len()
    }

    /// Whether `guard` is a guard of this gate for a room that is locked.
    pub open spec fn admits(&self, guard: &RoomMutexGuard) -> bool {
        guard.kind() == self.kind() && self.is_locked(guard.room())
    }

    /// A gate with no room locked.
    pub fn new(kind: GateKind) -> (r: Self)
        ensures
            r.wf(),
            r.kind() == kind,
            r.holders() == Seq::<Seq<char>>::empty(),
    {
        let r = RoomMutexMap { kind, held: Vec::new() };
        assert(r.holders() =~= Seq::<Seq<char>>::empty());
        r
    }

    /// The number of rooms that are locked.
    pub fn len(&self) -> (n: usize)
        ensures
            n == self.holders().len(),
    {
        self.held.len()
    }

    /// The critical section that this gate protects.
    pub fn gate_kind(&self) -> (k: GateKind)
        ensures
            k == self.kind(),
    {
        self.kind
    }

    fn find(&self, room_id: &String) -> (r: Option<usize>)
        ensures
            match r {
                Some(i) => i < self.holders().len() && self.holders()[i as int] == room_id@,
                None => !self.is_locked(room_id@),
            },
    {
        let mut i: usize = 0;
        while i < self.held.len()
            invariant
                i <= self.held@.len(),
                forall|j: int| 0 <= j < i ==> self.holders()[j] != room_id@,
            decreases self.held@.len() - i,
        {
            if self.held[i] == *room_id {
                assert(self.holders()[i as int] == self.held@[i as int]@);
                return Some(i);
            }
            i += 1;
        }
        None
    }

    /// Whether a guard for `room_id` is out.
    pub fn locked(&self, room_id: &String) -> (b: bool)
        ensures
            b == self.is_locked(room_id@),
    {
        let r = self.find(room_id);
        proof {
            if let Some(i) = r {
                assert(self.holders().contains(room_id@));
            }
        }
        r.is_some()
    }

    /// Whether `guard` is a guard of this gate for a room that is locked.
    pub fn check(&self, guard: &RoomMutexGuard) -> (b: bool)
        ensures
            b == self.admits(guard),
    {
        guard.kind == self.kind && self.locked(&guard.room_id)
    }

    /// Locks `room_id` if it is free, and says so by handing out its guard.
    /// A locked room stays as it is and yields nothing.
    pub fn try_lock(&mut self, room_id: &String) -> (r: Option<RoomMutexGuard>)
        requires
            old(self).wf(),
        ensures
            final(self).wf(),
            final(self).kind() == old(self).kind(),
            match r {
                Some(g) => {
                    &&& !old(self).is_locked(room_id@)
                    &&& g.room() == room_id@
                    &&& g.kind() == old(self).kind()
                    &&& final(self).holders() == old(self).holders().push(room_id@)
                    &&& final(self).admits(&g)
                },
                None => old(self).is_locked(room_id@) && final(self).holders() == old(
                    self,
                ).holders(),
            },
    {
        if self.locked(room_id) {
            return None;
        }
        self.held.push(room_id.clone());
        proof {
            let h0 = old(self).holders();
            let h = self.holders();
            assert(h =~= h0.push(room_id@));
            assert forall|i: int, j: int| 0 <= i < h.len() && 0 <= j < h.len() && i != j implies h[i]
                != h[j] by {
                if i < h0.len() {
                    assert(h0.contains(h0[i]));
                }
                if j < h0.len() {
                    assert(h0.contains(h0[j]));
                }
            }
            assert(h[h.len() - 1] == room_id@);
            assert(h.contains(room_id@));
        }
        Some(RoomMutexGuard { kind: self.kind, room_id: room_id.clone() })
    }

    /// Gives a guard back: its room is free again. A guard of another gate,
    /// or for a room that is not locked, changes nothing.
    pub fn unlock(&mut self, guard: RoomMutexGuard)
        requires
            old(self).wf(),
        ensures
            final(self).wf(),
            final(self).kind() == old(self).kind(),
            old(self).admits(&guard) ==> final(self).holders() == old(self).holders().remove_value(
                guard.room(),
            ),
            !old(self).admits(&guard) ==> final(self).holders() == old(self).holders(),
            forall|room: Seq<char>|
                final(self).is_locked(room) <==> old(self).is_locked(room) && !(old(self).admits(
                    &guard,
                ) && room == guard.room()),
    {
        if guard.kind != self.kind {
            return ;
        }
        match self.find(&guard.room_id) {
            Some(i) => {
                let _r = self.held.remove(i);
                proof {
                    let h0 = old(self).holders();
                    let h = self.holders();
                    assert(h0.contains(guard.room()));
                    h0.index_of_first_ensures(guard.room());
                    assert(h0.index_of(guard.room()) == i);
                    assert(h =~= h0.remove(i as int));
                    assert(h0.remove_value(guard.room()) == h0.remove(i as int));
                    assert forall|a: int, b: int| 0 <= a < h.len() && 0 <= b < h.len() && a
                        != b implies h[a] != h[b] by {
                        let a0 = if a < i { a } else { a + 1 };
                        let b0 = if b < i { b } else { b + 1 };
                        assert(h[a] == h0[a0] && h[b] == h0[b0]);
                    }
                    assert forall|room: Seq<char>|
                        self.is_locked(room) <==> old(self).is_locked(room) && room
                            != guard.room() by {
                        if self.is_locked(room) {
                            let a = choose|a: int| 0 <= a < h.len() && h[a] == room;
                            let a0 = if a < i { a } else { a + 1 };
                            assert(h0[a0] == room);
                        }
                        if old(self).is_locked(room) && room != guard.room() {
                            let a0 = choose|a: int| 0 <= a < h0.len() && h0[a] == room;
                            let a = if a0 < i { a0 } else { a0 - 1 };
                            assert(h[a] == room);
                        }
                    }
                }
            },
            None => {},
        }
    }
}

/// While a guard of a gate is out, its room is held exactly once, so a
/// second lock on the room is turned away: two critical sections under one
/// gate never run for one room at the same time.
pub proof fn guarded_room_is_held_once(gate: RoomMutexMap, guard: RoomMutexGuard)
    requires
        gate.wf(),
        gate.admits(&guard),
    ensures
        gate.is_locked(guard.room()),
        gate.held_count(guard.room()) == 1,
{
    one_holder_per_room(gate, guard.room());
}

/// Locking a free room and unlocking it again leaves the locked rooms as
/// they were.
pub proof fn lock_then_unlock(holders: Seq<Seq<char>>, room: Seq<char>)
    requires
        !holders.contains(room),
    ensures
        holders.push(room).remove_value(room) == holders,
{
    let t = holders.push(room);
    assert(t[holders.len() as int] == room);
    t.index_of_first_ensures(room);
    let i = t.index_of_first(room).unwrap();
    if i < holders.len() {
        assert(holders[i] == room);
        assert(false);
    }
    assert(t.remove(i) =~= holders);
}

/// The test "is this the room `room`".
pub open spec fn same_room(room: Seq<char>) -> spec_fn(Seq<char>) -> bool {
    |r: Seq<char>| r == room
}

/// Under a gate, a room has at most one guard out: exactly one while it is
/// locked and none while it is free.
pub proof fn one_holder_per_room(gate: RoomMutexMap, room: Seq<char>)
    requires
        gate.wf(),
    ensures
        gate.held_count(room) <= 1,
        gate.is_locked(room) <==> gate.held_count(room) == 1,
{
    count_in_distinct(gate.holders(), room);
}

/// In a list without repeats a value is counted once if it occurs and not
/// at all if it does not.
pub proof fn count_in_distinct(s: Seq<Seq<char>>, room: Seq<char>)
    requires
        s.no_duplicates(),
    ensures
        s.filter(same_room(room)).len() == (if s.contains(room) {
            1nat
        } else {
            0nat
        }),
    decreases s.len(),
{
    reveal(Seq::filter);
    if s.len() == 0 {
    } else {
        let t = s.drop_last();
        assert forall|i: int, j: int| 0 <= i < t.len() && 0 <= j < t.len() && i != j implies t[i]
            != t[j] by {
            assert(t[i] == s[i] && t[j] == s[j]);
        }
        count_in_distinct(t, room);
        if s.last() == room {
            if t.contains(room) {
                let i = choose|i: int| 0 <= i < t.len() && t[i] == room;
                assert(s[i] == room);
                assert(false);
            }
            assert(s[s.len() - 1] == room);
        } else {
            if s.contains(room) {
                let i = choose|i: int| 0 <= i < s.len() && s[i] == room;
                assert(t[i] == room);
            }
            if t.contains(room) {
                let i = choose|i: int| 0 <= i < t.len() && t[i] == room;
                assert(s[i] == room);
            }
        }
    }
}

} // verus!
