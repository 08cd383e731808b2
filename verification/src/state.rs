//! The state pointers of rooms: the current state snapshot of each room, its
//! forward extremities, and the snapshot that held at each event.

use crate::error::Error;
use crate::gate::{GateKind, RoomMutexGuard};
use crate::keymap::{KeyMap, StrMap};
use crate::text::{copy_all, distinct, distinct_of, texts};
use vstd::prelude::*;

verus! {

/// The tables behind the state pointers.
pub struct Data {
    shorteventid_shortstatehash: KeyMap<u64, u64>,
    roomid_pduleaves: StrMap<Vec<String>>,
    roomid_shortstatehash: StrMap<u64>,
}

/// Whether `lock` proves exclusive access to the state of `room_id`.
pub open spec fn guards_state(lock: &RoomMutexGuard, room_id: Seq<char>) -> bool {
    lock.kind() == GateKind::State && lock.room() == room_id
}

impl Data {
    /// The tables are well formed.
    pub closed spec fn wf(&self) -> bool {
        &&& self.shorteventid_shortstatehash.wf()
        &&& self.roomid_pduleaves.wf()
        &&& self.roomid_shortstatehash.wf()
        &&& forall|room: Seq<char>| #[trigger]
            self.roomid_pduleaves@.contains_key(room) ==> texts(
                self.roomid_pduleaves@[room]@,
            ).no_duplicates()
    }

    /// The current state snapshot of each room that has one.
    pub closed spec fn room_states(&self) -> Map<Seq<char>, u64> {
        self.roomid_shortstatehash@
    }

    /// The state snapshot that held at each event, by short identifiers.
    pub closed spec fn event_states(&self) -> Map<u64, u64> {
        self.shorteventid_shortstatehash@
    }

    /// The forward extremities of each room that has any recorded.
    pub closed spec fn leaves(&self) -> Map<Seq<char>, Seq<Seq<char>>> {
        Map::new(
            |room: Seq<char>| self.roomid_pduleaves@.contains_key(room),
            |room: Seq<char>| texts(self.roomid_pduleaves@[room]@),
        )
    }

    /// The forward extremities of `room`: the events with no known child,
    /// each once; none for a room without a record.
    pub open spec fn extremities(&self, room: Seq<char>) -> Seq<Seq<char>> {
        if self.leaves().contains_key(room) {
            self.leaves()[room]
        } else {
            Seq::empty()
        }
    }

    /// No room lists an extremity twice.
    pub proof fn extremities_are_distinct(&self, room: Seq<char>)
        requires
            self.wf(),
        ensures
            self.extremities(room).no_duplicates(),
    {
        if self.leaves().contains_key(room) {
            assert(self.roomid_pduleaves@.contains_key(room));
        }
    }

    /// Empty tables.
    pub fn new() -> (r: Self)
        ensures
            r.wf(),
            r.room_states() == Map::<Seq<char>, u64>::empty(),
            r.event_states() == Map::<u64, u64>::empty(),
            r.leaves() == Map::<Seq<char>, Seq<Seq<char>>>::empty(),
    {
        let r = Data {
            shorteventid_shortstatehash: KeyMap::new(),
            roomid_pduleaves: StrMap::new(),
            roomid_shortstatehash: StrMap::new(),
        };
        assert(r.leaves() =~= Map::<Seq<char>, Seq<Seq<char>>>::empty());
        r
    }

    /// The current state snapshot of `room_id`, if the room has one.
    pub fn get_room_shortstatehash(&self, room_id: &String) -> (r: Result<Option<u64>, Error>)
        requires
            self.wf(),
        ensures
            r == Ok::<Option<u64>, Error>(
                if self.room_states().contains_key(room_id@) {
                    Some(self.room_states()[room_id@])
                } else {
                    None
                },
            ),
    {
        match self.roomid_shortstatehash.get(room_id) {
            Some(v) => Ok(Some(*v)),
            None => Ok(None),
        }
    }

    /// Makes `new_shortstatehash` the current state snapshot of `room_id`.
    /// The caller holds the room's state gate.
    pub fn set_room_state(
        &mut self,
        room_id: &String,
        new_shortstatehash: u64,
        _mutex_lock: &RoomMutexGuard,
    ) -> (r: Result<(), Error>)
        requires
            old(self).wf(),
            guards_state(_mutex_lock, room_id@),
        ensures
            final(self).wf(),
            r.is_ok(),
            final(self).room_states() == old(self).room_states().insert(
                room_id@,
                new_shortstatehash,
            ),
            final(self).event_states() == old(self).event_states(),
            final(self).leaves() == old(self).leaves(),
    {
        self.roomid_shortstatehash.insert(room_id.clone(), new_shortstatehash);
        Ok(())
    }

    /// Records that the state snapshot `shortstatehash` held at the event
    /// `shorteventid`.
    pub fn set_event_state(&mut self, shorteventid: u64, shortstatehash: u64) -> (r: Result<
        (),
        Error,
    >)
        requires
            old(self).wf(),
        ensures
            final(self).wf(),
            r.is_ok(),
            final(self).event_states() == old(self).event_states().insert(
                shorteventid,
                shortstatehash,
            ),
            final(self).room_states() == old(self).room_states(),
            final(self).leaves() == old(self).leaves(),
    {
        self.shorteventid_shortstatehash.insert(shorteventid, shortstatehash);
        Ok(())
    }

    /// The state snapshot that held at the event `shorteventid`, if one was
    /// recorded.
    pub fn get_event_state(&self, shorteventid: u64) -> (r: Option<u64>)
        requires
            self.wf(),
        ensures
            r == (if self.event_states().contains_key(shorteventid) {
                Some(self.event_states()[shorteventid])
            } else {
                None
            }),
    {
        match self.shorteventid_shortstatehash.get(&shorteventid) {
            Some(v) => Some(*v),
            None => None,
        }
    }

    /// The forward extremities of `room_id`.
    pub fn get_forward_extremities(&self, room_id: &String) -> (r: Result<Vec<String>, Error>)
        requires
            self.wf(),
        ensures
            r matches Ok(ids) && texts(ids@) == self.extremities(room_id@),
    {
        match self.roomid_pduleaves.get(room_id) {
            Some(v) => Ok(copy_all(v)),
            None => {
                let ids: Vec<String> = Vec::new();
                assert(texts(ids@) =~= Seq::<Seq<char>>::empty());
                Ok(ids)
            },
        }
    }

    /// Replaces the forward extremities of `room_id` by `event_ids`, each
    /// kept once. The caller holds the room's state gate.
    pub fn set_forward_extremities(
        &mut self,
        room_id: &String,
        event_ids: Vec<String>,
        _mutex_lock: &RoomMutexGuard,
    ) -> (r: Result<(), Error>)
        requires
            old(self).wf(),
            guards_state(_mutex_lock, room_id@),
        ensures
            final(self).wf(),
            r.is_ok(),
            final(self).leaves() == old(self).leaves().insert(
                room_id@,
                distinct_of(texts(event_ids@)),
            ),
            final(self).extremities(room_id@) == distinct_of(texts(event_ids@)),
            final(self).room_states() == old(self).room_states(),
            final(self).event_states() == old(self).event_states(),
    {
        let ids = distinct(&event_ids);
        proof {
            crate::text::distinct_of_facts(texts(event_ids@));
        }
        self.roomid_pduleaves.insert(room_id.clone(), ids);
        assert(self.leaves() =~= old(self).leaves().insert(
            room_id@,
            distinct_of(texts(event_ids@)),
        ));
        Ok(())
    }
}

} // verus!
