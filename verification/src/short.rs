//! Short identifiers: compact integers that stand for rooms and events.

use crate::error::Error;
use crate::globals;
use crate::keymap::StrMap;
use vstd::prelude::*;

verus! {

/// The tables from room and event identifiers to their short identifiers.
pub struct Service {
    roomid_shortroomid: StrMap<u64>,
    eventid_shorteventid: StrMap<u64>,
}

impl Service {
    /// The tables are well formed.
    pub closed spec fn wf(&self) -> bool {
        self.roomid_shortroomid.wf() && self.eventid_shorteventid.wf()
    }

    /// The short identifier of each known room.
    pub closed spec fn rooms(&self) -> Map<Seq<char>, u64> {
        self.roomid_shortroomid@
    }

    /// The short identifier of each known event.
    pub closed spec fn events(&self) -> Map<Seq<char>, u64> {
        self.eventid_shorteventid@
    }

    /// Empty tables.
    pub fn new() -> (r: Self)
        ensures
            r.wf(),
            r.rooms() == Map::<Seq<char>, u64>::empty(),
            r.events() == Map::<Seq<char>, u64>::empty(),
    {
        Service { roomid_shortroomid: StrMap::new(), eventid_shorteventid: StrMap::new() }
    }

    /// The short identifier of `room_id`, if the room has one.
    pub fn get_shortroomid(&self, room_id: &String) -> (r: Result<Option<u64>, Error>)
        requires
            self.wf(),
        ensures
            r == Ok::<Option<u64>, Error>(
                if self.rooms().contains_key(room_id@) {
                    Some(self.rooms()[room_id@])
                } else {
                    None
                },
            ),
    {
        match self.roomid_shortroomid.get(room_id) {
            Some(v) => Ok(Some(*v)),
            None => Ok(None),
        }
    }

    /// The short identifier of `event_id`, if the event has one.
    pub fn get_shorteventid(&self, event_id: &String) -> (r: Result<Option<u64>, Error>)
        requires
            self.wf(),
        ensures
            r == Ok::<Option<u64>, Error>(
                if self.events().contains_key(event_id@) {
                    Some(self.events()[event_id@])
                } else {
                    None
                },
            ),
    {
        match self.eventid_shorteventid.get(event_id) {
            Some(v) => Ok(Some(*v)),
            None => Ok(None),
        }
    }

    /// The short identifier of `room_id`. A room that has none gets the next
    /// value of the global counter; asking again returns the same value.
    pub fn get_or_create_shortroomid(
        &mut self,
        globals: &mut globals::Data,
        room_id: &String,
    ) -> (r: Result<u64, Error>)
        requires
            old(self).wf(),
        ensures
            final(self).wf(),
            final(self).events() == old(self).events(),
            final(globals).same_marks(old(globals)),
            old(self).rooms().contains_key(room_id@) ==> {
                &&& r == Ok::<u64, Error>(old(self).rooms()[room_id@])
                &&& final(self).rooms() == old(self).rooms()
                &&& final(globals).count() == old(globals).count()
            },
            !old(self).rooms().contains_key(room_id@) ==> {
                &&& r == old(globals).next_count_spec()
                &&& final(globals).count() == old(globals).count_after(1)
                &&& final(self).rooms() == (match r {
                    Ok(n) => old(self).rooms().insert(room_id@, n),
                    Err(_) => old(self).rooms(),
                })
            },
    {
        match self.roomid_shortroomid.get(room_id) {
            Some(v) => Ok(*v),
            None => {
                let n = globals.next_count()?;
                self.roomid_shortroomid.insert(room_id.clone(), n);
                Ok(n)
            },
        }
    }

    /// The short identifier of `event_id`. An event that has none gets the
    /// next value of the global counter; asking again returns the same value.
    pub fn get_or_create_shorteventid(
        &mut self,
        globals: &mut globals::Data,
        event_id: &String,
    ) -> (r: Result<u64, Error>)
        requires
            old(self).wf(),
        ensures
            final(self).wf(),
            final(self).rooms() == old(self).rooms(),
            final(globals).same_marks(old(globals)),
            old(self).events().contains_key(event_id@) ==> {
                &&& r == Ok::<u64, Error>(old(self).events()[event_id@])
                &&& final(self).events() == old(self).events()
                &&& final(globals).count() == old(globals).count()
            },
            !old(self).events().contains_key(event_id@) ==> {
                &&& r == old(globals).next_count_spec()
                &&& final(globals).count() == old(globals).count_after(1)
                &&& final(self).events() == (match r {
                    Ok(n) => old(self).events().insert(event_id@, n),
                    Err(_) => old(self).events(),
                })
            },
    {
        match self.eventid_shorteventid.get(event_id) {
            Some(v) => Ok(*v),
            None => {
                let n = globals.next_count()?;
                self.eventid_shorteventid.insert(event_id.clone(), n);
                Ok(n)
            },
        }
    }
}

} // verus!
