//! The timeline of rooms: reading it, and the pipelines that extend it.

pub mod append;
pub mod backfill;
pub mod compose;
pub mod content;
pub mod create;
pub mod data;
pub mod fanout;
pub mod graph;
pub mod incoming;
pub mod key;
pub mod redact;

use crate::error::{Error, Reason};
use crate::gate::{GateKind, RoomMutexMap};
use crate::json::{members, Json, JsonObject};
use crate::pdu::{Pdu, PduEvent};
use crate::pdu_count::PduCount;
use crate::short;
use data::{
    entry_at, listed, listing, timeline_after, timeline_until, Data, PduId, Stored,
};
use vstd::prelude::*;

verus! {

/// The timeline service: the timeline store and the insertion gate, which
/// is held while a position is allocated and the event written under it.
pub struct Service {
    db: Data,
    mutex_insert: RoomMutexMap,
}

/// The event that stands at the recorded position of `event_id`: none where
/// the event has no position, a failure where its position holds no event,
/// which does not happen in a well-formed store.
pub open spec fn placed(
    stored: Seq<Stored>,
    positions: Map<Seq<char>, PduId>,
    event_id: Seq<char>,
) -> Result<Option<Stored>, Error> {
    if positions.contains_key(event_id) {
        match entry_at(stored, positions[event_id]) {
            Some(e) => Ok(Some(e)),
            None => Err(Error::BadDatabase(Reason::DanglingPduId)),
        }
    } else {
        Ok(None)
    }
}

/// The event `event_id` and its JSON form, from the timeline or else from
/// the outliers.
pub open spec fn known(
    stored: Seq<Stored>,
    positions: Map<Seq<char>, PduId>,
    outliers: Map<Seq<char>, (Pdu, Seq<(Seq<char>, Json)>)>,
    event_id: Seq<char>,
) -> Result<Option<(Pdu, Seq<(Seq<char>, Json)>)>, Error> {
    match placed(stored, positions, event_id) {
        Ok(Some(e)) => Ok(Some((e.pdu, e.json))),
        Ok(None) => if outliers.contains_key(event_id) {
            Ok(Some(outliers[event_id]))
        } else {
            Ok(None)
        },
        Err(e) => Err(e),
    }
}

/// The timeline and the global counter are in step: no stored position
/// was drawn from a counter value above the one the counter stands at. So
/// every position allocated from now on is a new one, and none is ever
/// overwritten.
pub open spec fn in_step(timeline: &Service, stores: &crate::Stores) -> bool {
    data::counter_bound(timeline.stored(), stores.globals.count())
}

/// The short identifier of `room`, or the failure of a listing in a room
/// that has none.
pub open spec fn room_key(rooms: Map<Seq<char>, u64>, room: Seq<char>) -> Result<u64, Error> {
    if rooms.contains_key(room) {
        Ok(rooms[room])
    } else {
        Err(Error::BadDatabase(Reason::UnknownShortRoomId))
    }
}

impl Service {
    /// The stored events, in ascending order of their positions.
    pub closed spec fn stored(&self) -> Seq<Stored> {
        self.db.stored()
    }

    /// The position of each event that has one, by event identifier.
    pub closed spec fn positions(&self) -> Map<Seq<char>, PduId> {
        self.db.positions()
    }

    /// The events that are known but stand at no position, by identifier.
    pub closed spec fn outliers(&self) -> Map<Seq<char>, (Pdu, Seq<(Seq<char>, Json)>)> {
        self.db.outliers()
    }

    /// The latest position that is remembered for each room.
    pub closed spec fn last_counts(&self) -> Map<Seq<char>, PduCount> {
        self.db.last_counts()
    }

    /// The insertion gate.
    pub closed spec fn insert_gate(&self) -> RoomMutexMap {
        self.mutex_insert
    }

    /// The store is well formed and the insertion gate is one.
    pub closed spec fn wf(&self) -> bool {
        &&& self.db.wf()
        &&& self.mutex_insert.wf()
        &&& self.mutex_insert.kind() == GateKind::Insert
    }

    /// What `wf` says of the stored events and of the insertion gate.
    pub proof fn wf_facts(&self)
        requires
            self.wf(),
        ensures
            data::ascending(self.stored()),
            self.insert_gate().wf(),
            self.insert_gate().kind() == GateKind::Insert,
    {
        self.db.stored_ascending();
    }

    /// A service with an empty store and a free insertion gate.
    pub fn build() -> (r: Self)
        ensures
            r.wf(),
            r.stored() == Seq::<Stored>::empty(),
            r.positions() == Map::<Seq<char>, PduId>::empty(),
            r.outliers() == Map::<Seq<char>, (Pdu, Seq<(Seq<char>, Json)>)>::empty(),
            r.last_counts() == Map::<Seq<char>, PduCount>::empty(),
            r.insert_gate().holders() == Seq::<Seq<char>>::empty(),
    {
        Service { db: Data::new(), mutex_insert: RoomMutexMap::new(GateKind::Insert) }
    }

    /// Whether the timeline is in step with the global counter of `stores`.
    pub fn is_in_step(&self, stores: &crate::Stores) -> (b: bool)
        ensures
            b == in_step(self, stores),
    {
        match stores.globals.current_count() {
            Ok(count) => self.db.bounded_by(count),
            Err(_) => false,
        }
    }

    /// The insertion gate, to look at.
    pub fn mutex_insert(&self) -> (r: &RoomMutexMap)
        ensures
            *r == self.insert_gate(),
    {
        &self.mutex_insert
    }

    /// The position within its room of the event `event_id`, if it has one.
    pub fn get_pdu_count(&self, event_id: &String) -> (r: Result<Option<PduCount>, Error>)
        requires
            self.wf(),
        ensures
            r == Ok::<Option<PduCount>, Error>(
                if self.positions().contains_key(event_id@) {
                    Some(self.positions()[event_id@].count)
                } else {
                    None
                },
            ),
    {
        self.db.get_pdu_count(event_id)
    }

    /// The position of the event `event_id`, if it has one.
    pub fn get_pdu_id(&self, event_id: &String) -> (r: Result<Option<PduId>, Error>)
        requires
            self.wf(),
        ensures
            r == Ok::<Option<PduId>, Error>(
                if self.positions().contains_key(event_id@) {
                    Some(self.positions()[event_id@])
                } else {
                    None
                },
            ),
    {
        self.db.get_pdu_id(event_id)
    }

    /// The event at position `pdu_id`, if there is one. Outliers stand at no
    /// position and are not found this way.
    pub fn get_pdu_from_id(&self, pdu_id: &PduId) -> (r: Result<Option<&PduEvent>, Error>)
        requires
            self.wf(),
        ensures
            r matches Ok(found) && match found {
                Some(p) => entry_at(self.stored(), *pdu_id) matches Some(e) && e.pdu == p.model(),
                None => entry_at(self.stored(), *pdu_id).is_none(),
            },
    {
        self.db.get_pdu_from_id(pdu_id)
    }

    /// The JSON form of the event at position `pdu_id`, if there is one.
    pub fn get_pdu_json_from_id(&self, pdu_id: &PduId) -> (r: Result<Option<&JsonObject>, Error>)
        requires
            self.wf(),
        ensures
            r matches Ok(found) && match found {
                Some(j) => entry_at(self.stored(), *pdu_id) matches Some(e) && e.json == members(
                    j@,
                ),
                None => entry_at(self.stored(), *pdu_id).is_none(),
            },
    {
        self.db.get_pdu_json_from_id(pdu_id)
    }

    /// The index in the store of the event `event_id`, where it has a
    /// position.
    fn locate(&self, event_id: &String) -> (r: Result<Option<PduId>, Error>)
        requires
            self.wf(),
        ensures
            r.is_ok(),
            match r {
                Ok(Some(id)) => placed(self.stored(), self.positions(), event_id@) == Ok::<
                    Option<Stored>,
                    Error,
                >(entry_at(self.stored(), id)) && entry_at(self.stored(), id).is_some(),
                Ok(None) => placed(self.stored(), self.positions(), event_id@) == Ok::<
                    Option<Stored>,
                    Error,
                >(None),
                Err(e) => placed(self.stored(), self.positions(), event_id@) == Err::<
                    Option<Stored>,
                    Error,
                >(e),
            },
    {
        proof {
            if self.positions().contains_key(event_id@) {
                self.db.positions_are_held(event_id@);
            }
        }
        match self.db.get_pdu_id(event_id)? {
            Some(id) => match self.db.get_pdu_from_id(&id)? {
                Some(_p) => Ok(Some(id)),
                None => Err(Error::BadDatabase(Reason::DanglingPduId)),
            },
            None => Ok(None),
        }
    }

    /// The event `event_id` if it stands in the timeline. This does not
    /// fail: every recorded position holds an event.
    pub fn get_non_outlier_pdu(&self, event_id: &String) -> (r: Result<Option<&PduEvent>, Error>)
        requires
            self.wf(),
        ensures
            r.is_ok(),
            match r {
                Ok(Some(p)) => placed(self.stored(), self.positions(), event_id@) matches Ok(
                    Some(e),
                ) && e.pdu == p.model(),
                Ok(None) => placed(self.stored(), self.positions(), event_id@) == Ok::<
                    Option<Stored>,
                    Error,
                >(None),
                Err(e) => placed(self.stored(), self.positions(), event_id@) == Err::<
                    Option<Stored>,
                    Error,
                >(e),
            },
    {
        match self.locate(event_id)? {
            Some(id) => self.db.get_pdu_from_id(&id),
            None => Ok(None),
        }
    }

    /// The JSON form of the event `event_id` if it stands in the timeline.
    /// This does not fail: every recorded position holds an event.
    pub fn get_non_outlier_pdu_json(&self, event_id: &String) -> (r: Result<
        Option<&JsonObject>,
        Error,
    >)
        requires
            self.wf(),
        ensures
            r.is_ok(),
            match r {
                Ok(Some(j)) => placed(self.stored(), self.positions(), event_id@) matches Ok(
                    Some(e),
                ) && e.json == members(j@),
                Ok(None) => placed(self.stored(), self.positions(), event_id@) == Ok::<
                    Option<Stored>,
                    Error,
                >(None),
                Err(e) => placed(self.stored(), self.positions(), event_id@) == Err::<
                    Option<Stored>,
                    Error,
                >(e),
            },
    {
        match self.locate(event_id)? {
            Some(id) => self.db.get_pdu_json_from_id(&id),
            None => Ok(None),
        }
    }

    /// The event `event_id`, from the timeline or else from the outliers.
    pub fn get_pdu(&self, event_id: &String) -> (r: Result<Option<&PduEvent>, Error>)
        requires
            self.wf(),
        ensures
            r.is_ok(),
            match r {
                Ok(Some(p)) => known(
                    self.stored(),
                    self.positions(),
                    self.outliers(),
                    event_id@,
                ) matches Ok(Some(k)) && k.0 == p.model(),
                Ok(None) => known(self.stored(), self.positions(), self.outliers(), event_id@)
                    == Ok::<Option<(Pdu, Seq<(Seq<char>, Json)>)>, Error>(None),
                Err(e) => known(self.stored(), self.positions(), self.outliers(), event_id@)
                    == Err::<Option<(Pdu, Seq<(Seq<char>, Json)>)>, Error>(e),
            },
    {
        match self.get_non_outlier_pdu(event_id)? {
            Some(p) => Ok(Some(p)),
            None => match self.db.outlier(event_id) {
                Some(o) => Ok(Some(&o.pdu)),
                None => Ok(None),
            },
        }
    }

    /// The JSON form of the event `event_id`, from the timeline or else from
    /// the outliers.
    pub fn get_pdu_json(&self, event_id: &String) -> (r: Result<Option<&JsonObject>, Error>)
        requires
            self.wf(),
        ensures
            r.is_ok(),
            match r {
                Ok(Some(j)) => known(
                    self.stored(),
                    self.positions(),
                    self.outliers(),
                    event_id@,
                ) matches Ok(Some(k)) && k.1 == members(j@),
                Ok(None) => known(self.stored(), self.positions(), self.outliers(), event_id@)
                    == Ok::<Option<(Pdu, Seq<(Seq<char>, Json)>)>, Error>(None),
                Err(e) => known(self.stored(), self.positions(), self.outliers(), event_id@)
                    == Err::<Option<(Pdu, Seq<(Seq<char>, Json)>)>, Error>(e),
            },
    {
        match self.get_non_outlier_pdu_json(event_id)? {
            Some(j) => Ok(Some(j)),
            None => match self.db.outlier(event_id) {
                Some(o) => Ok(Some(&o.json)),
                None => Ok(None),
            },
        }
    }

    /// Overwrites the event at position `pdu_id`, which must hold one; the
    /// position and the identifier tables stay as they are.
    pub fn replace_pdu(&mut self, pdu_id: &PduId, pdu_json: &JsonObject, pdu: &PduEvent) -> (r:
        Result<(), Error>)
        requires
            old(self).wf(),
        ensures
            final(self).wf(),
            final(self).positions() == old(self).positions(),
            final(self).outliers() == old(self).outliers(),
            final(self).last_counts() == old(self).last_counts(),
            final(self).insert_gate() == old(self).insert_gate(),
            forall|c: u64|
                data::counter_bound(old(self).stored(), c) ==> #[trigger] data::counter_bound(
                    final(self).stored(),
                    c,
                ),
            match r {
                Ok(()) => entry_at(old(self).stored(), *pdu_id).is_some() && final(self).stored()
                    == data::with_entry(
                    old(self).stored(),
                    Stored { id: *pdu_id, pdu: pdu.model(), json: members(pdu_json@) },
                ) && final(self).stored().len() == old(self).stored().len(),
                Err(e) => e == Error::BadRequest(
                    crate::error::ErrorKind::InvalidParam,
                    Reason::PduDoesNotExist,
                ) && entry_at(old(self).stored(), *pdu_id).is_none() && final(self).stored() == old(self).stored(),
            },
    {
        let ghost s0 = self.stored();
        let ghost e = Stored { id: *pdu_id, pdu: pdu.model(), json: members(pdu_json@) };
        proof {
            if entry_at(s0, *pdu_id).is_some() {
                assert forall|c: u64| data::counter_bound(s0, c) implies #[trigger] data::counter_bound(
                    data::with_entry(s0, e),
                    c,
                ) by {
                    let i = choose|i: int| 0 <= i < s0.len() && s0[i].id == *pdu_id;
                    assert(s0[i].id.count.raw() <= c);
                    data::with_entry_keeps_bound(s0, e, c, c);
                }
            }
        }
        self.db.replace_pdu(pdu_id, pdu_json, pdu)
    }

    /// Keeps `pdu` as an event that is known but stands at no position.
    pub fn add_pdu_outlier(&mut self, pdu: &PduEvent, json: &JsonObject)
        requires
            old(self).wf(),
        ensures
            final(self).wf(),
            final(self).stored() == old(self).stored(),
            final(self).positions() == old(self).positions(),
            final(self).insert_gate() == old(self).insert_gate(),
            final(self).outliers() == old(self).outliers().insert(
                pdu.event_id@,
                (pdu.model(), members(json@)),
            ),
    {
        self.db.add_pdu_outlier(pdu, json);
    }

    /// The events of `room_id` later than `from`, as `user_id` gets to see
    /// them, earliest first. Fails for a room without a short identifier.
    pub fn pdus_after(
        &self,
        short: &short::Service,
        user_id: &String,
        room_id: &String,
        from: PduCount,
    ) -> (r: Result<Vec<(PduCount, PduEvent)>, Error>)
        requires
            self.wf(),
            short.wf(),
        ensures
            match r {
                Ok(v) => room_key(short.rooms(), room_id@) matches Ok(room) && listing(v@)
                    == listed(timeline_after(self.stored(), room, from), user_id@),
                Err(e) => room_key(short.rooms(), room_id@) == Err::<u64, Error>(e),
            },
    {
        match short.get_shortroomid(room_id)? {
            Some(room) => Ok(self.db.pdus_after(user_id, room, from)),
            None => Err(Error::BadDatabase(Reason::UnknownShortRoomId)),
        }
    }

    /// The events of `room_id` earlier than `until`, as `user_id` gets to
    /// see them, latest first. Fails for a room without a short identifier.
    pub fn pdus_until(
        &self,
        short: &short::Service,
        user_id: &String,
        room_id: &String,
        until: PduCount,
    ) -> (r: Result<Vec<(PduCount, PduEvent)>, Error>)
        requires
            self.wf(),
            short.wf(),
        ensures
            match r {
                Ok(v) => room_key(short.rooms(), room_id@) matches Ok(room) && listing(v@)
                    == listed(timeline_until(self.stored(), room, until), user_id@),
                Err(e) => room_key(short.rooms(), room_id@) == Err::<u64, Error>(e),
            },
    {
        match short.get_shortroomid(room_id)? {
            Some(room) => Ok(self.db.pdus_until(user_id, room, until)),
            None => Err(Error::BadDatabase(Reason::UnknownShortRoomId)),
        }
    }

    /// All events of `room_id` but one at the earliest position there is, as
    /// `user_id` gets to see them, earliest first.
    pub fn all_pdus(&self, short: &short::Service, user_id: &String, room_id: &String) -> (r:
        Result<Vec<(PduCount, PduEvent)>, Error>)
        requires
            self.wf(),
            short.wf(),
        ensures
            match r {
                Ok(v) => room_key(short.rooms(), room_id@) matches Ok(room) && listing(v@)
                    == listed(
                    timeline_after(self.stored(), room, PduCount::Backfilled(u64::MAX)),
                    user_id@,
                ),
                Err(e) => room_key(short.rooms(), room_id@) == Err::<u64, Error>(e),
            },
    {
        self.pdus_after(short, user_id, room_id, PduCount::min())
    }

    /// The earliest event of `room_id` that `all_pdus` lists, as a user who
    /// sent none of them gets to see it.
    pub fn first_pdu_in_room(&self, short: &short::Service, room_id: &String) -> (r: Result<
        Option<PduEvent>,
        Error,
    >)
        requires
            self.wf(),
            short.wf(),
        ensures
            match r {
                Ok(found) => room_key(short.rooms(), room_id@) matches Ok(room) && ({
                    let all = listed(
                        timeline_after(self.stored(), room, PduCount::Backfilled(u64::MAX)),
                        Seq::<char>::empty(),
                    );
                    match found {
                        Some(p) => all.len() > 0 && p.model() == all.first().1,
                        None => all.len() == 0,
                    }
                }),
                Err(e) => room_key(short.rooms(), room_id@) == Err::<u64, Error>(e),
            },
    {
        let nobody = String::new();
        let mut all = self.all_pdus(short, &nobody, room_id)?;
        if all.len() == 0 {
            return Ok(None);
        }
        let ghost l = listing(all@);
        let first = all.remove(0);
        assert(l[0] == (first.0, first.1.model()));
        Ok(Some(first.1))
    }

    /// The latest event of `room_id` that `all_pdus` lists, as a user who
    /// sent none of them gets to see it.
    pub fn latest_pdu_in_room(&self, short: &short::Service, room_id: &String) -> (r: Result<
        Option<PduEvent>,
        Error,
    >)
        requires
            self.wf(),
            short.wf(),
        ensures
            match r {
                Ok(found) => room_key(short.rooms(), room_id@) matches Ok(room) && ({
                    let all = listed(
                        timeline_after(self.stored(), room, PduCount::Backfilled(u64::MAX)),
                        Seq::<char>::empty(),
                    );
                    match found {
                        Some(p) => all.len() > 0 && p.model() == all.last().1,
                        None => all.len() == 0,
                    }
                }),
                Err(e) => room_key(short.rooms(), room_id@) == Err::<u64, Error>(e),
            },
    {
        let nobody = String::new();
        let mut all = self.all_pdus(short, &nobody, room_id)?;
        let ghost l = listing(all@);
        match all.pop() {
            Some(last) => {
                assert(l[l.len() - 1] == (last.0, last.1.model()));
                Ok(Some(last.1))
            },
            None => Ok(None),
        }
    }

    /// The latest position in `room_id`: the one that is remembered for the
    /// room, or else the latest below the latest position there is, which
    /// is remembered from then on; the live position 0, which is not
    /// remembered, for a room without events.
    pub fn last_timeline_count(
        &mut self,
        short: &short::Service,
        sender_user: &String,
        room_id: &String,
    ) -> (r: Result<PduCount, Error>)
        requires
            old(self).wf(),
            short.wf(),
        ensures
            final(self).wf(),
            final(self).stored() == old(self).stored(),
            final(self).positions() == old(self).positions(),
            final(self).outliers() == old(self).outliers(),
            final(self).insert_gate() == old(self).insert_gate(),
            if old(self).last_counts().contains_key(room_id@) {
                r == Ok::<PduCount, Error>(old(self).last_counts()[room_id@]) && final(self).last_counts() == old(self).last_counts()
            } else {
                match room_key(short.rooms(), room_id@) {
                    Err(e) => r == Err::<PduCount, Error>(e) && final(self).last_counts() == old(self).last_counts(),
                    Ok(room) => {
                        let all = timeline_until(
                            old(self).stored(),
                            room,
                            PduCount::Normal(u64::MAX),
                        );
                        if all.len() > 0 {
                            r == Ok::<PduCount, Error>(all.first().id.count) && final(self).last_counts() == old(self).last_counts().insert(
                                room_id@,
                                all.first().id.count,
                            )
                        } else {
                            r == Ok::<PduCount, Error>(PduCount::Normal(0)) && final(self).last_counts() == old(self).last_counts()
                        }
                    },
                }
            },
    {
        match self.db.cached_count(room_id) {
            Some(c) => {
                return Ok(c);
            },
            None => {},
        }
        let all = self.pdus_until(short, sender_user, room_id, PduCount::max())?;
        proof {
            let room = short.rooms()[room_id@];
            let t = timeline_until(self.stored(), room, PduCount::Normal(u64::MAX));
            assert(listing(all@).len() == all@.len());
            assert(listed(t, sender_user@).len() == t.len());
            if all@.len() > 0 {
                assert(listing(all@)[0].0 == all@[0].0);
                assert(listed(t, sender_user@)[0].0 == t[0].id.count);
            }
        }
        if all.len() > 0 {
            let latest = all[0].0;
            self.db.cache_count(room_id, latest);
            Ok(latest)
        } else {
            Ok(PduCount::Normal(0))
        }
    }

    /// How much the service holds in memory: the remembered latest
    /// positions and the rooms whose insertion gate is held.
    pub fn memory_usage(&self) -> (r: MemoryUsage)
        requires
            self.wf(),
        ensures
            r.lasttimelinecount_cache == self.last_counts().dom().len(),
            r.insert_mutex == self.insert_gate().holders().len(),
    {
        MemoryUsage {
            lasttimelinecount_cache: self.db.cache_len(),
            insert_mutex: self.mutex_insert.len(),
        }
    }

    /// Forgets the remembered latest positions.
    pub fn clear_cache(&mut self)
        requires
            old(self).wf(),
        ensures
            final(self).wf(),
            final(self).stored() == old(self).stored(),
            final(self).positions() == old(self).positions(),
            final(self).outliers() == old(self).outliers(),
            final(self).insert_gate() == old(self).insert_gate(),
            final(self).last_counts() == Map::<Seq<char>, PduCount>::empty(),
    {
        self.db.clear_cache();
    }
}

/// What a timeline service holds in memory, in entries.
#[derive(Clone, Copy, Debug, PartialEq, Eq)]
pub struct MemoryUsage {
    pub lasttimelinecount_cache: usize,
    pub insert_mutex: usize,
}

} // verus!
