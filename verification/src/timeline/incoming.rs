//! Appending an event that came from another server.

use super::append::{appended, AppendContext, AppendOutcome};
use super::create::{registered, registration_failure};
use super::{in_step, Service};
use crate::error::Error;
use crate::gate::RoomMutexGuard;
use crate::json::{members, JsonObject};
use crate::pdu::PduEvent;
use crate::state::guards_state;
use crate::text::{copy_all, distinct_of, texts};
use crate::Stores;
use vstd::prelude::*;

verus! {

/// What became of an incoming event.
#[derive(Debug)]
pub enum Incoming {
    /// The event was soft-failed: it belongs to the state graph, its
    /// parents have a child now, and it stands at no position.
    SoftFailed { referenced: Vec<String> },
    /// The event was appended to the timeline.
    Appended(AppendOutcome),
}

/// The stores `after` are the stores `before` with `hash` recorded as the
/// state snapshot at the event with the short identifier `shorteventid`.
pub open spec fn event_state_set(
    before: &Stores,
    after: &Stores,
    shorteventid: u64,
    hash: u64,
) -> bool {
    &&& after.wf()
    &&& after.globals == before.globals
    &&& after.short == before.short
    &&& after.read_receipt == before.read_receipt
    &&& after.user == before.user
    &&& after.state.leaves() == before.state.leaves()
    &&& after.state.room_states() == before.state.room_states()
    &&& after.state.event_states() == before.state.event_states().insert(shorteventid, hash)
}

/// The stores `after` are the stores `before` with `leaves`, each once, as
/// the forward extremities of `room`.
pub open spec fn extremities_set(
    before: &Stores,
    after: &Stores,
    room: Seq<char>,
    leaves: Seq<Seq<char>>,
) -> bool {
    &&& after.wf()
    &&& after.globals == before.globals
    &&& after.short == before.short
    &&& after.read_receipt == before.read_receipt
    &&& after.user == before.user
    &&& after.state.leaves() == before.state.leaves().insert(room, distinct_of(leaves))
    &&& after.state.room_states() == before.state.room_states()
    &&& after.state.event_states() == before.state.event_states()
}

/// The steps of `append_incoming_pdu`, with what each of them left behind.
///
/// First the event gets a short identifier, which leaves the stores `named`
/// and can only fail where the global counter has run out; then `hash` is
/// recorded as the state snapshot at the event, which leaves `marked`. A
/// soft-failed event goes no further than into the state graph: its room
/// gets the new forward extremities and the timeline stays as it is. Any
/// other event is appended, which gives `app`.
pub open spec fn incoming_steps(
    before: &Service,
    stores_before: &Stores,
    after: &Service,
    stores_now: &Stores,
    ctx: &AppendContext,
    pdu: &PduEvent,
    json: Seq<(Seq<char>, crate::json::Json)>,
    leaves: Seq<Seq<char>>,
    hash: u64,
    soft_fail: bool,
    named: &Stores,
    marked: &Stores,
    app: Result<AppendOutcome, Error>,
    r: Result<Incoming, Error>,
) -> bool {
    let timeline_kept = {
        &&& after.stored() == before.stored()
        &&& after.positions() == before.positions()
        &&& after.outliers() == before.outliers()
        &&& after.last_counts() == before.last_counts()
    };
    &&& registered(stores_before, named, pdu.event_id@)
    &&& match registration_failure(stores_before, pdu.event_id@) {
        Some(e) => r == Err::<Incoming, Error>(e) && timeline_kept && *stores_now == *named,
        None => {
            &&& named.short.events().contains_key(pdu.event_id@)
            &&& event_state_set(named, marked, named.short.events()[pdu.event_id@], hash)
            &&& if soft_fail {
                &&& timeline_kept
                &&& extremities_set(marked, stores_now, pdu.room_id@, leaves)
                &&& r matches Ok(Incoming::SoftFailed { referenced })
                &&& texts(referenced@) == pdu.model().prev_events
            } else {
                &&& appended(before, marked, after, stores_now, ctx, pdu, json, leaves, app)
                &&& match app {
                    Ok(out) => r matches Ok(Incoming::Appended(o)) && o == out,
                    Err(e) => r == Err::<Incoming, Error>(e),
                }
            }
        },
    }
}

/// A soft-failed event gets no position: the stored events and the
/// recorded positions are as they were, so every listing of every room
/// shows what it showed before. Unless the global counter has run out, the
/// event is part of the state graph all the same: the given snapshot is
/// recorded as the state at it, its parents are handed back as referenced,
/// and the room's forward extremities are the given leaves, each once.
pub proof fn soft_failed_event_stays_out(
    before: &Service,
    stores_before: &Stores,
    after: &Service,
    stores_now: &Stores,
    ctx: &AppendContext,
    pdu: &PduEvent,
    json: Seq<(Seq<char>, crate::json::Json)>,
    leaves: Seq<Seq<char>>,
    hash: u64,
    named: &Stores,
    marked: &Stores,
    app: Result<AppendOutcome, Error>,
    r: Result<Incoming, Error>,
)
    requires
        incoming_steps(
            before,
            stores_before,
            after,
            stores_now,
            ctx,
            pdu,
            json,
            leaves,
            hash,
            true,
            named,
            marked,
            app,
            r,
        ),
    ensures
        after.stored() == before.stored(),
        after.positions() == before.positions(),
        forall|room: u64, from: crate::pdu_count::PduCount|
            #[trigger] super::data::timeline_after(after.stored(), room, from)
                == super::data::timeline_after(before.stored(), room, from),
        forall|room: u64, until: crate::pdu_count::PduCount|
            #[trigger] super::data::timeline_until(after.stored(), room, until)
                == super::data::timeline_until(before.stored(), room, until),
        match registration_failure(stores_before, pdu.event_id@) {
            Some(e) => r == Err::<Incoming, Error>(e),
            None => {
                &&& r matches Ok(Incoming::SoftFailed { referenced })
                &&& texts(referenced@) == pdu.model().prev_events
                &&& stores_now.short.events().contains_key(pdu.event_id@)
                &&& stores_now.state.event_states().contains_key(
                    stores_now.short.events()[pdu.event_id@],
                )
                &&& stores_now.state.event_states()[stores_now.short.events()[pdu.event_id@]]
                    == hash
                &&& stores_now.state.extremities(pdu.room_id@) == distinct_of(leaves)
            },
        },
{
}

impl Service {
    /// Takes in an event from another server, with the state snapshot
    /// `shortstatehash` that the sending server resolved for it.
    ///
    /// The snapshot is recorded as the state at the event. A soft-failed
    /// event is then done: it is part of the state graph, the room's forward
    /// extremities become `new_room_leaves`, and it gets no position, so no
    /// listing of the timeline ever shows it. Any other event is appended
    /// as by `append_pdu`.
    ///
    /// The caller holds the state gate of the room, the room has a short
    /// identifier, its insertion gate is free, and the global counter has
    /// four values left.
    pub fn append_incoming_pdu(
        &mut self,
        stores: &mut Stores,
        ctx: &AppendContext,
        pdu: &PduEvent,
        pdu_json: JsonObject,
        new_room_leaves: Vec<String>,
        shortstatehash: u64,
        soft_fail: bool,
        state_lock: &RoomMutexGuard,
    ) -> (r: Result<Incoming, Error>)
        requires
            old(self).wf(),
            old(stores).wf(),
            guards_state(state_lock, pdu.room_id@),
            old(stores).short.rooms().contains_key(pdu.room_id@),
            !old(self).insert_gate().is_locked(pdu.room_id@),
            old(stores).globals.count() <= u64::MAX - 4,
            in_step(old(self), old(stores)),
        ensures
            final(self).wf(),
            final(stores).wf(),
            final(self).insert_gate().holders() == old(self).insert_gate().holders(),
            in_step(final(self), final(stores)),
            exists|named: Stores, marked: Stores, app: Result<AppendOutcome, Error>| #[trigger]
                incoming_steps(
                    old(self),
                    old(stores),
                    final(self),
                    final(stores),
                    ctx,
                    pdu,
                    members(pdu_json@),
                    texts(new_room_leaves@),
                    shortstatehash,
                    soft_fail,
                    &named,
                    &marked,
                    app,
                    r,
                ),
            soft_fail ==> final(self).stored() == old(self).stored(),
            soft_fail ==> final(self).positions() == old(self).positions(),
    {
        let ghost before = *self;
        let ghost start = *stores;
        let ghost no_app: Result<AppendOutcome, Error> = arbitrary();
        let shorteventid = match stores.short.get_or_create_shorteventid(
            &mut stores.globals,
            &pdu.event_id,
        ) {
            Ok(id) => id,
            Err(e) => {
                proof {
                    assert(incoming_steps(
                        &before,
                        &start,
                        self,
                        stores,
                        ctx,
                        pdu,
                        members(pdu_json@),
                        texts(new_room_leaves@),
                        shortstatehash,
                        soft_fail,
                        stores,
                        stores,
                        no_app,
                        Err(e),
                    ));
                }
                return Err(e);
            },
        };
        let ghost named = *stores;
        let _ = stores.state.set_event_state(shorteventid, shortstatehash);
        let ghost marked = *stores;
        if soft_fail {
            let _ = stores.state.set_forward_extremities(&pdu.room_id, new_room_leaves, state_lock);
            let r = Ok(Incoming::SoftFailed { referenced: copy_all(&pdu.prev_events) });
            proof {
                assert(incoming_steps(
                    &before,
                    &start,
                    self,
                    stores,
                    ctx,
                    pdu,
                    members(pdu_json@),
                    texts(new_room_leaves@),
                    shortstatehash,
                    soft_fail,
                    &named,
                    &marked,
                    no_app,
                    r,
                ));
            }
            return r;
        }
        let app = self.append_pdu(stores, ctx, pdu, pdu_json, new_room_leaves, state_lock);
        let ghost app_copy = app;
        let r = match app {
            Ok(out) => Ok(Incoming::Appended(out)),
            Err(e) => Err(e),
        };
        proof {
            assert(incoming_steps(
                &before,
                &start,
                self,
                stores,
                ctx,
                pdu,
                members(pdu_json@),
                texts(new_room_leaves@),
                shortstatehash,
                soft_fail,
                &named,
                &marked,
                app_copy,
                r,
            ));
        }
        r
    }
}

} // verus!
