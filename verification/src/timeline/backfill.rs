//! Filling gaps below the earliest known event of a room from other servers.

use super::content::{body_of, extract_body, levels_declared, read_levels};
use super::data::{
    entry_at, fresh_backfill_is_earliest, fresh_position_is_free, id_before, listed, listing,
    timeline_after, with_entry, with_entry_facts, with_entry_keeps_bound, PduId, Stored,
};
use super::redact::flat_body;
use super::{in_step, Service};
use crate::error::{Error, Reason};
use crate::gate::{lock_then_unlock, GateKind, RoomMutexGuard};
use crate::identifiers::{server_name_of, server_part};
use crate::json::JsonValue;
use crate::pdu::{kind_is, opt_text, room_message};
use crate::pdu_count::PduCount;
use crate::protocol::{level_entries, PowerLevels};
use crate::text::{contains, texts};
use crate::Stores;
use vstd::prelude::*;

verus! {

/// What the rest of the server knows that bears on asking for history.
#[derive(Debug)]
pub struct BackfillContext {
    /// The content of the room's current power levels, if it has any.
    pub power_levels: Option<JsonValue>,
    /// The local aliases of the room.
    pub local_aliases: Vec<String>,
    /// The servers that the configuration names as trusted.
    pub trusted_servers: Vec<String>,
    /// The servers that have members in the room.
    pub servers_in_room: Vec<String>,
    /// The name of this server.
    pub server_name: String,
}

/// How many events one request for history asks for at most.
pub const BACKFILL_LIMIT: u64 = 100;

/// Whether history is to be asked for, and if so, of whom and from where.
#[derive(Debug)]
pub enum BackfillPlan {
    /// The earliest event at hand stands at or after the requested
    /// position: there is no gap.
    NotRequired,
    /// Ask these servers in turn for at most `limit` events before
    /// `first_event_id`; the first that answers wins.
    Ask { servers: Vec<String>, first_event_id: String, limit: u64 },
}

/// What to do after a server was asked for history.
#[derive(Clone, Copy, Debug, PartialEq, Eq, Structural)]
pub enum BackfillStep {
    /// Ask the server at this index of the plan.
    Ask(usize),
    /// Stop asking. This is no failure, whether a server answered or none
    /// did.
    Finish,
}

/// What follows when the server at index `asked` of `servers` was asked:
/// after an answer no further server is asked; after a failure the next
/// server is asked, and after the last one the asking ends.
pub fn backfill_next(servers: &Vec<String>, asked: usize, answered: bool) -> (next: BackfillStep)
    requires
        asked < servers@.len(),
    ensures
        next == (if answered || asked + 1 >= servers@.len() {
            BackfillStep::Finish
        } else {
            BackfillStep::Ask((asked + 1) as usize)
        }),
{
    if answered || asked >= servers.len() - 1 {
        BackfillStep::Finish
    } else {
        BackfillStep::Ask(asked + 1)
    }
}

/// The first step of a plan: the first server, if there is one.
pub fn backfill_first(servers: &Vec<String>) -> (next: BackfillStep)
    ensures
        next == (if servers@.len() == 0 {
            BackfillStep::Finish
        } else {
            BackfillStep::Ask(0)
        }),
{
    if servers.len() == 0 {
        BackfillStep::Finish
    } else {
        BackfillStep::Ask(0)
    }
}

/// Which event of an answer is taken in after the one at index `done`:
/// the next one, whether the one before could be prepended or not. A
/// failed event does not end the batch.
pub fn batch_next(events: usize, done: usize, failed: bool) -> (next: Option<usize>)
    requires
        done < events,
    ensures
        next == (if done + 1 < events {
            Some((done + 1) as usize)
        } else {
            None::<usize>
        }),
{
    if done < events - 1 {
        Some(done + 1)
    } else {
        None
    }
}

/// What asking for history comes to in the end: success, whether a server
/// answered or none did, and whether every event of the answer could be
/// prepended or not.
pub fn backfill_result(answered: bool, failed_events: usize) -> (r: Result<(), Error>)
    ensures
        r == Ok::<(), Error>(()),
{
    Ok(())
}

/// The servers of the users whose level lies above the level of everyone
/// else, this server left out, in the order of the users.
pub open spec fn moderator_servers(levels: Seq<(Seq<char>, i64)>, default: i64, own: Seq<char>) -> Seq<
    Seq<char>,
>
    decreases levels.len(),
{
    if levels.len() == 0 {
        Seq::empty()
    } else {
        let rest = moderator_servers(levels.drop_last(), default, own);
        if levels.last().1 > default && server_part(levels.last().0) != own {
            rest.push(server_part(levels.last().0))
        } else {
            rest
        }
    }
}

/// The servers of a list of identifiers, this server left out.
pub open spec fn foreign_servers(ids: Seq<Seq<char>>, own: Seq<char>) -> Seq<Seq<char>>
    decreases ids.len(),
{
    if ids.len() == 0 {
        Seq::empty()
    } else {
        let rest = foreign_servers(ids.drop_last(), own);
        if server_part(ids.last()) != own {
            rest.push(server_part(ids.last()))
        } else {
            rest
        }
    }
}

/// Those of `servers` that are not this server and have members in the
/// room, in their order.
pub open spec fn present(servers: Seq<Seq<char>>, own: Seq<char>, in_room: Seq<Seq<char>>) -> Seq<
    Seq<char>,
>
    decreases servers.len(),
{
    if servers.len() == 0 {
        Seq::empty()
    } else {
        let rest = present(servers.drop_last(), own, in_room);
        if servers.last() != own && in_room.contains(servers.last()) {
            rest.push(servers.last())
        } else {
            rest
        }
    }
}

/// The servers to ask for history, most preferred first: the servers of
/// the room's moderators, then those behind its local aliases, then the
/// trusted ones; of all these only such as are in the room, and never this
/// server.
pub open spec fn candidates(
    levels: Option<(Seq<(Seq<char>, i64)>, i64)>,
    ctx: &BackfillContext,
) -> Seq<Seq<char>> {
    let own = ctx.server_name@;
    let mods = match levels {
        Some(l) => moderator_servers(l.0, l.1, own),
        None => Seq::empty(),
    };
    present(
        mods + foreign_servers(texts(ctx.local_aliases@), own) + texts(ctx.trusted_servers@),
        own,
        texts(ctx.servers_in_room@),
    )
}

/// The levels that a context declares: none where the room has no power
/// levels, a failure where their content cannot be read.
pub open spec fn levels_in(ctx: &BackfillContext) -> Result<
    Option<(Seq<(Seq<char>, i64)>, i64)>,
    Error,
> {
    match ctx.power_levels {
        None => Ok(None),
        Some(c) => match levels_declared(c.model()) {
            Some(l) => Ok(Some(l)),
            None => Err(Error::BadDatabase(Reason::InvalidPowerLevels)),
        },
    }
}

/// Filters `found` as `present` does and adds the result to `out`.
fn add_present(out: &mut Vec<String>, found: &Vec<String>, ctx: &BackfillContext)
    ensures
        texts(final(out)@) == texts(old(out)@) + present(
            texts(found@),
            ctx.server_name@,
            texts(ctx.servers_in_room@),
        ),
{
    let ghost fs = texts(found@);
    let ghost base = texts(out@);
    let mut i: usize = 0;
    proof {
        assert(fs.take(0) =~= Seq::<Seq<char>>::empty());
        assert(texts(out@) =~= base + present(
            fs.take(0),
            ctx.server_name@,
            texts(ctx.servers_in_room@),
        ));
    }
    while i < found.len()
        invariant
            i <= found@.len(),
            fs == texts(found@),
            texts(out@) == base + present(
                fs.take(i as int),
                ctx.server_name@,
                texts(ctx.servers_in_room@),
            ),
        decreases found@.len() - i,
    {
        proof {
            assert(fs.take(i as int + 1).drop_last() =~= fs.take(i as int));
            assert(fs.take(i as int + 1).last() == found@[i as int]@);
        }
        let s = &found[i];
        if *s != ctx.server_name && contains(&ctx.servers_in_room, s) {
            let ghost before = texts(out@);
            out.push(s.clone());
            assert(texts(out@) =~= before.push(s@));
            assert(texts(out@) =~= base + present(
                fs.take(i as int + 1),
                ctx.server_name@,
                texts(ctx.servers_in_room@),
            ));
        }
        i += 1;
    }
    assert(fs.take(found@.len() as int) =~= fs);
}

/// `present` goes through a concatenation part by part.
proof fn present_of_concat(
    a: Seq<Seq<char>>,
    b: Seq<Seq<char>>,
    own: Seq<char>,
    in_room: Seq<Seq<char>>,
)
    ensures
        present(a + b, own, in_room) == present(a, own, in_room) + present(b, own, in_room),
    decreases b.len(),
{
    if b.len() == 0 {
        assert(a + b =~= a);
        assert(present(a, own, in_room) + present(b, own, in_room) =~= present(a, own, in_room));
    } else {
        present_of_concat(a, b.drop_last(), own, in_room);
        assert((a + b).drop_last() =~= a + b.drop_last());
        assert((a + b).last() == b.last());
        if b.last() != own && in_room.contains(b.last()) {
            assert(present(a + b, own, in_room) =~= present(a, own, in_room) + present(
                b,
                own,
                in_room,
            ));
        }
    }
}

/// The servers to ask for history, most preferred first.
pub fn backfill_candidates(ctx: &BackfillContext) -> (r: Result<Vec<String>, Error>)
    ensures
        match r {
            Ok(servers) => levels_in(ctx) matches Ok(l) && texts(servers@) == candidates(l, ctx),
            Err(e) => levels_in(ctx) == Err::<Option<(Seq<(Seq<char>, i64)>, i64)>, Error>(e),
        },
{
    let levels: Option<PowerLevels> = match &ctx.power_levels {
        None => None,
        Some(c) => match read_levels(c) {
            Some(l) => Some(l),
            None => {
                return Err(Error::BadDatabase(Reason::InvalidPowerLevels));
            },
        },
    };
    let ghost own = ctx.server_name@;
    let mut mods: Vec<String> = Vec::new();
    assert(texts(mods@) =~= Seq::<Seq<char>>::empty());
    match &levels {
        Some(l) => {
            let ghost entries = level_entries(l.users@);
            let mut i: usize = 0;
            assert(entries.take(0) =~= Seq::<(Seq<char>, i64)>::empty());
            while i < l.users.len()
                invariant
                    i <= l.users@.len(),
                    entries == level_entries(l.users@),
                    own == ctx.server_name@,
                    texts(mods@) == moderator_servers(entries.take(i as int), l.users_default, own),
                decreases l.users@.len() - i,
            {
                proof {
                    assert(entries.take(i as int + 1).drop_last() =~= entries.take(i as int));
                    assert(entries.take(i as int + 1).last() == (
                        l.users@[i as int].0@,
                        l.users@[i as int].1,
                    ));
                }
                if l.users[i].1 > l.users_default {
                    let server = server_name_of(&l.users[i].0);
                    if server != ctx.server_name {
                        let ghost before = texts(mods@);
                        mods.push(server);
                        assert(texts(mods@) =~= before.push(server_part(l.users@[i as int].0@)));
                    }
                }
                i += 1;
            }
            assert(entries.take(l.users@.len() as int) =~= entries);
        },
        None => {},
    }
    let mut aliases: Vec<String> = Vec::new();
    let ghost als = texts(ctx.local_aliases@);
    let mut i: usize = 0;
    proof {
        assert(als.take(0) =~= Seq::<Seq<char>>::empty());
        assert(texts(aliases@) =~= Seq::<Seq<char>>::empty());
    }
    while i < ctx.local_aliases.len()
        invariant
            i <= ctx.local_aliases@.len(),
            als == texts(ctx.local_aliases@),
            own == ctx.server_name@,
            texts(aliases@) == foreign_servers(als.take(i as int), own),
        decreases ctx.local_aliases@.len() - i,
    {
        proof {
            assert(als.take(i as int + 1).drop_last() =~= als.take(i as int));
            assert(als.take(i as int + 1).last() == ctx.local_aliases@[i as int]@);
        }
        let server = server_name_of(&ctx.local_aliases[i]);
        if server != ctx.server_name {
            let ghost before = texts(aliases@);
            aliases.push(server);
            assert(texts(aliases@) =~= before.push(server_part(ctx.local_aliases@[i as int]@)));
        }
        i += 1;
    }
    assert(als.take(ctx.local_aliases@.len() as int) =~= als);
    let mut out: Vec<String> = Vec::new();
    assert(texts(out@) =~= Seq::<Seq<char>>::empty());
    add_present(&mut out, &mods, ctx);
    add_present(&mut out, &aliases, ctx);
    add_present(&mut out, &ctx.trusted_servers, ctx);
    proof {
        let in_room = texts(ctx.servers_in_room@);
        let a = texts(mods@);
        let b = texts(aliases@);
        let c = texts(ctx.trusted_servers@);
        present_of_concat(a, b, own, in_room);
        present_of_concat(a + b, c, own, in_room);
        assert(texts(out@) =~= present(a + b + c, own, in_room));
    }
    Ok(out)
}

/// What a prepended event left to do.
#[derive(Debug)]
pub enum Backfilled {
    /// The event already stood in the timeline; nothing was done.
    AlreadyKnown,
    /// The event was prepended at `pdu_id`; `search_body` is the text to
    /// feed to the search index, if there is one.
    Prepended { pdu_id: PduId, search_body: Option<String> },
}

/// Whether `lock` proves exclusive access to the federation intake of
/// `room_id`.
pub open spec fn guards_federation(lock: &RoomMutexGuard, room_id: Seq<char>) -> bool {
    lock.kind() == GateKind::Federation && lock.room() == room_id
}

/// What `backfill_pdu` returns and leaves behind. An event that stands in
/// the timeline already is left alone. Once the global counter has run out
/// nothing is stored. Otherwise the event, which was an outlier, stands at
/// the historical position drawn from the next value of the counter, and
/// its identifier leads there; a message whose body cannot be read is
/// reported as a failure all the same, with the event stored.
pub open spec fn prepended(
    before: &Service,
    stores_before: &Stores,
    after: &Service,
    stores_now: &Stores,
    event_id: Seq<char>,
    room_id: Seq<char>,
    r: Result<Backfilled, Error>,
) -> bool {
    if before.positions().contains_key(event_id) {
        &&& r matches Ok(Backfilled::AlreadyKnown)
        &&& after.stored() == before.stored()
        &&& after.positions() == before.positions()
        &&& after.outliers() == before.outliers()
        &&& after.last_counts() == before.last_counts()
        &&& stores_now.globals.count() == stores_before.globals.count()
    } else {
        let found = before.outliers()[event_id];
        match stores_before.globals.next_count_spec() {
            Err(e) => {
                &&& r == Err::<Backfilled, Error>(e)
                &&& after.stored() == before.stored()
                &&& after.positions() == before.positions()
                &&& after.outliers() == before.outliers()
                &&& after.last_counts() == before.last_counts()
                &&& stores_now.globals.count() == stores_before.globals.count()
            },
            Ok(count) => {
                let id = PduId {
                    shortroomid: stores_before.short.rooms()[room_id],
                    count: PduCount::Backfilled(count),
                };
                &&& stores_now.globals.count() == count
                &&& after.stored() == with_entry(
                    before.stored(),
                    Stored { id, pdu: found.0, json: found.1 },
                )
                &&& after.positions() == before.positions().insert(
                    found.0.event_id,
                    id,
                )
                &&& after.outliers() == before.outliers().remove(
                    found.0.event_id,
                )
                &&& after.last_counts() == before.last_counts()
                &&& if found.0.kind == room_message() && body_of(found.0.content).is_none() {
                    r == Err::<Backfilled, Error>(Error::BadDatabase(Reason::InvalidContent))
                } else {
                    &&& r matches Ok(Backfilled::Prepended { pdu_id, search_body })
                    &&& pdu_id == id
                    &&& opt_text(search_body) == (if found.0.kind == room_message() {
                        flat_body(body_of(found.0.content))
                    } else {
                        None
                    })
                }
            },
        }
    }
}

/// A prepended event stands before all history of its room that was stored
/// so far, and takes the place of no stored event: every other event stands
/// at the position at which it stood. The timeline is in step with the
/// counter before, and so it is afterwards.
pub proof fn prepended_is_earliest(
    before: &Service,
    stores_before: &Stores,
    after: &Service,
    stores_now: &Stores,
    event_id: Seq<char>,
    room_id: Seq<char>,
    r: Result<Backfilled, Error>,
)
    requires
        before.wf(),
        in_step(before, stores_before),
        prepended(before, stores_before, after, stores_now, event_id, room_id, r),
    ensures
        in_step(after, stores_now),
        r matches Ok(Backfilled::Prepended { pdu_id, .. }) ==> {
            &&& pdu_id.count == PduCount::Backfilled(stores_now.globals.count())
            &&& entry_at(before.stored(), pdu_id).is_none()
            &&& after.stored().len() == before.stored().len() + 1
            &&& forall|i: int|
                0 <= i < before.stored().len() ==> entry_at(
                    after.stored(),
                    (#[trigger] before.stored()[i]).id,
                ) == Some(before.stored()[i])
            &&& forall|i: int|
                0 <= i < before.stored().len() && (#[trigger] before.stored()[i]).id.shortroomid
                    == pdu_id.shortroomid ==> id_before(pdu_id, before.stored()[i].id)
        },
{
    before.wf_facts();
    if !before.positions().contains_key(event_id) {
        match stores_before.globals.next_count_spec() {
            Ok(count) => {
                let found = before.outliers()[event_id];
                let id = PduId {
                    shortroomid: stores_before.short.rooms()[room_id],
                    count: PduCount::Backfilled(count),
                };
                let entry = Stored { id, pdu: found.0, json: found.1 };
                let c0 = stores_before.globals.count();
                with_entry_keeps_bound(before.stored(), entry, c0, count);
                fresh_backfill_is_earliest(before.stored(), id.shortroomid, c0, count);
                fresh_position_is_free(before.stored(), id, c0);
                with_entry_facts(before.stored(), entry);
                assert forall|i: int| 0 <= i < before.stored().len() implies entry_at(
                    after.stored(),
                    (#[trigger] before.stored()[i]).id,
                ) == Some(before.stored()[i]) by {
                    super::data::unique_position(before.stored(), i);
                }
            },
            Err(_) => {},
        }
    }
}

impl Service {
    /// Decides whether history before `from` is to be asked for in
    /// `room_id`, and of which servers. Nothing is asked where the earliest
    /// event at hand stands at or after `from`: then there is no gap. The
    /// room holds at least one event.
    pub fn backfill_if_required(
        &self,
        stores: &Stores,
        ctx: &BackfillContext,
        room_id: &String,
        from: PduCount,
    ) -> (r: Result<BackfillPlan, Error>)
        requires
            self.wf(),
            stores.wf(),
            stores.short.rooms().contains_key(room_id@),
            timeline_after(
                self.stored(),
                stores.short.rooms()[room_id@],
                PduCount::Backfilled(u64::MAX),
            ).len() > 0,
        ensures
            ({
                let first = timeline_after(
                    self.stored(),
                    stores.short.rooms()[room_id@],
                    PduCount::Backfilled(u64::MAX),
                ).first();
                if !first.id.count.is_before(from) {
                    r matches Ok(BackfillPlan::NotRequired)
                } else {
                    match levels_in(ctx) {
                        Err(e) => r == Err::<BackfillPlan, Error>(e),
                        Ok(l) => r matches Ok(BackfillPlan::Ask { servers, first_event_id, limit })
                            && texts(servers@) == candidates(l, ctx) && first_event_id@
                            == first.pdu.event_id && limit == BACKFILL_LIMIT,
                    }
                }
            }),
    {
        let nobody = String::new();
        let room = stores.short.get_shortroomid(room_id).unwrap().unwrap();
        let mut all = self.db.pdus_after(&nobody, room, PduCount::min());
        proof {
            let t = timeline_after(self.stored(), room, PduCount::Backfilled(u64::MAX));
            assert(listing(all@).len() == all@.len());
            assert(listed(t, nobody@).len() == t.len());
            assert(listing(all@)[0] == (all@[0].0, all@[0].1.model()));
            assert(listed(t, nobody@)[0].0 == t[0].id.count);
            assert(listed(t, nobody@)[0].1.event_id == t[0].pdu.event_id);
        }
        let first = all.swap_remove(0);
        let edge = PduId { shortroomid: room, count: from };
        let here = PduId { shortroomid: room, count: first.0 };
        if !super::data::sorts_before(&here, &edge) {
            return Ok(BackfillPlan::NotRequired);
        }
        let servers = backfill_candidates(ctx)?;
        Ok(BackfillPlan::Ask { servers, first_event_id: first.1.event_id, limit: BACKFILL_LIMIT })
    }

    /// Whether the event `event_id` already stands in the timeline, so that
    /// it need not be fetched or handled again.
    pub fn backfill_known(&self, event_id: &String) -> (b: bool)
        requires
            self.wf(),
        ensures
            b == self.positions().contains_key(event_id@),
    {
        match self.db.get_pdu_id(event_id) {
            Ok(Some(_)) => true,
            _ => false,
        }
    }

    /// Prepends a fetched historical event that was handled and is known by
    /// now. An event that already stands in the timeline is left alone.
    /// Otherwise the event gets the next value of the global counter as a
    /// historical position, which puts it before all history of its room
    /// that was stored so far, and is stored there.
    ///
    /// Once the global counter has run out nothing is stored and the call
    /// fails. A message whose body cannot be read is stored like any other
    /// event, and the call fails after that: nothing is rolled back.
    /// The caller holds the federation gate of the room, the room has a
    /// short identifier, and its insertion gate is free.
    pub fn backfill_pdu(
        &mut self,
        stores: &mut Stores,
        event_id: &String,
        room_id: &String,
        federation_lock: &RoomMutexGuard,
    ) -> (r: Result<Backfilled, Error>)
        requires
            old(self).wf(),
            old(stores).wf(),
            guards_federation(federation_lock, room_id@),
            old(stores).short.rooms().contains_key(room_id@),
            !old(self).insert_gate().is_locked(room_id@),
            !old(self).positions().contains_key(event_id@) ==> old(self).outliers().contains_key(
                event_id@,
            ),
            in_step(old(self), old(stores)),
        ensures
            final(self).wf(),
            final(stores).wf(),
            final(self).insert_gate().holders() == old(self).insert_gate().holders(),
            final(stores).short == old(stores).short,
            final(stores).state == old(stores).state,
            final(stores).read_receipt == old(stores).read_receipt,
            final(stores).user == old(stores).user,
            final(stores).globals.same_marks(&old(stores).globals),
            in_step(final(self), final(stores)),
            prepended(old(self), old(stores), final(self), final(stores), event_id@, room_id@, r),
    {
        if self.backfill_known(event_id) {
            return Ok(Backfilled::AlreadyKnown);
        }
        let found = self.db.outlier(event_id).unwrap();
        let pdu = found.pdu.duplicate();
        let json = crate::json::duplicate_object(&found.json);
        let shortroomid = stores.short.get_shortroomid(room_id).unwrap().unwrap();
        proof {
            self.wf_facts();
        }
        let ghost holders = self.mutex_insert.holders();
        let ghost stored0 = self.stored();
        let ghost c0 = stores.globals.count();
        let insert_lock = self.mutex_insert.try_lock(room_id).unwrap();
        proof {
            lock_then_unlock(holders, room_id@);
        }
        let count = match stores.globals.next_count() {
            Ok(c) => c,
            Err(e) => {
                self.mutex_insert.unlock(insert_lock);
                return Err(e);
            },
        };
        let pdu_id = PduId { shortroomid, count: PduCount::Backfilled(count) };
        let ghost entry = Stored { id: pdu_id, pdu: pdu.model(), json: crate::json::members(json@) };
        self.db.prepend_backfill_pdu(pdu_id, &pdu, &json);
        self.mutex_insert.unlock(insert_lock);
        proof {
            with_entry_keeps_bound(stored0, entry, c0, count);
            fresh_backfill_is_earliest(stored0, shortroomid, c0, count);
            fresh_position_is_free(stored0, pdu_id, c0);
            with_entry_facts(stored0, entry);
        }
        // The event is stored; a body that cannot be read is reported all
        // the same.
        let search_body = if kind_is(&pdu.kind, "m.room.message") {
            match extract_body(&pdu.content) {
                Some(b) => b,
                None => {
                    return Err(Error::BadDatabase(Reason::InvalidContent));
                },
            }
        } else {
            None
        };
        Ok(Backfilled::Prepended { pdu_id, search_body })
    }
}

/// Of a batch of events that is prepended one after the other from the
/// counter value `c` on, the event at index `j` stands earlier than the one
/// at the smaller index `i`, and all of them stand earlier than any live
/// position: a batch that arrives newest first is listed oldest first,
/// before what was there.
pub proof fn batch_keeps_its_order(room: u64, c: u64, i: nat, j: nat, live: u64)
    requires
        i < j,
        c + j + 1 <= u64::MAX,
    ensures
        id_before(
            PduId { shortroomid: room, count: PduCount::Backfilled((c + j + 1) as u64) },
            PduId { shortroomid: room, count: PduCount::Backfilled((c + i + 1) as u64) },
        ),
        id_before(
            PduId { shortroomid: room, count: PduCount::Backfilled((c + i + 1) as u64) },
            PduId { shortroomid: room, count: PduCount::Normal(live) },
        ),
{
}

/// Of two historical events prepended one after the other, the one that
/// was prepended later stands earlier: a batch that is prepended newest
/// first is listed oldest first, before the history that was there.
pub proof fn later_prepend_sorts_earlier(room: u64, first: u64, second: u64, live: u64)
    requires
        first < second,
    ensures
        id_before(
            PduId { shortroomid: room, count: PduCount::Backfilled(second) },
            PduId { shortroomid: room, count: PduCount::Backfilled(first) },
        ),
        id_before(
            PduId { shortroomid: room, count: PduCount::Backfilled(first) },
            PduId { shortroomid: room, count: PduCount::Normal(live) },
        ),
{
}

} // verus!
