//! Making a local event and appending it in one go, behind the guards of
//! the administrative control room.

use super::append::{appended, AppendContext, AppendOutcome};
use super::create::{
    creation, depth_after, draft_of, parents_of, version_for, AuthVerdict, CreateContext,
};
use super::{in_step, Service};
use crate::error::{Error, ErrorKind, Reason};
use crate::gate::RoomMutexGuard;
use crate::identifiers::{has_user_sigil, server_name_of, server_part, starts_with_user_sigil};
use crate::json::{members, Json, JsonObject, JsonValue};
use crate::pdu::{
    kind_is, opt_text, room_encryption, room_member, room_redaction, Pdu, PduBuilder, PduEvent,
    RoomVersion,
};
use super::content::{membership_in, read_membership, read_redacts, redacts_in};
use crate::protocol::{is_user_id, user_id_valid, Membership};
use crate::state::guards_state;
use crate::text::{contains, texts};
use crate::{untouched, Stores};
use vstd::prelude::*;

verus! {

/// What the rest of the server knows that bears on the guards of
/// `build_and_append_pdu` and on where the event goes afterwards.
#[derive(Debug)]
pub struct BuildContext {
    /// The administrative control room, if the server has one.
    pub admin_room: Option<String>,
    /// The server's own service account.
    pub server_user: String,
    /// The members of the room.
    pub room_members: Vec<String>,
    /// Whether the sender may redact the event that a redaction names.
    pub can_redact: bool,
    /// The servers that have members in the room.
    pub room_servers: Vec<String>,
}

/// The user that a membership event is about: its state key where that
/// looks like a user identifier, its sender otherwise.
pub open spec fn subject_of(pdu: Pdu) -> Seq<char> {
    if pdu.state_key.is_some() && has_user_sigil(pdu.state_key.unwrap()) {
        pdu.state_key.unwrap()
    } else {
        pdu.sender
    }
}

/// How many of `room_members` are users of this server other than `subject`.
pub open spec fn local_others(
    room_members: Seq<Seq<char>>,
    server_name: Seq<char>,
    subject: Seq<char>,
) -> nat
    decreases room_members.len(),
{
    if room_members.len() == 0 {
        0
    } else {
        let rest = local_others(room_members.drop_last(), server_name, subject);
        if server_part(room_members.last()) == server_name && room_members.last() != subject {
            rest + 1
        } else {
            rest
        }
    }
}

/// Why the administrative control room turns an event away, if it does:
/// encryption is never switched on there; the server's own account never
/// leaves and is never banned; and no member leaves or is banned unless at
/// least two other users of this server remain. Other rooms turn nothing
/// away.
pub open spec fn admin_room_refusal(
    pdu: Pdu,
    ctx: &BuildContext,
    server_name: Seq<char>,
) -> Option<Error> {
    if opt_text(ctx.admin_room) != Some(pdu.room_id) {
        None
    } else if pdu.kind == room_encryption() {
        Some(Error::forbidden(Reason::EncryptionInAdminRoom))
    } else if pdu.kind == room_member() {
        let too_few = local_others(texts(ctx.room_members@), server_name, subject_of(pdu)) < 2;
        match membership_in(pdu.content) {
            None => Some(Error::BadDatabase(Reason::InvalidContent)),
            Some(Membership::Leave) => if subject_of(pdu) == ctx.server_user@ {
                Some(Error::forbidden(Reason::ServerUserCannotLeave))
            } else if too_few {
                Some(Error::forbidden(Reason::LastAdminCannotLeave))
            } else {
                None
            },
            Some(Membership::Ban) => if pdu.state_key.is_none() {
                None
            } else if subject_of(pdu) == ctx.server_user@ {
                Some(Error::forbidden(Reason::ServerUserCannotBeBanned))
            } else if too_few {
                Some(Error::forbidden(Reason::LastAdminCannotBeBanned))
            } else {
                None
            },
            Some(_) => None,
        }
    } else {
        None
    }
}

/// Counts the users of this server among `room_members` other than
/// `subject`, up to two: more than that is never asked.
fn count_local_others(room_members: &Vec<String>, server_name: &String, subject: &String) -> (n:
    usize)
    ensures
        n == if local_others(texts(room_members@), server_name@, subject@) < 2 {
            local_others(texts(room_members@), server_name@, subject@)
        } else {
            2
        },
{
    let ghost ms = texts(room_members@);
    let mut n: usize = 0;
    let mut i: usize = 0;
    assert(ms.take(0) =~= Seq::<Seq<char>>::empty());
    while i < room_members.len()
        invariant
            i <= room_members@.len(),
            ms == texts(room_members@),
            n <= 2,
            n == if local_others(ms.take(i as int), server_name@, subject@) < 2 {
                local_others(ms.take(i as int), server_name@, subject@)
            } else {
                2
            },
        decreases room_members@.len() - i,
    {
        proof {
            assert(ms.take(i as int + 1).drop_last() =~= ms.take(i as int));
            assert(ms.take(i as int + 1).last() == room_members@[i as int]@);
        }
        let m = &room_members[i];
        if n < 2 && *m != *subject {
            let server = server_name_of(m);
            if server == *server_name {
                n = n + 1;
            }
        }
        i += 1;
    }
    assert(ms.take(room_members@.len() as int) =~= ms);
    n
}

/// Checks an event against the guards of the administrative control room.
pub fn admin_room_guard(pdu: &PduEvent, ctx: &BuildContext, server_name: &String) -> (r: Result<
    (),
    Error,
>)
    ensures
        match r {
            Ok(()) => admin_room_refusal(pdu.model(), ctx, server_name@).is_none(),
            Err(e) => admin_room_refusal(pdu.model(), ctx, server_name@) == Some(e),
        },
{
    let in_admin_room = match &ctx.admin_room {
        Some(a) => *a == pdu.room_id,
        None => false,
    };
    if !in_admin_room {
        return Ok(());
    }
    if kind_is(&pdu.kind, "m.room.encryption") {
        return Err(Error::BadRequest(ErrorKind::Forbidden, Reason::EncryptionInAdminRoom));
    }
    if !kind_is(&pdu.kind, "m.room.member") {
        return Ok(());
    }
    let subject: &String = match &pdu.state_key {
        Some(k) => if starts_with_user_sigil(k) {
            k
        } else {
            &pdu.sender
        },
        None => &pdu.sender,
    };
    let membership = match read_membership(&pdu.content) {
        Some(m) => m,
        None => {
            return Err(Error::BadDatabase(Reason::InvalidContent));
        },
    };
    match membership {
        Membership::Leave => {
            if *subject == ctx.server_user {
                return Err(Error::BadRequest(ErrorKind::Forbidden, Reason::ServerUserCannotLeave));
            }
            if count_local_others(&ctx.room_members, server_name, subject) < 2 {
                return Err(Error::BadRequest(ErrorKind::Forbidden, Reason::LastAdminCannotLeave));
            }
        },
        Membership::Ban => {
            if pdu.state_key.is_some() {
                if *subject == ctx.server_user {
                    return Err(
                        Error::BadRequest(ErrorKind::Forbidden, Reason::ServerUserCannotBeBanned),
                    );
                }
                if count_local_others(&ctx.room_members, server_name, subject) < 2 {
                    return Err(
                        Error::BadRequest(ErrorKind::Forbidden, Reason::LastAdminCannotBeBanned),
                    );
                }
            }
        },
        _ => {},
    }
    Ok(())
}

/// Why a redaction is turned away just before it is appended, if it is: the
/// room's version is not known, its content cannot be read, or the sender
/// may not redact the event that it names. Up to room version 10 the target
/// is named at the top of the event, afterwards in its content.
pub open spec fn redaction_refusal(
    pdu: Pdu,
    version: Option<RoomVersion>,
    can_redact: bool,
) -> Option<Error> {
    if pdu.kind != room_redaction() {
        None
    } else {
        match version {
            None => Some(Error::InconsistentRoomState(Reason::UnknownRoomVersion)),
            Some(v) => {
                let target = if v == RoomVersion::V11 || v == RoomVersion::Other {
                    match redacts_in(pdu.content) {
                        Some(t) => Ok(t),
                        None => Err(Error::BadDatabase(Reason::InvalidRedactionContent)),
                    }
                } else {
                    Ok(pdu.redacts)
                };
                match target {
                    Err(e) => Some(e),
                    Ok(Some(_)) => if can_redact {
                        None
                    } else {
                        Some(Error::forbidden(Reason::UserCannotRedact))
                    },
                    Ok(None) => None,
                }
            },
        }
    }
}

/// The event that a redaction names before it is appended: at the top of
/// the event up to room version 10, in its content afterwards; none where
/// it names none or its content cannot be read.
pub open spec fn named_target(
    redacts: Option<Seq<char>>,
    content: Json,
    version: RoomVersion,
) -> Option<Seq<char>> {
    if version == RoomVersion::V11 || version == RoomVersion::Other {
        match redacts_in(content) {
            Some(t) => t,
            None => None,
        }
    } else {
        redacts
    }
}

/// The event that a redaction names before it is appended, so that the
/// sender's right to redact it can be looked up.
pub fn redaction_named(redacts: &Option<String>, content: &JsonValue, version: RoomVersion) -> (r:
    Option<String>)
    ensures
        opt_text(r) == named_target(opt_text(*redacts), content.model(), version),
{
    match version {
        RoomVersion::V11 | RoomVersion::Other => match read_redacts(content) {
            Some(t) => t,
            None => None,
        },
        _ => crate::pdu::copy_opt(redacts),
    }
}

/// Checks that a redaction may be appended.
pub fn redaction_guard(pdu: &PduEvent, version: Option<RoomVersion>, can_redact: bool) -> (r:
    Result<(), Error>)
    ensures
        match r {
            Ok(()) => redaction_refusal(pdu.model(), version, can_redact).is_none(),
            Err(e) => redaction_refusal(pdu.model(), version, can_redact) == Some(e),
        },
{
    if !kind_is(&pdu.kind, "m.room.redaction") {
        return Ok(());
    }
    let v = match version {
        Some(v) => v,
        None => {
            return Err(Error::InconsistentRoomState(Reason::UnknownRoomVersion));
        },
    };
    let names_target = match v {
        RoomVersion::V11 | RoomVersion::Other => match read_redacts(&pdu.content) {
            Some(t) => t.is_some(),
            None => {
                return Err(Error::BadDatabase(Reason::InvalidRedactionContent));
            },
        },
        _ => pdu.redacts.is_some(),
    };
    if names_target && !can_redact {
        return Err(Error::BadRequest(ErrorKind::Forbidden, Reason::UserCannotRedact));
    }
    Ok(())
}

/// The servers that an event is sent to, before repeats and this server
/// are taken out: the servers of the room and, for a membership event about
/// a user, that user's server.
pub open spec fn interested_servers(room_servers: Seq<Seq<char>>, pdu: Pdu) -> Seq<Seq<char>> {
    if pdu.kind == room_member() && pdu.state_key.is_some() && user_id_valid(
        pdu.state_key.unwrap(),
    ) {
        room_servers.push(server_part(pdu.state_key.unwrap()))
    } else {
        room_servers
    }
}

/// The elements of `s` other than `own`, each once, in the order of their
/// first occurrence.
pub open spec fn others_once(s: Seq<Seq<char>>, own: Seq<char>) -> Seq<Seq<char>>
    decreases s.len(),
{
    if s.len() == 0 {
        s
    } else {
        let rest = others_once(s.drop_last(), own);
        if s.last() == own || rest.contains(s.last()) {
            rest
        } else {
            rest.push(s.last())
        }
    }
}

/// The servers that an event is sent to: those that have members in the
/// room and, for a membership event about a user, that user's server; each
/// once, and never this server.
pub fn federation_servers(room_servers: &Vec<String>, pdu: &PduEvent, server_name: &String) -> (r:
    Vec<String>)
    ensures
        texts(r@) == others_once(
            interested_servers(texts(room_servers@), pdu.model()),
            server_name@,
        ),
{
    let ghost all = interested_servers(texts(room_servers@), pdu.model());
    let ghost rs = texts(room_servers@);
    let mut out: Vec<String> = Vec::new();
    let mut i: usize = 0;
    proof {
        assert(rs.take(0) =~= Seq::<Seq<char>>::empty());
        assert(texts(out@) =~= Seq::<Seq<char>>::empty());
    }
    while i < room_servers.len()
        invariant
            i <= room_servers@.len(),
            rs == texts(room_servers@),
            texts(out@) == others_once(rs.take(i as int), server_name@),
        decreases room_servers@.len() - i,
    {
        proof {
            assert(rs.take(i as int + 1).drop_last() =~= rs.take(i as int));
            assert(rs.take(i as int + 1).last() == room_servers@[i as int]@);
        }
        let s = &room_servers[i];
        if *s != *server_name && !contains(&out, s) {
            let ghost before = texts(out@);
            out.push(s.clone());
            assert(texts(out@) =~= before.push(s@));
        }
        i += 1;
    }
    assert(rs.take(room_servers@.len() as int) =~= rs);
    if kind_is(&pdu.kind, "m.room.member") {
        match &pdu.state_key {
            Some(k) => {
                if is_user_id(k) {
                    let server = server_name_of(k);
                    assert(all.drop_last() =~= rs);
                    assert(all.last() == server@);
                    if server != *server_name && !contains(&out, &server) {
                        let ghost before = texts(out@);
                        out.push(server);
                        assert(texts(out@) =~= before.push(all.last()));
                    }
                }
            },
            None => {},
        }
    }
    out
}

/// What `build_and_append_pdu` did: the event it made, what appending it
/// did, the state snapshot that is now the room's, and the servers that
/// the event is to be sent to.
#[derive(Debug)]
pub struct BuildOutcome {
    pub event_id: String,
    pub appended: AppendOutcome,
    pub shortstatehash: u64,
    pub servers: Vec<String>,
}

/// Whether the stores `after` are the stores `before` with `hash` as the
/// current state snapshot of `room`.
pub open spec fn room_state_set(before: &Stores, after: &Stores, room: Seq<char>, hash: u64) -> bool {
    &&& after.wf()
    &&& after.globals == before.globals
    &&& after.short == before.short
    &&& after.read_receipt == before.read_receipt
    &&& after.user == before.user
    &&& after.state.leaves() == before.state.leaves()
    &&& after.state.event_states() == before.state.event_states()
    &&& after.state.room_states() == before.state.room_states().insert(room, hash)
}

/// The first guard that turns a made event away, if one does.
pub open spec fn guards_refusal(pdu: Pdu, cctx: &CreateContext, bctx: &BuildContext) -> Option<
    Error,
> {
    match admin_room_refusal(pdu, bctx, cctx.server_name@) {
        Some(e) => Some(e),
        None => redaction_refusal(pdu, cctx.room_version, bctx.can_redact),
    }
}

/// The steps of `build_and_append_pdu` after the draft, with what each of
/// them saw and left behind.
///
/// `made` is what making the event gave, with the stores `mid` after it. A
/// failure there, or a guard that turns the event away, ends the call with
/// nothing written to the timeline and the stores as `mid`. Then
/// `state_result` is what adding the event to the room's state gave; a
/// failure ends the call in the same way, and so does a failure to gather
/// the context of the append, `context`. Then the event is appended in that
/// context, with itself as the room's only forward extremity, which gives
/// `app` and the stores `late`; a failure ends the call with what
/// `appended` says. At last the new state snapshot becomes the room's.
pub open spec fn build_steps(
    before: &Service,
    after: &Service,
    stores_now: &Stores,
    cctx: &CreateContext,
    bctx: &BuildContext,
    room_id: Seq<char>,
    mid: &Stores,
    made: Result<(PduEvent, JsonObject), Error>,
    state_result: Result<u64, Error>,
    state_asked: bool,
    context: Result<AppendContext, Error>,
    context_asked: bool,
    late: &Stores,
    app: Result<AppendOutcome, Error>,
    r: Result<BuildOutcome, Error>,
) -> bool {
    let nothing_appended = {
        &&& *stores_now == *mid
        &&& after.stored() == before.stored()
        &&& after.positions() == before.positions()
        &&& after.outliers() == before.outliers()
        &&& after.last_counts() == before.last_counts()
    };
    match made {
        Err(e) => r == Err::<BuildOutcome, Error>(e) && nothing_appended && !state_asked
            && !context_asked,
        Ok((pdu, json)) => match guards_refusal(pdu.model(), cctx, bctx) {
            Some(e) => r == Err::<BuildOutcome, Error>(e) && nothing_appended && !state_asked
                && !context_asked,
            None => state_asked && match state_result {
                Err(e) => r == Err::<BuildOutcome, Error>(e) && nothing_appended && !context_asked,
                Ok(hash) => context_asked && match context {
                    Err(e) => r == Err::<BuildOutcome, Error>(e) && nothing_appended,
                    Ok(actx) => {
                        &&& appended(
                            before,
                            mid,
                            after,
                            late,
                            &actx,
                            &pdu,
                            members(json@),
                            seq![pdu.event_id@],
                            app,
                        )
                        &&& match app {
                            Err(e) => r == Err::<BuildOutcome, Error>(e) && *stores_now == *late,
                            Ok(out) => {
                                &&& room_state_set(late, stores_now, room_id, hash)
                                &&& r matches Ok(b)
                                &&& b.event_id@ == pdu.event_id@
                                &&& b.appended == out
                                &&& b.shortstatehash == hash
                                &&& texts(b.servers@) == others_once(
                                    interested_servers(texts(bctx.room_servers@), pdu.model()),
                                    cctx.server_name@,
                                )
                            },
                        }
                    },
                },
            },
        },
    }
}

/// Whatever is made from a draft keeps the room and the parents of the
/// draft.
pub proof fn made_event_keeps_the_draft(
    draft: Pdu,
    version: RoomVersion,
    verdict: AuthVerdict,
    cctx: &CreateContext,
    start: &Stores,
    mid: &Stores,
    made: Result<(PduEvent, JsonObject), Error>,
)
    requires
        creation(draft, version, verdict, cctx, start, mid, made),
    ensures
        made matches Ok(m) ==> m.0.model().room_id == draft.room_id && m.0.model().prev_events
            == draft.prev_events && m.0.model().sender == draft.sender,
{
    match super::create::signing_of(draft, version, verdict, cctx) {
        Ok((pdu, json)) => {
            assert(pdu.room_id == draft.room_id);
        },
        Err(_) => {},
    }
}

/// After a local append the new event is the only forward extremity of its
/// room, and its parents are the first of the extremities that the room
/// had, all of them where there were no more than twenty. One extremity is
/// no ancestor of another one.
pub proof fn local_append_leaves_one_extremity(
    before: &Service,
    after: &Service,
    start: &Stores,
    stores_now: &Stores,
    cctx: &CreateContext,
    bctx: &BuildContext,
    room_id: Seq<char>,
    draft: Pdu,
    version: RoomVersion,
    verdict: AuthVerdict,
    mid: &Stores,
    made: Result<(PduEvent, JsonObject), Error>,
    state_result: Result<u64, Error>,
    state_asked: bool,
    context: Result<AppendContext, Error>,
    context_asked: bool,
    late: &Stores,
    app: Result<AppendOutcome, Error>,
    r: Result<BuildOutcome, Error>,
    g: super::graph::Parents,
)
    requires
        draft.room_id == room_id,
        draft.prev_events == parents_of(start.state.extremities(room_id)),
        creation(draft, version, verdict, cctx, start, mid, made),
        build_steps(
            before,
            after,
            stores_now,
            cctx,
            bctx,
            room_id,
            mid,
            made,
            state_result,
            state_asked,
            context,
            context_asked,
            late,
            app,
            r,
        ),
        r.is_ok(),
    ensures
        r matches Ok(b) && stores_now.state.extremities(room_id) == seq![b.event_id@],
        made matches Ok(m) && m.0.model().prev_events == parents_of(
            start.state.extremities(room_id),
        ),
        super::graph::unrelated(g, stores_now.state.extremities(room_id)),
{
    made_event_keeps_the_draft(draft, version, verdict, cctx, start, mid, made);
    let id = made.unwrap().0.event_id@;
    crate::text::distinct_of_facts(seq![id]);
    assert(seq![id].no_duplicates());
}

/// A guard that turns a made event away does so before anything is
/// appended: the timeline is as it was, the stores are as making the event
/// left them, and neither the room's state nor the context of the append
/// was asked for.
pub proof fn guards_refuse_before_the_append(
    before: &Service,
    after: &Service,
    stores_now: &Stores,
    cctx: &CreateContext,
    bctx: &BuildContext,
    room_id: Seq<char>,
    mid: &Stores,
    made: Result<(PduEvent, JsonObject), Error>,
    state_result: Result<u64, Error>,
    state_asked: bool,
    context: Result<AppendContext, Error>,
    context_asked: bool,
    late: &Stores,
    app: Result<AppendOutcome, Error>,
    r: Result<BuildOutcome, Error>,
)
    requires
        build_steps(
            before,
            after,
            stores_now,
            cctx,
            bctx,
            room_id,
            mid,
            made,
            state_result,
            state_asked,
            context,
            context_asked,
            late,
            app,
            r,
        ),
        made matches Ok(m) && guards_refusal(m.0.model(), cctx, bctx).is_some(),
    ensures
        made matches Ok(m) && r == Err::<BuildOutcome, Error>(
            guards_refusal(m.0.model(), cctx, bctx).unwrap(),
        ),
        !state_asked,
        !context_asked,
        *stores_now == *mid,
        after.stored() == before.stored(),
        after.positions() == before.positions(),
{
}

impl Service {
    /// Makes a new event of `sender` in `room_id` and appends it.
    ///
    /// The event is made as by `create_hash_and_sign_event`. Before any
    /// state is touched, the guards of the administrative control room and
    /// the authorization of a redaction are checked; a refusal ends the
    /// call. Then `append_to_state` adds the event to the room's state and
    /// gives the new state snapshot, `gather` gives the context of the
    /// append, the event is appended with itself as the room's only forward
    /// extremity, and the new snapshot becomes the room's current one. Where
    /// one of the two fails, the call ends with its failure before anything
    /// is appended.
    ///
    /// The caller holds the state gate of the room, the room has a short
    /// identifier, its insertion gate is free, and the global counter has
    /// four values left.
    pub fn build_and_append_pdu<
        A: FnOnce(&PduEvent) -> AuthVerdict,
        S: FnOnce(&PduEvent) -> Result<u64, Error>,
        G: FnOnce(&PduEvent) -> Result<AppendContext, Error>,
    >(
        &mut self,
        stores: &mut Stores,
        cctx: &CreateContext,
        bctx: &BuildContext,
        pdu_builder: PduBuilder,
        sender: &String,
        room_id: &String,
        state_lock: &RoomMutexGuard,
        auth_check: A,
        append_to_state: S,
        gather: G,
    ) -> (r: Result<BuildOutcome, Error>)
        requires
            old(self).wf(),
            old(stores).wf(),
            guards_state(state_lock, room_id@),
            old(stores).short.rooms().contains_key(room_id@),
            !old(self).insert_gate().is_locked(room_id@),
            old(stores).globals.count() <= u64::MAX - 4,
            in_step(old(self), old(stores)),
            forall|d: &PduEvent| call_requires(auth_check, (d,)),
            forall|d: &PduEvent| call_requires(append_to_state, (d,)),
            forall|d: &PduEvent| call_requires(gather, (d,)),
        ensures
            final(self).wf(),
            final(stores).wf(),
            final(self).insert_gate().holders() == old(self).insert_gate().holders(),
            in_step(final(self), final(stores)),
            match version_for(
                cctx.room_version,
                pdu_builder.event_type@,
                pdu_builder.content.model(),
            ) {
                Err(e) => {
                    &&& r == Err::<BuildOutcome, Error>(e)
                    &&& untouched(old(stores), final(stores))
                    &&& final(self).stored() == old(self).stored()
                    &&& final(self).positions() == old(self).positions()
                    &&& final(self).outliers() == old(self).outliers()
                    &&& final(self).last_counts() == old(self).last_counts()
                },
                Ok(version) => exists|
                    d: PduEvent,
                    verdict: AuthVerdict,
                    mid: Stores,
                    made: Result<(PduEvent, JsonObject), Error>,
                    state_result: Result<u64, Error>,
                    state_asked: bool,
                    context: Result<AppendContext, Error>,
                    context_asked: bool,
                    late: Stores,
                    app: Result<AppendOutcome, Error>,
                |
                    #![trigger
                        call_ensures(auth_check, (&d,), verdict),
                        build_steps(
                            old(self),
                            final(self),
                            final(stores),
                            cctx,
                            bctx,
                            room_id@,
                            &mid,
                            made,
                            state_result,
                            state_asked,
                            context,
                            context_asked,
                            &late,
                            app,
                            r,
                        )
                    ]
                    {
                        &&& d.model() == draft_of(
                            &pdu_builder,
                            sender@,
                            room_id@,
                            parents_of(old(stores).state.extremities(room_id@)),
                            depth_after(
                                old(self),
                                parents_of(old(stores).state.extremities(room_id@)),
                            ),
                            cctx,
                        )
                        &&& call_ensures(auth_check, (&d,), verdict)
                        &&& creation(d.model(), version, verdict, cctx, old(stores), &mid, made)
                        &&& (state_asked ==> (made matches Ok(m) && call_ensures(
                            append_to_state,
                            (&m.0,),
                            state_result,
                        )))
                        &&& (context_asked ==> (made matches Ok(m) && call_ensures(
                            gather,
                            (&m.0,),
                            context,
                        )))
                        &&& build_steps(
                            old(self),
                            final(self),
                            final(stores),
                            cctx,
                            bctx,
                            room_id@,
                            &mid,
                            made,
                            state_result,
                            state_asked,
                            context,
                            context_asked,
                            &late,
                            app,
                            r,
                        )
                    },
            },
    {
        let ghost before = *self;
        let ghost start = *stores;
        let ghost found = version_for(
            cctx.room_version,
            pdu_builder.event_type@,
            pdu_builder.content.model(),
        );
        let ghost builder = pdu_builder;
        let made = self.create_hash_and_sign_event(
            stores,
            cctx,
            pdu_builder,
            sender,
            room_id,
            state_lock,
            auth_check,
        );
        let ghost mid = *stores;
        let ghost made_copy = made;
        let ghost draft = draft_of(
            &builder,
            sender@,
            room_id@,
            parents_of(start.state.extremities(room_id@)),
            depth_after(&before, parents_of(start.state.extremities(room_id@))),
            cctx,
        );
        let ghost (d, verdict) = if found.is_ok() {
            choose|d: PduEvent, verdict: AuthVerdict|
                {
                    &&& d.model() == draft
                    &&& call_ensures(auth_check, (&d,), verdict)
                    &&& creation(
                        d.model(),
                        found.unwrap(),
                        verdict,
                        cctx,
                        &start,
                        &mid,
                        made_copy,
                    )
                }
        } else {
            (arbitrary(), arbitrary())
        };
        let ghost no_state: Result<u64, Error> = arbitrary();
        let ghost no_context: Result<AppendContext, Error> = arbitrary();
        let ghost no_app: Result<AppendOutcome, Error> = arbitrary();
        let (pdu, pdu_json) = match made {
            Ok(m) => m,
            Err(e) => {
                proof {
                    if found.is_ok() {
                        assert(build_steps(
                            &before,
                            self,
                            stores,
                            cctx,
                            bctx,
                            room_id@,
                            &mid,
                            made_copy,
                            no_state,
                            false,
                            no_context,
                            false,
                            &mid,
                            no_app,
                            Err(e),
                        ));
                    }
                }
                return Err(e);
            },
        };
        let guarded = match admin_room_guard(&pdu, bctx, &cctx.server_name) {
            Ok(()) => redaction_guard(&pdu, cctx.room_version, bctx.can_redact),
            Err(e) => Err(e),
        };
        match guarded {
            Ok(()) => {},
            Err(e) => {
                proof {
                    assert(build_steps(
                        &before,
                        self,
                        stores,
                        cctx,
                        bctx,
                        room_id@,
                        &mid,
                        made_copy,
                        no_state,
                        false,
                        no_context,
                        false,
                        &mid,
                        no_app,
                        Err(e),
                    ));
                }
                return Err(e);
            },
        }
        let state_result = append_to_state(&pdu);
        let shortstatehash = match state_result {
            Ok(h) => h,
            Err(e) => {
                proof {
                    assert(build_steps(
                        &before,
                        self,
                        stores,
                        cctx,
                        bctx,
                        room_id@,
                        &mid,
                        made_copy,
                        state_result,
                        true,
                        no_context,
                        false,
                        &mid,
                        no_app,
                        Err(e),
                    ));
                }
                return Err(e);
            },
        };
        let context = gather(&pdu);
        let ghost context_copy = context;
        let actx = match context {
            Ok(c) => c,
            Err(e) => {
                proof {
                    assert(build_steps(
                        &before,
                        self,
                        stores,
                        cctx,
                        bctx,
                        room_id@,
                        &mid,
                        made_copy,
                        state_result,
                        true,
                        context_copy,
                        true,
                        &mid,
                        no_app,
                        Err(e),
                    ));
                }
                return Err(e);
            },
        };
        let mut leaves: Vec<String> = Vec::new();
        leaves.push(pdu.event_id.clone());
        assert(texts(leaves@) =~= seq![pdu.event_id@]);
        let app = self.append_pdu(stores, &actx, &pdu, pdu_json, leaves, state_lock);
        let ghost late = *stores;
        let ghost app_copy = app;
        let appended_outcome = match app {
            Ok(out) => out,
            Err(e) => {
                proof {
                    assert(build_steps(
                        &before,
                        self,
                        stores,
                        cctx,
                        bctx,
                        room_id@,
                        &mid,
                        made_copy,
                        state_result,
                        true,
                        context_copy,
                        true,
                        &late,
                        app_copy,
                        Err(e),
                    ));
                }
                return Err(e);
            },
        };
        let _ = stores.state.set_room_state(room_id, shortstatehash, state_lock);
        let servers = federation_servers(&bctx.room_servers, &pdu, &cctx.server_name);
        let r = Ok(
            BuildOutcome {
                event_id: pdu.event_id.clone(),
                appended: appended_outcome,
                shortstatehash,
                servers,
            },
        );
        proof {
            assert(build_steps(
                &before,
                self,
                stores,
                cctx,
                bctx,
                room_id@,
                &mid,
                made_copy,
                state_result,
                true,
                context_copy,
                true,
                &late,
                app_copy,
                r,
            ));
        }
        r
    }
}

} // verus!
