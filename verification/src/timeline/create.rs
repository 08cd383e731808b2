//! Making a new local event: the draft, its authorization, and its
//! signature and identifier.

use super::append::{with_prev_state, PrevState};
use super::{in_step, known, Service};
use crate::error::{Error, ErrorKind, Reason};
use crate::gate::RoomMutexGuard;
use crate::json::{
    duplicate_object, members, object_insert, object_remove, with_member, with_member_canonical,
    without_member, without_member_canonical, Json, JsonObject, JsonValue, };
use crate::pdu::{
    canonical_form, copy_opt, kind_is, opt_members, opt_text, room_create, EventHash, Pdu,
    PduBuilder, PduEvent, RoomVersion,
};
use super::content::{read_version, version_in};
use crate::protocol::{
    event_reference_hash, hash_and_sign, reference_hash, signed_event, Keypair, SignFailure,
};
use crate::state::guards_state;
use crate::text::{copy_all, texts};
use crate::{only_short_ids_differ, untouched, Stores};
use vstd::prelude::*;
use vstd::string::*;

verus! {

/// How many forward extremities a new event names as its parents at most.
pub const MAX_PREV_EVENTS: usize = 20;

/// The largest depth that an event can have.
pub const MAX_DEPTH: u64 = 9007199254740991u64;

/// What the rest of the server knows that bears on an event being made.
#[derive(Debug)]
pub struct CreateContext {
    /// The version of the room; none while the room has no creation event.
    pub room_version: Option<RoomVersion>,
    /// The events that the new event is authorized against.
    pub auth_events: Vec<String>,
    /// The state event that the new event replaces, if it replaces one.
    pub prev_state: Option<PrevState>,
    /// The time, in milliseconds since the epoch.
    pub now: u64,
    /// The name of this server.
    pub server_name: String,
    /// The key pair that this server signs with.
    pub keypair: Keypair,
}

/// What the authorization check said of a draft.
#[derive(Clone, Copy, Debug, PartialEq, Eq, Hash, Structural)]
pub enum AuthVerdict {
    /// The event is authorized.
    Allowed,
    /// The event is not authorized.
    Denied,
    /// The check itself failed; the event counts as not authorized.
    Failed,
}

/// The version of the room that a new event is for: the known one, or for
/// a creation event in a room without one, the version that the event
/// itself declares. A version that this library does not know is refused.
pub open spec fn version_for(
    known_version: Option<RoomVersion>,
    kind: Seq<char>,
    content: Json,
) -> Result<RoomVersion, Error> {
    let found = match known_version {
        Some(v) => Ok(v),
        None => if kind == room_create() {
            match version_in(content) {
                Some(v) => Ok(RoomVersion::of_text(v)),
                None => Err(Error::BadDatabase(Reason::InvalidContent)),
            }
        } else {
            Err(Error::InconsistentRoomState(Reason::UnknownRoomVersion))
        },
    };
    match found {
        Ok(v) => if v.is_supported() {
            Ok(v)
        } else {
            Err(Error::BadRequest(ErrorKind::BadJson, Reason::UnsupportedRoomVersion))
        },
        Err(e) => Err(e),
    }
}

/// The version of the room that a new event is for.
pub fn resolve_version(known_version: Option<RoomVersion>, builder: &PduBuilder) -> (r: Result<
    RoomVersion,
    Error,
>)
    ensures
        r == version_for(known_version, builder.event_type@, builder.content.model()),
        r matches Ok(v) ==> v.is_supported(),
{
    let found = match known_version {
        Some(v) => v,
        None => {
            if kind_is(&builder.event_type, "m.room.create") {
                match read_version(&builder.content) {
                    Some(v) => RoomVersion::from_text(&v),
                    None => {
                        return Err(Error::BadDatabase(Reason::InvalidContent));
                    },
                }
            } else {
                return Err(Error::InconsistentRoomState(Reason::UnknownRoomVersion));
            }
        },
    };
    if found.supported() {
        Ok(found)
    } else {
        Err(Error::BadRequest(ErrorKind::BadJson, Reason::UnsupportedRoomVersion))
    }
}

/// The depth of the event `id`, where the event is known.
pub open spec fn depth_of(service: &Service, id: Seq<char>) -> u64 {
    match known(service.stored(), service.positions(), service.outliers(), id) {
        Ok(Some(k)) => k.0.depth,
        _ => 0,
    }
}

/// The largest depth among the known events of `ids`; 0 where none is known.
pub open spec fn max_depth(service: &Service, ids: Seq<Seq<char>>) -> u64
    decreases ids.len(),
{
    if ids.len() == 0 {
        0
    } else {
        let rest = max_depth(service, ids.drop_last());
        let last = depth_of(service, ids.last());
        if last > rest {
            last
        } else {
            rest
        }
    }
}

/// The depth of a new event with the parents `ids`: one more than the
/// largest depth among them, and never more than the largest depth there is.
pub open spec fn depth_after(service: &Service, ids: Seq<Seq<char>>) -> u64 {
    if max_depth(service, ids) >= MAX_DEPTH {
        MAX_DEPTH
    } else {
        (max_depth(service, ids) + 1) as u64
    }
}

/// The parents of a new event: the first forward extremities of the room,
/// at most `MAX_PREV_EVENTS` of them.
pub open spec fn parents_of(extremities: Seq<Seq<char>>) -> Seq<Seq<char>> {
    if extremities.len() <= MAX_PREV_EVENTS {
        extremities
    } else {
        extremities.take(MAX_PREV_EVENTS as int)
    }
}

/// The unsigned part of a draft: what the builder brought, extended for a
/// state event by what it replaces; none where that is empty.
pub open spec fn draft_unsigned(
    brought: Option<Seq<(Seq<char>, Json)>>,
    state_key: Option<Seq<char>>,
    prev: Option<PrevState>,
) -> Option<Seq<(Seq<char>, Json)>> {
    let base = match brought {
        Some(u) => u,
        None => Seq::empty(),
    };
    let all = if state_key.is_some() && prev.is_some() {
        with_prev_state(
            base,
            prev.unwrap().content.model(),
            prev.unwrap().sender@,
            prev.unwrap().event_id@,
        )
    } else {
        base
    };
    if all.len() == 0 {
        None
    } else {
        Some(all)
    }
}

/// The draft of a new event: not yet signed, with a placeholder where its
/// identifier and its hash will stand.
pub open spec fn draft_of(
    builder: &PduBuilder,
    sender: Seq<char>,
    room_id: Seq<char>,
    parents: Seq<Seq<char>>,
    depth: u64,
    ctx: &CreateContext,
) -> Pdu {
    Pdu {
        event_id: "$thiswillbefilledinlater"@,
        room_id,
        sender,
        origin: None,
        origin_server_ts: ctx.now,
        kind: builder.event_type@,
        content: builder.content.model(),
        state_key: opt_text(builder.state_key),
        prev_events: parents,
        depth,
        auth_events: texts(ctx.auth_events@),
        redacts: opt_text(builder.redacts),
        unsigned: draft_unsigned(
            opt_members(builder.unsigned),
            opt_text(builder.state_key),
            ctx.prev_state,
        ),
        sha256: "aaa"@,
        signatures: None,
    }
}

impl Service {
    /// The depth of a new event with the parents `prev_events`.
    pub fn next_depth(&self, prev_events: &Vec<String>) -> (d: u64)
        requires
            self.wf(),
        ensures
            d == depth_after(self, texts(prev_events@)),
    {
        let ghost ids = texts(prev_events@);
        let mut max: u64 = 0;
        let mut i: usize = 0;
        assert(ids.take(0) =~= Seq::<Seq<char>>::empty());
        while i < prev_events.len()
            invariant
                self.wf(),
                i <= prev_events@.len(),
                ids == texts(prev_events@),
                max == max_depth(self, ids.take(i as int)),
            decreases prev_events@.len() - i,
        {
            proof {
                assert(ids.take(i as int + 1).drop_last() =~= ids.take(i as int));
                assert(ids.take(i as int + 1).last() == prev_events@[i as int]@);
            }
            let depth = match self.get_pdu(&prev_events[i]) {
                Ok(Some(p)) => p.depth,
                _ => 0,
            };
            if depth > max {
                max = depth;
            }
            i += 1;
        }
        assert(ids.take(prev_events@.len() as int) =~= ids);
        if max >= MAX_DEPTH {
            MAX_DEPTH
        } else {
            max + 1
        }
    }

    /// Drafts a new event of `sender` in `room_id`: its parents are the
    /// first forward extremities of the room, its depth is one more than
    /// theirs, and a state event names what it replaces. Returns the draft
    /// with the version of the room. Fails where the room's version is
    /// unknown or not supported.
    pub fn draft_event(
        &self,
        stores: &Stores,
        ctx: &CreateContext,
        pdu_builder: PduBuilder,
        sender: &String,
        room_id: &String,
    ) -> (r: Result<(PduEvent, RoomVersion), Error>)
        requires
            self.wf(),
            stores.wf(),
        ensures
            match r {
                Ok((draft, version)) => {
                    &&& version_for(
                        ctx.room_version,
                        pdu_builder.event_type@,
                        pdu_builder.content.model(),
                    ) == Ok::<RoomVersion, Error>(version)
                    &&& version.is_supported()
                    &&& draft.model() == draft_of(
                        &pdu_builder,
                        sender@,
                        room_id@,
                        parents_of(stores.state.extremities(room_id@)),
                        depth_after(self, parents_of(stores.state.extremities(room_id@))),
                        ctx,
                    )
                },
                Err(e) => version_for(
                    ctx.room_version,
                    pdu_builder.event_type@,
                    pdu_builder.content.model(),
                ) == Err::<RoomVersion, Error>(e),
            },
    {
        let mut prev_events = match stores.state.get_forward_extremities(room_id) {
            Ok(v) => v,
            Err(e) => {
                return Err(e);
            },
        };
        let ghost all = texts(prev_events@);
        prev_events.truncate(MAX_PREV_EVENTS);
        assert(texts(prev_events@) =~= parents_of(all));
        let version = resolve_version(ctx.room_version, &pdu_builder)?;
        let depth = self.next_depth(&prev_events);
        let mut unsigned: JsonObject = match &pdu_builder.unsigned {
            Some(u) => duplicate_object(u),
            None => Vec::new(),
        };
        assert(members(Seq::<(String, JsonValue)>::empty()) =~= Seq::<(Seq<char>, Json)>::empty());
        if pdu_builder.state_key.is_some() {
            match &ctx.prev_state {
                Some(p) => {
                    object_insert(&mut unsigned, "prev_content".to_owned(), p.content.duplicate());
                    object_insert(
                        &mut unsigned,
                        "prev_sender".to_owned(),
                        JsonValue::String(p.sender.clone()),
                    );
                    object_insert(
                        &mut unsigned,
                        "replaces_state".to_owned(),
                        JsonValue::String(p.event_id.clone()),
                    );
                },
                None => {},
            }
        }
        assert(members(unsigned@).len() == unsigned@.len());
        let unsigned = if unsigned.len() == 0 {
            None
        } else {
            Some(unsigned)
        };
        let draft = PduEvent {
            event_id: "$thiswillbefilledinlater".to_owned(),
            room_id: room_id.clone(),
            sender: sender.clone(),
            origin: None,
            origin_server_ts: ctx.now,
            kind: pdu_builder.event_type.clone(),
            content: pdu_builder.content.duplicate(),
            state_key: copy_opt(&pdu_builder.state_key),
            prev_events,
            depth,
            auth_events: copy_all(&ctx.auth_events),
            redacts: copy_opt(&pdu_builder.redacts),
            unsigned,
            hashes: EventHash { sha256: "aaa".to_owned() },
            signatures: None,
        };
        Ok((draft, version))
    }
}

/// The JSON form that is signed: the canonical form of the draft, without
/// its identifier from room version 3 on, and with this server as its
/// origin.
pub open spec fn form_to_sign(draft: Pdu, version: RoomVersion, server_name: Seq<char>) -> Result<
    Seq<(Seq<char>, Json)>,
    Error,
> {
    match canonical_form(draft) {
        Err(e) => Err(e),
        Ok(j) => Ok(
            with_member(
                if version.keeps_event_id() {
                    j
                } else {
                    without_member(j, "event_id"@)
                },
                "origin"@,
                Json::String(server_name),
            ),
        ),
    }
}

/// The identifier of an event with the reference hash `hash`.
pub open spec fn event_id_of(hash: Seq<char>) -> Seq<char> {
    "$"@ + hash
}

/// The signed event and its stored JSON form, for a draft and the verdict
/// on it. A draft that is not authorized, or whose check failed, is
/// refused. Then the draft is put in its form to sign, hashed and signed;
/// its identifier follows from the reference hash of the signed form and
/// goes into the event. The stored form is the signed form; only in room
/// versions 1 and 2 does it carry the identifier. An event that is too
/// large and a signature that fails are told apart.
pub open spec fn signing_of(
    draft: Pdu,
    version: RoomVersion,
    verdict: AuthVerdict,
    ctx: &CreateContext,
) -> Result<(Pdu, Seq<(Seq<char>, Json)>), Error> {
    match verdict {
        AuthVerdict::Failed => Err(Error::forbidden(Reason::AuthCheckFailed)),
        AuthVerdict::Denied => Err(Error::forbidden(Reason::EventNotAuthorized)),
        AuthVerdict::Allowed => match form_to_sign(draft, version, ctx.server_name@) {
            Err(e) => Err(e),
            Ok(j) => match signed_event(
                ctx.server_name@,
                ctx.keypair.version@,
                ctx.keypair.der@,
                j,
                version,
            ) {
                Err(SignFailure::TooLarge) => Err(
                    Error::BadRequest(ErrorKind::TooLarge, Reason::MessageTooLong),
                ),
                Err(SignFailure::Other) => Err(
                    Error::BadRequest(ErrorKind::Unknown, Reason::SigningFailed),
                ),
                Ok(signed) => match event_reference_hash(signed, version) {
                    None => Err(Error::BadRequest(ErrorKind::Unknown, Reason::SigningFailed)),
                    Some(h) => Ok(
                        (
                            Pdu { event_id: event_id_of(h), ..draft },
                            if version.keeps_event_id() {
                                with_member(signed, "event_id"@, Json::String(event_id_of(h)))
                            } else {
                                signed
                            },
                        ),
                    ),
                },
            },
        },
    }
}

/// Signs a draft that the authorization check has looked at, and derives
/// its identifier.
pub fn sign_event(draft: PduEvent, version: RoomVersion, verdict: AuthVerdict, ctx: &CreateContext) -> (r:
    Result<(PduEvent, JsonObject), Error>)
    requires
        version.is_supported(),
    ensures
        match r {
            Ok((pdu, json)) => signing_of(draft.model(), version, verdict, ctx) == Ok::<
                (Pdu, Seq<(Seq<char>, Json)>),
                Error,
            >((pdu.model(), members(json@))),
            Err(e) => signing_of(draft.model(), version, verdict, ctx) == Err::<
                (Pdu, Seq<(Seq<char>, Json)>),
                Error,
            >(e),
        },
{
    match verdict {
        AuthVerdict::Failed => {
            return Err(Error::BadRequest(ErrorKind::Forbidden, Reason::AuthCheckFailed));
        },
        AuthVerdict::Denied => {
            return Err(Error::BadRequest(ErrorKind::Forbidden, Reason::EventNotAuthorized));
        },
        AuthVerdict::Allowed => {},
    }
    let mut pdu = draft;
    let mut json = pdu.to_canonical_object()?;
    let ghost j0 = members(json@);
    match version {
        RoomVersion::V1 | RoomVersion::V2 => {},
        _ => {
            let key = "event_id".to_owned();
            object_remove(&mut json, &key);
            proof {
                without_member_canonical(j0, "event_id"@);
            }
        },
    }
    let ghost j1 = members(json@);
    object_insert(&mut json, "origin".to_owned(), JsonValue::String(ctx.server_name.clone()));
    proof {
        with_member_canonical(j1, "origin"@, Json::String(ctx.server_name@));
    }
    let signed = match hash_and_sign(&ctx.server_name, &ctx.keypair, &json, version) {
        Ok(s) => s,
        Err(SignFailure::TooLarge) => {
            return Err(Error::BadRequest(ErrorKind::TooLarge, Reason::MessageTooLong));
        },
        Err(SignFailure::Other) => {
            return Err(Error::BadRequest(ErrorKind::Unknown, Reason::SigningFailed));
        },
    };
    let hash = match reference_hash(&signed, version) {
        Some(h) => h,
        None => {
            return Err(Error::BadRequest(ErrorKind::Unknown, Reason::SigningFailed));
        },
    };
    let event_id = String::from_str("$").concat(hash.as_str());
    let mut json = signed;
    match version {
        RoomVersion::V1 | RoomVersion::V2 => {
            object_insert(&mut json, "event_id".to_owned(), JsonValue::String(event_id.clone()));
        },
        _ => {},
    }
    pdu.event_id = event_id;
    Ok((pdu, json))
}

/// The stores after the event `event_id` was given a short identifier: an
/// event that had one keeps it and nothing changes; another one gets the
/// next value of the global counter, unless the counter has run out.
pub open spec fn registered(before: &Stores, after: &Stores, event_id: Seq<char>) -> bool {
    &&& only_short_ids_differ(before, after)
    &&& if before.short.events().contains_key(event_id) {
        after.short.events() == before.short.events() && after.globals.count()
            == before.globals.count()
    } else {
        after.globals.count() == before.globals.count_after(1) && after.short.events() == (
        match before.globals.next_count_spec() {
            Ok(n) => before.short.events().insert(event_id, n),
            Err(_) => before.short.events(),
        })
    }
}

/// The failure of giving `event_id` a short identifier, if it fails.
pub open spec fn registration_failure(before: &Stores, event_id: Seq<char>) -> Option<Error> {
    if before.short.events().contains_key(event_id) {
        None
    } else {
        match before.globals.next_count_spec() {
            Ok(_) => None,
            Err(e) => Some(e),
        }
    }
}

/// What `create_hash_and_sign_event` returns and leaves in the stores, for
/// the draft that it made and the verdict that the check gave on it.
pub open spec fn creation(
    draft: Pdu,
    version: RoomVersion,
    verdict: AuthVerdict,
    ctx: &CreateContext,
    before: &Stores,
    after: &Stores,
    r: Result<(PduEvent, JsonObject), Error>,
) -> bool {
    match signing_of(draft, version, verdict, ctx) {
        Err(e) => r == Err::<(PduEvent, JsonObject), Error>(e) && untouched(before, after),
        Ok((pdu, json)) => registered(before, after, pdu.event_id) && (match registration_failure(
            before,
            pdu.event_id,
        ) {
            Some(e) => r == Err::<(PduEvent, JsonObject), Error>(e),
            None => r matches Ok(made) && made.0.model() == pdu && members(made.1@) == json,
        }),
    }
}

impl Service {
    /// Makes a new event of `sender` in `room_id` from `pdu_builder`: drafts
    /// it, hands the draft to `auth_check`, and, where the check allows it,
    /// signs it, derives its identifier and gives the event a short
    /// identifier. Returns the event and its stored JSON form.
    ///
    /// The result is the one that belongs to the verdict that `auth_check`
    /// gave: any verdict but `Allowed` refuses the event. The caller holds
    /// the state gate of the room.
    pub fn create_hash_and_sign_event<F: FnOnce(&PduEvent) -> AuthVerdict>(
        &self,
        stores: &mut Stores,
        ctx: &CreateContext,
        pdu_builder: PduBuilder,
        sender: &String,
        room_id: &String,
        _mutex_lock: &RoomMutexGuard,
        auth_check: F,
    ) -> (r: Result<(PduEvent, JsonObject), Error>)
        requires
            self.wf(),
            old(stores).wf(),
            guards_state(_mutex_lock, room_id@),
            forall|d: &PduEvent| call_requires(auth_check, (d,)),
        ensures
            final(stores).wf(),
            in_step(self, old(stores)) ==> in_step(self, final(stores)),
            match version_for(
                ctx.room_version,
                pdu_builder.event_type@,
                pdu_builder.content.model(),
            ) {
                Err(e) => r == Err::<(PduEvent, JsonObject), Error>(e) && untouched(
                    old(stores),
                    final(stores),
                ),
                Ok(version) => exists|d: PduEvent, verdict: AuthVerdict|
                    {
                        &&& d.model() == draft_of(
                            &pdu_builder,
                            sender@,
                            room_id@,
                            parents_of(old(stores).state.extremities(room_id@)),
                            depth_after(self, parents_of(old(stores).state.extremities(room_id@))),
                            ctx,
                        )
                        &&& call_ensures(auth_check, (&d,), verdict)
                        &&& creation(
                            d.model(),
                            version,
                            verdict,
                            ctx,
                            old(stores),
                            final(stores),
                            r,
                        )
                    },
            },
    {
        let (draft, version) = self.draft_event(stores, ctx, pdu_builder, sender, room_id)?;
        let verdict = auth_check(&draft);
        let ghost d = draft;
        let (pdu, json) = match sign_event(draft, version, verdict, ctx) {
            Ok(made) => made,
            Err(e) => {
                proof {
                    assert(creation(d.model(), version, verdict, ctx, old(stores), stores, Err(e)));
                }
                return Err(e);
            },
        };
        let registered_id = stores.short.get_or_create_shorteventid(
            &mut stores.globals,
            &pdu.event_id,
        );
        match registered_id {
            Ok(_) => {
                let r = Ok((pdu, json));
                proof {
                    assert(creation(d.model(), version, verdict, ctx, old(stores), stores, r));
                }
                r
            },
            Err(e) => {
                proof {
                    assert(creation(d.model(), version, verdict, ctx, old(stores), stores, Err(e)));
                }
                Err(e)
            },
        }
    }
}

} // verus!
