//! Appending an event to a room: the durable commit and what follows it.

use super::content::{
    body_of, extract_body, extract_related_event, levels_declared, membership_in, read_levels,
    read_membership, read_redacts, read_relation, redacts_in, related_event, relation_in,
};
use super::data::{
    counter_bound, entry_at, fresh_position_is_free, with_entry, with_entry_facts,
    with_entry_keeps_bound, PduId, Stored,
};
use super::fanout::{
    appservice_deliveries, appservice_models, bad_member_target, deliveries, evaluation_models,
    fan_out, job_models, push_targets, push_targets_of, recipients, AppserviceMatch, Evaluation,
    PushJob,
};
use super::redact::{flat_body, redaction_of, Redacted};
use super::{in_step, Service};
use crate::error::{Error, ErrorKind, Reason};
use crate::gate::{lock_then_unlock, RoomMutexGuard};
use crate::json::{
    duplicate_array, duplicate_object, elements, lookup, members, object_get, object_insert,
    object_is_canonical, with_member, Json, JsonObject, JsonValue,
};
use crate::pdu::{
    kind_is, opt_text, room_member, room_message, room_redaction, space_child, Pdu, PduEvent,
    RoomVersion,
};
use crate::pdu_count::PduCount;
use crate::protocol::{Membership, Relation, RelationModel};
use crate::state::guards_state;
use crate::text::{copy_all, texts};
use crate::user::bump_all;
use crate::{untouched, Stores};
use vstd::prelude::*;

verus! {

/// The state event that an event replaces: the one that its state snapshot
/// holds for the same type and state key.
#[derive(Debug)]
pub struct PrevState {
    pub content: JsonValue,
    pub sender: String,
    pub event_id: String,
}

/// The unsigned part of a state event once it names what the event
/// replaces: the content, the sender and the identifier of `prev`.
pub open spec fn with_prev_state(
    unsigned: Seq<(Seq<char>, Json)>,
    content: Json,
    sender: Seq<char>,
    event_id: Seq<char>,
) -> Seq<(Seq<char>, Json)> {
    with_member(
        with_member(
            with_member(unsigned, "prev_content"@, content),
            "prev_sender"@,
            Json::String(sender),
        ),
        "replaces_state"@,
        Json::String(event_id),
    )
}

/// The JSON form of an event as it is stored. A state event gets an
/// unsigned part if it has none, and where it replaces a state event, that
/// part names what is replaced. This fails where the content of the
/// replaced event is no canonical object. An unsigned part that is no
/// object is left alone, and so is the form of an event that is no state
/// event.
pub open spec fn stored_form(
    json: Seq<(Seq<char>, Json)>,
    pdu: Pdu,
    prev: Option<PrevState>,
) -> Result<Seq<(Seq<char>, Json)>, Error> {
    if pdu.state_key.is_none() {
        Ok(json)
    } else {
        let unsigned = match lookup(json, "unsigned"@) {
            None => Some(Seq::<(Seq<char>, Json)>::empty()),
            Some(Json::Object(u)) => Some(u),
            Some(_) => None,
        };
        match unsigned {
            None => Ok(json),
            Some(u) => match prev {
                None => Ok(with_member(json, "unsigned"@, Json::Object(u))),
                Some(p) => match p.content.model() {
                    Json::Object(c) => if p.content.model().canonical() {
                        Ok(
                            with_member(
                                json,
                                "unsigned"@,
                                Json::Object(
                                    with_prev_state(u, Json::Object(c), p.sender@, p.event_id@),
                                ),
                            ),
                        )
                    } else {
                        Err(Error::BadDatabase(Reason::PrevStateNotCanonical))
                    },
                    _ => Err(Error::BadDatabase(Reason::PrevStateNotCanonical)),
                },
            },
        }
    }
}

/// The JSON form of an event as it is stored.
pub fn prepare_json(json: JsonObject, pdu: &PduEvent, prev: &Option<PrevState>) -> (r: Result<
    JsonObject,
    Error,
>)
    ensures
        match r {
            Ok(j) => stored_form(members(json@), pdu.model(), *prev) == Ok::<
                Seq<(Seq<char>, Json)>,
                Error,
            >(members(j@)),
            Err(e) => stored_form(members(json@), pdu.model(), *prev) == Err::<
                Seq<(Seq<char>, Json)>,
                Error,
            >(e),
        },
{
    let mut json = json;
    if pdu.state_key.is_none() {
        return Ok(json);
    }
    let key = "unsigned".to_owned();
    let mut unsigned: JsonObject = match object_get(&json, &key) {
        None => Vec::new(),
        Some(JsonValue::Object(u)) => duplicate_object(u),
        Some(_) => {
            return Ok(json);
        },
    };
    assert(members(Seq::<(String, JsonValue)>::empty()) =~= Seq::<(Seq<char>, Json)>::empty());
    match prev {
        None => {},
        Some(p) => {
            match &p.content {
                JsonValue::Object(c) => {
                    if !object_is_canonical(c) {
                        return Err(Error::BadDatabase(Reason::PrevStateNotCanonical));
                    }
                    object_insert(
                        &mut unsigned,
                        "prev_content".to_owned(),
                        JsonValue::Object(duplicate_object(c)),
                    );
                    object_insert(
                        &mut unsigned,
                        "prev_sender".to_owned(),
                        JsonValue::String(p.sender.clone()),
                    );
                    object_insert(
                        &mut unsigned,
                        "replaces_state".to_owned(),
                        JsonValue::String(p.event_id.clone()),
                    );
                },
                _ => {
                    return Err(Error::BadDatabase(Reason::PrevStateNotCanonical));
                },
            }
        },
    }
    object_insert(&mut json, key, JsonValue::Object(unsigned));
    Ok(json)
}

/// What the rest of the server knows that bears on an event being appended.
#[derive(Debug)]
pub struct AppendContext {
    /// The state event that the event replaces, if it replaces one.
    pub prev_state: Option<PrevState>,
    /// The content of the room's current power levels, if it has any.
    pub power_levels: Option<JsonValue>,
    /// The local users that are active in the room.
    pub active_local_users: Vec<String>,
    /// What the push rules of the push targets say of the event.
    pub evaluations: Vec<Evaluation>,
    /// The version of the room.
    pub room_version: RoomVersion,
    /// Whether the sender may redact the event that a redaction names.
    pub can_redact: bool,
    /// The stripped state that goes with an invitation.
    pub invite_state: Vec<JsonValue>,
    /// The administrative control room, if the server has one.
    pub admin_room: Option<String>,
    /// The registered application services, in the order of the registry.
    pub appservices: Vec<AppserviceMatch>,
}

/// The event that a redaction names as its target for the commit: at the
/// top of the event up to room version 10, in its content in version 11.
/// An unknown room version and an unreadable content are failures.
pub open spec fn commit_target(pdu: Pdu, version: RoomVersion) -> Result<Option<Seq<char>>, Error> {
    if version == RoomVersion::V11 {
        match redacts_in(pdu.content) {
            Some(t) => Ok(t),
            None => Err(Error::BadDatabase(Reason::InvalidRedactionContent)),
        }
    } else if version.is_supported() {
        Ok(pdu.redacts)
    } else {
        Err(Error::BadRequest(ErrorKind::BadJson, Reason::UnsupportedRoomVersion))
    }
}

/// The event that a redaction names as its target for the commit.
pub fn redaction_target_of(pdu: &PduEvent, version: RoomVersion) -> (r: Result<
    Option<String>,
    Error,
>)
    ensures
        match r {
            Ok(t) => commit_target(pdu.model(), version) == Ok::<Option<Seq<char>>, Error>(
                opt_text(t),
            ),
            Err(e) => commit_target(pdu.model(), version) == Err::<Option<Seq<char>>, Error>(e),
        },
{
    match version {
        RoomVersion::V11 => match read_redacts(&pdu.content) {
            Some(t) => Ok(t),
            None => Err(Error::BadDatabase(Reason::InvalidRedactionContent)),
        },
        RoomVersion::Other => Err(
            Error::BadRequest(ErrorKind::BadJson, Reason::UnsupportedRoomVersion),
        ),
        _ => Ok(crate::pdu::copy_opt(&pdu.redacts)),
    }
}

/// Why the fan-out of an appended event does not start, if it does not:
/// the room's power levels cannot be read, or the event is a membership
/// event about a user that is none. The event is stored by then; no unread
/// counter has gone up.
pub open spec fn early_refusal(ctx: &AppendContext, pdu: Pdu) -> Option<Error> {
    if ctx.power_levels.is_some() && levels_declared(ctx.power_levels.unwrap().model()).is_none() {
        Some(Error::BadDatabase(Reason::InvalidPowerLevels))
    } else if bad_member_target(pdu) {
        Some(Error::BadDatabase(Reason::InvalidUserId))
    } else {
        None
    }
}

/// Why the work that the type of an appended event asks for fails, if it
/// fails: a redaction in a room of unknown version, or with a content that
/// is none; a membership event with a content that is none; a message with
/// a content that cannot be read. The event is stored by then and the
/// unread counters have gone up.
pub open spec fn late_refusal(ctx: &AppendContext, pdu: Pdu) -> Option<Error> {
    if pdu.kind == room_redaction() {
        match commit_target(pdu, ctx.room_version) {
            Ok(_) => None,
            Err(e) => Some(e),
        }
    } else if pdu.kind == room_member() {
        if pdu.state_key.is_some() && membership_in(pdu.content).is_none() {
            Some(Error::BadDatabase(Reason::InvalidMemberContent))
        } else {
            None
        }
    } else if pdu.kind == room_message() {
        if body_of(pdu.content).is_none() {
            Some(Error::BadDatabase(Reason::InvalidContent))
        } else {
            None
        }
    } else {
        None
    }
}

/// The first failure after the commit, if there is one. None of them takes
/// the commit back.
pub open spec fn refusal(ctx: &AppendContext, pdu: Pdu) -> Option<Error> {
    match early_refusal(ctx, pdu) {
        Some(e) => Some(e),
        None => late_refusal(ctx, pdu),
    }
}

/// Whether the fan-out of the event can start.
pub fn early_check(ctx: &AppendContext, pdu: &PduEvent) -> (r: Option<Error>)
    ensures
        r == early_refusal(ctx, pdu.model()),
{
    match &ctx.power_levels {
        Some(c) => {
            if read_levels(c).is_none() {
                return Some(Error::BadDatabase(Reason::InvalidPowerLevels));
            }
        },
        None => {},
    }
    if kind_is(&pdu.kind, "m.room.member") {
        match &pdu.state_key {
            Some(k) => {
                if !crate::protocol::is_user_id(k) {
                    return Some(Error::BadDatabase(Reason::InvalidUserId));
                }
            },
            None => {},
        }
    }
    None
}

/// The event that the commit redacts: the target of a redaction that names
/// one, where the sender may redact it.
pub open spec fn redaction_wanted(ctx: &AppendContext, pdu: Pdu) -> Option<Seq<char>> {
    if pdu.kind == room_redaction() && ctx.can_redact {
        match commit_target(pdu, ctx.room_version) {
            Ok(t) => t,
            Err(_) => None,
        }
    } else {
        None
    }
}

/// Whether the cached space hierarchy of the room is stale after the event.
pub open spec fn space_cache_stale(pdu: Pdu) -> bool {
    pdu.kind == space_child()
}

/// The membership that the event declares for the user it is about.
pub open spec fn membership_change(pdu: Pdu) -> Option<(Seq<char>, Membership)> {
    if pdu.kind == room_member() && pdu.state_key.is_some() && membership_in(pdu.content).is_some() {
        Some((pdu.state_key.unwrap(), membership_in(pdu.content).unwrap()))
    } else {
        None
    }
}

/// The text that goes to the search index: the body of a message.
pub open spec fn search_body(pdu: Pdu) -> Option<Seq<char>> {
    if pdu.kind == room_message() {
        flat_body(body_of(pdu.content))
    } else {
        None
    }
}

/// The text that is dispatched as an administrative command: the body of a
/// message in the administrative control room.
pub open spec fn admin_command(ctx: &AppendContext, pdu: Pdu) -> Option<Seq<char>> {
    if opt_text(ctx.admin_room) == Some(pdu.room_id) {
        search_body(pdu)
    } else {
        None
    }
}

/// The root of the thread that the event belongs to, if it belongs to one.
pub open spec fn thread_root(pdu: Pdu) -> Option<Seq<char>> {
    match relation_in(pdu.content) {
        Some(RelationModel::Thread(root)) => Some(root),
        _ => None,
    }
}

/// The event that the event replies to, if it is a reply.
pub open spec fn reply_target(pdu: Pdu) -> Option<Seq<char>> {
    match relation_in(pdu.content) {
        Some(RelationModel::Reply(to)) => Some(to),
        _ => None,
    }
}

/// The position of `target` as a list: empty where there is no target or it
/// has no position.
pub open spec fn position_list(positions: Map<Seq<char>, PduId>, target: Option<Seq<char>>) -> Seq<
    PduCount,
> {
    match target {
        Some(t) => if positions.contains_key(t) {
            seq![positions[t].count]
        } else {
            Seq::empty()
        },
        None => Seq::empty(),
    }
}

/// The positions that the event is related to: that of the event it names
/// under `m.relates_to`, then that of the event it replies to. A target
/// without a position is passed over.
pub open spec fn related_positions(positions: Map<Seq<char>, PduId>, pdu: Pdu) -> Seq<PduCount> {
    position_list(positions, related_event(pdu.content)) + position_list(
        positions,
        reply_target(pdu),
    )
}

/// A change of membership to record, with the stripped state that goes
/// with an invitation.
#[derive(Debug)]
pub struct MembershipUpdate {
    pub user_id: String,
    pub membership: Membership,
    pub invite_state: Option<Vec<JsonValue>>,
}

/// What the type and the content of an event ask for.
pub struct Plan {
    pub redacts: Option<String>,
    pub invalidate_space_cache: bool,
    pub membership: Option<MembershipUpdate>,
    pub search_body: Option<String>,
    pub admin_command: Option<String>,
    pub thread_root: Option<String>,
    pub reply_to: Option<String>,
    pub related: Option<String>,
}

/// Whether a membership update is the one that the event asks for.
pub open spec fn is_membership_update(
    update: Option<MembershipUpdate>,
    ctx: &AppendContext,
    pdu: Pdu,
) -> bool {
    match update {
        Some(u) => {
            &&& membership_change(pdu) == Some((u.user_id@, u.membership))
            &&& match u.invite_state {
                Some(s) => u.membership == Membership::Invite && elements(s@) == elements(
                    ctx.invite_state@,
                ),
                None => u.membership != Membership::Invite,
            }
        },
        None => membership_change(pdu).is_none(),
    }
}

/// Decides what the type and the content of an event ask for, or why that
/// cannot be told.
pub fn plan(ctx: &AppendContext, pdu: &PduEvent) -> (r: Result<Plan, Error>)
    ensures
        match r {
            Ok(p) => {
                &&& refusal(ctx, pdu.model()).is_none()
                &&& opt_text(p.redacts) == redaction_wanted(ctx, pdu.model())
                &&& p.invalidate_space_cache == space_cache_stale(pdu.model())
                &&& is_membership_update(p.membership, ctx, pdu.model())
                &&& opt_text(p.search_body) == search_body(pdu.model())
                &&& opt_text(p.admin_command) == admin_command(ctx, pdu.model())
                &&& opt_text(p.thread_root) == thread_root(pdu.model())
                &&& opt_text(p.reply_to) == reply_target(pdu.model())
                &&& opt_text(p.related) == related_event(pdu.model().content)
            },
            Err(e) => refusal(ctx, pdu.model()) == Some(e),
        },
{
    match &ctx.power_levels {
        Some(c) => {
            if read_levels(c).is_none() {
                return Err(Error::BadDatabase(Reason::InvalidPowerLevels));
            }
        },
        None => {},
    }
    let is_member = kind_is(&pdu.kind, "m.room.member");
    if is_member {
        match &pdu.state_key {
            Some(k) => {
                if !crate::protocol::is_user_id(k) {
                    return Err(Error::BadDatabase(Reason::InvalidUserId));
                }
            },
            None => {},
        }
    }
    proof {
        reveal_strlit("m.room.member");
        reveal_strlit("m.room.redaction");
        reveal_strlit("m.room.message");
        reveal_strlit("m.space.child");
        assert(room_member() != room_redaction()) by {
            assert(room_member().len() != room_redaction().len());
        }
        assert(room_message() != room_redaction()) by {
            assert(room_message().len() != room_redaction().len());
        }
        assert(room_member() != room_message()) by {
            assert(room_member().len() != room_message().len());
        }
        assert(space_child() != room_redaction()) by {
            assert(space_child().len() != room_redaction().len());
        }
        assert(space_child() != room_member()) by {
            assert(space_child()[2] != room_member()[2]);
        }
        assert(space_child() != room_message()) by {
            assert(space_child().len() != room_message().len());
        }
    }
    let mut out = Plan {
        redacts: None,
        invalidate_space_cache: false,
        membership: None,
        search_body: None,
        admin_command: None,
        thread_root: None,
        reply_to: None,
        related: extract_related_event(&pdu.content),
    };
    match read_relation(&pdu.content) {
        Some(Relation::Reply(to)) => {
            out.reply_to = Some(to);
        },
        Some(Relation::Thread(root)) => {
            out.thread_root = Some(root);
        },
        _ => {},
    }
    if kind_is(&pdu.kind, "m.room.redaction") {
        let target = redaction_target_of(pdu, ctx.room_version)?;
        if ctx.can_redact {
            out.redacts = target;
        }
    } else if kind_is(&pdu.kind, "m.space.child") {
        out.invalidate_space_cache = true;
    } else if is_member {
        match &pdu.state_key {
            Some(k) => {
                let membership = match read_membership(&pdu.content) {
                    Some(m) => m,
                    None => {
                        return Err(Error::BadDatabase(Reason::InvalidMemberContent));
                    },
                };
                let invite_state = match membership {
                    Membership::Invite => Some(duplicate_array(&ctx.invite_state)),
                    _ => None,
                };
                out.membership = Some(
                    MembershipUpdate { user_id: k.clone(), membership, invite_state },
                );
            },
            None => {},
        }
    } else if kind_is(&pdu.kind, "m.room.message") {
        match extract_body(&pdu.content) {
            Some(body) => {
                let in_admin_room = match &ctx.admin_room {
                    Some(a) => *a == pdu.room_id,
                    None => false,
                };
                if in_admin_room {
                    out.admin_command = crate::pdu::copy_opt(&body);
                }
                out.search_body = body;
            },
            None => {
                return Err(Error::BadDatabase(Reason::InvalidContent));
            },
        }
    }
    Ok(out)
}

/// What appending an event did and what is left to do about it, in the
/// order in which it is to be done.
#[derive(Debug)]
pub struct AppendOutcome {
    /// The position that the event got.
    pub pdu_id: PduId,
    /// The events that the event names as its parents: they have a child now.
    pub referenced: Vec<String>,
    /// The users whose unread notifications went up.
    pub notifies: Vec<String>,
    /// The users whose unread highlights went up.
    pub highlights: Vec<String>,
    /// The pushes to dispatch.
    pub pushes: Vec<PushJob>,
    /// The event that was redacted, if one was.
    pub redacted: Option<Redacted>,
    /// Whether the cached space hierarchy of the room is to be dropped.
    pub invalidate_space_cache: bool,
    /// The change of membership to record, if there is one.
    pub membership: Option<MembershipUpdate>,
    /// The text to feed to the search index, if there is one.
    pub search_body: Option<String>,
    /// The administrative command to dispatch, if there is one.
    pub admin_command: Option<String>,
    /// The positions that the event's position is related to.
    pub relations: Vec<PduCount>,
    /// The root of the thread that the event joins, if it joins one.
    pub thread_root: Option<String>,
    /// The registrations of the application services to deliver to.
    pub appservices: Vec<String>,
}

/// The position that the next appended event of `room` gets: the next
/// value of the global counter.
pub open spec fn next_position(stores: &Stores, room: Seq<char>) -> PduId {
    PduId {
        shortroomid: stores.short.rooms()[room],
        count: PduCount::Normal((stores.globals.count() + 1) as u64),
    }
}

/// Whether an event can be appended at all: it can where its stored form
/// exists. Otherwise the failure is reported and nothing is written. This
/// is the only failure before the commit.
pub open spec fn admission(ctx: &AppendContext, pdu: Pdu, json: Seq<(Seq<char>, Json)>) -> Result<
    Seq<(Seq<char>, Json)>,
    Error,
> {
    stored_form(json, pdu, ctx.prev_state)
}

/// The users whose unread notifications went up: those notified, where the
/// fan-out started.
pub open spec fn raised_notifications(ctx: &AppendContext, pdu: Pdu) -> Seq<Seq<char>> {
    if early_refusal(ctx, pdu).is_some() {
        Seq::empty()
    } else {
        notified(ctx, pdu)
    }
}

/// The users whose unread highlights went up: those for whom the event is
/// a highlight, where the fan-out started.
pub open spec fn raised_highlights(ctx: &AppendContext, pdu: Pdu) -> Seq<Seq<char>> {
    if early_refusal(ctx, pdu).is_some() {
        Seq::empty()
    } else {
        highlighted(ctx, pdu)
    }
}

/// The users notified of an event in this context.
pub open spec fn notified(ctx: &AppendContext, pdu: Pdu) -> Seq<Seq<char>> {
    fan_out(
        push_targets_of(texts(ctx.active_local_users@), pdu),
        pdu.sender,
        evaluation_models(ctx.evaluations@),
    ).notifies
}

/// The users for whom an event is a highlight in this context.
pub open spec fn highlighted(ctx: &AppendContext, pdu: Pdu) -> Seq<Seq<char>> {
    fan_out(
        push_targets_of(texts(ctx.active_local_users@), pdu),
        pdu.sender,
        evaluation_models(ctx.evaluations@),
    ).highlights
}

/// The stores after the commit of an event of `sender` in `room` and the
/// fan-out that follows it: the room's extremities are `leaves`, each once;
/// the global counter is three further, the first value being the event's
/// position and the other two the stamps of the marker and of the reset;
/// the sender's read marker stands at the event's position; the sender's
/// unread counters were reset; and the unread counters of the notified and
/// highlighted went up.
pub open spec fn stores_after(
    before: &Stores,
    after: &Stores,
    room: Seq<char>,
    sender: Seq<char>,
    leaves: Seq<Seq<char>>,
    notifies: Seq<Seq<char>>,
    highlights: Seq<Seq<char>>,
) -> bool {
    let c = before.globals.count();
    &&& after.wf()
    &&& after.short.rooms() == before.short.rooms()
    &&& after.short.events() == before.short.events()
    &&& after.state.leaves() == before.state.leaves().insert(
        room,
        crate::text::distinct_of(leaves),
    )
    &&& after.state.room_states() == before.state.room_states()
    &&& after.state.event_states() == before.state.event_states()
    &&& after.globals.count() == c + 3
    &&& after.globals.same_marks(&before.globals)
    &&& after.read_receipt.markers() == before.read_receipt.markers().insert(
        (room, sender),
        (c + 1) as u64,
    )
    &&& after.read_receipt.updates() == before.read_receipt.updates().insert(
        (room, sender),
        (c + 2) as u64,
    )
    &&& after.read_receipt.receipts() == before.read_receipt.receipts()
    &&& after.user.last_reads() == before.user.last_reads().insert((room, sender), (c + 3) as u64)
    &&& after.user.tokens() == before.user.tokens()
    &&& after.user.notifications() == bump_all(
        before.user.notifications().insert((sender, room), 0),
        notifies,
        room,
    )
    &&& after.user.highlights() == bump_all(
        before.user.highlights().insert((sender, room), 0),
        highlights,
        room,
    )
}

/// What `append_pdu` returns and leaves behind, for an event, its JSON form
/// and the new forward extremities of its room.
///
/// An event that is not admitted is reported with its failure and nothing
/// is written. An admitted event stands at the next live position of its
/// room with its stored form, its identifier leads to that position, and it
/// is no outlier any more; the stores are as `stores_after` says. Every
/// later failure is reported with the commit standing: a failure before
/// the fan-out with no unread counter raised, a failure of the work that
/// the type of the event asks for with the counters raised. Where a
/// redaction that the sender may make is wanted, its target is replaced by
/// the redacted form; where that fails, the failure is reported and the
/// rest stands. Otherwise the outcome lists what is left to do.
pub open spec fn appended(
    before: &Service,
    stores_before: &Stores,
    after: &Service,
    stores_now: &Stores,
    ctx: &AppendContext,
    pdu: &PduEvent,
    json: Seq<(Seq<char>, Json)>,
    leaves: Seq<Seq<char>>,
    r: Result<AppendOutcome, Error>,
) -> bool {
    match admission(ctx, pdu.model(), json) {
        Err(e) => {
            &&& r == Err::<AppendOutcome, Error>(e)
            &&& untouched(stores_before, stores_now)
            &&& after.stored() == before.stored()
            &&& after.positions() == before.positions()
            &&& after.outliers() == before.outliers()
            &&& after.last_counts() == before.last_counts()
        },
        Ok(json) => {
            let id = next_position(stores_before, pdu.room_id@);
            let base = with_entry(
                before.stored(),
                Stored { id, pdu: pdu.model(), json },
            );
            let positions = before.positions().insert(pdu.event_id@, id);
            let redaction = match refusal(ctx, pdu.model()) {
                Some(e) => Err(e),
                None => match redaction_wanted(ctx, pdu.model()) {
                    Some(target) => redaction_of(
                        base,
                        positions,
                        target,
                        pdu.to_canonical_object_spec(),
                        ctx.room_version,
                    ),
                    None => Ok(None),
                },
            };
            &&& stores_after(
                stores_before,
                stores_now,
                pdu.room_id@,
                pdu.sender@,
                leaves,
                raised_notifications(ctx, pdu.model()),
                raised_highlights(ctx, pdu.model()),
            )
            &&& after.positions() == positions
            &&& after.outliers() == before.outliers().remove(pdu.event_id@)
            &&& after.last_counts() == before.last_counts().insert(pdu.room_id@, id.count)
            &&& match redaction {
                Err(e) => r == Err::<AppendOutcome, Error>(e) && after.stored()
                    == base,
                Ok(replaced) => {
                    &&& after.stored() == (match replaced {
                        Some(e) => with_entry(base, e),
                        None => base,
                    })
                    &&& r matches Ok(out)
                    &&& out.pdu_id == id
                    &&& texts(out.referenced@) == pdu.model().prev_events
                    &&& texts(out.notifies@) == notified(ctx, pdu.model())
                    &&& texts(out.highlights@) == highlighted(ctx, pdu.model())
                    &&& job_models(out.pushes@) == fan_out(
                        push_targets_of(texts(ctx.active_local_users@), pdu.model()),
                        pdu.sender@,
                        evaluation_models(ctx.evaluations@),
                    ).pushes
                    &&& match out.redacted {
                        Some(done) => replaced matches Some(e) && done.pdu_id == e.id
                            && done.shortroomid == id.shortroomid && opt_text(
                            done.deindexed_body,
                        ) == flat_body(body_of(entry_at(base, e.id).unwrap().pdu.content)),
                        None => replaced.is_none(),
                    }
                    &&& out.invalidate_space_cache == space_cache_stale(pdu.model())
                    &&& is_membership_update(out.membership, ctx, pdu.model())
                    &&& opt_text(out.search_body) == search_body(pdu.model())
                    &&& opt_text(out.admin_command) == admin_command(ctx, pdu.model())
                    &&& out.relations@ == related_positions(positions, pdu.model())
                    &&& opt_text(out.thread_root) == thread_root(pdu.model())
                    &&& texts(out.appservices@) == deliveries(
                        appservice_models(ctx.appservices@),
                        pdu.model(),
                    )
                },
            }
        },
    }
}

/// Appending keeps the stored positions below the global counter: where no
/// stored position was drawn from a value above the counter before, none is
/// afterwards. So every position that is allocated later, live or
/// historical, is drawn from a value above all that are stored.
pub proof fn append_keeps_counter_bound(
    before: &Service,
    stores_before: &Stores,
    after: &Service,
    stores_now: &Stores,
    ctx: &AppendContext,
    pdu: &PduEvent,
    json: Seq<(Seq<char>, Json)>,
    leaves: Seq<Seq<char>>,
    r: Result<AppendOutcome, Error>,
)
    requires
        appended(before, stores_before, after, stores_now, ctx, pdu, json, leaves, r),
        stores_before.globals.count() <= u64::MAX - 3,
        counter_bound(before.stored(), stores_before.globals.count()),
    ensures
        counter_bound(after.stored(), stores_now.globals.count()),
{
    match admission(ctx, pdu.model(), json) {
        Err(_) => {},
        Ok(form) => {
            if refusal(ctx, pdu.model()).is_some() {
                let c = stores_before.globals.count();
                let id = next_position(stores_before, pdu.room_id@);
                with_entry_keeps_bound(
                    before.stored(),
                    Stored { id, pdu: pdu.model(), json: form },
                    c,
                    (c + 3) as u64,
                );
            }
            let c = stores_before.globals.count();
            let top = (c + 3) as u64;
            let id = next_position(stores_before, pdu.room_id@);
            let entry = Stored { id, pdu: pdu.model(), json: form };
            let base = with_entry(before.stored(), entry);
            with_entry_keeps_bound(before.stored(), entry, c, top);
            let positions = before.positions().insert(pdu.event_id@, id);
            match redaction_wanted(ctx, pdu.model()) {
                Some(target) => {
                    match redaction_of(
                        base,
                        positions,
                        target,
                        pdu.to_canonical_object_spec(),
                        ctx.room_version,
                    ) {
                        Ok(Some(e)) => {
                            let at = positions[target];
                            let i = choose|i: int| 0 <= i < base.len() && base[i].id == at;
                            assert(base[i].id.count.raw() <= top);
                            with_entry_keeps_bound(base, e, top, top);
                        },
                        _ => {},
                    }
                },
                None => {},
            }
        },
    }
}

/// Nobody hears of their own event: whatever the local members, the push
/// rules and the actions that the evaluator returned, the sender of an
/// appended event is not among those whose unread counters went up, not
/// among those the outcome names as notified or highlighted, and gets no
/// push.
pub proof fn append_passes_the_sender_over(
    before: &Service,
    stores_before: &Stores,
    after: &Service,
    stores_now: &Stores,
    ctx: &AppendContext,
    pdu: &PduEvent,
    json: Seq<(Seq<char>, Json)>,
    leaves: Seq<Seq<char>>,
    r: Result<AppendOutcome, Error>,
)
    requires
        appended(before, stores_before, after, stores_now, ctx, pdu, json, leaves, r),
    ensures
        !raised_notifications(ctx, pdu.model()).contains(pdu.sender@),
        !raised_highlights(ctx, pdu.model()).contains(pdu.sender@),
        r matches Ok(out) ==> {
            &&& !texts(out.notifies@).contains(pdu.sender@)
            &&& !texts(out.highlights@).contains(pdu.sender@)
            &&& forall|i: int|
                0 <= i < job_models(out.pushes@).len() ==> (#[trigger] job_models(
                    out.pushes@,
                )[i]).0 != pdu.sender@
        },
{
    super::fanout::sender_is_passed_over(
        push_targets_of(texts(ctx.active_local_users@), pdu.model()),
        pdu.sender@,
        evaluation_models(ctx.evaluations@),
    );
}

/// An append that commits replaces the forward extremities of the room by
/// the given leaves, each once; the old ones are not merged in. So where
/// no leaf is a causal ancestor of another leaf, no extremity of the room
/// is one of another extremity afterwards.
pub proof fn append_replaces_extremities(
    before: &Service,
    stores_before: &Stores,
    after: &Service,
    stores_now: &Stores,
    ctx: &AppendContext,
    pdu: &PduEvent,
    json: Seq<(Seq<char>, Json)>,
    leaves: Seq<Seq<char>>,
    r: Result<AppendOutcome, Error>,
    g: super::graph::Parents,
)
    requires
        appended(before, stores_before, after, stores_now, ctx, pdu, json, leaves, r),
        admission(ctx, pdu.model(), json).is_ok(),
        super::graph::unrelated(g, leaves),
    ensures
        stores_now.state.extremities(pdu.room_id@) == crate::text::distinct_of(leaves),
        super::graph::unrelated(g, stores_now.state.extremities(pdu.room_id@)),
{
    super::graph::unrelated_when_kept_once(g, leaves);
}

/// The positions of the optional target as a list.
fn positions_of(service: &Service, target: &Option<String>) -> (r: Vec<PduCount>)
    requires
        service.wf(),
    ensures
        r@ == position_list(service.positions(), opt_text(*target)),
{
    let mut out: Vec<PduCount> = Vec::new();
    match target {
        Some(t) => {
            match service.db.get_pdu_count(t) {
                Ok(Some(c)) => {
                    out.push(c);
                    assert(out@ =~= seq![c]);
                },
                _ => {},
            }
        },
        None => {},
    }
    out
}

impl Service {
    /// Appends an event to its room.
    ///
    /// Where the stored form of the event cannot be made, the call fails
    /// and nothing is written. Then comes the commit: the room's forward extremities
    /// become `leaves`; under the insertion gate the event gets the next
    /// live position, the sender's read marker is set to that position, the
    /// sender's unread counters are reset, and the event is stored. After that the unread counters of the users
    /// to notify go up, and a redaction that the sender may make replaces
    /// its target by the redacted form. Whatever fails after the commit is
    /// reported, and the commit stands: nothing is rolled back. The
    /// position of the event is a new one: no stored event is overwritten.
    ///
    /// The caller holds the state gate of the room, the room has a short
    /// identifier, its insertion gate is free, the global counter has three
    /// values left, and the timeline is in step with the counter.
    pub fn append_pdu(
        &mut self,
        stores: &mut Stores,
        ctx: &AppendContext,
        pdu: &PduEvent,
        pdu_json: JsonObject,
        leaves: Vec<String>,
        state_lock: &RoomMutexGuard,
    ) -> (r: Result<AppendOutcome, Error>)
        requires
            old(self).wf(),
            old(stores).wf(),
            guards_state(state_lock, pdu.room_id@),
            old(stores).short.rooms().contains_key(pdu.room_id@),
            !old(self).insert_gate().is_locked(pdu.room_id@),
            old(stores).globals.count() <= u64::MAX - 3,
            in_step(old(self), old(stores)),
        ensures
            final(self).wf(),
            final(stores).wf(),
            final(self).insert_gate().holders() == old(self).insert_gate().holders(),
            in_step(final(self), final(stores)),
            admission(ctx, pdu.model(), members(pdu_json@)).is_ok() ==> entry_at(
                old(self).stored(),
                next_position(old(stores), pdu.room_id@),
            ).is_none() && final(self).stored().len() == old(self).stored().len() + 1,
            appended(
                old(self),
                old(stores),
                final(self),
                final(stores),
                ctx,
                pdu,
                members(pdu_json@),
                texts(leaves@),
                r,
            ),
    {
        let json = prepare_json(pdu_json, pdu, &ctx.prev_state)?;
        let shortroomid = stores.short.get_shortroomid(&pdu.room_id).unwrap().unwrap();

        // The commit.
        let _ = stores.state.set_forward_extremities(&pdu.room_id, leaves, state_lock);
        proof {
            self.wf_facts();
        }
        let ghost holders = self.mutex_insert.holders();
        let insert_lock = self.mutex_insert.try_lock(&pdu.room_id).unwrap();
        let count = stores.globals.next_count().unwrap();
        let _ = stores.read_receipt.private_read_set(
            &mut stores.globals,
            &pdu.room_id,
            &pdu.sender,
            count,
        );
        let _ = stores.user.reset_notification_counts(
            &mut stores.globals,
            &pdu.sender,
            &pdu.room_id,
        );
        let pdu_id = PduId { shortroomid, count: PduCount::Normal(count) };
        proof {
            let entry = Stored { id: pdu_id, pdu: pdu.model(), json: members(json@) };
            with_entry_keeps_bound(
                self.stored(),
                entry,
                old(stores).globals.count(),
                stores.globals.count(),
            );
            fresh_position_is_free(self.stored(), pdu_id, old(stores).globals.count());
            with_entry_facts(self.stored(), entry);
        }
        self.db.append_pdu(pdu_id, pdu, &json, count);
        proof {
            lock_then_unlock(holders, pdu.room_id@);
        }
        self.mutex_insert.unlock(insert_lock);

        // What follows the commit; no failure from here on takes it back.
        match early_check(ctx, pdu) {
            Some(e) => {
                proof {
                    assert(bump_all(stores.user.notifications(), Seq::empty(), pdu.room_id@)
                        == stores.user.notifications());
                    assert(bump_all(stores.user.highlights(), Seq::empty(), pdu.room_id@)
                        == stores.user.highlights());
                }
                return Err(e);
            },
            None => {},
        }
        let targets = push_targets(&ctx.active_local_users, pdu).unwrap();
        let (notifies, highlights, pushes) = recipients(&targets, &pdu.sender, &ctx.evaluations);
        let _ = stores.user.increment_notification_counts(&pdu.room_id, &notifies, &highlights);
        let planned = plan(ctx, pdu)?;
        let redacted = match &planned.redacts {
            Some(target) => self.redact_pdu(target, pdu, shortroomid, ctx.room_version)?,
            None => None,
        };
        let mut relations = positions_of(self, &planned.related);
        let mut replies = positions_of(self, &planned.reply_to);
        relations.append(&mut replies);
        let appservices = appservice_deliveries(&ctx.appservices, pdu);
        Ok(
            AppendOutcome {
                pdu_id,
                referenced: copy_all(&pdu.prev_events),
                notifies,
                highlights,
                pushes,
                redacted,
                invalidate_space_cache: planned.invalidate_space_cache,
                membership: planned.membership,
                search_body: planned.search_body,
                admin_command: planned.admin_command,
                relations,
                thread_root: planned.thread_root,
                appservices,
            },
        )
    }
}

} // verus!
