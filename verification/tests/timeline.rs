use room_timeline::error::{Error, ErrorKind, Reason};
use room_timeline::gate::{GateKind, RoomMutexGuard, RoomMutexMap};
use room_timeline::json::{object_get, JsonObject, JsonValue};
use room_timeline::pdu::{PduBuilder, PduEvent, RoomVersion};
use room_timeline::pdu_count::PduCount;
use room_timeline::protocol::Keypair;
use room_timeline::timeline::append::AppendContext;
use room_timeline::timeline::compose::{BuildContext, BuildOutcome};
use room_timeline::timeline::create::{AuthVerdict, CreateContext};
use room_timeline::timeline::data::PduId;
use room_timeline::timeline::incoming::Incoming;
use room_timeline::Services;

const PKCS8: &str = "MFECAQEwBQYDK2VwBCIEINjozvdfbsGEt6DD+7Uf4PiJ/YvTNXV2mIPc/tA0T+6tgSEA3TPraTczVkDPTRaX4K+AfUuyx7Mzq1UafTXypnl0t2k";

fn keypair() -> Keypair {
    let document: ruma::serde::Base64 = ruma::serde::Base64::parse(PKCS8).unwrap();
    Keypair { version: "1".to_owned(), der: document.as_bytes().to_vec() }
}

fn text(s: &str) -> String {
    s.to_owned()
}

fn object(members: Vec<(&str, JsonValue)>) -> JsonObject {
    members.into_iter().map(|(k, v)| (k.to_owned(), v)).collect()
}

fn create_context(version: Option<RoomVersion>) -> CreateContext {
    CreateContext {
        room_version: version,
        auth_events: Vec::new(),
        prev_state: None,
        now: 1_700_000_000_000,
        server_name: text("example.org"),
        keypair: keypair(),
    }
}

fn build_context() -> BuildContext {
    BuildContext {
        admin_room: None,
        server_user: text("@server:example.org"),
        room_members: vec![text("@alice:example.org")],
        can_redact: true,
        room_servers: vec![text("example.org"), text("remote.net")],
    }
}

fn append_context(version: RoomVersion) -> AppendContext {
    AppendContext {
        prev_state: None,
        power_levels: None,
        active_local_users: vec![text("@alice:example.org")],
        evaluations: Vec::new(),
        room_version: version,
        can_redact: true,
        invite_state: Vec::new(),
        admin_room: None,
        appservices: Vec::new(),
    }
}

struct Room {
    services: Services,
    gate: RoomMutexMap,
    lock: RoomMutexGuard,
    room_id: String,
}

fn new_room() -> Room {
    let mut services = Services::build();
    let room_id = text("!room:example.org");
    services
        .stores
        .short
        .get_or_create_shortroomid(&mut services.stores.globals, &room_id)
        .unwrap();
    let mut gate = RoomMutexMap::new(GateKind::State);
    let lock = gate.try_lock(&room_id).unwrap();
    Room { services, gate, lock, room_id }
}

fn send(room: &mut Room, known: Option<RoomVersion>, builder: PduBuilder, hash: u64) -> Result<BuildOutcome, Error> {
    let version = known.unwrap_or(RoomVersion::V10);
    let sender = text("@alice:example.org");
    room.services.timeline.build_and_append_pdu(
        &mut room.services.stores,
        &create_context(known),
        &build_context(),
        builder,
        &sender,
        &room.room_id,
        &room.lock,
        |_draft: &PduEvent| AuthVerdict::Allowed,
        |_pdu: &PduEvent| Ok(hash),
        |_pdu: &PduEvent| Ok(append_context(version)),
    )
}

fn create_event() -> PduBuilder {
    PduBuilder {
        event_type: text("m.room.create"),
        content: JsonValue::Object(object(vec![
            ("creator", JsonValue::String(text("@alice:example.org"))),
            ("room_version", JsonValue::String(text("10"))),
        ])),
        unsigned: None,
        state_key: Some(String::new()),
        redacts: None,
    }
}

fn message(body: &str) -> PduBuilder {
    PduBuilder {
        event_type: text("m.room.message"),
        content: JsonValue::Object(object(vec![
            ("body", JsonValue::String(text(body))),
            ("msgtype", JsonValue::String(text("m.text"))),
        ])),
        unsigned: None,
        state_key: None,
        redacts: None,
    }
}

fn redaction(target: &str) -> PduBuilder {
    PduBuilder {
        event_type: text("m.room.redaction"),
        content: JsonValue::Object(object(vec![("reason", JsonValue::String(text("spam")))])),
        unsigned: None,
        state_key: None,
        redacts: Some(text(target)),
    }
}

#[test]
fn create_message_redact_scenario() {
    let mut room = new_room();

    let created = send(&mut room, None, create_event(), 100).unwrap();
    let create_pdu =
        room.services.timeline.get_pdu(&created.event_id).unwrap().unwrap().duplicate();
    assert_eq!(create_pdu.depth, 1);
    assert!(created.event_id.starts_with('$'));
    assert_ne!(created.event_id, "$thiswillbefilledinlater");
    assert_eq!(
        room.services.stores.state.get_room_shortstatehash(&room.room_id).unwrap(),
        Some(100)
    );
    assert_eq!(
        room.services.stores.state.get_forward_extremities(&room.room_id).unwrap(),
        vec![created.event_id.clone()]
    );

    let sent = send(&mut room, Some(RoomVersion::V10), message("hello"), 101).unwrap();
    let message_pdu = room.services.timeline.get_pdu(&sent.event_id).unwrap().unwrap().duplicate();
    assert_eq!(message_pdu.depth, 2);
    assert_eq!(message_pdu.prev_events, vec![created.event_id.clone()]);
    assert_eq!(sent.appended.search_body, Some(text("hello")));
    let position = room.services.timeline.get_pdu_id(&sent.event_id).unwrap().unwrap();
    assert_eq!(position, sent.appended.pdu_id);

    let removed = send(&mut room, Some(RoomVersion::V10), redaction(&sent.event_id), 102).unwrap();
    let redaction_pdu =
        room.services.timeline.get_pdu(&removed.event_id).unwrap().unwrap().duplicate();
    assert_eq!(redaction_pdu.depth, 3);
    let done = removed.appended.redacted.as_ref().unwrap();
    assert_eq!(done.pdu_id, position);
    assert_eq!(done.deindexed_body, Some(text("hello")));

    let after = room.services.timeline.get_pdu(&sent.event_id).unwrap().unwrap();
    match &after.content {
        JsonValue::Object(members) => assert!(members.is_empty()),
        other => panic!("content is no object: {:?}", other),
    }
    assert_eq!(after.event_id, sent.event_id);
    assert_eq!(room.services.timeline.get_pdu_id(&sent.event_id).unwrap(), Some(position));
    let unsigned = after.unsigned.as_ref().unwrap();
    assert!(object_get(unsigned, &text("redacted_because")).is_some());
    room.gate.unlock(room.lock);
}

#[test]
fn signed_event_carries_hashes_signatures_and_origin() {
    let mut room = new_room();
    let created = send(&mut room, None, create_event(), 1).unwrap();
    let json = room.services.timeline.get_pdu_json(&created.event_id).unwrap().unwrap();
    assert!(object_get(json, &text("hashes")).is_some());
    assert!(object_get(json, &text("signatures")).is_some());
    match object_get(json, &text("origin")) {
        Some(JsonValue::String(s)) => assert_eq!(s, "example.org"),
        other => panic!("no origin: {:?}", other),
    }
    // From room version 3 on the stored form carries no identifier.
    assert!(object_get(json, &text("event_id")).is_none());
    assert_eq!(created.event_id.len(), 44);

    let mut first = create_event();
    first.content = JsonValue::Object(object(vec![
        ("creator", JsonValue::String(text("@alice:example.org"))),
        ("room_version", JsonValue::String(text("1"))),
    ]));
    let mut old_room = new_room();
    let old = send(&mut old_room, None, first, 1).unwrap();
    let json = old_room.services.timeline.get_pdu_json(&old.event_id).unwrap().unwrap();
    match object_get(json, &text("event_id")) {
        Some(JsonValue::String(s)) => assert_eq!(*s, old.event_id),
        other => panic!("no event_id: {:?}", other),
    }
    assert!(object_get(json, &text("origin")).is_some());
}

#[test]
fn same_draft_gets_same_identifier() {
    let mut first = new_room();
    let mut second = new_room();
    let a = send(&mut first, None, create_event(), 1).unwrap();
    let b = send(&mut second, None, create_event(), 1).unwrap();
    assert_eq!(a.event_id, b.event_id);
}

#[test]
fn denied_event_is_forbidden_and_nothing_is_written() {
    let mut room = new_room();
    let sender = text("@alice:example.org");
    let r = room.services.timeline.build_and_append_pdu(
        &mut room.services.stores,
        &create_context(Some(RoomVersion::V10)),
        &build_context(),
        message("hi"),
        &sender,
        &room.room_id,
        &room.lock,
        |_draft: &PduEvent| AuthVerdict::Denied,
        |_pdu: &PduEvent| Ok(1),
        |_pdu: &PduEvent| Ok(append_context(RoomVersion::V10)),
    );
    assert_eq!(
        r.unwrap_err(),
        Error::BadRequest(ErrorKind::Forbidden, Reason::EventNotAuthorized)
    );
    let failed = room.services.timeline.build_and_append_pdu(
        &mut room.services.stores,
        &create_context(Some(RoomVersion::V10)),
        &build_context(),
        message("hi"),
        &sender,
        &room.room_id,
        &room.lock,
        |_draft: &PduEvent| AuthVerdict::Failed,
        |_pdu: &PduEvent| Ok(1),
        |_pdu: &PduEvent| Ok(append_context(RoomVersion::V10)),
    );
    assert_eq!(
        failed.unwrap_err(),
        Error::BadRequest(ErrorKind::Forbidden, Reason::AuthCheckFailed)
    );
    assert!(room
        .services
        .timeline
        .all_pdus(&room.services.stores.short, &sender, &room.room_id)
        .unwrap()
        .is_empty());
    assert_eq!(room.services.stores.globals.current_count().unwrap(), 1);
}

#[test]
fn unknown_room_version_is_refused() {
    let mut room = new_room();
    let r = send(&mut room, None, message("hi"), 1);
    assert_eq!(r.unwrap_err(), Error::InconsistentRoomState(Reason::UnknownRoomVersion));
    let other = send(&mut room, Some(RoomVersion::Other), message("hi"), 1);
    assert_eq!(
        other.unwrap_err(),
        Error::BadRequest(ErrorKind::BadJson, Reason::UnsupportedRoomVersion)
    );
}

#[test]
fn bad_key_fails_signing() {
    let mut room = new_room();
    let sender = text("@alice:example.org");
    let mut ctx = create_context(Some(RoomVersion::V10));
    ctx.keypair = Keypair { version: text("1"), der: vec![1, 2, 3] };
    let r = room.services.timeline.build_and_append_pdu(
        &mut room.services.stores,
        &ctx,
        &build_context(),
        message("hi"),
        &sender,
        &room.room_id,
        &room.lock,
        |_draft: &PduEvent| AuthVerdict::Allowed,
        |_pdu: &PduEvent| Ok(1),
        |_pdu: &PduEvent| Ok(append_context(RoomVersion::V10)),
    );
    assert_eq!(r.unwrap_err(), Error::BadRequest(ErrorKind::Unknown, Reason::SigningFailed));
}

#[test]
fn too_large_event_is_told_apart() {
    let mut room = new_room();
    let big = "x".repeat(70_000);
    let r = send(&mut room, Some(RoomVersion::V10), message(&big), 1);
    assert_eq!(r.unwrap_err(), Error::BadRequest(ErrorKind::TooLarge, Reason::MessageTooLong));
}

#[test]
fn positions_of_live_events_ascend() {
    let mut room = new_room();
    let a = send(&mut room, None, create_event(), 1).unwrap();
    let b = send(&mut room, Some(RoomVersion::V10), message("one"), 2).unwrap();
    let c = send(&mut room, Some(RoomVersion::V10), message("two"), 3).unwrap();
    assert!(a.appended.pdu_id.count < b.appended.pdu_id.count);
    assert!(b.appended.pdu_id.count < c.appended.pdu_id.count);
    // One value for the short room identifier, one for the short event
    // identifier, then the position; two more for the stamps of the commit.
    assert_eq!(a.appended.pdu_id, PduId { shortroomid: 1, count: PduCount::Normal(3) });
    assert_eq!(b.appended.pdu_id.count, PduCount::Normal(7));
    let sender = text("@alice:example.org");
    let all = room
        .services
        .timeline
        .all_pdus(&room.services.stores.short, &sender, &room.room_id)
        .unwrap();
    let ids: Vec<String> = all.iter().map(|e| e.1.event_id.clone()).collect();
    assert_eq!(ids, vec![a.event_id.clone(), b.event_id.clone(), c.event_id.clone()]);
    let until = room
        .services
        .timeline
        .pdus_until(&room.services.stores.short, &sender, &room.room_id, c.appended.pdu_id.count)
        .unwrap();
    let ids: Vec<String> = until.iter().map(|e| e.1.event_id.clone()).collect();
    assert_eq!(ids, vec![b.event_id.clone(), a.event_id.clone()]);
    assert_eq!(
        room.services
            .timeline
            .last_timeline_count(&room.services.stores.short, &sender, &room.room_id)
            .unwrap(),
        c.appended.pdu_id.count
    );
    assert_eq!(
        room.services
            .timeline
            .first_pdu_in_room(&room.services.stores.short, &room.room_id)
            .unwrap()
            .unwrap()
            .event_id,
        a.event_id
    );
    assert_eq!(
        room.services
            .timeline
            .latest_pdu_in_room(&room.services.stores.short, &room.room_id)
            .unwrap()
            .unwrap()
            .event_id,
        c.event_id
    );
    assert_eq!(
        room.services.stores.read_receipt.private_read_get(&room.room_id, &sender).unwrap(),
        Some(11)
    );
    assert_eq!(c.appended.pdu_id.count, PduCount::Normal(11));
}

#[test]
fn soft_failed_event_stays_out_of_the_timeline() {
    let mut room = new_room();
    let created = send(&mut room, None, create_event(), 1).unwrap();
    let mut pdu =
        room.services.timeline.get_pdu(&created.event_id).unwrap().unwrap().duplicate();
    pdu.event_id = text("$softfailed");
    pdu.prev_events = vec![created.event_id.clone()];
    let before = room.services.timeline.get_pdu_count(&created.event_id).unwrap();
    let r = room
        .services
        .timeline
        .append_incoming_pdu(
            &mut room.services.stores,
            &append_context(RoomVersion::V10),
            &pdu,
            Vec::new(),
            vec![text("$softfailed")],
            77,
            true,
            &room.lock,
        )
        .unwrap();
    match r {
        Incoming::SoftFailed { referenced } => assert_eq!(referenced, vec![created.event_id.clone()]),
        Incoming::Appended(_) => panic!("a soft-failed event was appended"),
    }
    let sender = text("@alice:example.org");
    let all = room
        .services
        .timeline
        .all_pdus(&room.services.stores.short, &sender, &room.room_id)
        .unwrap();
    assert_eq!(all.len(), 1);
    assert_eq!(room.services.timeline.get_pdu_id(&pdu.event_id).unwrap(), None);
    assert_eq!(room.services.timeline.get_pdu_count(&created.event_id).unwrap(), before);
    let short = room.services.stores.short.get_shorteventid(&pdu.event_id).unwrap().unwrap();
    assert_eq!(room.services.stores.state.get_event_state(short), Some(77));
    assert_eq!(
        room.services.stores.state.get_forward_extremities(&room.room_id).unwrap(),
        vec![text("$softfailed")]
    );
}

#[test]
fn incoming_event_is_appended() {
    let mut room = new_room();
    let created = send(&mut room, None, create_event(), 1).unwrap();
    let mut pdu =
        room.services.timeline.get_pdu(&created.event_id).unwrap().unwrap().duplicate();
    pdu.event_id = text("$remote");
    pdu.kind = text("m.room.message");
    pdu.state_key = None;
    pdu.sender = text("@bob:remote.net");
    pdu.content = JsonValue::Object(object(vec![("body", JsonValue::String(text("hi")))]));
    let r = room
        .services
        .timeline
        .append_incoming_pdu(
            &mut room.services.stores,
            &append_context(RoomVersion::V10),
            &pdu,
            Vec::new(),
            vec![text("$remote"), text("$remote")],
            78,
            false,
            &room.lock,
        )
        .unwrap();
    match r {
        Incoming::Appended(out) => {
            assert_eq!(out.search_body, Some(text("hi")));
            assert_eq!(
                room.services.timeline.get_pdu_id(&pdu.event_id).unwrap(),
                Some(out.pdu_id)
            );
        },
        Incoming::SoftFailed { .. } => panic!("the event was soft-failed"),
    }
    assert_eq!(
        room.services.stores.state.get_forward_extremities(&room.room_id).unwrap(),
        vec![text("$remote")]
    );
}

#[test]
fn failing_collaborators_end_the_call_before_the_append() {
    let mut room = new_room();
    let sender = text("@alice:example.org");
    let r = room.services.timeline.build_and_append_pdu(
        &mut room.services.stores,
        &create_context(Some(RoomVersion::V10)),
        &build_context(),
        message("hi"),
        &sender,
        &room.room_id,
        &room.lock,
        |_draft: &PduEvent| AuthVerdict::Allowed,
        |_pdu: &PduEvent| Err(Error::BadDatabase(Reason::CollaboratorFailed)),
        |_pdu: &PduEvent| Ok(append_context(RoomVersion::V10)),
    );
    assert_eq!(r.unwrap_err(), Error::BadDatabase(Reason::CollaboratorFailed));
    let r = room.services.timeline.build_and_append_pdu(
        &mut room.services.stores,
        &create_context(Some(RoomVersion::V10)),
        &build_context(),
        message("hi"),
        &sender,
        &room.room_id,
        &room.lock,
        |_draft: &PduEvent| AuthVerdict::Allowed,
        |_pdu: &PduEvent| Ok(1),
        |_pdu: &PduEvent| Err(Error::BadDatabase(Reason::CollaboratorFailed)),
    );
    assert_eq!(r.unwrap_err(), Error::BadDatabase(Reason::CollaboratorFailed));
    assert!(room
        .services
        .timeline
        .all_pdus(&room.services.stores.short, &sender, &room.room_id)
        .unwrap()
        .is_empty());
    assert_eq!(room.services.stores.state.get_room_shortstatehash(&room.room_id).unwrap(), None);
}

#[test]
fn admin_room_refuses_before_anything_is_written() {
    let mut room = new_room();
    let sender = text("@alice:example.org");
    let mut guards = build_context();
    guards.admin_room = Some(room.room_id.clone());
    let encryption = PduBuilder {
        event_type: text("m.room.encryption"),
        content: JsonValue::Object(object(vec![(
            "algorithm",
            JsonValue::String(text("m.megolm.v1.aes-sha2")),
        )])),
        unsigned: None,
        state_key: Some(String::new()),
        redacts: None,
    };
    let r = room.services.timeline.build_and_append_pdu(
        &mut room.services.stores,
        &create_context(Some(RoomVersion::V10)),
        &guards,
        encryption,
        &sender,
        &room.room_id,
        &room.lock,
        |_draft: &PduEvent| AuthVerdict::Allowed,
        |_pdu: &PduEvent| Ok(1),
        |_pdu: &PduEvent| Ok(append_context(RoomVersion::V10)),
    );
    assert_eq!(
        r.unwrap_err(),
        Error::BadRequest(ErrorKind::Forbidden, Reason::EncryptionInAdminRoom)
    );
    assert!(room
        .services
        .timeline
        .all_pdus(&room.services.stores.short, &sender, &room.room_id)
        .unwrap()
        .is_empty());
    assert!(room.services.stores.state.get_forward_extremities(&room.room_id).unwrap().is_empty());
}

#[test]
fn creation_event_declares_the_room_version() {
    let mut room = new_room();
    let mut unknown = create_event();
    unknown.content = JsonValue::Object(object(vec![
        ("creator", JsonValue::String(text("@alice:example.org"))),
        ("room_version", JsonValue::String(text("99"))),
    ]));
    assert_eq!(
        send(&mut room, None, unknown, 1).unwrap_err(),
        Error::BadRequest(ErrorKind::BadJson, Reason::UnsupportedRoomVersion)
    );
    let mut broken = create_event();
    broken.content = JsonValue::Object(object(vec![("room_version", JsonValue::Integer(3))]));
    assert_eq!(
        send(&mut room, None, broken, 1).unwrap_err(),
        Error::BadDatabase(Reason::InvalidContent)
    );
    // Version 1 keeps the identifier in the signed form and uses another
    // alphabet for it than version 10 does.
    let mut first = create_event();
    first.content = JsonValue::Object(object(vec![
        ("creator", JsonValue::String(text("@alice:example.org"))),
        ("room_version", JsonValue::String(text("1"))),
    ]));
    let old = send(&mut room, None, first, 1).unwrap();
    let mut other = new_room();
    let new = send(&mut other, None, create_event(), 1).unwrap();
    assert_ne!(old.event_id, new.event_id);
}
