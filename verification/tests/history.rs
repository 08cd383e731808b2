use room_timeline::error::{Error, ErrorKind, Reason};
use room_timeline::gate::{GateKind, RoomMutexGuard, RoomMutexMap};
use room_timeline::json::{object_get, JsonValue};
use room_timeline::pdu::{EventHash, PduEvent, RoomVersion};
use room_timeline::pdu_count::PduCount;
use room_timeline::protocol::Membership;
use room_timeline::timeline::append::{AppendContext, PrevState};
use room_timeline::timeline::backfill::{
    backfill_first, backfill_next, backfill_result, batch_next, Backfilled, BackfillContext,
    BackfillPlan, BackfillStep, BACKFILL_LIMIT,
};
use room_timeline::timeline::data::PduId;
use room_timeline::timeline::fanout::{Action, AppserviceMatch, Evaluation};
use room_timeline::Services;

fn text(s: &str) -> String {
    s.to_owned()
}

fn object(members: Vec<(&str, JsonValue)>) -> JsonValue {
    JsonValue::Object(members.into_iter().map(|(k, v)| (k.to_owned(), v)).collect())
}

fn event(id: &str, kind: &str, sender: &str, content: JsonValue) -> PduEvent {
    PduEvent {
        event_id: text(id),
        room_id: text("!room:example.org"),
        sender: text(sender),
        origin: None,
        origin_server_ts: 1,
        kind: text(kind),
        content,
        state_key: None,
        prev_events: Vec::new(),
        depth: 1,
        auth_events: Vec::new(),
        redacts: None,
        unsigned: None,
        hashes: EventHash { sha256: text("aaa") },
        signatures: None,
    }
}

fn message(id: &str, body: &str) -> PduEvent {
    event(
        id,
        "m.room.message",
        "@alice:example.org",
        object(vec![("body", JsonValue::String(text(body)))]),
    )
}

fn context() -> AppendContext {
    AppendContext {
        prev_state: None,
        power_levels: None,
        active_local_users: vec![text("@alice:example.org"), text("@bob:example.org")],
        evaluations: vec![Evaluation {
            user_id: text("@bob:example.org"),
            actions: vec![Action::Notify],
            push_keys: vec![text("key")],
        }],
        room_version: RoomVersion::V10,
        can_redact: true,
        invite_state: vec![JsonValue::String(text("stripped"))],
        admin_room: None,
        appservices: Vec::new(),
    }
}

struct Room {
    services: Services,
    state_gate: RoomMutexMap,
    federation_gate: RoomMutexMap,
    lock: RoomMutexGuard,
    room_id: String,
}

fn new_room() -> Room {
    let mut services = Services::build();
    let room_id = text("!room:example.org");
    services
        .stores
        .short
        .get_or_create_shortroomid(&mut services.stores.globals, &room_id)
        .unwrap();
    let mut state_gate = RoomMutexMap::new(GateKind::State);
    let lock = state_gate.try_lock(&room_id).unwrap();
    Room {
        services,
        state_gate,
        federation_gate: RoomMutexMap::new(GateKind::Federation),
        lock,
        room_id,
    }
}

fn append(room: &mut Room, ctx: &AppendContext, pdu: &PduEvent) -> Result<room_timeline::timeline::append::AppendOutcome, Error> {
    let json = pdu.to_canonical_object().unwrap();
    room.services.timeline.append_pdu(
        &mut room.services.stores,
        ctx,
        pdu,
        json,
        vec![pdu.event_id.clone()],
        &room.lock,
    )
}

fn backfill(room: &mut Room, pdu: &PduEvent) -> Result<Backfilled, Error> {
    let json = pdu.to_canonical_object().unwrap();
    let lock = room.federation_gate.try_lock(&room.room_id).unwrap();
    room.services.timeline.add_pdu_outlier(pdu, &json);
    let r = room.services.timeline.backfill_pdu(
        &mut room.services.stores,
        &pdu.event_id,
        &room.room_id,
        &lock,
    );
    room.federation_gate.unlock(lock);
    r
}

fn listed(room: &Room) -> Vec<String> {
    room.services
        .timeline
        .all_pdus(&room.services.stores.short, &text("@alice:example.org"), &room.room_id)
        .unwrap()
        .iter()
        .map(|e| e.1.event_id.clone())
        .collect()
}

#[test]
fn backfilled_history_sorts_before_live_history() {
    let mut room = new_room();
    let live = append(&mut room, &context(), &message("$live", "now")).unwrap();
    assert_eq!(live.pdu_id, PduId { shortroomid: 1, count: PduCount::Normal(2) });

    // The batch arrives newest first.
    let newest = match backfill(&mut room, &message("$h3", "three")).unwrap() {
        Backfilled::Prepended { pdu_id, search_body } => {
            assert_eq!(search_body, Some(text("three")));
            pdu_id
        },
        Backfilled::AlreadyKnown => panic!("the event was not known"),
    };
    let middle = match backfill(&mut room, &message("$h2", "two")).unwrap() {
        Backfilled::Prepended { pdu_id, .. } => pdu_id,
        Backfilled::AlreadyKnown => panic!("the event was not known"),
    };
    let oldest = match backfill(&mut room, &message("$h1", "one")).unwrap() {
        Backfilled::Prepended { pdu_id, .. } => pdu_id,
        Backfilled::AlreadyKnown => panic!("the event was not known"),
    };
    assert_eq!(newest.count, PduCount::Backfilled(5));
    assert_eq!(middle.count, PduCount::Backfilled(6));
    assert_eq!(oldest.count, PduCount::Backfilled(7));
    assert!(oldest.count < middle.count);
    assert!(middle.count < newest.count);
    assert!(newest.count < live.pdu_id.count);
    assert_eq!(listed(&room), vec![text("$h1"), text("$h2"), text("$h3"), text("$live")]);
    assert_eq!(
        room.services.timeline.get_pdu_count(&text("$h2")).unwrap(),
        Some(PduCount::Backfilled(6))
    );
    // Prepending does not move the latest position.
    assert_eq!(
        room.services
            .timeline
            .last_timeline_count(&room.services.stores.short, &text("@alice:example.org"), &room.room_id)
            .unwrap(),
        PduCount::Normal(2)
    );
    // An event that stands in the timeline is not prepended again.
    assert!(room.services.timeline.backfill_known(&text("$h2")));
    assert!(matches!(
        backfill(&mut room, &message("$h2", "two")).unwrap(),
        Backfilled::AlreadyKnown
    ));
    assert_eq!(listed(&room).len(), 4);
    room.state_gate.unlock(room.lock);
}

#[test]
fn backfilled_message_without_readable_body_is_stored_and_reported() {
    let mut room = new_room();
    let broken = event("$broken", "m.room.message", "@bob:remote.net", JsonValue::Integer(3));
    let lock = room.federation_gate.try_lock(&room.room_id).unwrap();
    room.services.timeline.add_pdu_outlier(&broken, &Vec::new());
    let r = room.services.timeline.backfill_pdu(
        &mut room.services.stores,
        &broken.event_id,
        &room.room_id,
        &lock,
    );
    assert_eq!(r.unwrap_err(), Error::BadDatabase(Reason::InvalidContent));
    // The event was prepended before its body was looked at, and it stays.
    assert_eq!(listed(&room), vec![text("$broken")]);
    assert_eq!(
        room.services.timeline.get_pdu_count(&broken.event_id).unwrap(),
        Some(PduCount::Backfilled(2))
    );
    assert_eq!(room.services.stores.globals.current_count().unwrap(), 2);
    assert!(room.services.timeline.get_non_outlier_pdu(&broken.event_id).unwrap().is_some());
}

#[test]
fn history_is_asked_for_only_before_the_earliest_event() {
    let mut room = new_room();
    append(&mut room, &context(), &message("$first", "one")).unwrap();
    append(&mut room, &context(), &message("$second", "two")).unwrap();
    let ctx = BackfillContext {
        power_levels: None,
        local_aliases: Vec::new(),
        trusted_servers: vec![text("matrix.org"), text("absent.org")],
        servers_in_room: vec![text("matrix.org")],
        server_name: text("example.org"),
    };
    // The earliest event stands at position 2: at or after a cutoff of 2
    // or less there is no gap.
    let plan = room
        .services
        .timeline
        .backfill_if_required(&room.services.stores, &ctx, &room.room_id, PduCount::Normal(2))
        .unwrap();
    assert!(matches!(plan, BackfillPlan::NotRequired));
    let plan = room
        .services
        .timeline
        .backfill_if_required(&room.services.stores, &ctx, &room.room_id, PduCount::Backfilled(1))
        .unwrap();
    assert!(matches!(plan, BackfillPlan::NotRequired));
    let plan = room
        .services
        .timeline
        .backfill_if_required(&room.services.stores, &ctx, &room.room_id, PduCount::Normal(3))
        .unwrap();
    match plan {
        BackfillPlan::Ask { servers, first_event_id, limit } => {
            assert_eq!(servers, vec![text("matrix.org")]);
            assert_eq!(first_event_id, "$first");
            assert_eq!(limit, 100);
        },
        BackfillPlan::NotRequired => panic!("history was required"),
    }
}

#[test]
fn append_notifies_others_and_resets_the_sender() {
    let mut room = new_room();
    let alice = text("@alice:example.org");
    let bob = text("@bob:example.org");
    room.services
        .stores
        .user
        .increment_notification_counts(&room.room_id, &vec![alice.clone()], &vec![alice.clone()])
        .unwrap();
    let mut ctx = context();
    ctx.evaluations.push(Evaluation {
        user_id: alice.clone(),
        actions: vec![Action::Notify, Action::SetHighlight(true)],
        push_keys: vec![text("alice-key")],
    });
    let mut pdu = message("$m", "hi");
    pdu.prev_events = vec![text("$parent")];
    let out = append(&mut room, &ctx, &pdu).unwrap();
    assert_eq!(out.referenced, vec![text("$parent")]);
    assert_eq!(out.notifies, vec![bob.clone()]);
    assert!(out.highlights.is_empty());
    assert_eq!(out.pushes.len(), 1);
    assert_eq!(out.pushes[0].user_id, bob);
    assert_eq!(out.pushes[0].push_key, "key");
    assert_eq!(out.search_body, Some(text("hi")));
    assert_eq!(out.admin_command, None);
    assert!(out.membership.is_none());
    assert!(!out.invalidate_space_cache);
    assert!(out.redacted.is_none());
    assert!(out.relations.is_empty());
    assert_eq!(room.services.stores.user.notification_count(&alice, &room.room_id).unwrap(), 0);
    assert_eq!(room.services.stores.user.highlight_count(&alice, &room.room_id).unwrap(), 0);
    assert_eq!(room.services.stores.user.notification_count(&bob, &room.room_id).unwrap(), 1);
    assert_eq!(
        room.services.stores.read_receipt.private_read_get(&room.room_id, &alice).unwrap(),
        Some(2)
    );
    assert_eq!(room.services.stores.globals.current_count().unwrap(), 4);
    assert_eq!(room.services.timeline.mutex_insert().len(), 0);
    assert_eq!(room.services.timeline.memory_usage().lasttimelinecount_cache, 1);
}

#[test]
fn admin_room_message_becomes_a_command() {
    let mut room = new_room();
    let mut ctx = context();
    ctx.admin_room = Some(room.room_id.clone());
    let out = append(&mut room, &ctx, &message("$m", "!admin help")).unwrap();
    assert_eq!(out.admin_command, Some(text("!admin help")));
    ctx.admin_room = Some(text("!elsewhere:example.org"));
    let out = append(&mut room, &ctx, &message("$n", "!admin help")).unwrap();
    assert_eq!(out.admin_command, None);
    assert_eq!(out.search_body, Some(text("!admin help")));
}

#[test]
fn state_event_names_what_it_replaces() {
    let mut room = new_room();
    let mut ctx = context();
    ctx.prev_state = Some(PrevState {
        content: object(vec![("name", JsonValue::String(text("old")))]),
        sender: text("@bob:example.org"),
        event_id: text("$old"),
    });
    let mut pdu = event(
        "$name",
        "m.room.name",
        "@alice:example.org",
        object(vec![("name", JsonValue::String(text("new")))]),
    );
    pdu.state_key = Some(String::new());
    append(&mut room, &ctx, &pdu).unwrap();
    let json = room.services.timeline.get_pdu_json(&pdu.event_id).unwrap().unwrap();
    let unsigned = match object_get(json, &text("unsigned")) {
        Some(JsonValue::Object(u)) => u,
        other => panic!("no unsigned part: {:?}", other),
    };
    match object_get(unsigned, &text("prev_sender")) {
        Some(JsonValue::String(s)) => assert_eq!(s, "@bob:example.org"),
        other => panic!("no prev_sender: {:?}", other),
    }
    match object_get(unsigned, &text("replaces_state")) {
        Some(JsonValue::String(s)) => assert_eq!(s, "$old"),
        other => panic!("no replaces_state: {:?}", other),
    }
    assert!(matches!(object_get(unsigned, &text("prev_content")), Some(JsonValue::Object(_))));

    ctx.prev_state = Some(PrevState {
        content: JsonValue::Integer(1),
        sender: text("@bob:example.org"),
        event_id: text("$old"),
    });
    let mut other = event("$other", "m.room.name", "@alice:example.org", object(vec![]));
    other.state_key = Some(String::new());
    let before = listed(&room);
    assert_eq!(
        append(&mut room, &ctx, &other).unwrap_err(),
        Error::BadDatabase(Reason::PrevStateNotCanonical)
    );
    assert_eq!(listed(&room), before);
}

#[test]
fn membership_and_space_events_leave_work_behind() {
    let mut room = new_room();
    let ctx = context();
    let mut invite = event(
        "$invite",
        "m.room.member",
        "@alice:example.org",
        object(vec![("membership", JsonValue::String(text("invite")))]),
    );
    invite.state_key = Some(text("@carol:example.org"));
    let out = append(&mut room, &ctx, &invite).unwrap();
    let update = out.membership.unwrap();
    assert_eq!(update.user_id, "@carol:example.org");
    assert_eq!(update.membership, Membership::Invite);
    assert_eq!(update.invite_state.unwrap().len(), 1);

    let mut join = event(
        "$join",
        "m.room.member",
        "@carol:example.org",
        object(vec![("membership", JsonValue::String(text("join")))]),
    );
    join.state_key = Some(text("@carol:example.org"));
    let out = append(&mut room, &ctx, &join).unwrap();
    let update = out.membership.unwrap();
    assert_eq!(update.membership, Membership::Join);
    assert!(update.invite_state.is_none());

    let mut broken = event("$broken", "m.room.member", "@carol:example.org", object(vec![]));
    broken.state_key = Some(text("@carol:example.org"));
    assert_eq!(
        append(&mut room, &ctx, &broken).unwrap_err(),
        Error::BadDatabase(Reason::InvalidMemberContent)
    );
    // The failure came after the commit: the event is stored.
    assert!(room.services.timeline.get_pdu_id(&text("$broken")).unwrap().is_some());

    let mut child = event("$child", "m.space.child", "@alice:example.org", object(vec![]));
    child.state_key = Some(text("!child:example.org"));
    assert!(append(&mut room, &ctx, &child).unwrap().invalidate_space_cache);
    assert_eq!(
        listed(&room),
        vec![text("$invite"), text("$join"), text("$broken"), text("$child")]
    );
}

#[test]
fn relations_point_at_known_positions() {
    let mut room = new_room();
    let ctx = context();
    let root = append(&mut room, &ctx, &message("$root:example.org", "root")).unwrap();
    let reply = event(
        "$reply:example.org",
        "m.room.message",
        "@alice:example.org",
        object(vec![
            ("body", JsonValue::String(text("re"))),
            (
                "m.relates_to",
                object(vec![(
                    "m.in_reply_to",
                    object(vec![("event_id", JsonValue::String(text("$root:example.org")))]),
                )]),
            ),
        ]),
    );
    let out = append(&mut room, &ctx, &reply).unwrap();
    assert_eq!(out.relations, vec![root.pdu_id.count]);
    assert_eq!(out.thread_root, None);

    let threaded = event(
        "$threaded:example.org",
        "m.room.message",
        "@alice:example.org",
        object(vec![
            ("body", JsonValue::String(text("in thread"))),
            (
                "m.relates_to",
                object(vec![
                    ("rel_type", JsonValue::String(text("m.thread"))),
                    ("event_id", JsonValue::String(text("$root:example.org"))),
                ]),
            ),
        ]),
    );
    let out = append(&mut room, &ctx, &threaded).unwrap();
    assert_eq!(out.relations, vec![root.pdu_id.count]);
    assert_eq!(out.thread_root, Some(text("$root:example.org")));

    let unknown = event(
        "$unknown:example.org",
        "m.room.message",
        "@alice:example.org",
        object(vec![(
            "m.relates_to",
            object(vec![
                ("rel_type", JsonValue::String(text("m.annotation"))),
                ("event_id", JsonValue::String(text("$missing:example.org"))),
                ("key", JsonValue::String(text("+1"))),
            ]),
        )]),
    );
    let out = append(&mut room, &ctx, &unknown).unwrap();
    assert!(out.relations.is_empty());
}

#[test]
fn redacting_twice_stores_the_same_content() {
    let mut room = new_room();
    let ctx = context();
    let target = append(&mut room, &ctx, &message("$target", "secret")).unwrap();
    let mut redaction = event("$redaction", "m.room.redaction", "@alice:example.org", object(vec![]));
    redaction.redacts = Some(text("$target"));
    let out = append(&mut room, &ctx, &redaction).unwrap();
    let done = out.redacted.unwrap();
    assert_eq!(done.pdu_id, target.pdu_id);
    assert_eq!(done.deindexed_body, Some(text("secret")));
    let once = room.services.timeline.get_pdu(&text("$target")).unwrap().unwrap().duplicate();
    let again = room
        .services
        .timeline
        .redact_pdu(&text("$target"), &redaction, 1, RoomVersion::V10)
        .unwrap()
        .unwrap();
    assert_eq!(again.pdu_id, target.pdu_id);
    assert_eq!(again.deindexed_body, None);
    let twice = room.services.timeline.get_pdu(&text("$target")).unwrap().unwrap();
    assert_eq!(format!("{:?}", once), format!("{:?}", twice));
    assert_eq!(twice.event_id, "$target");
    // An event that is not there is no failure.
    assert!(room
        .services
        .timeline
        .redact_pdu(&text("$absent"), &redaction, 1, RoomVersion::V10)
        .unwrap()
        .is_none());
    assert_eq!(
        room.services
            .timeline
            .redact_pdu(&text("$target"), &redaction, 1, RoomVersion::Other)
            .unwrap_err(),
        Error::BadRequest(ErrorKind::BadJson, Reason::UnsupportedRoomVersion)
    );
}

#[test]
fn redaction_keeps_what_the_rules_keep() {
    let mut room = new_room();
    let ctx = context();
    let mut member = event(
        "$member",
        "m.room.member",
        "@bob:example.org",
        object(vec![
            ("membership", JsonValue::String(text("join"))),
            ("displayname", JsonValue::String(text("Bob"))),
        ]),
    );
    member.state_key = Some(text("@bob:example.org"));
    append(&mut room, &ctx, &member).unwrap();
    let mut redaction = event("$redaction", "m.room.redaction", "@alice:example.org", object(vec![]));
    redaction.redacts = Some(text("$member"));
    append(&mut room, &ctx, &redaction).unwrap();
    let kept = room.services.timeline.get_pdu(&text("$member")).unwrap().unwrap();
    match &kept.content {
        JsonValue::Object(m) => {
            assert_eq!(m.len(), 1);
            assert_eq!(m[0].0, "membership");
        },
        other => panic!("content is no object: {:?}", other),
    }
}

#[test]
fn redaction_without_permission_changes_nothing() {
    let mut room = new_room();
    let mut ctx = context();
    append(&mut room, &ctx, &message("$target", "stay")).unwrap();
    ctx.can_redact = false;
    let mut redaction = event("$redaction", "m.room.redaction", "@alice:example.org", object(vec![]));
    redaction.redacts = Some(text("$target"));
    let out = append(&mut room, &ctx, &redaction).unwrap();
    assert!(out.redacted.is_none());
    let kept = room.services.timeline.get_pdu(&text("$target")).unwrap().unwrap();
    assert_eq!(
        room_timeline::timeline::content::extract_body(&kept.content),
        Some(Some(text("stay")))
    );
    ctx.room_version = RoomVersion::Other;
    let mut late = event("$late", "m.room.redaction", "@alice:example.org", object(vec![]));
    late.redacts = Some(text("$target"));
    let counter = room.services.stores.globals.current_count().unwrap();
    assert_eq!(
        append(&mut room, &ctx, &late).unwrap_err(),
        Error::BadRequest(ErrorKind::BadJson, Reason::UnsupportedRoomVersion)
    );
    // The redaction is stored at its position and is the room's extremity:
    // the commit is not rolled back.
    assert_eq!(
        room.services.timeline.get_pdu_count(&text("$late")).unwrap(),
        Some(PduCount::Normal(counter + 1))
    );
    assert_eq!(
        room.services.stores.state.get_forward_extremities(&room.room_id).unwrap(),
        vec![text("$late")]
    );
    assert_eq!(room.services.stores.globals.current_count().unwrap(), counter + 3);
    assert_eq!(
        room.services
            .stores
            .user
            .notification_count(&text("@bob:example.org"), &room.room_id)
            .unwrap(),
        3
    );
}

#[test]
fn transaction_id_is_shown_to_the_sender_only() {
    let mut room = new_room();
    let ctx = context();
    let mut pdu = message("$m", "hi");
    pdu.unsigned = Some(vec![
        (text("transaction_id"), JsonValue::String(text("txn1"))),
        (text("age"), JsonValue::Integer(3)),
    ]);
    append(&mut room, &ctx, &pdu).unwrap();
    let own = room
        .services
        .timeline
        .all_pdus(&room.services.stores.short, &text("@alice:example.org"), &room.room_id)
        .unwrap();
    assert_eq!(own[0].1.unsigned.as_ref().unwrap().len(), 2);
    let other = room
        .services
        .timeline
        .all_pdus(&room.services.stores.short, &text("@bob:example.org"), &room.room_id)
        .unwrap();
    let unsigned = other[0].1.unsigned.as_ref().unwrap();
    assert_eq!(unsigned.len(), 1);
    assert_eq!(unsigned[0].0, "age");
    assert_eq!(
        room.services
            .timeline
            .all_pdus(&room.services.stores.short, &text("@bob:example.org"), &text("!nowhere:example.org"))
            .unwrap_err(),
        Error::BadDatabase(Reason::UnknownShortRoomId)
    );
}

#[test]
fn replace_needs_an_event_at_the_position() {
    let mut room = new_room();
    let pdu = message("$m", "hi");
    let absent = PduId { shortroomid: 1, count: PduCount::Normal(99) };
    assert_eq!(
        room.services.timeline.replace_pdu(&absent, &Vec::new(), &pdu).unwrap_err(),
        Error::BadRequest(ErrorKind::InvalidParam, Reason::PduDoesNotExist)
    );
    let out = append(&mut room, &context(), &pdu).unwrap();
    let changed = message("$m", "changed");
    room.services
        .timeline
        .replace_pdu(&out.pdu_id, &changed.to_canonical_object().unwrap(), &changed)
        .unwrap();
    let stored = room.services.timeline.get_pdu_from_id(&out.pdu_id).unwrap().unwrap();
    assert_eq!(
        room_timeline::timeline::content::extract_body(&stored.content),
        Some(Some(text("changed")))
    );
    assert!(room.services.timeline.get_pdu_json_from_id(&out.pdu_id).unwrap().is_some());
    assert!(room.services.timeline.get_pdu_from_id(&absent).unwrap().is_none());
    assert_eq!(listed(&room), vec![text("$m")]);
}

#[test]
fn appservices_of_the_context_get_the_event() {
    let mut room = new_room();
    let mut ctx = context();
    ctx.appservices = vec![
        AppserviceMatch {
            id: text("bridge"),
            service_user: text("@bridge:example.org"),
            in_room: true,
            matches_aliases: false,
            matches_room: false,
            matches_sender: false,
            matches_state_key: false,
        },
        AppserviceMatch {
            id: text("idle"),
            service_user: text("@idle:example.org"),
            in_room: false,
            matches_aliases: false,
            matches_room: false,
            matches_sender: false,
            matches_state_key: false,
        },
    ];
    let out = append(&mut room, &ctx, &message("$m", "hi")).unwrap();
    assert_eq!(out.appservices, vec![text("bridge")]);
}

#[test]
fn failed_redaction_leaves_the_commit_standing() {
    let mut room = new_room();
    let mut ctx = context();
    ctx.room_version = RoomVersion::V11;
    let mut member = event(
        "$member",
        "m.room.member",
        "@bob:example.org",
        object(vec![
            ("membership", JsonValue::String(text("join"))),
            ("third_party_invite", JsonValue::Integer(5)),
        ]),
    );
    member.state_key = Some(text("@bob:example.org"));
    room.services.timeline.add_pdu_outlier(&member, &Vec::new());
    let lock = room.federation_gate.try_lock(&room.room_id).unwrap();
    room.services
        .timeline
        .backfill_pdu(&mut room.services.stores, &member.event_id, &room.room_id, &lock)
        .unwrap();
    room.federation_gate.unlock(lock);
    let redaction = event(
        "$redaction",
        "m.room.redaction",
        "@alice:example.org",
        object(vec![("redacts", JsonValue::String(text("$member")))]),
    );
    assert_eq!(
        append(&mut room, &ctx, &redaction).unwrap_err(),
        Error::Redaction(Reason::RedactionFailed)
    );
    // The redaction itself was appended; its target is as it was.
    assert_eq!(listed(&room), vec![text("$member"), text("$redaction")]);
    let kept = room.services.timeline.get_pdu(&text("$member")).unwrap().unwrap();
    match &kept.content {
        JsonValue::Object(m) => assert_eq!(m.len(), 2),
        other => panic!("content is no object: {:?}", other),
    }
}

#[test]
fn target_without_an_object_as_content_cannot_be_redacted() {
    let mut room = new_room();
    let ctx = context();
    let odd = event("$odd", "m.custom", "@bob:example.org", JsonValue::Integer(1));
    append(&mut room, &ctx, &odd).unwrap();
    let mut redaction = event("$redaction", "m.room.redaction", "@alice:example.org", object(vec![]));
    redaction.redacts = Some(text("$odd"));
    assert_eq!(
        append(&mut room, &ctx, &redaction).unwrap_err(),
        Error::BadDatabase(Reason::InvalidStoredContent)
    );
}

#[test]
fn failures_after_the_commit_leave_it_standing() {
    let mut room = new_room();
    let mut ctx = context();
    ctx.power_levels = Some(object(vec![("users", JsonValue::Integer(1))]));
    assert_eq!(
        append(&mut room, &ctx, &message("$m", "hi")).unwrap_err(),
        Error::BadDatabase(Reason::InvalidPowerLevels)
    );
    assert_eq!(listed(&room), vec![text("$m")]);
    assert_eq!(room.services.stores.globals.current_count().unwrap(), 4);
    assert_eq!(
        room.services.stores.state.get_forward_extremities(&room.room_id).unwrap(),
        vec![text("$m")]
    );
    // The fan-out had not started: nobody's unread counter went up.
    assert_eq!(
        room.services
            .stores
            .user
            .notification_count(&text("@bob:example.org"), &room.room_id)
            .unwrap(),
        0
    );
    let unreadable = event("$n", "m.room.message", "@alice:example.org", JsonValue::Null);
    assert_eq!(
        append(&mut room, &context(), &unreadable).unwrap_err(),
        Error::BadDatabase(Reason::InvalidContent)
    );
    assert_eq!(listed(&room), vec![text("$m"), text("$n")]);
    // This failure came after the fan-out.
    assert_eq!(
        room.services
            .stores
            .user
            .notification_count(&text("@bob:example.org"), &room.room_id)
            .unwrap(),
        1
    );
    let mut nobody = event(
        "$o",
        "m.room.member",
        "@alice:example.org",
        object(vec![("membership", JsonValue::String(text("join")))]),
    );
    nobody.state_key = Some(text("no user"));
    assert_eq!(
        append(&mut room, &context(), &nobody).unwrap_err(),
        Error::BadDatabase(Reason::InvalidUserId)
    );
    assert_eq!(listed(&room), vec![text("$m"), text("$n"), text("$o")]);
}

#[test]
fn asking_for_history_goes_server_by_server() {
    let servers = vec![text("a.org"), text("b.org"), text("c.org")];
    assert_eq!(backfill_first(&servers), BackfillStep::Ask(0));
    assert_eq!(backfill_first(&Vec::new()), BackfillStep::Finish);
    assert_eq!(backfill_next(&servers, 0, false), BackfillStep::Ask(1));
    assert_eq!(backfill_next(&servers, 1, false), BackfillStep::Ask(2));
    assert_eq!(backfill_next(&servers, 2, false), BackfillStep::Finish);
    assert_eq!(backfill_next(&servers, 0, true), BackfillStep::Finish);
    assert_eq!(batch_next(3, 0, true), Some(1));
    assert_eq!(batch_next(3, 1, false), Some(2));
    assert_eq!(batch_next(3, 2, true), None);
    assert_eq!(backfill_result(false, 0), Ok(()));
    assert_eq!(backfill_result(true, 7), Ok(()));
    assert_eq!(BACKFILL_LIMIT, 100);
}

#[test]
fn event_with_a_number_too_large_has_no_canonical_form() {
    let mut pdu = message("$m", "hi");
    pdu.depth = 9007199254740992;
    assert_eq!(
        pdu.to_canonical_object().unwrap_err(),
        Error::BadDatabase(Reason::NoCanonicalJson)
    );
    pdu.depth = 9007199254740991;
    assert!(pdu.to_canonical_object().is_ok());
    pdu.content = object(vec![("a", JsonValue::Integer(1)), ("a", JsonValue::Integer(2))]);
    assert_eq!(
        pdu.to_canonical_object().unwrap_err(),
        Error::BadDatabase(Reason::NoCanonicalJson)
    );
    assert_eq!(Reason::NoCanonicalJson.message(), "Failed to convert PDU to canonical JSON.");
    assert!(Error::BadRequest(ErrorKind::Forbidden, Reason::UserCannotRedact).is_forbidden());
    assert_eq!(Error::Redaction(Reason::RedactionFailed).reason(), Reason::RedactionFailed);
}

#[test]
fn content_that_is_not_canonical_cannot_be_read() {
    let mut room = new_room();
    let ctx = context();
    let mut twice = event(
        "$twice",
        "m.room.member",
        "@bob:example.org",
        object(vec![
            ("membership", JsonValue::String(text("join"))),
            ("membership", JsonValue::String(text("leave"))),
        ]),
    );
    twice.state_key = Some(text("@bob:example.org"));
    assert_eq!(
        twice.to_canonical_object().unwrap_err(),
        Error::BadDatabase(Reason::NoCanonicalJson)
    );
    let r = room.services.timeline.append_pdu(
        &mut room.services.stores,
        &ctx,
        &twice,
        Vec::new(),
        vec![twice.event_id.clone()],
        &room.lock,
    );
    assert_eq!(r.unwrap_err(), Error::BadDatabase(Reason::InvalidMemberContent));
    assert_eq!(listed(&room), vec![text("$twice")]);
    assert_eq!(
        room_timeline::timeline::content::read_membership(&twice.content),
        None
    );
    assert_eq!(
        room_timeline::timeline::content::read_membership(&object(vec![(
            "membership",
            JsonValue::String(text("join"))
        )])),
        Some(Membership::Join)
    );
    let large = object(vec![("users_default", JsonValue::Integer(i64::MAX))]);
    assert!(room_timeline::timeline::content::read_levels(&large).is_none());
    let levels = room_timeline::timeline::content::read_levels(&object(vec![(
        "users_default",
        JsonValue::Integer(7),
    )]))
    .unwrap();
    assert_eq!(levels.users_default, 7);
}

#[test]
fn timeline_stays_in_step_with_the_counter() {
    let mut room = new_room();
    assert!(room.services.timeline.is_in_step(&room.services.stores));
    let first = append(&mut room, &context(), &message("$a", "one")).unwrap();
    let second = append(&mut room, &context(), &message("$b", "two")).unwrap();
    backfill(&mut room, &message("$h", "old")).unwrap();
    assert!(room.services.timeline.is_in_step(&room.services.stores));
    // No position was handed out twice.
    assert_ne!(first.pdu_id, second.pdu_id);
    assert_eq!(listed(&room).len(), 3);
    let fresh = room_timeline::Stores::new();
    assert!(!room.services.timeline.is_in_step(&fresh));
}
