use room_timeline::error::{Error, ErrorKind, Reason};
use room_timeline::identifiers::{server_name_of, starts_with_user_sigil};
use room_timeline::json::JsonValue;
use room_timeline::pdu::{EventHash, PduEvent, RoomVersion};
use room_timeline::timeline::backfill::{backfill_candidates, BackfillContext};
use room_timeline::timeline::compose::{
    admin_room_guard, federation_servers, redaction_guard, BuildContext,
};
use room_timeline::timeline::content::{extract_body, extract_related_event};
use room_timeline::timeline::fanout::{
    appservice_deliveries, push_targets, recipients, Action, AppserviceMatch, Evaluation,
};

fn text(s: &str) -> String {
    s.to_owned()
}

fn object(members: Vec<(&str, JsonValue)>) -> JsonValue {
    JsonValue::Object(members.into_iter().map(|(k, v)| (k.to_owned(), v)).collect())
}

fn event(kind: &str, sender: &str, state_key: Option<&str>, content: JsonValue) -> PduEvent {
    PduEvent {
        event_id: text("$event"),
        room_id: text("!admins:example.org"),
        sender: text(sender),
        origin: None,
        origin_server_ts: 1,
        kind: text(kind),
        content,
        state_key: state_key.map(text),
        prev_events: Vec::new(),
        depth: 1,
        auth_events: Vec::new(),
        redacts: None,
        unsigned: None,
        hashes: EventHash { sha256: text("aaa") },
        signatures: None,
    }
}

fn membership(sender: &str, target: &str, state: &str) -> PduEvent {
    event(
        "m.room.member",
        sender,
        Some(target),
        object(vec![("membership", JsonValue::String(text(state)))]),
    )
}

fn admin_room(members: &[&str]) -> BuildContext {
    BuildContext {
        admin_room: Some(text("!admins:example.org")),
        server_user: text("@server:example.org"),
        room_members: members.iter().map(|m| text(m)).collect(),
        can_redact: true,
        room_servers: Vec::new(),
    }
}

fn forbidden(reason: Reason) -> Error {
    Error::BadRequest(ErrorKind::Forbidden, reason)
}

#[test]
fn last_admins_cannot_leave_until_a_third_joins() {
    let own = text("example.org");
    let leave = membership("@a:example.org", "@a:example.org", "leave");
    let two = admin_room(&["@a:example.org", "@b:example.org"]);
    assert_eq!(
        admin_room_guard(&leave, &two, &own),
        Err(forbidden(Reason::LastAdminCannotLeave))
    );
    let three = admin_room(&["@a:example.org", "@b:example.org", "@c:example.org"]);
    assert_eq!(admin_room_guard(&leave, &three, &own), Ok(()));
    // Users of other servers do not count.
    let remote = admin_room(&["@a:example.org", "@b:example.org", "@c:remote.net"]);
    assert_eq!(
        admin_room_guard(&leave, &remote, &own),
        Err(forbidden(Reason::LastAdminCannotLeave))
    );
}

#[test]
fn admin_room_guards() {
    let own = text("example.org");
    let many = admin_room(&["@a:example.org", "@b:example.org", "@c:example.org", "@d:example.org"]);
    let encryption = event("m.room.encryption", "@a:example.org", Some(""), object(vec![]));
    assert_eq!(
        admin_room_guard(&encryption, &many, &own),
        Err(forbidden(Reason::EncryptionInAdminRoom))
    );
    let server_leaves = membership("@server:example.org", "@server:example.org", "leave");
    assert_eq!(
        admin_room_guard(&server_leaves, &many, &own),
        Err(forbidden(Reason::ServerUserCannotLeave))
    );
    let server_banned = membership("@a:example.org", "@server:example.org", "ban");
    assert_eq!(
        admin_room_guard(&server_banned, &many, &own),
        Err(forbidden(Reason::ServerUserCannotBeBanned))
    );
    let ban = membership("@a:example.org", "@b:example.org", "ban");
    assert_eq!(admin_room_guard(&ban, &many, &own), Ok(()));
    let few = admin_room(&["@a:example.org", "@b:example.org"]);
    assert_eq!(
        admin_room_guard(&ban, &few, &own),
        Err(forbidden(Reason::LastAdminCannotBeBanned))
    );
    let join = membership("@e:example.org", "@e:example.org", "join");
    assert_eq!(admin_room_guard(&join, &few, &own), Ok(()));
    let broken = event("m.room.member", "@a:example.org", Some("@a:example.org"), object(vec![]));
    assert_eq!(
        admin_room_guard(&broken, &many, &own),
        Err(Error::BadDatabase(Reason::InvalidContent))
    );
    // Another room is not guarded.
    let mut elsewhere = admin_room(&["@a:example.org"]);
    elsewhere.admin_room = Some(text("!other:example.org"));
    assert_eq!(admin_room_guard(&encryption, &elsewhere, &own), Ok(()));
    let mut none = admin_room(&["@a:example.org"]);
    none.admin_room = None;
    assert_eq!(admin_room_guard(&server_leaves, &none, &own), Ok(()));
}

#[test]
fn redaction_is_checked_before_the_append() {
    let mut redaction = event("m.room.redaction", "@a:example.org", None, object(vec![]));
    redaction.redacts = Some(text("$target:example.org"));
    assert_eq!(redaction_guard(&redaction, Some(RoomVersion::V10), true), Ok(()));
    assert_eq!(
        redaction_guard(&redaction, Some(RoomVersion::V10), false),
        Err(forbidden(Reason::UserCannotRedact))
    );
    // From version 11 on the target stands in the content.
    assert_eq!(redaction_guard(&redaction, Some(RoomVersion::V11), false), Ok(()));
    let mut in_content = event(
        "m.room.redaction",
        "@a:example.org",
        None,
        object(vec![("redacts", JsonValue::String(text("$target:example.org")))]),
    );
    in_content.redacts = None;
    assert_eq!(
        redaction_guard(&in_content, Some(RoomVersion::V11), false),
        Err(forbidden(Reason::UserCannotRedact))
    );
    assert_eq!(redaction_guard(&in_content, Some(RoomVersion::V10), false), Ok(()));
    let broken = event(
        "m.room.redaction",
        "@a:example.org",
        None,
        object(vec![("redacts", JsonValue::Integer(1))]),
    );
    assert_eq!(
        redaction_guard(&broken, Some(RoomVersion::V11), true),
        Err(Error::BadDatabase(Reason::InvalidRedactionContent))
    );
    assert_eq!(
        redaction_guard(&redaction, None, true),
        Err(Error::InconsistentRoomState(Reason::UnknownRoomVersion))
    );
    let message = event("m.room.message", "@a:example.org", None, object(vec![]));
    assert_eq!(redaction_guard(&message, None, false), Ok(()));
}

#[test]
fn sender_is_never_notified() {
    let targets = vec![text("@a:example.org"), text("@b:example.org"), text("@c:example.org")];
    let evaluations = vec![
        Evaluation {
            user_id: text("@a:example.org"),
            actions: vec![Action::Notify, Action::SetHighlight(true)],
            push_keys: vec![text("ka")],
        },
        Evaluation {
            user_id: text("@b:example.org"),
            actions: vec![Action::Other, Action::Notify, Action::SetHighlight(false)],
            push_keys: vec![text("kb1"), text("kb2")],
        },
        Evaluation {
            user_id: text("@c:example.org"),
            actions: vec![Action::SetHighlight(true)],
            push_keys: Vec::new(),
        },
    ];
    let (notifies, highlights, pushes) =
        recipients(&targets, &text("@a:example.org"), &evaluations);
    assert_eq!(notifies, vec![text("@b:example.org")]);
    assert_eq!(highlights, vec![text("@c:example.org")]);
    let jobs: Vec<(String, String)> =
        pushes.iter().map(|j| (j.user_id.clone(), j.push_key.clone())).collect();
    assert_eq!(
        jobs,
        vec![(text("@b:example.org"), text("kb1")), (text("@b:example.org"), text("kb2"))]
    );
    // A target without an evaluation hears nothing.
    let (n, h, p) = recipients(&targets, &text("@z:example.org"), &Vec::new());
    assert!(n.is_empty() && h.is_empty() && p.is_empty());
}

#[test]
fn membership_target_joins_the_push_targets() {
    let active = vec![text("@a:example.org")];
    let invite = membership("@a:example.org", "@b:example.org", "invite");
    assert_eq!(
        push_targets(&active, &invite).unwrap(),
        vec![text("@a:example.org"), text("@b:example.org")]
    );
    let own = membership("@a:example.org", "@a:example.org", "join");
    assert_eq!(push_targets(&active, &own).unwrap(), vec![text("@a:example.org")]);
    let message = event("m.room.message", "@a:example.org", None, object(vec![]));
    assert_eq!(push_targets(&active, &message).unwrap(), vec![text("@a:example.org")]);
    let nobody = membership("@a:example.org", "not a user", "join");
    assert_eq!(
        push_targets(&active, &nobody).unwrap_err(),
        Error::BadDatabase(Reason::InvalidUserId)
    );
}

fn appservice(id: &str) -> AppserviceMatch {
    AppserviceMatch {
        id: text(id),
        service_user: text("@bridge:example.org"),
        in_room: false,
        matches_aliases: false,
        matches_room: false,
        matches_sender: false,
        matches_state_key: false,
    }
}

#[test]
fn appservices_get_an_event_once() {
    let message = event("m.room.message", "@a:example.org", None, object(vec![]));
    let mut both = appservice("both");
    both.in_room = true;
    both.matches_room = true;
    let mut by_alias = appservice("alias");
    by_alias.matches_aliases = true;
    let mut by_sender = appservice("sender");
    by_sender.matches_sender = true;
    let mut by_state_key = appservice("state_key");
    by_state_key.matches_state_key = true;
    let none = appservice("none");
    let all = vec![both, none, by_alias, by_sender, by_state_key];
    assert_eq!(
        appservice_deliveries(&all, &message),
        vec![text("both"), text("alias"), text("sender")]
    );
    let member = membership("@a:example.org", "@b:example.org", "join");
    assert_eq!(
        appservice_deliveries(&all, &member),
        vec![text("both"), text("alias"), text("sender"), text("state_key")]
    );
    // A membership event about the service's own user goes to the service.
    let about_bridge = membership("@a:example.org", "@bridge:example.org", "invite");
    assert_eq!(
        appservice_deliveries(&vec![appservice("own"), appservice("too")], &about_bridge),
        vec![text("own"), text("too")]
    );
    assert!(appservice_deliveries(&vec![appservice("own")], &member).is_empty());
}

#[test]
fn event_goes_to_the_other_servers_once() {
    let own = text("example.org");
    let servers = vec![text("example.org"), text("remote.net"), text("third.org"), text("remote.net")];
    let message = event("m.room.message", "@a:example.org", None, object(vec![]));
    assert_eq!(
        federation_servers(&servers, &message, &own),
        vec![text("remote.net"), text("third.org")]
    );
    let kick = membership("@a:example.org", "@x:fourth.io", "leave");
    assert_eq!(
        federation_servers(&servers, &kick, &own),
        vec![text("remote.net"), text("third.org"), text("fourth.io")]
    );
    let local = membership("@a:example.org", "@b:example.org", "leave");
    assert_eq!(
        federation_servers(&servers, &local, &own),
        vec![text("remote.net"), text("third.org")]
    );
}

#[test]
fn backfill_candidates_in_order_of_preference() {
    let levels = object(vec![
        (
            "users",
            object(vec![
                ("@mod:remote.net", JsonValue::Integer(50)),
                ("@admin:example.org", JsonValue::Integer(100)),
                ("@user:low.org", JsonValue::Integer(0)),
                ("@gone:absent.org", JsonValue::Integer(100)),
            ]),
        ),
        ("users_default", JsonValue::Integer(0)),
    ]);
    let ctx = BackfillContext {
        power_levels: Some(levels),
        local_aliases: vec![text("#room:example.org"), text("#room:alias.org")],
        trusted_servers: vec![text("matrix.org"), text("example.org"), text("remote.net")],
        servers_in_room: vec![
            text("remote.net"),
            text("alias.org"),
            text("matrix.org"),
            text("low.org"),
            text("example.org"),
        ],
        server_name: text("example.org"),
    };
    assert_eq!(
        backfill_candidates(&ctx).unwrap(),
        vec![text("remote.net"), text("alias.org"), text("matrix.org"), text("remote.net")]
    );
    let broken = BackfillContext {
        power_levels: Some(object(vec![("users", JsonValue::Integer(3))])),
        local_aliases: Vec::new(),
        trusted_servers: Vec::new(),
        servers_in_room: Vec::new(),
        server_name: text("example.org"),
    };
    assert_eq!(
        backfill_candidates(&broken).unwrap_err(),
        Error::BadDatabase(Reason::InvalidPowerLevels)
    );
}

#[test]
fn parts_of_identifiers() {
    assert_eq!(server_name_of(&text("@alice:example.org")), "example.org");
    assert_eq!(server_name_of(&text("@alice:example.org:8448")), "example.org:8448");
    assert_eq!(server_name_of(&text("no colon")), "");
    assert_eq!(server_name_of(&text("trailing:")), "");
    assert!(starts_with_user_sigil(&text("@a:b")));
    assert!(!starts_with_user_sigil(&text("")));
    assert!(!starts_with_user_sigil(&text("#a:b")));
}

#[test]
fn body_and_relation_of_a_content() {
    let with_body = object(vec![("body", JsonValue::String(text("hello")))]);
    assert_eq!(extract_body(&with_body), Some(Some(text("hello"))));
    assert_eq!(extract_body(&object(vec![])), Some(None));
    assert_eq!(extract_body(&object(vec![("body", JsonValue::Null)])), Some(None));
    assert_eq!(extract_body(&object(vec![("body", JsonValue::Integer(1))])), None);
    assert_eq!(extract_body(&JsonValue::Integer(1)), None);
    let related = object(vec![(
        "m.relates_to",
        object(vec![("event_id", JsonValue::String(text("$target:example.org")))]),
    )]);
    assert_eq!(extract_related_event(&related), Some(text("$target:example.org")));
    let invalid = object(vec![(
        "m.relates_to",
        object(vec![("event_id", JsonValue::String(text("no event")))]),
    )]);
    assert_eq!(extract_related_event(&invalid), None);
    assert_eq!(extract_related_event(&with_body), None);
}

#[test]
fn redaction_names_its_target_by_room_version() {
    let content = object(vec![("redacts", JsonValue::String(text("$inside:example.org")))]);
    let top = Some(text("$top:example.org"));
    assert_eq!(
        room_timeline::timeline::compose::redaction_named(&top, &content, RoomVersion::V10),
        Some(text("$top:example.org"))
    );
    assert_eq!(
        room_timeline::timeline::compose::redaction_named(&top, &content, RoomVersion::V11),
        Some(text("$inside:example.org"))
    );
    assert_eq!(
        room_timeline::timeline::compose::redaction_named(&None, &object(vec![]), RoomVersion::V11),
        None
    );
}
