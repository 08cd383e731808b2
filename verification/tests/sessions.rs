use room_timeline::error::{Error, ErrorKind, Reason};
use room_timeline::json::JsonValue;
use room_timeline::pdu_count::PduCount;
use room_timeline::read_receipt::{private_marker_position, Data};
use room_timeline::uiaa::{
    flows_completed, password_user, AuthData, PasswordCheck, Service, UiaaInfo, SESSION_ID_LENGTH,
};
use room_timeline::globals;

fn text(s: &str) -> String {
    s.to_owned()
}

fn info(flows: Vec<Vec<&str>>, session: Option<&str>) -> UiaaInfo {
    UiaaInfo {
        flows: flows.into_iter().map(|f| f.into_iter().map(text).collect()).collect(),
        completed: Vec::new(),
        params: JsonValue::Null,
        session: session.map(text),
        auth_error: None,
    }
}

fn password(identifier: Option<&str>, session: Option<&str>) -> AuthData {
    AuthData::Password {
        identifier: identifier.map(text),
        password: text("secret"),
        session: session.map(text),
    }
}

#[test]
fn password_flow_succeeds_and_forgets_the_session() {
    let mut uiaa = Service::build();
    let user = text("@alice:example.org");
    let device = text("DEVICE");
    let start = info(vec![vec!["m.login.password"]], None);
    let (done, state) = uiaa
        .try_auth(
            &user,
            &device,
            &password(Some("alice"), None),
            &start,
            text("fresh"),
            PasswordCheck::Matches,
            &None,
            &text("example.org"),
        )
        .unwrap();
    assert!(done);
    assert_eq!(state.completed, vec![text("m.login.password")]);
    assert_eq!(state.session, Some(text("fresh")));
    assert!(uiaa.get_uiaa_session(&user, &device, &text("fresh")).is_none());
    assert_eq!(SESSION_ID_LENGTH, 32);
}

#[test]
fn wrong_password_is_turned_away() {
    let mut uiaa = Service::build();
    let user = text("@alice:example.org");
    let device = text("DEVICE");
    let start = info(vec![vec!["m.login.password"]], Some("s1"));
    let (done, state) = uiaa
        .try_auth(
            &user,
            &device,
            &password(Some("@alice:example.org"), None),
            &start,
            text("fresh"),
            PasswordCheck::Mismatch,
            &None,
            &text("example.org"),
        )
        .unwrap();
    assert!(!done);
    assert_eq!(state.auth_error, Some(Reason::InvalidCredentials));
    assert!(state.completed.is_empty());
    assert_eq!(state.session, Some(text("s1")));
    assert!(uiaa.get_uiaa_session(&user, &device, &text("s1")).is_none());
    // A user without a password hash passes.
    let (done, _) = uiaa
        .try_auth(
            &user,
            &device,
            &password(Some("alice"), None),
            &start,
            text("fresh"),
            PasswordCheck::NoHash,
            &None,
            &text("example.org"),
        )
        .unwrap();
    assert!(done);
}

#[test]
fn identifiers_that_name_no_user_fail() {
    let mut uiaa = Service::build();
    let user = text("@alice:example.org");
    let device = text("DEVICE");
    let start = info(vec![vec!["m.login.password"]], None);
    let server = text("example.org");
    assert_eq!(
        uiaa.try_auth(&user, &device, &password(None, None), &start, text("f"), PasswordCheck::Matches, &None, &server)
            .unwrap_err(),
        Error::BadRequest(ErrorKind::Unrecognized, Reason::UnknownIdentifierType)
    );
    assert_eq!(
        uiaa.try_auth(&user, &device, &password(Some("@no colon"), None), &start, text("f"), PasswordCheck::Matches, &None, &server)
            .unwrap_err(),
        Error::BadRequest(ErrorKind::InvalidParam, Reason::InvalidUserId)
    );
    assert_eq!(
        uiaa.try_auth(&user, &device, &password(Some("alice"), Some("gone")), &start, text("f"), PasswordCheck::Matches, &None, &server)
            .unwrap_err(),
        Error::BadRequest(ErrorKind::Forbidden, Reason::NoSuchSession)
    );
    assert_eq!(
        password_user(&password(Some("alice"), None), &server),
        Some(text("@alice:example.org"))
    );
    assert_eq!(
        password_user(&password(Some("@bob:remote.net"), None), &server),
        Some(text("@bob:remote.net"))
    );
    assert_eq!(password_user(&password(Some("@no colon"), None), &server), None);
    assert_eq!(password_user(&AuthData::Dummy { session: None }, &server), None);
}

#[test]
fn two_stage_flow_is_kept_between_attempts() {
    let mut uiaa = Service::build();
    let user = text("@alice:example.org");
    let device = text("DEVICE");
    let server = text("example.org");
    let start = info(
        vec![vec!["m.login.registration_token", "m.login.dummy"], vec!["m.login.sso"]],
        Some("s1"),
    );
    uiaa.create(&user, &device, &start, &JsonValue::String(text("request"))).unwrap();
    assert_eq!(format!("{:?}", uiaa.get_uiaa_request(&user, &device, &text("s1"))), format!("{:?}", Some(JsonValue::String(text("request")))));
    assert!(uiaa.get_uiaa_request(&user, &device, &text("s2")).is_none());

    let wrong = AuthData::RegistrationToken { token: text("nope"), session: Some(text("s1")) };
    let (done, state) = uiaa
        .try_auth(&user, &device, &wrong, &start, text("f"), PasswordCheck::NoHash, &Some(text("token")), &server)
        .unwrap();
    assert!(!done);
    assert_eq!(state.auth_error, Some(Reason::InvalidRegistrationToken));

    let right = AuthData::RegistrationToken { token: text("  token \n"), session: Some(text("s1")) };
    let (done, state) = uiaa
        .try_auth(&user, &device, &right, &start, text("f"), PasswordCheck::NoHash, &Some(text("token")), &server)
        .unwrap();
    assert!(!done);
    assert_eq!(state.completed, vec![text("m.login.registration_token")]);
    let stored = uiaa.get_uiaa_session(&user, &device, &text("s1")).unwrap();
    assert_eq!(stored.completed, vec![text("m.login.registration_token")]);

    let unsupported = AuthData::Other { session: Some(text("s1")) };
    let (done, state) = uiaa
        .try_auth(&user, &device, &unsupported, &start, text("f"), PasswordCheck::NoHash, &None, &server)
        .unwrap();
    assert!(!done);
    assert_eq!(state.completed.len(), 1);

    let dummy = AuthData::Dummy { session: Some(text("s1")) };
    let (done, state) = uiaa
        .try_auth(&user, &device, &dummy, &start, text("f"), PasswordCheck::NoHash, &None, &server)
        .unwrap();
    assert!(done);
    assert_eq!(
        state.completed,
        vec![text("m.login.registration_token"), text("m.login.dummy")]
    );
    assert!(uiaa.get_uiaa_session(&user, &device, &text("s1")).is_none());
}

#[test]
fn a_flow_is_done_when_all_its_stages_are() {
    let flows = vec![vec![text("a"), text("b")], vec![text("c")]];
    assert!(!flows_completed(&flows, &vec![text("a")]));
    assert!(flows_completed(&flows, &vec![text("b"), text("a")]));
    assert!(flows_completed(&flows, &vec![text("c")]));
    assert!(!flows_completed(&Vec::new(), &vec![text("c")]));
    assert!(flows_completed(&vec![Vec::new()], &Vec::new()));
}

#[test]
fn private_marker_needs_a_live_event() {
    assert_eq!(private_marker_position(Some(PduCount::Normal(7))), Ok(7));
    assert_eq!(
        private_marker_position(Some(PduCount::Backfilled(7))),
        Err(Error::BadRequest(ErrorKind::InvalidParam, Reason::BackfilledReadReceipt))
    );
    assert_eq!(
        private_marker_position(None),
        Err(Error::BadRequest(ErrorKind::InvalidParam, Reason::EventDoesNotExist))
    );
}

#[test]
fn latest_receipt_of_a_user_replaces_the_one_before() {
    let mut globals = globals::Data::new();
    let mut receipts = Data::new();
    let room = text("!room:example.org");
    let other = text("!other:example.org");
    let alice = text("@alice:example.org");
    let bob = text("@bob:example.org");
    let event = |id: &str| {
        vec![
            (text("room_id"), JsonValue::String(text("!room:example.org"))),
            (text("content"), JsonValue::String(text(id))),
        ]
    };
    receipts.readreceipt_update(&mut globals, &alice, &room, &event("a1")).unwrap();
    receipts.readreceipt_update(&mut globals, &bob, &room, &event("b1")).unwrap();
    receipts.readreceipt_update(&mut globals, &alice, &other, &event("o1")).unwrap();
    receipts.readreceipt_update(&mut globals, &alice, &room, &event("a2")).unwrap();
    let all = receipts.readreceipts_since(&room, 0);
    let seen: Vec<(String, u64)> = all.iter().map(|r| (r.0.clone(), r.1)).collect();
    assert_eq!(seen, vec![(bob.clone(), 2), (alice.clone(), 4)]);
    assert_eq!(all[1].2.len(), 1);
    assert_eq!(all[1].2[0].0, "content");
    let later = receipts.readreceipts_since(&room, 2);
    assert_eq!(later.len(), 1);
    assert_eq!(later[0].0, alice);
    assert!(receipts.readreceipts_since(&room, 4).is_empty());
    assert_eq!(receipts.readreceipts_since(&other, 0).len(), 1);
}
