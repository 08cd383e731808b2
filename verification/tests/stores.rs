use room_timeline::caches::Caches;
use room_timeline::error::{Error, Reason};
use room_timeline::gate::{GateKind, RoomMutexMap};
use room_timeline::globals::Data;
use room_timeline::pdu_count::PduCount;
use room_timeline::protocol::Keypair;
use room_timeline::timeline::data::PduId;
use room_timeline::timeline::Service;
use room_timeline::{available, fini, init, services, ServiceSlot, Services, Stores};

const PKCS8: &str = "MFECAQEwBQYDK2VwBCIEINjozvdfbsGEt6DD+7Uf4PiJ/YvTNXV2mIPc/tA0T+6tgSEA3TPraTczVkDPTRaX4K+AfUuyx7Mzq1UafTXypnl0t2k";

fn text(s: &str) -> String {
    s.to_owned()
}

#[test]
fn boundary_of_the_two_kinds() {
    assert!(PduCount::Backfilled(u64::MAX) < PduCount::Normal(0));
    assert!(PduCount::Backfilled(0) < PduCount::Normal(0));
    assert!(PduCount::Normal(0) > PduCount::Backfilled(u64::MAX));
    assert!(PduCount::Backfilled(1) > PduCount::Backfilled(2));
    assert!(PduCount::Normal(5) == PduCount::Normal(5));
    assert!(PduCount::Normal(5) != PduCount::Backfilled(5));
    assert!(PduCount::Normal(5) <= PduCount::Normal(5));
    assert_eq!(PduCount::min(), PduCount::Backfilled(u64::MAX));
    assert_eq!(PduCount::max(), PduCount::Normal(u64::MAX));
    assert!(PduCount::min() < PduCount::max());
    assert_eq!(PduCount::Backfilled(7).counter(), 7);
    assert!(PduCount::Backfilled(7).is_backfilled());
    assert!(!PduCount::Normal(7).is_backfilled());
}

#[test]
fn slot_is_available_between_init_and_fini() {
    let mut slot = ServiceSlot::new();
    assert!(!available(&slot));
    init(&mut slot, Services::build());
    assert!(available(&slot));
    assert_eq!(services(&slot).stores.globals.current_count().unwrap(), 0);
    let _dropped = fini(&mut slot);
    assert!(!available(&slot));
}

#[test]
fn gate_admits_one_holder_per_room() {
    let mut gate = RoomMutexMap::new(GateKind::State);
    let room = text("!a:example.org");
    let other = text("!b:example.org");
    let first = gate.try_lock(&room).unwrap();
    assert!(gate.try_lock(&room).is_none());
    assert!(gate.locked(&room));
    assert!(gate.check(&first));
    let second = gate.try_lock(&other).unwrap();
    assert_eq!(gate.len(), 2);
    assert_eq!(first.room_id(), &room);
    assert_eq!(first.gate_kind(), GateKind::State);
    gate.unlock(first);
    assert!(!gate.locked(&room));
    assert!(gate.locked(&other));
    let again = gate.try_lock(&room).unwrap();
    gate.unlock(again);
    gate.unlock(second);
    assert_eq!(gate.len(), 0);
}

#[test]
fn guard_of_another_gate_unlocks_nothing() {
    let mut state = RoomMutexMap::new(GateKind::State);
    let mut insert = RoomMutexMap::new(GateKind::Insert);
    let room = text("!a:example.org");
    let held = state.try_lock(&room).unwrap();
    let foreign = insert.try_lock(&room).unwrap();
    assert!(!state.check(&foreign));
    state.unlock(foreign);
    assert!(state.locked(&room));
    state.unlock(held);
    assert!(!state.locked(&room));
}

#[test]
fn counter_is_strictly_increasing() {
    let mut globals = Data::new();
    assert_eq!(globals.current_count().unwrap(), 0);
    assert_eq!(globals.next_count().unwrap(), 1);
    assert_eq!(globals.next_count().unwrap(), 2);
    assert_eq!(globals.current_count().unwrap(), 2);
    assert_eq!(globals.database_version().unwrap(), 0);
    globals.bump_database_version(13).unwrap();
    assert_eq!(globals.database_version().unwrap(), 13);
    assert_eq!(globals.last_check_for_updates_id().unwrap(), 0);
    globals.update_check_for_updates_id(9).unwrap();
    assert_eq!(globals.last_check_for_updates_id().unwrap(), 9);
    assert_eq!(globals.current_count().unwrap(), 2);
}

#[test]
fn keypair_is_generated_once_and_checked() {
    let document: ruma::serde::Base64 = ruma::serde::Base64::parse(PKCS8).unwrap();
    let good = Keypair { version: text("1"), der: document.as_bytes().to_vec() };
    let mut globals = Data::new();
    let loaded = globals.load_keypair(good).unwrap();
    assert_eq!(loaded.version, "1");
    assert_eq!(loaded.der, document.as_bytes().to_vec());
    // A stored pair is kept; what is generated later is not looked at.
    let again = globals.load_keypair(Keypair { version: text("2"), der: vec![0] }).unwrap();
    assert_eq!(again.version, "1");
    globals.remove_keypair().unwrap();
    let bad = globals.load_keypair(Keypair { version: text("2"), der: vec![0] });
    assert_eq!(bad.unwrap_err(), Error::BadDatabase(Reason::InvalidKeys));
}

#[test]
fn short_identifiers_are_stable() {
    let mut stores = Stores::new();
    let event = text("$event");
    let a = stores.short.get_or_create_shorteventid(&mut stores.globals, &event).unwrap();
    let b = stores.short.get_or_create_shorteventid(&mut stores.globals, &event).unwrap();
    assert_eq!(a, 1);
    assert_eq!(a, b);
    assert_eq!(stores.globals.current_count().unwrap(), 1);
    let other = stores.short.get_or_create_shorteventid(&mut stores.globals, &text("$other")).unwrap();
    assert_eq!(other, 2);
    let room = text("!room:example.org");
    assert_eq!(stores.short.get_shortroomid(&room).unwrap(), None);
    let short = stores.short.get_or_create_shortroomid(&mut stores.globals, &room).unwrap();
    assert_eq!(short, 3);
    assert_eq!(stores.short.get_shortroomid(&room).unwrap(), Some(3));
    assert_eq!(stores.short.get_shorteventid(&event).unwrap(), Some(1));
}

#[test]
fn state_pointers_and_extremities() {
    let mut stores = Stores::new();
    let mut gate = RoomMutexMap::new(GateKind::State);
    let room = text("!room:example.org");
    let other = text("!other:example.org");
    let lock = gate.try_lock(&room).unwrap();
    assert_eq!(stores.state.get_room_shortstatehash(&room).unwrap(), None);
    stores.state.set_room_state(&room, 5, &lock).unwrap();
    assert_eq!(stores.state.get_room_shortstatehash(&room).unwrap(), Some(5));
    assert_eq!(stores.state.get_room_shortstatehash(&other).unwrap(), None);
    assert!(stores.state.get_forward_extremities(&room).unwrap().is_empty());
    stores
        .state
        .set_forward_extremities(&room, vec![text("$a"), text("$b"), text("$a")], &lock)
        .unwrap();
    assert_eq!(
        stores.state.get_forward_extremities(&room).unwrap(),
        vec![text("$a"), text("$b")]
    );
    stores.state.set_forward_extremities(&room, vec![text("$c")], &lock).unwrap();
    assert_eq!(stores.state.get_forward_extremities(&room).unwrap(), vec![text("$c")]);
    assert!(stores.state.get_forward_extremities(&other).unwrap().is_empty());
    stores.state.set_event_state(1, 5).unwrap();
    assert_eq!(stores.state.get_event_state(1), Some(5));
    assert_eq!(stores.state.get_event_state(2), None);
    gate.unlock(lock);
}

#[test]
fn private_read_markers_and_unread_counters() {
    let mut stores = Stores::new();
    let room = text("!room:example.org");
    let user = text("@alice:example.org");
    let bob = text("@bob:example.org");
    assert_eq!(stores.read_receipt.private_read_get(&room, &user).unwrap(), None);
    assert_eq!(stores.read_receipt.last_privateread_update(&user, &room).unwrap(), 0);
    stores.read_receipt.private_read_set(&mut stores.globals, &room, &user, 42).unwrap();
    assert_eq!(stores.read_receipt.private_read_get(&room, &user).unwrap(), Some(42));
    assert_eq!(stores.read_receipt.last_privateread_update(&user, &room).unwrap(), 1);
    assert_eq!(stores.read_receipt.private_read_get(&room, &bob).unwrap(), None);

    assert_eq!(stores.user.notification_count(&user, &room).unwrap(), 0);
    stores
        .user
        .increment_notification_counts(&room, &vec![user.clone(), bob.clone(), user.clone()], &vec![bob.clone()])
        .unwrap();
    assert_eq!(stores.user.notification_count(&user, &room).unwrap(), 2);
    assert_eq!(stores.user.notification_count(&bob, &room).unwrap(), 1);
    assert_eq!(stores.user.highlight_count(&bob, &room).unwrap(), 1);
    assert_eq!(stores.user.highlight_count(&user, &room).unwrap(), 0);
    stores.user.reset_notification_counts(&mut stores.globals, &user, &room).unwrap();
    assert_eq!(stores.user.notification_count(&user, &room).unwrap(), 0);
    assert_eq!(stores.user.notification_count(&bob, &room).unwrap(), 1);
    assert_eq!(stores.user.last_notification_read(&user, &room).unwrap(), 2);
    assert_eq!(stores.user.get_token_shortstatehash(&room, 7).unwrap(), None);
    stores.user.associate_token_shortstatehash(&room, 7, 99).unwrap();
    assert_eq!(stores.user.get_token_shortstatehash(&room, 7).unwrap(), Some(99));
}

#[test]
fn caches_are_emptied_by_amount() {
    let mut caches = Caches::new(2);
    let mut timeline = Service::build();
    caches.cache_auth_chain(vec![1], vec![10]);
    caches.cache_auth_chain(vec![2], vec![20]);
    caches.cache_auth_chain(vec![3], vec![30]);
    caches.cache_appservice_in_room(&text("!r:example.org"), &text("bridge"), true);
    caches.cache_appservice_in_room(&text("!r:example.org"), &text("other"), false);
    let usage = caches.memory_usage(&timeline);
    assert_eq!(usage.auth_chain_cache, 2);
    assert_eq!(usage.max_auth_chain_cache, 2);
    assert_eq!(usage.appservice_in_room_cache, 1);
    assert_eq!(usage.lasttimelinecount_cache, 0);
    caches.clear_caches(&mut timeline, 1);
    assert_eq!(caches.memory_usage(&timeline).auth_chain_cache, 2);
    caches.clear_caches(&mut timeline, 2);
    let usage = caches.memory_usage(&timeline);
    assert_eq!(usage.auth_chain_cache, 0);
    assert_eq!(usage.max_auth_chain_cache, 2);
    assert_eq!(usage.appservice_in_room_cache, 1);
    caches.clear_caches(&mut timeline, 3);
    assert_eq!(caches.memory_usage(&timeline).appservice_in_room_cache, 0);
    caches.clear_caches(&mut timeline, 4);
    assert_eq!(timeline.memory_usage().lasttimelinecount_cache, 0);
    assert_eq!(timeline.memory_usage().insert_mutex, 0);
}

#[test]
fn positions_as_keys_of_bytes() {
    let live = PduId { shortroomid: 1, count: PduCount::Normal(0x0102) };
    assert_eq!(live.to_bytes(), vec![0, 0, 0, 0, 0, 0, 0, 1, 0, 0, 0, 0, 0, 0, 1, 2]);
    assert_eq!(PduId::from_bytes(&live.to_bytes()), Some(live));
    let old = PduId { shortroomid: 0x0a0b, count: PduCount::Backfilled(3) };
    let mut key = vec![0, 0, 0, 0, 0, 0, 0x0a, 0x0b];
    key.extend_from_slice(&[0; 8]);
    key.extend_from_slice(&[0xff, 0xff, 0xff, 0xff, 0xff, 0xff, 0xff, 0xfc]);
    assert_eq!(old.to_bytes(), key);
    assert_eq!(PduId::from_bytes(&key), Some(old));
    let top = PduId { shortroomid: u64::MAX, count: PduCount::Normal(u64::MAX) };
    assert_eq!(top.to_bytes(), vec![0xff; 16]);
    assert_eq!(PduId::from_bytes(&vec![0xff; 16]), Some(top));
    let first = PduId { shortroomid: 0, count: PduCount::Backfilled(u64::MAX) };
    assert_eq!(first.to_bytes(), vec![0; 24]);
    assert_eq!(PduId::from_bytes(&vec![0; 24]), Some(first));
    assert_eq!(PduId::from_bytes(&Vec::new()), None);
    assert_eq!(PduId::from_bytes(&vec![0; 15]), None);
    let mut wrong = vec![0; 24];
    wrong[15] = 1;
    assert_eq!(PduId::from_bytes(&wrong), None);
    // A later historical position has the smaller key.
    let later = PduId { shortroomid: 1, count: PduCount::Backfilled(9) };
    let earlier = PduId { shortroomid: 1, count: PduCount::Backfilled(8) };
    assert!(later.to_bytes() < earlier.to_bytes());
    assert!(earlier.to_bytes() < PduId { shortroomid: 1, count: PduCount::Normal(1) }.to_bytes());
}

#[test]
fn shared_rooms_are_those_of_all_users() {
    let stores = Stores::new();
    let joined = vec![
        vec![text("!a:x"), text("!b:x"), text("!c:x")],
        vec![text("!c:x"), text("!a:x")],
        vec![text("!a:x"), text("!c:x"), text("!d:x")],
    ];
    assert_eq!(stores.user.get_shared_rooms(&joined).unwrap(), vec![text("!a:x"), text("!c:x")]);
    assert_eq!(
        stores.user.get_shared_rooms(&vec![vec![text("!a:x")]]).unwrap(),
        vec![text("!a:x")]
    );
    assert!(stores.user.get_shared_rooms(&vec![vec![text("!a:x")], Vec::new()]).unwrap().is_empty());
}

#[test]
fn global_data_reports_and_empties_the_caches() {
    let globals = Data::new();
    let mut caches = Caches::new(4);
    let mut timeline = Service::build();
    caches.cache_auth_chain(vec![1, 2], vec![3]);
    assert_eq!(globals.memory_usage(&caches, &timeline).auth_chain_cache, 1);
    globals.clear_caches(&mut caches, &mut timeline, 2);
    assert_eq!(globals.memory_usage(&caches, &timeline).auth_chain_cache, 0);
    assert_eq!(globals.memory_usage(&caches, &timeline).max_auth_chain_cache, 4);
}

#[test]
fn signing_keys_of_a_server_are_merged() {
    let globals = Data::new();
    let mut keys = room_timeline::signing_keys::Data::new();
    let origin = text("remote.net");
    assert_eq!(globals.signing_keys_for(&keys, &origin).unwrap().len(), 0);
    let first = room_timeline::signing_keys::ServerSigningKeys {
        verify_keys: vec![(text("ed25519:a"), text("A1")), (text("ed25519:b"), text("B1"))],
        old_verify_keys: vec![(
            text("ed25519:old"),
            room_timeline::signing_keys::OldVerifyKey { expired_ts: 5, key: text("O1") },
        )],
    };
    let tree = globals.add_signing_key(&mut keys, &origin, first).unwrap();
    assert_eq!(tree.len(), 3);
    assert_eq!(tree.get(&text("ed25519:a")), Some(&text("A1")));
    assert_eq!(tree.get(&text("ed25519:old")), Some(&text("O1")));
    let second = room_timeline::signing_keys::ServerSigningKeys {
        verify_keys: vec![(text("ed25519:a"), text("A2"))],
        old_verify_keys: vec![(
            text("ed25519:b"),
            room_timeline::signing_keys::OldVerifyKey { expired_ts: 9, key: text("B-old") },
        )],
    };
    let tree = globals.add_signing_key(&mut keys, &origin, second).unwrap();
    assert_eq!(tree.len(), 3);
    assert_eq!(tree.get(&text("ed25519:a")), Some(&text("A2")));
    assert_eq!(tree.get(&text("ed25519:b")), Some(&text("B-old")));
    let stored = globals.signing_keys_for(&keys, &origin).unwrap();
    assert_eq!(stored.get(&text("ed25519:b")), Some(&text("B-old")));
    assert_eq!(globals.signing_keys_for(&keys, &text("other.org")).unwrap().len(), 0);
}
