use base64::engine::general_purpose::URL_SAFE_NO_PAD;
use base64::Engine;
use relay_rs::cleanup::sweep;
use relay_rs::clock::{Monotonic, Now, WallTime};
use relay_rs::logs::LogStore;
use relay_rs::protocol::{error_code, server_type, ClientMessage, ServerMessage};
use relay_rs::registry::{Registry, RoomHandle, MAX_RETAINED_ROOMS, MAX_ROOMS_PER_IP};
use relay_rs::room::{Admission, Effects};
use relay_rs::snapshot::{load_snapshot, StateSnapshotDto};
use tokio::sync::mpsc;

const NOW: Now = Now {
    wall: WallTime { secs: 1_700_000_000, nanos: 0 },
    mono: Monotonic { secs: 5_000, nanos: 0 },
};

fn after(secs: i64) -> Now {
    Now {
        wall: WallTime { secs: NOW.wall.secs + secs, nanos: 0 },
        mono: Monotonic { secs: NOW.mono.secs + secs, nanos: 0 },
    }
}

fn token(byte: u8) -> String {
    URL_SAFE_NO_PAD.encode([byte; 32])
}

fn admission(peer_id: &str) -> Admission {
    let (tx, _rx) = mpsc::channel(8);
    Admission {
        peer_id: peer_id.to_string(),
        tx,
        sync_protocol_version: 0,
        host_transfer_capable: false,
    }
}

fn create(registry: &mut Registry, session: &str, ip: &str) -> (Option<RoomHandle>, Effects) {
    registry.create(session, "host", &token(1), ip, admission("host"), NOW)
}

fn code(effects: &Effects) -> Option<&str> {
    effects.reply.as_ref().and_then(|m: &ServerMessage| m.code.as_deref())
}

fn join(registry: &mut Registry, handle: &RoomHandle, peer: &str, byte: u8) -> Effects {
    let msg = ClientMessage {
        msg_type: "join".to_string(),
        session_id: handle.session_id.clone(),
        peer_id: peer.to_string(),
        reconnect_token: token(byte),
        protocol_version: 2,
        ..Default::default()
    };
    registry.join_or_resume(handle, &msg, admission(peer), false, NOW)
}

#[test]
fn token_of_the_wrong_form_makes_no_room() {
    let mut registry = Registry::new();
    let (room, effects) = registry.create("s", "host", "short", "ip", admission("host"), NOW);
    assert!(room.is_none());
    assert_eq!(code(&effects), Some(error_code::INVALID_MESSAGE));
    assert_eq!(registry.room_count(), 0);
    assert!(registry.get("s").is_none());
}

#[test]
fn one_address_owns_three_rooms_at_most() {
    let mut registry = Registry::new();
    for n in 0..MAX_ROOMS_PER_IP {
        assert!(create(&mut registry, &format!("s{n}"), "ip-a").0.is_some());
    }
    let (room, effects) = create(&mut registry, "one-more", "ip-a");
    assert!(room.is_none());
    assert_eq!(code(&effects), Some(error_code::RATE_LIMITED));
    assert_eq!(effects.reply.unwrap().message, Some("Too many rooms created".to_string()));
    assert!(create(&mut registry, "one-more", "ip-b").0.is_some());
    // A repeated `create` counts nothing, so it goes through.
    assert!(create(&mut registry, "s0", "ip-a").0.is_some());
    // A room that ended no longer counts.
    let handle = registry.get("s0").unwrap();
    let guests = registry.begin_end_session(&handle, "host", 2, &token(1), 2).ok().unwrap();
    registry.finish_end_session(&handle, guests, true);
    assert!(create(&mut registry, "another", "ip-a").0.is_some());
}

#[test]
fn there_are_only_so_many_rooms() {
    let mut registry = Registry::new();
    for n in 0..MAX_RETAINED_ROOMS {
        let ip = format!("ip{}", n / MAX_ROOMS_PER_IP);
        assert!(create(&mut registry, &format!("s{n}"), &ip).0.is_some());
    }
    let (room, effects) = create(&mut registry, "one-more", "fresh-ip");
    assert!(room.is_none());
    assert_eq!(effects.reply.unwrap().message, Some("Too many retained rooms".to_string()));
    assert_eq!(registry.room_count(), MAX_RETAINED_ROOMS);
    assert_eq!(registry.all_rooms().len(), MAX_RETAINED_ROOMS);
}

#[test]
fn ended_room_cannot_be_joined_and_tells_everyone() {
    let mut registry = Registry::new();
    let handle = create(&mut registry, "s", "ip").0.unwrap();
    let guest_conn = join(&mut registry, &handle, "g", 2).assigned_conn_id.unwrap();
    assert!(registry.begin_end_session(&handle, "g", guest_conn, &token(2), 2).is_err());
    let guests = registry.begin_end_session(&handle, "host", 1, &token(1), 2).ok().unwrap();
    assert_eq!(guests.len(), 1);
    assert!(registry.get("s").is_none());
    // In the meantime nothing happens in it.
    assert_eq!(code(&join(&mut registry, &handle, "late", 3)), Some(error_code::ROOM_NOT_FOUND));
    assert!(registry.broadcast(&handle, "host", 1, None, NOW.wall).broadcast.is_empty());
    let effects = registry.finish_end_session(&handle, guests, true);
    assert_eq!(effects.reply.unwrap().msg_type, server_type::ENDED);
    assert_eq!(effects.broadcast.len(), 1);
    assert_eq!(effects.evict.len(), 2);
    // What is asked of a room that is gone has no effect.
    assert!(!registry.disconnect(&handle, "g", guest_conn, NOW).dirty);
    let late = registry.finish_end_session(&handle, Vec::new(), true);
    assert!(late.reply.is_none() && late.evict.is_empty());
    assert_eq!(
        code(&registry.transfer_host(&handle, "host", 1, 2, "g")),
        Some(error_code::PEER_ID_UNAVAILABLE)
    );
    assert!(registry.begin_leave(&handle, "g", guest_conn, &token(2), 2).is_err());
}

#[test]
fn leave_that_was_saved_is_confirmed_while_the_room_ends() {
    let mut registry = Registry::new();
    let handle = create(&mut registry, "s", "ip").0.unwrap();
    let conn = join(&mut registry, &handle, "g", 2).assigned_conn_id.unwrap();
    assert!(registry.begin_leave(&handle, "g", conn, &token(2), 2).is_ok());
    let guests = registry.begin_end_session(&handle, "host", 1, &token(1), 2).ok().unwrap();
    let left = registry.finish_leave(&handle, "g", conn, true, NOW.wall);
    assert_eq!(left.reply.unwrap().msg_type, server_type::LEFT);
    let ended = registry.finish_end_session(&handle, guests, true);
    assert_eq!(ended.evict.len(), 1);
}

#[test]
fn room_is_removed_only_by_its_own_handle() {
    let mut registry = Registry::new();
    let handle = create(&mut registry, "s", "ip").0.unwrap();
    let stale = RoomHandle { session_id: "s".to_string(), id: handle.id + 1 };
    assert!(!registry.remove_if_current(&stale));
    assert_eq!(registry.room_count(), 1);
    assert!(registry.remove_if_current(&handle));
    assert!(!registry.remove_if_current(&handle));
    assert_eq!(registry.room_count(), 0);
}

#[test]
fn room_that_was_taken_off_goes_on_for_those_in_it() {
    let mut registry = Registry::new();
    let handle = create(&mut registry, "s", "ip").0.unwrap();
    let conn = join(&mut registry, &handle, "g", 2).assigned_conn_id.unwrap();
    assert!(registry.remove_if_current(&handle));
    assert!(registry.get("s").is_none());
    let effects = registry.broadcast(&handle, "g", conn, Some("1".to_string()), NOW.wall);
    assert_eq!(effects.broadcast.len(), 1);
    // Another room under the same session id is another room.
    let fresh = create(&mut registry, "s", "ip").0.unwrap();
    assert!(!fresh.same_room(&handle));
    let effects = registry.broadcast(&fresh, "g", conn, None, NOW.wall);
    assert!(effects.broadcast.is_empty());
}

#[test]
fn sweep_removes_abandoned_and_overaged_rooms() {
    let mut registry = Registry::new();
    let mut logs = LogStore::new();
    let empty = create(&mut registry, "empty", "ip-a").0.unwrap();
    create(&mut registry, "busy", "ip-b").0.unwrap();
    registry.disconnect(&empty, "host", 1, NOW);

    let swept = sweep(&mut registry, &mut logs, after(300));
    assert_eq!(swept.changed, 0);
    assert!(swept.evict.is_empty());
    assert_eq!(registry.room_count(), 2);

    let swept = sweep(&mut registry, &mut logs, after(301));
    assert_eq!(swept.changed, 1);
    assert!(swept.evict.is_empty());
    assert!(registry.get("empty").is_none());
    assert!(registry.get("busy").is_some());

    let swept = sweep(&mut registry, &mut logs, after(86_400));
    assert_eq!(swept.changed, 0);
    let swept = sweep(&mut registry, &mut logs, after(86_401));
    assert_eq!(swept.changed, 1);
    assert_eq!(swept.evict.len(), 1);
    assert_eq!(registry.room_count(), 0);
    // The owners' counts went with the rooms.
    for n in 0..MAX_ROOMS_PER_IP {
        assert!(create(&mut registry, &format!("s{n}"), "ip-b").0.is_some());
    }
}

#[test]
fn sweep_forgets_expired_reservations() {
    let mut registry = Registry::new();
    let mut logs = LogStore::new();
    let handle = create(&mut registry, "s", "ip").0.unwrap();
    let conn = join(&mut registry, &handle, "g", 2).assigned_conn_id.unwrap();
    registry.disconnect(&handle, "g", conn, NOW);
    assert_eq!(sweep(&mut registry, &mut logs, after(299)).changed, 0);
    assert_eq!(sweep(&mut registry, &mut logs, after(300)).changed, 1);
    assert_eq!(sweep(&mut registry, &mut logs, after(300)).changed, 0);
    assert_eq!(registry.room_count(), 1);
}

#[test]
fn sweep_counts_each_room_that_it_changes_once() {
    let mut registry = Registry::new();
    let mut logs = LogStore::new();
    let empty = create(&mut registry, "empty", "ip-a").0.unwrap();
    registry.disconnect(&empty, "host", 1, NOW);
    let busy = create(&mut registry, "busy", "ip-b").0.unwrap();
    for byte in 2..4 {
        let peer = format!("g{byte}");
        let conn = join(&mut registry, &busy, &peer, byte).assigned_conn_id.unwrap();
        registry.disconnect(&busy, &peer, conn, NOW);
    }
    create(&mut registry, "quiet", "ip-c").0.unwrap();
    assert_eq!(sweep(&mut registry, &mut logs, after(301)).changed, 2);
    assert_eq!(registry.room_count(), 2);
}

#[test]
fn saved_rooms_come_back_after_a_restart() {
    let mut registry = Registry::new();
    let handle = create(&mut registry, "s", "ip").0.unwrap();
    let conn = join(&mut registry, &handle, "g", 2).assigned_conn_id.unwrap();
    join(&mut registry, &handle, "h", 3);
    registry.disconnect(&handle, "g", conn, NOW);
    let saved = StateSnapshotDto::new(registry.build_snapshot(after(10)));

    let later = Now { wall: after(100).wall, mono: Monotonic { secs: 7, nanos: 0 } };
    let restored = load_snapshot(Some(saved), later);
    assert_eq!(restored.len(), 1);
    assert_eq!(restored[0].session_id, "s");
    assert_eq!(restored[0].created_at, NOW.wall);
    assert_eq!(restored[0].reservations.len(), 2);
    let g = restored[0].reservations.get("g").unwrap();
    assert_eq!(g.absent_since, Some(Monotonic { secs: 7 - 100, nanos: 0 }));
    assert!(restored[0].reservations.get("h").unwrap().absent_since.is_none());

    let mut registry = Registry::new();
    registry.restore(restored);
    assert_eq!(registry.room_count(), 1);
    let handle = registry.get("s").unwrap();
    assert!(registry.can_admit("s"));
    // The guest has its identity back with its token, and nobody else has.
    assert_eq!(code(&join(&mut registry, &handle, "h", 9)), Some(error_code::PEER_ID_UNAVAILABLE));
    assert_eq!(join(&mut registry, &handle, "h", 3).assigned_conn_id, Some(1));
    // So has the host.
    let (again, effects) = registry.create("s", "host", &token(1), "ip", admission("host"), later);
    assert_eq!(again.unwrap().id, handle.id);
    assert_eq!(effects.assigned_conn_id, Some(2));
}

#[test]
fn closing_room_is_not_saved() {
    let mut registry = Registry::new();
    let handle = create(&mut registry, "s", "ip").0.unwrap();
    create(&mut registry, "t", "ip");
    assert!(registry.begin_end_session(&handle, "host", 1, &token(1), 2).is_ok());
    let saved = registry.build_snapshot(NOW);
    assert_eq!(saved.len(), 1);
    assert_eq!(saved[0].session_id, "t");
}
