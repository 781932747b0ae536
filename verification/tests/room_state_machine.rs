use base64::engine::general_purpose::URL_SAFE_NO_PAD;
use base64::Engine;
use relay_rs::clock::{Monotonic, Now, WallTime};
use relay_rs::ids::Verifier;
use relay_rs::protocol::{
    error_code, server_type, ClientMessage, ServerMessage, MAX_ROOM_SIZE, RECONNECT_TOKEN_BYTES,
};
use relay_rs::registry::Registry;
use relay_rs::room::{Admission, RoomState};
use tokio::sync::mpsc;

const NOW: Now = Now {
    wall: WallTime { secs: 1_700_000_000, nanos: 0 },
    mono: Monotonic { secs: 5_000, nanos: 0 },
};

fn after(secs: i64) -> Now {
    Now {
        wall: WallTime { secs: NOW.wall.secs + secs, nanos: 0 },
        mono: Monotonic { secs: NOW.mono.secs + secs, nanos: 0 },
    }
}

fn token(byte: u8) -> String {
    URL_SAFE_NO_PAD.encode([byte; RECONNECT_TOKEN_BYTES])
}

fn admission(peer_id: &str) -> (Admission, mpsc::Receiver<ServerMessage>) {
    let (tx, rx) = mpsc::channel(8);
    (
        Admission {
            peer_id: peer_id.to_string(),
            tx,
            sync_protocol_version: 0,
            host_transfer_capable: false,
        },
        rx,
    )
}

fn capable_admission(peer_id: &str, sync_version: i32) -> (Admission, mpsc::Receiver<ServerMessage>) {
    let (tx, rx) = mpsc::channel(8);
    (
        Admission {
            peer_id: peer_id.to_string(),
            tx,
            sync_protocol_version: sync_version,
            host_transfer_capable: true,
        },
        rx,
    )
}

fn client_msg(
    msg_type: &str,
    session_id: &str,
    peer_id: &str,
    reconnect_token: &str,
    protocol_version: u32,
) -> ClientMessage {
    ClientMessage {
        msg_type: msg_type.to_string(),
        session_id: session_id.to_string(),
        peer_id: peer_id.to_string(),
        reconnect_token: reconnect_token.to_string(),
        protocol_version,
        ..Default::default()
    }
}

/// A fresh room with a connected host, and the host's connection id.
fn new_room(session_id: &str, host_peer_id: &str, host_token: &str) -> (RoomState, u64) {
    let (host, _rx) = admission(host_peer_id);
    let verifier = Verifier::from_token(host_token).expect("valid token");
    let (state, effects) = RoomState::new_room(
        session_id.to_string(),
        host_peer_id.to_string(),
        verifier,
        host_token.to_string(),
        "owner-ip".to_string(),
        host,
        NOW,
    );
    (state, effects.assigned_conn_id.expect("host gets a conn id"))
}

fn error_code_of(msg: &Option<ServerMessage>) -> Option<&str> {
    msg.as_ref().and_then(|m| m.code.as_deref())
}

// A repeated `create` by the host.

#[test]
fn reconnect_host_reannounces_previously_absent_host() {
    let (mut state, host_conn_id) = new_room("room1", "host1", &token(1));

    let (g1, mut g1_rx) = admission("g1");
    let join = client_msg("join", "room1", "g1", &token(2), 2);
    let effects = state.join_or_resume(&join, g1, false, NOW);
    assert_eq!(effects.reply.unwrap().msg_type, server_type::JOINED);
    drop(g1_rx.try_recv());

    // The host goes away; the room stays.
    let disconnect_effects = state.handle_disconnect("host1", host_conn_id, NOW);
    assert!(!state.peers.contains_key("host1"));
    assert_eq!(disconnect_effects.broadcast.len(), 1);
    assert_eq!(disconnect_effects.broadcast[0].msg.msg_type, server_type::PEER_LEFT);

    // The host was absent, so it is announced again and nobody is evicted.
    let (host2, _host2_rx) = admission("host1");
    let effects = state.reconnect_host(host2, token(1), NOW);
    let reply = effects.reply.expect("created reply");
    assert_eq!(reply.msg_type, server_type::CREATED);
    assert_eq!(reply.peers, Some(vec!["g1".to_string()]));
    assert!(effects.evict.is_empty(), "no prior live host connection to evict");
    assert_eq!(effects.broadcast.len(), 1, "g1 should hear the host rejoined");
    assert_eq!(effects.broadcast[0].msg.msg_type, server_type::PEER_JOINED);
    assert_eq!(effects.broadcast[0].msg.peer_id, Some("host1".to_string()));

    let new_conn_id = effects.assigned_conn_id.expect("fresh conn id");
    assert_ne!(new_conn_id, host_conn_id);

    let _ = g1_rx.try_recv();
}

#[test]
fn reconnect_host_while_still_connected_evicts_the_old_connection() {
    let (mut state, host_conn_id) = new_room("room1", "host1", &token(1));

    let (host2, _host2_rx) = admission("host1");
    let effects = state.reconnect_host(host2, token(1), NOW);
    assert_eq!(effects.reply.unwrap().msg_type, server_type::CREATED);
    // The host never left, so it is not announced again...
    assert!(effects.broadcast.is_empty());
    // ...but the stale connection is evicted.
    assert_eq!(effects.evict.len(), 1);
    let new_conn_id = effects.assigned_conn_id.unwrap();
    assert_ne!(new_conn_id, host_conn_id);
}

// `create`: the same room again, a room that makes way, or one in the way.

#[test]
fn create_rejects_duplicate_session_as_room_exists() {
    let mut registry = Registry::new();
    let (host1, _rx1) = admission("host1");
    let (room, _effects) = registry.create("room1", "host1", &token(1), "ip-a", host1, NOW);
    assert!(room.is_some());

    // Another host for the same session, which is still occupied.
    let (host2, _rx2) = admission("host2");
    let (room2, effects2) = registry.create("room1", "host2", &token(2), "ip-b", host2, NOW);
    assert!(room2.is_none());
    assert_eq!(error_code_of(&effects2.reply), Some(error_code::ROOM_EXISTS));
}

#[test]
fn create_is_idempotent_for_matching_host_and_token() {
    let mut registry = Registry::new();
    let (host1, _rx1) = admission("host1");
    let (room, _effects) = registry.create("room1", "host1", &token(1), "ip-a", host1, NOW);
    let room = room.expect("created");

    // The same session, host and token: the same room, the old connection
    // evicted.
    let (host1_again, _rx2) = admission("host1");
    let (room2, effects2) = registry.create("room1", "host1", &token(1), "ip-a", host1_again, NOW);
    let room2 = room2.expect("idempotent recreate succeeds");
    assert!(
        room.id == room2.id && room.session_id == room2.session_id,
        "idempotent create reuses the same room"
    );
    assert_eq!(effects2.reply.unwrap().msg_type, server_type::CREATED);
    assert_eq!(effects2.evict.len(), 1, "old connection under host1 is evicted");
    assert_eq!(registry.room_count(), 1);
}

#[test]
fn create_reclaims_abandoned_empty_room_with_a_fresh_room() {
    let mut registry = Registry::new();
    let (host1, _rx1) = admission("host1");
    let (room, effects) = registry.create("room1", "host1", &token(1), "ip-a", host1, NOW);
    let room = room.expect("created");
    let host_conn_id = effects.assigned_conn_id.expect("conn id");

    // The host goes away: the room is empty but still there.
    registry.disconnect(&room, "host1", host_conn_id, NOW);
    assert_eq!(registry.room_count(), 1);

    // Another host for the same session: the empty room makes way.
    let (host2, _rx2) = admission("host2");
    let (room2, effects2) = registry.create("room1", "host2", &token(2), "ip-b", host2, NOW);
    let room2 = room2.expect("reclaim succeeds");
    assert!(room.id != room2.id, "reclaim allocates a fresh room, not the old one");
    assert_eq!(effects2.reply.unwrap().msg_type, server_type::CREATED);
    assert_eq!(registry.room_count(), 1, "old room was evicted, new one took its slot");
}

// A guest that comes back, within the grace period of five minutes and past it.

fn backdated(secs: i64) -> Monotonic {
    Monotonic { secs: NOW.mono.secs - secs, nanos: 0 }
}

#[test]
fn resume_within_grace_window_succeeds() {
    let (mut state, _host_conn_id) = new_room("room1", "host1", &token(1));

    let (g1, _g1_rx) = admission("g1");
    let join = client_msg("join", "room1", "g1", &token(2), 2);
    let effects = state.join_or_resume(&join, g1, false, NOW);
    let g1_conn_id = effects.assigned_conn_id.expect("conn id");

    state.handle_disconnect("g1", g1_conn_id, NOW);
    state.reservations.get_mut("g1").unwrap().absent_since = Some(backdated(60));

    let (g1_again, _rx) = admission("g1");
    let resume = client_msg("resume", "room1", "g1", &token(2), 2);
    let effects = state.join_or_resume(&resume, g1_again, true, NOW);
    let reply = effects.reply.expect("resumed reply");
    assert_eq!(reply.msg_type, server_type::RESUMED);
    assert_eq!(reply.peers, Some(vec!["host1".to_string()]));
}

#[test]
fn resume_past_grace_window_is_rejected() {
    let (mut state, _host_conn_id) = new_room("room1", "host1", &token(1));

    let (g1, _g1_rx) = admission("g1");
    let join = client_msg("join", "room1", "g1", &token(2), 2);
    let effects = state.join_or_resume(&join, g1, false, NOW);
    let g1_conn_id = effects.assigned_conn_id.expect("conn id");

    state.handle_disconnect("g1", g1_conn_id, NOW);
    state.reservations.get_mut("g1").unwrap().absent_since = Some(backdated(6 * 60));

    let (g1_again, _rx) = admission("g1");
    let resume = client_msg("resume", "room1", "g1", &token(2), 2);
    let effects = state.join_or_resume(&resume, g1_again, true, NOW);
    assert_eq!(error_code_of(&effects.reply), Some(error_code::PEER_ID_UNAVAILABLE));
    // The expired reservation is gone, not just refused.
    assert!(!state.reservations.contains_key("g1"));
}

// Host transfer.

#[test]
fn transfer_host_moves_authority_and_rebroadcasts_eligibility() {
    let (host, _host_rx) = capable_admission("host1", 5);
    let verifier = Verifier::from_token(&token(1)).unwrap();
    let (mut state, effects) = RoomState::new_room(
        "room1".to_string(),
        "host1".to_string(),
        verifier,
        token(1),
        "owner-ip".to_string(),
        host,
        NOW,
    );
    let host_conn_id = effects.assigned_conn_id.unwrap();

    let (g1, _g1_rx) = capable_admission("g1", 5);
    let join = client_msg("join", "room1", "g1", &token(2), 2);
    state.join_or_resume(&join, g1, false, NOW);

    let effects = state.transfer_host("host1", host_conn_id, 2, "g1");
    assert!(effects.dirty);

    let host_changed: Vec<_> =
        effects.broadcast.iter().filter(|o| o.msg.msg_type == server_type::HOST_CHANGED).collect();
    assert_eq!(host_changed.len(), 2, "both connected peers hear hostChanged");
    for outbound in &host_changed {
        assert_eq!(outbound.msg.host_peer_id, Some("g1".to_string()));
        assert_eq!(outbound.msg.from, Some("host1".to_string()));
    }

    let eligibility: Vec<_> = effects
        .broadcast
        .iter()
        .filter(|o| o.msg.msg_type == server_type::HOST_TRANSFER_ELIGIBILITY)
        .collect();
    assert_eq!(eligibility.len(), 2, "both capable peers get the recomputed eligibility");
    for outbound in &eligibility {
        assert_eq!(outbound.msg.host_peer_id, Some("g1".to_string()));
        assert_eq!(outbound.msg.host_transfer_targets, Some(vec!["host1".to_string()]));
    }

    assert_eq!(state.host_peer_id, "g1");
    assert!(state.host_verifier.matches(&Verifier::from_token(&token(2)).unwrap()));
    // The old host becomes a reserved guest that may take over again.
    let old_host_reservation = state.reservations.get("host1").expect("old host reservation retained");
    assert!(old_host_reservation.verifier.matches(&Verifier::from_token(&token(1)).unwrap()));
}

// `leave` in two phases.

#[test]
fn leave_commits_on_persist_success() {
    let (mut state, _host_conn_id) = new_room("room1", "host1", &token(1));
    let (g1, _g1_rx) = admission("g1");
    let join = client_msg("join", "room1", "g1", &token(2), 2);
    let effects = state.join_or_resume(&join, g1, false, NOW);
    let g1_conn_id = effects.assigned_conn_id.unwrap();

    state.begin_leave("g1", g1_conn_id, &token(2), 2).unwrap_or_else(|_| panic!("not authorized"));
    assert!(state.reservations.get("g1").unwrap().release_pending);

    let effects = state.finish_leave("g1", g1_conn_id, true, NOW.wall);
    let reply = effects.reply.expect("left reply");
    assert_eq!(reply.msg_type, server_type::LEFT);
    assert_eq!(reply.peer_id, Some("g1".to_string()));
    assert!(!state.peers.contains_key("g1"));
    assert!(!state.reservations.contains_key("g1"), "identity fully freed");
    assert_eq!(effects.broadcast.len(), 1);
    assert_eq!(effects.broadcast[0].msg.msg_type, server_type::PEER_LEFT);
}

#[test]
fn leave_rolls_back_on_persist_failure() {
    let (mut state, _host_conn_id) = new_room("room1", "host1", &token(1));
    let (g1, _g1_rx) = admission("g1");
    let join = client_msg("join", "room1", "g1", &token(2), 2);
    let effects = state.join_or_resume(&join, g1, false, NOW);
    let g1_conn_id = effects.assigned_conn_id.unwrap();

    state.begin_leave("g1", g1_conn_id, &token(2), 2).unwrap_or_else(|_| panic!("not authorized"));

    let effects = state.finish_leave("g1", g1_conn_id, false, NOW.wall);
    assert_eq!(error_code_of(&effects.reply), Some(error_code::INVALID_MESSAGE));
    // g1 is a member as before, not half-freed.
    assert!(!state.reservations.get("g1").unwrap().release_pending);
    assert!(state.peers.contains_key("g1"));
    assert!(state.reservations.contains_key("g1"));
}

#[test]
fn begin_leave_rejects_host_and_stale_connections() {
    let (mut state, host_conn_id) = new_room("room1", "host1", &token(1));
    // The host may never leave this way; it ends the session.
    assert!(state.begin_leave("host1", host_conn_id, &token(1), 2).is_err());

    let (g1, _g1_rx) = admission("g1");
    let join = client_msg("join", "room1", "g1", &token(2), 2);
    let effects = state.join_or_resume(&join, g1, false, NOW);
    let g1_conn_id = effects.assigned_conn_id.unwrap();

    // A connection that was replaced.
    assert!(state.begin_leave("g1", g1_conn_id + 1, &token(2), 2).is_err());
    // Another token.
    assert!(state.begin_leave("g1", g1_conn_id, &token(99), 2).is_err());
}

// `endSession` in two phases.

#[test]
fn end_session_commits_and_notifies_guests_on_persist_success() {
    let (mut state, host_conn_id) = new_room("room1", "host1", &token(1));
    let (g1, _g1_rx) = admission("g1");
    let join = client_msg("join", "room1", "g1", &token(2), 2);
    state.join_or_resume(&join, g1, false, NOW);

    let (owner_ip, guests) = state
        .begin_end_session("host1", host_conn_id, &token(1), 2)
        .unwrap_or_else(|_| panic!("not authorized"));
    assert_eq!(owner_ip, "owner-ip");
    assert_eq!(guests.len(), 1, "only g1 is a guest to notify");
    assert!(state.closing);

    let effects = state.finish_end_session(guests, true);
    let reply = effects.reply.expect("ended reply");
    assert_eq!(reply.msg_type, server_type::ENDED);
    assert_eq!(effects.broadcast.len(), 1);
    assert_eq!(effects.broadcast[0].msg.msg_type, server_type::ENDED);
    assert_eq!(effects.evict.len(), 2, "both host and guest connections are evicted");
    assert!(state.peers.is_empty());
    assert!(state.reservations.is_empty());
}

#[test]
fn end_session_persist_failure_tears_down_without_ended_message() {
    let (mut state, host_conn_id) = new_room("room1", "host1", &token(1));
    let (g1, _g1_rx) = admission("g1");
    let join = client_msg("join", "room1", "g1", &token(2), 2);
    state.join_or_resume(&join, g1, false, NOW);

    let (_owner_ip, guests) = state
        .begin_end_session("host1", host_conn_id, &token(1), 2)
        .unwrap_or_else(|_| panic!("not authorized"));
    let effects = state.finish_end_session(guests, false);

    assert_eq!(error_code_of(&effects.reply), Some(error_code::INVALID_MESSAGE));
    assert!(effects.broadcast.is_empty(), "no ended message goes out on persist failure");
    assert_eq!(effects.evict.len(), 2, "still torn down even though persistence failed");
    assert!(state.peers.is_empty());
    assert!(state.reservations.is_empty());
}

#[test]
fn begin_end_session_rejects_non_host() {
    let (mut state, _host_conn_id) = new_room("room1", "host1", &token(1));
    let (g1, _g1_rx) = admission("g1");
    let join = client_msg("join", "room1", "g1", &token(2), 2);
    let effects = state.join_or_resume(&join, g1, false, NOW);
    let g1_conn_id = effects.assigned_conn_id.unwrap();

    assert!(state.begin_end_session("g1", g1_conn_id, &token(2), 2).is_err());
}

// Further cases.

/// Lets a guest in and returns its connection id.
fn join(state: &mut RoomState, peer_id: &str, byte: u8, now: Now) -> Option<u64> {
    let (guest, _rx) = admission(peer_id);
    let msg = client_msg("join", "room1", peer_id, &token(byte), 2);
    state.join_or_resume(&msg, guest, false, now).assigned_conn_id
}

#[test]
fn guest_loses_its_identity_exactly_at_the_end_of_the_grace_period() {
    let (mut state, _) = new_room("room1", "host1", &token(1));
    let conn_id = join(&mut state, "g1", 2, NOW).unwrap();
    state.handle_disconnect("g1", conn_id, NOW);
    let resume = client_msg("resume", "room1", "g1", &token(2), 2);

    let (again, _rx) = admission("g1");
    let effects = state.join_or_resume(&resume, again, true, after(299));
    assert_eq!(effects.reply.unwrap().msg_type, server_type::RESUMED);

    state.handle_disconnect("g1", effects.assigned_conn_id.unwrap(), after(300));
    let (again, _rx) = admission("g1");
    let effects = state.join_or_resume(&resume, again, true, after(600));
    assert_eq!(error_code_of(&effects.reply), Some(error_code::PEER_ID_UNAVAILABLE));
}

#[test]
fn host_returns_after_any_time() {
    let (mut state, conn_id) = new_room("room1", "host1", &token(1));
    state.handle_disconnect("host1", conn_id, NOW);
    let (host, _rx) = admission("host1");
    let resume = client_msg("resume", "room1", "host1", &token(1), 2);
    let effects = state.join_or_resume(&resume, host, true, after(80_000));
    assert_eq!(effects.reply.unwrap().msg_type, server_type::RESUMED);
    let (thief, _rx) = admission("host1");
    let forged = client_msg("join", "room1", "host1", &token(9), 2);
    let effects = state.join_or_resume(&forged, thief, false, after(80_001));
    assert_eq!(error_code_of(&effects.reply), Some(error_code::PEER_ID_UNAVAILABLE));
}

#[test]
fn identity_is_not_taken_over_with_another_token() {
    let (mut state, _) = new_room("room1", "host1", &token(1));
    let conn_id = join(&mut state, "g1", 2, NOW).unwrap();
    assert!(join(&mut state, "g1", 3, NOW).is_none());
    assert_eq!(state.peers.get("g1").unwrap().conn_id, conn_id);
    // With its own token it is, and the connection before is evicted.
    let (again, _rx) = admission("g1");
    let msg = client_msg("join", "room1", "g1", &token(2), 2);
    let effects = state.join_or_resume(&msg, again, false, NOW);
    assert_eq!(effects.evict.len(), 1);
    assert_eq!(effects.assigned_conn_id, Some(conn_id + 1));
    assert_eq!(effects.reply.unwrap().reconnect_token, Some(token(2)));
    // A token of the wrong form makes no identity.
    let (other, _rx) = admission("g2");
    let msg = client_msg("join", "room1", "g2", "short", 2);
    let effects = state.join_or_resume(&msg, other, false, NOW);
    assert_eq!(error_code_of(&effects.reply), Some(error_code::PEER_ID_UNAVAILABLE));
}

#[test]
fn room_is_full_with_eight_identities() {
    let (mut state, _) = new_room("room1", "host1", &token(1));
    for n in 0..MAX_ROOM_SIZE - 1 {
        assert!(join(&mut state, &format!("g{n}"), 10 + n as u8, NOW).is_some());
    }
    assert_eq!(state.connected_peer_count(), MAX_ROOM_SIZE);
    let (late, _rx) = admission("late");
    let msg = client_msg("join", "room1", "late", &token(40), 2);
    let effects = state.join_or_resume(&msg, late, false, NOW);
    assert_eq!(error_code_of(&effects.reply), Some(error_code::ROOM_FULL));
    // A guest that is away keeps its place until its grace period is over.
    let gone = state.peers.get("g0").unwrap().conn_id;
    state.handle_disconnect("g0", gone, NOW);
    assert!(join(&mut state, "late", 40, after(299)).is_none());
    assert!(join(&mut state, "late", 40, after(300)).is_some());
}

#[test]
fn identity_being_released_can_neither_be_joined_nor_resumed() {
    let (mut state, _) = new_room("room1", "host1", &token(1));
    let conn_id = join(&mut state, "g1", 2, NOW).unwrap();
    assert!(state.begin_leave("g1", conn_id, &token(2), 2).is_ok());
    assert!(join(&mut state, "g1", 2, NOW).is_none());
    assert!(state.begin_leave("g1", conn_id, &token(2), 2).is_err());
    // Once it is released anybody may have it.
    state.finish_leave("g1", conn_id, true, NOW.wall);
    assert!(join(&mut state, "g1", 7, NOW).is_some());
}

#[test]
fn saved_leave_frees_the_identity_though_its_connection_went_away() {
    let (mut state, _) = new_room("room1", "host1", &token(1));
    let conn_id = join(&mut state, "g1", 2, NOW).unwrap();
    assert!(state.begin_leave("g1", conn_id, &token(2), 2).is_ok());
    state.handle_disconnect("g1", conn_id, NOW);
    // The identity is barred until the leave has ended.
    assert!(join(&mut state, "g1", 2, NOW).is_none());
    let effects = state.finish_leave("g1", conn_id, true, NOW.wall);
    // The others heard of it when the connection went away.
    assert!(effects.reply.is_none() && effects.broadcast.is_empty() && effects.evict.is_empty());
    assert!(effects.dirty);
    assert!(!state.reservations.contains_key("g1"));
    // Anyone may take the identity now.
    assert!(join(&mut state, "g1", 3, NOW).is_some());
}

#[test]
fn failed_leave_is_undone_though_its_connection_went_away() {
    let (mut state, _) = new_room("room1", "host1", &token(1));
    let conn_id = join(&mut state, "g1", 2, NOW).unwrap();
    assert!(state.begin_leave("g1", conn_id, &token(2), 2).is_ok());
    state.handle_disconnect("g1", conn_id, NOW);
    let effects = state.finish_leave("g1", conn_id, false, NOW.wall);
    assert!(effects.reply.is_none() && effects.broadcast.is_empty() && effects.dirty);
    let held = state.reservations.get("g1").unwrap();
    assert!(!held.release_pending);
    assert_eq!(held.absent_since, Some(NOW.mono));
    assert!(join(&mut state, "g1", 3, NOW).is_none());
    assert!(join(&mut state, "g1", 2, NOW).is_some());
}

#[test]
fn leave_does_not_end_that_of_a_later_connection() {
    let (mut state, _) = new_room("room1", "host1", &token(1));
    let first = join(&mut state, "g1", 2, NOW).unwrap();
    let second = join(&mut state, "g1", 2, NOW).unwrap();
    assert!(state.begin_leave("g1", second, &token(2), 2).is_ok());
    let effects = state.finish_leave("g1", first, true, NOW.wall);
    assert!(effects.reply.is_none() && !effects.dirty);
    assert!(state.reservations.get("g1").unwrap().release_pending);
    assert!(state.peers.contains_key("g1"));
}

#[test]
fn payload_goes_to_every_other_peer() {
    let (mut state, host_conn) = new_room("room1", "host1", &token(1));
    join(&mut state, "g1", 2, NOW);
    join(&mut state, "g2", 3, NOW);
    let effects = state.broadcast("host1", host_conn, Some("{\"a\":1}".to_string()), after(5).wall);
    assert_eq!(effects.broadcast.len(), 2);
    for o in &effects.broadcast {
        assert_eq!(o.msg.msg_type, server_type::MESSAGE);
        assert_eq!(o.msg.from, Some("host1".to_string()));
        assert_eq!(o.msg.payload, Some("{\"a\":1}".to_string()));
    }
    assert!(!effects.dirty);
    assert_eq!(state.last_activity_at, after(5).wall);
    assert_eq!(state.idle_for(after(7).wall), 2_000_000_000);
    assert_eq!(state.age(after(7).wall), 7_000_000_000);
    assert_eq!(state.age(after(-7).wall), 0);
}

#[test]
fn payload_goes_to_the_target_alone() {
    let (mut state, host_conn) = new_room("room1", "host1", &token(1));
    let (g1, mut rx1) = admission("g1");
    let msg = client_msg("join", "room1", "g1", &token(2), 2);
    state.join_or_resume(&msg, g1, false, NOW);
    join(&mut state, "g2", 3, NOW);
    let mut effects = state.send_to("host1", host_conn, "g1", Some("1".to_string()), NOW.wall);
    assert_eq!(effects.broadcast.len(), 1);
    let out = effects.broadcast.remove(0);
    assert!(out.tx.try_send(out.msg).is_ok());
    assert_eq!(rx1.try_recv().unwrap().payload, Some("1".to_string()));
    let effects = state.send_to("host1", host_conn, "nobody", None, NOW.wall);
    assert_eq!(error_code_of(&effects.reply), Some(error_code::NOT_IN_ROOM));
}

#[test]
fn stale_connection_is_ignored() {
    let (mut state, old) = new_room("room1", "host1", &token(1));
    let (host2, _rx) = admission("host1");
    state.reconnect_host(host2, token(1), NOW);
    join(&mut state, "g1", 2, NOW);
    assert!(state.broadcast("host1", old, None, NOW.wall).broadcast.is_empty());
    assert!(state.send_to("host1", old, "g1", None, NOW.wall).broadcast.is_empty());
    assert!(!state.handle_disconnect("host1", old, NOW).dirty);
    assert!(state.peers.contains_key("host1"));
    let effects = state.transfer_host("host1", old, 2, "g1");
    assert_eq!(error_code_of(&effects.reply), Some(error_code::PEER_ID_UNAVAILABLE));
    assert!(state.begin_end_session("host1", old, &token(1), 2).is_err());
}

#[test]
fn closing_room_is_as_good_as_none() {
    let (mut state, host_conn) = new_room("room1", "host1", &token(1));
    assert!(state.begin_end_session("host1", host_conn, &token(1), 2).is_ok());
    let (late, _rx) = admission("late");
    let msg = client_msg("join", "room1", "late", &token(4), 2);
    let effects = state.join_or_resume(&msg, late, false, NOW);
    assert_eq!(error_code_of(&effects.reply), Some(error_code::ROOM_NOT_FOUND));
    assert!(state.broadcast("host1", host_conn, None, NOW.wall).broadcast.is_empty());
    assert!(!state.is_reclaimable());
    assert!(state.begin_end_session("host1", host_conn, &token(1), 2).is_err());
}

/// A room with a capable host and two capable guests.
fn capable_room() -> (RoomState, u64) {
    let (host, _rx) = capable_admission("host1", 5);
    let verifier = Verifier::from_token(&token(1)).unwrap();
    let (mut state, effects) = RoomState::new_room(
        "room1".to_string(),
        "host1".to_string(),
        verifier,
        token(1),
        "owner-ip".to_string(),
        host,
        NOW,
    );
    for (id, byte) in [("g1", 2), ("g2", 3)] {
        let (guest, _rx) = capable_admission(id, 5);
        let msg = client_msg("join", "room1", id, &token(byte), 2);
        state.join_or_resume(&msg, guest, false, NOW);
    }
    (state, effects.assigned_conn_id.unwrap())
}

#[test]
fn transfer_there_and_back_restores_the_room() {
    let (mut state, host_conn) = capable_room();
    assert!(state.transfer_host("host1", host_conn, 2, "g1").reply.is_none());
    let g1_conn = state.peers.get("g1").unwrap().conn_id;
    assert!(!state.reservations.contains_key("g1"));
    assert!(state.transfer_host("g1", g1_conn, 2, "host1").reply.is_none());
    assert_eq!(state.host_peer_id, "host1");
    assert!(state.host_verifier.matches(&Verifier::from_token(&token(1)).unwrap()));
    assert!(!state.reservations.contains_key("host1"));
    let g1 = state.reservations.get("g1").unwrap();
    assert!(g1.verifier.matches(&Verifier::from_token(&token(2)).unwrap()));
    assert!(g1.absent_since.is_none() && !g1.release_pending);
}

#[test]
fn transfer_is_refused_with_its_reason() {
    let (mut state, host_conn) = capable_room();
    let g1_conn = state.peers.get("g1").unwrap().conn_id;
    let refused = |effects: relay_rs::room::Effects| effects.reply.unwrap().code.unwrap();
    assert_eq!(refused(state.transfer_host("host1", host_conn, 1, "g1")), error_code::PEER_ID_UNAVAILABLE);
    assert_eq!(refused(state.transfer_host("g1", g1_conn, 2, "g2")), error_code::NOT_HOST);
    assert_eq!(refused(state.transfer_host("host1", host_conn, 2, "nobody")), error_code::PEER_NOT_FOUND);
    assert_eq!(refused(state.transfer_host("host1", host_conn, 2, "host1")), error_code::PEER_NOT_FOUND);
    assert_eq!(refused(state.transfer_host("host1", host_conn, 2, "no such id")), error_code::PEER_NOT_FOUND);
    // A guest that cannot follow keeps everybody from taking over.
    let (late, _rx) = admission("late");
    let msg = client_msg("join", "room1", "late", &token(8), 2);
    let effects = state.join_or_resume(&msg, late, false, NOW);
    for o in &effects.broadcast {
        if o.msg.msg_type == server_type::HOST_TRANSFER_ELIGIBILITY {
            assert_eq!(o.msg.host_transfer_targets, Some(Vec::new()));
        }
    }
    assert_eq!(
        refused(state.transfer_host("host1", host_conn, 2, "g1")),
        error_code::HOST_TRANSFER_UNAVAILABLE
    );
}

#[test]
fn created_reply_announces_the_room() {
    let (host, _rx) = capable_admission("host1", 5);
    let verifier = Verifier::from_token(&token(1)).unwrap();
    let (state, effects) = RoomState::new_room(
        "room1".to_string(),
        "host1".to_string(),
        verifier,
        token(1),
        "owner-ip".to_string(),
        host,
        NOW,
    );
    let reply = effects.reply.unwrap();
    assert_eq!(reply.session_id, Some("room1".to_string()));
    assert_eq!(reply.protocol_version, 2);
    assert_eq!(reply.features.unwrap().len(), 2);
    assert!(reply.peers.is_none() && reply.reconnect_token.is_none());
    // A capable host alone is told that there is no target.
    assert_eq!(effects.broadcast.len(), 1);
    assert_eq!(effects.broadcast[0].msg.host_transfer_targets, Some(Vec::new()));
    assert!(effects.dirty);
    assert_eq!(state.next_conn_id, 2);
}

#[test]
fn connected_guest_is_never_forgotten() {
    let (mut state, _) = new_room("room1", "host1", &token(1));
    let g1 = join(&mut state, "g1", 2, NOW).unwrap();
    join(&mut state, "g2", 3, NOW);
    state.handle_disconnect("g1", g1, NOW);
    assert!(!state.prune_expired_reservations(after(299)));
    assert!(state.prune_expired_reservations(after(300)));
    assert!(!state.reservations.contains_key("g1"));
    assert!(!state.prune_expired_reservations(after(80_000)));
    assert!(state.reservations.contains_key("g2"));
}
