use base64::engine::general_purpose::URL_SAFE_NO_PAD;
use base64::Engine;
use relay_rs::client_ip::{parse_address, IpAddress};
use relay_rs::clock::{Monotonic, Now, WallTime};
use relay_rs::connection::{on_frame, protocol_mismatch, Connection, Frame, FrameStep, Pending, Step};
use relay_rs::protocol::{ClientMessage, ServerMessage, MAX_MESSAGE_SIZE};
use relay_rs::quotas::{
    ConnectionQuota, IpRateLimiter, CONNECT_ATTEMPT_BURST, CONNECT_ATTEMPT_SUSTAINED,
    MAX_CONNS_PER_IP,
};
use relay_rs::registry::Registry;
use relay_rs::room::Effects;
use relay_rs::ws::{decide_upgrade, ws_handler};
use tokio::sync::mpsc;

fn at(secs: i64) -> Now {
    Now {
        wall: WallTime { secs: 1_700_000_000 + secs, nanos: 0 },
        mono: Monotonic { secs: 5_000 + secs, nanos: 0 },
    }
}

fn token(byte: u8) -> String {
    URL_SAFE_NO_PAD.encode([byte; 32])
}

/// A client and what it received.
struct Client {
    connection: Connection,
    tx: mpsc::Sender<ServerMessage>,
    rx: mpsc::Receiver<ServerMessage>,
}

impl Client {
    fn new() -> Self {
        let (tx, rx) = mpsc::channel(64);
        Client { connection: Connection::new(), tx, rx }
    }

    fn send(&mut self, registry: &mut Registry, msg: ClientMessage, now: Now) {
        self.send_with(registry, msg, true, now);
    }

    /// Sends a message; `persisted` says how a snapshot goes that it waits for.
    fn send_with(&mut self, registry: &mut Registry, msg: ClientMessage, persisted: bool, now: Now) {
        assert!(registry.can_admit(&msg.session_id));
        let effects = match self.connection.handle_message(registry, msg, &self.tx, "127.0.0.1", now) {
            Step::Done(effects) => effects,
            Step::Persist(pending) => self.connection.resume(registry, pending, persisted, now),
        };
        apply(&self.tx, effects);
    }

    fn recv(&mut self) -> ServerMessage {
        self.rx.try_recv().expect("a message")
    }

    fn code(&mut self) -> String {
        self.recv().code.expect("an error")
    }

    fn close(&mut self, registry: &mut Registry, now: Now) {
        let effects = self.connection.close(registry, now);
        apply(&self.tx, effects);
    }
}

fn apply(tx: &mpsc::Sender<ServerMessage>, effects: Effects) {
    if let Some(reply) = effects.reply {
        tx.try_send(reply).ok();
    }
    for outbound in effects.broadcast {
        outbound.tx.try_send(outbound.msg).ok();
    }
    for eviction in effects.evict {
        eviction.cancel.cancel();
    }
}

fn msg(msg_type: &str, session: &str, peer: &str, byte: u8) -> ClientMessage {
    ClientMessage {
        msg_type: msg_type.to_string(),
        session_id: session.to_string(),
        peer_id: peer.to_string(),
        reconnect_token: token(byte),
        protocol_version: 2,
        ..Default::default()
    }
}

fn payload(msg_type: &str, to: &str, text: &str) -> ClientMessage {
    ClientMessage {
        msg_type: msg_type.to_string(),
        to: to.to_string(),
        payload: Some(text.to_string()),
        ..Default::default()
    }
}

#[test]
fn create_join_broadcast_sendto_leave_end_session_flow() {
    let mut registry = Registry::new();

    let mut host = Client::new();
    host.send(&mut registry, msg("create", "int-room-1", "host1", 1), at(0));
    let created = host.recv();
    assert_eq!(created.msg_type, "created");
    assert_eq!(created.host_peer_id, Some("host1".to_string()));

    let mut guest = Client::new();
    guest.send(&mut registry, msg("join", "int-room-1", "g1", 2), at(1));
    let joined = guest.recv();
    assert_eq!(joined.msg_type, "joined");
    assert_eq!(joined.host_peer_id, Some("host1".to_string()));

    let peer_joined = host.recv();
    assert_eq!(peer_joined.msg_type, "peerJoined");
    assert_eq!(peer_joined.peer_id, Some("g1".to_string()));

    host.send(&mut registry, payload("broadcast", "", "{\"hello\":\"world\"}"), at(2));
    let broadcast = guest.recv();
    assert_eq!(broadcast.msg_type, "message");
    assert_eq!(broadcast.from, Some("host1".to_string()));
    assert_eq!(broadcast.payload, Some("{\"hello\":\"world\"}".to_string()));

    guest.send(&mut registry, payload("sendTo", "host1", "{\"ack\":true}"), at(3));
    let direct = host.recv();
    assert_eq!(direct.msg_type, "message");
    assert_eq!(direct.from, Some("g1".to_string()));
    assert_eq!(direct.payload, Some("{\"ack\":true}".to_string()));

    guest.send(&mut registry, msg("leave", "", "", 2), at(4));
    let left = guest.recv();
    assert_eq!(left.msg_type, "left");
    assert_eq!(left.peer_id, Some("g1".to_string()));
    let peer_left = host.recv();
    assert_eq!(peer_left.msg_type, "peerLeft");
    assert_eq!(peer_left.peer_id, Some("g1".to_string()));

    host.send(&mut registry, msg("endSession", "", "", 1), at(5));
    let ended = host.recv();
    assert_eq!(ended.msg_type, "ended");
    assert_eq!(ended.session_id, Some("int-room-1".to_string()));
    assert_eq!(registry.room_count(), 0);
}

#[test]
fn guest_resumes_after_abrupt_disconnect() {
    let mut registry = Registry::new();
    let mut host = Client::new();
    host.send(&mut registry, msg("create", "int-room-2", "host1", 1), at(0));
    host.recv();

    let mut guest = Client::new();
    guest.send(&mut registry, msg("join", "int-room-2", "g1", 2), at(1));
    assert_eq!(guest.recv().msg_type, "joined");
    guest.close(&mut registry, at(2));
    assert_eq!(host.recv().msg_type, "peerJoined");
    assert_eq!(host.recv().msg_type, "peerLeft");

    let mut guest2 = Client::new();
    guest2.send(&mut registry, msg("resume", "int-room-2", "g1", 2), at(3));
    let resumed = guest2.recv();
    assert_eq!(resumed.msg_type, "resumed");
    assert_eq!(resumed.peers, Some(vec!["host1".to_string()]));
}

#[test]
fn connection_quota_rejects_beyond_the_per_ip_cap() {
    let mut quota = ConnectionQuota::default();
    let mut limiter = IpRateLimiter::new(100, 100);
    let ip = parse_address("127.0.0.1").unwrap();
    for _ in 0..MAX_CONNS_PER_IP {
        assert_eq!(ws_handler(&mut quota, &mut limiter, Some(ip)).ok(), Some(ip));
    }
    let reply = ws_handler(&mut quota, &mut limiter, Some(ip)).err().unwrap();
    assert_eq!(reply.status, 429);
    assert_eq!(reply.body, "Too many connections");
}

#[test]
fn connect_attempt_rate_limiter_rejects_rapid_reconnects() {
    let mut quota = ConnectionQuota::default();
    let mut limiter = IpRateLimiter::new(CONNECT_ATTEMPT_BURST, CONNECT_ATTEMPT_SUSTAINED);
    let ip = parse_address("127.0.0.1").unwrap();
    for _ in 0..CONNECT_ATTEMPT_BURST {
        assert!(ws_handler(&mut quota, &mut limiter, Some(ip)).is_ok());
        quota.disconnect(ip);
    }
    let reply = ws_handler(&mut quota, &mut limiter, Some(ip)).err().unwrap();
    assert_eq!(reply.status, 429);
    assert_eq!(reply.body, "Too many connection attempts");
}

#[test]
fn upgrade_without_an_address_is_refused() {
    let mut quota = ConnectionQuota::default();
    let mut limiter = IpRateLimiter::new(5, 1);
    let reply = ws_handler(&mut quota, &mut limiter, None).err().unwrap();
    assert_eq!((reply.status, reply.body), (400, "Invalid client address".to_string()));
    let reply = decide_upgrade(&mut quota, IpAddress::V4(1), false).err().unwrap();
    assert_eq!(reply.body, "Too many connection attempts");
    assert!(decide_upgrade(&mut quota, IpAddress::V4(1), true).is_ok());
}

#[test]
fn attempts_count_for_the_address_they_come_from() {
    let mut quota = ConnectionQuota::default();
    let mut limiter = IpRateLimiter::new(1, 1);
    let first = IpAddress::V4(1);
    assert!(ws_handler(&mut quota, &mut limiter, None).is_err());
    assert!(ws_handler(&mut quota, &mut limiter, Some(first)).is_ok());
    let reply = ws_handler(&mut quota, &mut limiter, Some(first)).err().unwrap();
    assert_eq!(reply.body, "Too many connection attempts");
    // The first attempt of any other address goes through.
    for n in 2..20 {
        assert!(ws_handler(&mut quota, &mut limiter, Some(IpAddress::V4(n))).is_ok());
    }
    // An attempt counts though the connection is refused for another reason.
    let mut full = ConnectionQuota::default();
    while full.try_connect(IpAddress::V4(99)) {}
    let reply = ws_handler(&mut full, &mut limiter, Some(IpAddress::V4(99))).err().unwrap();
    assert_eq!(reply.body, "Too many connections");
    let reply = ws_handler(&mut full, &mut limiter, Some(IpAddress::V4(99))).err().unwrap();
    assert_eq!(reply.body, "Too many connection attempts");
}

#[test]
fn client_is_in_one_room_at_a_time() {
    let mut registry = Registry::new();
    let mut host = Client::new();
    host.send(&mut registry, msg("create", "s", "host", 1), at(0));
    host.recv();
    for kind in ["create", "join", "resume"] {
        host.send(&mut registry, msg(kind, "t", "host", 1), at(1));
        assert_eq!(host.code(), "already_in_room");
    }
    assert_eq!(registry.room_count(), 1);
}

#[test]
fn client_outside_has_nothing_to_say() {
    let mut registry = Registry::new();
    let mut client = Client::new();
    for kind in ["leave", "endSession", "transferHost", "broadcast", "sendTo"] {
        client.send(&mut registry, msg(kind, "s", "c", 1), at(0));
        assert_eq!(client.code(), "not_in_room");
    }
    client.send(&mut registry, msg("dance", "s", "c", 1), at(0));
    let reply = client.recv();
    assert_eq!(reply.code, Some("invalid_message".to_string()));
    assert_eq!(reply.message, Some("Unknown message type".to_string()));
    client.send(&mut registry, msg("ping", "", "", 1), at(0));
    assert_eq!(client.recv().msg_type, "pong");
    client.close(&mut registry, at(1));
    assert!(client.rx.try_recv().is_err());
}

#[test]
fn malformed_requests_are_refused() {
    let mut registry = Registry::new();
    let mut client = Client::new();
    client.send(&mut registry, msg("create", "no id", "c", 1), at(0));
    assert_eq!(client.recv().message, Some("Invalid sessionId or peerId".to_string()));
    client.send(&mut registry, msg("join", "s", "", 1), at(0));
    assert_eq!(client.code(), "invalid_message");
    for kind in ["create", "join", "resume"] {
        let mut old = msg(kind, "s", "c", 1);
        old.protocol_version = 1;
        client.send(&mut registry, old, at(0));
        let reply = client.recv();
        assert_eq!(reply.code, Some("protocol_mismatch".to_string()));
        assert_eq!(reply.protocol_version, 2);
    }
    client.send(&mut registry, msg("join", "s", "c", 1), at(0));
    assert_eq!(client.code(), "room_not_found");
    client.send(&mut registry, msg("create", "s", "c", 1), at(0));
    assert_eq!(client.recv().msg_type, "created");
    for kind in ["sendTo", "transferHost"] {
        client.send(&mut registry, payload(kind, "no id", "1"), at(1));
        assert_eq!(client.recv().message, Some("Invalid to field".to_string()));
    }
    let reply = protocol_mismatch();
    assert_eq!(reply.message, Some("Unsupported relay protocol version".to_string()));
}

#[test]
fn leave_that_was_not_saved_keeps_the_client_in_the_room() {
    let mut registry = Registry::new();
    let mut host = Client::new();
    host.send(&mut registry, msg("create", "s", "host", 1), at(0));
    let mut guest = Client::new();
    guest.send(&mut registry, msg("join", "s", "g", 2), at(1));
    guest.recv();
    guest.send_with(&mut registry, msg("leave", "", "", 2), false, at(2));
    let reply = guest.recv();
    assert_eq!(reply.message, Some("Unable to persist released peer identity".to_string()));
    assert!(guest.connection.room.is_some());
    guest.send(&mut registry, payload("broadcast", "", "1"), at(3));
    host.recv();
    host.recv();
    assert_eq!(host.recv().payload, Some("1".to_string()));
    // A refused leave keeps it there too.
    guest.send(&mut registry, msg("leave", "", "", 9), at(4));
    assert_eq!(guest.code(), "peer_id_unavailable");
    assert!(guest.connection.room.is_some());
}

#[test]
fn end_of_session_takes_the_client_out_in_any_case() {
    let mut registry = Registry::new();
    let mut host = Client::new();
    host.send(&mut registry, msg("create", "s", "host", 1), at(0));
    host.recv();
    host.send_with(&mut registry, msg("endSession", "", "", 1), false, at(1));
    assert_eq!(host.recv().message, Some("Unable to persist ended room".to_string()));
    assert!(host.connection.room.is_none());
    assert_eq!(registry.room_count(), 0);

    host.send(&mut registry, msg("create", "s", "host", 1), at(2));
    host.recv();
    host.send(&mut registry, msg("endSession", "", "", 9), at(3));
    assert_eq!(host.code(), "peer_id_unavailable");
    assert!(host.connection.room.is_none());
    assert_eq!(registry.room_count(), 1);
}

#[test]
fn connection_that_was_replaced_is_told_to_stop() {
    let mut registry = Registry::new();
    let mut first = Client::new();
    first.send(&mut registry, msg("create", "s", "host", 1), at(0));
    let cancel = first.connection.cancel.clone().unwrap();
    assert!(!cancel.is_cancelled());
    let mut second = Client::new();
    second.send(&mut registry, msg("create", "s", "host", 1), at(1));
    assert!(cancel.is_cancelled());
    assert!(!second.connection.cancel.as_ref().unwrap().is_cancelled());
    // What the first one still sends has no effect, nor has its end.
    first.close(&mut registry, at(2));
    second.recv();
    assert!(second.rx.try_recv().is_err());
}

#[test]
fn pending_operation_says_what_it_waits_for() {
    let mut registry = Registry::new();
    let mut host = Client::new();
    host.send(&mut registry, msg("create", "s", "host", 1), at(0));
    let mut guest = Client::new();
    guest.send(&mut registry, msg("join", "s", "g", 2), at(1));
    let leave = msg("leave", "", "", 2);
    let step = guest.connection.handle_message(&mut registry, leave, &guest.tx, "ip", at(2));
    match step {
        Step::Persist(Pending::Leave(seat)) => {
            assert_eq!(seat.peer_id, "g");
            assert_eq!(seat.conn_id, guest.connection.conn_id);
            assert!(guest.connection.room.as_ref().unwrap().same_room(&seat.room));
        }
        _ => panic!("a leave is saved"),
    }
    let end = msg("endSession", "", "", 1);
    match host.connection.handle_message(&mut registry, end, &host.tx, "ip", at(3)) {
        Step::Persist(Pending::EndSession(room, guests)) => {
            assert_eq!(room.session_id, "s");
            assert_eq!(guests.len(), 1);
        }
        _ => panic!("the end of a session is saved"),
    }
}

/// A guest asks to leave and is gone before the snapshot is saved.
fn leave_of_a_client_that_is_gone(registry: &mut Registry, persisted: bool) -> Effects {
    let mut host = Client::new();
    host.send(registry, msg("create", "s", "host", 1), at(0));
    let mut guest = Client::new();
    guest.send(registry, msg("join", "s", "g", 2), at(1));
    let leave = msg("leave", "", "", 2);
    match guest.connection.handle_message(registry, leave, &guest.tx, "ip", at(2)) {
        Step::Persist(pending) => {
            guest.close(registry, at(3));
            assert!(guest.connection.room.is_none());
            let effects = guest.connection.resume(registry, pending, persisted, at(4));
            assert!(guest.connection.room.is_none());
            effects
        }
        Step::Done(_) => panic!("a leave is saved"),
    }
}

#[test]
fn saved_leave_frees_the_identity_of_a_client_that_is_gone() {
    let mut registry = Registry::new();
    let effects = leave_of_a_client_that_is_gone(&mut registry, true);
    assert!(effects.reply.is_none());
    let mut other = Client::new();
    other.send(&mut registry, msg("join", "s", "g", 3), at(5));
    assert_eq!(other.recv().msg_type, "joined");
}

#[test]
fn failed_leave_is_undone_for_a_client_that_is_gone() {
    let mut registry = Registry::new();
    let effects = leave_of_a_client_that_is_gone(&mut registry, false);
    assert!(effects.reply.is_none());
    let mut other = Client::new();
    other.send(&mut registry, msg("join", "s", "g", 3), at(5));
    assert_eq!(other.code(), "peer_id_unavailable");
    let mut again = Client::new();
    again.send(&mut registry, msg("resume", "s", "g", 2), at(6));
    assert_eq!(again.recv().msg_type, "resumed");
}

#[test]
fn capability_makes_a_client_a_transfer_target() {
    let mut registry = Registry::new();
    let mut host = Client::new();
    let mut create = msg("create", "s", "host", 1);
    create.sync_protocol_version = 3;
    create.capabilities = vec!["other".to_string(), "hostTransfer".to_string()];
    host.send(&mut registry, create, at(0));
    host.recv();
    host.recv();
    let mut guest = Client::new();
    let mut join = msg("join", "s", "g", 2);
    join.sync_protocol_version = 3;
    join.capabilities = vec!["hostTransfer".to_string()];
    guest.send(&mut registry, join, at(1));
    host.recv();
    assert_eq!(host.recv().host_transfer_targets, Some(vec!["g".to_string()]));
    let mut transfer = payload("transferHost", "g", "");
    transfer.protocol_version = 2;
    host.send(&mut registry, transfer, at(2));
    assert_eq!(host.recv().msg_type, "hostChanged");
}

#[test]
fn frames_are_sorted_by_what_they_hold() {
    assert!(matches!(on_frame(Frame::End), FrameStep::Stop));
    assert!(matches!(on_frame(Frame::Close), FrameStep::Stop));
    assert!(matches!(on_frame(Frame::Ping), FrameStep::Skip));
    assert!(matches!(on_frame(Frame::Pong), FrameStep::Skip));
    assert!(matches!(on_frame(Frame::Binary), FrameStep::Skip));
    let longest = "a".repeat(MAX_MESSAGE_SIZE);
    match on_frame(Frame::Text(longest.clone())) {
        FrameStep::Read(text) => assert_eq!(text, longest),
        _ => panic!("the text is not too long"),
    }
    assert!(matches!(on_frame(Frame::Text(format!("{longest}a"))), FrameStep::Skip));
    // Bytes count, not characters.
    let wide = "\u{e9}".repeat(MAX_MESSAGE_SIZE / 2 + 1);
    assert!(matches!(on_frame(Frame::Text(wide)), FrameStep::Skip));
}

#[test]
fn text_that_is_no_message_or_comes_too_fast_is_answered() {
    let mut registry = Registry::new();
    let mut client = Client::new();
    let reply_of = |step: Step| match step {
        Step::Done(effects) => effects.reply.unwrap(),
        Step::Persist(_) => panic!("nothing is to be saved"),
    };
    let step = client.connection.on_text(&mut registry, false, None, &client.tx, "ip", at(0));
    let reply = reply_of(step);
    assert_eq!(reply.code, Some("rate_limited".to_string()));
    assert_eq!(reply.message, Some("Too many messages".to_string()));
    let step = client.connection.on_text(&mut registry, true, None, &client.tx, "ip", at(0));
    let reply = reply_of(step);
    assert_eq!(reply.code, Some("invalid_message".to_string()));
    assert_eq!(reply.message, Some("Invalid JSON".to_string()));
    let ping = msg("ping", "", "", 1);
    let step = client.connection.on_text(&mut registry, true, Some(ping), &client.tx, "ip", at(0));
    assert_eq!(reply_of(step).msg_type, "pong");
}
