use relay_rs::error::ClientError;
use relay_rs::ids::valid_id;
use relay_rs::protocol::{
    capability, client_type, error_code, is_zero_version, relay_features, server_type,
    supported_protocol_version, ClientMessage, ServerMessage, MAX_MESSAGE_SIZE,
    MAX_PEER_ID_LENGTH, MAX_ROOM_SIZE, MAX_SESSION_ID_LENGTH, RECONNECT_TOKEN_BYTES,
    RELAY_FEATURES, RELAY_PROTOCOL_VERSION,
};
use std::collections::HashSet;

fn set<'a>(values: &[&'a str]) -> HashSet<&'a str> {
    let res: HashSet<&str> = values.iter().copied().collect();
    assert_eq!(res.len(), values.len());
    res
}

#[test]
fn protocol_version_matches() {
    assert_eq!(2, RELAY_PROTOCOL_VERSION);
}

#[test]
fn limits_match() {
    assert_eq!(8, MAX_ROOM_SIZE, "maxRoomSize");
    assert_eq!(65536, MAX_MESSAGE_SIZE, "maxMessageSize");
    assert_eq!(64, MAX_SESSION_ID_LENGTH, "maxSessionIdLength");
    assert_eq!(128, MAX_PEER_ID_LENGTH, "maxPeerIdLength");
    assert_eq!(32, RECONNECT_TOKEN_BYTES, "reconnectTokenBytes");
}

#[test]
fn client_message_types_match() {
    let expected = set(&[
        client_type::CREATE,
        client_type::JOIN,
        client_type::RESUME,
        client_type::BROADCAST,
        client_type::SEND_TO,
        client_type::PING,
        client_type::LEAVE,
        client_type::END_SESSION,
        client_type::TRANSFER_HOST,
    ]);
    let spoken = set(&[
        "create", "join", "resume", "broadcast", "sendTo", "ping", "leave", "endSession",
        "transferHost",
    ]);
    assert_eq!(spoken, expected);
}

#[test]
fn server_message_types_match() {
    let expected = set(&[
        server_type::CREATED,
        server_type::JOINED,
        server_type::RESUMED,
        server_type::PEER_JOINED,
        server_type::PEER_LEFT,
        server_type::MESSAGE,
        server_type::ERROR,
        server_type::PONG,
        server_type::LEFT,
        server_type::ENDED,
        server_type::HOST_CHANGED,
        server_type::HOST_TRANSFER_ELIGIBILITY,
    ]);
    let spoken = set(&[
        "created", "joined", "resumed", "peerJoined", "peerLeft", "message", "error", "pong",
        "left", "ended", "hostChanged", "hostTransferEligibility",
    ]);
    assert_eq!(spoken, expected);
}

/// Every error has a code of its own, and there is no other code.
#[test]
fn error_codes_match() {
    let all_errors = [
        ClientError::RateLimited,
        ClientError::InvalidMessage,
        ClientError::RoomExists,
        ClientError::RoomNotFound,
        ClientError::RoomFull,
        ClientError::NotInRoom,
        ClientError::AlreadyInRoom,
        ClientError::PeerIdUnavailable,
        ClientError::ProtocolMismatch,
        ClientError::NotHost,
        ClientError::PeerNotFound,
        ClientError::HostTransferUnavailable,
    ];
    let codes: Vec<&str> = all_errors.iter().map(|e| e.code()).collect();
    let spoken = set(&[
        "rate_limited", "invalid_message", "room_exists", "room_not_found", "room_full",
        "not_in_room", "already_in_room", "peer_id_unavailable", "protocol_mismatch", "not_host",
        "peer_not_found", "host_transfer_unavailable",
    ]);
    assert_eq!(spoken, set(&codes));
    assert_eq!(ClientError::RateLimited.code(), error_code::RATE_LIMITED);
    assert_eq!(ClientError::HostTransferUnavailable.code(), error_code::HOST_TRANSFER_UNAVAILABLE);
}

#[test]
fn features_and_capabilities_match() {
    let expected_features: HashSet<&str> = RELAY_FEATURES.into_iter().collect();
    let announced = relay_features();
    assert_eq!(announced.iter().map(String::as_str).collect::<HashSet<&str>>(), expected_features);
    assert_eq!(set(&["atomicHostTransfer", "authenticatedResume"]), expected_features);
    assert_eq!(set(&["hostTransfer"]), set(&[capability::HOST_TRANSFER]));
}

/// `^[A-Za-z0-9_-]+$`, one character at a time, for every ASCII character.
#[test]
fn id_pattern_matches_valid_id_predicate() {
    for byte in 0u8..=127 {
        let s = (byte as char).to_string();
        let matches_pattern = byte.is_ascii_alphanumeric() || byte == b'_' || byte == b'-';
        assert_eq!(
            valid_id(&s, 64),
            matches_pattern,
            "byte {byte} ({s:?}) disagreement between valid_id and idPattern"
        );
    }
}

#[test]
fn only_the_current_version_is_spoken() {
    assert!(supported_protocol_version(2));
    assert!(!supported_protocol_version(1));
    assert!(!supported_protocol_version(3));
    assert!(is_zero_version(&0));
    assert!(!is_zero_version(&2));
}

#[test]
fn error_message_carries_code_and_text() {
    let msg = ClientError::RoomFull.into_message("Room is full");
    assert_eq!(msg.msg_type, "error");
    assert_eq!(msg.code, Some("room_full".to_string()));
    assert_eq!(msg.message, Some("Room is full".to_string()));
    assert_eq!(msg.protocol_version, 0);
    assert!(msg.session_id.is_none() && msg.peers.is_none() && msg.payload.is_none());
    let same = ServerMessage::error("room_full", "Room is full");
    assert_eq!(same.code, msg.code);
    assert_eq!(ClientError::RoomFull.description(), "room is full");
}

#[test]
fn messages_are_empty_by_default() {
    let msg = ClientMessage::default();
    assert!(msg.msg_type.is_empty() && msg.capabilities.is_empty() && msg.payload.is_none());
    assert_eq!(msg.protocol_version, 0);
    let reply = ServerMessage::default();
    assert!(reply.msg_type.is_empty() && reply.code.is_none());
    let copy = ServerMessage { peers: Some(vec!["a".to_string()]), ..reply }.clone();
    assert_eq!(copy.peers, Some(vec!["a".to_string()]));
}
