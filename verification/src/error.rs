//! Protocol errors and the `error` messages that report them, failures to
//! resolve a client's address, and failures to persist a snapshot.

use crate::protocol::{error_code, error_message, ServerMessage, ServerMessageView};
use vstd::prelude::*;

verus! {

#[derive(Clone, Copy, PartialEq, Eq, Structural, Debug)]
pub enum ClientError {
    RateLimited,
    InvalidMessage,
    RoomExists,
    RoomNotFound,
    RoomFull,
    NotInRoom,
    AlreadyInRoom,
    PeerIdUnavailable,
    ProtocolMismatch,
    NotHost,
    PeerNotFound,
    HostTransferUnavailable,
}

impl ClientError {
    /// The code under which clients know this error.
    pub open spec fn code_text(self) -> Seq<char> {
        match self {
            ClientError::RateLimited => error_code::RATE_LIMITED@,
            ClientError::InvalidMessage => error_code::INVALID_MESSAGE@,
            ClientError::RoomExists => error_code::ROOM_EXISTS@,
            ClientError::RoomNotFound => error_code::ROOM_NOT_FOUND@,
            ClientError::RoomFull => error_code::ROOM_FULL@,
            ClientError::NotInRoom => error_code::NOT_IN_ROOM@,
            ClientError::AlreadyInRoom => error_code::ALREADY_IN_ROOM@,
            ClientError::PeerIdUnavailable => error_code::PEER_ID_UNAVAILABLE@,
            ClientError::ProtocolMismatch => error_code::PROTOCOL_MISMATCH@,
            ClientError::NotHost => error_code::NOT_HOST@,
            ClientError::PeerNotFound => error_code::PEER_NOT_FOUND@,
            ClientError::HostTransferUnavailable => error_code::HOST_TRANSFER_UNAVAILABLE@,
        }
    }

    /// The `error` message that reports this error with the given text.
    pub open spec fn message(self, text: Seq<char>) -> ServerMessageView {
        error_message(self.code_text(), text)
    }

    pub fn code(self) -> (res: &'static str)
        ensures
            res@ == self.code_text(),
    {
        match self {
            ClientError::RateLimited => error_code::RATE_LIMITED,
            ClientError::InvalidMessage => error_code::INVALID_MESSAGE,
            ClientError::RoomExists => error_code::ROOM_EXISTS,
            ClientError::RoomNotFound => error_code::ROOM_NOT_FOUND,
            ClientError::RoomFull => error_code::ROOM_FULL,
            ClientError::NotInRoom => error_code::NOT_IN_ROOM,
            ClientError::AlreadyInRoom => error_code::ALREADY_IN_ROOM,
            ClientError::PeerIdUnavailable => error_code::PEER_ID_UNAVAILABLE,
            ClientError::ProtocolMismatch => error_code::PROTOCOL_MISMATCH,
            ClientError::NotHost => error_code::NOT_HOST,
            ClientError::PeerNotFound => error_code::PEER_NOT_FOUND,
            ClientError::HostTransferUnavailable => error_code::HOST_TRANSFER_UNAVAILABLE,
        }
    }

    pub fn into_message(self, text: &str) -> (res: ServerMessage)
        ensures
            res@ == self.message(text@),
    {
        ServerMessage::error(self.code(), text)
    }

    /// What went wrong, in words.
    pub open spec fn description_text(self) -> Seq<char> {
        match self {
            ClientError::RateLimited => "rate limited"@,
            ClientError::InvalidMessage => "invalid message"@,
            ClientError::RoomExists => "room already exists"@,
            ClientError::RoomNotFound => "room does not exist"@,
            ClientError::RoomFull => "room is full"@,
            ClientError::NotInRoom => "not in a room"@,
            ClientError::AlreadyInRoom => "already in a room"@,
            ClientError::PeerIdUnavailable => "peer id unavailable"@,
            ClientError::ProtocolMismatch => "protocol mismatch"@,
            ClientError::NotHost => "not host"@,
            ClientError::PeerNotFound => "peer not found"@,
            ClientError::HostTransferUnavailable => "host transfer unavailable"@,
        }
    }

    pub fn description(self) -> (res: &'static str)
        ensures
            res@ == self.description_text(),
    {
        match self {
            ClientError::RateLimited => "rate limited",
            ClientError::InvalidMessage => "invalid message",
            ClientError::RoomExists => "room already exists",
            ClientError::RoomNotFound => "room does not exist",
            ClientError::RoomFull => "room is full",
            ClientError::NotInRoom => "not in a room",
            ClientError::AlreadyInRoom => "already in a room",
            ClientError::PeerIdUnavailable => "peer id unavailable",
            ClientError::ProtocolMismatch => "protocol mismatch",
            ClientError::NotHost => "not host",
            ClientError::PeerNotFound => "peer not found",
            ClientError::HostTransferUnavailable => "host transfer unavailable",
        }
    }
}

/// No two errors have one code: a client can tell them apart.
pub proof fn error_codes_are_distinct(a: ClientError, b: ClientError)
    requires
        a != b,
    ensures
        a.code_text() != b.code_text(),
{
    reveal_strlit("rate_limited");
    reveal_strlit("invalid_message");
    reveal_strlit("room_exists");
    reveal_strlit("room_not_found");
    reveal_strlit("room_full");
    reveal_strlit("not_in_room");
    reveal_strlit("already_in_room");
    reveal_strlit("peer_id_unavailable");
    reveal_strlit("protocol_mismatch");
    reveal_strlit("not_host");
    reveal_strlit("peer_not_found");
    reveal_strlit("host_transfer_unavailable");
    assert(a.code_text().len() == b.code_text().len() ==> a.code_text()[0] != b.code_text()[0]);
}

/// The words for an error say what its code says.
pub proof fn words_go_with_the_code(e: ClientError)
    ensures
        e.code_text() == "rate_limited"@ ==> e.description_text() == "rate limited"@,
        e.code_text() == "invalid_message"@ ==> e.description_text() == "invalid message"@,
        e.code_text() == "room_exists"@ ==> e.description_text() == "room already exists"@,
        e.code_text() == "room_not_found"@ ==> e.description_text() == "room does not exist"@,
        e.code_text() == "room_full"@ ==> e.description_text() == "room is full"@,
        e.code_text() == "not_in_room"@ ==> e.description_text() == "not in a room"@,
        e.code_text() == "already_in_room"@ ==> e.description_text() == "already in a room"@,
        e.code_text() == "peer_id_unavailable"@ ==> e.description_text() == "peer id unavailable"@,
        e.code_text() == "protocol_mismatch"@ ==> e.description_text() == "protocol mismatch"@,
        e.code_text() == "not_host"@ ==> e.description_text() == "not host"@,
        e.code_text() == "peer_not_found"@ ==> e.description_text() == "peer not found"@,
        e.code_text() == "host_transfer_unavailable"@ ==> e.description_text()
            == "host transfer unavailable"@,
{
    if e != ClientError::RateLimited {
        error_codes_are_distinct(e, ClientError::RateLimited);
    }
    if e != ClientError::InvalidMessage {
        error_codes_are_distinct(e, ClientError::InvalidMessage);
    }
    if e != ClientError::RoomExists {
        error_codes_are_distinct(e, ClientError::RoomExists);
    }
    if e != ClientError::RoomNotFound {
        error_codes_are_distinct(e, ClientError::RoomNotFound);
    }
    if e != ClientError::RoomFull {
        error_codes_are_distinct(e, ClientError::RoomFull);
    }
    if e != ClientError::NotInRoom {
        error_codes_are_distinct(e, ClientError::NotInRoom);
    }
    if e != ClientError::AlreadyInRoom {
        error_codes_are_distinct(e, ClientError::AlreadyInRoom);
    }
    if e != ClientError::PeerIdUnavailable {
        error_codes_are_distinct(e, ClientError::PeerIdUnavailable);
    }
    if e != ClientError::ProtocolMismatch {
        error_codes_are_distinct(e, ClientError::ProtocolMismatch);
    }
    if e != ClientError::NotHost {
        error_codes_are_distinct(e, ClientError::NotHost);
    }
    if e != ClientError::PeerNotFound {
        error_codes_are_distinct(e, ClientError::PeerNotFound);
    }
    if e != ClientError::HostTransferUnavailable {
        error_codes_are_distinct(e, ClientError::HostTransferUnavailable);
    }
}

/// A client's source address could not be resolved: the `X-Forwarded-For`
/// header is malformed or too large, or a configured network does not parse.
#[derive(Clone, Copy, PartialEq, Eq, Structural, Debug)]
pub struct ClientIpError;

impl ClientIpError {
    pub fn description(self) -> (res: &'static str)
        ensures
            res@ == "invalid client address"@,
    {
        "invalid client address"
    }
}

/// A snapshot could not be persisted. `leave` and `endSession` roll back on
/// it rather than report a change that was not saved.
#[derive(Debug)]
pub struct SnapshotError(pub String);

impl Clone for SnapshotError {
    fn clone(&self) -> (res: Self)
        ensures
            res == *self,
    {
        SnapshotError(self.0.clone())
    }
}

impl SnapshotError {
    pub fn description(&self) -> (res: String)
        ensures
            res@ == "snapshot persistence failed: "@ + self.0@,
    {
        let mut res = "snapshot persistence failed: ".to_string();
        res.append(self.0.as_str());
        res
    }
}

} // verus!
