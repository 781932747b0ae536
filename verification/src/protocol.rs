//! Wire protocol types and limits. Only protocol version 2 is spoken.

use crate::text::{
    clone_opt_string, clone_opt_strings, opt_string_view, opt_strings_view, strings_view,
};
use vstd::prelude::*;

pub mod capability;
pub mod client_type;
pub mod error_code;
pub mod feature;
pub mod server_type;

verus! {

pub const RELAY_PROTOCOL_VERSION: u32 = 2;

/// Most peers that a room holds at once, the host among them.
pub const MAX_ROOM_SIZE: usize = 8;

pub const MAX_MESSAGE_SIZE: usize = 65536;

pub const MAX_SESSION_ID_LENGTH: usize = 64;

pub const MAX_PEER_ID_LENGTH: usize = 128;

pub const RECONNECT_TOKEN_BYTES: usize = 32;

pub const RELAY_FEATURES: [&'static str; 2] = [
    feature::ATOMIC_HOST_TRANSFER,
    feature::AUTHENTICATED_RESUME,
];

/// The features that every admission reply announces.
pub open spec fn features_announced() -> Seq<Seq<char>> {
    seq![feature::ATOMIC_HOST_TRANSFER@, feature::AUTHENTICATED_RESUME@]
}

pub fn relay_features() -> (res: Vec<String>)
    ensures
        strings_view(res@) == features_announced(),
{
    let mut res: Vec<String> = Vec::new();
    res.push(RELAY_FEATURES[0].to_string());
    res.push(RELAY_FEATURES[1].to_string());
    assert(strings_view(res@) =~= features_announced());
    res
}

pub fn supported_protocol_version(version: u32) -> (res: bool)
    ensures
        res == (version == RELAY_PROTOCOL_VERSION),
{
    version == RELAY_PROTOCOL_VERSION
}

/// Whether `protocolVersion` is left out of a message.
pub fn is_zero_version(v: &u32) -> (res: bool)
    ensures
        res == (*v == 0),
{
    *v == 0
}

/// A message received from a client. One flat struct covers every message
/// type: the fields that a type does not use are empty.
pub struct ClientMessage {
    pub msg_type: String,
    pub session_id: String,
    pub peer_id: String,
    pub reconnect_token: String,
    pub protocol_version: u32,
    pub sync_protocol_version: i32,
    pub capabilities: Vec<String>,
    pub to: String,
    /// The payload's JSON text, relayed unread.
    pub payload: Option<String>,
}

pub struct ClientMessageView {
    pub msg_type: Seq<char>,
    pub session_id: Seq<char>,
    pub peer_id: Seq<char>,
    pub reconnect_token: Seq<char>,
    pub protocol_version: u32,
    pub sync_protocol_version: i32,
    pub capabilities: Seq<Seq<char>>,
    pub to: Seq<char>,
    pub payload: Option<Seq<char>>,
}

impl View for ClientMessage {
    type V = ClientMessageView;

    open spec fn view(&self) -> ClientMessageView {
        ClientMessageView {
            msg_type: self.msg_type@,
            session_id: self.session_id@,
            peer_id: self.peer_id@,
            reconnect_token: self.reconnect_token@,
            protocol_version: self.protocol_version,
            sync_protocol_version: self.sync_protocol_version,
            capabilities: strings_view(self.capabilities@),
            to: self.to@,
            payload: opt_string_view(self.payload),
        }
    }
}

impl Default for ClientMessage {
    fn default() -> (res: Self)
        ensures
            res.msg_type@.len() == 0,
            res.session_id@.len() == 0,
            res.peer_id@.len() == 0,
            res.reconnect_token@.len() == 0,
            res.protocol_version == 0,
            res.sync_protocol_version == 0,
            res.capabilities@.len() == 0,
            res.to@.len() == 0,
            res.payload is None,
    {
        ClientMessage {
            msg_type: String::new(),
            session_id: String::new(),
            peer_id: String::new(),
            reconnect_token: String::new(),
            protocol_version: 0,
            sync_protocol_version: 0,
            capabilities: Vec::new(),
            to: String::new(),
            payload: None,
        }
    }
}

/// A message sent to a client. Fields that are `None` are left out of its
/// JSON, and so is a zero protocol version.
///
/// A `hostTransferEligibility` message always carries
/// `host_transfer_targets`, an empty list where there is no target.
pub struct ServerMessage {
    pub msg_type: String,
    pub session_id: Option<String>,
    pub peer_id: Option<String>,
    pub host_peer_id: Option<String>,
    pub reconnect_token: Option<String>,
    pub protocol_version: u32,
    pub from: Option<String>,
    pub peers: Option<Vec<String>>,
    pub features: Option<Vec<String>>,
    pub host_transfer_targets: Option<Vec<String>>,
    pub code: Option<String>,
    pub message: Option<String>,
    /// The payload's JSON text, as the sender wrote it.
    pub payload: Option<String>,
}

#[verifier::ext_equal]
pub struct ServerMessageView {
    pub msg_type: Seq<char>,
    pub session_id: Option<Seq<char>>,
    pub peer_id: Option<Seq<char>>,
    pub host_peer_id: Option<Seq<char>>,
    pub reconnect_token: Option<Seq<char>>,
    pub protocol_version: u32,
    pub from: Option<Seq<char>>,
    pub peers: Option<Seq<Seq<char>>>,
    pub features: Option<Seq<Seq<char>>>,
    pub host_transfer_targets: Option<Seq<Seq<char>>>,
    pub code: Option<Seq<char>>,
    pub message: Option<Seq<char>>,
    pub payload: Option<Seq<char>>,
}

impl View for ServerMessage {
    type V = ServerMessageView;

    open spec fn view(&self) -> ServerMessageView {
        ServerMessageView {
            msg_type: self.msg_type@,
            session_id: opt_string_view(self.session_id),
            peer_id: opt_string_view(self.peer_id),
            host_peer_id: opt_string_view(self.host_peer_id),
            reconnect_token: opt_string_view(self.reconnect_token),
            protocol_version: self.protocol_version,
            from: opt_string_view(self.from),
            peers: opt_strings_view(self.peers),
            features: opt_strings_view(self.features),
            host_transfer_targets: opt_strings_view(self.host_transfer_targets),
            code: opt_string_view(self.code),
            message: opt_string_view(self.message),
            payload: opt_string_view(self.payload),
        }
    }
}

/// A message of the given type with every other field left out.
pub open spec fn bare_message(msg_type: Seq<char>) -> ServerMessageView {
    ServerMessageView {
        msg_type,
        session_id: None,
        peer_id: None,
        host_peer_id: None,
        reconnect_token: None,
        protocol_version: 0,
        from: None,
        peers: None,
        features: None,
        host_transfer_targets: None,
        code: None,
        message: None,
        payload: None,
    }
}

/// An `error` message.
pub open spec fn error_message(code: Seq<char>, text: Seq<char>) -> ServerMessageView {
    ServerMessageView {
        code: Some(code),
        message: Some(text),
        ..bare_message(server_type::ERROR@)
    }
}

impl Default for ServerMessage {
    fn default() -> (res: Self)
        ensures
            res@ == bare_message(Seq::empty()),
    {
        ServerMessage {
            msg_type: String::new(),
            session_id: None,
            peer_id: None,
            host_peer_id: None,
            reconnect_token: None,
            protocol_version: 0,
            from: None,
            peers: None,
            features: None,
            host_transfer_targets: None,
            code: None,
            message: None,
            payload: None,
        }
    }
}

impl Clone for ServerMessage {
    fn clone(&self) -> (res: Self)
        ensures
            res@ == self@,
    {
        ServerMessage {
            msg_type: self.msg_type.clone(),
            session_id: clone_opt_string(&self.session_id),
            peer_id: clone_opt_string(&self.peer_id),
            host_peer_id: clone_opt_string(&self.host_peer_id),
            reconnect_token: clone_opt_string(&self.reconnect_token),
            protocol_version: self.protocol_version,
            from: clone_opt_string(&self.from),
            peers: clone_opt_strings(&self.peers),
            features: clone_opt_strings(&self.features),
            host_transfer_targets: clone_opt_strings(&self.host_transfer_targets),
            code: clone_opt_string(&self.code),
            message: clone_opt_string(&self.message),
            payload: clone_opt_string(&self.payload),
        }
    }
}

impl ServerMessage {
    /// A message of the given type with every other field left out.
    pub(crate) fn bare(msg_type: &str) -> (res: Self)
        ensures
            res@ == bare_message(msg_type@),
    {
        ServerMessage { msg_type: msg_type.to_string(), ..Default::default() }
    }

    pub fn error(code: &str, message: &str) -> (res: Self)
        ensures
            res@ == error_message(code@, message@),
    {
        ServerMessage {
            code: Some(code.to_string()),
            message: Some(message.to_string()),
            ..ServerMessage::bare(server_type::ERROR)
        }
    }
}

} // verus!
