//! What a connection does with the messages that it receives. A connection is
//! in one room at most; it creates, joins or resumes to get into one, and what
//! it sends there goes to that room.
//!
//! Nothing here waits: where an operation has to be saved before it is
//! committed, the connection says so and goes on once the outcome is known.

use crate::clock::Now;
use crate::connection::model::{
    admission_for, is_room_message, is_transition, mismatch_message, reply_only, ConnectionView,
    Decision, Handling, SeatView,
};
use crate::error::ClientError;
use crate::ids::valid_id;
use crate::protocol::{
    capability, client_type, server_type, supported_protocol_version, ClientMessage, ServerMessage,
    MAX_MESSAGE_SIZE, MAX_PEER_ID_LENGTH, RELAY_PROTOCOL_VERSION,
};
use crate::registry::{opt_handle_view, Registry, RoomHandle};
use crate::room::model::refusal;
use crate::room::{valid_session_and_peer_id, Admission, Effects};
use crate::text::{str_eq, strings_contain};
use tokio::sync::mpsc::Sender;
use tokio_util::sync::CancellationToken;
use vstd::prelude::*;
use vstd::utf8::encode_utf8;

pub mod dispatch_laws;
pub mod laws;
pub mod model;

verus! {

/// How many messages wait for a client that reads slowly.
pub const OUTBOUND_CHANNEL_CAPACITY: usize = 64;

/// How often a client is pinged, in seconds.
pub const PING_INTERVAL_SECS: u64 = 30;

/// How long a client may be silent, in seconds.
pub const PONG_WAIT_SECS: u64 = 60;

/// Something that came in on a connection.
pub enum Frame {
    /// Nothing more comes.
    End,
    Close,
    Ping,
    Pong,
    Binary,
    Text(String),
}

/// What to do with a frame.
pub enum FrameStep {
    /// The connection is over.
    Stop,
    /// The frame means nothing.
    Skip,
    /// The frame holds this message.
    Read(String),
}

/// What to do with a frame. A text that is too long is passed over.
pub fn on_frame(frame: Frame) -> (res: FrameStep)
    ensures
        res == match frame {
            Frame::End | Frame::Close => FrameStep::Stop,
            Frame::Ping | Frame::Pong | Frame::Binary => FrameStep::Skip,
            Frame::Text(text) => if encode_utf8(text@).len() > MAX_MESSAGE_SIZE {
                FrameStep::Skip
            } else {
                FrameStep::Read(text)
            },
        },
{
    match frame {
        Frame::End | Frame::Close => FrameStep::Stop,
        Frame::Ping | Frame::Pong | Frame::Binary => FrameStep::Skip,
        Frame::Text(text) => {
            if text.as_str().as_bytes().len() > MAX_MESSAGE_SIZE {
                FrameStep::Skip
            } else {
                FrameStep::Read(text)
            }
        },
    }
}

/// The identity that a connection speaks for in a room.
pub struct Seat {
    pub room: RoomHandle,
    pub peer_id: String,
    pub conn_id: u64,
}

impl View for Seat {
    type V = SeatView;

    open spec fn view(&self) -> SeatView {
        SeatView { room: self.room@, peer_id: self.peer_id@, conn_id: self.conn_id }
    }
}

/// What waits for a snapshot. It goes on whatever becomes of the connection
/// meanwhile.
pub enum Pending {
    /// The identity is given up.
    Leave(Seat),
    /// The room ends; the queues are those of the guests who learn of it.
    EndSession(RoomHandle, Vec<Sender<ServerMessage>>),
}

/// What to do after a message.
pub enum Step {
    /// Carry out the effects.
    Done(Effects),
    /// Save a snapshot, then go on with [`Connection::resume`].
    Persist(Pending),
}

impl View for Step {
    type V = Decision;

    open spec fn view(&self) -> Decision {
        match self {
            Step::Done(effects) => Decision::Done(effects@),
            Step::Persist(Pending::Leave(seat)) => Decision::PersistLeave(seat@),
            Step::Persist(Pending::EndSession(room, guests)) => Decision::PersistEnd(
                room@,
                guests@,
            ),
        }
    }
}

/// The token of a fresh connection that a step hands out.
pub open spec fn step_cancel(step: Step) -> CancellationToken {
    match step {
        Step::Done(effects) => effects.assigned_cancel->0,
        Step::Persist(_) => arbitrary(),
    }
}

/// Where a connection is.
pub struct Connection {
    pub room: Option<RoomHandle>,
    pub peer_id: String,
    pub conn_id: u64,
    /// The token that is cancelled once another connection takes over the
    /// identity.
    pub cancel: Option<CancellationToken>,
}

impl View for Connection {
    type V = ConnectionView;

    open spec fn view(&self) -> ConnectionView {
        ConnectionView {
            room: opt_handle_view(self.room),
            peer_id: self.peer_id@,
            conn_id: self.conn_id,
            cancel: self.cancel,
        }
    }
}

/// The answer to a client that speaks another version of the protocol.
pub fn protocol_mismatch() -> (res: ServerMessage)
    ensures
        res@ == mismatch_message(),
{
    ServerMessage {
        protocol_version: RELAY_PROTOCOL_VERSION,
        ..ClientError::ProtocolMismatch.into_message("Unsupported relay protocol version")
    }
}

fn reply(msg: ServerMessage) -> (res: Effects)
    ensures
        res@ == reply_only(msg@),
{
    let res = Effects { reply: Some(msg), ..Default::default() };
    assert(res@ =~= reply_only(msg@));
    res
}

fn clone_cancel(cancel: &Option<CancellationToken>) -> (res: Option<CancellationToken>)
    ensures
        res == *cancel,
{
    match cancel {
        Some(cancel) => Some(cancel.clone()),
        None => None,
    }
}

/// What a message says of the connection that asks to be admitted.
fn admission(msg: &ClientMessage, tx: &Sender<ServerMessage>) -> (res: Admission)
    ensures
        res@ == admission_for(msg@, *tx),
{
    Admission {
        peer_id: msg.peer_id.clone(),
        tx: tx.clone(),
        sync_protocol_version: msg.sync_protocol_version,
        host_transfer_capable: strings_contain(&msg.capabilities, capability::HOST_TRANSFER),
    }
}

impl Connection {
    pub fn new() -> (res: Self)
        ensures
            res@ == ConnectionView::fresh(),
    {
        let res = Connection { room: None, peer_id: String::new(), conn_id: 0, cancel: None };
        assert(res@ =~= ConnectionView::fresh());
        res
    }

    /// The connection was admitted, if the effects say so.
    fn enter(&mut self, handle: RoomHandle, peer_id: &str, effects: &Effects)
        ensures
            final(self)@ == old(self)@.inside(handle@, peer_id@, effects@),
    {
        if let Some(conn_id) = effects.assigned_conn_id {
            self.room = Some(handle);
            self.peer_id = peer_id.to_string();
            self.conn_id = conn_id;
            self.cancel = clone_cancel(&effects.assigned_cancel);
        }
    }

    /// The connection is in no room any more.
    fn exit(&mut self)
        ensures
            final(self)@ == old(self)@.outside(),
    {
        self.room = None;
        self.peer_id = String::new();
        self.cancel = None;
        assert(self@ =~= old(self)@.outside());
    }

    /// Decides on `create`.
    fn on_create(
        &mut self,
        registry: &mut Registry,
        msg: &ClientMessage,
        tx: &Sender<ServerMessage>,
        ip_key: &str,
        now: Now,
    ) -> (res: Effects)
        requires
            old(registry)@.can_admit(msg@.session_id),
        ensures
            (Handling {
                connection: final(self)@,
                registry: final(registry)@,
                decision: Decision::Done(res@),
            }) == old(self)@.on_create(
                old(registry)@,
                msg@,
                *tx,
                ip_key@,
                now,
                res.assigned_cancel->0,
            ),
    {
        if !valid_session_and_peer_id(msg.session_id.as_str(), msg.peer_id.as_str()) {
            return Effects::error(ClientError::InvalidMessage, "Invalid sessionId or peerId");
        }
        if !supported_protocol_version(msg.protocol_version) {
            return reply(protocol_mismatch());
        }
        let (room, effects) = registry.create(
            msg.session_id.as_str(),
            msg.peer_id.as_str(),
            msg.reconnect_token.as_str(),
            ip_key,
            admission(msg, tx),
            now,
        );
        if let Some(handle) = room {
            self.enter(handle, msg.peer_id.as_str(), &effects);
        }
        effects
    }

    /// Decides on `join` and `resume`.
    fn on_join(
        &mut self,
        registry: &mut Registry,
        msg: &ClientMessage,
        resume_only: bool,
        tx: &Sender<ServerMessage>,
        now: Now,
    ) -> (res: Effects)
        requires
            old(registry)@.can_admit(msg@.session_id),
        ensures
            (Handling {
                connection: final(self)@,
                registry: final(registry)@,
                decision: Decision::Done(res@),
            }) == old(self)@.on_join(
                old(registry)@,
                msg@,
                resume_only,
                *tx,
                now,
                res.assigned_cancel->0,
            ),
    {
        if !valid_session_and_peer_id(msg.session_id.as_str(), msg.peer_id.as_str()) {
            return Effects::error(ClientError::InvalidMessage, "Invalid sessionId or peerId");
        }
        if !supported_protocol_version(msg.protocol_version) {
            return reply(protocol_mismatch());
        }
        let handle = match registry.get(msg.session_id.as_str()) {
            Some(handle) => handle,
            None => {
                return Effects::error(ClientError::RoomNotFound, "Room does not exist");
            },
        };
        let effects = registry.join_or_resume(
            &handle,
            msg,
            admission(msg, tx),
            resume_only,
            now,
        );
        self.enter(handle, msg.peer_id.as_str(), &effects);
        effects
    }

    /// Decides on a message for the room that the connection is in.
    fn on_room_message(
        &mut self,
        registry: &mut Registry,
        handle: &RoomHandle,
        msg: ClientMessage,
        now: Now,
    ) -> (res: Step)
        requires
            opt_handle_view(old(self).room) == Some(handle@),
            is_room_message(msg@.msg_type),
        ensures
            (Handling {
                connection: final(self)@,
                registry: final(registry)@,
                decision: res@,
            }) == old(self)@.on_room_message(old(registry)@, msg@, now),
    {
        let msg_type = msg.msg_type.as_str();
        let peer_id = self.peer_id.as_str();
        if str_eq(msg_type, client_type::LEAVE) {
            return match registry.begin_leave(
                handle,
                peer_id,
                self.conn_id,
                msg.reconnect_token.as_str(),
                msg.protocol_version,
            ) {
                Ok(()) => Step::Persist(
                    Pending::Leave(
                        Seat {
                            room: handle.clone(),
                            peer_id: peer_id.to_string(),
                            conn_id: self.conn_id,
                        },
                    ),
                ),
                Err(effects) => Step::Done(effects),
            };
        }
        if str_eq(msg_type, client_type::END_SESSION) {
            return match registry.begin_end_session(
                handle,
                peer_id,
                self.conn_id,
                msg.reconnect_token.as_str(),
                msg.protocol_version,
            ) {
                Ok(guests) => Step::Persist(Pending::EndSession(handle.clone(), guests)),
                Err(effects) => {
                    self.exit();
                    Step::Done(effects)
                },
            };
        }
        if str_eq(msg_type, client_type::BROADCAST) {
            return Step::Done(
                registry.broadcast(handle, peer_id, self.conn_id, msg.payload, now.wall),
            );
        }
        if !valid_id(msg.to.as_str(), MAX_PEER_ID_LENGTH) {
            return Step::Done(Effects::error(ClientError::InvalidMessage, "Invalid to field"));
        }
        if str_eq(msg_type, client_type::TRANSFER_HOST) {
            return Step::Done(
                registry.transfer_host(
                    handle,
                    peer_id,
                    self.conn_id,
                    msg.protocol_version,
                    msg.to.as_str(),
                ),
            );
        }
        Step::Done(
            registry.send_to(
                handle,
                peer_id,
                self.conn_id,
                msg.to.as_str(),
                msg.payload,
                now.wall,
            ),
        )
    }

    /// Decides on a message. `ip_key` is the client's address as the room
    /// quota counts it.
    pub fn handle_message(
        &mut self,
        registry: &mut Registry,
        msg: ClientMessage,
        tx: &Sender<ServerMessage>,
        ip_key: &str,
        now: Now,
    ) -> (res: Step)
        requires
            is_transition(msg@.msg_type) ==> old(registry)@.can_admit(msg@.session_id),
        ensures
            (Handling {
                connection: final(self)@,
                registry: final(registry)@,
                decision: res@,
            }) == old(self)@.on_message(
                old(registry)@,
                msg@,
                *tx,
                ip_key@,
                now,
                step_cancel(res),
            ),
    {
        let msg_type = msg.msg_type.as_str();
        if str_eq(msg_type, client_type::PING) {
            return Step::Done(reply(ServerMessage::bare(server_type::PONG)));
        }
        let is_create = str_eq(msg_type, client_type::CREATE);
        let is_resume = str_eq(msg_type, client_type::RESUME);
        let enters = is_create || is_resume || str_eq(msg_type, client_type::JOIN);
        if enters && self.room.is_some() {
            return Step::Done(
                Effects::error(
                    ClientError::AlreadyInRoom,
                    "Leave the current room before creating or joining another",
                ),
            );
        }
        if is_create {
            return Step::Done(self.on_create(registry, &msg, tx, ip_key, now));
        }
        if enters {
            return Step::Done(self.on_join(registry, &msg, is_resume, tx, now));
        }
        let known = str_eq(msg_type, client_type::LEAVE) || str_eq(
            msg_type,
            client_type::END_SESSION,
        ) || str_eq(msg_type, client_type::TRANSFER_HOST) || str_eq(
            msg_type,
            client_type::BROADCAST,
        ) || str_eq(msg_type, client_type::SEND_TO);
        if !known {
            return Step::Done(Effects::error(ClientError::InvalidMessage, "Unknown message type"));
        }
        let handle = match &self.room {
            Some(handle) => handle.clone(),
            None => {
                return Step::Done(Effects::error(ClientError::NotInRoom, "Not in a room"));
            },
        };
        self.on_room_message(registry, &handle, msg, now)
    }

    /// Decides on the text of a frame: whether the rate limit `allowed` it, and
    /// the message that it was `parsed` as, if it is one.
    pub fn on_text(
        &mut self,
        registry: &mut Registry,
        allowed: bool,
        parsed: Option<ClientMessage>,
        tx: &Sender<ServerMessage>,
        ip_key: &str,
        now: Now,
    ) -> (res: Step)
        requires
            parsed is Some && is_transition(parsed->0@.msg_type) ==> old(registry)@.can_admit(
                parsed->0@.session_id,
            ),
        ensures
            (Handling {
                connection: final(self)@,
                registry: final(registry)@,
                decision: res@,
            }) == if !allowed {
                old(self)@.unchanged(
                    old(registry)@,
                    refusal(ClientError::RateLimited, "Too many messages"@),
                )
            } else {
                match parsed {
                    None => old(self)@.unchanged(
                        old(registry)@,
                        refusal(ClientError::InvalidMessage, "Invalid JSON"@),
                    ),
                    Some(msg) => old(self)@.on_message(
                        old(registry)@,
                        msg@,
                        *tx,
                        ip_key@,
                        now,
                        step_cancel(res),
                    ),
                }
            },
    {
        if !allowed {
            return Step::Done(Effects::error(ClientError::RateLimited, "Too many messages"));
        }
        match parsed {
            Some(msg) => self.handle_message(registry, msg, tx, ip_key, now),
            None => Step::Done(Effects::error(ClientError::InvalidMessage, "Invalid JSON")),
        }
    }

    /// Whether the connection is in the given room.
    fn is_in(&self, handle: &RoomHandle) -> (res: bool)
        ensures
            res == (self@.room == Some(handle@)),
    {
        match &self.room {
            Some(room) => room.same_room(handle),
            None => false,
        }
    }

    /// Goes on with what waited for a snapshot, once it is known whether that
    /// was saved. A connection that was closed meanwhile stays outside.
    pub fn resume(
        &mut self,
        registry: &mut Registry,
        pending: Pending,
        persisted: bool,
        now: Now,
    ) -> (res: Effects)
        ensures
            (Handling {
                connection: final(self)@,
                registry: final(registry)@,
                decision: Decision::Done(res@),
            }) == match pending {
                Pending::Leave(seat) => old(self)@.on_leave_persisted(
                    old(registry)@,
                    seat@,
                    persisted,
                    now,
                ),
                Pending::EndSession(room, guests) => old(self)@.on_end_persisted(
                    old(registry)@,
                    room@,
                    guests@,
                    persisted,
                ),
            },
    {
        match pending {
            Pending::Leave(seat) => {
                let effects = registry.finish_leave(
                    &seat.room,
                    seat.peer_id.as_str(),
                    seat.conn_id,
                    persisted,
                    now.wall,
                );
                let failed = match &effects.reply {
                    Some(reply) => reply.code.is_some(),
                    None => false,
                };
                let seated = self.is_in(&seat.room) && self.conn_id == seat.conn_id && str_eq(
                    self.peer_id.as_str(),
                    seat.peer_id.as_str(),
                );
                if seated && !failed {
                    self.exit();
                }
                effects
            },
            Pending::EndSession(room, guests) => {
                let effects = registry.finish_end_session(&room, guests, persisted);
                if self.is_in(&room) {
                    self.exit();
                }
                effects
            },
        }
    }

    /// The connection went away: the room that it was in learns of it.
    pub fn close(&mut self, registry: &mut Registry, now: Now) -> (res: Effects)
        ensures
            (Handling {
                connection: final(self)@,
                registry: final(registry)@,
                decision: Decision::Done(res@),
            }) == old(self)@.on_close(old(registry)@, now),
    {
        let mut room: Option<RoomHandle> = None;
        std::mem::swap(&mut room, &mut self.room);
        match room {
            Some(handle) => {
                if self.peer_id.as_str().is_empty() {
                    Default::default()
                } else {
                    registry.disconnect(&handle, self.peer_id.as_str(), self.conn_id, now)
                }
            },
            None => Default::default(),
        }
    }
}

} // verus!
