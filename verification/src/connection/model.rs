//! What a connection knows of where it is, and what a message makes of it,
//! mathematically.

use crate::clock::Now;
use crate::error::ClientError;
use crate::ids::is_valid_id;
use crate::protocol::{
    bare_message, capability, client_type, server_type, ClientMessageView, ServerMessage,
    ServerMessageView, MAX_PEER_ID_LENGTH, RELAY_PROTOCOL_VERSION,
};
use crate::id_map::others;
use crate::registry::model::{HandleView, RegistryView};
use crate::room::ids_are_valid;
use crate::room::model::{no_effects, queues_of, refusal, AdmissionView, EffectsView, Outcome};
use tokio::sync::mpsc::Sender;
use tokio_util::sync::CancellationToken;
use vstd::prelude::*;

verus! {

#[verifier::ext_equal]
pub struct ConnectionView {
    pub room: Option<HandleView>,
    pub peer_id: Seq<char>,
    pub conn_id: u64,
    pub cancel: Option<CancellationToken>,
}

/// The identity that a connection speaks for in a room.
pub struct SeatView {
    pub room: HandleView,
    pub peer_id: Seq<char>,
    pub conn_id: u64,
}

/// What comes of a message.
pub enum Decision {
    /// The effects are carried out.
    Done(EffectsView),
    /// A `leave` waits for a snapshot.
    PersistLeave(SeatView),
    /// An `endSession` waits for a snapshot; the guests learn of the outcome.
    PersistEnd(HandleView, Seq<Sender<ServerMessage>>),
}

#[verifier::ext_equal]
pub struct Handling {
    pub connection: ConnectionView,
    pub registry: RegistryView,
    pub decision: Decision,
}

/// The answer to a client that speaks another version of the protocol.
pub open spec fn mismatch_message() -> ServerMessageView {
    ServerMessageView {
        protocol_version: RELAY_PROTOCOL_VERSION,
        ..ClientError::ProtocolMismatch.message("Unsupported relay protocol version"@)
    }
}

/// The caller gets `msg`, and nothing else is done.
pub open spec fn reply_only(msg: ServerMessageView) -> EffectsView {
    EffectsView { reply: Some(msg), ..no_effects() }
}

/// What a message says of the connection that asks to be admitted.
pub open spec fn admission_for(
    msg: ClientMessageView,
    tx: Sender<ServerMessage>,
) -> AdmissionView {
    AdmissionView {
        peer_id: msg.peer_id,
        tx,
        sync_protocol_version: msg.sync_protocol_version,
        host_transfer_capable: msg.capabilities.contains(capability::HOST_TRANSFER@),
    }
}

/// The reply, if there is one, reports an error.
pub open spec fn reports_error(effects: EffectsView) -> bool {
    effects.reply is Some && effects.reply->0.code is Some
}

impl ConnectionView {
    /// A connection that is in no room.
    pub open spec fn fresh() -> ConnectionView {
        ConnectionView { room: None, peer_id: Seq::empty(), conn_id: 0, cancel: None }
    }

    /// The connection once it was admitted into a room.
    pub open spec fn inside(
        self,
        handle: HandleView,
        peer_id: Seq<char>,
        effects: EffectsView,
    ) -> ConnectionView {
        match effects.assigned_conn_id {
            Some(conn_id) => ConnectionView {
                room: Some(handle),
                peer_id,
                conn_id,
                cancel: effects.assigned_cancel,
            },
            None => self,
        }
    }

    /// The connection once it is in no room any more.
    pub open spec fn outside(self) -> ConnectionView {
        ConnectionView { room: None, peer_id: Seq::empty(), cancel: None, ..self }
    }

    /// Nothing changes but what the effects say.
    pub open spec fn unchanged(self, registry: RegistryView, effects: EffectsView) -> Handling {
        Handling { connection: self, registry, decision: Decision::Done(effects) }
    }

    /// The room changes as the outcome says.
    pub open spec fn room_changed(self, registry: RegistryView, outcome: Outcome) -> Handling {
        Handling {
            connection: self,
            registry: registry.with_room_at(self.room->0, outcome.room),
            decision: Decision::Done(outcome.effects),
        }
    }

    /// A client asks for a room of its own.
    pub open spec fn on_create(
        self,
        registry: RegistryView,
        msg: ClientMessageView,
        tx: Sender<ServerMessage>,
        ip_key: Seq<char>,
        now: Now,
        cancel: CancellationToken,
    ) -> Handling {
        if !ids_are_valid(msg.session_id, msg.peer_id) {
            self.unchanged(
                registry,
                refusal(ClientError::InvalidMessage, "Invalid sessionId or peerId"@),
            )
        } else if msg.protocol_version != RELAY_PROTOCOL_VERSION {
            self.unchanged(registry, reply_only(mismatch_message()))
        } else {
            let creation = registry.create(
                msg.session_id,
                msg.peer_id,
                msg.reconnect_token,
                ip_key,
                admission_for(msg, tx),
                now,
                cancel,
            );
            Handling {
                connection: match creation.handle {
                    Some(handle) => self.inside(handle, msg.peer_id, creation.effects),
                    None => self,
                },
                registry: creation.registry,
                decision: Decision::Done(creation.effects),
            }
        }
    }

    /// A client asks to join a room, or to resume an identity that it has there.
    pub open spec fn on_join(
        self,
        registry: RegistryView,
        msg: ClientMessageView,
        resume_only: bool,
        tx: Sender<ServerMessage>,
        now: Now,
        cancel: CancellationToken,
    ) -> Handling {
        if !ids_are_valid(msg.session_id, msg.peer_id) {
            self.unchanged(
                registry,
                refusal(ClientError::InvalidMessage, "Invalid sessionId or peerId"@),
            )
        } else if msg.protocol_version != RELAY_PROTOCOL_VERSION {
            self.unchanged(registry, reply_only(mismatch_message()))
        } else {
            match registry.get(msg.session_id) {
                None => self.unchanged(
                    registry,
                    refusal(ClientError::RoomNotFound, "Room does not exist"@),
                ),
                Some(handle) => {
                    let outcome = registry.room_at(handle).join_or_resume(
                        msg,
                        admission_for(msg, tx),
                        resume_only,
                        now,
                        cancel,
                    );
                    Handling {
                        connection: self.inside(handle, msg.peer_id, outcome.effects),
                        registry: registry.with_room_at(handle, outcome.room),
                        decision: Decision::Done(outcome.effects),
                    }
                },
            }
        }
    }

    /// A client asks to give up its identity in the room it is in.
    pub open spec fn on_leave(self, registry: RegistryView, msg: ClientMessageView) -> Handling {
        let room = registry.room_at(self.room->0);
        if room.may_leave(self.peer_id, self.conn_id, msg.reconnect_token, msg.protocol_version) {
            Handling {
                connection: self,
                registry: registry.with_room_at(
                    self.room->0,
                    room.with_release(self.peer_id, true),
                ),
                decision: Decision::PersistLeave(
                    SeatView {
                        room: self.room->0,
                        peer_id: self.peer_id,
                        conn_id: self.conn_id,
                    },
                ),
            }
        } else {
            self.unchanged(
                registry,
                refusal(ClientError::PeerIdUnavailable, "Unable to release peer identity"@),
            )
        }
    }

    /// A client asks to end the room it is in. Refused or not, it is in no room
    /// afterwards.
    pub open spec fn on_end_session(
        self,
        registry: RegistryView,
        msg: ClientMessageView,
    ) -> Handling {
        let room = registry.room_at(self.room->0);
        if room.may_end_session(
            self.peer_id,
            self.conn_id,
            msg.reconnect_token,
            msg.protocol_version,
        ) {
            Handling {
                connection: self,
                registry: registry.end_begun(self.room->0),
                decision: Decision::PersistEnd(
                    self.room->0,
                    queues_of(others(room.peers, self.peer_id)),
                ),
            }
        } else {
            self.outside().unchanged(
                registry,
                refusal(ClientError::PeerIdUnavailable, "Unable to end room"@),
            )
        }
    }

    /// A client that is in a room sends something there.
    pub open spec fn on_room_message(
        self,
        registry: RegistryView,
        msg: ClientMessageView,
        now: Now,
    ) -> Handling {
        let room = registry.room_at(self.room->0);
        if msg.msg_type == client_type::LEAVE@ {
            self.on_leave(registry, msg)
        } else if msg.msg_type == client_type::END_SESSION@ {
            self.on_end_session(registry, msg)
        } else if msg.msg_type == client_type::BROADCAST@ {
            self.room_changed(
                registry,
                room.broadcast(self.peer_id, self.conn_id, msg.payload, now.wall),
            )
        } else if !is_valid_id(msg.to, MAX_PEER_ID_LENGTH as nat) {
            self.unchanged(registry, refusal(ClientError::InvalidMessage, "Invalid to field"@))
        } else if msg.msg_type == client_type::TRANSFER_HOST@ {
            self.room_changed(
                registry,
                room.transfer_host(self.peer_id, self.conn_id, msg.protocol_version, msg.to),
            )
        } else {
            self.room_changed(
                registry,
                room.send_to(self.peer_id, self.conn_id, msg.to, msg.payload, now.wall),
            )
        }
    }

    /// A client sends a message.
    pub open spec fn on_message(
        self,
        registry: RegistryView,
        msg: ClientMessageView,
        tx: Sender<ServerMessage>,
        ip_key: Seq<char>,
        now: Now,
        cancel: CancellationToken,
    ) -> Handling {
        if msg.msg_type == client_type::PING@ {
            self.unchanged(registry, reply_only(bare_message(server_type::PONG@)))
        } else if is_transition(msg.msg_type) && self.room is Some {
            self.unchanged(
                registry,
                refusal(
                    ClientError::AlreadyInRoom,
                    "Leave the current room before creating or joining another"@,
                ),
            )
        } else if msg.msg_type == client_type::CREATE@ {
            self.on_create(registry, msg, tx, ip_key, now, cancel)
        } else if is_transition(msg.msg_type) {
            self.on_join(
                registry,
                msg,
                msg.msg_type == client_type::RESUME@,
                tx,
                now,
                cancel,
            )
        } else if !is_room_message(msg.msg_type) {
            self.unchanged(registry, refusal(ClientError::InvalidMessage, "Unknown message type"@))
        } else if self.room is None {
            self.unchanged(registry, refusal(ClientError::NotInRoom, "Not in a room"@))
        } else {
            self.on_room_message(registry, msg, now)
        }
    }

    /// The connection is the one that has the given seat.
    pub open spec fn is_seated(self, seat: SeatView) -> bool {
        &&& self.room == Some(seat.room)
        &&& self.peer_id == seat.peer_id
        &&& self.conn_id == seat.conn_id
    }

    /// A `leave` that waited for a snapshot goes on, whatever became of the
    /// connection meanwhile. One that is still there stays in the room if the
    /// client is told of an error, and only then.
    pub open spec fn on_leave_persisted(
        self,
        registry: RegistryView,
        seat: SeatView,
        persisted: bool,
        now: Now,
    ) -> Handling {
        let outcome = registry.room_at(seat.room).leave_finished(
            seat.peer_id,
            seat.conn_id,
            persisted,
            now.wall,
        );
        Handling {
            connection: if self.is_seated(seat) && !reports_error(outcome.effects) {
                self.outside()
            } else {
                self
            },
            registry: registry.with_room_at(seat.room, outcome.room),
            decision: Decision::Done(outcome.effects),
        }
    }

    /// An `endSession` that waited for a snapshot goes on, whatever became of
    /// the connection meanwhile.
    pub open spec fn on_end_persisted(
        self,
        registry: RegistryView,
        room: HandleView,
        guests: Seq<Sender<ServerMessage>>,
        persisted: bool,
    ) -> Handling {
        let outcome = registry.end_finished(room, guests, persisted);
        let connection = if self.room == Some(room) {
            self.outside()
        } else {
            self
        };
        connection.unchanged(outcome.registry, outcome.effects)
    }

    /// The connection went away.
    pub open spec fn on_close(self, registry: RegistryView, now: Now) -> Handling {
        if self.room is Some && self.peer_id.len() > 0 {
            let outcome = registry.room_at(self.room->0).disconnected(
                self.peer_id,
                self.conn_id,
                now,
            );
            Handling {
                connection: ConnectionView { room: None, ..self },
                ..self.room_changed(registry, outcome)
            }
        } else {
            Handling {
                connection: ConnectionView { room: None, ..self },
                ..self.unchanged(registry, no_effects())
            }
        }
    }
}

/// A message that takes a client into a room.
pub open spec fn is_transition(msg_type: Seq<char>) -> bool {
    ||| msg_type == client_type::CREATE@
    ||| msg_type == client_type::JOIN@
    ||| msg_type == client_type::RESUME@
}

/// A message for the room that a client is in.
pub open spec fn is_room_message(msg_type: Seq<char>) -> bool {
    ||| msg_type == client_type::LEAVE@
    ||| msg_type == client_type::END_SESSION@
    ||| msg_type == client_type::TRANSFER_HOST@
    ||| msg_type == client_type::BROADCAST@
    ||| msg_type == client_type::SEND_TO@
}

} // verus!
