//! What a room is and what each operation makes of it, mathematically.
//!
//! A room is a [`RoomView`]; an operation takes one to an [`Outcome`]: the room
//! afterwards and the effects that the caller has to carry out.

use crate::clock::{elapsed, Monotonic, Now, WallTime};
use crate::error::ClientError;
use crate::host_transfer::{target_ids, target_is_valid, PeerInfoView};
use crate::id_map::{has_key, keys, lookup, others, put, unique_keys, without};
use crate::ids::{is_valid_id, verifier_of_token};
use crate::protocol::{
    bare_message, features_announced, server_type, ClientMessageView, ServerMessage,
    ServerMessageView, MAX_PEER_ID_LENGTH, MAX_ROOM_SIZE, RELAY_PROTOCOL_VERSION,
};
use crate::room::{ConnectedPeer, PEER_RESERVATION_GRACE};
use crate::snapshot::{saved_room, RestoredReservationView, RoomDtoView};
use tokio::sync::mpsc::Sender;
use tokio_util::sync::CancellationToken;
use vstd::prelude::*;

verus! {

pub struct ReservationView {
    pub verifier: Seq<u8>,
    pub absent_since: Option<Monotonic>,
    pub release_pending: bool,
}

pub struct AdmissionView {
    pub peer_id: Seq<char>,
    pub tx: Sender<ServerMessage>,
    pub sync_protocol_version: i32,
    pub host_transfer_capable: bool,
}

pub struct OutboundView {
    pub tx: Sender<ServerMessage>,
    pub msg: ServerMessageView,
}

#[verifier::ext_equal]
pub struct EffectsView {
    pub reply: Option<ServerMessageView>,
    pub broadcast: Seq<OutboundView>,
    pub evict: Seq<CancellationToken>,
    pub dirty: bool,
    pub assigned_conn_id: Option<u64>,
    pub assigned_cancel: Option<CancellationToken>,
}

#[verifier::ext_equal]
pub struct RoomView {
    pub session_id: Seq<char>,
    pub host_peer_id: Seq<char>,
    pub host_verifier: Seq<u8>,
    pub peers: Seq<(Seq<char>, ConnectedPeer)>,
    pub reservations: Seq<(Seq<char>, ReservationView)>,
    pub owner_ip_key: Seq<char>,
    pub created_at: WallTime,
    pub last_activity_at: WallTime,
    pub closing: bool,
    pub next_conn_id: u64,
}

#[verifier::ext_equal]
pub struct Outcome {
    pub room: RoomView,
    pub effects: EffectsView,
}

/// Nothing is to be done.
pub open spec fn no_effects() -> EffectsView {
    EffectsView {
        reply: None,
        broadcast: Seq::empty(),
        evict: Seq::empty(),
        dirty: false,
        assigned_conn_id: None,
        assigned_cancel: None,
    }
}

/// The caller is told of an error, and nothing else is done.
pub open spec fn refusal(err: ClientError, text: Seq<char>) -> EffectsView {
    EffectsView { reply: Some(err.message(text)), ..no_effects() }
}

/// `msg` goes to each of the given peers.
pub open spec fn outbound_to(
    peers: Seq<(Seq<char>, ConnectedPeer)>,
    msg: ServerMessageView,
) -> Seq<OutboundView> {
    peers.map_values(|e: (Seq<char>, ConnectedPeer)| OutboundView { tx: e.1.tx, msg })
}

/// `msg` goes out on each of the given queues.
pub open spec fn outbound_on(
    queues: Seq<Sender<ServerMessage>>,
    msg: ServerMessageView,
) -> Seq<OutboundView> {
    queues.map_values(|tx: Sender<ServerMessage>| OutboundView { tx, msg })
}

/// The outbound queues of the given peers.
pub open spec fn queues_of(peers: Seq<(Seq<char>, ConnectedPeer)>) -> Seq<Sender<ServerMessage>> {
    peers.map_values(|e: (Seq<char>, ConnectedPeer)| e.1.tx)
}

/// The shutdown tokens of the given peers.
pub open spec fn tokens_of(peers: Seq<(Seq<char>, ConnectedPeer)>) -> Seq<CancellationToken> {
    peers.map_values(|e: (Seq<char>, ConnectedPeer)| e.1.cancel)
}

/// What the given peers' admissions said about host transfer.
pub open spec fn infos_of(peers: Seq<(Seq<char>, ConnectedPeer)>) -> Seq<PeerInfoView> {
    peers.map_values(
        |e: (Seq<char>, ConnectedPeer)|
            PeerInfoView {
                peer_id: e.0,
                sync_protocol_version: e.1.sync_protocol_version,
                host_transfer_capable: e.1.host_transfer_capable,
            },
    )
}

pub open spec fn peer_joined_message(peer_id: Seq<char>) -> ServerMessageView {
    ServerMessageView { peer_id: Some(peer_id), ..bare_message(server_type::PEER_JOINED@) }
}

pub open spec fn peer_left_message(peer_id: Seq<char>) -> ServerMessageView {
    ServerMessageView { peer_id: Some(peer_id), ..bare_message(server_type::PEER_LEFT@) }
}

/// A relayed payload.
pub open spec fn relayed_message(
    from: Seq<char>,
    payload: Option<Seq<char>>,
) -> ServerMessageView {
    ServerMessageView { from: Some(from), payload, ..bare_message(server_type::MESSAGE@) }
}

/// A disconnected identity's grace period has run out.
pub open spec fn grace_is_over(r: ReservationView, now: Monotonic) -> bool {
    match r.absent_since {
        Some(since) => elapsed(since.at(), now.at()) >= PEER_RESERVATION_GRACE,
        None => false,
    }
}

impl RoomView {
    /// The room that `create` makes, its host admitted.
    pub open spec fn created(
        session_id: Seq<char>,
        host_peer_id: Seq<char>,
        host_verifier: Seq<u8>,
        owner_ip_key: Seq<char>,
        host: AdmissionView,
        now: Now,
        cancel: CancellationToken,
    ) -> Outcome {
        let room = RoomView {
            session_id,
            host_peer_id,
            host_verifier,
            peers: seq![
                (
                    host_peer_id,
                    ConnectedPeer {
                        tx: host.tx,
                        sync_protocol_version: host.sync_protocol_version,
                        host_transfer_capable: host.host_transfer_capable,
                        conn_id: 1,
                        cancel,
                    },
                ),
            ],
            reservations: Seq::empty(),
            owner_ip_key,
            created_at: now.wall,
            last_activity_at: now.wall,
            closing: false,
            next_conn_id: 2,
        };
        Outcome {
            room,
            effects: EffectsView {
                reply: Some(
                    ServerMessageView {
                        session_id: Some(session_id),
                        host_peer_id: Some(host_peer_id),
                        protocol_version: RELAY_PROTOCOL_VERSION,
                        features: Some(features_announced()),
                        ..bare_message(server_type::CREATED@)
                    },
                ),
                broadcast: room.eligibility_news(),
                dirty: true,
                assigned_conn_id: Some(1),
                assigned_cancel: Some(cancel),
                ..no_effects()
            },
        }
    }

    /// The room that is restored from a snapshot: nobody is connected, and no
    /// identity is being released.
    pub open spec fn restored(
        session_id: Seq<char>,
        host_peer_id: Seq<char>,
        host_verifier: Seq<u8>,
        owner_ip_key: Seq<char>,
        reservations: Seq<(Seq<char>, RestoredReservationView)>,
        created_at: WallTime,
        last_activity_at: WallTime,
    ) -> RoomView {
        RoomView {
            session_id,
            host_peer_id,
            host_verifier,
            peers: Seq::empty(),
            reservations: reservations.map_values(
                |e: (Seq<char>, RestoredReservationView)|
                    (
                        e.0,
                        ReservationView {
                            verifier: e.1.verifier,
                            absent_since: e.1.absent_since,
                            release_pending: false,
                        },
                    ),
            ),
            owner_ip_key,
            created_at,
            last_activity_at,
            closing: false,
            next_conn_id: 1,
        }
    }

    /// The room is open, `host_peer_id` is its host, and `verifier` is that
    /// host's.
    pub open spec fn is_hosted_by(self, host_peer_id: Seq<char>, verifier: Seq<u8>) -> bool {
        !self.closing && self.host_peer_id == host_peer_id && self.host_verifier == verifier
    }

    /// The room is open and nobody is connected to it.
    pub open spec fn is_reclaimable(self) -> bool {
        !self.closing && self.peers.len() == 0
    }

    /// What is saved of the room.
    pub open spec fn saved(self, now: Now) -> RoomDtoView {
        saved_room(
            self.session_id,
            self.host_peer_id,
            self.host_verifier,
            self.reservations,
            self.created_at,
            self.last_activity_at,
            now,
        )
    }

    /// `peer_id` has a live connection.
    pub open spec fn connected(self, peer_id: Seq<char>) -> bool {
        has_key(self.peers, peer_id)
    }

    /// The connection `conn_id` is the one that speaks for `peer_id` now.
    pub open spec fn is_current(self, peer_id: Seq<char>, conn_id: u64) -> bool {
        match lookup(self.peers, peer_id) {
            Some(peer) => peer.conn_id == conn_id,
            None => false,
        }
    }

    /// `peer_id` is reserved and not about to be released.
    pub open spec fn holds_reservation(self, peer_id: Seq<char>) -> bool {
        match lookup(self.reservations, peer_id) {
            Some(r) => !r.release_pending,
            None => false,
        }
    }

    /// The reservation of `peer_id` is about to be released.
    pub open spec fn release_is_pending(self, peer_id: Seq<char>) -> bool {
        match lookup(self.reservations, peer_id) {
            Some(r) => r.release_pending,
            None => false,
        }
    }

    /// The room with `peers` in place of its connected peers.
    pub open spec fn with_peers(self, peers: Seq<(Seq<char>, ConnectedPeer)>) -> RoomView {
        RoomView { peers, ..self }
    }

    /// The room with `reservations` in place of its own.
    pub open spec fn with_reservations(
        self,
        reservations: Seq<(Seq<char>, ReservationView)>,
    ) -> RoomView {
        RoomView { reservations, ..self }
    }

    /// The room after activity at the given time.
    pub open spec fn active_at(self, at: WallTime) -> RoomView {
        RoomView { last_activity_at: at, ..self }
    }

    /// `msg` goes to every connected peer but `peer_id`.
    pub open spec fn to_others(self, peer_id: Seq<char>, msg: ServerMessageView) -> Seq<
        OutboundView,
    > {
        outbound_to(others(self.peers, peer_id), msg)
    }

    /// `target` may take over as host.
    pub open spec fn may_hand_over_to(self, target: Seq<char>) -> bool {
        target_is_valid(
            self.host_peer_id,
            infos_of(self.peers),
            |id: Seq<char>| self.holds_reservation(id),
            target,
        )
    }

    /// Every capable peer learns which peers may take over as host.
    pub open spec fn eligibility_news(self) -> Seq<OutboundView> {
        outbound_to(
            self.peers.filter(|e: (Seq<char>, ConnectedPeer)| e.1.host_transfer_capable),
            ServerMessageView {
                session_id: Some(self.session_id),
                host_peer_id: Some(self.host_peer_id),
                host_transfer_targets: Some(
                    target_ids(
                        self.host_peer_id,
                        infos_of(self.peers),
                        |id: Seq<char>| self.holds_reservation(id),
                    ),
                ),
                ..bare_message(server_type::HOST_TRANSFER_ELIGIBILITY@)
            },
        )
    }

    /// The room with a fresh connection admitted under `peer_id`, in place of an
    /// earlier one.
    pub open spec fn admitted(
        self,
        peer_id: Seq<char>,
        admission: AdmissionView,
        cancel: CancellationToken,
    ) -> RoomView {
        RoomView {
            peers: put(
                self.peers,
                peer_id,
                ConnectedPeer {
                    tx: admission.tx,
                    sync_protocol_version: admission.sync_protocol_version,
                    host_transfer_capable: admission.host_transfer_capable,
                    conn_id: self.next_conn_id,
                    cancel,
                },
            ),
            next_conn_id: (self.next_conn_id + 1) as u64,
            ..self
        }
    }

    /// The token of the live connection under `peer_id`, if there is one.
    pub open spec fn replaced(self, peer_id: Seq<char>) -> Seq<CancellationToken> {
        match lookup(self.peers, peer_id) {
            Some(peer) => seq![peer.cancel],
            None => Seq::empty(),
        }
    }

    /// The reply that admits `peer_id`, naming the other connected peers.
    pub open spec fn admission_reply(
        self,
        msg_type: Seq<char>,
        peer_id: Seq<char>,
        token: Option<Seq<char>>,
    ) -> ServerMessageView {
        ServerMessageView {
            session_id: Some(self.session_id),
            host_peer_id: Some(self.host_peer_id),
            reconnect_token: token,
            protocol_version: RELAY_PROTOCOL_VERSION,
            peers: Some(keys(others(self.peers, peer_id))),
            features: Some(features_announced()),
            ..bare_message(msg_type)
        }
    }

    /// The host connects again.
    pub open spec fn host_reconnected(
        self,
        host: AdmissionView,
        cancel: CancellationToken,
    ) -> Outcome {
        let room = self.admitted(self.host_peer_id, host, cancel);
        Outcome {
            room,
            effects: EffectsView {
                reply: Some(
                    room.admission_reply(server_type::CREATED@, self.host_peer_id, None),
                ),
                broadcast: if self.connected(self.host_peer_id) {
                    room.eligibility_news()
                } else {
                    room.to_others(self.host_peer_id, peer_joined_message(self.host_peer_id))
                        + room.eligibility_news()
                },
                evict: self.replaced(self.host_peer_id),
                dirty: true,
                assigned_conn_id: Some(self.next_conn_id),
                assigned_cancel: Some(cancel),
            },
        }
    }

    /// The reservations that outlive the moment `now`: those being released,
    /// those of connected peers, and those within their grace period.
    pub open spec fn pruned(self, now: Monotonic) -> RoomView {
        self.with_reservations(
            self.reservations.filter(
                |e: (Seq<char>, ReservationView)|
                    e.1.release_pending || self.connected(e.0) || !grace_is_over(e.1, now),
            ),
        )
    }

    /// A token with the verifier `presented` may claim `peer_id`: it matches
    /// the identity's verifier, or it claims a new identity by a plain `join`.
    pub open spec fn authorizes(
        self,
        peer_id: Seq<char>,
        presented: Option<Seq<u8>>,
        resume_only: bool,
    ) -> bool {
        if peer_id == self.host_peer_id {
            presented == Some(self.host_verifier)
        } else {
            match lookup(self.reservations, peer_id) {
                Some(r) => !r.release_pending && presented == Some(r.verifier),
                None => !self.connected(peer_id) && !resume_only && presented is Some,
            }
        }
    }

    /// `peer_id` would be one identity more.
    pub open spec fn is_new_identity(self, peer_id: Seq<char>) -> bool {
        &&& !self.connected(peer_id)
        &&& peer_id != self.host_peer_id
        &&& !has_key(self.reservations, peer_id)
    }

    /// The peer `peer_id` is let in, as host or guest.
    pub open spec fn let_in(
        self,
        peer_id: Seq<char>,
        verifier: Seq<u8>,
        admission: AdmissionView,
        now: WallTime,
        cancel: CancellationToken,
    ) -> RoomView {
        let admitted = self.admitted(peer_id, admission, cancel).active_at(now);
        if peer_id == self.host_peer_id {
            admitted
        } else {
            admitted.with_reservations(
                put(
                    self.reservations,
                    peer_id,
                    ReservationView { verifier, absent_since: None, release_pending: false },
                ),
            )
        }
    }

    /// A peer asks to join, or to resume an identity that it has.
    pub open spec fn join_or_resume(
        self,
        msg: ClientMessageView,
        admission: AdmissionView,
        resume_only: bool,
        now: Now,
        cancel: CancellationToken,
    ) -> Outcome {
        let peer_id = admission.peer_id;
        let presented = verifier_of_token(msg.reconnect_token);
        let before = self.pruned(now.mono);
        if self.closing {
            Outcome {
                room: self,
                effects: refusal(ClientError::RoomNotFound, "Room does not exist"@),
            }
        } else if !before.authorizes(peer_id, presented, resume_only) {
            Outcome {
                room: before,
                effects: refusal(ClientError::PeerIdUnavailable, "Peer ID is unavailable"@),
            }
        } else if before.is_new_identity(peer_id) && before.reservations.len() >= MAX_ROOM_SIZE
            - 1 {
            Outcome { room: before, effects: refusal(ClientError::RoomFull, "Room is full"@) }
        } else {
            let room = before.let_in(peer_id, presented->0, admission, now.wall, cancel);
            let msg_type = if resume_only {
                server_type::RESUMED@
            } else {
                server_type::JOINED@
            };
            Outcome {
                room,
                effects: EffectsView {
                    reply: Some(
                        room.admission_reply(msg_type, peer_id, Some(msg.reconnect_token)),
                    ),
                    broadcast: room.to_others(peer_id, peer_joined_message(peer_id))
                        + room.eligibility_news(),
                    evict: before.replaced(peer_id),
                    dirty: true,
                    assigned_conn_id: Some(before.next_conn_id),
                    assigned_cancel: Some(cancel),
                },
            }
        }
    }

    /// The connection may release the identity `peer_id`: it is the current one
    /// of a guest and presents the guest's token.
    pub open spec fn may_leave(
        self,
        peer_id: Seq<char>,
        conn_id: u64,
        token: Seq<char>,
        protocol_version: u32,
    ) -> bool {
        &&& !self.closing
        &&& self.is_current(peer_id, conn_id)
        &&& peer_id != self.host_peer_id
        &&& protocol_version == RELAY_PROTOCOL_VERSION
        &&& self.holds_reservation(peer_id)
        &&& verifier_of_token(token) == Some(lookup(self.reservations, peer_id)->0.verifier)
    }

    /// The room with the release of `peer_id` pending, or no longer pending.
    pub open spec fn with_release(self, peer_id: Seq<char>, pending: bool) -> RoomView {
        self.with_reservations(
            put(
                self.reservations,
                peer_id,
                ReservationView {
                    release_pending: pending,
                    ..lookup(self.reservations, peer_id)->0
                },
            ),
        )
    }

    /// The `leave` of the connection `conn_id` waits for its snapshot. That
    /// connection may have gone away meanwhile; no other has taken its place.
    pub open spec fn leave_in_flight(self, peer_id: Seq<char>, conn_id: u64) -> bool {
        &&& self.release_is_pending(peer_id)
        &&& self.connected(peer_id) ==> self.is_current(peer_id, conn_id)
    }

    /// A `leave` ends, after its snapshot was saved or not: the identity is
    /// free, or it is held as before. Where the connection has gone away
    /// meanwhile, nobody is left to be told.
    pub open spec fn leave_finished(
        self,
        peer_id: Seq<char>,
        conn_id: u64,
        persisted: bool,
        now: WallTime,
    ) -> Outcome {
        if !self.leave_in_flight(peer_id, conn_id) {
            Outcome { room: self, effects: no_effects() }
        } else if !self.connected(peer_id) {
            Outcome {
                room: if persisted {
                    self.with_reservations(without(self.reservations, peer_id))
                } else {
                    self.with_release(peer_id, false)
                },
                effects: EffectsView { dirty: true, ..no_effects() },
            }
        } else if !persisted {
            Outcome {
                room: self.with_release(peer_id, false),
                effects: refusal(
                    ClientError::InvalidMessage,
                    "Unable to persist released peer identity"@,
                ),
            }
        } else {
            let room = self.with_peers(without(self.peers, peer_id)).with_reservations(
                without(self.reservations, peer_id),
            ).active_at(now);
            Outcome {
                room,
                effects: EffectsView {
                    reply: Some(
                        ServerMessageView {
                            session_id: Some(self.session_id),
                            peer_id: Some(peer_id),
                            protocol_version: RELAY_PROTOCOL_VERSION,
                            ..bare_message(server_type::LEFT@)
                        },
                    ),
                    broadcast: room.to_others(peer_id, peer_left_message(peer_id))
                        + room.eligibility_news(),
                    dirty: true,
                    ..no_effects()
                },
            }
        }
    }

    /// The connection may end the session: it is the host's current one and
    /// presents the host's token.
    pub open spec fn may_end_session(
        self,
        peer_id: Seq<char>,
        conn_id: u64,
        token: Seq<char>,
        protocol_version: u32,
    ) -> bool {
        &&& !self.closing
        &&& peer_id == self.host_peer_id
        &&& self.is_current(peer_id, conn_id)
        &&& protocol_version == RELAY_PROTOCOL_VERSION
        &&& verifier_of_token(token) == Some(self.host_verifier)
    }

    /// The room once its end has begun.
    pub open spec fn closed(self) -> RoomView {
        RoomView { closing: true, ..self }
    }

    /// An `endSession` ends, after its snapshot was saved or not. `guests` are
    /// the queues that learn of it.
    pub open spec fn session_ended(
        self,
        guests: Seq<Sender<ServerMessage>>,
        persisted: bool,
    ) -> Outcome {
        let ended = ServerMessageView {
            session_id: Some(self.session_id),
            protocol_version: RELAY_PROTOCOL_VERSION,
            ..bare_message(server_type::ENDED@)
        };
        Outcome {
            room: self.with_peers(Seq::empty()).with_reservations(Seq::empty()),
            effects: if persisted {
                EffectsView {
                    reply: Some(ended),
                    broadcast: outbound_on(guests, ended),
                    evict: tokens_of(self.peers),
                    ..no_effects()
                }
            } else {
                EffectsView {
                    evict: tokens_of(self.peers),
                    ..refusal(ClientError::InvalidMessage, "Unable to persist ended room"@)
                }
            },
        }
    }

    /// `target` takes over as host; the host so far becomes a reserved guest.
    pub open spec fn handed_over_to(self, target: Seq<char>) -> RoomView {
        RoomView {
            host_peer_id: target,
            host_verifier: lookup(self.reservations, target)->0.verifier,
            reservations: put(
                without(self.reservations, target),
                self.host_peer_id,
                ReservationView {
                    verifier: self.host_verifier,
                    absent_since: None,
                    release_pending: false,
                },
            ),
            ..self
        }
    }

    /// A peer asks that `target` take over as host.
    pub open spec fn transfer_host(
        self,
        peer_id: Seq<char>,
        conn_id: u64,
        protocol_version: u32,
        target: Seq<char>,
    ) -> Outcome {
        let refused = |err: ClientError, text: Seq<char>|
            Outcome { room: self, effects: refusal(err, text) };
        if self.closing || !self.is_current(peer_id, conn_id) || protocol_version
            != RELAY_PROTOCOL_VERSION {
            refused(ClientError::PeerIdUnavailable, "Unable to transfer host authority"@)
        } else if peer_id != self.host_peer_id {
            refused(ClientError::NotHost, "Only the host can transfer host authority"@)
        } else if !is_valid_id(target, MAX_PEER_ID_LENGTH as nat) || target == peer_id
            || !self.connected(target) || !self.holds_reservation(target) {
            refused(ClientError::PeerNotFound, "Target peer not found"@)
        } else if !self.may_hand_over_to(target) {
            refused(
                ClientError::HostTransferUnavailable,
                "The current room roster cannot follow a host transfer"@,
            )
        } else {
            let room = self.handed_over_to(target);
            Outcome {
                room,
                effects: EffectsView {
                    broadcast: outbound_to(
                        room.peers,
                        ServerMessageView {
                            session_id: Some(self.session_id),
                            host_peer_id: Some(target),
                            from: Some(self.host_peer_id),
                            ..bare_message(server_type::HOST_CHANGED@)
                        },
                    ) + room.eligibility_news(),
                    dirty: true,
                    ..no_effects()
                },
            }
        }
    }

    /// A peer sends a payload to every other one.
    pub open spec fn broadcast(
        self,
        sender_id: Seq<char>,
        conn_id: u64,
        payload: Option<Seq<char>>,
        now: WallTime,
    ) -> Outcome {
        if self.closing || !self.is_current(sender_id, conn_id) {
            Outcome { room: self, effects: no_effects() }
        } else {
            Outcome {
                room: self.active_at(now),
                effects: EffectsView {
                    broadcast: self.to_others(sender_id, relayed_message(sender_id, payload)),
                    ..no_effects()
                },
            }
        }
    }

    /// A peer sends a payload to one other.
    pub open spec fn send_to(
        self,
        sender_id: Seq<char>,
        conn_id: u64,
        target_id: Seq<char>,
        payload: Option<Seq<char>>,
        now: WallTime,
    ) -> Outcome {
        if self.closing || !self.is_current(sender_id, conn_id) {
            Outcome { room: self, effects: no_effects() }
        } else {
            match lookup(self.peers, target_id) {
                Some(target) => Outcome {
                    room: self.active_at(now),
                    effects: EffectsView {
                        broadcast: seq![
                            OutboundView {
                                tx: target.tx,
                                msg: relayed_message(sender_id, payload),
                            },
                        ],
                        ..no_effects()
                    },
                },
                None => Outcome {
                    room: self,
                    effects: refusal(ClientError::NotInRoom, "Target peer not found"@),
                },
            }
        }
    }

    /// The room without the connection of `peer_id`; a guest's grace period
    /// starts.
    pub open spec fn without_connection(self, peer_id: Seq<char>, now: Now) -> RoomView {
        let left = self.with_peers(without(self.peers, peer_id)).active_at(now.wall);
        if peer_id != self.host_peer_id && has_key(self.reservations, peer_id) {
            left.with_reservations(
                put(
                    self.reservations,
                    peer_id,
                    ReservationView {
                        absent_since: Some(now.mono),
                        ..lookup(self.reservations, peer_id)->0
                    },
                ),
            )
        } else {
            left
        }
    }

    /// A connection went away without a `leave`.
    pub open spec fn disconnected(self, peer_id: Seq<char>, conn_id: u64, now: Now) -> Outcome {
        if self.closing || !self.is_current(peer_id, conn_id) {
            Outcome { room: self, effects: no_effects() }
        } else {
            let room = self.without_connection(peer_id, now);
            Outcome {
                room,
                effects: EffectsView {
                    broadcast: room.to_others(peer_id, peer_left_message(peer_id))
                        + room.eligibility_news(),
                    dirty: true,
                    ..no_effects()
                },
            }
        }
    }

    /// What every operation keeps: no identity or connection id occurs twice,
    /// connection ids handed out are below the next one, the host has no
    /// reservation, and every connected guest has one whose grace period is not
    /// running.
    pub open spec fn wf(self) -> bool {
        &&& unique_keys(self.peers)
        &&& unique_keys(self.reservations)
        &&& forall|i: int|
            0 <= i < self.peers.len() ==> (#[trigger] self.peers[i]).1.conn_id < self.next_conn_id
        &&& forall|i: int, j: int|
            0 <= i < j < self.peers.len() ==> (#[trigger] self.peers[i]).1.conn_id != (
            #[trigger] self.peers[j]).1.conn_id
        &&& !has_key(self.reservations, self.host_peer_id)
        &&& forall|id: Seq<char>| #[trigger]
            self.connected(id) && id != self.host_peer_id ==> {
                &&& lookup(self.reservations, id) is Some
                &&& lookup(self.reservations, id)->0.absent_since is None
            }
    }

    /// `id` is the host's, or reserved.
    pub open spec fn knows(self, id: Seq<char>) -> bool {
        id == self.host_peer_id || has_key(self.reservations, id)
    }

    /// No identity is known here that was not known `before`, but for
    /// `newcomer`.
    pub open spec fn knows_only(self, before: RoomView, newcomer: Option<Seq<char>>) -> bool {
        forall|id: Seq<char>| #[trigger]
            self.knows(id) ==> before.knows(id) || newcomer == Some(id)
    }

    /// There are no more guests' identities than the room has place for.
    pub open spec fn fits(self) -> bool {
        self.reservations.len() <= MAX_ROOM_SIZE - 1
    }

    /// The room is well-formed and still the same one as `before`: its session,
    /// its owner and its age are what they were, and so is whether it is
    /// closing. Connection ids are not given out again, and the room does not
    /// outgrow its place.
    pub open spec fn continues(self, before: RoomView) -> bool {
        &&& self.wf()
        &&& self.session_id == before.session_id
        &&& self.owner_ip_key == before.owner_ip_key
        &&& self.created_at == before.created_at
        &&& self.closing == before.closing
        &&& self.next_conn_id >= before.next_conn_id
        &&& before.fits() ==> self.fits()
    }
}

} // verus!
