//! Room state machine. Every operation of a [`RoomState`] takes the state, does
//! no locking and no I/O, and returns [`Effects`] that say what should happen
//! next: a reply to the calling connection, messages to other connected peers,
//! and connections to shut down. The caller carries them out once it has let go
//! of the room.
//!
//! `leave` and `endSession` come in two phases (`begin_*` and `finish_*`): they
//! wait for a snapshot to be saved between marking a change and committing it
//! or rolling it back.

use crate::clock::{elapsed, Monotonic, Now, WallTime};
use crate::error::ClientError;
use crate::host_transfer::{
    answers, capable_ids, compute_eligibility, is_valid_target, roster, PeerInfo, PeerInfoView,
};
use crate::id_map::{
    entry_is_found, filter_push, filter_then_lookup, has_key, keys, lookup, others, position,
    unique_keys, IdMap,
};
use crate::ids::{is_valid_id, opt_verifier_view, valid_id, Verifier};
use crate::protocol::{
    relay_features, server_type, ClientMessage, ServerMessage, ServerMessageView,
    MAX_PEER_ID_LENGTH, MAX_ROOM_SIZE, MAX_SESSION_ID_LENGTH, RELAY_PROTOCOL_VERSION,
};
use crate::room::model::{
    grace_is_over, infos_of, no_effects, outbound_on, outbound_to, peer_joined_message,
    peer_left_message, queues_of, refusal, relayed_message, tokens_of, AdmissionView, EffectsView,
    OutboundView, Outcome, ReservationView, RoomView,
};
use crate::snapshot::RestoredReservation;
use crate::text::{opt_string_view, str_eq, strings_view};
use tokio::sync::mpsc::Sender;
use tokio_util::sync::CancellationToken;
use vstd::prelude::*;

pub mod delivery_laws;
pub mod identity_laws;
pub mod laws;
pub mod model;
pub mod news_laws;
pub mod transfer_laws;

verus! {

/// How long a disconnected guest's identity stays reserved, in nanoseconds.
pub const PEER_RESERVATION_GRACE: u128 = 300_000_000_000;

/// A room with no connected peer is removed after this much idle time, in
/// nanoseconds.
pub const EMPTY_ROOM_MAX_AGE: u128 = 300_000_000_000;

/// Any room, occupied or not, is removed once this old, in nanoseconds.
pub const ROOM_MAX_AGE: u128 = 86_400_000_000_000;

/// A live connection that speaks for an identity.
pub struct ConnectedPeer {
    pub tx: Sender<ServerMessage>,
    pub sync_protocol_version: i32,
    pub host_transfer_capable: bool,
    /// Tells this connection from earlier ones under the same identity.
    pub conn_id: u64,
    pub cancel: CancellationToken,
}

impl View for ConnectedPeer {
    type V = ConnectedPeer;

    open spec fn view(&self) -> ConnectedPeer {
        *self
    }
}

/// An identity that a guest holds, connected or not.
#[derive(Clone, Copy)]
pub struct PeerReservation {
    pub verifier: Verifier,
    /// When the guest disconnected, which starts its grace period; `None` while
    /// it is connected.
    pub absent_since: Option<Monotonic>,
    /// A `leave` is being saved; the identity can neither be joined nor resumed
    /// until that has ended.
    pub release_pending: bool,
}

impl View for PeerReservation {
    type V = ReservationView;

    open spec fn view(&self) -> ReservationView {
        ReservationView {
            verifier: self.verifier@,
            absent_since: self.absent_since,
            release_pending: self.release_pending,
        }
    }
}

pub struct RoomState {
    pub session_id: String,
    pub host_peer_id: String,
    pub host_verifier: Verifier,
    pub peers: IdMap<ConnectedPeer>,
    pub reservations: IdMap<PeerReservation>,
    pub owner_ip_key: String,
    pub created_at: WallTime,
    pub last_activity_at: WallTime,
    pub closing: bool,
    /// The id that the next admitted connection gets.
    pub next_conn_id: u64,
}

impl View for RoomState {
    type V = RoomView;

    open spec fn view(&self) -> RoomView {
        RoomView {
            session_id: self.session_id@,
            host_peer_id: self.host_peer_id@,
            host_verifier: self.host_verifier@,
            peers: self.peers@,
            reservations: self.reservations@,
            owner_ip_key: self.owner_ip_key@,
            created_at: self.created_at,
            last_activity_at: self.last_activity_at,
            closing: self.closing,
            next_conn_id: self.next_conn_id,
        }
    }
}

/// A message for one other connected peer.
pub struct Outbound {
    pub tx: Sender<ServerMessage>,
    pub msg: ServerMessage,
}

impl View for Outbound {
    type V = OutboundView;

    open spec fn view(&self) -> OutboundView {
        OutboundView { tx: self.tx, msg: self.msg@ }
    }
}

/// The messages of a list.
pub open spec fn outbounds(list: Seq<Outbound>) -> Seq<OutboundView> {
    list.map_values(|o: Outbound| o@)
}

/// A replaced connection to shut down.
pub struct Eviction {
    pub cancel: CancellationToken,
}

/// The tokens of a list.
pub open spec fn evictions(list: Seq<Eviction>) -> Seq<CancellationToken> {
    list.map_values(|e: Eviction| e.cancel)
}

/// What an operation decided should happen. `reply` goes to the calling
/// connection itself, which may not be in the room; `broadcast` goes to other
/// peers; `evict` shuts connections down; `dirty` asks for a snapshot of a
/// change that nobody waits for.
pub struct Effects {
    pub reply: Option<ServerMessage>,
    pub broadcast: Vec<Outbound>,
    pub evict: Vec<Eviction>,
    pub dirty: bool,
    /// The id of the caller's fresh connection, where it was admitted. The
    /// caller presents it with every later operation.
    pub assigned_conn_id: Option<u64>,
    /// The token that is cancelled once another connection takes over the
    /// identity.
    pub assigned_cancel: Option<CancellationToken>,
}

/// The content of an optional reply.
pub open spec fn opt_message_view(msg: Option<ServerMessage>) -> Option<ServerMessageView> {
    match msg {
        Some(msg) => Some(msg@),
        None => None,
    }
}

impl View for Effects {
    type V = EffectsView;

    open spec fn view(&self) -> EffectsView {
        EffectsView {
            reply: opt_message_view(self.reply),
            broadcast: outbounds(self.broadcast@),
            evict: evictions(self.evict@),
            dirty: self.dirty,
            assigned_conn_id: self.assigned_conn_id,
            assigned_cancel: self.assigned_cancel,
        }
    }
}

impl Default for Effects {
    fn default() -> (res: Self)
        ensures
            res@ == no_effects(),
            res.broadcast@.len() == 0,
            res.evict@.len() == 0,
    {
        let res = Effects {
            reply: None,
            broadcast: Vec::new(),
            evict: Vec::new(),
            dirty: false,
            assigned_conn_id: None,
            assigned_cancel: None,
        };
        assert(res@ =~= no_effects());
        res
    }
}

impl Effects {
    pub(crate) fn error(err: ClientError, text: &str) -> (res: Self)
        ensures
            res@ == refusal(err, text@),
    {
        let res = Effects { reply: Some(err.into_message(text)), ..Default::default() };
        assert(res@ =~= refusal(err, text@));
        res
    }
}

/// Everything needed to admit a connection into a room, as host or guest.
pub struct Admission {
    pub peer_id: String,
    pub tx: Sender<ServerMessage>,
    pub sync_protocol_version: i32,
    pub host_transfer_capable: bool,
}

impl View for Admission {
    type V = AdmissionView;

    open spec fn view(&self) -> AdmissionView {
        AdmissionView {
            peer_id: self.peer_id@,
            tx: self.tx,
            sync_protocol_version: self.sync_protocol_version,
            host_transfer_capable: self.host_transfer_capable,
        }
    }
}

fn peer_joined(peer_id: &str) -> (res: ServerMessage)
    ensures
        res@ == peer_joined_message(peer_id@),
{
    ServerMessage {
        peer_id: Some(peer_id.to_string()),
        ..ServerMessage::bare(server_type::PEER_JOINED)
    }
}

fn peer_left(peer_id: &str) -> (res: ServerMessage)
    ensures
        res@ == peer_left_message(peer_id@),
{
    ServerMessage {
        peer_id: Some(peer_id.to_string()),
        ..ServerMessage::bare(server_type::PEER_LEFT)
    }
}

fn relayed(from: &str, payload: Option<String>) -> (res: ServerMessage)
    ensures
        res@ == relayed_message(from@, opt_string_view(payload)),
{
    ServerMessage {
        from: Some(from.to_string()),
        payload,
        ..ServerMessage::bare(server_type::MESSAGE)
    }
}

/// Pushing one message on a list of messages.
proof fn outbounds_push(list: Seq<Outbound>, o: Outbound)
    ensures
        outbounds(list.push(o)) == outbounds(list).push(o@),
{
    assert(outbounds(list.push(o)) =~= outbounds(list).push(o@));
}

/// The ids of the capable peers are those of the peers that pass the same
/// filter.
proof fn capable_ids_are_keys(peers: Seq<(Seq<char>, ConnectedPeer)>)
    ensures
        capable_ids(infos_of(peers)) == keys(
            peers.filter(|e: (Seq<char>, ConnectedPeer)| e.1.host_transfer_capable),
        ),
    decreases peers.len(),
{
    let capable = |e: (Seq<char>, ConnectedPeer)| e.1.host_transfer_capable;
    let info_capable = |p: PeerInfoView| p.host_transfer_capable;
    let infos = infos_of(peers);
    reveal(Seq::filter);
    if peers.len() > 0 {
        let init = peers.drop_last();
        capable_ids_are_keys(init);
        let last = infos.last();
        assert(infos.drop_last() =~= infos_of(init));
        assert(infos =~= infos_of(init).push(last));
        filter_push(infos_of(init), info_capable, last);
        assert(peers =~= init.push(peers.last()));
        filter_push(init, capable, peers.last());
        if last.host_transfer_capable {
            assert(capable_ids(infos) =~= capable_ids(infos_of(init)).push(last.peer_id));
            assert(keys(peers.filter(capable)) =~= keys(init.filter(capable)).push(last.peer_id));
        }
    } else {
        assert(capable_ids(infos) =~= keys(peers.filter(capable)));
    }
}

impl RoomState {
    /// Installs a connection under `peer_id` with a fresh connection id, and
    /// returns the one that it replaced.
    fn install(&mut self, peer_id: String, admission: Admission) -> (res: (
        u64,
        CancellationToken,
        Option<ConnectedPeer>,
    ))
        requires
            old(self).next_conn_id < u64::MAX,
        ensures
            final(self)@ == old(self)@.admitted(peer_id@, admission@, res.1),
            res.0 == old(self).next_conn_id,
            res.2 == lookup(old(self).peers@, peer_id@),
    {
        let conn_id = self.next_conn_id;
        self.next_conn_id = conn_id + 1;
        let cancel = CancellationToken::new();
        let replaced = self.peers.insert(
            peer_id,
            ConnectedPeer {
                tx: admission.tx,
                sync_protocol_version: admission.sync_protocol_version,
                host_transfer_capable: admission.host_transfer_capable,
                conn_id,
                cancel: cancel.clone(),
            },
        );
        (conn_id, cancel, replaced)
    }

    /// Whether the connection `conn_id` speaks for `peer_id` now.
    fn current(&self, peer_id: &str, conn_id: u64) -> (res: bool)
        ensures
            res == self@.is_current(peer_id@, conn_id),
    {
        match self.peers.get(peer_id) {
            Some(peer) => peer.conn_id == conn_id,
            None => false,
        }
    }

    /// Whether `peer_id` is reserved and not about to be released.
    fn reserved(&self, peer_id: &str) -> (res: bool)
        ensures
            res == self@.holds_reservation(peer_id@),
    {
        match self.reservations.get(peer_id) {
            Some(r) => !r.release_pending,
            None => false,
        }
    }

    /// The ids of the connected peers but `peer_id`.
    fn ids_of_others(&self, peer_id: &str) -> (res: Vec<String>)
        ensures
            strings_view(res@) == keys(others(self.peers@, peer_id@)),
    {
        let ghost all = self.peers@;
        let ghost other = |e: (Seq<char>, ConnectedPeer)| e.0 != peer_id@;
        let mut res: Vec<String> = Vec::new();
        let mut i: usize = 0;
        proof {
            reveal(Seq::filter);
            assert(strings_view(res@) =~= keys(all.take(0).filter(other)));
        }
        while i < self.peers.len()
            invariant
                i <= all.len(),
                all == self.peers@,
                other == (|e: (Seq<char>, ConnectedPeer)| e.0 != peer_id@),
                strings_view(res@) == keys(all.take(i as int).filter(other)),
            decreases all.len() - i,
        {
            let id = self.peers.key_at(i);
            let ghost before = res@;
            let ghost part = all.take(i as int);
            proof {
                assert(all.take(i + 1) =~= part.push(all[i as int]));
                filter_push(part, other, all[i as int]);
            }
            if !str_eq(id.as_str(), peer_id) {
                res.push(id.clone());
                assert(strings_view(res@) =~= strings_view(before).push(id@));
                assert(keys(all.take(i + 1).filter(other)) =~= keys(part.filter(other)).push(id@));
            }
            i = i + 1;
        }
        assert(all.take(i as int) =~= all);
        res
    }

    /// Queues `msg` for every connected peer but `exclude`.
    fn broadcast_except(&self, exclude: &str, msg: &ServerMessage, out: &mut Vec<Outbound>)
        ensures
            outbounds(final(out)@) == outbounds(old(out)@) + self@.to_others(exclude@, msg@),
    {
        let ghost all = self.peers@;
        let ghost other = |e: (Seq<char>, ConnectedPeer)| e.0 != exclude@;
        let mut i: usize = 0;
        proof {
            reveal(Seq::filter);
            assert(outbounds(out@) =~= outbounds(old(out)@) + outbound_to(
                all.take(0).filter(other),
                msg@,
            ));
        }
        while i < self.peers.len()
            invariant
                i <= all.len(),
                all == self.peers@,
                other == (|e: (Seq<char>, ConnectedPeer)| e.0 != exclude@),
                outbounds(out@) == outbounds(old(out)@) + outbound_to(
                    all.take(i as int).filter(other),
                    msg@,
                ),
            decreases all.len() - i,
        {
            let ghost part = all.take(i as int);
            let ghost before = out@;
            proof {
                assert(all.take(i + 1) =~= part.push(all[i as int]));
                filter_push(part, other, all[i as int]);
            }
            if !str_eq(self.peers.key_at(i).as_str(), exclude) {
                let o = Outbound { tx: self.peers.value_at(i).tx.clone(), msg: msg.clone() };
                proof {
                    outbounds_push(before, o);
                    assert(outbound_to(part.filter(other).push(all[i as int]), msg@)
                        =~= outbound_to(part.filter(other), msg@).push(o@));
                    assert(outbounds(before).push(o@) =~= outbounds(old(out)@) + outbound_to(
                        part.filter(other),
                        msg@,
                    ).push(o@));
                }
                out.push(o);
            }
            i = i + 1;
        }
        assert(all.take(i as int) =~= all);
    }

    /// Queues `msg` for every connected peer.
    fn broadcast_all(&self, msg: &ServerMessage, out: &mut Vec<Outbound>)
        ensures
            outbounds(final(out)@) == outbounds(old(out)@) + outbound_to(self.peers@, msg@),
    {
        let ghost all = self.peers@;
        let mut i: usize = 0;
        assert(outbounds(out@) =~= outbounds(old(out)@) + outbound_to(all.take(0), msg@));
        while i < self.peers.len()
            invariant
                i <= all.len(),
                all == self.peers@,
                outbounds(out@) == outbounds(old(out)@) + outbound_to(all.take(i as int), msg@),
            decreases all.len() - i,
        {
            let o = Outbound { tx: self.peers.value_at(i).tx.clone(), msg: msg.clone() };
            proof {
                outbounds_push(out@, o);
                assert(outbound_to(all.take(i + 1), msg@) =~= outbound_to(
                    all.take(i as int),
                    msg@,
                ).push(o@));
                assert(outbounds(out@).push(o@) =~= outbounds(old(out)@) + outbound_to(
                    all.take(i + 1),
                    msg@,
                ));
            }
            out.push(o);
            i = i + 1;
        }
        assert(all.take(i as int) =~= all);
    }

    /// What the connected peers' admissions said about host transfer.
    fn peer_infos(&self) -> (res: Vec<PeerInfo<'_>>)
        ensures
            roster(res@) == infos_of(self.peers@),
            unique_keys(self.peers@),
    {
        let ghost all = self.peers@;
        let mut res: Vec<PeerInfo<'_>> = Vec::new();
        let mut i: usize = 0;
        assert(roster(res@) =~= infos_of(all.take(0)));
        while i < self.peers.len()
            invariant
                i <= all.len(),
                all == self.peers@,
                roster(res@) == infos_of(all.take(i as int)),
            decreases all.len() - i,
        {
            let ghost before = res@;
            let peer = self.peers.value_at(i);
            let info = PeerInfo {
                peer_id: self.peers.key_at(i).as_str(),
                sync_protocol_version: peer.sync_protocol_version,
                host_transfer_capable: peer.host_transfer_capable,
            };
            res.push(info);
            i = i + 1;
            assert(roster(res@) =~= roster(before).push(info@));
            assert(infos_of(all.take(i as int)) =~= infos_of(all.take(i - 1)).push(info@));
        }
        assert(all.take(i as int) =~= all);
        res
    }

    fn can_transfer_host_to(&self, target_peer_id: &str) -> (res: bool)
        ensures
            res == self@.may_hand_over_to(target_peer_id@),
    {
        let peers = self.peer_infos();
        let is_reserved = |id: &str| -> (b: bool)
            ensures
                b == self@.holds_reservation(id@),
            { self.reserved(id) };
        is_valid_target(
            self.host_peer_id.as_str(),
            peers.as_slice(),
            is_reserved,
            target_peer_id,
        )
    }

    /// Queues the news of who may take over as host for every capable peer.
    fn append_host_transfer_eligibility(&self, out: &mut Vec<Outbound>)
        ensures
            outbounds(final(out)@) == outbounds(old(out)@) + self@.eligibility_news(),
    {
        let ghost reserved = |id: Seq<char>| self@.holds_reservation(id);
        let ghost capable = |e: (Seq<char>, ConnectedPeer)| e.1.host_transfer_capable;
        let ghost listed = self.peers@.filter(capable);
        let peers = self.peer_infos();
        let is_reserved = |id: &str| -> (b: bool)
            ensures
                b == self@.holds_reservation(id@),
            { self.reserved(id) };
        assert(answers(is_reserved, reserved));
        proof {
            capable_ids_are_keys(self.peers@);
        }
        let computed = compute_eligibility(
            self.host_peer_id.as_str(),
            peers.as_slice(),
            is_reserved,
        );
        let (recipients, targets) = match computed {
            Some(found) => found,
            None => {
                assert(listed.len() == keys(listed).len());
                assert(outbounds(out@) =~= outbounds(old(out)@) + self@.eligibility_news());
                return ;
            },
        };
        let msg = ServerMessage {
            session_id: Some(self.session_id.clone()),
            host_peer_id: Some(self.host_peer_id.clone()),
            host_transfer_targets: Some(targets),
            ..ServerMessage::bare(server_type::HOST_TRANSFER_ELIGIBILITY)
        };
        let mut i: usize = 0;
        assert(outbounds(out@) =~= outbounds(old(out)@) + outbound_to(listed.take(0), msg@));
        assert(recipients@.len() == strings_view(recipients@).len());
        proof {
            filter_then_lookup(self.peers@, capable);
        }
        while i < recipients.len()
            invariant
                i <= recipients@.len(),
                recipients@.len() == listed.len(),
                strings_view(recipients@) == keys(listed),
                unique_keys(listed),
                forall|k: Seq<char>|
                    #[trigger] lookup(listed, k) is Some ==> lookup(self.peers@, k) == lookup(
                        listed,
                        k,
                    ),
                outbounds(out@) == outbounds(old(out)@) + outbound_to(listed.take(i as int), msg@),
            decreases recipients@.len() - i,
        {
            let ghost before = out@;
            proof {
                assert(strings_view(recipients@)[i as int] == recipients@[i as int]@);
                assert(keys(listed)[i as int] == listed[i as int].0);
                entry_is_found(listed, i as int);
                assert(lookup(listed, listed[i as int].0) is Some);
            }
            if let Some(peer) = self.peers.get(recipients[i].as_str()) {
                let o = Outbound { tx: peer.tx.clone(), msg: msg.clone() };
                out.push(o);
                proof {
                    outbounds_push(before, o);
                    assert(outbound_to(listed.take(i + 1), msg@) =~= outbound_to(
                        listed.take(i as int),
                        msg@,
                    ).push(o@));
                    assert(outbounds(before).push(o@) =~= outbounds(old(out)@) + outbound_to(
                        listed.take(i + 1),
                        msg@,
                    ));
                }
            }
            i = i + 1;
        }
        assert(listed.take(i as int) =~= listed);
    }
}

/// The tokens to cancel once a connection has been replaced.
fn evict_replaced(replaced: Option<ConnectedPeer>) -> (res: Vec<Eviction>)
    ensures
        evictions(res@) == match replaced {
            Some(peer) => seq![peer.cancel],
            None => Seq::<CancellationToken>::empty(),
        },
{
    let mut res: Vec<Eviction> = Vec::new();
    if let Some(peer) = replaced {
        res.push(Eviction { cancel: peer.cancel });
        assert(evictions(res@) =~= seq![peer.cancel]);
    }
    assert(replaced is None ==> evictions(res@) =~= Seq::<CancellationToken>::empty());
    res
}

impl RoomState {
    /// A fresh room with its host connected. Of the token that the host
    /// presented the room keeps the verifier; the reply does not repeat it.
    pub fn new_room(
        session_id: String,
        host_peer_id: String,
        host_verifier: Verifier,
        _presented_token: String,
        owner_ip_key: String,
        host: Admission,
        now: Now,
    ) -> (res: (Self, Effects))
        ensures
            (Outcome { room: res.0@, effects: res.1@ }) == RoomView::created(
                session_id@,
                host_peer_id@,
                host_verifier@,
                owner_ip_key@,
                host@,
                now,
                res.1.assigned_cancel->0,
            ),
            res.1.assigned_cancel is Some,
    {
        let conn_id: u64 = 1;
        let cancel = CancellationToken::new();
        let mut peers: IdMap<ConnectedPeer> = IdMap::new();
        peers.insert(
            host_peer_id.clone(),
            ConnectedPeer {
                tx: host.tx,
                sync_protocol_version: host.sync_protocol_version,
                host_transfer_capable: host.host_transfer_capable,
                conn_id,
                cancel: cancel.clone(),
            },
        );
        let state = RoomState {
            session_id: session_id.clone(),
            host_peer_id: host_peer_id.clone(),
            host_verifier,
            peers,
            reservations: IdMap::new(),
            owner_ip_key,
            created_at: now.wall,
            last_activity_at: now.wall,
            closing: false,
            next_conn_id: conn_id + 1,
        };
        let mut broadcast: Vec<Outbound> = Vec::new();
        state.append_host_transfer_eligibility(&mut broadcast);
        let effects = Effects {
            reply: Some(
                ServerMessage {
                    session_id: Some(session_id),
                    host_peer_id: Some(host_peer_id),
                    protocol_version: RELAY_PROTOCOL_VERSION,
                    features: Some(relay_features()),
                    ..ServerMessage::bare(server_type::CREATED)
                },
            ),
            broadcast,
            evict: Vec::new(),
            dirty: true,
            assigned_conn_id: Some(conn_id),
            assigned_cancel: Some(cancel),
        };
        proof {
            let model = RoomView::created(
                session_id@,
                host_peer_id@,
                host_verifier@,
                owner_ip_key@,
                host@,
                now,
                cancel,
            );
            assert(state@ =~= model.room);
            assert(effects@ =~= model.effects);
        }
        (state, effects)
    }

    /// The reply that admits `peer_id`, naming the other connected peers.
    fn admission_message(
        &self,
        msg_type: &str,
        peer_id: &str,
        reconnect_token: Option<String>,
    ) -> (res: ServerMessage)
        ensures
            res@ == self@.admission_reply(
                msg_type@,
                peer_id@,
                opt_string_view(reconnect_token),
            ),
    {
        ServerMessage {
            session_id: Some(self.session_id.clone()),
            host_peer_id: Some(self.host_peer_id.clone()),
            reconnect_token,
            protocol_version: RELAY_PROTOCOL_VERSION,
            peers: Some(self.ids_of_others(peer_id)),
            features: Some(relay_features()),
            ..ServerMessage::bare(msg_type)
        }
    }

    /// A room from a snapshot: nobody is connected, and the identities are
    /// carried over as they are.
    pub fn restore(
        session_id: String,
        host_peer_id: String,
        host_verifier: Verifier,
        owner_ip_key: String,
        reservations: IdMap<RestoredReservation>,
        created_at: WallTime,
        last_activity_at: WallTime,
    ) -> (res: Self)
        ensures
            res@ == RoomView::restored(
                session_id@,
                host_peer_id@,
                host_verifier@,
                owner_ip_key@,
                reservations@,
                created_at,
                last_activity_at,
            ),
    {
        let ghost all = reservations@;
        let mut carried: IdMap<PeerReservation> = IdMap::new();
        let mut i: usize = 0;
        while i < reservations.len()
            invariant
                i <= all.len(),
                all == reservations@,
                carried@.len() == i,
                forall|j: int|
                    0 <= j < i ==> #[trigger] carried@[j] == (
                        all[j].0,
                        (ReservationView {
                            verifier: all[j].1.verifier,
                            absent_since: all[j].1.absent_since,
                            release_pending: false,
                        }),
                    ),
            decreases all.len() - i,
        {
            let r = reservations.value_at(i);
            let peer_id = reservations.key_at(i);
            assert(!has_key(carried@, peer_id@)) by {
                assert(unique_keys(all));
                if has_key(carried@, peer_id@) {
                    let j = position(carried@, peer_id@);
                    assert(all[j].0 == all[i as int].0);
                }
            }
            carried.insert(
                peer_id.clone(),
                PeerReservation {
                    verifier: r.verifier,
                    absent_since: r.absent_since,
                    release_pending: false,
                },
            );
            i = i + 1;
        }
        let res = RoomState {
            session_id,
            host_peer_id,
            host_verifier,
            peers: IdMap::new(),
            reservations: carried,
            owner_ip_key,
            created_at,
            last_activity_at,
            closing: false,
            next_conn_id: 1,
        };
        assert(res@ =~= RoomView::restored(
            session_id@,
            host_peer_id@,
            host_verifier@,
            owner_ip_key@,
            reservations@,
            created_at,
            last_activity_at,
        ));
        res
    }

    /// A repeated `create` by the host, with the token that made the room. The
    /// connection is admitted as host in place of an earlier one; nothing else
    /// of the room changes.
    pub fn reconnect_host(
        &mut self,
        host: Admission,
        _presented_token: String,
        _now: Now,
    ) -> (res: Effects)
        requires
            old(self).next_conn_id < u64::MAX,
        ensures
            (Outcome { room: final(self)@, effects: res@ }) == old(self)@.host_reconnected(
                host@,
                res.assigned_cancel->0,
            ),
            res.assigned_cancel is Some,
    {
        let was_absent = !self.peers.contains_key(self.host_peer_id.as_str());
        let host_peer_id = self.host_peer_id.clone();
        let (conn_id, cancel, replaced) = self.install(host_peer_id.clone(), host);
        let reply = self.admission_message(server_type::CREATED, host_peer_id.as_str(), None);
        let mut broadcast: Vec<Outbound> = Vec::new();
        assert(outbounds(broadcast@) =~= Seq::empty());
        if was_absent {
            let joined = peer_joined(host_peer_id.as_str());
            self.broadcast_except(host_peer_id.as_str(), &joined, &mut broadcast);
        }
        self.append_host_transfer_eligibility(&mut broadcast);
        let effects = Effects {
            reply: Some(reply),
            broadcast,
            evict: evict_replaced(replaced),
            dirty: true,
            assigned_conn_id: Some(conn_id),
            assigned_cancel: Some(cancel),
        };
        proof {
            let model = old(self)@.host_reconnected(host@, cancel);
            assert(self@ =~= model.room);
            assert(effects@ =~= model.effects);
        }
        effects
    }

    /// Whether `create` may take over this room's session id: nobody is
    /// connected and the room is not closing.
    pub fn is_reclaimable(&self) -> (res: bool)
        ensures
            res == self@.is_reclaimable(),
    {
        !self.closing && self.peers.is_empty()
    }

    /// Forgets the reservations whose grace period is over. Returns whether
    /// there was one.
    pub fn prune_expired_reservations(&mut self, now: Now) -> (res: bool)
        ensures
            final(self)@ == old(self)@.pruned(now.mono),
            res == (final(self)@.reservations.len() != old(self)@.reservations.len()),
    {
        let ghost keeps = |e: (Seq<char>, ReservationView)|
            e.1.release_pending || old(self)@.connected(e.0) || !grace_is_over(e.1, now.mono);
        let before: usize = self.reservations.len();
        let peers = &self.peers;
        let keep = |id: &String, r: &PeerReservation| -> (b: bool)
            ensures
                b == (r@.release_pending || has_key(peers@, id@) || !grace_is_over(r@, now.mono)),
            {
                r.release_pending || peers.contains_key(id.as_str()) || match r.absent_since {
                    None => true,
                    Some(since) => now.mono.since(since) < PEER_RESERVATION_GRACE,
                }
            };
        self.reservations.retain(keep, Ghost(keeps));
        assert(self@ =~= old(self)@.pruned(now.mono));
        before != self.reservations.len()
    }

    pub fn connected_peer_count(&self) -> (res: usize)
        ensures
            res == self@.peers.len(),
    {
        self.peers.len()
    }

    /// Nanoseconds since the last activity.
    pub fn idle_for(&self, now: WallTime) -> (res: u128)
        ensures
            res == elapsed(self@.last_activity_at.at(), now.at()),
    {
        now.since(self.last_activity_at)
    }

    /// Nanoseconds since the room was created.
    pub fn age(&self, now: WallTime) -> (res: u128)
        ensures
            res == elapsed(self@.created_at.at(), now.at()),
    {
        now.since(self.created_at)
    }
}

impl RoomState {
    /// Whether a token with the verifier `presented` may claim `peer_id`.
    fn authorized(&self, peer_id: &str, presented: &Option<Verifier>, resume_only: bool) -> (res:
        bool)
        ensures
            res == self@.authorizes(peer_id@, opt_verifier_view(*presented), resume_only),
    {
        if str_eq(peer_id, self.host_peer_id.as_str()) {
            match presented {
                Some(v) => self.host_verifier.matches(v),
                None => false,
            }
        } else if let Some(r) = self.reservations.get(peer_id) {
            !r.release_pending && match presented {
                Some(v) => r.verifier.matches(v),
                None => false,
            }
        } else if self.peers.contains_key(peer_id) {
            false
        } else {
            // A new identity: only a plain `join` makes one, and only with a
            // token that has a verifier for its reservation to keep.
            !resume_only && presented.is_some()
        }
    }

    pub fn join_or_resume(
        &mut self,
        msg: &ClientMessage,
        admission: Admission,
        resume_only: bool,
        now: Now,
    ) -> (res: Effects)
        requires
            old(self).next_conn_id < u64::MAX,
        ensures
            (Outcome { room: final(self)@, effects: res@ }) == old(self)@.join_or_resume(
                msg@,
                admission@,
                resume_only,
                now,
                res.assigned_cancel->0,
            ),
    {
        if self.closing {
            return Effects::error(ClientError::RoomNotFound, "Room does not exist");
        }
        self.prune_expired_reservations(now);
        let ghost before = self@;

        let peer_id = admission.peer_id.clone();
        let presented = Verifier::from_token(msg.reconnect_token.as_str());
        if !self.authorized(peer_id.as_str(), &presented, resume_only) {
            return Effects::error(ClientError::PeerIdUnavailable, "Peer ID is unavailable");
        }
        let verifier = match presented {
            Some(v) => v,
            None => {
                return Effects::error(ClientError::PeerIdUnavailable, "Peer ID is unavailable");
            },
        };
        let is_host = str_eq(peer_id.as_str(), self.host_peer_id.as_str());
        let is_new_identity = !self.peers.contains_key(peer_id.as_str()) && !is_host
            && !self.reservations.contains_key(peer_id.as_str());
        if is_new_identity && self.reservations.len() >= MAX_ROOM_SIZE - 1 {
            return Effects::error(ClientError::RoomFull, "Room is full");
        }
        let (conn_id, cancel, replaced) = self.install(peer_id.clone(), admission);
        if !is_host {
            self.reservations.insert(
                peer_id.clone(),
                PeerReservation { verifier, absent_since: None, release_pending: false },
            );
        }
        self.last_activity_at = now.wall;
        assert(self@ =~= before.let_in(peer_id@, verifier@, admission@, now.wall, cancel));

        let response_type = if resume_only {
            server_type::RESUMED
        } else {
            server_type::JOINED
        };
        let reply = self.admission_message(
            response_type,
            peer_id.as_str(),
            Some(msg.reconnect_token.clone()),
        );
        let mut broadcast: Vec<Outbound> = Vec::new();
        assert(outbounds(broadcast@) =~= Seq::empty());
        let joined = peer_joined(peer_id.as_str());
        self.broadcast_except(peer_id.as_str(), &joined, &mut broadcast);
        self.append_host_transfer_eligibility(&mut broadcast);
        let effects = Effects {
            reply: Some(reply),
            broadcast,
            evict: evict_replaced(replaced),
            dirty: true,
            assigned_conn_id: Some(conn_id),
            assigned_cancel: Some(cancel),
        };
        proof {
            let model = old(self)@.join_or_resume(msg@, admission@, resume_only, now, cancel);
            assert(effects@ =~= model.effects);
        }
        effects
    }

    /// First phase of `leave`: marks the guest's identity as being released.
    pub fn begin_leave(
        &mut self,
        peer_id: &str,
        conn_id: u64,
        token: &str,
        protocol_version: u32,
    ) -> (res: Result<(), Effects>)
        ensures
            match res {
                Ok(()) => old(self)@.may_leave(peer_id@, conn_id, token@, protocol_version)
                    && final(self)@ == old(self)@.with_release(peer_id@, true),
                Err(effects) => !old(self)@.may_leave(peer_id@, conn_id, token@, protocol_version)
                    && final(self)@ == old(self)@ && effects@ == refusal(
                    ClientError::PeerIdUnavailable,
                    "Unable to release peer identity"@,
                ),
            },
    {
        let is_guest = !str_eq(peer_id, self.host_peer_id.as_str());
        if self.closing || !self.current(peer_id, conn_id) || !is_guest || protocol_version
            != RELAY_PROTOCOL_VERSION {
            return Err(
                Effects::error(ClientError::PeerIdUnavailable, "Unable to release peer identity"),
            );
        }
        let presented = Verifier::from_token(token);
        let authorized = match self.reservations.get(peer_id) {
            Some(r) => !r.release_pending && match presented {
                Some(v) => r.verifier.matches(&v),
                None => false,
            },
            None => false,
        };
        if !authorized {
            return Err(
                Effects::error(ClientError::PeerIdUnavailable, "Unable to release peer identity"),
            );
        }
        if let Some(r) = self.reservations.get_mut(peer_id) {
            r.release_pending = true;
        }
        assert(self@ =~= old(self)@.with_release(peer_id@, true));
        Ok(())
    }

    /// Second phase of `leave`, once it is known whether the snapshot was saved.
    /// If it was, the identity is free again; if not, the release is undone and
    /// the client is told that it failed. Either way that holds of a connection
    /// that went away meanwhile, too.
    pub fn finish_leave(
        &mut self,
        peer_id: &str,
        conn_id: u64,
        persisted: bool,
        now: WallTime,
    ) -> (res: Effects)
        ensures
            (Outcome { room: final(self)@, effects: res@ }) == old(self)@.leave_finished(
                peer_id@,
                conn_id,
                persisted,
                now,
            ),
    {
        let release_pending = match self.reservations.get(peer_id) {
            Some(r) => r.release_pending,
            None => false,
        };
        let connected = self.peers.contains_key(peer_id);
        if !release_pending || (connected && !self.current(peer_id, conn_id)) {
            // The room has moved on: nothing to commit or roll back.
            return Default::default();
        }
        if !connected {
            // The connection went away meanwhile, and the others know that.
            if persisted {
                self.reservations.remove(peer_id);
            } else if let Some(r) = self.reservations.get_mut(peer_id) {
                r.release_pending = false;
            }
            let effects = Effects { dirty: true, ..Default::default() };
            proof {
                let model = old(self)@.leave_finished(peer_id@, conn_id, persisted, now);
                assert(self@ =~= model.room);
                assert(effects@ =~= model.effects);
            }
            return effects;
        }
        if !persisted {
            if let Some(r) = self.reservations.get_mut(peer_id) {
                r.release_pending = false;
            }
            assert(self@ =~= old(self)@.with_release(peer_id@, false));
            return Effects::error(
                ClientError::InvalidMessage,
                "Unable to persist released peer identity",
            );
        }
        self.peers.remove(peer_id);
        self.reservations.remove(peer_id);
        self.last_activity_at = now;

        let reply = ServerMessage {
            session_id: Some(self.session_id.clone()),
            peer_id: Some(peer_id.to_string()),
            protocol_version: RELAY_PROTOCOL_VERSION,
            ..ServerMessage::bare(server_type::LEFT)
        };
        let mut broadcast: Vec<Outbound> = Vec::new();
        assert(outbounds(broadcast@) =~= Seq::empty());
        let left = peer_left(peer_id);
        self.broadcast_except(peer_id, &left, &mut broadcast);
        self.append_host_transfer_eligibility(&mut broadcast);
        let effects = Effects {
            reply: Some(reply),
            broadcast,
            dirty: true,
            ..Default::default()
        };
        proof {
            let model = old(self)@.leave_finished(peer_id@, conn_id, persisted, now);
            assert(self@ =~= model.room);
            assert(effects@ =~= model.effects);
        }
        effects
    }

    /// First phase of `endSession`: marks the room as closing, and returns its
    /// owner and the guests' queues.
    pub fn begin_end_session(
        &mut self,
        peer_id: &str,
        conn_id: u64,
        token: &str,
        protocol_version: u32,
    ) -> (res: Result<(String, Vec<Sender<ServerMessage>>), Effects>)
        ensures
            match res {
                Ok((owner, guests)) => old(self)@.may_end_session(
                    peer_id@,
                    conn_id,
                    token@,
                    protocol_version,
                ) && final(self)@ == old(self)@.closed() && owner@ == old(self)@.owner_ip_key
                    && guests@ == queues_of(others(old(self)@.peers, peer_id@)),
                Err(effects) => !old(self)@.may_end_session(
                    peer_id@,
                    conn_id,
                    token@,
                    protocol_version,
                ) && final(self)@ == old(self)@ && effects@ == refusal(
                    ClientError::PeerIdUnavailable,
                    "Unable to end room"@,
                ),
            },
    {
        let is_current_host = str_eq(peer_id, self.host_peer_id.as_str()) && self.current(
            peer_id,
            conn_id,
        );
        if self.closing || !is_current_host || protocol_version != RELAY_PROTOCOL_VERSION {
            return Err(Effects::error(ClientError::PeerIdUnavailable, "Unable to end room"));
        }
        let authorized = match Verifier::from_token(token) {
            Some(v) => self.host_verifier.matches(&v),
            None => false,
        };
        if !authorized {
            return Err(Effects::error(ClientError::PeerIdUnavailable, "Unable to end room"));
        }
        self.closing = true;
        assert(self@ =~= old(self)@.closed());
        Ok((self.owner_ip_key.clone(), self.queues_of_others(peer_id)))
    }

    /// The outbound queues of the connected peers but `peer_id`.
    fn queues_of_others(&self, peer_id: &str) -> (res: Vec<Sender<ServerMessage>>)
        ensures
            res@ == queues_of(others(self.peers@, peer_id@)),
    {
        let ghost all = self.peers@;
        let ghost other = |e: (Seq<char>, ConnectedPeer)| e.0 != peer_id@;
        let mut res: Vec<Sender<ServerMessage>> = Vec::new();
        let mut i: usize = 0;
        proof {
            reveal(Seq::filter);
            assert(res@ =~= queues_of(all.take(0).filter(other)));
        }
        while i < self.peers.len()
            invariant
                i <= all.len(),
                all == self.peers@,
                other == (|e: (Seq<char>, ConnectedPeer)| e.0 != peer_id@),
                res@ == queues_of(all.take(i as int).filter(other)),
            decreases all.len() - i,
        {
            let ghost part = all.take(i as int);
            proof {
                assert(all.take(i + 1) =~= part.push(all[i as int]));
                filter_push(part, other, all[i as int]);
            }
            if !str_eq(self.peers.key_at(i).as_str(), peer_id) {
                let tx = self.peers.value_at(i).tx.clone();
                assert(queues_of(part.filter(other).push(all[i as int])) =~= queues_of(
                    part.filter(other),
                ).push(tx));
                res.push(tx);
            }
            i = i + 1;
        }
        assert(all.take(i as int) =~= all);
        res
    }

    /// The tokens of all connected peers.
    pub(crate) fn evict_all(&self) -> (res: Vec<Eviction>)
        ensures
            evictions(res@) == tokens_of(self.peers@),
    {
        let ghost all = self.peers@;
        let mut res: Vec<Eviction> = Vec::new();
        let mut i: usize = 0;
        assert(evictions(res@) =~= tokens_of(all.take(0)));
        while i < self.peers.len()
            invariant
                i <= all.len(),
                all == self.peers@,
                evictions(res@) == tokens_of(all.take(i as int)),
            decreases all.len() - i,
        {
            let ghost before = res@;
            let cancel = self.peers.value_at(i).cancel.clone();
            res.push(Eviction { cancel });
            i = i + 1;
            assert(evictions(res@) =~= evictions(before).push(all[i - 1].1.cancel));
            assert(tokens_of(all.take(i as int)) =~= tokens_of(all.take(i - 1)).push(
                all[i - 1].1.cancel,
            ));
        }
        assert(all.take(i as int) =~= all);
        res
    }

    /// Second phase of `endSession`. Everyone is shut down. If the snapshot was
    /// saved, host and guests learn that the room has ended; if not, the host
    /// alone learns that it failed.
    pub fn finish_end_session(
        &mut self,
        guests: Vec<Sender<ServerMessage>>,
        persisted: bool,
    ) -> (res: Effects)
        ensures
            (Outcome { room: final(self)@, effects: res@ }) == old(self)@.session_ended(
                guests@,
                persisted,
            ),
    {
        let evict = self.evict_all();
        self.peers.clear();
        self.reservations.clear();
        if !persisted {
            let effects = Effects {
                reply: Some(
                    ClientError::InvalidMessage.into_message("Unable to persist ended room"),
                ),
                evict,
                ..Default::default()
            };
            assert(effects@ =~= old(self)@.session_ended(guests@, persisted).effects);
            assert(self@ =~= old(self)@.session_ended(guests@, persisted).room);
            return effects;
        }
        let ended = ServerMessage {
            session_id: Some(self.session_id.clone()),
            protocol_version: RELAY_PROTOCOL_VERSION,
            ..ServerMessage::bare(server_type::ENDED)
        };
        let mut broadcast: Vec<Outbound> = Vec::new();
        let mut i: usize = 0;
        assert(outbounds(broadcast@) =~= outbound_on(guests@.take(0), ended@));
        while i < guests.len()
            invariant
                i <= guests@.len(),
                outbounds(broadcast@) == outbound_on(guests@.take(i as int), ended@),
            decreases guests@.len() - i,
        {
            let o = Outbound { tx: guests[i].clone(), msg: ended.clone() };
            proof {
                outbounds_push(broadcast@, o);
                assert(outbound_on(guests@.take(i + 1), ended@) =~= outbound_on(
                    guests@.take(i as int),
                    ended@,
                ).push(o@));
            }
            broadcast.push(o);
            i = i + 1;
        }
        assert(guests@.take(i as int) =~= guests@);
        let effects = Effects { reply: Some(ended), broadcast, evict, ..Default::default() };
        assert(effects@ =~= old(self)@.session_ended(guests@, persisted).effects);
        assert(self@ =~= old(self)@.session_ended(guests@, persisted).room);
        effects
    }

    pub fn transfer_host(
        &mut self,
        peer_id: &str,
        conn_id: u64,
        protocol_version: u32,
        target_peer_id: &str,
    ) -> (res: Effects)
        ensures
            (Outcome { room: final(self)@, effects: res@ }) == old(self)@.transfer_host(
                peer_id@,
                conn_id,
                protocol_version,
                target_peer_id@,
            ),
    {
        if self.closing || !self.current(peer_id, conn_id) || protocol_version
            != RELAY_PROTOCOL_VERSION {
            return Effects::error(
                ClientError::PeerIdUnavailable,
                "Unable to transfer host authority",
            );
        }
        if !str_eq(peer_id, self.host_peer_id.as_str()) {
            return Effects::error(
                ClientError::NotHost,
                "Only the host can transfer host authority",
            );
        }
        if !valid_id(target_peer_id, MAX_PEER_ID_LENGTH) || str_eq(target_peer_id, peer_id)
            || !self.peers.contains_key(target_peer_id) || !self.reserved(target_peer_id) {
            return Effects::error(ClientError::PeerNotFound, "Target peer not found");
        }
        if !self.can_transfer_host_to(target_peer_id) {
            return Effects::error(
                ClientError::HostTransferUnavailable,
                "The current room roster cannot follow a host transfer",
            );
        }
        let old_host = self.host_peer_id.clone();
        if let Some(taken) = self.reservations.remove(target_peer_id) {
            self.reservations.insert(
                old_host.clone(),
                PeerReservation {
                    verifier: self.host_verifier,
                    absent_since: None,
                    release_pending: false,
                },
            );
            self.host_verifier = taken.verifier;
            self.host_peer_id = target_peer_id.to_string();
        }
        assert(self@ =~= old(self)@.handed_over_to(target_peer_id@));
        let host_changed = ServerMessage {
            session_id: Some(self.session_id.clone()),
            host_peer_id: Some(target_peer_id.to_string()),
            from: Some(old_host),
            ..ServerMessage::bare(server_type::HOST_CHANGED)
        };
        let mut broadcast: Vec<Outbound> = Vec::new();
        assert(outbounds(broadcast@) =~= Seq::empty());
        self.broadcast_all(&host_changed, &mut broadcast);
        self.append_host_transfer_eligibility(&mut broadcast);
        let effects = Effects { broadcast, dirty: true, ..Default::default() };
        proof {
            let model = old(self)@.transfer_host(
                peer_id@,
                conn_id,
                protocol_version,
                target_peer_id@,
            );
            assert(effects@ =~= model.effects);
        }
        effects
    }

    pub fn broadcast(
        &mut self,
        sender_id: &str,
        conn_id: u64,
        payload: Option<String>,
        now: WallTime,
    ) -> (res: Effects)
        ensures
            (Outcome { room: final(self)@, effects: res@ }) == old(self)@.broadcast(
                sender_id@,
                conn_id,
                opt_string_view(payload),
                now,
            ),
    {
        if self.closing || !self.current(sender_id, conn_id) {
            return Default::default();
        }
        self.last_activity_at = now;
        let msg = relayed(sender_id, payload);
        let mut broadcast: Vec<Outbound> = Vec::new();
        assert(outbounds(broadcast@) =~= Seq::empty());
        self.broadcast_except(sender_id, &msg, &mut broadcast);
        let effects = Effects { broadcast, ..Default::default() };
        proof {
            let model = old(self)@.broadcast(sender_id@, conn_id, opt_string_view(payload), now);
            assert(effects@ =~= model.effects);
        }
        effects
    }

    pub fn send_to(
        &mut self,
        sender_id: &str,
        conn_id: u64,
        target_id: &str,
        payload: Option<String>,
        now: WallTime,
    ) -> (res: Effects)
        ensures
            (Outcome { room: final(self)@, effects: res@ }) == old(self)@.send_to(
                sender_id@,
                conn_id,
                target_id@,
                opt_string_view(payload),
                now,
            ),
    {
        if self.closing || !self.current(sender_id, conn_id) {
            return Default::default();
        }
        let tx = match self.peers.get(target_id) {
            Some(target) => target.tx.clone(),
            None => {
                return Effects::error(ClientError::NotInRoom, "Target peer not found");
            },
        };
        self.last_activity_at = now;
        let mut broadcast: Vec<Outbound> = Vec::new();
        broadcast.push(Outbound { tx, msg: relayed(sender_id, payload) });
        let effects = Effects { broadcast, ..Default::default() };
        proof {
            let model = old(self)@.send_to(
                sender_id@,
                conn_id,
                target_id@,
                opt_string_view(payload),
                now,
            );
            assert(effects@ =~= model.effects);
        }
        effects
    }

    /// The connection `conn_id` of `peer_id` went away without a `leave`.
    pub fn handle_disconnect(&mut self, peer_id: &str, conn_id: u64, now: Now) -> (res: Effects)
        ensures
            (Outcome { room: final(self)@, effects: res@ }) == old(self)@.disconnected(
                peer_id@,
                conn_id,
                now,
            ),
    {
        if self.closing || !self.current(peer_id, conn_id) {
            return Default::default();
        }
        self.peers.remove(peer_id);
        if !str_eq(peer_id, self.host_peer_id.as_str()) {
            if let Some(r) = self.reservations.get_mut(peer_id) {
                r.absent_since = Some(now.mono);
            }
        }
        self.last_activity_at = now.wall;
        assert(self@ =~= old(self)@.without_connection(peer_id@, now));
        let mut broadcast: Vec<Outbound> = Vec::new();
        assert(outbounds(broadcast@) =~= Seq::empty());
        let left = peer_left(peer_id);
        self.broadcast_except(peer_id, &left, &mut broadcast);
        self.append_host_transfer_eligibility(&mut broadcast);
        let effects = Effects { broadcast, dirty: true, ..Default::default() };
        proof {
            let model = old(self)@.disconnected(peer_id@, conn_id, now);
            assert(effects@ =~= model.effects);
        }
        effects
    }
}

/// A session id and a peer id of the right form.
pub open spec fn ids_are_valid(session_id: Seq<char>, peer_id: Seq<char>) -> bool {
    &&& is_valid_id(session_id, MAX_SESSION_ID_LENGTH as nat)
    &&& is_valid_id(peer_id, MAX_PEER_ID_LENGTH as nat)
}

pub fn valid_session_and_peer_id(session_id: &str, peer_id: &str) -> (res: bool)
    ensures
        res == ids_are_valid(session_id@, peer_id@),
{
    valid_id(session_id, MAX_SESSION_ID_LENGTH) && valid_id(peer_id, MAX_PEER_ID_LENGTH)
}

} // verus!
