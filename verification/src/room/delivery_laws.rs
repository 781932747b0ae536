//! What holds of the messages that a room passes on, and of those who may no
//! longer send any.

use crate::clock::{Now, WallTime};
use crate::error::ClientError;
use crate::id_map::{filter_push, has_key, others, position, unique_keys};
use crate::protocol::ClientMessageView;
use crate::room::model::{
    no_effects, refusal, relayed_message, AdmissionView, Outcome, OutboundView, RoomView,
};
use tokio_util::sync::CancellationToken;
use vstd::prelude::*;

verus! {

/// All entries but one are under another key than that one's.
proof fn others_are_the_rest<K, V>(s: Seq<(K, V)>, k: K)
    requires
        unique_keys(s),
    ensures
        forall|i: int|
            0 <= i < s.len() && s[i].0 != k ==> others(s, k).contains(#[trigger] s[i]),
        forall|i: int| 0 <= i < others(s, k).len() ==> (#[trigger] others(s, k)[i]).0 != k,
        others(s, k).len() == if has_key(s, k) {
            s.len() - 1
        } else {
            s.len() as int
        },
    decreases s.len(),
{
    let other = |e: (K, V)| e.0 != k;
    if s.len() == 0 {
        reveal(Seq::filter);
        assert(others(s, k) =~= s);
    } else {
        let init = s.drop_last();
        let last = s.last();
        others_are_the_rest(init, k);
        assert(s =~= init.push(last));
        filter_push(init, other, last);
        assert forall|i: int| 0 <= i < s.len() && s[i].0 != k implies others(s, k).contains(
            #[trigger] s[i],
        ) by {
            if i < init.len() {
                assert(init[i] == s[i]);
                assert(others(init, k).contains(init[i]));
                let j = choose|j: int| 0 <= j < others(init, k).len() && others(init, k)[j] == s[i];
                assert(others(s, k)[j] == s[i]);
            } else {
                assert(others(s, k)[others(s, k).len() - 1] == last);
            }
        }
        if last.0 == k {
            if has_key(init, k) {
                let i = position(init, k);
                assert(s[i].0 == s[s.len() - 1].0);
            }
            assert(s[s.len() - 1].0 == k);
            assert(has_key(s, k));
        } else {
            if has_key(s, k) {
                let i = position(s, k);
                assert(init[i].0 == k);
            }
            if has_key(init, k) {
                let i = position(init, k);
                assert(s[i].0 == k);
            }
        }
    }
}

/// A payload sent to everyone reaches each other connected peer once, unchanged
/// and under its sender's name, and nobody else.
pub proof fn broadcast_reaches_every_other_peer(
    room: RoomView,
    sender_id: Seq<char>,
    conn_id: u64,
    payload: Option<Seq<char>>,
    now: WallTime,
)
    requires
        room.wf(),
        !room.closing,
        room.is_current(sender_id, conn_id),
    ensures
        ({
            let sent = room.broadcast(sender_id, conn_id, payload, now).effects.broadcast;
            &&& sent.len() == room.peers.len() - 1
            &&& forall|i: int|
                0 <= i < room.peers.len() && room.peers[i].0 != sender_id ==> sent.contains(
                    OutboundView {
                        tx: (#[trigger] room.peers[i]).1.tx,
                        msg: relayed_message(sender_id, payload),
                    },
                )
            &&& forall|j: int|
                0 <= j < sent.len() ==> {
                    let to = others(room.peers, sender_id)[j];
                    &&& to.0 != sender_id
                    &&& #[trigger] sent[j] == (OutboundView {
                        tx: to.1.tx,
                        msg: relayed_message(sender_id, payload),
                    })
                }
        }),
{
    others_are_the_rest(room.peers, sender_id);
    let rest = others(room.peers, sender_id);
    let sent = room.broadcast(sender_id, conn_id, payload, now).effects.broadcast;
    assert forall|i: int|
        0 <= i < room.peers.len() && room.peers[i].0 != sender_id implies sent.contains(
        OutboundView {
            tx: (#[trigger] room.peers[i]).1.tx,
            msg: relayed_message(sender_id, payload),
        },
    ) by {
        assert(rest.contains(room.peers[i]));
        let j = choose|j: int| 0 <= j < rest.len() && rest[j] == room.peers[i];
        assert(sent[j] == (OutboundView {
            tx: room.peers[i].1.tx,
            msg: relayed_message(sender_id, payload),
        }));
    }
}

/// A connection that no longer speaks for its identity has no effect: what it
/// sends goes nowhere, and what it asks for is refused.
pub proof fn stale_connection_has_no_effect(
    room: RoomView,
    peer_id: Seq<char>,
    conn_id: u64,
    target: Seq<char>,
    token: Seq<char>,
    protocol_version: u32,
    payload: Option<Seq<char>>,
    now: Now,
)
    requires
        !room.is_current(peer_id, conn_id),
    ensures
        room.broadcast(peer_id, conn_id, payload, now.wall) == (Outcome {
            room,
            effects: no_effects(),
        }),
        room.send_to(peer_id, conn_id, target, payload, now.wall) == (Outcome {
            room,
            effects: no_effects(),
        }),
        room.disconnected(peer_id, conn_id, now) == (Outcome { room, effects: no_effects() }),
        room.transfer_host(peer_id, conn_id, protocol_version, target) == (Outcome {
            room,
            effects: refusal(
                ClientError::PeerIdUnavailable,
                "Unable to transfer host authority"@,
            ),
        }),
        !room.may_leave(peer_id, conn_id, token, protocol_version),
        !room.may_end_session(peer_id, conn_id, token, protocol_version),
{
}

/// Nothing happens in a room that is closing: nobody gets in, and nothing is
/// passed on.
pub proof fn closing_room_is_inert(
    room: RoomView,
    peer_id: Seq<char>,
    conn_id: u64,
    target: Seq<char>,
    token: Seq<char>,
    protocol_version: u32,
    payload: Option<Seq<char>>,
    msg: ClientMessageView,
    admission: AdmissionView,
    resume_only: bool,
    now: Now,
    cancel: CancellationToken,
)
    requires
        room.closing,
    ensures
        room.join_or_resume(msg, admission, resume_only, now, cancel) == (Outcome {
            room,
            effects: refusal(ClientError::RoomNotFound, "Room does not exist"@),
        }),
        room.broadcast(peer_id, conn_id, payload, now.wall) == (Outcome {
            room,
            effects: no_effects(),
        }),
        room.send_to(peer_id, conn_id, target, payload, now.wall) == (Outcome {
            room,
            effects: no_effects(),
        }),
        room.disconnected(peer_id, conn_id, now) == (Outcome { room, effects: no_effects() }),
        room.transfer_host(peer_id, conn_id, protocol_version, target) == (Outcome {
            room,
            effects: refusal(
                ClientError::PeerIdUnavailable,
                "Unable to transfer host authority"@,
            ),
        }),
        !room.may_leave(peer_id, conn_id, token, protocol_version),
        !room.may_end_session(peer_id, conn_id, token, protocol_version),
{
}

} // verus!
