//! Who may speak for an identity: what becomes of one whose guest goes away,
//! comes back, or leaves.

use crate::clock::{elapsed, Now, WallTime};
use crate::error::ClientError;
use crate::id_map::{
    entry_is_found, filter_then_lookup, has_key, lookup, position, put_then_lookup, unique_keys,
    without, without_then_lookup,
};
use crate::ids::verifier_of_token;
use crate::protocol::{server_type, ClientMessageView, ServerMessage, MAX_ROOM_SIZE};
use crate::room::laws::{disconnection_continues, pruning_continues};
use crate::room::model::{
    grace_is_over, refusal, AdmissionView, Outcome, ReservationView, RoomView,
};
use crate::room::{ConnectedPeer, PEER_RESERVATION_GRACE};
use tokio::sync::mpsc::Sender;
use tokio_util::sync::CancellationToken;
use vstd::prelude::*;

verus! {

/// What forgetting expired reservations leaves of one.
proof fn pruned_lookup(room: RoomView, now: Now)
    requires
        room.wf(),
    ensures
        forall|id: Seq<char>|
            #[trigger] lookup(room.pruned(now.mono).reservations, id) == if has_key(
                room.reservations,
                id,
            ) && ({
                let r = lookup(room.reservations, id)->0;
                r.release_pending || room.connected(id) || !grace_is_over(r, now.mono)
            }) {
                lookup(room.reservations, id)
            } else {
                None
            },
{
    let keeps = |e: (Seq<char>, ReservationView)|
        e.1.release_pending || room.connected(e.0) || !grace_is_over(e.1, now.mono);
    filter_then_lookup(room.reservations, keeps);
    assert(room.pruned(now.mono).reservations == room.reservations.filter(keeps));
}

/// A guest's connection that went away leaves its reservation, whose grace
/// period starts.
proof fn absence_is_noted(room: RoomView, peer_id: Seq<char>, conn_id: u64, now: Now)
    requires
        room.wf(),
        !room.closing,
        room.is_current(peer_id, conn_id),
        peer_id != room.host_peer_id,
    ensures
        ({
            let away = room.disconnected(peer_id, conn_id, now).room;
            &&& !away.connected(peer_id)
            &&& lookup(away.reservations, peer_id) == Some(
                ReservationView {
                    absent_since: Some(now.mono),
                    ..lookup(room.reservations, peer_id)->0
                },
            )
        }),
{
    assert(room.connected(peer_id));
    without_then_lookup(room.peers, peer_id);
    put_then_lookup(
        room.reservations,
        peer_id,
        ReservationView {
            absent_since: Some(now.mono),
            ..lookup(room.reservations, peer_id)->0
        },
    );
}

/// A guest whose connection went away gets its identity back with its token
/// until the grace period is over, by `resume` or `join`.
pub proof fn guest_returns_within_grace(
    room: RoomView,
    peer_id: Seq<char>,
    conn_id: u64,
    left: Now,
    msg: ClientMessageView,
    admission: AdmissionView,
    resume_only: bool,
    back: Now,
    cancel: CancellationToken,
)
    requires
        room.wf(),
        !room.closing,
        room.is_current(peer_id, conn_id),
        peer_id != room.host_peer_id,
        !room.release_is_pending(peer_id),
        admission.peer_id == peer_id,
        verifier_of_token(msg.reconnect_token) == Some(
            lookup(room.reservations, peer_id)->0.verifier,
        ),
        elapsed(left.mono.at(), back.mono.at()) < PEER_RESERVATION_GRACE,
    ensures
        ({
            let away = room.disconnected(peer_id, conn_id, left).room;
            let outcome = away.join_or_resume(msg, admission, resume_only, back, cancel);
            let msg_type = if resume_only {
                server_type::RESUMED@
            } else {
                server_type::JOINED@
            };
            &&& outcome.room.is_current(peer_id, away.next_conn_id)
            &&& outcome.effects.assigned_conn_id == Some(away.next_conn_id)
            &&& outcome.effects.reply == Some(
                outcome.room.admission_reply(msg_type, peer_id, Some(msg.reconnect_token)),
            )
        }),
{
    assert(room.connected(peer_id));
    absence_is_noted(room, peer_id, conn_id, left);
    let away = room.disconnected(peer_id, conn_id, left).room;
    disconnection_continues(room, peer_id, conn_id, left);
    pruned_lookup(away, back);
    pruning_continues(away, back);
    let before = away.pruned(back.mono);
    assert(lookup(before.reservations, peer_id) == lookup(away.reservations, peer_id));
    assert(before.authorizes(peer_id, verifier_of_token(msg.reconnect_token), resume_only));
    admission_is_current(before, peer_id, admission, cancel);
}

/// Past the grace period the identity is gone: `resume` is refused, whatever
/// the token.
pub proof fn guest_is_forgotten_past_grace(
    room: RoomView,
    peer_id: Seq<char>,
    conn_id: u64,
    left: Now,
    msg: ClientMessageView,
    admission: AdmissionView,
    back: Now,
    cancel: CancellationToken,
)
    requires
        room.wf(),
        !room.closing,
        room.is_current(peer_id, conn_id),
        peer_id != room.host_peer_id,
        !room.release_is_pending(peer_id),
        admission.peer_id == peer_id,
        elapsed(left.mono.at(), back.mono.at()) >= PEER_RESERVATION_GRACE,
    ensures
        ({
            let away = room.disconnected(peer_id, conn_id, left).room;
            let outcome = away.join_or_resume(msg, admission, true, back, cancel);
            &&& outcome.effects == refusal(
                ClientError::PeerIdUnavailable,
                "Peer ID is unavailable"@,
            )
            &&& !outcome.room.connected(peer_id)
            &&& !has_key(outcome.room.reservations, peer_id)
        }),
{
    assert(room.connected(peer_id));
    absence_is_noted(room, peer_id, conn_id, left);
    let away = room.disconnected(peer_id, conn_id, left).room;
    disconnection_continues(room, peer_id, conn_id, left);
    pruned_lookup(away, back);
    let before = away.pruned(back.mono);
    assert(lookup(before.reservations, peer_id) is None);
}

/// The host gets back in with its token, however long it was away.
pub proof fn host_returns_anytime(
    room: RoomView,
    msg: ClientMessageView,
    admission: AdmissionView,
    resume_only: bool,
    now: Now,
    cancel: CancellationToken,
)
    requires
        room.wf(),
        !room.closing,
        admission.peer_id == room.host_peer_id,
        verifier_of_token(msg.reconnect_token) == Some(room.host_verifier),
    ensures
        ({
            let outcome = room.join_or_resume(msg, admission, resume_only, now, cancel);
            &&& outcome.room.is_current(room.host_peer_id, room.next_conn_id)
            &&& outcome.effects.assigned_conn_id == Some(room.next_conn_id)
        }),
{
    admission_is_current(room.pruned(now.mono), room.host_peer_id, admission, cancel);
}

/// Nobody gets at an identity that is held, or at the host's, with a token that
/// is not its own: the request is refused, and who is connected stays so.
pub proof fn identity_cannot_be_taken_over(
    room: RoomView,
    msg: ClientMessageView,
    admission: AdmissionView,
    resume_only: bool,
    now: Now,
    cancel: CancellationToken,
)
    requires
        room.wf(),
        !room.closing,
        ({
            let peer_id = admission.peer_id;
            let presented = verifier_of_token(msg.reconnect_token);
            if peer_id == room.host_peer_id {
                presented != Some(room.host_verifier)
            } else {
                &&& has_key(room.reservations, peer_id)
                &&& presented != Some(lookup(room.reservations, peer_id)->0.verifier)
                &&& room.connected(peer_id) || !grace_is_over(
                    lookup(room.reservations, peer_id)->0,
                    now.mono,
                )
            }
        }),
    ensures
        ({
            let outcome = room.join_or_resume(msg, admission, resume_only, now, cancel);
            &&& outcome.effects == refusal(
                ClientError::PeerIdUnavailable,
                "Peer ID is unavailable"@,
            )
            &&& outcome.room.peers == room.peers
        }),
{
    pruned_lookup(room, now);
    let before = room.pruned(now.mono);
    if admission.peer_id != room.host_peer_id {
        assert(lookup(before.reservations, admission.peer_id) == lookup(
            room.reservations,
            admission.peer_id,
        ));
    }
}

/// A connection that was just admitted is the one that speaks for its identity,
/// and no other is.
pub proof fn admission_is_current(
    room: RoomView,
    peer_id: Seq<char>,
    admission: AdmissionView,
    cancel: CancellationToken,
)
    requires
        unique_keys(room.peers),
    ensures
        ({
            let after = room.admitted(peer_id, admission, cancel);
            &&& after.is_current(peer_id, room.next_conn_id)
            &&& forall|conn_id: u64|
                conn_id != room.next_conn_id ==> !#[trigger] after.is_current(peer_id, conn_id)
            &&& forall|id: Seq<char>, conn_id: u64|
                id != peer_id ==> #[trigger] after.is_current(id, conn_id) == room.is_current(
                    id,
                    conn_id,
                )
        }),
{
    put_then_lookup(
        room.peers,
        peer_id,
        ConnectedPeer {
            tx: admission.tx,
            sync_protocol_version: admission.sync_protocol_version,
            host_transfer_capable: admission.host_transfer_capable,
            conn_id: room.next_conn_id,
            cancel,
        },
    );
}

/// A `leave` that could not be saved changes nothing, and the client is told
/// that it failed.
pub proof fn failed_leave_is_undone(
    room: RoomView,
    peer_id: Seq<char>,
    conn_id: u64,
    token: Seq<char>,
    protocol_version: u32,
    now: WallTime,
)
    requires
        room.wf(),
        room.may_leave(peer_id, conn_id, token, protocol_version),
    ensures
        room.with_release(peer_id, true).leave_finished(peer_id, conn_id, false, now)
            == (Outcome {
            room,
            effects: refusal(
                ClientError::InvalidMessage,
                "Unable to persist released peer identity"@,
            ),
        }),
{
    let r = lookup(room.reservations, peer_id)->0;
    put_then_lookup(room.reservations, peer_id, ReservationView { release_pending: true, ..r });
    let pending = room.with_release(peer_id, true);
    let p = position(room.reservations, peer_id);
    entry_is_found(pending.reservations, p);
    assert(pending.with_release(peer_id, false).reservations =~= room.reservations);
    assert(pending.with_release(peer_id, false) =~= room);
    assert(pending.is_current(peer_id, conn_id));
    assert(pending.release_is_pending(peer_id));
}

/// A `leave` that begins is in flight.
pub proof fn leave_takes_off(
    room: RoomView,
    peer_id: Seq<char>,
    conn_id: u64,
    token: Seq<char>,
    protocol_version: u32,
)
    requires
        room.wf(),
        room.may_leave(peer_id, conn_id, token, protocol_version),
    ensures
        room.with_release(peer_id, true).leave_in_flight(peer_id, conn_id),
{
    let r = lookup(room.reservations, peer_id)->0;
    put_then_lookup(room.reservations, peer_id, ReservationView { release_pending: true, ..r });
    assert(room.with_release(peer_id, true).is_current(peer_id, conn_id));
}

/// Whatever its snapshot comes to, and whether or not its connection is still
/// there, a `leave` that ends leaves no release pending: if it was saved, the
/// identity is free, and if not, it is held with its token as before. Whoever
/// else is connected or reserved stays so.
pub proof fn ended_leave_is_settled(
    room: RoomView,
    peer_id: Seq<char>,
    conn_id: u64,
    persisted: bool,
    now: WallTime,
)
    requires
        room.wf(),
        room.leave_in_flight(peer_id, conn_id),
    ensures
        ({
            let after = room.leave_finished(peer_id, conn_id, persisted, now).room;
            &&& !after.release_is_pending(peer_id)
            &&& if persisted {
                !after.connected(peer_id) && !has_key(after.reservations, peer_id)
            } else {
                &&& lookup(after.peers, peer_id) == lookup(room.peers, peer_id)
                &&& lookup(after.reservations, peer_id) == Some(
                    ReservationView {
                        release_pending: false,
                        ..lookup(room.reservations, peer_id)->0
                    },
                )
            }
            &&& forall|id: Seq<char>|
                id != peer_id ==> #[trigger] lookup(after.peers, id) == lookup(room.peers, id)
            &&& forall|id: Seq<char>|
                id != peer_id ==> #[trigger] lookup(after.reservations, id) == lookup(
                    room.reservations,
                    id,
                )
        }),
{
    let r = lookup(room.reservations, peer_id)->0;
    put_then_lookup(room.reservations, peer_id, ReservationView { release_pending: false, ..r });
    without_then_lookup(room.peers, peer_id);
    without_then_lookup(room.reservations, peer_id);
}

/// A `leave` that was saved frees the identity, whatever became of the
/// connection meanwhile; a client that is still there is told that it left.
pub proof fn saved_leave_frees_identity(
    room: RoomView,
    peer_id: Seq<char>,
    conn_id: u64,
    now: WallTime,
)
    requires
        room.wf(),
        room.leave_in_flight(peer_id, conn_id),
    ensures
        ({
            let outcome = room.leave_finished(peer_id, conn_id, true, now);
            &&& !outcome.room.connected(peer_id)
            &&& !has_key(outcome.room.reservations, peer_id)
            &&& room.connected(peer_id) ==> outcome.effects.reply is Some
                && outcome.effects.reply->0.msg_type == server_type::LEFT@
            &&& !room.connected(peer_id) ==> outcome.effects.reply is None
        }),
{
    ended_leave_is_settled(room, peer_id, conn_id, true, now);
}

/// Nobody overtakes a `leave`: while it waits for its snapshot, no admission
/// takes its identity.
pub proof fn leave_outlasts_admissions(
    room: RoomView,
    peer_id: Seq<char>,
    conn_id: u64,
    msg: ClientMessageView,
    admission: AdmissionView,
    resume_only: bool,
    now: Now,
    cancel: CancellationToken,
)
    requires
        room.wf(),
        room.leave_in_flight(peer_id, conn_id),
    ensures
        room.pruned(now.mono).leave_in_flight(peer_id, conn_id),
        room.join_or_resume(msg, admission, resume_only, now, cancel).room.leave_in_flight(
            peer_id,
            conn_id,
        ),
        room.host_reconnected(admission, cancel).room.leave_in_flight(peer_id, conn_id),
{
    pruned_lookup(room, now);
    let before = room.pruned(now.mono);
    assert(lookup(before.reservations, peer_id) == lookup(room.reservations, peer_id));
    assert(before.peers == room.peers);
    let joined = room.join_or_resume(msg, admission, resume_only, now, cancel);
    if joined.effects.assigned_conn_id is Some {
        pruning_continues(room, now);
        assert(admission.peer_id != peer_id);
        admission_is_current(before, admission.peer_id, admission, cancel);
        put_then_lookup(
            before.reservations,
            admission.peer_id,
            ReservationView {
                verifier: verifier_of_token(msg.reconnect_token)->0,
                absent_since: None,
                release_pending: false,
            },
        );
        others_stay_connected(before, admission.peer_id, admission, cancel);
        assert(joined.room.peers == before.admitted(admission.peer_id, admission, cancel).peers);
        assert(joined.room.is_current(peer_id, conn_id) == before.is_current(peer_id, conn_id)) by {
            assert(before.admitted(admission.peer_id, admission, cancel).is_current(
                peer_id,
                conn_id,
            ) == before.is_current(peer_id, conn_id));
        }
    }
    assert(room.host_peer_id != peer_id);
    admission_is_current(room, room.host_peer_id, admission, cancel);
    others_stay_connected(room, room.host_peer_id, admission, cancel);
}

/// Admitting one peer does not connect another.
proof fn others_stay_connected(
    room: RoomView,
    peer_id: Seq<char>,
    admission: AdmissionView,
    cancel: CancellationToken,
)
    requires
        unique_keys(room.peers),
    ensures
        forall|id: Seq<char>|
            id != peer_id ==> #[trigger] room.admitted(peer_id, admission, cancel).connected(id)
                == room.connected(id),
{
    put_then_lookup(
        room.peers,
        peer_id,
        ConnectedPeer {
            tx: admission.tx,
            sync_protocol_version: admission.sync_protocol_version,
            host_transfer_capable: admission.host_transfer_capable,
            conn_id: room.next_conn_id,
            cancel,
        },
    );
}

/// A `leave` that waits for its snapshot goes on waiting whatever else happens
/// in the room: another identity's `leave` that begins or ends, a change of
/// host, payloads, and connections that go away, its own among them.
pub proof fn leave_outlasts_the_rest(
    room: RoomView,
    peer_id: Seq<char>,
    conn_id: u64,
    other: Seq<char>,
    other_conn: u64,
    protocol_version: u32,
    target: Seq<char>,
    payload: Option<Seq<char>>,
    persisted: bool,
    now: Now,
)
    requires
        room.wf(),
        room.leave_in_flight(peer_id, conn_id),
    ensures
        other != peer_id ==> room.with_release(other, true).leave_in_flight(peer_id, conn_id),
        other != peer_id ==> room.leave_finished(
            other,
            other_conn,
            persisted,
            now.wall,
        ).room.leave_in_flight(peer_id, conn_id),
        room.transfer_host(other, other_conn, protocol_version, target).room.leave_in_flight(
            peer_id,
            conn_id,
        ),
        room.broadcast(other, other_conn, payload, now.wall).room.leave_in_flight(
            peer_id,
            conn_id,
        ),
        room.send_to(other, other_conn, target, payload, now.wall).room.leave_in_flight(
            peer_id,
            conn_id,
        ),
        room.disconnected(other, other_conn, now).room.leave_in_flight(peer_id, conn_id),
        room.closed().leave_in_flight(peer_id, conn_id),
{
    let r = lookup(room.reservations, other)->0;
    put_then_lookup(room.reservations, other, ReservationView { release_pending: true, ..r });
    put_then_lookup(
        room.reservations,
        other,
        ReservationView { absent_since: Some(now.mono), ..r },
    );
    without_then_lookup(room.peers, other);
    if other != peer_id && room.leave_in_flight(other, other_conn) {
        ended_leave_is_settled(room, other, other_conn, persisted, now.wall);
        let ended = room.leave_finished(other, other_conn, persisted, now.wall).room;
        assert(lookup(ended.peers, peer_id) == lookup(room.peers, peer_id));
        assert(lookup(ended.reservations, peer_id) == lookup(room.reservations, peer_id));
    }
    without_then_lookup(room.reservations, target);
    put_then_lookup(
        without(room.reservations, target),
        room.host_peer_id,
        ReservationView {
            verifier: room.host_verifier,
            absent_since: None,
            release_pending: false,
        },
    );
}

/// A client is told that it left only if that was saved.
pub proof fn left_means_saved(
    room: RoomView,
    peer_id: Seq<char>,
    conn_id: u64,
    persisted: bool,
    now: WallTime,
)
    requires
        ({
            let reply = room.leave_finished(peer_id, conn_id, persisted, now).effects.reply;
            reply is Some && reply->0.msg_type == server_type::LEFT@
        }),
    ensures
        persisted,
{
    reveal_strlit("left");
    reveal_strlit("error");
    if !persisted {
        let reply = room.leave_finished(peer_id, conn_id, persisted, now).effects.reply->0;
        assert(reply.msg_type == server_type::ERROR@);
        assert("left"@.len() == 4 && "error"@.len() == 5);
    }
}

/// A client is told that its room has ended only if that was saved.
pub proof fn ended_means_saved(
    room: RoomView,
    guests: Seq<Sender<ServerMessage>>,
    persisted: bool,
)
    requires
        ({
            let effects = room.session_ended(guests, persisted).effects;
            ||| effects.reply is Some && effects.reply->0.msg_type == server_type::ENDED@
            ||| effects.broadcast.len() > 0
        }),
    ensures
        persisted,
{
    reveal_strlit("ended");
    reveal_strlit("error");
    if !persisted {
        let reply = room.session_ended(guests, persisted).effects.reply->0;
        assert(reply.msg_type == server_type::ERROR@);
        assert("ended"@[1] == 'n' && "error"@[1] == 'r');
    }
}

/// While a `leave` is being saved, nobody can join or resume under the identity.
pub proof fn released_identity_is_barred(
    room: RoomView,
    msg: ClientMessageView,
    admission: AdmissionView,
    resume_only: bool,
    now: Now,
    cancel: CancellationToken,
)
    requires
        room.wf(),
        !room.closing,
        room.release_is_pending(admission.peer_id),
    ensures
        ({
            let outcome = room.join_or_resume(msg, admission, resume_only, now, cancel);
            &&& outcome.effects == refusal(
                ClientError::PeerIdUnavailable,
                "Peer ID is unavailable"@,
            )
            &&& outcome.room.peers == room.peers
            &&& outcome.room.release_is_pending(admission.peer_id)
        }),
{
    pruned_lookup(room, now);
    let before = room.pruned(now.mono);
    assert(lookup(before.reservations, admission.peer_id) == lookup(
        room.reservations,
        admission.peer_id,
    ));
}

/// A new guest gets in with any token of the right form while there is place,
/// and is refused when there is none.
pub proof fn newcomer_joins_while_there_is_place(
    room: RoomView,
    msg: ClientMessageView,
    admission: AdmissionView,
    now: Now,
    cancel: CancellationToken,
)
    requires
        room.wf(),
        !room.closing,
        room.is_new_identity(admission.peer_id),
        verifier_of_token(msg.reconnect_token) is Some,
    ensures
        ({
            let outcome = room.join_or_resume(msg, admission, false, now, cancel);
            if room.pruned(now.mono).reservations.len() < MAX_ROOM_SIZE - 1 {
                &&& outcome.effects.assigned_conn_id == Some(room.next_conn_id)
                &&& outcome.room.is_current(admission.peer_id, room.next_conn_id)
                &&& lookup(outcome.room.reservations, admission.peer_id) == Some(
                    ReservationView {
                        verifier: verifier_of_token(msg.reconnect_token)->0,
                        absent_since: None,
                        release_pending: false,
                    },
                )
            } else {
                &&& outcome.effects == refusal(ClientError::RoomFull, "Room is full"@)
                &&& outcome.room.peers == room.peers
            }
        }),
{
    pruned_lookup(room, now);
    pruning_continues(room, now);
    let before = room.pruned(now.mono);
    let peer_id = admission.peer_id;
    assert(lookup(before.reservations, peer_id) is None);
    assert(before.authorizes(peer_id, verifier_of_token(msg.reconnect_token), false));
    admission_is_current(before, peer_id, admission, cancel);
    put_then_lookup(
        before.reservations,
        peer_id,
        ReservationView {
            verifier: verifier_of_token(msg.reconnect_token)->0,
            absent_since: None,
            release_pending: false,
        },
    );
}

} // verus!
