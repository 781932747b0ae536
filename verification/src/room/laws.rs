//! What holds of every room, whatever happens in it.

use crate::clock::{Now, WallTime};
use crate::id_map::{
    entry_is_found, filter_then_lookup, has_key, keys, lookup, position, put, put_then_lookup,
    unique_keys, without, without_then_lookup,
};
use crate::ids::verifier_of_token;
use crate::protocol::{ClientMessageView, ServerMessage, MAX_ROOM_SIZE};
use crate::room::model::{
    grace_is_over, AdmissionView, ReservationView, RoomView,
};
use crate::room::ConnectedPeer;
use crate::snapshot::RestoredReservationView;
use tokio::sync::mpsc::Sender;
use tokio_util::sync::CancellationToken;
use vstd::prelude::*;

verus! {

/// Connecting under a guest's id that is reserved, or under the host's, keeps a
/// room well-formed.
proof fn admitted_keeps_wf(
    room: RoomView,
    peer_id: Seq<char>,
    admission: AdmissionView,
    cancel: CancellationToken,
)
    requires
        room.wf(),
        room.next_conn_id < u64::MAX,
        peer_id != room.host_peer_id ==> {
            &&& lookup(room.reservations, peer_id) is Some
            &&& lookup(room.reservations, peer_id)->0.absent_since is None
        },
    ensures
        room.admitted(peer_id, admission, cancel).wf(),
{
    let after = room.admitted(peer_id, admission, cancel);
    let fresh = ConnectedPeer {
        tx: admission.tx,
        sync_protocol_version: admission.sync_protocol_version,
        host_transfer_capable: admission.host_transfer_capable,
        conn_id: room.next_conn_id,
        cancel,
    };
    put_then_lookup(room.peers, peer_id, fresh);
    assert forall|i: int| 0 <= i < after.peers.len() implies (
    #[trigger] after.peers[i]).1.conn_id < after.next_conn_id by {
        if after.peers[i].1 != fresh {
            assert(after.peers[i] == room.peers[i]);
        }
    }
    assert forall|i: int, j: int| 0 <= i < j < after.peers.len() implies (
    #[trigger] after.peers[i]).1.conn_id != (#[trigger] after.peers[j]).1.conn_id by {
        if has_key(room.peers, peer_id) {
            let p = position(room.peers, peer_id);
            if i != p {
                assert(after.peers[i] == room.peers[i]);
            }
            if j != p {
                assert(after.peers[j] == room.peers[j]);
            }
        } else {
            assert(after.peers[i] == room.peers[i]);
            if j < room.peers.len() {
                assert(after.peers[j] == room.peers[j]);
            }
        }
    }
    assert forall|id: Seq<char>| #[trigger]
        after.connected(id) && id != after.host_peer_id implies {
        &&& lookup(after.reservations, id) is Some
        &&& lookup(after.reservations, id)->0.absent_since is None
    } by {
        if id != peer_id {
            assert(room.connected(id));
        }
    }
}

/// Removing a connection keeps a room well-formed.
proof fn unplugged_keeps_wf(room: RoomView, peer_id: Seq<char>)
    requires
        room.wf(),
    ensures
        room.with_peers(without(room.peers, peer_id)).wf(),
{
    let after = room.with_peers(without(room.peers, peer_id));
    without_then_lookup(room.peers, peer_id);
    if has_key(room.peers, peer_id) {
        let p = position(room.peers, peer_id);
        assert forall|i: int| 0 <= i < after.peers.len() implies #[trigger] after.peers[i]
            == room.peers[if i < p {
            i
        } else {
            i + 1
        }] by {}
    }
    assert forall|id: Seq<char>| #[trigger]
        after.connected(id) && id != after.host_peer_id implies {
        &&& lookup(after.reservations, id) is Some
        &&& lookup(after.reservations, id)->0.absent_since is None
    } by {
        assert(room.connected(id));
    }
}

/// Changing the reservation of a guest keeps a room well-formed, unless it
/// starts the grace period of one who is connected.
proof fn reserved_keeps_wf(room: RoomView, peer_id: Seq<char>, r: ReservationView)
    requires
        room.wf(),
        peer_id != room.host_peer_id,
        room.connected(peer_id) ==> r.absent_since is None,
    ensures
        room.with_reservations(put(room.reservations, peer_id, r)).wf(),
{
    put_then_lookup(room.reservations, peer_id, r);
    let after = room.with_reservations(put(room.reservations, peer_id, r));
    assert forall|id: Seq<char>| #[trigger]
        after.connected(id) && id != after.host_peer_id implies {
        &&& lookup(after.reservations, id) is Some
        &&& lookup(after.reservations, id)->0.absent_since is None
    } by {
        assert(room.connected(id));
    }
}

/// A new room is well-formed.
pub proof fn created_is_wf(
    session_id: Seq<char>,
    host_peer_id: Seq<char>,
    host_verifier: Seq<u8>,
    owner_ip_key: Seq<char>,
    host: AdmissionView,
    now: Now,
    cancel: CancellationToken,
)
    ensures
        RoomView::created(
            session_id,
            host_peer_id,
            host_verifier,
            owner_ip_key,
            host,
            now,
            cancel,
        ).room.wf(),
{
    let room = RoomView::created(
        session_id,
        host_peer_id,
        host_verifier,
        owner_ip_key,
        host,
        now,
        cancel,
    ).room;
    assert forall|id: Seq<char>| #[trigger] room.connected(id) implies id == host_peer_id by {}
}

/// A restored room is well-formed, if no identity was saved twice and the host
/// was not saved as a guest.
pub proof fn restored_is_wf(
    session_id: Seq<char>,
    host_peer_id: Seq<char>,
    host_verifier: Seq<u8>,
    owner_ip_key: Seq<char>,
    reservations: Seq<(Seq<char>, RestoredReservationView)>,
    created_at: WallTime,
    last_activity_at: WallTime,
)
    requires
        unique_keys(reservations),
        !has_key(reservations, host_peer_id),
    ensures
        RoomView::restored(
            session_id,
            host_peer_id,
            host_verifier,
            owner_ip_key,
            reservations,
            created_at,
            last_activity_at,
        ).wf(),
{
    let room = RoomView::restored(
        session_id,
        host_peer_id,
        host_verifier,
        owner_ip_key,
        reservations,
        created_at,
        last_activity_at,
    );
    if has_key(room.reservations, host_peer_id) {
        let i = position(room.reservations, host_peer_id);
        assert(reservations[i].0 == host_peer_id);
    }
}

/// Forgetting expired reservations keeps what a room is: those who are connected
/// keep theirs.
pub proof fn pruning_continues(room: RoomView, now: Now)
    requires
        room.wf(),
    ensures
        room.pruned(now.mono).continues(room),
        room.pruned(now.mono).knows_only(room, None),
        room.pruned(now.mono).reservations.len() <= room.reservations.len(),
{
    let keeps = |e: (Seq<char>, ReservationView)|
        e.1.release_pending || room.connected(e.0) || !grace_is_over(e.1, now.mono);
    filter_then_lookup(room.reservations, keeps);
    let after = room.pruned(now.mono);
    assert(after.reservations == room.reservations.filter(keeps));
    assert forall|id: Seq<char>| #[trigger]
        after.connected(id) && id != after.host_peer_id implies {
        &&& lookup(after.reservations, id) is Some
        &&& lookup(after.reservations, id)->0.absent_since is None
    } by {
        assert(room.connected(id));
        assert(lookup(room.reservations.filter(keeps), id) == lookup(room.reservations, id));
    }
}

/// A repeated `create` by the host keeps what a room is.
pub proof fn host_reconnection_continues(
    room: RoomView,
    host: AdmissionView,
    cancel: CancellationToken,
)
    requires
        room.wf(),
        room.next_conn_id < u64::MAX,
    ensures
        room.host_reconnected(host, cancel).room.continues(room),
        room.host_reconnected(host, cancel).room.knows_only(room, None),
{
    admitted_keeps_wf(room, room.host_peer_id, host, cancel);
}

/// `join` and `resume` keep what a room is.
pub proof fn joining_continues(
    room: RoomView,
    msg: ClientMessageView,
    admission: AdmissionView,
    resume_only: bool,
    now: Now,
    cancel: CancellationToken,
)
    requires
        room.wf(),
        room.next_conn_id < u64::MAX,
    ensures
        room.join_or_resume(msg, admission, resume_only, now, cancel).room.continues(room),
        room.join_or_resume(msg, admission, resume_only, now, cancel).room.knows_only(
            room,
            Some(admission.peer_id),
        ),
{
    pruning_continues(room, now);
    let before = room.pruned(now.mono);
    let peer_id = admission.peer_id;
    let outcome = room.join_or_resume(msg, admission, resume_only, now, cancel);
    if outcome.effects.assigned_conn_id is Some {
        let reserved = if peer_id == before.host_peer_id {
            before
        } else {
            let r = ReservationView {
                verifier: verifier_of_token(msg.reconnect_token)->0,
                absent_since: None,
                release_pending: false,
            };
            reserved_keeps_wf(before, peer_id, r);
            put_then_lookup(before.reservations, peer_id, r);
            before.with_reservations(put(before.reservations, peer_id, r))
        };
        admitted_keeps_wf(reserved, peer_id, admission, cancel);
        let admitted = reserved.admitted(peer_id, admission, cancel);
        active_keeps_wf(admitted, now.wall);
        assert(outcome.room =~= admitted.active_at(now.wall));
    }
    assert forall|id: Seq<char>| #[trigger] outcome.room.knows(id) implies room.knows(id)
        || id == peer_id by {
        if id != peer_id && !room.closing {
            assert(has_key(outcome.room.reservations, id) ==> has_key(before.reservations, id));
            assert(before.knows(id));
        }
    }
}

/// A `leave` that begins, or whose beginning is undone, keeps what a room is.
pub proof fn marking_release_continues(room: RoomView, peer_id: Seq<char>, pending: bool)
    requires
        room.wf(),
        has_key(room.reservations, peer_id),
    ensures
        room.with_release(peer_id, pending).continues(room),
        room.with_release(peer_id, pending).knows_only(room, None),
{
    let r = lookup(room.reservations, peer_id)->0;
    put_then_lookup(
        room.reservations,
        peer_id,
        ReservationView { release_pending: pending, ..r },
    );
    if room.connected(peer_id) {
        assert(r.absent_since is None);
    }
    reserved_keeps_wf(room, peer_id, ReservationView { release_pending: pending, ..r });
}

/// The end of a `leave` keeps what a room is.
pub proof fn leaving_continues(
    room: RoomView,
    peer_id: Seq<char>,
    conn_id: u64,
    persisted: bool,
    now: WallTime,
)
    requires
        room.wf(),
    ensures
        room.leave_finished(peer_id, conn_id, persisted, now).room.continues(room),
        room.leave_finished(peer_id, conn_id, persisted, now).room.knows_only(room, None),
{
    if room.leave_in_flight(peer_id, conn_id) {
        if persisted && !room.connected(peer_id) {
            without_then_lookup(room.reservations, peer_id);
            let freed = room.with_reservations(without(room.reservations, peer_id));
            assert forall|id: Seq<char>| #[trigger]
                freed.connected(id) && id != freed.host_peer_id implies {
                &&& lookup(freed.reservations, id) is Some
                &&& lookup(freed.reservations, id)->0.absent_since is None
            } by {
                assert(room.connected(id));
            }
            assert(freed.wf());
        } else if persisted {
            unplugged_keeps_wf(room, peer_id);
            without_then_lookup(room.peers, peer_id);
            without_then_lookup(room.reservations, peer_id);
            let left = room.with_peers(without(room.peers, peer_id));
            let freed = left.with_reservations(without(left.reservations, peer_id));
            assert forall|id: Seq<char>| #[trigger]
                freed.connected(id) && id != freed.host_peer_id implies {
                &&& lookup(freed.reservations, id) is Some
                &&& lookup(freed.reservations, id)->0.absent_since is None
            } by {
                assert(room.connected(id));
            }
            assert(freed.wf());
            active_keeps_wf(freed, now);
            assert(freed.active_at(now) =~= room.leave_finished(
                peer_id,
                conn_id,
                persisted,
                now,
            ).room);
        } else {
            marking_release_continues(room, peer_id, false);
        }
    }
}

/// Closing keeps a room well-formed.
pub proof fn closing_keeps_wf(room: RoomView)
    requires
        room.wf(),
    ensures
        room.closed().wf(),
{
    let after = room.closed();
    assert forall|id: Seq<char>| #[trigger]
        after.connected(id) && id != after.host_peer_id implies {
        &&& lookup(after.reservations, id) is Some
        &&& lookup(after.reservations, id)->0.absent_since is None
    } by {
        assert(room.connected(id));
    }
}

/// The end of an `endSession` keeps what a room is.
pub proof fn ending_continues(
    room: RoomView,
    guests: Seq<Sender<ServerMessage>>,
    persisted: bool,
)
    requires
        room.wf(),
    ensures
        room.session_ended(guests, persisted).room.continues(room),
        room.session_ended(guests, persisted).room.knows_only(room, None),
{
}

/// A change of host keeps what a room is: the host before is a guest then, and
/// the new one no longer is.
pub proof fn transfer_continues(
    room: RoomView,
    peer_id: Seq<char>,
    conn_id: u64,
    protocol_version: u32,
    target: Seq<char>,
)
    requires
        room.wf(),
    ensures
        room.transfer_host(peer_id, conn_id, protocol_version, target).room.continues(room),
        room.transfer_host(peer_id, conn_id, protocol_version, target).room.knows_only(room, None),
{
    let outcome = room.transfer_host(peer_id, conn_id, protocol_version, target);
    if outcome.room != room {
        let after = outcome.room;
        let host = room.host_peer_id;
        let r = ReservationView {
            verifier: room.host_verifier,
            absent_since: None,
            release_pending: false,
        };
        without_then_lookup(room.reservations, target);
        put_then_lookup(without(room.reservations, target), host, r);
        assert forall|id: Seq<char>| #[trigger]
            after.connected(id) && id != after.host_peer_id implies {
            &&& lookup(after.reservations, id) is Some
            &&& lookup(after.reservations, id)->0.absent_since is None
        } by {
            assert(room.connected(id));
            if id != host {
                assert(lookup(after.reservations, id) == lookup(room.reservations, id));
            }
        }
    }
}

/// Sending a payload to everyone keeps what a room is.
pub proof fn broadcast_continues(
    room: RoomView,
    sender_id: Seq<char>,
    conn_id: u64,
    payload: Option<Seq<char>>,
    now: WallTime,
)
    requires
        room.wf(),
    ensures
        room.broadcast(sender_id, conn_id, payload, now).room.continues(room),
        room.broadcast(sender_id, conn_id, payload, now).room.knows_only(room, None),
{
    active_keeps_wf(room, now);
}

/// Sending a payload to one peer keeps what a room is.
pub proof fn send_to_continues(
    room: RoomView,
    sender_id: Seq<char>,
    conn_id: u64,
    target_id: Seq<char>,
    payload: Option<Seq<char>>,
    now: WallTime,
)
    requires
        room.wf(),
    ensures
        room.send_to(sender_id, conn_id, target_id, payload, now).room.continues(room),
        room.send_to(sender_id, conn_id, target_id, payload, now).room.knows_only(room, None),
{
    active_keeps_wf(room, now);
}

/// A connection that goes away keeps what a room is.
pub proof fn disconnection_continues(
    room: RoomView,
    peer_id: Seq<char>,
    conn_id: u64,
    now: Now,
)
    requires
        room.wf(),
    ensures
        room.disconnected(peer_id, conn_id, now).room.continues(room),
        room.disconnected(peer_id, conn_id, now).room.knows_only(room, None),
{
    if !room.closing && room.is_current(peer_id, conn_id) {
        let left = room.with_peers(without(room.peers, peer_id));
        unplugged_keeps_wf(room, peer_id);
        without_then_lookup(room.peers, peer_id);
        if peer_id != room.host_peer_id {
            let r = ReservationView {
                absent_since: Some(now.mono),
                ..lookup(room.reservations, peer_id)->0
            };
            assert(!left.connected(peer_id));
            reserved_keeps_wf(left, peer_id, r);
            put_then_lookup(left.reservations, peer_id, r);
            active_keeps_wf(
                left.with_reservations(put(left.reservations, peer_id, r)),
                now.wall,
            );
            assert(room.connected(peer_id));
            assert(left.with_reservations(put(left.reservations, peer_id, r)).active_at(now.wall)
                =~= room.without_connection(peer_id, now));
        } else {
            active_keeps_wf(left, now.wall);
        }
    }
}

/// There are never more peers connected to a room than it has place for.
pub proof fn room_is_never_overfull(room: RoomView)
    requires
        room.wf(),
        room.fits(),
    ensures
        room.peers.len() <= MAX_ROOM_SIZE,
{
    let connected = keys(room.peers);
    let allowed = keys(room.reservations).push(room.host_peer_id);
    assert forall|i: int| 0 <= i < connected.len() implies allowed.contains(
        #[trigger] connected[i],
    ) by {
        let id = connected[i];
        entry_is_found(room.peers, i);
        assert(room.connected(id));
        if id == room.host_peer_id {
            assert(allowed[allowed.len() - 1] == id);
        } else {
            let j = position(room.reservations, id);
            assert(allowed[j] == id);
        }
    }
    assert(connected.no_duplicates());
    fewer_distinct(connected, allowed);
}

/// A list without duplicates whose members all occur in another one is not
/// longer than that.
proof fn fewer_distinct<A>(a: Seq<A>, b: Seq<A>)
    requires
        a.no_duplicates(),
        forall|i: int| 0 <= i < a.len() ==> b.contains(#[trigger] a[i]),
    ensures
        a.len() <= b.len(),
{
    a.unique_seq_to_set();
    vstd::seq_lib::seq_to_set_is_finite(b);
    assert(a.to_set().subset_of(b.to_set())) by {
        assert forall|x: A| a.to_set().contains(x) implies b.to_set().contains(x) by {
            let i = choose|i: int| 0 <= i < a.len() && a[i] == x;
            assert(b.contains(a[i]));
        }
    }
    vstd::set_lib::lemma_len_subset(a.to_set(), b.to_set());
    b.lemma_cardinality_of_set();
}

/// When a room was last active does not matter for its form.
proof fn active_keeps_wf(room: RoomView, at: WallTime)
    requires
        room.wf(),
    ensures
        room.active_at(at).wf(),
{
    let after = room.active_at(at);
    assert forall|id: Seq<char>| #[trigger]
        after.connected(id) && id != after.host_peer_id implies {
        &&& lookup(after.reservations, id) is Some
        &&& lookup(after.reservations, id)->0.absent_since is None
    } by {
        assert(room.connected(id));
    }
}

} // verus!
