//! What a restart means to those who were in a room: what is written down of
//! it, what is believed of that afterwards, and who gets back in.

use crate::clock::{elapsed, millis_of, millis_round_trip, rewound, Now, WallTime};
use crate::error::SnapshotError;
use crate::id_map::{entry_is_found, filter_origin, has_key, lookup, position, unique_keys};
use crate::ids::{base64_encoded, is_valid_id, verifier_of_encoded, verifier_of_token};
use crate::protocol::ClientMessageView;
use crate::room::laws::restored_is_wf;
use crate::room::model::{AdmissionView, ReservationView, RoomView};
use crate::room::news_laws::{
    newcomer_is_announced_to_everyone, still_held, welcomes, who_is_let_in,
};
use crate::snapshot::laws::{
    absence_outlives_restart, is_expressible, saved_identity_is_found, saved_time_is_read_back,
};
use crate::snapshot::{
    is_resolved, is_restored, notices_for, reservation_is_sound, restored_prefix, restored_room,
    restored_snapshot, room_counts, room_dtos, session_seen, still_waiting, verifiers_read_back,
    Notice, RestoredReservationView, RestoredRoomView, RoomDtoView, StateSnapshotDto,
};
use tokio::sync::oneshot::Sender;
use tokio_util::sync::CancellationToken;
use vstd::prelude::*;

verus! {

/// The room that is taken in for what was read from a snapshot is open and
/// empty, under the same host, and holds each identity that was read with its
/// verifier and its absence; none of them is being released.
pub proof fn restored_room_holds_what_was_read(
    session_id: Seq<char>,
    host_peer_id: Seq<char>,
    host_verifier: Seq<u8>,
    owner_ip_key: Seq<char>,
    reservations: Seq<(Seq<char>, RestoredReservationView)>,
    created_at: WallTime,
    last_activity_at: WallTime,
)
    requires
        unique_keys(reservations),
    ensures
        ({
            let room = RoomView::restored(
                session_id,
                host_peer_id,
                host_verifier,
                owner_ip_key,
                reservations,
                created_at,
                last_activity_at,
            );
            &&& room.session_id == session_id
            &&& room.host_peer_id == host_peer_id
            &&& room.host_verifier == host_verifier
            &&& room.owner_ip_key == owner_ip_key
            &&& room.created_at == created_at
            &&& room.last_activity_at == last_activity_at
            &&& !room.closing
            &&& room.next_conn_id == 1
            &&& room.peers.len() == 0
            &&& room.reservations.len() == reservations.len()
            &&& unique_keys(room.reservations)
            &&& forall|i: int|
                0 <= i < reservations.len() ==> {
                    let held = lookup(room.reservations, (#[trigger] reservations[i]).0);
                    &&& held is Some
                    &&& held->0.verifier == reservations[i].1.verifier
                    &&& held->0.absent_since == reservations[i].1.absent_since
                    &&& !held->0.release_pending
                }
        }),
{
    let room = RoomView::restored(
        session_id,
        host_peer_id,
        host_verifier,
        owner_ip_key,
        reservations,
        created_at,
        last_activity_at,
    );
    assert forall|i: int, j: int| 0 <= i < j < room.reservations.len() implies
        room.reservations[i].0 != room.reservations[j].0 by {
        assert(reservations[i].0 != reservations[j].0);
    }
    assert forall|i: int| 0 <= i < reservations.len() implies {
        let held = lookup(room.reservations, (#[trigger] reservations[i]).0);
        &&& held is Some
        &&& held->0.verifier == reservations[i].1.verifier
        &&& held->0.absent_since == reservations[i].1.absent_since
        &&& !held->0.release_pending
    } by {
        assert(room.reservations[i].0 == reservations[i].0);
        entry_is_found(room.reservations, i);
    }
}

/// The room that is taken in for what was read.
pub open spec fn taken_in(saved: RestoredRoomView, owner_ip_key: Seq<char>) -> RoomView {
    RoomView::restored(
        saved.session_id,
        saved.host_peer_id,
        saved.host_verifier,
        owner_ip_key,
        saved.reservations,
        saved.created_at,
        saved.last_activity_at,
    )
}

/// A guest whose identity was read from a snapshot gets back in with its token,
/// by `join` or by `resume`, unless it has been away for five minutes by then.
pub proof fn restored_guest_gets_back_in(
    saved: RestoredRoomView,
    owner_ip_key: Seq<char>,
    i: int,
    msg: ClientMessageView,
    admission: AdmissionView,
    resume_only: bool,
    now: Now,
    cancel: CancellationToken,
)
    requires
        unique_keys(saved.reservations),
        !has_key(saved.reservations, saved.host_peer_id),
        0 <= i < saved.reservations.len(),
        admission.peer_id == saved.reservations[i].0,
        verifier_of_token(msg.reconnect_token) == Some(saved.reservations[i].1.verifier),
        saved.reservations[i].1.absent_since matches Some(since) ==> now.mono.at() - since.at()
            < 300_000_000_000,
    ensures
        ({
            let room = taken_in(saved, owner_ip_key);
            let outcome = room.join_or_resume(msg, admission, resume_only, now, cancel);
            let id = admission.peer_id;
            &&& outcome.effects.assigned_conn_id == Some(1u64)
            &&& welcomes(
                outcome.effects.reply,
                if resume_only {
                    "resumed"@
                } else {
                    "joined"@
                },
                outcome.room,
                id,
                Some(msg.reconnect_token),
            )
            &&& lookup(outcome.room.peers, id) is Some
            &&& lookup(outcome.room.reservations, id) == Some(
                ReservationView {
                    verifier: saved.reservations[i].1.verifier,
                    absent_since: None,
                    release_pending: false,
                },
            )
        }),
{
    let room = taken_in(saved, owner_ip_key);
    let id = admission.peer_id;
    restored_room_holds_what_was_read(
        saved.session_id,
        saved.host_peer_id,
        saved.host_verifier,
        owner_ip_key,
        saved.reservations,
        saved.created_at,
        saved.last_activity_at,
    );
    restored_is_wf(
        saved.session_id,
        saved.host_peer_id,
        saved.host_verifier,
        owner_ip_key,
        saved.reservations,
        saved.created_at,
        saved.last_activity_at,
    );
    assert(saved.reservations[i].0 == id);
    assert(lookup(room.reservations, id) is Some);
    assert(still_held(room, id, now) == lookup(room.reservations, id));
    if id == room.host_peer_id {
        assert(has_key(saved.reservations, saved.host_peer_id));
    }
    who_is_let_in(room, msg, admission, resume_only, now, cancel);
    newcomer_is_announced_to_everyone(room, msg, admission, resume_only, now, cancel);
}

/// The host of a room that was read from a snapshot gets back in with its token,
/// however long it was away.
pub proof fn restored_host_gets_back_in(
    saved: RestoredRoomView,
    owner_ip_key: Seq<char>,
    msg: ClientMessageView,
    admission: AdmissionView,
    resume_only: bool,
    now: Now,
    cancel: CancellationToken,
)
    requires
        unique_keys(saved.reservations),
        !has_key(saved.reservations, saved.host_peer_id),
        admission.peer_id == saved.host_peer_id,
        verifier_of_token(msg.reconnect_token) == Some(saved.host_verifier),
    ensures
        ({
            let room = taken_in(saved, owner_ip_key);
            let outcome = room.join_or_resume(msg, admission, resume_only, now, cancel);
            &&& outcome.effects.assigned_conn_id == Some(1u64)
            &&& outcome.room.host_peer_id == admission.peer_id
            &&& lookup(outcome.room.peers, admission.peer_id) is Some
        }),
{
    let room = taken_in(saved, owner_ip_key);
    restored_is_wf(
        saved.session_id,
        saved.host_peer_id,
        saved.host_verifier,
        owner_ip_key,
        saved.reservations,
        saved.created_at,
        saved.last_activity_at,
    );
    who_is_let_in(room, msg, admission, resume_only, now, cancel);
    newcomer_is_announced_to_everyone(room, msg, admission, resume_only, now, cancel);
}

/// A saved room that is believed: its ids have the right form, it speaks this
/// protocol, its host's verifier can be read, it was made a day ago at most, and
/// something happened in it in the last five minutes.
pub open spec fn is_believed(room: RoomDtoView, now: Now) -> bool {
    &&& is_valid_id(room.session_id, 64)
    &&& is_valid_id(room.host_peer_id, 128)
    &&& room.protocol_version == 2
    &&& verifier_of_encoded(room.host_verifier) is Some
    &&& now.wall.at() - room.created_at_millis * 1_000_000 <= 86_400_000_000_000
    &&& now.wall.at() - room.last_activity_at_millis * 1_000_000 <= 300_000_000_000
}

/// All saved identities can be read: each is a guest's, of the right form.
pub open spec fn guests_are_legible(room: RoomDtoView) -> bool {
    forall|i: int|
        0 <= i < room.reservations.len() ==> {
            &&& is_valid_id((#[trigger] room.reservations[i]).0, 128)
            &&& room.reservations[i].0 != room.host_peer_id
            &&& verifier_of_encoded(room.reservations[i].1.verifier) is Some
        }
}

/// Which saved rooms are restored: those that are believed, whose identities can
/// all be read, and before which no room of the same session is believed.
pub proof fn believed_rooms_are_restored(rooms: Seq<RoomDtoView>, i: int, now: Now)
    requires
        0 <= i < rooms.len(),
    ensures
        is_restored(rooms, i, now) <==> {
            &&& is_believed(rooms[i], now)
            &&& guests_are_legible(rooms[i])
            &&& forall|j: int|
                0 <= j < i && rooms[j].session_id == rooms[i].session_id ==> !is_believed(
                    #[trigger] rooms[j],
                    now,
                )
        },
{
    assert forall|j: int| 0 <= j < rooms.len() implies room_counts(#[trigger] rooms[j], now)
        == is_believed(rooms[j], now) by {
        millis_round_trip(rooms[j].created_at_millis);
        millis_round_trip(rooms[j].last_activity_at_millis);
    }
    assert(room_counts(rooms[i], now) == is_believed(rooms[i], now));
    assert forall|k: int|
        #![trigger rooms[i].reservations[k]]
        0 <= k < rooms[i].reservations.len() && is_believed(rooms[i], now) implies
        reservation_is_sound(rooms[i], rooms[i].reservations[k]) == {
        &&& is_valid_id(rooms[i].reservations[k].0, 128)
        &&& rooms[i].reservations[k].0 != rooms[i].host_peer_id
        &&& verifier_of_encoded(rooms[i].reservations[k].1.verifier) is Some
    } by {}
    if is_restored(rooms, i, now) {
        assert forall|j: int|
            0 <= j < i && rooms[j].session_id == rooms[i].session_id implies !is_believed(
            #[trigger] rooms[j],
            now,
        ) by {
            assert(room_counts(rooms[j], now) == is_believed(rooms[j], now));
        }
        assert(guests_are_legible(rooms[i])) by {
            assert forall|k: int| 0 <= k < rooms[i].reservations.len() implies {
                &&& is_valid_id((#[trigger] rooms[i].reservations[k]).0, 128)
                &&& rooms[i].reservations[k].0 != rooms[i].host_peer_id
                &&& verifier_of_encoded(rooms[i].reservations[k].1.verifier) is Some
            } by {
                assert(reservation_is_sound(rooms[i], rooms[i].reservations[k]));
            }
        }
    }
    if session_seen(rooms, i, rooms[i].session_id, now) {
        let j = choose|j: int|
            0 <= j < i && #[trigger] room_counts(rooms[j], now) && rooms[j].session_id
                == rooms[i].session_id;
        assert(room_counts(rooms[j], now) == is_believed(rooms[j], now));
    }
}

/// The restored rooms are the believed ones among the saved, each once and in
/// their order. The positions are where they stand among the saved.
pub proof fn restored_rooms_keep_their_order(
    rooms: Seq<RoomDtoView>,
    n: int,
    now: Now,
) -> (at: Seq<int>)
    requires
        0 <= n <= rooms.len(),
    ensures
        at.len() == restored_prefix(rooms, n, now).len(),
        forall|k: int|
            0 <= k < at.len() ==> {
                &&& 0 <= #[trigger] at[k] < n
                &&& is_restored(rooms, at[k], now)
                &&& restored_prefix(rooms, n, now)[k] == restored_room(rooms[at[k]], now)
            },
        forall|k: int, l: int| 0 <= k < l < at.len() ==> #[trigger] at[k] < #[trigger] at[l],
        forall|i: int| 0 <= i < n && #[trigger] is_restored(rooms, i, now) ==> at.contains(i),
    decreases n,
{
    if n <= 0 {
        Seq::empty()
    } else {
        let before = restored_rooms_keep_their_order(rooms, n - 1, now);
        let last = is_restored(rooms, n - 1, now);
        let at = if last {
            before.push(n - 1)
        } else {
            before
        };
        assert forall|i: int|
            0 <= i < n && #[trigger] is_restored(rooms, i, now) implies at.contains(i) by {
            if i < n - 1 {
                assert(before.contains(i));
                let k = choose|k: int| 0 <= k < before.len() && before[k] == i;
                assert(at[k] == i);
            } else {
                assert(at[before.len() as int] == i);
            }
        }
        at
    }
}

/// A snapshot in the first version of the format is restored from; nothing is
/// restored from one of another version, or where there is none.
pub proof fn only_a_known_format_is_restored(dto: StateSnapshotDto, now: Now)
    ensures
        dto.version == 1 ==> restored_snapshot(Some(dto), now) == restored_prefix(
            room_dtos(dto.rooms@),
            dto.rooms@.len() as int,
            now,
        ),
        dto.version != 1 ==> restored_snapshot(Some(dto), now).len() == 0,
        restored_snapshot(None, now).len() == 0,
{
}

/// What is restored of a saved room: the times that were saved, each identity
/// with the verifier that was saved, and an absence that started as long ago as
/// the wall clock says.
pub proof fn saved_room_is_read_back(room: RoomDtoView, now: Now)
    requires
        is_expressible(now),
        verifier_of_encoded(room.host_verifier) is Some,
        guests_are_legible(room),
    ensures
        ({
            let back = restored_room(room, now);
            &&& back.session_id == room.session_id
            &&& back.host_peer_id == room.host_peer_id
            &&& verifier_of_encoded(room.host_verifier) == Some(back.host_verifier)
            &&& back.created_at.at() == room.created_at_millis * 1_000_000
            &&& back.last_activity_at.at() == room.last_activity_at_millis * 1_000_000
            &&& back.reservations.len() == room.reservations.len()
            &&& forall|i: int|
                0 <= i < room.reservations.len() ==> {
                    let saved = #[trigger] room.reservations[i];
                    let held = back.reservations[i];
                    &&& held.0 == saved.0
                    &&& verifier_of_encoded(saved.1.verifier) == Some(held.1.verifier)
                    &&& match saved.1.absent_since_millis {
                        None => held.1.absent_since is None,
                        Some(ms) => {
                            &&& held.1.absent_since is Some
                            &&& now.mono.at() - held.1.absent_since->0.at() == if now.wall.at()
                                > ms * 1_000_000 {
                                now.wall.at() - ms * 1_000_000
                            } else {
                                0
                            }
                        },
                    }
                }
        }),
{
    let back = restored_room(room, now);
    millis_round_trip(room.created_at_millis);
    millis_round_trip(room.last_activity_at_millis);
    assert forall|i: int| 0 <= i < room.reservations.len() implies {
        let saved = #[trigger] room.reservations[i];
        let held = back.reservations[i];
        &&& held.0 == saved.0
        &&& verifier_of_encoded(saved.1.verifier) == Some(held.1.verifier)
        &&& match saved.1.absent_since_millis {
            None => held.1.absent_since is None,
            Some(ms) => {
                &&& held.1.absent_since is Some
                &&& now.mono.at() - held.1.absent_since->0.at() == if now.wall.at() > ms
                    * 1_000_000 {
                    now.wall.at() - ms * 1_000_000
                } else {
                    0
                }
            },
        }
    } by {
        match room.reservations[i].1.absent_since_millis {
            None => {},
            Some(ms) => {
                millis_round_trip(ms);
                let gone = elapsed(ms * 1_000_000, now.wall.at()) as int;
                let t = now.mono.at() - gone;
                assert(-(u64::MAX * 1_000_000) <= t);
                assert(t == (t / 1_000_000_000) * 1_000_000_000 + t % 1_000_000_000)
                    by (nonlinear_arith);
                assert(i64::MIN <= t / 1_000_000_000 <= i64::MAX);
                assert(rewound(now.mono, gone).at() == t);
            },
        }
    }
}

/// What is saved of a room: its own data, times to the millisecond, and each
/// identity that is not being released, with its verifier in base64 and the
/// moment from which it is absent.
pub proof fn room_is_written_down(room: RoomView, now: Now)
    requires
        unique_keys(room.reservations),
        is_expressible(now),
        0 <= room.created_at.at() <= u64::MAX * 1_000_000,
        0 <= room.last_activity_at.at() <= u64::MAX * 1_000_000,
    ensures
        ({
            let saved = room.saved(now);
            &&& saved.session_id == room.session_id
            &&& saved.host_peer_id == room.host_peer_id
            &&& saved.host_verifier == base64_encoded(room.host_verifier)
            &&& saved.protocol_version == 2
            &&& 0 <= room.created_at.at() - saved.created_at_millis * 1_000_000 < 1_000_000
            &&& 0 <= room.last_activity_at.at() - saved.last_activity_at_millis * 1_000_000
                < 1_000_000
            &&& forall|id: Seq<char>|
                match (lookup(room.reservations, id), #[trigger] lookup(saved.reservations, id)) {
                    (Some(held), Some(entry)) => {
                        &&& !held.release_pending
                        &&& entry.verifier == base64_encoded(held.verifier)
                        &&& entry.absent_since_millis is Some <==> held.absent_since is Some
                        &&& held.absent_since matches Some(since) ==> {
                            let away = if now.mono.at() > since.at() {
                                now.mono.at() - since.at()
                            } else {
                                0
                            };
                            away <= now.wall.at() ==> 0 <= now.wall.at() - away
                                - entry.absent_since_millis->0 * 1_000_000 < 1_000_000
                        }
                    },
                    (Some(held), None) => held.release_pending,
                    (None, Some(_)) => false,
                    (None, None) => true,
                }
        }),
{
    let saved = room.saved(now);
    saved_time_is_read_back(room.created_at.at());
    saved_time_is_read_back(room.last_activity_at.at());
    millis_round_trip(saved.created_at_millis);
    millis_round_trip(saved.last_activity_at_millis);
    saved_identity_is_found(room, now);
    assert forall|id: Seq<char>|
        match (lookup(room.reservations, id), #[trigger] lookup(saved.reservations, id)) {
            (Some(held), Some(entry)) => {
                &&& !held.release_pending
                &&& entry.verifier == base64_encoded(held.verifier)
                &&& entry.absent_since_millis is Some <==> held.absent_since is Some
                &&& held.absent_since matches Some(since) ==> {
                    let away = if now.mono.at() > since.at() {
                        now.mono.at() - since.at()
                    } else {
                        0
                    };
                    away <= now.wall.at() ==> 0 <= now.wall.at() - away
                        - entry.absent_since_millis->0 * 1_000_000 < 1_000_000
                }
            },
            (Some(held), None) => held.release_pending,
            (None, Some(_)) => false,
            (None, None) => true,
        } by {
        if let Some(held) = lookup(room.reservations, id) {
            if let Some(since) = held.absent_since {
                let away = elapsed(since.at(), now.mono.at());
                if away <= now.wall.at() {
                    saved_time_is_read_back(now.wall.at() - away);
                    millis_round_trip(millis_of(now.wall.at() - away));
                }
            }
        }
    }
}

/// A guest of a room that was saved gets back in after a restart with the token
/// that its identity is reserved for: always if it was connected, and otherwise
/// while its absence, the downtime and the time since fall short of five
/// minutes, to the millisecond.
pub proof fn saved_guest_gets_back_in(
    room: RoomView,
    now: Now,
    restart: Now,
    msg: ClientMessageView,
    admission: AdmissionView,
    resume_only: bool,
    then: Now,
    cancel: CancellationToken,
)
    requires
        room.wf(),
        verifiers_read_back(room.host_verifier, room.reservations),
        is_expressible(now),
        is_expressible(restart),
        now.wall.at() <= restart.wall.at(),
        restart.mono.at() <= then.mono.at(),
        ({
            let held = lookup(room.reservations, admission.peer_id);
            &&& held is Some
            &&& !held->0.release_pending
            &&& verifier_of_token(msg.reconnect_token) == Some(held->0.verifier)
            &&& held->0.absent_since matches Some(since) ==> {
                let away = if now.mono.at() > since.at() {
                    now.mono.at() - since.at()
                } else {
                    0
                };
                &&& away <= now.wall.at()
                &&& away + (restart.wall.at() - now.wall.at()) + (then.mono.at()
                    - restart.mono.at()) + 1_000_000 <= 300_000_000_000
            }
        }),
    ensures
        ({
            let back = taken_in(restored_room(room.saved(now), restart), ""@);
            let outcome = back.join_or_resume(msg, admission, resume_only, then, cancel);
            &&& outcome.effects.assigned_conn_id is Some
            &&& lookup(outcome.room.peers, admission.peer_id) is Some
            &&& lookup(outcome.room.reservations, admission.peer_id) == Some(
                ReservationView {
                    verifier: lookup(room.reservations, admission.peer_id)->0.verifier,
                    absent_since: None,
                    release_pending: false,
                },
            )
        }),
{
    let id = admission.peer_id;
    let held = lookup(room.reservations, id)->0;
    let saved = room.saved(now);
    let read = restored_room(saved, restart);
    saved_identity_is_found(room, now);
    let k = position(saved.reservations, id);
    let j = position(room.reservations, id);
    assert(room.reservations[j] == (id, held));
    assert(has_key(saved.reservations, id)) by {
        assert(lookup(saved.reservations, id) is Some);
    }
    assert(lookup(saved.reservations, id) == Some(saved.reservations[k].1));
    assert(read.reservations[k].0 == id);
    assert(read.reservations[k].1.verifier == held.verifier);
    if let Some(since) = held.absent_since {
        absence_outlives_restart(since, now, restart);
    }
    assert forall|a: int, b: int| 0 <= a < b < read.reservations.len() implies
        read.reservations[a].0 != read.reservations[b].0 by {
        assert(saved.reservations[a].0 != saved.reservations[b].0);
    }
    if has_key(read.reservations, read.host_peer_id) {
        let h = position(read.reservations, read.host_peer_id);
        assert(saved.reservations[h].0 == room.host_peer_id);
        assert(has_key(saved.reservations, room.host_peer_id));
        assert(lookup(saved.reservations, room.host_peer_id) is Some);
    }
    restored_guest_gets_back_in(read, ""@, k, msg, admission, resume_only, then, cancel);
}

/// Who waits for a write learns how it went iff the write failed or reached the
/// change that is waited for; everybody else goes on waiting. Nobody is told
/// twice, and nobody is forgotten.
pub proof fn each_waiter_is_told_or_waits_on(
    waiters: Seq<(u64, Sender<Result<(), SnapshotError>>)>,
    durable_seq: u64,
    result: Result<(), SnapshotError>,
)
    ensures
        ({
            let notices = notices_for(waiters, durable_seq, result);
            let left = still_waiting(waiters, durable_seq, result);
            &&& notices.len() + left.len() == waiters.len()
            &&& forall|k: int| 0 <= k < notices.len() ==> (#[trigger] notices[k]).result == result
            &&& forall|i: int|
                0 <= i < waiters.len() ==> if result is Err || (#[trigger] waiters[i]).0
                    <= durable_seq {
                    notices.contains(Notice { to: waiters[i].1, result })
                } else {
                    left.contains(waiters[i])
                }
            &&& left.len() > 0 ==> result is Ok
            &&& forall|k: int|
                0 <= k < left.len() ==> (#[trigger] left[k]).0 > durable_seq && waiters.contains(
                    left[k],
                )
        }),
{
    let done = |w: (u64, Sender<Result<(), SnapshotError>>)|
        is_resolved(w, durable_seq, result);
    let rest = |w: (u64, Sender<Result<(), SnapshotError>>)|
        !is_resolved(w, durable_seq, result);
    let notices = notices_for(waiters, durable_seq, result);
    let left = still_waiting(waiters, durable_seq, result);
    filters_split(waiters, done, rest);
    let told = filter_origin(waiters, done);
    let kept = filter_origin(waiters, rest);
    assert forall|i: int| 0 <= i < waiters.len() implies if result is Err || (
    #[trigger] waiters[i]).0 <= durable_seq {
        notices.contains(Notice { to: waiters[i].1, result })
    } else {
        left.contains(waiters[i])
    } by {
        if result is Err || waiters[i].0 <= durable_seq {
            assert(done(waiters[i]));
            let k = choose|k: int| 0 <= k < told.len() && told[k] == i;
            assert(notices[k] == Notice { to: waiters[i].1, result });
        } else {
            assert(rest(waiters[i]));
            let k = choose|k: int| 0 <= k < kept.len() && kept[k] == i;
            assert(left[k] == waiters[i]);
        }
    }
    if left.len() > 0 {
        assert(rest(waiters[kept[0]]));
    }
    assert forall|k: int| 0 <= k < left.len() implies (#[trigger] left[k]).0 > durable_seq
        && waiters.contains(left[k]) by {
        assert(rest(waiters[kept[k]]));
        assert(left[k] == waiters[kept[k]]);
    }
}

/// A filter and its opposite split a list.
proof fn filters_split<A>(s: Seq<A>, p: spec_fn(A) -> bool, q: spec_fn(A) -> bool)
    requires
        forall|a: A| #[trigger] q(a) == !p(a),
    ensures
        s.filter(p).len() + s.filter(q).len() == s.len(),
    decreases s.len(),
{
    reveal(Seq::filter);
    if s.len() > 0 {
        filters_split(s.drop_last(), p, q);
        assert(q(s.last()) == !p(s.last()));
    }
}

} // verus!
