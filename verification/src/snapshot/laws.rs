//! What of a room outlives a restart.

use crate::clock::{at_millis, elapsed, millis_of, millis_round_trip, rewound, Monotonic, Now};
use crate::id_map::{
    entry_is_found, filter_origin, filter_then_lookup, has_key, lookup, position, put_then_lookup,
    unique_keys,
};
use crate::ids::{base64_encoded, is_valid_id};
use crate::protocol::{MAX_PEER_ID_LENGTH, MAX_SESSION_ID_LENGTH};
use crate::registry::laws::{end_begun_keeps_wf, restorable, restored_ids_are_valid};
use crate::registry::model::{
    rooms_read_back, saved_prefix, HandleView, RegistryView, RoomEntry,
};
use crate::room::model::{grace_is_over, ReservationView, RoomView};
use crate::room::{EMPTY_ROOM_MAX_AGE, PEER_RESERVATION_GRACE, ROOM_MAX_AGE};
use crate::snapshot::{
    is_restored, reservation_is_sound, reservations_are_sound, restored_absence, restored_prefix,
    restored_room, room_counts, saved_absence, session_seen, verifiers_read_back,
    ReservationDtoView, RoomDtoView,
};
use vstd::prelude::*;

verus! {

impl RoomView {
    /// Every id in the room has the right form.
    pub open spec fn has_valid_ids(self) -> bool {
        &&& is_valid_id(self.session_id, MAX_SESSION_ID_LENGTH as nat)
        &&& forall|id: Seq<char>| #[trigger]
            self.knows(id) ==> is_valid_id(id, MAX_PEER_ID_LENGTH as nat)
    }
}

/// A moment between the epoch and the end of what 64 bits of milliseconds can
/// say, on a clock that started before it and has seconds left.
pub open spec fn is_expressible(now: Now) -> bool {
    &&& 0 <= now.wall.at() <= u64::MAX * 1_000_000
    &&& 0 <= now.mono.at() <= i64::MAX * 1_000_000_000
}

/// The identities that are saved of a room.
pub open spec fn saved_identities(room: RoomView) -> Seq<(Seq<char>, ReservationView)> {
    room.reservations.filter(|e: (Seq<char>, ReservationView)| !e.1.release_pending)
}

/// Of a room whose ids have the right form, every saved identity is believed.
pub proof fn saved_identities_are_sound(room: RoomView, now: Now)
    requires
        room.wf(),
        room.has_valid_ids(),
        verifiers_read_back(room.host_verifier, room.reservations),
    ensures
        reservations_are_sound(room.saved(now)),
{
    let saved = room.saved(now);
    let at = filter_origin(
        room.reservations,
        |e: (Seq<char>, ReservationView)| !e.1.release_pending,
    );
    assert forall|i: int| 0 <= i < saved.reservations.len() implies reservation_is_sound(
        saved,
        #[trigger] saved.reservations[i],
    ) by {
        let k = at[i];
        let entry = room.reservations[k];
        assert(saved_identities(room)[i] == entry);
        assert(saved.reservations[i].0 == entry.0);
        assert(has_key(room.reservations, entry.0));
        assert(room.knows(entry.0));
    }
}

/// A saved room whose ids have the right form counts until it is too old or was
/// idle for too long, by the times that were saved.
pub proof fn saved_room_counts_while_young(room: RoomView, now: Now, later: Now)
    requires
        room.has_valid_ids(),
        verifiers_read_back(room.host_verifier, room.reservations),
    ensures
        room_counts(room.saved(now), later) <==> {
            &&& elapsed(
                at_millis(millis_of(room.created_at.at())).at(),
                later.wall.at(),
            ) <= ROOM_MAX_AGE
            &&& elapsed(
                at_millis(millis_of(room.last_activity_at.at())).at(),
                later.wall.at(),
            ) <= EMPTY_ROOM_MAX_AGE
        },
{
    assert(room.knows(room.host_peer_id));
}

/// A time that is saved is read back to the millisecond.
pub proof fn saved_time_is_read_back(nanos: int)
    requires
        0 <= nanos <= u64::MAX * 1_000_000,
    ensures
        at_millis(millis_of(nanos)).at() <= nanos < at_millis(millis_of(nanos)).at() + 1_000_000,
{
    assert(elapsed(0, nanos) == nanos);
    assert(nanos / 1_000_000 <= u64::MAX);
    millis_round_trip(millis_of(nanos));
}

/// What is restored of a saved room: its session, its host and the host's
/// verifier, and each identity that was not being released, with its verifier.
pub proof fn room_outlives_restart(room: RoomView, now: Now, later: Now)
    requires
        verifiers_read_back(room.host_verifier, room.reservations),
    ensures
        ({
            let back = restored_room(room.saved(now), later);
            let identities = saved_identities(room);
            &&& back.session_id == room.session_id
            &&& back.host_peer_id == room.host_peer_id
            &&& back.host_verifier == room.host_verifier
            &&& back.created_at == at_millis(millis_of(room.created_at.at()))
            &&& back.last_activity_at == at_millis(millis_of(room.last_activity_at.at()))
            &&& back.reservations.len() == identities.len()
            &&& forall|i: int|
                0 <= i < identities.len() ==> {
                    &&& (#[trigger] back.reservations[i]).0 == identities[i].0
                    &&& back.reservations[i].1.verifier == identities[i].1.verifier
                    &&& back.reservations[i].1.absent_since == restored_absence(
                        saved_absence(identities[i].1.absent_since, now),
                        later,
                    )
                }
        }),
{
    let identities = saved_identities(room);
    let back = restored_room(room.saved(now), later);
    let at = filter_origin(
        room.reservations,
        |e: (Seq<char>, ReservationView)| !e.1.release_pending,
    );
    assert forall|i: int| 0 <= i < identities.len() implies {
        &&& (#[trigger] back.reservations[i]).0 == identities[i].0
        &&& back.reservations[i].1.verifier == identities[i].1.verifier
        &&& back.reservations[i].1.absent_since == restored_absence(
            saved_absence(identities[i].1.absent_since, now),
            later,
        )
    } by {
        let k = at[i];
        assert(identities[i] == room.reservations[k]);
    }
}

/// A guest that was away when the room was saved has been away for as long and
/// for the downtime on top once the room is restored, to the millisecond.
pub proof fn absence_outlives_restart(since: Monotonic, now: Now, later: Now)
    requires
        is_expressible(now),
        is_expressible(later),
        now.wall.at() <= later.wall.at(),
        elapsed(since.at(), now.mono.at()) <= now.wall.at(),
    ensures
        ({
            let back = restored_absence(saved_absence(Some(since), now), later);
            let away = elapsed(since.at(), now.mono.at()) + (later.wall.at() - now.wall.at());
            &&& back is Some
            &&& away <= elapsed(back->0.at(), later.mono.at()) < away + 1_000_000
        }),
{
    let gone = elapsed(since.at(), now.mono.at());
    let at = now.wall.at() - gone;
    saved_time_is_read_back(at);
    let ms = millis_of(at);
    let back = elapsed(at_millis(ms).at(), later.wall.at());
    let t = later.mono.at() - back;
    assert(-(u64::MAX * 1_000_000) <= t);
    assert(t <= later.mono.at());
    assert(t == (t / 1_000_000_000) * 1_000_000_000 + t % 1_000_000_000) by (nonlinear_arith);
    assert(i64::MIN <= t / 1_000_000_000 <= i64::MAX);
    let r = rewound(later.mono, back as int);
    assert(r.at() == t);
}

/// The grace period of a guest goes on over a restart: it is over then if the
/// absence and the downtime fill it, and is not if they fall short of it by a
/// millisecond.
pub proof fn grace_goes_on_over_restart(
    r: ReservationView,
    since: Monotonic,
    now: Now,
    later: Now,
)
    requires
        r.absent_since == Some(since),
        is_expressible(now),
        is_expressible(later),
        now.wall.at() <= later.wall.at(),
        elapsed(since.at(), now.mono.at()) <= now.wall.at(),
    ensures
        ({
            let back = ReservationView {
                absent_since: restored_absence(saved_absence(r.absent_since, now), later),
                ..r
            };
            let away = elapsed(since.at(), now.mono.at()) + (later.wall.at() - now.wall.at());
            &&& away >= PEER_RESERVATION_GRACE ==> grace_is_over(back, later.mono)
            &&& away + 1_000_000 <= PEER_RESERVATION_GRACE ==> !grace_is_over(back, later.mono)
        }),
{
    absence_outlives_restart(since, now, later);
}

/// Under a table in order, no room is passed over when the rooms are saved.
proof fn saved_rooms_are_all(rooms: Seq<(Seq<char>, RoomEntry)>, n: int, now: Now)
    requires
        0 <= n <= rooms.len(),
        forall|i: int| 0 <= i < rooms.len() ==> !(#[trigger] rooms[i]).1.room.closing,
    ensures
        saved_prefix(rooms, n, now).len() == n,
        forall|i: int|
            0 <= i < n ==> #[trigger] saved_prefix(rooms, n, now)[i] == rooms[i].1.room.saved(now),
    decreases n,
{
    if n > 0 {
        saved_rooms_are_all(rooms, n - 1, now);
        assert(!rooms[n - 1].1.room.closing);
    }
}

/// Of the rooms that a table in order saves, those are restored that are not too
/// old by then; none is lost to another one or for its form.
pub proof fn saved_rooms_are_restored(registry: RegistryView, now: Now, later: Now)
    requires
        registry.wf(),
        forall|i: int|
            0 <= i < registry.rooms.len() ==> (
            #[trigger] registry.rooms[i]).1.room.has_valid_ids(),
        rooms_read_back(registry.rooms),
    ensures
        ({
            let saved = saved_prefix(registry.rooms, registry.rooms.len() as int, now);
            &&& saved.len() == registry.rooms.len()
            &&& forall|i: int|
                0 <= i < saved.len() ==> {
                    &&& #[trigger] saved[i] == registry.rooms[i].1.room.saved(now)
                    &&& is_restored(saved, i, later) <==> room_counts(saved[i], later)
                }
        }),
{
    let rooms = registry.rooms;
    let n = rooms.len() as int;
    let saved = saved_prefix(rooms, n, now);
    assert forall|i: int| 0 <= i < rooms.len() implies !(#[trigger] rooms[i]).1.room.closing by {
        assert(registry.entry_is_wf(rooms[i]));
    }
    saved_rooms_are_all(rooms, n, now);
    assert forall|i: int| 0 <= i < saved.len() implies {
        &&& #[trigger] saved[i] == rooms[i].1.room.saved(now)
        &&& is_restored(saved, i, later) <==> room_counts(saved[i], later)
    } by {
        assert(registry.entry_is_wf(rooms[i]));
        saved_identities_are_sound(rooms[i].1.room, now);
        if session_seen(saved, i, saved[i].session_id, later) {
            let j = choose|j: int|
                0 <= j < i && #[trigger] room_counts(saved[j], later) && saved[j].session_id
                    == saved[i].session_id;
            assert(saved[j] == rooms[j].1.room.saved(now));
            assert(registry.entry_is_wf(rooms[j]));
            assert(rooms[j].0 == rooms[i].0);
        }
    }
}

/// The snapshot that a `leave` waits for no longer holds the identity that is
/// released, and holds every other one as it would have otherwise.
pub proof fn released_identity_is_not_saved(room: RoomView, peer_id: Seq<char>, now: Now)
    requires
        unique_keys(room.reservations),
    ensures
        ({
            let released = room.with_release(peer_id, true).saved(now).reservations;
            &&& !has_key(released, peer_id)
            &&& forall|other: Seq<char>|
                other != peer_id ==> #[trigger] lookup(released, other) == lookup(
                    room.saved(now).reservations,
                    other,
                )
        }),
{
    let pending = ReservationView {
        release_pending: true,
        ..lookup(room.reservations, peer_id)->0
    };
    put_then_lookup(room.reservations, peer_id, pending);
    let marked = room.with_release(peer_id, true);
    saved_identity_is_found(marked, now);
    saved_identity_is_found(room, now);
    assert(lookup(marked.saved(now).reservations, peer_id) is None);
}

/// An identity is saved iff it is reserved and not being released.
pub(crate) proof fn saved_identity_is_found(room: RoomView, now: Now)
    requires
        unique_keys(room.reservations),
    ensures
        unique_keys(room.saved(now).reservations),
        forall|id: Seq<char>| #[trigger]
            lookup(room.saved(now).reservations, id) == match lookup(room.reservations, id) {
                Some(r) => if r.release_pending {
                    None
                } else {
                    Some(
                        ReservationDtoView {
                            verifier: base64_encoded(r.verifier),
                            absent_since_millis: saved_absence(r.absent_since, now),
                        },
                    )
                },
                None => None,
            },
{
    let saved = room.saved(now).reservations;
    let identities = saved_identities(room);
    let stays = |e: (Seq<char>, ReservationView)| !e.1.release_pending;
    filter_then_lookup(room.reservations, stays);
    assert(identities == room.reservations.filter(stays));
    assert forall|i: int, j: int| 0 <= i < j < saved.len() implies saved[i].0 != saved[j].0 by {
        assert(identities[i].0 != identities[j].0);
    }
    assert forall|id: Seq<char>| #[trigger]
        lookup(saved, id) == match lookup(identities, id) {
            Some(r) => Some(
                ReservationDtoView {
                    verifier: base64_encoded(r.verifier),
                    absent_since_millis: saved_absence(r.absent_since, now),
                },
            ),
            None => None,
        } by {
        if has_key(identities, id) {
            let i = position(identities, id);
            assert(saved[i].0 == id);
            entry_is_found(saved, i);
        } else if has_key(saved, id) {
            let i = position(saved, id);
            assert(identities[i].0 == id);
        }
    }
}

/// The snapshot that an `endSession` waits for no longer holds the room.
pub proof fn ending_room_is_not_saved(
    registry: RegistryView,
    handle: HandleView,
    now: Now,
    i: int,
)
    requires
        registry.wf(),
        registry.is_current(handle),
        ({
            let rooms = registry.end_begun(handle).rooms;
            0 <= i < saved_prefix(rooms, rooms.len() as int, now).len()
        }),
    ensures
        ({
            let rooms = registry.end_begun(handle).rooms;
            saved_prefix(rooms, rooms.len() as int, now)[i].session_id != handle.session_id
        }),
{
    end_begun_keeps_wf(registry, handle);
    let after = registry.end_begun(handle);
    assert forall|j: int| 0 <= j < after.rooms.len() implies !(
    #[trigger] after.rooms[j]).1.room.closing by {
        assert(after.entry_is_wf(after.rooms[j]));
    }
    saved_rooms_are_all(after.rooms, after.rooms.len() as int, now);
    assert(after.entry_is_wf(after.rooms[i]));
    entry_is_found(after.rooms, i);
}

/// Whatever a snapshot holds, what is restored from it can be taken into an
/// empty table: no session occurs twice, and no host is among its guests.
pub proof fn restored_rooms_are_restorable(rooms: Seq<RoomDtoView>, n: int, now: Now)
    requires
        0 <= n <= rooms.len(),
        forall|i: int|
            0 <= i < n && is_restored(rooms, i, now) ==> unique_keys(
                (#[trigger] rooms[i]).reservations,
            ),
    ensures
        restorable(RegistryView::empty(), restored_prefix(rooms, n, now)),
        forall|k: int|
            0 <= k < restored_prefix(rooms, n, now).len() ==> session_seen(
                rooms,
                n,
                (#[trigger] restored_prefix(rooms, n, now)[k]).session_id,
                now,
            ),
    decreases n,
{
    if n > 0 {
        restored_rooms_are_restorable(rooms, n - 1, now);
        let before = restored_prefix(rooms, n - 1, now);
        let after = restored_prefix(rooms, n, now);
        assert forall|k: int| 0 <= k < before.len() implies session_seen(
            rooms,
            n,
            (#[trigger] before[k]).session_id,
            now,
        ) by {
            assert(session_seen(rooms, n - 1, before[k].session_id, now));
            let j = choose|j: int|
                0 <= j < n - 1 && #[trigger] room_counts(rooms[j], now) && rooms[j].session_id
                    == before[k].session_id;
            assert(room_counts(rooms[j], now));
        }
        if is_restored(rooms, n - 1, now) {
            let room = rooms[n - 1];
            let last = restored_room(room, now);
            assert(room_counts(rooms[n - 1], now));
            assert forall|i: int, j: int| 0 <= i < j < after.len() implies (
            #[trigger] after[i]).session_id != (#[trigger] after[j]).session_id by {
                if j == before.len() {
                    assert(session_seen(rooms, n - 1, before[i].session_id, now));
                }
            }
            assert forall|i: int| 0 <= i < after.len() implies {
                &&& !has_key(RegistryView::empty().rooms, (#[trigger] after[i]).session_id)
                &&& unique_keys(after[i].reservations)
                &&& !has_key(after[i].reservations, after[i].host_peer_id)
                &&& restored_ids_are_valid(after[i])
            } by {
                if i == before.len() {
                    assert(unique_keys(rooms[n - 1].reservations));
                    assert forall|a: int, b: int| 0 <= a < b < last.reservations.len() implies
                        last.reservations[a].0 != last.reservations[b].0 by {
                        assert(room.reservations[a].0 != room.reservations[b].0);
                    }
                    assert forall|k: int| 0 <= k < last.reservations.len() implies is_valid_id(
                        (#[trigger] last.reservations[k]).0,
                        MAX_PEER_ID_LENGTH as nat,
                    ) by {
                        assert(reservation_is_sound(room, room.reservations[k]));
                    }
                    if has_key(last.reservations, last.host_peer_id) {
                        let k = position(last.reservations, last.host_peer_id);
                        assert(reservation_is_sound(room, room.reservations[k]));
                    }
                }
            }
        }
    }
}

} // verus!
