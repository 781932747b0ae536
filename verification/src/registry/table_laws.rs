//! What each operation does to the room table: which rooms it touches, whom it
//! counts, and what the caller is told.

use crate::clock::{Now, WallTime};
use crate::id_map::{
    entry_is_found, filter_origin, has_key, lookup, position, put_then_lookup, unique_keys,
    without_then_lookup,
};
use crate::ids::verifier_of_token;
use crate::protocol::ServerMessage;
use crate::registry::handles_of;
use crate::registry::laws::{
    create_keeps_wf, filter_remove_len, owned, release_counts, removal_keeps_wf, sweep_keeps_wf,
};
use crate::registry::model::{
    changed_rooms, counted, due_rooms, is_due, sweep_changes, tokens_of_all, HandleView,
    RegistryView, RoomEntry,
};
use crate::room::model::{tokens_of, AdmissionView, RoomView};
use crate::room::news_laws::{
    error_reply, held_count, is_silent, pruning_forgets_what_expired, same_filter,
};
use crate::snapshot::restart_laws::taken_in;
use crate::snapshot::RestoredRoomView;
use tokio::sync::mpsc::Sender;
use tokio_util::sync::CancellationToken;
use vstd::prelude::*;

verus! {

/// Nothing is different under any session id but the one given, and the rooms
/// that were taken off the table are the same.
pub open spec fn only_session_changes(
    after: RegistryView,
    before: RegistryView,
    session_id: Seq<char>,
) -> bool {
    &&& after.unlisted == before.unlisted
    &&& forall|s: Seq<char>|
        s != session_id ==> #[trigger] lookup(after.rooms, s) == lookup(before.rooms, s)
}

/// Which room is meant by a handle: the one that is listed under its session id,
/// if that has its number; otherwise the one that was taken off the table with
/// that number; otherwise none, which is as good as one that is closing and has
/// nobody in it.
pub proof fn handle_means_one_room(registry: RegistryView, handle: HandleView)
    ensures
        ({
            let listed = lookup(registry.rooms, handle.session_id);
            let off = lookup(registry.unlisted, handle.id);
            let room = registry.room_at(handle);
            &&& registry.get(handle.session_id) is Some <==> listed is Some
            &&& listed is Some ==> registry.get(handle.session_id) == Some(
                HandleView { session_id: handle.session_id, id: listed->0.id },
            )
            &&& registry.is_current(handle) <==> listed is Some && listed->0.id == handle.id
            &&& if listed is Some && listed->0.id == handle.id {
                room == listed->0.room
            } else if off is Some {
                room == off->0
            } else {
                &&& room.session_id == handle.session_id
                &&& room.closing
                &&& room.peers.len() == 0
                &&& room.reservations.len() == 0
            }
        }),
{
}

/// A change of one room is found under its handle, and nothing else is
/// different: no other session, no other number, no count.
pub proof fn room_changes_alone(registry: RegistryView, handle: HandleView, room: RoomView)
    requires
        registry.wf(),
    ensures
        ({
            let after = registry.with_room_at(handle, room);
            let kept = registry.is_current(handle) || has_key(registry.unlisted, handle.id);
            &&& kept ==> after.room_at(handle) == room
            &&& !kept ==> after == registry
            &&& after.rooms_per_ip == registry.rooms_per_ip
            &&& after.next_room_id == registry.next_room_id
            &&& after.rooms.len() == registry.rooms.len()
            &&& forall|s: Seq<char>| #[trigger] after.get(s) == registry.get(s)
            &&& forall|other: HandleView|
                other.id != handle.id ==> #[trigger] after.room_at(other) == registry.room_at(
                    other,
                )
        }),
{
    put_then_lookup(registry.rooms, handle.session_id, RoomEntry { id: handle.id, room });
    put_then_lookup(registry.unlisted, handle.id, room);
    let after = registry.with_room_at(handle, room);
    assert forall|other: HandleView| other.id != handle.id implies #[trigger] after.room_at(other)
        == registry.room_at(other) by {
        assert(lookup(after.unlisted, other.id) == lookup(registry.unlisted, other.id));
        if other.session_id != handle.session_id {
            assert(lookup(after.rooms, other.session_id) == lookup(
                registry.rooms,
                other.session_id,
            ));
        }
    }
    assert forall|s: Seq<char>| #[trigger] after.get(s) == registry.get(s) by {
        if s != handle.session_id {
            assert(lookup(after.rooms, s) == lookup(registry.rooms, s));
        }
    }
}

/// A client can be admitted unless the table has run out of numbers for rooms,
/// or the room of that session has for connections.
pub proof fn numbers_run_out_last(registry: RegistryView, session_id: Seq<char>)
    ensures
        registry.can_admit(session_id) <==> {
            &&& registry.next_room_id != 0xffff_ffff_ffff_ffff
            &&& lookup(registry.rooms, session_id) matches Some(entry)
                ==> entry.room.next_conn_id != 0xffff_ffff_ffff_ffff
        },
{
}

/// What `create` does, in every case. A token that is none, and a session that
/// has somebody in it, are refused. The host of a room gets that room back. For
/// anyone else a room that nobody is in makes way, and there is a new one unless
/// there are 2000 others or the address made three of the others.
pub proof fn what_create_does(
    registry: RegistryView,
    session_id: Seq<char>,
    host_peer_id: Seq<char>,
    token: Seq<char>,
    owner: Seq<char>,
    admission: AdmissionView,
    now: Now,
    cancel: CancellationToken,
)
    requires
        registry.wf(),
        registry.can_admit(session_id),
    ensures
        ({
            let creation = registry.create(
                session_id,
                host_peer_id,
                token,
                owner,
                admission,
                now,
                cancel,
            );
            let after = creation.registry;
            let verifier = verifier_of_token(token);
            let found = lookup(registry.rooms, session_id);
            let own = |e: (Seq<char>, RoomEntry)| e.1.room.owner_ip_key == owner;
            let others = registry.rooms.len() - if found is Some {
                1int
            } else {
                0
            };
            let owned_others = registry.rooms.filter(own).len() - if found is Some
                && found->0.room.owner_ip_key == owner {
                1int
            } else {
                0
            };
            &&& only_session_changes(after, registry, session_id)
            &&& if verifier is None {
                &&& after == registry
                &&& creation.handle is None
                &&& creation.effects == error_reply(
                    "invalid_message"@,
                    "Invalid reconnect token"@,
                )
            } else if found is Some && found->0.room.host_peer_id == host_peer_id
                && found->0.room.host_verifier == verifier->0 {
                let outcome = found->0.room.host_reconnected(admission, cancel);
                &&& creation.handle == Some(HandleView { session_id, id: found->0.id })
                &&& creation.effects == outcome.effects
                &&& lookup(after.rooms, session_id) == Some(
                    RoomEntry { id: found->0.id, room: outcome.room },
                )
                &&& after.rooms.len() == registry.rooms.len()
                &&& after.rooms_per_ip == registry.rooms_per_ip
                &&& after.next_room_id == registry.next_room_id
            } else if found is Some && found->0.room.peers.len() > 0 {
                &&& after == registry
                &&& creation.handle is None
                &&& creation.effects == error_reply("room_exists"@, "Room already exists"@)
            } else if others >= 2000 {
                &&& lookup(after.rooms, session_id) is None
                &&& creation.handle is None
                &&& creation.effects == error_reply("rate_limited"@, "Too many retained rooms"@)
                &&& after.next_room_id == registry.next_room_id
            } else if owned_others >= 3 {
                &&& lookup(after.rooms, session_id) is None
                &&& creation.handle is None
                &&& creation.effects == error_reply("rate_limited"@, "Too many rooms created"@)
                &&& after.next_room_id == registry.next_room_id
            } else {
                let outcome = RoomView::created(
                    session_id,
                    host_peer_id,
                    verifier->0,
                    owner,
                    admission,
                    now,
                    cancel,
                );
                &&& creation.handle == Some(
                    HandleView { session_id, id: registry.next_room_id },
                )
                &&& creation.effects == outcome.effects
                &&& lookup(after.rooms, session_id) == Some(
                    RoomEntry { id: registry.next_room_id, room: outcome.room },
                )
                &&& after.rooms.len() == others + 1
                &&& after.next_room_id == registry.next_room_id + 1
                &&& counted(after.rooms_per_ip, owner) == owned_others + 1
            }
        }),
{
    let creation = registry.create(
        session_id,
        host_peer_id,
        token,
        owner,
        admission,
        now,
        cancel,
    );
    let after = creation.registry;
    let found = lookup(registry.rooms, session_id);
    create_keeps_wf(registry, session_id, host_peer_id, token, owner, admission, now, cancel);
    removal_keeps_wf(registry, session_id);
    without_then_lookup(registry.rooms, session_id);
    let freed = registry.without_room(session_id);
    if found is Some {
        let p = position(registry.rooms, session_id);
        assert(registry.entry_is_wf(registry.rooms[p]));
        put_then_lookup(
            registry.rooms,
            session_id,
            RoomEntry {
                id: found->0.id,
                room: found->0.room.host_reconnected(admission, cancel).room,
            },
        );
        filter_remove_len(
            registry.rooms,
            |e: (Seq<char>, RoomEntry)| e.1.room.owner_ip_key == owner,
            p,
        );
    }
    assert(counted(registry.rooms_per_ip, owner) == owned(
        registry.rooms,
        owner,
    ));
    assert(counted(freed.rooms_per_ip, owner) == owned(
        freed.rooms,
        owner,
    ));
    if let Some(verifier) = verifier_of_token(token) {
        let room = RoomView::created(
            session_id,
            host_peer_id,
            verifier,
            owner,
            admission,
            now,
            cancel,
        ).room;
        put_then_lookup(freed.rooms, session_id, RoomEntry { id: freed.next_room_id, room });
        put_then_lookup(
            freed.rooms_per_ip,
            owner,
            (counted(freed.rooms_per_ip, owner) + 1) as usize,
        );
    }
}

/// When the end of a room begins, the room can no longer be found under its
/// session id. It is closing, with everyone still in it, until that is saved or
/// not. No other room is touched.
pub proof fn ending_room_is_taken_off(registry: RegistryView, handle: HandleView)
    requires
        registry.wf(),
        registry.is_current(handle),
    ensures
        ({
            let room = registry.room_at(handle);
            let after = registry.end_begun(handle);
            &&& after.get(handle.session_id) is None
            &&& after.room_at(handle) == (RoomView { closing: true, ..room })
            &&& after.rooms.len() == registry.rooms.len() - 1
            &&& after.next_room_id == registry.next_room_id
            &&& counted(after.rooms_per_ip, room.owner_ip_key) == counted(
                registry.rooms_per_ip,
                room.owner_ip_key,
            ) - 1
            &&& forall|o: Seq<char>|
                o != room.owner_ip_key ==> #[trigger] counted(after.rooms_per_ip, o) == counted(
                    registry.rooms_per_ip,
                    o,
                )
            &&& forall|s: Seq<char>|
                s != handle.session_id ==> #[trigger] lookup(after.rooms, s) == lookup(
                    registry.rooms,
                    s,
                )
            &&& forall|other: HandleView|
                other.id != handle.id ==> #[trigger] after.room_at(other) == registry.room_at(
                    other,
                )
        }),
{
    let room = registry.room_at(handle);
    let after = registry.end_begun(handle);
    without_then_lookup(registry.rooms, handle.session_id);
    put_then_lookup(registry.unlisted, handle.id, room.closed());
    let p = position(registry.rooms, handle.session_id);
    assert(counted(registry.rooms_per_ip, room.owner_ip_key) == owned(
        registry.rooms,
        room.owner_ip_key,
    ));
    filter_remove_len(
        registry.rooms,
        |e: (Seq<char>, RoomEntry)| e.1.room.owner_ip_key == room.owner_ip_key,
        p,
    );
    release_counts(registry.rooms_per_ip, room.owner_ip_key);
    assert forall|other: HandleView| other.id != handle.id implies #[trigger] after.room_at(other)
        == registry.room_at(other) by {
        assert(lookup(after.unlisted, other.id) == lookup(registry.unlisted, other.id));
        if other.session_id != handle.session_id {
            assert(lookup(after.rooms, other.session_id) == lookup(
                registry.rooms,
                other.session_id,
            ));
        }
    }
}

/// When the end of a room is over, the room is forgotten, and its people are
/// told as the room says. Where there is no such room, nothing happens. No other
/// room is touched.
pub proof fn ended_room_is_forgotten(
    registry: RegistryView,
    handle: HandleView,
    guests: Seq<Sender<ServerMessage>>,
    persisted: bool,
)
    requires
        unique_keys(registry.unlisted),
    ensures
        ({
            let outcome = registry.end_finished(handle, guests, persisted);
            let off = lookup(registry.unlisted, handle.id);
            &&& outcome.registry.rooms == registry.rooms
            &&& outcome.registry.rooms_per_ip == registry.rooms_per_ip
            &&& outcome.registry.next_room_id == registry.next_room_id
            &&& lookup(outcome.registry.unlisted, handle.id) is None
            &&& forall|id: u64|
                id != handle.id ==> #[trigger] lookup(outcome.registry.unlisted, id) == lookup(
                    registry.unlisted,
                    id,
                )
            &&& off is Some ==> outcome.effects == off->0.session_ended(guests, persisted).effects
            &&& off is None ==> is_silent(outcome.effects)
        }),
{
    without_then_lookup(registry.unlisted, handle.id);
}

/// A room that is taken off the table goes on for those who are in it: it is the
/// same under its handle, and can no longer be found under its session id.
pub proof fn room_off_the_table_goes_on(registry: RegistryView, handle: HandleView)
    requires
        registry.wf(),
        registry.is_current(handle),
    ensures
        ({
            let room = registry.room_at(handle);
            let after = registry.with_room_unlisted(handle.session_id);
            &&& after.get(handle.session_id) is None
            &&& after.room_at(handle) == room
            &&& after.next_room_id == registry.next_room_id
            &&& counted(after.rooms_per_ip, room.owner_ip_key) == counted(
                registry.rooms_per_ip,
                room.owner_ip_key,
            ) - 1
            &&& forall|s: Seq<char>|
                s != handle.session_id ==> #[trigger] lookup(after.rooms, s) == lookup(
                    registry.rooms,
                    s,
                )
            &&& forall|id: u64|
                id != handle.id ==> #[trigger] lookup(after.unlisted, id) == lookup(
                    registry.unlisted,
                    id,
                )
        }),
{
    let room = registry.room_at(handle);
    without_then_lookup(registry.rooms, handle.session_id);
    put_then_lookup(registry.unlisted, handle.id, room);
    let p = position(registry.rooms, handle.session_id);
    assert(counted(registry.rooms_per_ip, room.owner_ip_key) == owned(
        registry.rooms,
        room.owner_ip_key,
    ));
    filter_remove_len(
        registry.rooms,
        |e: (Seq<char>, RoomEntry)| e.1.room.owner_ip_key == room.owner_ip_key,
        p,
    );
    release_counts(registry.rooms_per_ip, room.owner_ip_key);
}

/// A room is past its time: nobody is in it and nothing happened in it for more
/// than five minutes, or it was made more than a day ago.
pub open spec fn is_past_its_time(room: RoomView, now: WallTime) -> bool {
    ||| room.peers.len() == 0 && now.at() - room.last_activity_at.at() > 300_000_000_000
    ||| now.at() - room.created_at.at() > 86_400_000_000_000
}

/// The sweep takes every room off that is past its time, and keeps every other
/// one under its number, without the reservations that expired. It counts the
/// rooms that it took off or took a reservation from.
pub proof fn sweep_takes_off_what_is_past_its_time(registry: RegistryView, now: Now)
    requires
        registry.wf(),
    ensures
        ({
            let after = registry.swept(now);
            &&& after.unlisted == registry.unlisted
            &&& after.next_room_id == registry.next_room_id
            &&& forall|s: Seq<char>| #[trigger]
                lookup(after.rooms, s) == match lookup(registry.rooms, s) {
                    Some(entry) => if is_past_its_time(entry.room, now.wall) {
                        None
                    } else {
                        Some(RoomEntry { id: entry.id, room: entry.room.pruned(now.mono) })
                    },
                    None => None,
                }
            &&& changed_rooms(registry.rooms, now).len() == registry.rooms.filter(
                |e: (Seq<char>, RoomEntry)|
                    is_past_its_time(e.1.room, now.wall) || held_count(e.1.room, now)
                        != e.1.room.reservations.len(),
            ).len()
        }),
{
    let after = registry.swept(now);
    let rooms = registry.rooms;
    let stays = |e: (Seq<char>, RoomEntry)| !is_due(e.1.room, now.wall);
    let at = filter_origin(rooms, stays);
    sweep_keeps_wf(registry, now);
    assert forall|s: Seq<char>| #[trigger]
        lookup(after.rooms, s) == match lookup(rooms, s) {
            Some(entry) => if is_past_its_time(entry.room, now.wall) {
                None
            } else {
                Some(RoomEntry { id: entry.id, room: entry.room.pruned(now.mono) })
            },
            None => None,
        } by {
        if has_key(after.rooms, s) {
            let i = position(after.rooms, s);
            assert(0 <= at[i] < rooms.len());
            assert(rooms[at[i]].0 == s);
            entry_is_found(rooms, at[i]);
        } else if has_key(rooms, s) {
            let k = position(rooms, s);
            if !is_due(rooms[k].1.room, now.wall) {
                assert(stays(rooms[k]));
                assert(at.contains(k));
                let i = choose|i: int| 0 <= i < at.len() && at[i] == k;
                assert(0 <= at[i] < rooms.len());
                assert(after.rooms[i].0 == s);
            }
        }
    }
    let counts = |e: (Seq<char>, RoomEntry)|
        is_past_its_time(e.1.room, now.wall) || held_count(e.1.room, now)
            != e.1.room.reservations.len();
    let changes = |e: (Seq<char>, RoomEntry)| sweep_changes(e.1.room, now);
    assert forall|i: int| 0 <= i < rooms.len() implies counts(#[trigger] rooms[i]) == changes(
        rooms[i],
    ) by {
        assert(registry.entry_is_wf(rooms[i]));
        pruning_forgets_what_expired(rooms[i].1.room, now);
    }
    same_filter(rooms, counts, changes);
}

/// Who is shut down with a list of rooms: everyone in one of them, and nobody
/// else.
proof fn tokens_are_of_the_rooms(rooms: Seq<(Seq<char>, RoomEntry)>, token: CancellationToken)
    ensures
        tokens_of_all(rooms).contains(token) <==> exists|i: int, k: int|
            0 <= i < rooms.len() && 0 <= k < rooms[i].1.room.peers.len() && (
            #[trigger] rooms[i].1.room.peers[k]).1.cancel == token,
    decreases rooms.len(),
{
    if rooms.len() > 0 {
        let init = rooms.drop_last();
        let n = init.len() as int;
        let before = tokens_of_all(init);
        let last = tokens_of(rooms.last().1.room.peers);
        tokens_are_of_the_rooms(init, token);
        assert(tokens_of_all(rooms) == before + last);
        if tokens_of_all(rooms).contains(token) {
            let j = choose|j: int|
                0 <= j < tokens_of_all(rooms).len() && tokens_of_all(rooms)[j] == token;
            if j < before.len() {
                assert(before[j] == token);
                let (i, k) = choose|i: int, k: int|
                    0 <= i < init.len() && 0 <= k < init[i].1.room.peers.len() && (
                    #[trigger] init[i].1.room.peers[k]).1.cancel == token;
                assert(rooms[i].1.room.peers[k].1.cancel == token);
            } else {
                assert(last[j - before.len()] == token);
                assert(rooms[n].1.room.peers[j - before.len()].1.cancel == token);
            }
        }
        if exists|i: int, k: int|
            0 <= i < rooms.len() && 0 <= k < rooms[i].1.room.peers.len() && (
            #[trigger] rooms[i].1.room.peers[k]).1.cancel == token {
            let (i, k) = choose|i: int, k: int|
                0 <= i < rooms.len() && 0 <= k < rooms[i].1.room.peers.len() && (
                #[trigger] rooms[i].1.room.peers[k]).1.cancel == token;
            if i < n {
                assert(init[i].1.room.peers[k].1.cancel == token);
                let j = choose|j: int| 0 <= j < before.len() && before[j] == token;
                assert((before + last)[j] == token);
            } else {
                assert(last[k] == token);
                assert((before + last)[before.len() + k] == token);
            }
        }
    }
}

/// The sweep shuts down everyone who is in a room that it takes off, and nobody
/// else.
pub proof fn sweep_shuts_down_who_is_left(
    registry: RegistryView,
    now: WallTime,
    token: CancellationToken,
)
    ensures
        tokens_of_all(due_rooms(registry.rooms, now)).contains(token) <==> exists|i: int, k: int|
            0 <= i < registry.rooms.len() && is_past_its_time(registry.rooms[i].1.room, now) && 0
                <= k < registry.rooms[i].1.room.peers.len() && (
            #[trigger] registry.rooms[i].1.room.peers[k]).1.cancel == token,
{
    let rooms = registry.rooms;
    let due = due_rooms(rooms, now);
    let goes = |e: (Seq<char>, RoomEntry)| is_due(e.1.room, now);
    let at = filter_origin(rooms, goes);
    tokens_are_of_the_rooms(due, token);
    if tokens_of_all(due).contains(token) {
        let (i, k) = choose|i: int, k: int|
            0 <= i < due.len() && 0 <= k < due[i].1.room.peers.len() && (
            #[trigger] due[i].1.room.peers[k]).1.cancel == token;
        assert(goes(rooms[at[i]]));
        assert(rooms[at[i]].1.room.peers[k].1.cancel == token);
    }
    if exists|i: int, k: int|
        0 <= i < rooms.len() && is_past_its_time(rooms[i].1.room, now) && 0 <= k
            < rooms[i].1.room.peers.len() && (#[trigger] rooms[i].1.room.peers[k]).1.cancel
            == token {
        let (i, k) = choose|i: int, k: int|
            0 <= i < rooms.len() && is_past_its_time(rooms[i].1.room, now) && 0 <= k
                < rooms[i].1.room.peers.len() && (
            #[trigger] rooms[i].1.room.peers[k]).1.cancel == token;
        assert(goes(rooms[i]));
        assert(at.contains(i));
        let j = choose|j: int| 0 <= j < at.len() && at[j] == i;
        assert(due[j].1.room.peers[k].1.cancel == token);
    }
}

/// Every restored room can be found under its session id afterwards, as it was
/// read, with nobody in it and owned by nobody in particular; what was there
/// before is as it was.
pub proof fn every_restored_room_is_taken_in(
    registry: RegistryView,
    rooms: Seq<RestoredRoomView>,
    n: int,
)
    requires
        unique_keys(registry.rooms),
        0 <= n <= rooms.len(),
        forall|i: int, j: int|
            0 <= i < j < rooms.len() ==> (#[trigger] rooms[i]).session_id != (
            #[trigger] rooms[j]).session_id,
    ensures
        ({
            let after = registry.restored(rooms, n);
            &&& unique_keys(after.rooms)
            &&& after.unlisted == registry.unlisted
            &&& forall|i: int|
                0 <= i < n ==> {
                    let found = lookup(after.rooms, (#[trigger] rooms[i]).session_id);
                    found is Some && found->0.room == taken_in(rooms[i], ""@)
                }
            &&& forall|s: Seq<char>|
                (forall|i: int| 0 <= i < n ==> (#[trigger] rooms[i]).session_id != s)
                    ==> #[trigger] lookup(after.rooms, s) == lookup(registry.rooms, s)
        }),
    decreases n,
{
    if n > 0 {
        every_restored_room_is_taken_in(registry, rooms, n - 1);
        let before = registry.restored(rooms, n - 1);
        let after = registry.restored(rooms, n);
        let r = rooms[n - 1];
        let entry = RoomEntry { id: before.next_room_id, room: taken_in(r, ""@) };
        put_then_lookup(before.rooms, r.session_id, entry);
        assert forall|i: int| 0 <= i < n implies {
            let found = lookup(after.rooms, (#[trigger] rooms[i]).session_id);
            found is Some && found->0.room == taken_in(rooms[i], ""@)
        } by {
            if i < n - 1 {
                assert(rooms[i].session_id != rooms[n - 1].session_id);
            }
        }
        assert forall|s: Seq<char>|
            (forall|i: int| 0 <= i < n ==> (
            #[trigger] rooms[i]).session_id != s) implies #[trigger] lookup(after.rooms, s)
            == lookup(registry.rooms, s) by {
            assert(rooms[n - 1].session_id != s);
            assert(forall|i: int| 0 <= i < n - 1 ==> (#[trigger] rooms[i]).session_id != s);
        }
    }
}

/// The list of all rooms names each listed room, in the table's order.
pub proof fn every_room_has_a_handle(rooms: Seq<(Seq<char>, RoomEntry)>)
    ensures
        handles_of(rooms).len() == rooms.len(),
        forall|i: int|
            0 <= i < rooms.len() ==> handles_of(rooms)[i] == (HandleView {
                session_id: (#[trigger] rooms[i]).0,
                id: rooms[i].1.id,
            }),
{
}

} // verus!
