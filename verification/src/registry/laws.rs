//! What holds of the room table, whatever happens to it.

use crate::clock::Now;
use crate::id_map::{
    entry_is_found, filter_origin, filter_push, has_key, lookup, position, put,
    put_then_lookup, unique_keys, without, without_then_lookup,
};
use crate::ids::{is_valid_id, verifier_of_token};
use crate::protocol::{ServerMessage, MAX_PEER_ID_LENGTH};
use crate::registry::model::{
    claimed, counted, due_rooms, is_due, kept_rooms, released, released_all, HandleView,
    RegistryView, RoomEntry,
};
use crate::registry::{MAX_RETAINED_ROOMS, MAX_ROOMS_PER_IP};
use crate::room::laws::{
    closing_keeps_wf, created_is_wf, host_reconnection_continues, pruning_continues,
    restored_is_wf,
};
use crate::room::ids_are_valid;
use crate::room::model::{AdmissionView, RoomView};
use crate::snapshot::RestoredRoomView;
use tokio::sync::mpsc::Sender;
use tokio_util::sync::CancellationToken;
use vstd::prelude::*;

verus! {

/// How many of the rooms `owner` made.
pub open spec fn owned(rooms: Seq<(Seq<char>, RoomEntry)>, owner: Seq<char>) -> nat {
    rooms.filter(|e: (Seq<char>, RoomEntry)| e.1.room.owner_ip_key == owner).len()
}

impl RegistryView {
    /// What the operations keep. Rooms are listed under their own session id
    /// and are not closing; numbers are not given out twice; and each owner's
    /// count is the number of its listed rooms.
    pub open spec fn wf(self) -> bool {
        &&& unique_keys(self.rooms)
        &&& unique_keys(self.unlisted)
        &&& unique_keys(self.rooms_per_ip)
        &&& forall|i: int|
            0 <= i < self.rooms.len() ==> self.entry_is_wf(#[trigger] self.rooms[i])
        &&& forall|i: int, j: int|
            0 <= i < j < self.rooms.len() ==> (#[trigger] self.rooms[i]).1.id != (
            #[trigger] self.rooms[j]).1.id
        &&& forall|i: int|
            0 <= i < self.unlisted.len() ==> self.unlisted_is_wf(#[trigger] self.unlisted[i])
        &&& forall|owner: Seq<char>| #[trigger]
            counted(self.rooms_per_ip, owner) == owned(self.rooms, owner)
        &&& forall|i: int|
            0 <= i < self.rooms_per_ip.len() ==> (#[trigger] self.rooms_per_ip[i]).1 > 0
    }

    /// A listed room is in order.
    pub open spec fn entry_is_wf(self, e: (Seq<char>, RoomEntry)) -> bool {
        &&& e.0 == e.1.room.session_id
        &&& e.1.room.wf()
        &&& !e.1.room.closing
        &&& e.1.id < self.next_room_id
        &&& !has_key(self.unlisted, e.1.id)
    }

    /// A room that was taken off the table is in order.
    pub open spec fn unlisted_is_wf(self, e: (u64, RoomView)) -> bool {
        &&& e.1.wf()
        &&& e.0 < self.next_room_id
    }
}

impl RegistryView {
    /// Every id in every room has the right form.
    pub open spec fn has_valid_ids(self) -> bool {
        forall|i: int|
            0 <= i < self.rooms.len() ==> (#[trigger] self.rooms[i]).1.room.has_valid_ids()
    }

    /// Of the rooms that were taken off the table all are closing.
    pub open spec fn unlisted_are_closing(self) -> bool {
        forall|i: int| 0 <= i < self.unlisted.len() ==> (#[trigger] self.unlisted[i]).1.closing
    }

    /// The table is in order, every id in it has the right form, and only rooms
    /// that end were taken off it.
    pub open spec fn is_sound(self) -> bool {
        self.wf() && self.has_valid_ids() && self.unlisted_are_closing()
    }
}

/// Replacing an element by one that passes the filter iff the former did leaves
/// as many that pass.
proof fn filter_update_len<A>(s: Seq<A>, keep: spec_fn(A) -> bool, i: int, a: A)
    requires
        0 <= i < s.len(),
        keep(a) == keep(s[i]),
    ensures
        s.update(i, a).filter(keep).len() == s.filter(keep).len(),
    decreases s.len(),
{
    let init = s.drop_last();
    assert(s =~= init.push(s.last()));
    filter_push(init, keep, s.last());
    if i == s.len() - 1 {
        assert(s.update(i, a) =~= init.push(a));
        filter_push(init, keep, a);
    } else {
        assert(s.update(i, a) =~= init.update(i, a).push(s.last()));
        filter_push(init.update(i, a), keep, s.last());
        filter_update_len(init, keep, i, a);
    }
}

/// Removing an element leaves one fewer that passes the filter, if it did.
pub(crate) proof fn filter_remove_len<A>(s: Seq<A>, keep: spec_fn(A) -> bool, i: int)
    requires
        0 <= i < s.len(),
    ensures
        s.filter(keep).len() == s.remove(i).filter(keep).len() + if keep(s[i]) {
            1nat
        } else {
            0nat
        },
    decreases s.len(),
{
    let init = s.drop_last();
    assert(s =~= init.push(s.last()));
    filter_push(init, keep, s.last());
    if i == s.len() - 1 {
        assert(s.remove(i) =~= init);
    } else {
        assert(s.remove(i) =~= init.remove(i).push(s.last()));
        filter_push(init.remove(i), keep, s.last());
        filter_remove_len(init, keep, i);
    }
}

/// One room more of an owner.
proof fn claim_counts(quota: Seq<(Seq<char>, usize)>, owner: Seq<char>)
    requires
        unique_keys(quota),
        counted(quota, owner) < usize::MAX,
        forall|i: int| 0 <= i < quota.len() ==> (#[trigger] quota[i]).1 > 0,
    ensures
        unique_keys(claimed(quota, owner)),
        forall|o: Seq<char>| #[trigger]
            counted(claimed(quota, owner), o) == counted(quota, o) + if o == owner {
                1nat
            } else {
                0nat
            },
        forall|i: int|
            0 <= i < claimed(quota, owner).len() ==> (#[trigger] claimed(quota, owner)[i]).1 > 0,
{
    put_then_lookup(quota, owner, (counted(quota, owner) + 1) as usize);
    assert forall|o: Seq<char>| #[trigger]
        counted(claimed(quota, owner), o) == counted(quota, o) + if o == owner {
            1nat
        } else {
            0nat
        } by {
        assert(o != owner ==> lookup(claimed(quota, owner), o) == lookup(quota, o));
    }
    let after = claimed(quota, owner);
    assert forall|i: int| 0 <= i < after.len() implies (#[trigger] after[i]).1 > 0 by {
        if i < quota.len() {
            assert(quota[i].1 > 0);
        }
    }
}

/// One room fewer of an owner.
pub(crate) proof fn release_counts(quota: Seq<(Seq<char>, usize)>, owner: Seq<char>)
    requires
        unique_keys(quota),
        counted(quota, owner) > 0,
        forall|i: int| 0 <= i < quota.len() ==> (#[trigger] quota[i]).1 > 0,
    ensures
        unique_keys(released(quota, owner)),
        forall|o: Seq<char>| #[trigger]
            counted(released(quota, owner), o) == counted(quota, o) - if o == owner {
                1int
            } else {
                0int
            },
        forall|i: int|
            0 <= i < released(quota, owner).len() ==> (#[trigger] released(quota, owner)[i]).1 > 0,
{
    let n = lookup(quota, owner)->0;
    let after = released(quota, owner);
    without_then_lookup(quota, owner);
    put_then_lookup(quota, owner, (n - 1) as usize);
    assert forall|o: Seq<char>| #[trigger]
        counted(released(quota, owner), o) == counted(quota, o) - if o == owner {
            1int
        } else {
            0int
        } by {
        assert(o != owner ==> lookup(without(quota, owner), o) == lookup(quota, o));
        assert(o != owner ==> lookup(put(quota, owner, (n - 1) as usize), o) == lookup(quota, o));
    }
    let p = position(quota, owner);
    assert forall|i: int| 0 <= i < after.len() implies (#[trigger] after[i]).1 > 0 by {
        if n <= 1 {
            assert(after[i] == quota[if i < p {
                i
            } else {
                i + 1
            }]);
        } else if i != p {
            assert(after[i] == quota[i]);
        }
    }
}

/// The empty table is in order, and sound.
pub proof fn empty_is_wf()
    ensures
        RegistryView::empty().is_sound(),
{
    reveal(Seq::filter);
}

/// Whatever happens in a room keeps the table in order, as long as it keeps what
/// the room is.
pub proof fn room_change_keeps_wf(registry: RegistryView, handle: HandleView, room: RoomView)
    requires
        registry.wf(),
        room.continues(registry.room_at(handle)),
    ensures
        registry.with_room_at(handle, room).wf(),
{
    let after = registry.with_room_at(handle, room);
    if registry.is_current(handle) {
        let entry = RoomEntry { id: handle.id, room };
        let p = position(registry.rooms, handle.session_id);
        put_then_lookup(registry.rooms, handle.session_id, entry);
        assert(registry.entry_is_wf(registry.rooms[p]));
        assert forall|i: int| 0 <= i < after.rooms.len() implies after.entry_is_wf(
            #[trigger] after.rooms[i],
        ) by {
            assert(registry.entry_is_wf(registry.rooms[i]));
        }
        assert forall|i: int, j: int| 0 <= i < j < after.rooms.len() implies (
        #[trigger] after.rooms[i]).1.id != (#[trigger] after.rooms[j]).1.id by {
            assert(registry.rooms[i].1.id != registry.rooms[j].1.id);
        }
        assert forall|i: int| 0 <= i < after.unlisted.len() implies after.unlisted_is_wf(
            #[trigger] after.unlisted[i],
        ) by {
            assert(registry.unlisted_is_wf(registry.unlisted[i]));
        }
        assert forall|owner: Seq<char>| #[trigger]
            counted(after.rooms_per_ip, owner) == owned(after.rooms, owner) by {
            assert(counted(registry.rooms_per_ip, owner) == owned(registry.rooms, owner));
            filter_update_len(
                registry.rooms,
                |e: (Seq<char>, RoomEntry)| e.1.room.owner_ip_key == owner,
                p,
                (handle.session_id, entry),
            );
        }
    } else if has_key(registry.unlisted, handle.id) {
        let p = position(registry.unlisted, handle.id);
        put_then_lookup(registry.unlisted, handle.id, room);
        assert(registry.unlisted_is_wf(registry.unlisted[p]));
        assert forall|i: int| 0 <= i < after.rooms.len() implies after.entry_is_wf(
            #[trigger] after.rooms[i],
        ) by {
            assert(registry.entry_is_wf(registry.rooms[i]));
        }
        assert forall|i: int| 0 <= i < after.unlisted.len() implies after.unlisted_is_wf(
            #[trigger] after.unlisted[i],
        ) by {
            assert(registry.unlisted_is_wf(registry.unlisted[i]));
        }
        assert forall|owner: Seq<char>| #[trigger]
            counted(after.rooms_per_ip, owner) == owned(after.rooms, owner) by {
            assert(counted(registry.rooms_per_ip, owner) == owned(registry.rooms, owner));
        }
    }
}

/// Taking a room off the table keeps it in order.
pub proof fn removal_keeps_wf(registry: RegistryView, session_id: Seq<char>)
    requires
        registry.wf(),
    ensures
        registry.without_room(session_id).wf(),
        !has_key(registry.without_room(session_id).rooms, session_id),
{
    let after = registry.without_room(session_id);
    without_then_lookup(registry.rooms, session_id);
    if has_key(registry.rooms, session_id) {
        let p = position(registry.rooms, session_id);
        let owner = registry.rooms[p].1.room.owner_ip_key;
        assert(registry.entry_is_wf(registry.rooms[p]));
        assert forall|o: Seq<char>| owned(registry.rooms, o) == #[trigger] owned(after.rooms, o)
            + if o == owner {
            1nat
        } else {
            0nat
        } by {
            filter_remove_len(
                registry.rooms,
                |e: (Seq<char>, RoomEntry)| e.1.room.owner_ip_key == o,
                p,
            );
        }
        assert(counted(registry.rooms_per_ip, owner) == owned(registry.rooms, owner));
        assert(owned(registry.rooms, owner) == owned(after.rooms, owner) + 1);
        release_counts(registry.rooms_per_ip, owner);
        assert forall|o: Seq<char>| #[trigger]
            counted(after.rooms_per_ip, o) == owned(after.rooms, o) by {
            assert(counted(registry.rooms_per_ip, o) == owned(registry.rooms, o));
            assert(owned(registry.rooms, o) == owned(after.rooms, o) + if o == owner {
                1nat
            } else {
                0nat
            });
        }
        assert forall|i: int| 0 <= i < after.rooms.len() implies #[trigger] after.rooms[i]
            == registry.rooms[if i < p {
            i
        } else {
            i + 1
        }] by {}
        assert forall|i: int| 0 <= i < after.rooms.len() implies after.entry_is_wf(
            #[trigger] after.rooms[i],
        ) by {
            let j = if i < p {
                i
            } else {
                i + 1
            };
            assert(registry.entry_is_wf(registry.rooms[j]));
        }
        assert forall|i: int, j: int| 0 <= i < j < after.rooms.len() implies (
        #[trigger] after.rooms[i]).1.id != (#[trigger] after.rooms[j]).1.id by {
            let a = if i < p {
                i
            } else {
                i + 1
            };
            let b = if j < p {
                j
            } else {
                j + 1
            };
            assert(registry.rooms[a].1.id != registry.rooms[b].1.id);
        }
        assert forall|i: int| 0 <= i < after.unlisted.len() implies after.unlisted_is_wf(
            #[trigger] after.unlisted[i],
        ) by {
            assert(registry.unlisted_is_wf(registry.unlisted[i]));
        }
    }
}

/// Taking a room off the table while those who are in it go on keeps the table
/// in order. The room can no longer be joined, and is still the same for those
/// who are in it.
pub proof fn unlisting_keeps_wf(registry: RegistryView, handle: HandleView)
    requires
        registry.wf(),
        registry.is_current(handle),
    ensures
        registry.with_room_unlisted(handle.session_id).wf(),
        registry.with_room_unlisted(handle.session_id).get(handle.session_id) is None,
        registry.with_room_unlisted(handle.session_id).room_at(handle) == registry.room_at(handle),
{
    let after = registry.with_room_unlisted(handle.session_id);
    let freed = registry.without_room(handle.session_id);
    let room = registry.room_at(handle);
    let p = position(registry.rooms, handle.session_id);
    assert(registry.entry_is_wf(registry.rooms[p]));
    removal_keeps_wf(registry, handle.session_id);
    put_then_lookup(registry.unlisted, handle.id, room);
    assert forall|i: int| 0 <= i < after.unlisted.len() implies after.unlisted_is_wf(
        #[trigger] after.unlisted[i],
    ) by {
        if i < registry.unlisted.len() {
            assert(registry.unlisted_is_wf(registry.unlisted[i]));
        }
    }
    assert forall|i: int| 0 <= i < after.rooms.len() implies after.entry_is_wf(
        #[trigger] after.rooms[i],
    ) by {
        assert(freed.entry_is_wf(freed.rooms[i]));
        let j = if i < p {
            i
        } else {
            i + 1
        };
        assert(after.rooms[i] == registry.rooms[j]);
        assert(registry.rooms[j].1.id != handle.id);
    }
    assert forall|o: Seq<char>| #[trigger]
        counted(after.rooms_per_ip, o) == owned(after.rooms, o) by {
        assert(counted(freed.rooms_per_ip, o) == owned(freed.rooms, o));
    }
}

/// A new room under a free session id keeps the table in order.
pub proof fn new_room_keeps_wf(registry: RegistryView, session_id: Seq<char>, room: RoomView)
    requires
        registry.wf(),
        !has_key(registry.rooms, session_id),
        registry.next_room_id < u64::MAX,
        counted(registry.rooms_per_ip, room.owner_ip_key) < usize::MAX,
        room.wf(),
        !room.closing,
        room.session_id == session_id,
    ensures
        registry.with_new_room(session_id, room).wf(),
{
    let after = registry.with_new_room(session_id, room);
    let entry = RoomEntry { id: registry.next_room_id, room };
    let owner = room.owner_ip_key;
    put_then_lookup(registry.rooms, session_id, entry);
    claim_counts(registry.rooms_per_ip, owner);
    assert(after.rooms =~= registry.rooms.push((session_id, entry)));
    assert forall|o: Seq<char>| #[trigger]
        counted(after.rooms_per_ip, o) == owned(after.rooms, o) by {
        assert(counted(registry.rooms_per_ip, o) == owned(registry.rooms, o));
        filter_push(
            registry.rooms,
            |e: (Seq<char>, RoomEntry)| e.1.room.owner_ip_key == o,
            (session_id, entry),
        );
    }
    assert forall|i: int| 0 <= i < after.unlisted.len() implies after.unlisted_is_wf(
        #[trigger] after.unlisted[i],
    ) by {
        assert(registry.unlisted_is_wf(registry.unlisted[i]));
    }
    assert forall|i: int| 0 <= i < after.rooms.len() implies after.entry_is_wf(
        #[trigger] after.rooms[i],
    ) by {
        if i < registry.rooms.len() {
            assert(registry.entry_is_wf(registry.rooms[i]));
        } else if has_key(registry.unlisted, registry.next_room_id) {
            let j = position(registry.unlisted, registry.next_room_id);
            assert(registry.unlisted_is_wf(registry.unlisted[j]));
        }
    }
    assert forall|i: int, j: int| 0 <= i < j < after.rooms.len() implies (
    #[trigger] after.rooms[i]).1.id != (#[trigger] after.rooms[j]).1.id by {
        assert(registry.entry_is_wf(registry.rooms[i]));
        if j < registry.rooms.len() {
            assert(registry.rooms[i].1.id != registry.rooms[j].1.id);
        }
    }
}

/// `create` keeps the table in order.
pub proof fn create_keeps_wf(
    registry: RegistryView,
    session_id: Seq<char>,
    host_peer_id: Seq<char>,
    token: Seq<char>,
    owner: Seq<char>,
    admission: AdmissionView,
    now: Now,
    cancel: CancellationToken,
)
    requires
        registry.wf(),
        registry.can_admit(session_id),
    ensures
        registry.create(
            session_id,
            host_peer_id,
            token,
            owner,
            admission,
            now,
            cancel,
        ).registry.wf(),
{
    if let Some(verifier) = verifier_of_token(token) {
        created_is_wf(session_id, host_peer_id, verifier, owner, admission, now, cancel);
        let outcome = RoomView::created(
            session_id,
            host_peer_id,
            verifier,
            owner,
            admission,
            now,
            cancel,
        );
        removal_keeps_wf(registry, session_id);
        let freed = registry.without_room(session_id);
        if counted(freed.rooms_per_ip, owner) < MAX_ROOMS_PER_IP {
            new_room_keeps_wf(freed, session_id, outcome.room);
        }
        if let Some(entry) = lookup(registry.rooms, session_id) {
            let p = position(registry.rooms, session_id);
            assert(registry.entry_is_wf(registry.rooms[p]));
            if entry.room.is_hosted_by(host_peer_id, verifier) {
                host_reconnection_continues(entry.room, admission, cancel);
                room_change_keeps_wf(
                    registry,
                    HandleView { session_id, id: entry.id },
                    entry.room.host_reconnected(admission, cancel).room,
                );
            }
        } else {
            assert(freed == registry);
        }
    }
}

/// The beginning of a listed room's end keeps the table in order, and the room
/// can no longer be joined.
pub proof fn end_begun_keeps_wf(registry: RegistryView, handle: HandleView)
    requires
        registry.wf(),
        registry.is_current(handle),
    ensures
        registry.end_begun(handle).wf(),
        registry.end_begun(handle).get(handle.session_id) is None,
        registry.end_begun(handle).room_at(handle) == registry.room_at(handle).closed(),
{
    let room = registry.room_at(handle);
    let after = registry.end_begun(handle);
    let p = position(registry.rooms, handle.session_id);
    assert(registry.entry_is_wf(registry.rooms[p]));
    assert(!has_key(registry.unlisted, handle.id));
    removal_keeps_wf(registry, handle.session_id);
    let freed = registry.without_room(handle.session_id);
    closing_keeps_wf(room);
    put_then_lookup(registry.unlisted, handle.id, room.closed());
    assert(after == RegistryView {
        unlisted: put(freed.unlisted, handle.id, room.closed()),
        ..freed
    });
    assert forall|i: int| 0 <= i < after.unlisted.len() implies after.unlisted_is_wf(
        #[trigger] after.unlisted[i],
    ) by {
        if i < registry.unlisted.len() {
            assert(registry.unlisted_is_wf(registry.unlisted[i]));
        }
    }
    assert forall|i: int| 0 <= i < after.rooms.len() implies after.entry_is_wf(
        #[trigger] after.rooms[i],
    ) by {
        assert(freed.entry_is_wf(freed.rooms[i]));
        let j = if i < p {
            i
        } else {
            i + 1
        };
        assert(after.rooms[i] == registry.rooms[j]);
        assert(registry.rooms[j].1.id != handle.id);
    }
    assert forall|o: Seq<char>| #[trigger]
        counted(after.rooms_per_ip, o) == owned(after.rooms, o) by {
        assert(counted(freed.rooms_per_ip, o) == owned(freed.rooms, o));
    }
}

/// The end of a room's end keeps the table in order.
pub proof fn end_finished_keeps_wf(
    registry: RegistryView,
    handle: HandleView,
    guests: Seq<Sender<ServerMessage>>,
    persisted: bool,
)
    requires
        registry.wf(),
    ensures
        registry.end_finished(handle, guests, persisted).registry.wf(),
{
    let after = registry.end_finished(handle, guests, persisted).registry;
    without_then_lookup(registry.unlisted, handle.id);
    assert forall|i: int| 0 <= i < after.unlisted.len() implies after.unlisted_is_wf(
        #[trigger] after.unlisted[i],
    ) by {
        let p = position(registry.unlisted, handle.id);
        if has_key(registry.unlisted, handle.id) && i >= p {
            assert(after.unlisted[i] == registry.unlisted[i + 1]);
            assert(registry.unlisted_is_wf(registry.unlisted[i + 1]));
        } else {
            assert(registry.unlisted_is_wf(registry.unlisted[i]));
        }
    }
    assert forall|i: int| 0 <= i < after.rooms.len() implies after.entry_is_wf(
        #[trigger] after.rooms[i],
    ) by {
        assert(registry.entry_is_wf(registry.rooms[i]));
    }
    assert forall|o: Seq<char>| #[trigger]
        counted(after.rooms_per_ip, o) == owned(after.rooms, o) by {
        assert(counted(registry.rooms_per_ip, o) == owned(registry.rooms, o));
    }
}

/// Every id in a restored room has the right form.
pub open spec fn restored_ids_are_valid(room: RestoredRoomView) -> bool {
    &&& ids_are_valid(room.session_id, room.host_peer_id)
    &&& forall|i: int|
        0 <= i < room.reservations.len() ==> is_valid_id(
            (#[trigger] room.reservations[i]).0,
            MAX_PEER_ID_LENGTH as nat,
        )
}

/// Restored rooms that can be taken in: every id has the right form, no session
/// id occurs twice or is listed already, no identity twice, and no host is among
/// its guests.
pub open spec fn restorable(registry: RegistryView, rooms: Seq<RestoredRoomView>) -> bool {
    &&& forall|i: int, j: int|
        0 <= i < j < rooms.len() ==> (#[trigger] rooms[i]).session_id != (
        #[trigger] rooms[j]).session_id
    &&& forall|i: int|
        0 <= i < rooms.len() ==> {
            &&& !has_key(registry.rooms, (#[trigger] rooms[i]).session_id)
            &&& unique_keys(rooms[i].reservations)
            &&& !has_key(rooms[i].reservations, rooms[i].host_peer_id)
            &&& restored_ids_are_valid(rooms[i])
        }
}

/// Taking in restored rooms keeps the table in order, and the ids in it valid.
pub proof fn restore_keeps_wf(registry: RegistryView, rooms: Seq<RestoredRoomView>, n: int)
    requires
        registry.wf(),
        restorable(registry, rooms),
        0 <= n <= rooms.len(),
        registry.next_room_id + n <= u64::MAX,
        counted(registry.rooms_per_ip, ""@) + n <= usize::MAX,
    ensures
        registry.restored(rooms, n).wf(),
        registry.is_sound() ==> registry.restored(rooms, n).is_sound(),
        registry.restored(rooms, n).next_room_id == registry.next_room_id + n,
        counted(registry.restored(rooms, n).rooms_per_ip, ""@) == counted(
            registry.rooms_per_ip,
            ""@,
        ) + n,
        forall|id: Seq<char>| #[trigger]
            has_key(registry.restored(rooms, n).rooms, id) <==> has_key(registry.rooms, id)
                || exists|i: int| 0 <= i < n && (#[trigger] rooms[i]).session_id == id,
    decreases n,
{
    if n > 0 {
        restore_keeps_wf(registry, rooms, n - 1);
        let before = registry.restored(rooms, n - 1);
        let r = rooms[n - 1];
        let room = RoomView::restored(
            r.session_id,
            r.host_peer_id,
            r.host_verifier,
            ""@,
            r.reservations,
            r.created_at,
            r.last_activity_at,
        );
        restored_is_wf(
            r.session_id,
            r.host_peer_id,
            r.host_verifier,
            ""@,
            r.reservations,
            r.created_at,
            r.last_activity_at,
        );
        assert(!has_key(before.rooms, r.session_id));
        new_room_keeps_wf(before, r.session_id, room);
        claim_counts(before.rooms_per_ip, ""@);
        put_then_lookup(
            before.rooms,
            r.session_id,
            RoomEntry { id: before.next_room_id, room },
        );
        let after = registry.restored(rooms, n);
        assert(room.has_valid_ids()) by {
            assert(restored_ids_are_valid(r));
            assert forall|id: Seq<char>| #[trigger] room.knows(id) implies is_valid_id(
                id,
                MAX_PEER_ID_LENGTH as nat,
            ) by {
                if id != r.host_peer_id {
                    let k = position(room.reservations, id);
                    assert(r.reservations[k].0 == id);
                }
            }
        }
        assert(after.rooms =~= before.rooms.push(
            (r.session_id, RoomEntry { id: before.next_room_id, room }),
        ));
        assert forall|id: Seq<char>| #[trigger]
            has_key(after.rooms, id) <==> has_key(registry.rooms, id) || exists|i: int|
            0 <= i < n && (#[trigger] rooms[i]).session_id == id by {
            assert(has_key(after.rooms, id) <==> id == r.session_id || has_key(before.rooms, id));
            if exists|i: int| 0 <= i < n && (#[trigger] rooms[i]).session_id == id {
                let i = choose|i: int| 0 <= i < n && (#[trigger] rooms[i]).session_id == id;
                if i < n - 1 {
                    assert(has_key(before.rooms, id));
                }
            }
            if has_key(before.rooms, id) && !has_key(registry.rooms, id) {
                let i = choose|i: int| 0 <= i < n - 1 && (#[trigger] rooms[i]).session_id == id;
                assert(rooms[i].session_id == id);
            }
        }
    }
}

/// What is counted once rooms are released: as many fewer as they are.
proof fn released_all_counts(
    quota: Seq<(Seq<char>, usize)>,
    rooms: Seq<(Seq<char>, RoomEntry)>,
)
    requires
        unique_keys(quota),
        forall|i: int| 0 <= i < quota.len() ==> (#[trigger] quota[i]).1 > 0,
        forall|o: Seq<char>| #[trigger] owned(rooms, o) <= counted(quota, o),
    ensures
        unique_keys(released_all(quota, rooms)),
        forall|i: int|
            0 <= i < released_all(quota, rooms).len() ==> (
            #[trigger] released_all(quota, rooms)[i]).1 > 0,
        forall|o: Seq<char>| #[trigger]
            counted(released_all(quota, rooms), o) == counted(quota, o) - owned(rooms, o),
    decreases rooms.len(),
{
    if rooms.len() == 0 {
        reveal(Seq::filter);
        assert forall|o: Seq<char>| owned(rooms, o) == 0 by {}
    } else {
        let init = rooms.drop_last();
        let last = rooms.last();
        let owner = last.1.room.owner_ip_key;
        assert(rooms =~= init.push(last));
        assert forall|o: Seq<char>| #[trigger]
            owned(rooms, o) == owned(init, o) + if o == owner {
                1nat
            } else {
                0nat
            } by {
            filter_push(init, |e: (Seq<char>, RoomEntry)| e.1.room.owner_ip_key == o, last);
        }
        assert forall|o: Seq<char>| #[trigger] owned(init, o) <= counted(quota, o) by {
            assert(owned(rooms, o) <= counted(quota, o));
        }
        released_all_counts(quota, init);
        let before = released_all(quota, init);
        assert(counted(before, owner) == counted(quota, owner) - owned(init, owner));
        assert(owned(rooms, owner) == owned(init, owner) + 1);
        release_counts(before, owner);
        assert forall|o: Seq<char>| #[trigger]
            counted(released_all(quota, rooms), o) == counted(quota, o) - owned(rooms, o) by {
            assert(counted(before, o) == counted(quota, o) - owned(init, o));
            assert(counted(released(before, owner), o) == counted(before, o) - if o == owner {
                1int
            } else {
                0int
            });
            assert(owned(rooms, o) == owned(init, o) + if o == owner {
                1nat
            } else {
                0nat
            });
        }
    }
}

/// Every room is either removed by a sweep or stays.
proof fn sweep_splits(rooms: Seq<(Seq<char>, RoomEntry)>, now: Now, owner: Seq<char>)
    ensures
        owned(rooms, owner) == owned(due_rooms(rooms, now.wall), owner) + owned(
            kept_rooms(rooms, now),
            owner,
        ),
    decreases rooms.len(),
{
    let due = |e: (Seq<char>, RoomEntry)| is_due(e.1.room, now.wall);
    let stays = |e: (Seq<char>, RoomEntry)| !is_due(e.1.room, now.wall);
    let mine = |e: (Seq<char>, RoomEntry)| e.1.room.owner_ip_key == owner;
    if rooms.len() == 0 {
        reveal(Seq::filter);
        assert(kept_rooms(rooms, now) =~= rooms);
        assert(due_rooms(rooms, now.wall) =~= rooms);
        assert(rooms.filter(mine) =~= rooms);
    } else {
        let init = rooms.drop_last();
        let last = rooms.last();
        let pruned = (
            last.0,
            RoomEntry { id: last.1.id, room: last.1.room.pruned(now.mono) },
        );
        sweep_splits(init, now, owner);
        assert(rooms =~= init.push(last));
        filter_push(init, mine, last);
        filter_push(init, due, last);
        filter_push(init, stays, last);
        if due(last) {
            filter_push(due_rooms(init, now.wall), mine, last);
        } else {
            assert(kept_rooms(rooms, now) =~= kept_rooms(init, now).push(pruned));
            filter_push(kept_rooms(init, now), mine, pruned);
        }
    }
}

/// A sweep keeps the table in order, and the ids in it valid.
pub proof fn sweep_keeps_wf(registry: RegistryView, now: Now)
    requires
        registry.wf(),
    ensures
        registry.swept(now).wf(),
        registry.is_sound() ==> registry.swept(now).is_sound(),
{
    let after = registry.swept(now);
    let rooms = registry.rooms;
    let at = filter_origin(
        rooms,
        |e: (Seq<char>, RoomEntry)| !is_due(e.1.room, now.wall),
    );
    assert forall|o: Seq<char>| #[trigger]
        owned(due_rooms(rooms, now.wall), o) <= counted(registry.rooms_per_ip, o) by {
        sweep_splits(rooms, now, o);
        assert(counted(registry.rooms_per_ip, o) == owned(rooms, o));
    }
    released_all_counts(registry.rooms_per_ip, due_rooms(rooms, now.wall));
    assert forall|o: Seq<char>| #[trigger]
        counted(after.rooms_per_ip, o) == owned(after.rooms, o) by {
        sweep_splits(rooms, now, o);
        assert(counted(registry.rooms_per_ip, o) == owned(rooms, o));
    }
    assert forall|i: int, j: int| 0 <= i < j < after.rooms.len() implies after.rooms[i].0
        != after.rooms[j].0 by {
        assert(at[i] < at[j]);
        assert(rooms[at[i]].0 != rooms[at[j]].0);
    }
    assert forall|i: int, j: int| 0 <= i < j < after.rooms.len() implies (
    #[trigger] after.rooms[i]).1.id != (#[trigger] after.rooms[j]).1.id by {
        assert(at[i] < at[j]);
        assert(rooms[at[i]].1.id != rooms[at[j]].1.id);
    }
    assert forall|i: int| 0 <= i < after.rooms.len() implies after.entry_is_wf(
        #[trigger] after.rooms[i],
    ) by {
        assert(0 <= at[i] < rooms.len());
        assert(registry.entry_is_wf(rooms[at[i]]));
        pruning_continues(rooms[at[i]].1.room, now);
    }
    assert forall|i: int| 0 <= i < after.rooms.len() && registry.has_valid_ids() implies (
    #[trigger] after.rooms[i]).1.room.has_valid_ids() by {
        assert(0 <= at[i] < rooms.len());
        let before = rooms[at[i]].1.room;
        assert(registry.entry_is_wf(rooms[at[i]]));
        pruning_continues(before, now);
        assert(before.has_valid_ids());
        assert forall|id: Seq<char>| #[trigger] before.pruned(now.mono).knows(
            id,
        ) implies is_valid_id(id, MAX_PEER_ID_LENGTH as nat) by {
            assert(before.knows(id));
        }
    }
    assert forall|i: int| 0 <= i < after.unlisted.len() implies after.unlisted_is_wf(
        #[trigger] after.unlisted[i],
    ) by {
        assert(registry.unlisted_is_wf(registry.unlisted[i]));
    }
}

/// After a sweep no room is left that is due, and every other one is, under the
/// same number.
pub proof fn sweep_removes_exactly_what_is_due(registry: RegistryView, now: Now)
    requires
        registry.wf(),
    ensures
        forall|i: int|
            0 <= i < registry.swept(now).rooms.len() ==> !is_due(
                (#[trigger] registry.swept(now).rooms[i]).1.room,
                now.wall,
            ),
        forall|i: int|
            0 <= i < registry.rooms.len() ==> registry.swept(now).get(
                (#[trigger] registry.rooms[i]).0,
            ) == if is_due(registry.rooms[i].1.room, now.wall) {
                None
            } else {
                Some(
                    HandleView {
                        session_id: registry.rooms[i].0,
                        id: registry.rooms[i].1.id,
                    },
                )
            },
{
    let after = registry.swept(now);
    let rooms = registry.rooms;
    let at = filter_origin(
        rooms,
        |e: (Seq<char>, RoomEntry)| !is_due(e.1.room, now.wall),
    );
    sweep_keeps_wf(registry, now);
    assert forall|i: int| 0 <= i < after.rooms.len() implies !is_due(
        (#[trigger] after.rooms[i]).1.room,
        now.wall,
    ) by {
        assert(0 <= at[i] < rooms.len());
    }
    assert forall|k: int| 0 <= k < rooms.len() implies after.get((#[trigger] rooms[k]).0)
        == if is_due(rooms[k].1.room, now.wall) {
        None
    } else {
        Some(HandleView { session_id: rooms[k].0, id: rooms[k].1.id })
    } by {
        if is_due(rooms[k].1.room, now.wall) {
            if has_key(after.rooms, rooms[k].0) {
                let i = position(after.rooms, rooms[k].0);
                assert(0 <= at[i] < rooms.len());
                assert(rooms[at[i]].0 == rooms[k].0);
            }
        } else {
            assert(at.contains(k));
            let i = choose|i: int| 0 <= i < at.len() && at[i] == k;
            assert(0 <= at[i] < rooms.len());
            assert(after.rooms[i].0 == rooms[k].0);
            entry_is_found(after.rooms, i);
        }
    }
}

/// `create` never makes more rooms than there may be, nor more for one address
/// than that may own.
pub proof fn create_stays_within_limits(
    registry: RegistryView,
    session_id: Seq<char>,
    host_peer_id: Seq<char>,
    token: Seq<char>,
    owner: Seq<char>,
    admission: AdmissionView,
    now: Now,
    cancel: CancellationToken,
)
    requires
        registry.wf(),
        registry.can_admit(session_id),
    ensures
        ({
            let after = registry.create(
                session_id,
                host_peer_id,
                token,
                owner,
                admission,
                now,
                cancel,
            ).registry;
            &&& after.rooms.len() <= registry.rooms.len() || after.rooms.len()
                <= MAX_RETAINED_ROOMS
            &&& forall|o: Seq<char>| #[trigger]
                owned(after.rooms, o) <= owned(registry.rooms, o) || owned(after.rooms, o)
                    <= MAX_ROOMS_PER_IP
        }),
{
    create_keeps_wf(registry, session_id, host_peer_id, token, owner, admission, now, cancel);
    let after = registry.create(
        session_id,
        host_peer_id,
        token,
        owner,
        admission,
        now,
        cancel,
    ).registry;
    removal_keeps_wf(registry, session_id);
    without_then_lookup(registry.rooms, session_id);
    let freed = registry.without_room(session_id);
    if let Some(verifier) = verifier_of_token(token) {
        let room = RoomView::created(
            session_id,
            host_peer_id,
            verifier,
            owner,
            admission,
            now,
            cancel,
        ).room;
        put_then_lookup(
            freed.rooms,
            session_id,
            RoomEntry { id: freed.next_room_id, room },
        );
        if counted(freed.rooms_per_ip, owner) < MAX_ROOMS_PER_IP {
            claim_counts(freed.rooms_per_ip, owner);
        }
        if let Some(entry) = lookup(registry.rooms, session_id) {
            put_then_lookup(
                registry.rooms,
                session_id,
                RoomEntry {
                    id: entry.id,
                    room: entry.room.host_reconnected(admission, cancel).room,
                },
            );
        }
    }
    assert forall|o: Seq<char>| #[trigger]
        owned(after.rooms, o) <= owned(registry.rooms, o) || owned(after.rooms, o)
            <= MAX_ROOMS_PER_IP by {
        assert(counted(after.rooms_per_ip, o) == owned(after.rooms, o));
        assert(counted(freed.rooms_per_ip, o) == owned(freed.rooms, o));
        assert(counted(registry.rooms_per_ip, o) == owned(registry.rooms, o));
        if let Some(entry) = lookup(registry.rooms, session_id) {
            let p = position(registry.rooms, session_id);
            filter_remove_len(
                registry.rooms,
                |e: (Seq<char>, RoomEntry)| e.1.room.owner_ip_key == o,
                p,
            );
        }
    }
}

/// A host that repeats `create` with its token gets its own room again, and
/// nothing is counted twice.
pub proof fn create_is_idempotent(
    registry: RegistryView,
    session_id: Seq<char>,
    host_peer_id: Seq<char>,
    token: Seq<char>,
    owner: Seq<char>,
    admission: AdmissionView,
    now: Now,
    cancel: CancellationToken,
)
    requires
        registry.wf(),
        has_key(registry.rooms, session_id),
        verifier_of_token(token) is Some,
        lookup(registry.rooms, session_id)->0.room.is_hosted_by(
            host_peer_id,
            verifier_of_token(token)->0,
        ),
    ensures
        ({
            let creation = registry.create(
                session_id,
                host_peer_id,
                token,
                owner,
                admission,
                now,
                cancel,
            );
            let room = lookup(registry.rooms, session_id)->0.room;
            &&& creation.handle == registry.get(session_id)
            &&& creation.handle is Some
            &&& creation.registry.get(session_id) == registry.get(session_id)
            &&& creation.registry.rooms.len() == registry.rooms.len()
            &&& creation.registry.rooms_per_ip == registry.rooms_per_ip
            &&& creation.effects.evict == room.replaced(host_peer_id)
        }),
{
    let entry = lookup(registry.rooms, session_id)->0;
    put_then_lookup(
        registry.rooms,
        session_id,
        RoomEntry {
            id: entry.id,
            room: entry.room.host_reconnected(admission, cancel).room,
        },
    );
}

/// A room that somebody is connected to is not taken over: `create` by anyone
/// but its host is refused and changes nothing.
pub proof fn occupied_room_stays(
    registry: RegistryView,
    session_id: Seq<char>,
    host_peer_id: Seq<char>,
    token: Seq<char>,
    owner: Seq<char>,
    admission: AdmissionView,
    now: Now,
    cancel: CancellationToken,
)
    requires
        has_key(registry.rooms, session_id),
        lookup(registry.rooms, session_id)->0.room.peers.len() > 0,
        ({
            let room = lookup(registry.rooms, session_id)->0.room;
            room.host_peer_id != host_peer_id || verifier_of_token(token) != Some(
                room.host_verifier,
            )
        }),
    ensures
        ({
            let creation = registry.create(
                session_id,
                host_peer_id,
                token,
                owner,
                admission,
                now,
                cancel,
            );
            &&& creation.registry == registry
            &&& creation.handle is None
            &&& creation.effects.reply is Some
        }),
{
}

/// A room that nobody is connected to makes way for a new one with another
/// number.
pub proof fn abandoned_room_makes_way(
    registry: RegistryView,
    session_id: Seq<char>,
    host_peer_id: Seq<char>,
    token: Seq<char>,
    owner: Seq<char>,
    admission: AdmissionView,
    now: Now,
    cancel: CancellationToken,
)
    requires
        registry.wf(),
        registry.can_admit(session_id),
        registry.rooms.len() <= MAX_RETAINED_ROOMS,
        counted(registry.rooms_per_ip, owner) < MAX_ROOMS_PER_IP,
        has_key(registry.rooms, session_id),
        lookup(registry.rooms, session_id)->0.room.peers.len() == 0,
        verifier_of_token(token) is Some,
        !lookup(registry.rooms, session_id)->0.room.is_hosted_by(
            host_peer_id,
            verifier_of_token(token)->0,
        ),
    ensures
        ({
            let creation = registry.create(
                session_id,
                host_peer_id,
                token,
                owner,
                admission,
                now,
                cancel,
            );
            &&& creation.handle is Some
            &&& creation.handle != registry.get(session_id)
            &&& creation.registry.get(session_id) == creation.handle
            &&& creation.registry.rooms.len() == registry.rooms.len()
        }),
{
    let p = position(registry.rooms, session_id);
    assert(registry.entry_is_wf(registry.rooms[p]));
    removal_keeps_wf(registry, session_id);
    without_then_lookup(registry.rooms, session_id);
    let freed = registry.without_room(session_id);
    let old_owner = registry.rooms[p].1.room.owner_ip_key;
    assert(counted(freed.rooms_per_ip, owner) <= counted(registry.rooms_per_ip, owner)) by {
        assert(counted(registry.rooms_per_ip, old_owner) == owned(registry.rooms, old_owner));
        filter_remove_len(
            registry.rooms,
            |e: (Seq<char>, RoomEntry)| e.1.room.owner_ip_key == old_owner,
            p,
        );
        release_counts(registry.rooms_per_ip, old_owner);
    }
    let room = RoomView::created(
        session_id,
        host_peer_id,
        verifier_of_token(token)->0,
        owner,
        admission,
        now,
        cancel,
    ).room;
    put_then_lookup(freed.rooms, session_id, RoomEntry { id: freed.next_room_id, room });
}

} // verus!
