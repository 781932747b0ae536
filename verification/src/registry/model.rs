//! What the room table is and what each operation makes of it, mathematically.

use crate::clock::{elapsed, Now, WallTime};
use crate::error::ClientError;
use crate::id_map::{has_key, lookup, put, without};
use crate::ids::verifier_of_token;
use crate::protocol::ServerMessage;
use crate::registry::{MAX_RETAINED_ROOMS, MAX_ROOMS_PER_IP};
use crate::room::model::{no_effects, refusal, tokens_of, AdmissionView, EffectsView, RoomView};
use crate::room::{EMPTY_ROOM_MAX_AGE, ROOM_MAX_AGE};
use crate::snapshot::{verifiers_read_back, RestoredRoomView, RoomDtoView};
use tokio::sync::mpsc::Sender;
use tokio_util::sync::CancellationToken;
use vstd::prelude::*;

verus! {

/// A room and the number that tells it from others under the same session id.
pub struct RoomEntry {
    pub id: u64,
    pub room: RoomView,
}

/// Which room is meant.
pub struct HandleView {
    pub session_id: Seq<char>,
    pub id: u64,
}

#[verifier::ext_equal]
pub struct RegistryView {
    /// The rooms that can be joined, by session id.
    pub rooms: Seq<(Seq<char>, RoomEntry)>,
    /// The rooms that were taken off the table and go on for those who are in
    /// them, by number.
    pub unlisted: Seq<(u64, RoomView)>,
    /// How many rooms each client address made.
    pub rooms_per_ip: Seq<(Seq<char>, usize)>,
    pub next_room_id: u64,
}

/// What `create` makes of the table, the room that the caller is in then, and
/// the effects.
#[verifier::ext_equal]
pub struct Creation {
    pub registry: RegistryView,
    pub handle: Option<HandleView>,
    pub effects: EffectsView,
}

/// What an operation on one room makes of the table, and the effects.
#[verifier::ext_equal]
pub struct RegistryOutcome {
    pub registry: RegistryView,
    pub effects: EffectsView,
}

/// How many rooms are counted for `owner`.
pub open spec fn counted(quota: Seq<(Seq<char>, usize)>, owner: Seq<char>) -> nat {
    match lookup(quota, owner) {
        Some(n) => n as nat,
        None => 0,
    }
}

/// The counts with one room more for `owner`.
pub open spec fn claimed(quota: Seq<(Seq<char>, usize)>, owner: Seq<char>) -> Seq<
    (Seq<char>, usize),
> {
    put(quota, owner, (counted(quota, owner) + 1) as usize)
}

/// The counts with one room fewer for `owner`; a count of zero is not kept.
pub open spec fn released(quota: Seq<(Seq<char>, usize)>, owner: Seq<char>) -> Seq<
    (Seq<char>, usize),
> {
    match lookup(quota, owner) {
        Some(n) => if n <= 1 {
            without(quota, owner)
        } else {
            put(quota, owner, (n - 1) as usize)
        },
        None => quota,
    }
}

/// The room that stands for one that is no longer kept: it is closing, and
/// nobody is connected to it.
pub open spec fn gone_room(session_id: Seq<char>) -> RoomView {
    RoomView {
        session_id,
        host_peer_id: Seq::empty(),
        host_verifier: Seq::empty(),
        peers: Seq::empty(),
        reservations: Seq::empty(),
        owner_ip_key: Seq::empty(),
        created_at: WallTime { secs: 0, nanos: 0 },
        last_activity_at: WallTime { secs: 0, nanos: 0 },
        closing: true,
        next_conn_id: 1,
    }
}

impl RegistryView {
    /// The table without any room.
    pub open spec fn empty() -> RegistryView {
        RegistryView {
            rooms: Seq::empty(),
            unlisted: Seq::empty(),
            rooms_per_ip: Seq::empty(),
            next_room_id: 0,
        }
    }

    /// The handle of the room that can be joined under `session_id`.
    pub open spec fn get(self, session_id: Seq<char>) -> Option<HandleView> {
        match lookup(self.rooms, session_id) {
            Some(entry) => Some(HandleView { session_id, id: entry.id }),
            None => None,
        }
    }

    /// The room is the one that can be joined under its session id.
    pub open spec fn is_current(self, handle: HandleView) -> bool {
        self.get(handle.session_id) == Some(handle)
    }

    /// The room that is meant. One that is no longer kept is as good as a
    /// closing one that nobody is connected to.
    pub open spec fn room_at(self, handle: HandleView) -> RoomView {
        if self.is_current(handle) {
            lookup(self.rooms, handle.session_id)->0.room
        } else if has_key(self.unlisted, handle.id) {
            lookup(self.unlisted, handle.id)->0
        } else {
            gone_room(handle.session_id)
        }
    }

    /// The table with `room` in the place of the room that is meant.
    pub open spec fn with_room_at(self, handle: HandleView, room: RoomView) -> RegistryView {
        if self.is_current(handle) {
            RegistryView {
                rooms: put(self.rooms, handle.session_id, RoomEntry { id: handle.id, room }),
                ..self
            }
        } else if has_key(self.unlisted, handle.id) {
            RegistryView { unlisted: put(self.unlisted, handle.id, room), ..self }
        } else {
            self
        }
    }

    /// The table with the room under `session_id` given up, its owner's count
    /// adjusted.
    pub open spec fn without_room(self, session_id: Seq<char>) -> RegistryView {
        match lookup(self.rooms, session_id) {
            Some(entry) => RegistryView {
                rooms: without(self.rooms, session_id),
                rooms_per_ip: released(self.rooms_per_ip, entry.room.owner_ip_key),
                ..self
            },
            None => self,
        }
    }

    /// The table with the room under `session_id` taken off, its owner's count
    /// adjusted, where those who are in it go on.
    pub open spec fn with_room_unlisted(self, session_id: Seq<char>) -> RegistryView {
        match lookup(self.rooms, session_id) {
            Some(entry) => RegistryView {
                unlisted: put(self.unlisted, entry.id, entry.room),
                ..self.without_room(session_id)
            },
            None => self,
        }
    }

    /// The table with a new room under `session_id`, its owner's count
    /// adjusted.
    pub open spec fn with_new_room(self, session_id: Seq<char>, room: RoomView) -> RegistryView {
        RegistryView {
            rooms: put(self.rooms, session_id, RoomEntry { id: self.next_room_id, room }),
            rooms_per_ip: claimed(self.rooms_per_ip, room.owner_ip_key),
            next_room_id: (self.next_room_id + 1) as u64,
            ..self
        }
    }

    /// There are numbers left for a room under `session_id` and for a
    /// connection to it.
    pub open spec fn can_admit(self, session_id: Seq<char>) -> bool {
        &&& self.next_room_id < u64::MAX
        &&& match lookup(self.rooms, session_id) {
            Some(entry) => entry.room.next_conn_id < u64::MAX,
            None => true,
        }
    }

    /// The first `n` restored rooms are taken in, owned by nobody in
    /// particular.
    pub open spec fn restored(self, rooms: Seq<RestoredRoomView>, n: int) -> RegistryView
        decreases n,
    {
        if n <= 0 {
            self
        } else {
            let r = rooms[n - 1];
            self.restored(rooms, n - 1).with_new_room(
                r.session_id,
                RoomView::restored(
                    r.session_id,
                    r.host_peer_id,
                    r.host_verifier,
                    ""@,
                    r.reservations,
                    r.created_at,
                    r.last_activity_at,
                ),
            )
        }
    }

    /// A client asks for a room. The room's own host gets its room back; a room
    /// that nobody is connected to makes way.
    pub open spec fn create(
        self,
        session_id: Seq<char>,
        host_peer_id: Seq<char>,
        token: Seq<char>,
        owner: Seq<char>,
        admission: AdmissionView,
        now: Now,
        cancel: CancellationToken,
    ) -> Creation {
        let refused = |registry: RegistryView, err: ClientError, text: Seq<char>|
            Creation { registry, handle: None, effects: refusal(err, text) };
        match verifier_of_token(token) {
            None => refused(self, ClientError::InvalidMessage, "Invalid reconnect token"@),
            Some(verifier) => match lookup(self.rooms, session_id) {
                Some(entry) => if entry.room.is_hosted_by(host_peer_id, verifier) {
                    let outcome = entry.room.host_reconnected(admission, cancel);
                    let handle = HandleView { session_id, id: entry.id };
                    Creation {
                        registry: self.with_room_at(handle, outcome.room),
                        handle: Some(handle),
                        effects: outcome.effects,
                    }
                } else if !entry.room.is_reclaimable() {
                    refused(self, ClientError::RoomExists, "Room already exists"@)
                } else {
                    self.without_room(session_id).create_fresh(
                        session_id,
                        host_peer_id,
                        verifier,
                        owner,
                        admission,
                        now,
                        cancel,
                    )
                },
                None => self.create_fresh(
                    session_id,
                    host_peer_id,
                    verifier,
                    owner,
                    admission,
                    now,
                    cancel,
                ),
            },
        }
    }

    /// A room is made under a session id that is free, within the limits.
    pub open spec fn create_fresh(
        self,
        session_id: Seq<char>,
        host_peer_id: Seq<char>,
        verifier: Seq<u8>,
        owner: Seq<char>,
        admission: AdmissionView,
        now: Now,
        cancel: CancellationToken,
    ) -> Creation {
        if self.rooms.len() >= MAX_RETAINED_ROOMS {
            Creation {
                registry: self,
                handle: None,
                effects: refusal(ClientError::RateLimited, "Too many retained rooms"@),
            }
        } else if counted(self.rooms_per_ip, owner) >= MAX_ROOMS_PER_IP {
            Creation {
                registry: self,
                handle: None,
                effects: refusal(ClientError::RateLimited, "Too many rooms created"@),
            }
        } else {
            let outcome = RoomView::created(
                session_id,
                host_peer_id,
                verifier,
                owner,
                admission,
                now,
                cancel,
            );
            Creation {
                registry: self.with_new_room(session_id, outcome.room),
                handle: Some(HandleView { session_id, id: self.next_room_id }),
                effects: outcome.effects,
            }
        }
    }

    /// The end of a room has begun: it can no longer be joined, and its owner's
    /// count is adjusted.
    pub open spec fn end_begun(self, handle: HandleView) -> RegistryView {
        let room = self.room_at(handle);
        RegistryView {
            rooms: if self.is_current(handle) {
                without(self.rooms, handle.session_id)
            } else {
                self.rooms
            },
            unlisted: put(self.unlisted, handle.id, room.closed()),
            rooms_per_ip: released(self.rooms_per_ip, room.owner_ip_key),
            ..self
        }
    }

    /// The end of a room is saved, or could not be. The room is gone either
    /// way.
    pub open spec fn end_finished(
        self,
        handle: HandleView,
        guests: Seq<Sender<ServerMessage>>,
        persisted: bool,
    ) -> RegistryOutcome {
        match lookup(self.unlisted, handle.id) {
            Some(room) => RegistryOutcome {
                registry: RegistryView { unlisted: without(self.unlisted, handle.id), ..self },
                effects: room.session_ended(guests, persisted).effects,
            },
            None => RegistryOutcome { registry: self, effects: no_effects() },
        }
    }
}

/// What is saved of the first `n` rooms: all but those that are closing.
pub open spec fn saved_prefix(rooms: Seq<(Seq<char>, RoomEntry)>, n: int, now: Now) -> Seq<
    RoomDtoView,
>
    decreases n,
{
    if n <= 0 {
        Seq::empty()
    } else {
        let room = rooms[n - 1].1.room;
        let before = saved_prefix(rooms, n - 1, now);
        if room.closing {
            before
        } else {
            before.push(room.saved(now))
        }
    }
}

/// The persisted forms of the verifiers of the rooms that are saved are read
/// back as those verifiers.
pub open spec fn rooms_read_back(rooms: Seq<(Seq<char>, RoomEntry)>) -> bool {
    forall|i: int|
        0 <= i < rooms.len() && !rooms[i].1.room.closing ==> verifiers_read_back(
            (#[trigger] rooms[i]).1.room.host_verifier,
            rooms[i].1.room.reservations,
        )
}

/// The room is to be removed: nobody is connected and it was idle for too long,
/// or it is too old.
pub open spec fn is_due(room: RoomView, now: WallTime) -> bool {
    ||| room.peers.len() == 0 && elapsed(room.last_activity_at.at(), now.at())
        > EMPTY_ROOM_MAX_AGE
    ||| elapsed(room.created_at.at(), now.at()) > ROOM_MAX_AGE
}

/// The rooms that are to be removed.
pub open spec fn due_rooms(rooms: Seq<(Seq<char>, RoomEntry)>, now: WallTime) -> Seq<
    (Seq<char>, RoomEntry),
> {
    rooms.filter(|e: (Seq<char>, RoomEntry)| is_due(e.1.room, now))
}

/// The rooms that stay, without the reservations whose grace period is over.
pub open spec fn kept_rooms(rooms: Seq<(Seq<char>, RoomEntry)>, now: Now) -> Seq<
    (Seq<char>, RoomEntry),
> {
    rooms.filter(|e: (Seq<char>, RoomEntry)| !is_due(e.1.room, now.wall)).map_values(
        |e: (Seq<char>, RoomEntry)|
            (e.0, RoomEntry { id: e.1.id, room: e.1.room.pruned(now.mono) }),
    )
}

/// The counts with each of the given rooms taken off, in turn.
pub open spec fn released_all(
    quota: Seq<(Seq<char>, usize)>,
    rooms: Seq<(Seq<char>, RoomEntry)>,
) -> Seq<(Seq<char>, usize)>
    decreases rooms.len(),
{
    if rooms.len() == 0 {
        quota
    } else {
        released(
            released_all(quota, rooms.drop_last()),
            rooms.last().1.room.owner_ip_key,
        )
    }
}

/// The tokens of everyone who is connected to one of the given rooms.
pub open spec fn tokens_of_all(rooms: Seq<(Seq<char>, RoomEntry)>) -> Seq<CancellationToken>
    decreases rooms.len(),
{
    if rooms.len() == 0 {
        Seq::empty()
    } else {
        tokens_of_all(rooms.drop_last()) + tokens_of(rooms.last().1.room.peers)
    }
}

/// The sweep removes the room, or a reservation of it.
pub open spec fn sweep_changes(room: RoomView, now: Now) -> bool {
    is_due(room, now.wall) || room.pruned(now.mono).reservations.len() != room.reservations.len()
}

/// The rooms that the sweep removes or takes a reservation from.
pub open spec fn changed_rooms(rooms: Seq<(Seq<char>, RoomEntry)>, now: Now) -> Seq<
    (Seq<char>, RoomEntry),
> {
    rooms.filter(|e: (Seq<char>, RoomEntry)| sweep_changes(e.1.room, now))
}

impl RegistryView {
    /// The table after a sweep.
    pub open spec fn swept(self, now: Now) -> RegistryView {
        RegistryView {
            rooms: kept_rooms(self.rooms, now),
            rooms_per_ip: released_all(self.rooms_per_ip, due_rooms(self.rooms, now.wall)),
            ..self
        }
    }
}

} // verus!
