//! Room-state snapshots: what of a room is saved, what is believed of a saved
//! room, and when a snapshot is taken.
//!
//! A change that a client waits for (`leave`, `endSession`) is saved at once,
//! and the client is told of it only when it is known whether that succeeded.
//! Every other change is saved a little later.

use crate::clock::{at_millis, elapsed, millis_of, rewound, Monotonic, Now, WallTime};
use crate::error::SnapshotError;
use crate::id_map::{filter_push, has_key, position, unique_keys, IdMap};
use crate::ids::{base64_encoded, verifier_of_encoded, Verifier};
use crate::protocol::{supported_protocol_version, RELAY_PROTOCOL_VERSION};
use crate::registry::laws::restorable;
use crate::registry::model::RegistryView;
use crate::room::model::ReservationView;
use crate::room::{
    ids_are_valid, valid_session_and_peer_id, PeerReservation, EMPTY_ROOM_MAX_AGE, ROOM_MAX_AGE,
};
use crate::snapshot::laws::restored_rooms_are_restorable;
use crate::text::{str_eq, strings_contain, strings_view};
use tokio::sync::oneshot::Sender;
use vstd::prelude::*;

pub mod laws;
pub mod restart_laws;

verus! {

pub const SNAPSHOT_FORMAT_VERSION: u32 = 1;

/// How long a change that nobody waits for may go unsaved, in milliseconds.
pub const DEBOUNCE_MILLIS: u64 = 100;

/// How long the last write may take at shutdown, in seconds.
pub const SNAPSHOT_FLUSH_TIMEOUT_SECS: u64 = 5;

/// A guest's identity as it is saved.
pub struct ReservationDto {
    pub verifier: String,
    /// When the guest disconnected, in milliseconds since the epoch; `None` if
    /// it was connected.
    pub absent_since_millis: Option<u64>,
}

pub struct ReservationDtoView {
    pub verifier: Seq<char>,
    pub absent_since_millis: Option<u64>,
}

impl View for ReservationDto {
    type V = ReservationDtoView;

    open spec fn view(&self) -> ReservationDtoView {
        ReservationDtoView {
            verifier: self.verifier@,
            absent_since_millis: self.absent_since_millis,
        }
    }
}

/// A room as it is saved.
pub struct RoomDto {
    pub session_id: String,
    pub host_peer_id: String,
    pub host_verifier: String,
    pub protocol_version: u32,
    pub reservations: IdMap<ReservationDto>,
    pub created_at_millis: u64,
    pub last_activity_at_millis: u64,
}

#[verifier::ext_equal]
pub struct RoomDtoView {
    pub session_id: Seq<char>,
    pub host_peer_id: Seq<char>,
    pub host_verifier: Seq<char>,
    pub protocol_version: u32,
    pub reservations: Seq<(Seq<char>, ReservationDtoView)>,
    pub created_at_millis: u64,
    pub last_activity_at_millis: u64,
}

impl View for RoomDto {
    type V = RoomDtoView;

    open spec fn view(&self) -> RoomDtoView {
        RoomDtoView {
            session_id: self.session_id@,
            host_peer_id: self.host_peer_id@,
            host_verifier: self.host_verifier@,
            protocol_version: self.protocol_version,
            reservations: self.reservations@,
            created_at_millis: self.created_at_millis,
            last_activity_at_millis: self.last_activity_at_millis,
        }
    }
}

/// All saved rooms, with the version of the format they are saved in.
pub struct StateSnapshotDto {
    pub version: u32,
    pub rooms: Vec<RoomDto>,
}

/// The saved rooms of a list.
pub open spec fn room_dtos(rooms: Seq<RoomDto>) -> Seq<RoomDtoView> {
    rooms.map_values(|r: RoomDto| r@)
}

impl StateSnapshotDto {
    pub fn new(rooms: Vec<RoomDto>) -> (res: Self)
        ensures
            res.version == SNAPSHOT_FORMAT_VERSION,
            res.rooms == rooms,
    {
        StateSnapshotDto { version: SNAPSHOT_FORMAT_VERSION, rooms }
    }
}

/// A guest's identity read from a snapshot.
#[derive(Clone, Copy)]
pub struct RestoredReservation {
    pub verifier: Verifier,
    pub absent_since: Option<Monotonic>,
}

pub struct RestoredReservationView {
    pub verifier: Seq<u8>,
    pub absent_since: Option<Monotonic>,
}

impl View for RestoredReservation {
    type V = RestoredReservationView;

    open spec fn view(&self) -> RestoredReservationView {
        RestoredReservationView { verifier: self.verifier@, absent_since: self.absent_since }
    }
}

/// A room read from a snapshot and found to be sound.
pub struct RestoredRoom {
    pub session_id: String,
    pub host_peer_id: String,
    pub host_verifier: Verifier,
    pub reservations: IdMap<RestoredReservation>,
    pub created_at: WallTime,
    pub last_activity_at: WallTime,
}

#[verifier::ext_equal]
pub struct RestoredRoomView {
    pub session_id: Seq<char>,
    pub host_peer_id: Seq<char>,
    pub host_verifier: Seq<u8>,
    pub reservations: Seq<(Seq<char>, RestoredReservationView)>,
    pub created_at: WallTime,
    pub last_activity_at: WallTime,
}

impl View for RestoredRoom {
    type V = RestoredRoomView;

    open spec fn view(&self) -> RestoredRoomView {
        RestoredRoomView {
            session_id: self.session_id@,
            host_peer_id: self.host_peer_id@,
            host_verifier: self.host_verifier@,
            reservations: self.reservations@,
            created_at: self.created_at,
            last_activity_at: self.last_activity_at,
        }
    }
}

/// The restored rooms of a list.
pub open spec fn restored_rooms(rooms: Seq<RestoredRoom>) -> Seq<RestoredRoomView> {
    rooms.map_values(|r: RestoredRoom| r@)
}

/// Whole milliseconds since the epoch.
pub fn to_millis(t: WallTime) -> (res: u64)
    ensures
        res == millis_of(t.at()),
{
    t.millis_before(0)
}

/// The time that many milliseconds after the epoch.
pub fn from_millis(ms: u64) -> (res: WallTime)
    ensures
        res == at_millis(ms),
{
    WallTime { secs: (ms / 1000) as i64, nanos: ((ms % 1000) * 1_000_000) as u32 }
}

/// When a guest disconnected, on this process's clock, if the snapshot says that
/// it did at `ms`.
pub open spec fn restored_absence(ms: Option<u64>, now: Now) -> Option<Monotonic> {
    match ms {
        Some(ms) => Some(
            rewound(now.mono, elapsed(at_millis(ms).at(), now.wall.at()) as int),
        ),
        None => None,
    }
}

/// A saved room that counts: its ids and its host's verifier have the right
/// form, its protocol is spoken, and it is neither too old nor too long idle.
pub open spec fn room_counts(room: RoomDtoView, now: Now) -> bool {
    &&& ids_are_valid(room.session_id, room.host_peer_id)
    &&& room.protocol_version == RELAY_PROTOCOL_VERSION
    &&& verifier_of_encoded(room.host_verifier) is Some
    &&& elapsed(at_millis(room.created_at_millis).at(), now.wall.at()) <= ROOM_MAX_AGE
    &&& elapsed(at_millis(room.last_activity_at_millis).at(), now.wall.at()) <= EMPTY_ROOM_MAX_AGE
}

/// A saved identity of the right form.
pub open spec fn reservation_is_sound(
    room: RoomDtoView,
    entry: (Seq<char>, ReservationDtoView),
) -> bool {
    &&& ids_are_valid(room.session_id, entry.0)
    &&& entry.0 != room.host_peer_id
    &&& verifier_of_encoded(entry.1.verifier) is Some
}

/// Every saved identity of the room has the right form.
pub open spec fn reservations_are_sound(room: RoomDtoView) -> bool {
    forall|i: int|
        0 <= i < room.reservations.len() ==> reservation_is_sound(
            room,
            #[trigger] room.reservations[i],
        )
}

/// A room before index `i` counts and has the given session id.
pub open spec fn session_seen(
    rooms: Seq<RoomDtoView>,
    i: int,
    session_id: Seq<char>,
    now: Now,
) -> bool {
    exists|j: int|
        0 <= j < i && #[trigger] room_counts(rooms[j], now) && rooms[j].session_id == session_id
}

/// The room at index `i` is restored: it counts, it is the first that does under
/// its session id, and its identities have the right form.
pub open spec fn is_restored(rooms: Seq<RoomDtoView>, i: int, now: Now) -> bool {
    &&& room_counts(rooms[i], now)
    &&& !session_seen(rooms, i, rooms[i].session_id, now)
    &&& reservations_are_sound(rooms[i])
}

/// What is restored of a saved identity.
pub open spec fn restored_reservation(
    r: ReservationDtoView,
    now: Now,
) -> RestoredReservationView {
    RestoredReservationView {
        verifier: verifier_of_encoded(r.verifier)->0,
        absent_since: restored_absence(r.absent_since_millis, now),
    }
}

/// What is restored of saved identities.
pub open spec fn restored_reservations(
    entries: Seq<(Seq<char>, ReservationDtoView)>,
    now: Now,
) -> Seq<(Seq<char>, RestoredReservationView)> {
    entries.map_values(
        |e: (Seq<char>, ReservationDtoView)| (e.0, restored_reservation(e.1, now)),
    )
}

/// What is restored of a saved room.
pub open spec fn restored_room(room: RoomDtoView, now: Now) -> RestoredRoomView {
    RestoredRoomView {
        session_id: room.session_id,
        host_peer_id: room.host_peer_id,
        host_verifier: verifier_of_encoded(room.host_verifier)->0,
        reservations: restored_reservations(room.reservations, now),
        created_at: at_millis(room.created_at_millis),
        last_activity_at: at_millis(room.last_activity_at_millis),
    }
}

/// What is restored of the first `n` saved rooms, in their order.
pub open spec fn restored_prefix(rooms: Seq<RoomDtoView>, n: int, now: Now) -> Seq<
    RestoredRoomView,
>
    decreases n,
{
    if n <= 0 {
        Seq::empty()
    } else if is_restored(rooms, n - 1, now) {
        restored_prefix(rooms, n - 1, now).push(restored_room(rooms[n - 1], now))
    } else {
        restored_prefix(rooms, n - 1, now)
    }
}

/// What is restored of a snapshot: nothing of one that could not be read or has
/// another version.
pub open spec fn restored_snapshot(dto: Option<StateSnapshotDto>, now: Now) -> Seq<
    RestoredRoomView,
> {
    match dto {
        Some(dto) => if dto.version == SNAPSHOT_FORMAT_VERSION {
            restored_prefix(room_dtos(dto.rooms@), dto.rooms@.len() as int, now)
        } else {
            Seq::empty()
        },
        None => Seq::empty(),
    }
}

/// When a guest disconnected, on this process's clock.
fn restore_absence(ms: Option<u64>, now: Now) -> (res: Option<Monotonic>)
    ensures
        res == restored_absence(ms, now),
{
    match ms {
        Some(ms) => {
            let gone_for = now.wall.since(from_millis(ms));
            Some(now.mono.rewind(gone_for))
        },
        None => None,
    }
}

/// The verifier of the host, if the saved room counts.
fn counting_room(room: &RoomDto, now: Now) -> (res: Option<Verifier>)
    ensures
        match res {
            Some(v) => room_counts(room@, now) && verifier_of_encoded(room@.host_verifier) == Some(
                v@,
            ),
            None => !room_counts(room@, now),
        },
{
    if !valid_session_and_peer_id(room.session_id.as_str(), room.host_peer_id.as_str()) {
        return None;
    }
    if !supported_protocol_version(room.protocol_version) {
        return None;
    }
    let verifier = match Verifier::from_encoded(room.host_verifier.as_str()) {
        Some(v) => v,
        None => {
            return None;
        },
    };
    let age = now.wall.since(from_millis(room.created_at_millis));
    let idle = now.wall.since(from_millis(room.last_activity_at_millis));
    if age > ROOM_MAX_AGE || idle > EMPTY_ROOM_MAX_AGE {
        return None;
    }
    Some(verifier)
}

/// The identities of a saved room, if they all have the right form.
fn sound_reservations(room: &RoomDto, now: Now) -> (res: Option<IdMap<RestoredReservation>>)
    ensures
        match res {
            Some(found) => reservations_are_sound(room@) && found@ == restored_reservations(
                room@.reservations,
                now,
            ),
            None => !reservations_are_sound(room@),
        },
        unique_keys(room@.reservations),
{
    let ghost all = room@.reservations;
    let mut found: IdMap<RestoredReservation> = IdMap::new();
    let mut i: usize = 0;
    assert(found@ =~= restored_reservations(all.take(0), now));
    while i < room.reservations.len()
        invariant
            i <= all.len(),
            all == room@.reservations,
            forall|j: int| 0 <= j < i ==> reservation_is_sound(room@, #[trigger] all[j]),
            found@ == restored_reservations(all.take(i as int), now),
        decreases all.len() - i,
    {
        let peer_id = room.reservations.key_at(i);
        let r = room.reservations.value_at(i);
        assert(all[i as int] == (peer_id@, r@));
        if !valid_session_and_peer_id(room.session_id.as_str(), peer_id.as_str()) || str_eq(
            peer_id.as_str(),
            room.host_peer_id.as_str(),
        ) {
            assert(!reservation_is_sound(room@, all[i as int]));
            return None;
        }
        let verifier = match Verifier::from_encoded(r.verifier.as_str()) {
            Some(v) => v,
            None => {
                assert(!reservation_is_sound(room@, all[i as int]));
                return None;
            },
        };
        let absent_since = restore_absence(r.absent_since_millis, now);
        let ghost before = found@;
        let ghost entry = (
            peer_id@,
            RestoredReservationView { verifier: verifier@, absent_since },
        );
        assert(unique_keys(all));
        assert(!has_key(before, peer_id@)) by {
            if has_key(before, peer_id@) {
                let j = position(before, peer_id@);
                assert(before[j].0 == all[j].0);
                assert(all[j].0 == all[i as int].0);
            }
        }
        found.insert(peer_id.clone(), RestoredReservation { verifier, absent_since });
        i = i + 1;
        assert(restored_reservations(all.take(i as int), now) =~= restored_reservations(
            all.take(i - 1),
            now,
        ).push(entry));
    }
    assert(all.take(i as int) =~= all);
    Some(found)
}

/// Reads a snapshot, believing none of it: a room whose ids or verifiers have
/// the wrong form, or that is older or longer idle than a live room may be, is
/// dropped. `None` stands for a file that is missing or is no snapshot; nothing
/// is restored from it.
pub fn load_snapshot(dto: Option<StateSnapshotDto>, now: Now) -> (res: Vec<RestoredRoom>)
    ensures
        restored_rooms(res@) == restored_snapshot(dto, now),
        restorable(RegistryView::empty(), restored_rooms(res@)),
{
    let mut restored: Vec<RestoredRoom> = Vec::new();
    assert(restored_rooms(restored@) =~= Seq::empty());
    let dto = match dto {
        Some(dto) => dto,
        None => {
            return restored;
        },
    };
    if dto.version != SNAPSHOT_FORMAT_VERSION {
        return restored;
    }
    let ghost rooms = room_dtos(dto.rooms@);
    let mut seen: Vec<String> = Vec::new();
    let mut i: usize = 0;
    while i < dto.rooms.len()
        invariant
            i <= dto.rooms@.len(),
            rooms == room_dtos(dto.rooms@),
            restored_rooms(restored@) == restored_prefix(rooms, i as int, now),
            forall|j: int|
                0 <= j < i && is_restored(rooms, j, now) ==> unique_keys(
                    (#[trigger] rooms[j]).reservations,
                ),
            forall|id: Seq<char>| #[trigger]
                strings_view(seen@).contains(id) <==> session_seen(rooms, i as int, id, now),
        decreases dto.rooms@.len() - i,
    {
        let room = &dto.rooms[i];
        let ghost before = restored@;
        let ghost seen_before = strings_view(seen@);
        assert(rooms[i as int] == room@);
        let counts = counting_room(room, now);
        if let Some(host_verifier) = counts {
            if !strings_contain(&seen, room.session_id.as_str()) {
                seen.push(room.session_id.clone());
                if let Some(reservations) = sound_reservations(room, now) {
                    restored.push(
                        RestoredRoom {
                            session_id: room.session_id.clone(),
                            host_peer_id: room.host_peer_id.clone(),
                            host_verifier,
                            reservations,
                            created_at: from_millis(room.created_at_millis),
                            last_activity_at: from_millis(room.last_activity_at_millis),
                        },
                    );
                    proof {
                        let last = restored@[restored@.len() - 1];
                        assert(last@ =~= restored_room(rooms[i as int], now));
                        assert(restored_rooms(restored@) =~= restored_rooms(before).push(last@));
                    }
                }
            }
        }
        proof {
            let seen_after = strings_view(seen@);
            assert forall|id: Seq<char>| #[trigger]
                seen_after.contains(id) <==> session_seen(rooms, i + 1, id, now) by {
                if session_seen(rooms, i as int, id, now) {
                    assert(seen_before.contains(id));
                    let k = choose|k: int| 0 <= k < seen_before.len() && seen_before[k] == id;
                    assert(seen_after[k] == id);
                    let j = choose|j: int|
                        0 <= j < i && #[trigger] room_counts(rooms[j], now)
                            && rooms[j].session_id == id;
                    assert(room_counts(rooms[j], now));
                    assert(session_seen(rooms, i + 1, id, now));
                }
                if counts is Some && id == room@.session_id {
                    assert(room_counts(rooms[i as int], now));
                    assert(session_seen(rooms, i + 1, id, now));
                    if !seen_before.contains(id) {
                        assert(seen_after[seen_after.len() - 1] == id);
                    } else {
                        assert(seen_after == seen_before);
                    }
                }
                if seen_after.contains(id) && !seen_before.contains(id) {
                    let k = choose|k: int| 0 <= k < seen_after.len() && seen_after[k] == id;
                    if k < seen_before.len() {
                        assert(seen_before[k] == id);
                    }
                    assert(id == room@.session_id);
                }
                if session_seen(rooms, i + 1, id, now) && !session_seen(rooms, i as int, id, now) {
                    let j = choose|j: int|
                        0 <= j < i + 1 && #[trigger] room_counts(rooms[j], now)
                            && rooms[j].session_id == id;
                    assert(j == i);
                }
            }
        }
        i = i + 1;
    }
    proof {
        restored_rooms_are_restorable(rooms, i as int, now);
    }
    restored
}

/// When a guest disconnected, in milliseconds since the epoch.
pub open spec fn saved_absence(since: Option<Monotonic>, now: Now) -> Option<u64> {
    match since {
        Some(since) => Some(millis_of(now.wall.at() - elapsed(since.at(), now.mono.at()))),
        None => None,
    }
}

/// What is saved of identities: all but those that are being released.
pub open spec fn saved_reservations(
    reservations: Seq<(Seq<char>, ReservationView)>,
    now: Now,
) -> Seq<(Seq<char>, ReservationDtoView)> {
    reservations.filter(|e: (Seq<char>, ReservationView)| !e.1.release_pending).map_values(
        |e: (Seq<char>, ReservationView)|
            (
                e.0,
                ReservationDtoView {
                    verifier: base64_encoded(e.1.verifier),
                    absent_since_millis: saved_absence(e.1.absent_since, now),
                },
            ),
    )
}

/// What is saved of a room.
pub open spec fn saved_room(
    session_id: Seq<char>,
    host_peer_id: Seq<char>,
    host_verifier: Seq<u8>,
    reservations: Seq<(Seq<char>, ReservationView)>,
    created_at: WallTime,
    last_activity_at: WallTime,
    now: Now,
) -> RoomDtoView {
    RoomDtoView {
        session_id,
        host_peer_id,
        host_verifier: base64_encoded(host_verifier),
        protocol_version: RELAY_PROTOCOL_VERSION,
        reservations: saved_reservations(reservations, now),
        created_at_millis: millis_of(created_at.at()),
        last_activity_at_millis: millis_of(last_activity_at.at()),
    }
}

/// The persisted form of a verifier is read back as that verifier.
pub open spec fn reads_back(verifier: Seq<u8>) -> bool {
    verifier_of_encoded(base64_encoded(verifier)) == Some(verifier)
}

/// The persisted forms of a room's verifiers are read back as those verifiers.
pub open spec fn verifiers_read_back(
    host_verifier: Seq<u8>,
    reservations: Seq<(Seq<char>, ReservationView)>,
) -> bool {
    &&& reads_back(host_verifier)
    &&& forall|i: int|
        0 <= i < reservations.len() && !reservations[i].1.release_pending ==> reads_back(
            (#[trigger] reservations[i]).1.verifier,
        )
}

/// What is saved of one identity.
fn build_reservation_dto(r: &PeerReservation, now: Now) -> (res: ReservationDto)
    ensures
        res@ == (ReservationDtoView {
            verifier: base64_encoded(r@.verifier),
            absent_since_millis: saved_absence(r@.absent_since, now),
        }),
        reads_back(r@.verifier),
{
    let absent_since_millis = match r.absent_since {
        Some(since) => Some(now.wall.millis_before(now.mono.since(since))),
        None => None,
    };
    ReservationDto { verifier: r.verifier.encode(), absent_since_millis }
}

/// What is saved of a room: its identities but for those being released, and
/// the times as milliseconds since the epoch. Every verifier is saved in a form
/// that is read back as that verifier.
pub fn build_room_dto(
    session_id: &str,
    host_peer_id: &str,
    host_verifier: &Verifier,
    reservations: &IdMap<PeerReservation>,
    created_at: WallTime,
    last_activity_at: WallTime,
    now: Now,
) -> (res: RoomDto)
    ensures
        res@ == saved_room(
            session_id@,
            host_peer_id@,
            host_verifier@,
            reservations@,
            created_at,
            last_activity_at,
            now,
        ),
        verifiers_read_back(host_verifier@, reservations@),
{
    let ghost all = reservations@;
    let ghost kept = |e: (Seq<char>, ReservationView)| !e.1.release_pending;
    let mut saved: IdMap<ReservationDto> = IdMap::new();
    let mut i: usize = 0;
    assert(saved@ =~= saved_reservations(all.take(0), now)) by {
        reveal(Seq::filter);
    }
    while i < reservations.len()
        invariant
            i <= all.len(),
            all == reservations@,
            kept == (|e: (Seq<char>, ReservationView)| !e.1.release_pending),
            saved@ == saved_reservations(all.take(i as int), now),
            forall|k: Seq<char>| #[trigger] has_key(saved@, k) ==> has_key(all.take(i as int), k),
            forall|j: int|
                0 <= j < i && !all[j].1.release_pending ==> reads_back(
                    (#[trigger] all[j]).1.verifier,
                ),
        decreases all.len() - i,
    {
        let peer_id = reservations.key_at(i);
        let r = reservations.value_at(i);
        assert(all[i as int] == (peer_id@, r@));
        assert(all.take(i + 1) =~= all.take(i as int).push(all[i as int]));
        proof {
            filter_push(all.take(i as int), kept, all[i as int]);
            assert(unique_keys(all));
            assert(!has_key(saved@, peer_id@)) by {
                if has_key(saved@, peer_id@) {
                    let j = position(all.take(i as int), peer_id@);
                    assert(all[j].0 == all[i as int].0);
                }
            }
        }
        let ghost before = saved@;
        if !r.release_pending {
            saved.insert(peer_id.clone(), build_reservation_dto(r, now));
            assert(saved@ =~= saved_reservations(all.take(i + 1), now));
        }
        proof {
            assert forall|k: Seq<char>| #[trigger] has_key(saved@, k) implies has_key(
                all.take(i + 1),
                k,
            ) by {
                let j = position(saved@, k);
                if j < before.len() {
                    assert(before[j].0 == k);
                    assert(has_key(before, k));
                    let m = position(all.take(i as int), k);
                    assert(all.take(i + 1)[m].0 == k);
                } else {
                    assert(all.take(i + 1)[i as int].0 == k);
                }
            }
        }
        i = i + 1;
    }
    assert(all.take(i as int) =~= all);
    RoomDto {
        session_id: session_id.to_string(),
        host_peer_id: host_peer_id.to_string(),
        host_verifier: host_verifier.encode(),
        protocol_version: RELAY_PROTOCOL_VERSION,
        reservations: saved,
        created_at_millis: to_millis(created_at),
        last_activity_at_millis: to_millis(last_activity_at),
    }
}

/// What the snapshot writer is told.
pub enum Command {
    /// The state changed, and nobody waits for that to be saved.
    Mutate,
    /// The state changed, and the sender learns whether that was saved.
    Terminal(Sender<Result<(), SnapshotError>>),
    /// Saves what is not saved yet and stops; the sender learns how that went.
    FlushAndStop(Sender<Result<(), SnapshotError>>),
}

/// What someone who waits for a snapshot is to be told.
pub struct Notice {
    pub to: Sender<Result<(), SnapshotError>>,
    pub result: Result<(), SnapshotError>,
}

/// What the snapshot writer does next.
pub enum Step {
    /// Waits for the next command, or for the debounce timer.
    Wait,
    /// Saves a snapshot at once and reports it with
    /// [`Snapshotter::on_persisted`].
    Persist,
    /// Saves a snapshot at once, reports it with [`Snapshotter::on_persisted`],
    /// tells the sender too, and stops.
    PersistAndStop(Sender<Result<(), SnapshotError>>),
    /// Delivers the notices and stops.
    Stop(Vec<Notice>),
}

/// The tasks that learn the outcome of a write after which the change
/// `durable_seq` is saved: those whose change is saved, or all where the write
/// failed.
pub open spec fn is_resolved(
    waiter: (u64, Sender<Result<(), SnapshotError>>),
    durable_seq: u64,
    result: Result<(), SnapshotError>,
) -> bool {
    waiter.0 <= durable_seq || result is Err
}

/// The notices that those tasks get.
pub open spec fn notices_for(
    waiters: Seq<(u64, Sender<Result<(), SnapshotError>>)>,
    durable_seq: u64,
    result: Result<(), SnapshotError>,
) -> Seq<Notice> {
    waiters.filter(
        |w: (u64, Sender<Result<(), SnapshotError>>)| is_resolved(w, durable_seq, result),
    ).map_values(|w: (u64, Sender<Result<(), SnapshotError>>)| Notice { to: w.1, result })
}

/// The tasks that go on waiting.
pub open spec fn still_waiting(
    waiters: Seq<(u64, Sender<Result<(), SnapshotError>>)>,
    durable_seq: u64,
    result: Result<(), SnapshotError>,
) -> Seq<(u64, Sender<Result<(), SnapshotError>>)> {
    waiters.filter(
        |w: (u64, Sender<Result<(), SnapshotError>>)| !is_resolved(w, durable_seq, result),
    )
}

/// A copy of the outcome of a write.
fn clone_result(result: &Result<(), SnapshotError>) -> (res: Result<(), SnapshotError>)
    ensures
        res == *result,
{
    match result {
        Ok(saved) => Ok(*saved),
        Err(e) => Err(e.clone()),
    }
}

/// Takes the tasks that learn the outcome of a write off the list, and returns
/// what to tell them.
pub fn resolve_waiters(
    waiters: &mut Vec<(u64, Sender<Result<(), SnapshotError>>)>,
    durable_seq: u64,
    result: &Result<(), SnapshotError>,
) -> (res: Vec<Notice>)
    ensures
        res@ == notices_for(old(waiters)@, durable_seq, *result),
        final(waiters)@ == still_waiting(old(waiters)@, durable_seq, *result),
{
    let ghost all = waiters@;
    let ghost done = |w: (u64, Sender<Result<(), SnapshotError>>)|
        is_resolved(w, durable_seq, *result);
    let ghost left = |w: (u64, Sender<Result<(), SnapshotError>>)|
        !is_resolved(w, durable_seq, *result);
    let ghost mut seen: int = 0;
    let mut notices: Vec<Notice> = Vec::new();
    let mut i: usize = 0;
    proof {
        reveal(Seq::filter);
        assert(all.take(0) =~= Seq::empty());
        assert(notices@ =~= notices_for(all.take(0), durable_seq, *result));
        assert(waiters@.take(0) =~= all.take(0).filter(left));
        assert(waiters@.skip(0) =~= all.skip(0));
    }
    while i < waiters.len()
        invariant
            0 <= i <= waiters@.len(),
            0 <= seen <= all.len(),
            done == (|w: (u64, Sender<Result<(), SnapshotError>>)|
                is_resolved(w, durable_seq, *result)),
            left == (|w: (u64, Sender<Result<(), SnapshotError>>)|
                !is_resolved(w, durable_seq, *result)),
            notices@ == notices_for(all.take(seen), durable_seq, *result),
            waiters@.take(i as int) == all.take(seen).filter(left),
            waiters@.skip(i as int) == all.skip(seen),
        decreases waiters@.len() - i,
    {
        let ghost before = waiters@;
        proof {
            assert(before.skip(i as int)[0] == before[i as int]);
            assert(before.skip(i as int).len() == all.skip(seen).len());
            assert(all.skip(seen)[0] == all[seen]);
            assert(all.take(seen + 1) =~= all.take(seen).push(all[seen]));
            filter_push(all.take(seen), done, all[seen]);
            filter_push(all.take(seen), left, all[seen]);
            assert(all.skip(seen + 1) =~= all.skip(seen).skip(1));
            seen = seen + 1;
        }
        if waiters[i].0 <= durable_seq || result.is_err() {
            let waiter = waiters.remove(i);
            notices.push(Notice { to: waiter.1, result: clone_result(result) });
            assert(waiters@.take(i as int) =~= before.take(i as int));
            assert(waiters@.skip(i as int) =~= before.skip(i as int).skip(1));
            assert(notices@ =~= notices_for(all.take(seen), durable_seq, *result));
        } else {
            i = i + 1;
            assert(waiters@.take(i as int) =~= before.take(i - 1).push(before[i - 1]));
            assert(waiters@.skip(i as int) =~= before.skip(i - 1).skip(1));
        }
    }
    proof {
        assert(waiters@.skip(i as int).len() == 0);
        assert(all.take(seen) =~= all);
        assert(waiters@.take(i as int) =~= waiters@);
    }
    notices
}

/// The state of the snapshot writer. Changes are numbered; `dirty_seq` is the
/// last one made and `durable_seq` the last one saved.
pub struct Snapshotter {
    pub dirty_seq: u64,
    pub durable_seq: u64,
    /// Who waits for which change.
    pub waiters: Vec<(u64, Sender<Result<(), SnapshotError>>)>,
}

impl Snapshotter {
    /// Nothing is saved before it is made, and nobody waits for a change that
    /// was not made or is saved already.
    pub open spec fn wf(self) -> bool {
        &&& self.durable_seq <= self.dirty_seq
        &&& forall|i: int|
            0 <= i < self.waiters@.len() ==> self.durable_seq < (
            #[trigger] self.waiters@[i]).0 <= self.dirty_seq
    }

    pub fn new() -> (res: Self)
        ensures
            res.dirty_seq == 0,
            res.durable_seq == 0,
            res.waiters@.len() == 0,
            res.wf(),
    {
        Snapshotter { dirty_seq: 0, durable_seq: 0, waiters: Vec::new() }
    }

    /// Whether something is not saved yet, so that the debounce timer runs.
    pub fn debounce_pending(&self) -> (res: bool)
        ensures
            res == (self.dirty_seq > self.durable_seq),
    {
        self.dirty_seq > self.durable_seq
    }

    /// What to do on a command. A change counts as made; one that somebody
    /// waits for is saved at once.
    pub fn on_command(&mut self, command: Command) -> (res: Step)
        requires
            command is FlushAndStop || old(self).dirty_seq < u64::MAX,
        ensures
            final(self).durable_seq == old(self).durable_seq,
            match command {
                Command::Mutate => {
                    &&& res is Wait
                    &&& final(self).dirty_seq == old(self).dirty_seq + 1
                    &&& final(self).waiters == old(self).waiters
                },
                Command::Terminal(to) => {
                    &&& res is Persist
                    &&& final(self).dirty_seq == old(self).dirty_seq + 1
                    &&& final(self).waiters@ == old(self).waiters@.push(
                        ((old(self).dirty_seq + 1) as u64, to),
                    )
                },
                Command::FlushAndStop(to) => {
                    &&& final(self).dirty_seq == old(self).dirty_seq
                    &&& if old(self).dirty_seq > old(self).durable_seq {
                        res == Step::PersistAndStop(to) && final(self).waiters == old(self).waiters
                    } else {
                        &&& res matches Step::Stop(notices)
                        &&& notices@ == notices_for(
                            old(self).waiters@,
                            old(self).durable_seq,
                            Ok(()),
                        ).push(Notice { to, result: Ok(()) })
                        &&& final(self).waiters@ == still_waiting(
                            old(self).waiters@,
                            old(self).durable_seq,
                            Ok(()),
                        )
                    }
                },
            },
            old(self).wf() ==> final(self).wf(),
    {
        match command {
            Command::Mutate => {
                self.dirty_seq = self.dirty_seq + 1;
                Step::Wait
            },
            Command::Terminal(to) => {
                self.dirty_seq = self.dirty_seq + 1;
                self.waiters.push((self.dirty_seq, to));
                Step::Persist
            },
            Command::FlushAndStop(to) => {
                if self.dirty_seq > self.durable_seq {
                    Step::PersistAndStop(to)
                } else {
                    let mut notices = resolve_waiters(&mut self.waiters, self.durable_seq, &Ok(()));
                    notices.push(Notice { to, result: Ok(()) });
                    proof {
                        if old(self).wf() {
                            assert(old(self).waiters@.len() == 0) by {
                                if old(self).waiters@.len() > 0 {
                                    assert(old(self).durable_seq < old(self).waiters@[0].0);
                                }
                            }
                            reveal(Seq::filter);
                        }
                    }
                    Step::Stop(notices)
                }
            },
        }
    }

    /// A snapshot was written, or could not be. Whoever waited for a change
    /// that it holds is told so; where it failed, everybody who waits is.
    pub fn on_persisted(&mut self, result: &Result<(), SnapshotError>) -> (res: Vec<Notice>)
        ensures
            final(self).dirty_seq == old(self).dirty_seq,
            final(self).durable_seq == if result is Ok {
                old(self).dirty_seq
            } else {
                old(self).durable_seq
            },
            res@ == notices_for(old(self).waiters@, final(self).durable_seq, *result),
            final(self).waiters@ == still_waiting(
                old(self).waiters@,
                final(self).durable_seq,
                *result,
            ),
            old(self).wf() ==> final(self).wf() && everyone_is_told(*old(self), res@, *result)
                && final(self).waiters@.len() == 0,
    {
        if result.is_ok() {
            self.durable_seq = self.dirty_seq;
        }
        let notices = resolve_waiters(&mut self.waiters, self.durable_seq, result);
        proof {
            if old(self).wf() {
                let waiters = old(self).waiters@;
                let durable = self.durable_seq;
                assert forall|i: int| 0 <= i < waiters.len() implies is_resolved(
                    #[trigger] waiters[i],
                    durable,
                    *result,
                ) by {}
                all_resolved(waiters, durable, *result);
            }
        }
        notices
    }
}

/// Everybody who waits gets one notice, in turn, with the outcome of the write.
pub open spec fn everyone_is_told(
    writer: Snapshotter,
    notices: Seq<Notice>,
    result: Result<(), SnapshotError>,
) -> bool {
    notices == writer.waiters@.map_values(
        |w: (u64, Sender<Result<(), SnapshotError>>)| Notice { to: w.1, result },
    )
}

/// Where every change waited for is saved, nobody goes on waiting.
proof fn all_resolved(
    waiters: Seq<(u64, Sender<Result<(), SnapshotError>>)>,
    durable_seq: u64,
    result: Result<(), SnapshotError>,
)
    requires
        forall|i: int|
            0 <= i < waiters.len() ==> is_resolved(#[trigger] waiters[i], durable_seq, result),
    ensures
        notices_for(waiters, durable_seq, result) == waiters.map_values(
            |w: (u64, Sender<Result<(), SnapshotError>>)| Notice { to: w.1, result },
        ),
        still_waiting(waiters, durable_seq, result).len() == 0,
    decreases waiters.len(),
{
    let done = |w: (u64, Sender<Result<(), SnapshotError>>)| is_resolved(w, durable_seq, result);
    let left = |w: (u64, Sender<Result<(), SnapshotError>>)| !is_resolved(w, durable_seq, result);
    if waiters.len() > 0 {
        let init = waiters.drop_last();
        let last = waiters.last();
        assert forall|i: int| 0 <= i < init.len() implies is_resolved(
            #[trigger] init[i],
            durable_seq,
            result,
        ) by {
            assert(waiters[i] == init[i]);
        }
        assert(is_resolved(waiters[waiters.len() - 1], durable_seq, result));
        all_resolved(init, durable_seq, result);
        assert(waiters =~= init.push(last));
        filter_push(init, done, last);
        filter_push(init, left, last);
        assert(notices_for(waiters, durable_seq, result) =~= notices_for(
            init,
            durable_seq,
            result,
        ).push(Notice { to: last.1, result }));
    } else {
        reveal(Seq::filter);
    }
    assert(notices_for(waiters, durable_seq, result) =~= waiters.map_values(
        |w: (u64, Sender<Result<(), SnapshotError>>)| Notice { to: w.1, result },
    ));
}

/// What became of a command that asks for a reply.
pub enum Answer {
    /// The writer no longer takes commands.
    NotSent,
    /// The writer went away without a reply.
    Dropped,
    Received(Result<(), SnapshotError>),
}

/// Whether a change that somebody waits for was saved.
pub fn terminal_result(answer: Answer) -> (res: Result<(), SnapshotError>)
    ensures
        match answer {
            Answer::NotSent => res matches Err(e) && e.0@ == "snapshot writer is stopped"@,
            Answer::Dropped => res matches Err(e) && e.0@
                == "snapshot writer dropped the request"@,
            Answer::Received(result) => res == result,
        },
{
    match answer {
        Answer::NotSent => Err(SnapshotError("snapshot writer is stopped".to_string())),
        Answer::Dropped => Err(SnapshotError("snapshot writer dropped the request".to_string())),
        Answer::Received(result) => result,
    }
}

/// How the last write went; `None` stands for an answer that did not come in
/// time. A writer that has stopped already has nothing left to save.
pub fn flush_result(answer: Option<Answer>) -> (res: Result<(), SnapshotError>)
    ensures
        match answer {
            Some(Answer::NotSent) | Some(Answer::Dropped) => res is Ok,
            Some(Answer::Received(result)) => res == result,
            None => res matches Err(e) && e.0@ == "snapshot flush timed out"@,
        },
{
    match answer {
        Some(Answer::NotSent) | Some(Answer::Dropped) => Ok(()),
        Some(Answer::Received(result)) => result,
        None => Err(SnapshotError("snapshot flush timed out".to_string())),
    }
}

} // verus!
