//! The table of rooms, by session id, and the limits on making them: how many
//! one client address may own, and how many there may be in all.
//!
//! A connection keeps a [`RoomHandle`] of the room that it is in. The handle
//! goes on meaning that room after the room was taken off the table, when
//! another may have been made under the same session id.

use crate::clock::{Now, WallTime};
use crate::error::ClientError;
use crate::id_map::{
    entry_is_found, filter_push, others, position, put, put_then_lookup, unique_keys, without,
    IdMap,
};
use crate::ids::Verifier;
use crate::key_map::KeyMap;
use crate::protocol::{ClientMessage, ServerMessage};
use crate::registry::model::{
    changed_rooms, claimed, counted, due_rooms, gone_room, is_due, kept_rooms, released, released_all,
    rooms_read_back, saved_prefix, sweep_changes, tokens_of_all, Creation, HandleView,
    RegistryOutcome, RegistryView, RoomEntry,
};
use crate::room::model::{queues_of, refusal, tokens_of, RoomView};
use crate::room::{
    evictions, Admission, Effects, Eviction, RoomState, EMPTY_ROOM_MAX_AGE, ROOM_MAX_AGE,
};
use crate::snapshot::{
    build_room_dto, restored_rooms, room_dtos, verifiers_read_back, RestoredRoom, RoomDto,
};
use crate::text::{opt_string_view, str_eq};
use tokio::sync::mpsc::Sender;
use vstd::prelude::*;

pub mod laws;
pub mod model;
pub mod table_laws;

verus! {

/// How many rooms one client address may own.
pub const MAX_ROOMS_PER_IP: usize = 3;

/// How many rooms there may be.
pub const MAX_RETAINED_ROOMS: usize = 2000;

/// A room of the table.
pub struct Room {
    /// Tells this room from earlier ones under the same session id.
    pub id: u64,
    pub state: RoomState,
}

impl View for Room {
    type V = RoomEntry;

    open spec fn view(&self) -> RoomEntry {
        RoomEntry { id: self.id, room: self.state@ }
    }
}

/// Which room a connection is in.
pub struct RoomHandle {
    pub session_id: String,
    pub id: u64,
}

impl View for RoomHandle {
    type V = HandleView;

    open spec fn view(&self) -> HandleView {
        HandleView { session_id: self.session_id@, id: self.id }
    }
}

impl Clone for RoomHandle {
    fn clone(&self) -> (res: Self)
        ensures
            res@ == self@,
    {
        RoomHandle { session_id: self.session_id.clone(), id: self.id }
    }
}

impl RoomHandle {
    /// Whether both handles mean the same room.
    pub fn same_room(&self, other: &RoomHandle) -> (res: bool)
        ensures
            res == (self@ == other@),
    {
        self.id == other.id && str_eq(self.session_id.as_str(), other.session_id.as_str())
    }
}

/// The content of an optional handle.
pub open spec fn opt_handle_view(handle: Option<RoomHandle>) -> Option<HandleView> {
    match handle {
        Some(handle) => Some(handle@),
        None => None,
    }
}

/// The rooms that are meant by the handles of a list.
pub open spec fn handles_view(list: Seq<RoomHandle>) -> Seq<HandleView> {
    list.map_values(|h: RoomHandle| h@)
}

/// The handles of the rooms of a table.
pub open spec fn handles_of(rooms: Seq<(Seq<char>, RoomEntry)>) -> Seq<HandleView> {
    rooms.map_values(
        |e: (Seq<char>, RoomEntry)| HandleView { session_id: e.0, id: e.1.id },
    )
}

pub struct Registry {
    rooms: IdMap<Room>,
    /// Rooms that were taken off the table and go on for those who are in them,
    /// by number. The rooms whose `endSession` is being saved are among them.
    unlisted: KeyMap<u64, RoomState>,
    rooms_per_ip: IdMap<usize>,
    next_room_id: u64,
}

impl View for Registry {
    type V = RegistryView;

    closed spec fn view(&self) -> RegistryView {
        RegistryView {
            rooms: self.rooms@,
            unlisted: self.unlisted@,
            rooms_per_ip: self.rooms_per_ip@,
            next_room_id: self.next_room_id,
        }
    }
}

/// Putting the room that is meant back in its place changes nothing.
proof fn unchanged_room(registry: RegistryView, handle: HandleView)
    ensures
        registry.with_room_at(handle, registry.room_at(handle)) == registry,
{
    let same = registry.with_room_at(handle, registry.room_at(handle));
    assert(same.rooms =~= registry.rooms);
    assert(same.unlisted =~= registry.unlisted);
}

/// Closing a room in its place and then moving it is what the beginning of its
/// end does.
proof fn end_begun_in_steps(registry: RegistryView, handle: HandleView)
    requires
        unique_keys(registry.rooms),
        !registry.room_at(handle).closing,
    ensures
        ({
            let closed = registry.with_room_at(handle, registry.room_at(handle).closed());
            &&& closed.is_current(handle) == registry.is_current(handle)
            &&& registry.is_current(handle) ==> without(closed.rooms, handle.session_id)
                == without(registry.rooms, handle.session_id)
            &&& !registry.is_current(handle) ==> closed.unlisted == put(
                registry.unlisted,
                handle.id,
                registry.room_at(handle).closed(),
            )
        }),
{
    let room = registry.room_at(handle);
    put_then_lookup(
        registry.rooms,
        handle.session_id,
        RoomEntry { id: handle.id, room: room.closed() },
    );
    if registry.is_current(handle) {
        let closed = registry.with_room_at(handle, room.closed());
        entry_is_found(closed.rooms, position(registry.rooms, handle.session_id));
        assert(without(closed.rooms, handle.session_id) =~= without(
            registry.rooms,
            handle.session_id,
        ));
    }
}

impl Registry {
    pub fn new() -> (res: Self)
        ensures
            res@ == RegistryView::empty(),
    {
        let res = Registry {
            rooms: IdMap::new(),
            unlisted: KeyMap::new(),
            rooms_per_ip: IdMap::new(),
            next_room_id: 0,
        };
        assert(res@ =~= RegistryView::empty());
        res
    }

    /// The room that can be joined under `session_id`.
    pub fn get(&self, session_id: &str) -> (res: Option<RoomHandle>)
        ensures
            opt_handle_view(res) == self@.get(session_id@),
    {
        match self.rooms.get(session_id) {
            Some(room) => Some(RoomHandle { session_id: session_id.to_string(), id: room.id }),
            None => None,
        }
    }

    pub fn room_count(&self) -> (res: usize)
        ensures
            res == self@.rooms.len(),
    {
        self.rooms.len()
    }

    /// The handles of all rooms that can be joined.
    pub fn all_rooms(&self) -> (res: Vec<RoomHandle>)
        ensures
            handles_view(res@) == handles_of(self@.rooms),
    {
        let mut res: Vec<RoomHandle> = Vec::new();
        let mut i: usize = 0;
        while i < self.rooms.len()
            invariant
                i <= self.rooms@.len(),
                res@.len() == i,
                forall|j: int|
                    0 <= j < i ==> (#[trigger] res@[j])@ == handles_of(self.rooms@)[j],
            decreases self.rooms@.len() - i,
        {
            res.push(
                RoomHandle {
                    session_id: self.rooms.key_at(i).clone(),
                    id: self.rooms.value_at(i).id,
                },
            );
            i = i + 1;
        }
        assert(handles_view(res@) =~= handles_of(self@.rooms));
        res
    }

    /// Whether there are numbers left for a room under `session_id` and for a
    /// connection to it.
    pub fn can_admit(&self, session_id: &str) -> (res: bool)
        ensures
            res == self@.can_admit(session_id@),
    {
        self.next_room_id < u64::MAX && match self.rooms.get(session_id) {
            Some(room) => room.state.next_conn_id < u64::MAX,
            None => true,
        }
    }

    /// Whether the room is the one that can be joined under its session id.
    fn is_current(&self, handle: &RoomHandle) -> (res: bool)
        ensures
            res == self@.is_current(handle@),
            unique_keys(self@.rooms),
    {
        match self.rooms.get(handle.session_id.as_str()) {
            Some(room) => room.id == handle.id,
            None => false,
        }
    }

    /// The room that is meant, to be changed in place; `None` for one that is
    /// no longer kept.
    fn room_mut(&mut self, handle: &RoomHandle) -> (res: Option<&mut RoomState>)
        ensures
            match res {
                Some(state) => {
                    &&& state@ == old(self)@.room_at(handle@)
                    &&& final(self)@ == old(self)@.with_room_at(handle@, final(state)@)
                },
                None => {
                    &&& old(self)@.room_at(handle@) == gone_room(handle@.session_id)
                    &&& final(self)@ == old(self)@
                    &&& forall|room: RoomView| #[trigger]
                        old(self)@.with_room_at(handle@, room) == old(self)@
                },
            },
            unique_keys(old(self)@.rooms),
    {
        if self.is_current(handle) {
            match self.rooms.get_mut(handle.session_id.as_str()) {
                Some(room) => Some(&mut room.state),
                None => None,
            }
        } else {
            self.unlisted.get_mut(handle.id)
        }
    }

    /// Takes a room off the table, if it is the one that can be joined under
    /// its session id, and adjusts its owner's count. Returns whether it was.
    /// Those who are in the room go on in it.
    pub fn remove_if_current(&mut self, handle: &RoomHandle) -> (res: bool)
        ensures
            res == old(self)@.is_current(handle@),
            final(self)@ == if res {
                old(self)@.with_room_unlisted(handle@.session_id)
            } else {
                old(self)@
            },
    {
        if !self.is_current(handle) {
            return false;
        }
        if let Some(room) = self.rooms.remove(handle.session_id.as_str()) {
            self.release_room_quota(room.state.owner_ip_key.as_str());
            self.unlisted.insert(room.id, room.state);
        }
        assert(self@ =~= old(self)@.with_room_unlisted(handle@.session_id));
        true
    }

    /// Gives up the room under `session_id`, if there is one, and adjusts its
    /// owner's count.
    fn drop_room(&mut self, session_id: &str)
        ensures
            final(self)@ == old(self)@.without_room(session_id@),
    {
        if let Some(room) = self.rooms.remove(session_id) {
            self.release_room_quota(room.state.owner_ip_key.as_str());
        }
        assert(self@ =~= old(self)@.without_room(session_id@));
    }

    /// Counts one room fewer for `owner_ip_key`.
    fn release_room_quota(&mut self, owner_ip_key: &str)
        ensures
            final(self)@ == (RegistryView {
                rooms_per_ip: released(old(self)@.rooms_per_ip, owner_ip_key@),
                ..old(self)@
            }),
    {
        let count = match self.rooms_per_ip.get(owner_ip_key) {
            Some(count) => *count,
            None => {
                return ;
            },
        };
        if count <= 1 {
            self.rooms_per_ip.remove(owner_ip_key);
        } else {
            self.rooms_per_ip.insert(owner_ip_key.to_string(), count - 1);
        }
    }

    /// Counts one room more for `owner_ip_key`, within the limit. Returns
    /// whether there was room for it.
    fn try_claim_room_quota(&mut self, owner_ip_key: &str) -> (res: bool)
        ensures
            res == (counted(old(self)@.rooms_per_ip, owner_ip_key@) < MAX_ROOMS_PER_IP),
            final(self)@ == if res {
                (RegistryView {
                    rooms_per_ip: claimed(old(self)@.rooms_per_ip, owner_ip_key@),
                    ..old(self)@
                })
            } else {
                old(self)@
            },
    {
        let count: usize = match self.rooms_per_ip.get(owner_ip_key) {
            Some(count) => *count,
            None => 0,
        };
        if count >= MAX_ROOMS_PER_IP {
            return false;
        }
        self.rooms_per_ip.insert(owner_ip_key.to_string(), count + 1);
        true
    }

    /// Takes in the rooms of a snapshot. Their owners were not saved: they
    /// count for the empty address.
    pub fn restore(&mut self, restored: Vec<RestoredRoom>)
        requires
            old(self)@.next_room_id + restored@.len() <= u64::MAX,
            counted(old(self)@.rooms_per_ip, ""@) + restored@.len() <= usize::MAX,
        ensures
            final(self)@ == old(self)@.restored(
                restored_rooms(restored@),
                restored@.len() as int,
            ),
    {
        let ghost all = restored_rooms(restored@);
        let ghost start = self@;
        for r in it: restored
            invariant
                all.len() == it.seq().len(),
                forall|j: int| 0 <= j < all.len() ==> all[j] == (#[trigger] it.seq()[j])@,
                self@ == start.restored(all, it.index()),
                start.next_room_id + all.len() <= u64::MAX,
                counted(start.rooms_per_ip, ""@) + all.len() <= usize::MAX,
                self@.next_room_id == start.next_room_id + it.index(),
                counted(self@.rooms_per_ip, ""@) == counted(start.rooms_per_ip, ""@) + it.index(),
        {
            let ghost before = self@;
            let owner_ip_key = "".to_string();
            let count: usize = match self.rooms_per_ip.get(owner_ip_key.as_str()) {
                Some(count) => *count,
                None => 0,
            };
            let state = RoomState::restore(
                r.session_id.clone(),
                r.host_peer_id,
                r.host_verifier,
                "".to_string(),
                r.reservations,
                r.created_at,
                r.last_activity_at,
            );
            self.rooms.insert(r.session_id, Room { id: self.next_room_id, state });
            proof {
                put_then_lookup(self.rooms_per_ip@, ""@, (count + 1) as usize);
            }
            self.rooms_per_ip.insert(owner_ip_key, count + 1);
            self.next_room_id = self.next_room_id + 1;
            assert(self@ =~= before.with_new_room(r@.session_id, state@));
        }
    }

    /// Makes a room with the caller as its host. A caller who is the host of
    /// the room there is gets it back; a room that nobody is connected to makes
    /// way; any other room is in the way. A new room is made within the limits
    /// only.
    pub fn create(
        &mut self,
        session_id: &str,
        host_peer_id: &str,
        presented_token: &str,
        owner_ip_key: &str,
        admission: Admission,
        now: Now,
    ) -> (res: (Option<RoomHandle>, Effects))
        requires
            old(self)@.can_admit(session_id@),
        ensures
            (Creation {
                registry: final(self)@,
                handle: opt_handle_view(res.0),
                effects: res.1@,
            }) == old(self)@.create(
                session_id@,
                host_peer_id@,
                presented_token@,
                owner_ip_key@,
                admission@,
                now,
                res.1.assigned_cancel->0,
            ),
    {
        let host_verifier = match Verifier::from_token(presented_token) {
            Some(v) => v,
            None => {
                return (
                    None,
                    Effects::error(ClientError::InvalidMessage, "Invalid reconnect token"),
                );
            },
        };
        if let Some(room) = self.rooms.get(session_id) {
            let id = room.id;
            let reclaimable = room.state.is_reclaimable();
            let idempotent = !room.state.closing && str_eq(
                room.state.host_peer_id.as_str(),
                host_peer_id,
            ) && room.state.host_verifier.matches(&host_verifier);
            if idempotent {
                let handle = RoomHandle { session_id: session_id.to_string(), id };
                if let Some(state) = self.room_mut(&handle) {
                    let effects = state.reconnect_host(
                        admission,
                        presented_token.to_string(),
                        now,
                    );
                    return (Some(handle), effects);
                }
            }
            if !reclaimable {
                return (None, Effects::error(ClientError::RoomExists, "Room already exists"));
            }
            self.drop_room(session_id);
        }
        let ghost freed = self@;
        if self.rooms.len() >= MAX_RETAINED_ROOMS {
            return (None, Effects::error(ClientError::RateLimited, "Too many retained rooms"));
        }
        if !self.try_claim_room_quota(owner_ip_key) {
            return (None, Effects::error(ClientError::RateLimited, "Too many rooms created"));
        }
        let (state, effects) = RoomState::new_room(
            session_id.to_string(),
            host_peer_id.to_string(),
            host_verifier,
            presented_token.to_string(),
            owner_ip_key.to_string(),
            admission,
            now,
        );
        let id = self.next_room_id;
        self.rooms.insert(session_id.to_string(), Room { id, state });
        self.next_room_id = id + 1;
        assert(self@ =~= freed.with_new_room(session_id@, state@));
        (Some(RoomHandle { session_id: session_id.to_string(), id }), effects)
    }

    /// First phase of `endSession`: the room can no longer be joined and no
    /// longer counts for its owner. Returns the guests' queues.
    pub fn begin_end_session(
        &mut self,
        handle: &RoomHandle,
        peer_id: &str,
        conn_id: u64,
        token: &str,
        protocol_version: u32,
    ) -> (res: Result<Vec<Sender<ServerMessage>>, Effects>)
        ensures
            match res {
                Ok(guests) => {
                    &&& old(self)@.room_at(handle@).may_end_session(
                        peer_id@,
                        conn_id,
                        token@,
                        protocol_version,
                    )
                    &&& guests@ == queues_of(
                        others(old(self)@.room_at(handle@).peers, peer_id@),
                    )
                    &&& final(self)@ == old(self)@.end_begun(handle@)
                },
                Err(effects) => {
                    &&& !old(self)@.room_at(handle@).may_end_session(
                        peer_id@,
                        conn_id,
                        token@,
                        protocol_version,
                    )
                    &&& effects@ == refusal(
                        ClientError::PeerIdUnavailable,
                        "Unable to end room"@,
                    )
                    &&& final(self)@ == old(self)@
                },
            },
    {
        let begun = match self.room_mut(handle) {
            Some(state) => state.begin_end_session(peer_id, conn_id, token, protocol_version),
            None => Err(Effects::error(ClientError::PeerIdUnavailable, "Unable to end room")),
        };
        let (owner_ip_key, guests) = match begun {
            Ok(ok) => ok,
            Err(effects) => {
                proof {
                    unchanged_room(old(self)@, handle@);
                }
                return Err(effects);
            },
        };
        if self.is_current(handle) {
            if let Some(room) = self.rooms.remove(handle.session_id.as_str()) {
                self.unlisted.insert(handle.id, room.state);
            }
        }
        self.release_room_quota(owner_ip_key.as_str());
        proof {
            end_begun_in_steps(old(self)@, handle@);
        }
        assert(self@ =~= old(self)@.end_begun(handle@));
        Ok(guests)
    }

    /// Second phase of `endSession`, once it is known whether the snapshot was
    /// saved. Everyone is shut down and the room is gone.
    pub fn finish_end_session(
        &mut self,
        handle: &RoomHandle,
        guests: Vec<Sender<ServerMessage>>,
        persisted: bool,
    ) -> (res: Effects)
        ensures
            (RegistryOutcome { registry: final(self)@, effects: res@ }) == old(self)@.end_finished(
                handle@,
                guests@,
                persisted,
            ),
    {
        let mut state = match self.unlisted.remove(handle.id) {
            Some(state) => state,
            None => {
                return Default::default();
            },
        };
        let effects = state.finish_end_session(guests, persisted);
        assert(self@ =~= old(self)@.end_finished(handle@, guests@, persisted).registry);
        effects
    }

    /// A client asks to join a room, or to resume an identity that it has there.
    pub fn join_or_resume(
        &mut self,
        handle: &RoomHandle,
        msg: &ClientMessage,
        admission: Admission,
        resume_only: bool,
        now: Now,
    ) -> (res: Effects)
        requires
            old(self)@.room_at(handle@).next_conn_id < u64::MAX,
        ensures
            ({
                let outcome = old(self)@.room_at(handle@).join_or_resume(
                    msg@,
                    admission@,
                    resume_only,
                    now,
                    res.assigned_cancel->0,
                );
                &&& final(self)@ == old(self)@.with_room_at(handle@, outcome.room)
                &&& res@ == outcome.effects
            }),
    {
        match self.room_mut(handle) {
            Some(state) => state.join_or_resume(msg, admission, resume_only, now),
            None => Effects::error(ClientError::RoomNotFound, "Room does not exist"),
        }
    }

    /// First phase of `leave` in a room.
    pub fn begin_leave(
        &mut self,
        handle: &RoomHandle,
        peer_id: &str,
        conn_id: u64,
        token: &str,
        protocol_version: u32,
    ) -> (res: Result<(), Effects>)
        ensures
            ({
                let room = old(self)@.room_at(handle@);
                match res {
                    Ok(()) => {
                        &&& room.may_leave(peer_id@, conn_id, token@, protocol_version)
                        &&& final(self)@ == old(self)@.with_room_at(
                            handle@,
                            room.with_release(peer_id@, true),
                        )
                    },
                    Err(effects) => {
                        &&& !room.may_leave(peer_id@, conn_id, token@, protocol_version)
                        &&& final(self)@ == old(self)@
                        &&& effects@ == refusal(
                            ClientError::PeerIdUnavailable,
                            "Unable to release peer identity"@,
                        )
                    },
                }
            }),
    {
        proof {
            unchanged_room(self@, handle@);
        }
        match self.room_mut(handle) {
            Some(state) => state.begin_leave(peer_id, conn_id, token, protocol_version),
            None => Err(
                Effects::error(ClientError::PeerIdUnavailable, "Unable to release peer identity"),
            ),
        }
    }

    /// Second phase of `leave` in a room.
    pub fn finish_leave(
        &mut self,
        handle: &RoomHandle,
        peer_id: &str,
        conn_id: u64,
        persisted: bool,
        now: WallTime,
    ) -> (res: Effects)
        ensures
            ({
                let outcome = old(self)@.room_at(handle@).leave_finished(
                    peer_id@,
                    conn_id,
                    persisted,
                    now,
                );
                &&& final(self)@ == old(self)@.with_room_at(handle@, outcome.room)
                &&& res@ == outcome.effects
            }),
    {
        match self.room_mut(handle) {
            Some(state) => state.finish_leave(peer_id, conn_id, persisted, now),
            None => Default::default(),
        }
    }

    /// A peer of a room asks that `target_peer_id` take over as host.
    pub fn transfer_host(
        &mut self,
        handle: &RoomHandle,
        peer_id: &str,
        conn_id: u64,
        protocol_version: u32,
        target_peer_id: &str,
    ) -> (res: Effects)
        ensures
            ({
                let outcome = old(self)@.room_at(handle@).transfer_host(
                    peer_id@,
                    conn_id,
                    protocol_version,
                    target_peer_id@,
                );
                &&& final(self)@ == old(self)@.with_room_at(handle@, outcome.room)
                &&& res@ == outcome.effects
            }),
    {
        match self.room_mut(handle) {
            Some(state) => state.transfer_host(peer_id, conn_id, protocol_version, target_peer_id),
            None => Effects::error(
                ClientError::PeerIdUnavailable,
                "Unable to transfer host authority",
            ),
        }
    }

    /// A peer of a room sends a payload to every other one.
    pub fn broadcast(
        &mut self,
        handle: &RoomHandle,
        sender_id: &str,
        conn_id: u64,
        payload: Option<String>,
        now: WallTime,
    ) -> (res: Effects)
        ensures
            ({
                let outcome = old(self)@.room_at(handle@).broadcast(
                    sender_id@,
                    conn_id,
                    opt_string_view(payload),
                    now,
                );
                &&& final(self)@ == old(self)@.with_room_at(handle@, outcome.room)
                &&& res@ == outcome.effects
            }),
    {
        match self.room_mut(handle) {
            Some(state) => state.broadcast(sender_id, conn_id, payload, now),
            None => Default::default(),
        }
    }

    /// A peer of a room sends a payload to one other.
    pub fn send_to(
        &mut self,
        handle: &RoomHandle,
        sender_id: &str,
        conn_id: u64,
        target_id: &str,
        payload: Option<String>,
        now: WallTime,
    ) -> (res: Effects)
        ensures
            ({
                let outcome = old(self)@.room_at(handle@).send_to(
                    sender_id@,
                    conn_id,
                    target_id@,
                    opt_string_view(payload),
                    now,
                );
                &&& final(self)@ == old(self)@.with_room_at(handle@, outcome.room)
                &&& res@ == outcome.effects
            }),
    {
        match self.room_mut(handle) {
            Some(state) => state.send_to(sender_id, conn_id, target_id, payload, now),
            None => Default::default(),
        }
    }

    /// A connection to a room went away without a `leave`.
    pub fn disconnect(
        &mut self,
        handle: &RoomHandle,
        peer_id: &str,
        conn_id: u64,
        now: Now,
    ) -> (res: Effects)
        ensures
            ({
                let outcome = old(self)@.room_at(handle@).disconnected(peer_id@, conn_id, now);
                &&& final(self)@ == old(self)@.with_room_at(handle@, outcome.room)
                &&& res@ == outcome.effects
            }),
    {
        match self.room_mut(handle) {
            Some(state) => state.handle_disconnect(peer_id, conn_id, now),
            None => Default::default(),
        }
    }

    /// What is saved of the rooms: all but those that are closing.
    pub fn build_snapshot(&self, now: Now) -> (res: Vec<RoomDto>)
        ensures
            room_dtos(res@) == saved_prefix(self@.rooms, self@.rooms.len() as int, now),
            rooms_read_back(self@.rooms),
    {
        let ghost rooms = self@.rooms;
        let mut dtos: Vec<RoomDto> = Vec::new();
        let mut i: usize = 0;
        assert(room_dtos(dtos@) =~= saved_prefix(rooms, 0, now));
        while i < self.rooms.len()
            invariant
                i <= rooms.len(),
                rooms == self.rooms@,
                room_dtos(dtos@) == saved_prefix(rooms, i as int, now),
                forall|j: int|
                    0 <= j < i && !rooms[j].1.room.closing ==> verifiers_read_back(
                        (#[trigger] rooms[j]).1.room.host_verifier,
                        rooms[j].1.room.reservations,
                    ),
            decreases rooms.len() - i,
        {
            let state = &self.rooms.value_at(i).state;
            let ghost before = dtos@;
            if !state.closing {
                let dto = build_room_dto(
                    state.session_id.as_str(),
                    state.host_peer_id.as_str(),
                    &state.host_verifier,
                    &state.reservations,
                    state.created_at,
                    state.last_activity_at,
                    now,
                );
                dtos.push(dto);
                assert(room_dtos(dtos@) =~= room_dtos(before).push(dto@));
            }
            i = i + 1;
        }
        dtos
    }

    /// Forgets the reservations whose grace period is over, and removes the
    /// rooms that are empty and idle for too long, or too old. Those who are
    /// connected to a removed room are shut down.
    pub fn sweep(&mut self, now: Now) -> (res: Sweep)
        ensures
            final(self)@ == old(self)@.swept(now),
            evictions(res.evict@) == tokens_of_all(due_rooms(old(self)@.rooms, now.wall)),
            res.changed == changed_rooms(old(self)@.rooms, now).len(),
    {
        let ghost all = self@.rooms;
        let ghost quota = self@.rooms_per_ip;
        let ghost unlisted = self@.unlisted;
        let ghost next_room_id = self@.next_room_id;
        let ghost mut seen: int = 0;
        let total: usize = self.rooms.len();
        let mut changed: usize = 0;
        let mut evict: Vec<Eviction> = Vec::new();
        let mut i: usize = 0;
        proof {
            reveal(Seq::filter);
            assert(all.take(0) =~= Seq::empty());
            assert(evictions(evict@) =~= tokens_of_all(due_rooms(all.take(0), now.wall)));
            assert(self.rooms@.take(0) =~= kept_rooms(all.take(0), now));
            assert(self.rooms@.skip(0) =~= all.skip(0));
        }
        while i < self.rooms.len()
            invariant
                0 <= i <= self.rooms@.len(),
                0 <= seen <= all.len(),
                self.rooms@.take(i as int) == kept_rooms(all.take(seen), now),
                self.rooms@.skip(i as int) == all.skip(seen),
                self.rooms_per_ip@ == released_all(quota, due_rooms(all.take(seen), now.wall)),
                self.unlisted@ == unlisted,
                self.next_room_id == next_room_id,
                evictions(evict@) == tokens_of_all(due_rooms(all.take(seen), now.wall)),
                changed == changed_rooms(all.take(seen), now).len(),
                changed <= seen,
                all.len() == total,
            decreases self.rooms@.len() - i,
        {
            let ghost before = self.rooms@;
            let ghost part = all.take(seen);
            let ghost entry = all[seen];
            let ghost pruned = (
                entry.0,
                RoomEntry { id: entry.1.id, room: entry.1.room.pruned(now.mono) },
            );
            proof {
                assert(before.skip(i as int)[0] == before[i as int]);
                assert(before.skip(i as int).len() == all.skip(seen).len());
                assert(all.skip(seen)[0] == entry);
                assert(all.take(seen + 1) =~= part.push(entry));
                assert(all.skip(seen + 1) =~= all.skip(seen).skip(1));
                step_of_sweep(part, entry, now);
                seen = seen + 1;
            }
            let state = &mut self.rooms.value_at_mut(i).state;
            let forgotten = state.prune_expired_reservations(now);
            let empty = state.connected_peer_count() == 0;
            let expired = state.age(now.wall) > ROOM_MAX_AGE;
            let remove = (empty && state.idle_for(now.wall) > EMPTY_ROOM_MAX_AGE) || expired;
            assert(self.rooms@ == before.update(i as int, pruned));
            if remove {
                let (_, room) = self.rooms.remove_at(i);
                let mut tokens = room.state.evict_all();
                let ghost evicted = evict@;
                let ghost taken = tokens@;
                evict.append(&mut tokens);
                self.release_room_quota(room.state.owner_ip_key.as_str());
                assert(evictions(evict@) =~= evictions(evicted) + evictions(taken));
                assert(self.rooms@.take(i as int) =~= before.take(i as int));
                assert(self.rooms@.skip(i as int) =~= before.skip(i as int).skip(1));
            } else {
                i = i + 1;
                assert(self.rooms@.take(i as int) =~= before.take(i - 1).push(pruned));
                assert(self.rooms@.skip(i as int) =~= before.skip(i - 1).skip(1));
            }
            if remove || forgotten {
                changed = changed + 1;
            }
        }
        proof {
            assert(self.rooms@.skip(i as int).len() == 0);
            assert(all.take(seen) =~= all);
            assert(self.rooms@.take(i as int) =~= self.rooms@);
            assert(self@ =~= old(self)@.swept(now));
        }
        Sweep { changed, evict }
    }
}

/// What a sweep did.
pub struct Sweep {
    /// How many rooms were removed or lost a reservation.
    pub changed: usize,
    /// Who is to be shut down.
    pub evict: Vec<Eviction>,
}

/// What a sweep does to one room more.
proof fn step_of_sweep(
    part: Seq<(Seq<char>, RoomEntry)>,
    entry: (Seq<char>, RoomEntry),
    now: Now,
)
    ensures
        is_due(entry.1.room, now.wall) ==> {
            &&& kept_rooms(part.push(entry), now) == kept_rooms(part, now)
            &&& due_rooms(part.push(entry), now.wall) == due_rooms(part, now.wall).push(entry)
            &&& tokens_of_all(due_rooms(part.push(entry), now.wall)) == tokens_of_all(
                due_rooms(part, now.wall),
            ) + tokens_of(entry.1.room.peers)
            &&& forall|quota: Seq<(Seq<char>, usize)>| #[trigger]
                released_all(quota, due_rooms(part.push(entry), now.wall)) == released(
                    released_all(quota, due_rooms(part, now.wall)),
                    entry.1.room.owner_ip_key,
                )
        },
        !is_due(entry.1.room, now.wall) ==> {
            &&& kept_rooms(part.push(entry), now) == kept_rooms(part, now).push(
                (entry.0, RoomEntry { id: entry.1.id, room: entry.1.room.pruned(now.mono) }),
            )
            &&& due_rooms(part.push(entry), now.wall) == due_rooms(part, now.wall)
        },
        changed_rooms(part.push(entry), now) == if sweep_changes(entry.1.room, now) {
            changed_rooms(part, now).push(entry)
        } else {
            changed_rooms(part, now)
        },
{
    let due = |e: (Seq<char>, RoomEntry)| is_due(e.1.room, now.wall);
    let stays = |e: (Seq<char>, RoomEntry)| !is_due(e.1.room, now.wall);
    filter_push(part, due, entry);
    filter_push(part, stays, entry);
    filter_push(part, |e: (Seq<char>, RoomEntry)| sweep_changes(e.1.room, now), entry);
    if is_due(entry.1.room, now.wall) {
        assert(due_rooms(part, now.wall).push(entry).drop_last() =~= due_rooms(part, now.wall));
    } else {
        assert(kept_rooms(part.push(entry), now) =~= kept_rooms(part, now).push(
            (entry.0, RoomEntry { id: entry.1.id, room: entry.1.room.pruned(now.mono) }),
        ));
    }
}

} // verus!
