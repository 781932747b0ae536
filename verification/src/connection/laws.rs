//! What holds of a connection and of the room table, whatever a client sends.

use crate::clock::Now;
use crate::connection::model::{
    admission_for, is_room_message, is_transition, ConnectionView, Decision, SeatView,
};
use crate::error::ClientError;
use crate::id_map::{
    entry_is_found, has_key, lookup, position, put_then_lookup,
};
use crate::ids::{is_valid_id, verifier_of_token};
use crate::protocol::{client_type, ClientMessageView, ServerMessage, MAX_PEER_ID_LENGTH};
use crate::registry::laws::{
    create_keeps_wf, end_begun_keeps_wf, end_finished_keeps_wf, removal_keeps_wf,
    room_change_keeps_wf,
};
use crate::registry::model::{gone_room, HandleView, RegistryView, RoomEntry};
use crate::room::ids_are_valid;
use crate::room::identity_laws::{
    admission_is_current, ended_leave_is_settled, leave_outlasts_the_rest, leave_takes_off,
};
use crate::room::laws::{
    broadcast_continues, disconnection_continues, host_reconnection_continues, joining_continues,
    leaving_continues, marking_release_continues, send_to_continues, transfer_continues,
};
use crate::room::model::{refusal, RoomView};
use tokio::sync::mpsc::Sender;
use tokio_util::sync::CancellationToken;
use vstd::prelude::*;

verus! {

/// The room that is meant is in order, as every one is that is kept.
proof fn room_is_wf(registry: RegistryView, handle: HandleView)
    requires
        registry.wf(),
    ensures
        registry.room_at(handle).wf(),
{
    if registry.is_current(handle) {
        let p = position(registry.rooms, handle.session_id);
        assert(registry.entry_is_wf(registry.rooms[p]));
    } else if has_key(registry.unlisted, handle.id) {
        let p = position(registry.unlisted, handle.id);
        assert(registry.unlisted_is_wf(registry.unlisted[p]));
    }
}

/// What keeps a room what it is and lets nobody in but under a valid id keeps
/// the table sound.
proof fn room_change_keeps_sound(
    registry: RegistryView,
    handle: HandleView,
    room: RoomView,
    newcomer: Option<Seq<char>>,
)
    requires
        registry.is_sound(),
        room.continues(registry.room_at(handle)),
        room.knows_only(registry.room_at(handle), newcomer),
        newcomer is Some ==> is_valid_id(
            newcomer->0,
            MAX_PEER_ID_LENGTH as nat,
        ),
    ensures
        registry.with_room_at(handle, room).is_sound(),
{
    room_change_keeps_wf(registry, handle, room);
    let after = registry.with_room_at(handle, room);
    if registry.is_current(handle) {
        let p = position(registry.rooms, handle.session_id);
        let before = registry.room_at(handle);
        assert(registry.rooms[p].1.room.has_valid_ids());
        assert forall|id: Seq<char>| #[trigger] room.knows(id) implies is_valid_id(
            id,
            MAX_PEER_ID_LENGTH as nat,
        ) by {
            assert(before.knows(id) || newcomer == Some(id));
        }
        assert forall|i: int| 0 <= i < after.rooms.len() implies (
        #[trigger] after.rooms[i]).1.room.has_valid_ids() by {
            if i != p {
                assert(after.rooms[i] == registry.rooms[i]);
            }
        }
    }
}

/// Taking a room off keeps the ids of the others valid.
proof fn removal_keeps_ids(registry: RegistryView, session_id: Seq<char>)
    requires
        registry.has_valid_ids(),
    ensures
        registry.without_room(session_id).has_valid_ids(),
{
    let after = registry.without_room(session_id);
    assert forall|i: int| 0 <= i < after.rooms.len() implies (
    #[trigger] after.rooms[i]).1.room.has_valid_ids() by {
        if has_key(registry.rooms, session_id) {
            let p = position(registry.rooms, session_id);
            let j = if i < p {
                i
            } else {
                i + 1
            };
            assert(after.rooms[i] == registry.rooms[j]);
        }
    }
}

/// `create` keeps the table sound.
proof fn creating_keeps_sound(
    connection: ConnectionView,
    registry: RegistryView,
    msg: ClientMessageView,
    tx: Sender<ServerMessage>,
    ip_key: Seq<char>,
    now: Now,
    cancel: CancellationToken,
)
    requires
        registry.is_sound(),
        registry.can_admit(msg.session_id),
    ensures
        connection.on_create(registry, msg, tx, ip_key, now, cancel).registry.is_sound(),
{
    let admission = admission_for(msg, tx);
    create_keeps_wf(
        registry,
        msg.session_id,
        msg.peer_id,
        msg.reconnect_token,
        ip_key,
        admission,
        now,
        cancel,
    );
    if let Some(verifier) = verifier_of_token(msg.reconnect_token) {
        let freed = registry.without_room(msg.session_id);
        removal_keeps_ids(registry, msg.session_id);
        removal_keeps_wf(registry, msg.session_id);
        let fresh = RoomView::created(
            msg.session_id,
            msg.peer_id,
            verifier,
            ip_key,
            admission,
            now,
            cancel,
        ).room;
        if let Some(entry) = lookup(registry.rooms, msg.session_id) {
            let handle = HandleView { session_id: msg.session_id, id: entry.id };
            room_is_wf(registry, handle);
            assert(registry.room_at(handle) == entry.room);
            host_reconnection_continues(entry.room, admission, cancel);
            room_change_keeps_sound(
                registry,
                handle,
                entry.room.host_reconnected(admission, cancel).room,
                None,
            );
        }
        let made = freed.with_new_room(msg.session_id, fresh);
        assert(made.rooms =~= freed.rooms.push(
            (msg.session_id, RoomEntry { id: freed.next_room_id, room: fresh }),
        ));
        assert(ids_are_valid(msg.session_id, msg.peer_id) ==> fresh.has_valid_ids());
    }
}

/// `join` and `resume` keep the table sound.
proof fn joining_keeps_sound(
    connection: ConnectionView,
    registry: RegistryView,
    msg: ClientMessageView,
    resume_only: bool,
    tx: Sender<ServerMessage>,
    now: Now,
    cancel: CancellationToken,
)
    requires
        registry.is_sound(),
        registry.can_admit(msg.session_id),
    ensures
        connection.on_join(registry, msg, resume_only, tx, now, cancel).registry.is_sound(),
{
    if let Some(handle) = registry.get(msg.session_id) {
        if ids_are_valid(msg.session_id, msg.peer_id) {
            let admission = admission_for(msg, tx);
            room_is_wf(registry, handle);
            joining_continues(
                registry.room_at(handle),
                msg,
                admission,
                resume_only,
                now,
                cancel,
            );
            room_change_keeps_sound(
                registry,
                handle,
                registry.room_at(handle).join_or_resume(
                    msg,
                    admission,
                    resume_only,
                    now,
                    cancel,
                ).room,
                Some(msg.peer_id),
            );
        }
    }
}

/// The beginning of a room's end keeps the table sound.
proof fn end_begun_keeps_sound(registry: RegistryView, handle: HandleView)
    requires
        registry.is_sound(),
        !registry.room_at(handle).closing,
    ensures
        registry.end_begun(handle).is_sound(),
{
    end_begun_keeps_wf(registry, handle);
    removal_keeps_ids(registry, handle.session_id);
    let after = registry.end_begun(handle);
    let freed = registry.without_room(handle.session_id);
    if !registry.is_current(handle) && has_key(registry.unlisted, handle.id) {
        let p = position(registry.unlisted, handle.id);
        assert(registry.unlisted_is_wf(registry.unlisted[p]));
    }
    assert(after.rooms == freed.rooms);
}

/// Messages for the room that a client is in keep the table sound.
proof fn room_message_keeps_sound(
    connection: ConnectionView,
    registry: RegistryView,
    msg: ClientMessageView,
    now: Now,
)
    requires
        registry.is_sound(),
        connection.room is Some,
    ensures
        connection.on_room_message(registry, msg, now).registry.is_sound(),
{
    let handle = connection.room->0;
    let room = registry.room_at(handle);
    let peer_id = connection.peer_id;
    let conn_id = connection.conn_id;
    room_is_wf(registry, handle);
    if msg.msg_type == client_type::LEAVE@ {
        if room.may_leave(peer_id, conn_id, msg.reconnect_token, msg.protocol_version) {
            marking_release_continues(room, peer_id, true);
            room_change_keeps_sound(registry, handle, room.with_release(peer_id, true), None);
        }
    } else if msg.msg_type == client_type::END_SESSION@ {
        if room.may_end_session(peer_id, conn_id, msg.reconnect_token, msg.protocol_version) {
            end_begun_keeps_sound(registry, handle);
        }
    } else {
        broadcast_continues(room, peer_id, conn_id, msg.payload, now.wall);
        transfer_continues(room, peer_id, conn_id, msg.protocol_version, msg.to);
        send_to_continues(room, peer_id, conn_id, msg.to, msg.payload, now.wall);
        room_change_keeps_sound(
            registry,
            handle,
            room.broadcast(peer_id, conn_id, msg.payload, now.wall).room,
            None,
        );
        room_change_keeps_sound(
            registry,
            handle,
            room.transfer_host(peer_id, conn_id, msg.protocol_version, msg.to).room,
            None,
        );
        room_change_keeps_sound(
            registry,
            handle,
            room.send_to(peer_id, conn_id, msg.to, msg.payload, now.wall).room,
            None,
        );
    }
}

/// Whatever a client sends, the room table stays in order and holds only valid
/// ids.
pub proof fn messages_keep_the_table_sound(
    connection: ConnectionView,
    registry: RegistryView,
    msg: ClientMessageView,
    tx: Sender<ServerMessage>,
    ip_key: Seq<char>,
    now: Now,
    cancel: CancellationToken,
)
    requires
        registry.is_sound(),
        is_transition(msg.msg_type) ==> registry.can_admit(msg.session_id),
    ensures
        connection.on_message(registry, msg, tx, ip_key, now, cancel).registry.is_sound(),
{
    if is_transition(msg.msg_type) {
        creating_keeps_sound(connection, registry, msg, tx, ip_key, now, cancel);
        joining_keeps_sound(connection, registry, msg, true, tx, now, cancel);
        joining_keeps_sound(connection, registry, msg, false, tx, now, cancel);
    }
    if connection.room is Some {
        room_message_keeps_sound(connection, registry, msg, now);
    }
}

/// However a snapshot went that an operation waited for, and whatever became of
/// the connection meanwhile, the table stays sound when the operation goes on.
pub proof fn resuming_keeps_the_table_sound(
    connection: ConnectionView,
    registry: RegistryView,
    seat: SeatView,
    guests: Seq<Sender<ServerMessage>>,
    persisted: bool,
    now: Now,
)
    requires
        registry.is_sound(),
    ensures
        connection.on_leave_persisted(registry, seat, persisted, now).registry.is_sound(),
        connection.on_end_persisted(registry, seat.room, guests, persisted).registry.is_sound(),
{
    let room = registry.room_at(seat.room);
    room_is_wf(registry, seat.room);
    leaving_continues(room, seat.peer_id, seat.conn_id, persisted, now.wall);
    room_change_keeps_sound(
        registry,
        seat.room,
        room.leave_finished(seat.peer_id, seat.conn_id, persisted, now.wall).room,
        None,
    );
    end_finished_keeps_wf(registry, seat.room, guests, persisted);
}

impl RegistryView {
    /// The `leave` of the given seat waits for its snapshot.
    pub open spec fn leave_in_flight(self, seat: SeatView) -> bool {
        self.room_at(seat.room).leave_in_flight(seat.peer_id, seat.conn_id)
    }
}

/// A `leave` that a client is let wait for is in flight under the seat that it
/// is resumed with.
pub proof fn pending_leave_is_in_flight(
    connection: ConnectionView,
    registry: RegistryView,
    msg: ClientMessageView,
    seat: SeatView,
)
    requires
        registry.wf(),
        connection.room is Some,
        connection.on_leave(registry, msg).decision == Decision::PersistLeave(seat),
    ensures
        connection.is_seated(seat),
        connection.on_leave(registry, msg).registry.leave_in_flight(seat),
{
    let room = registry.room_at(seat.room);
    room_is_wf(registry, seat.room);
    leave_takes_off(
        room,
        seat.peer_id,
        seat.conn_id,
        msg.reconnect_token,
        msg.protocol_version,
    );
    changed_room_is_found(registry, seat.room, room.with_release(seat.peer_id, true));
}

/// A `leave` in flight outlasts its own connection: it is in flight still once
/// that was closed.
pub proof fn leave_outlasts_its_connection(
    connection: ConnectionView,
    registry: RegistryView,
    seat: SeatView,
    now: Now,
)
    requires
        registry.wf(),
        connection.is_seated(seat),
        registry.leave_in_flight(seat),
    ensures
        connection.on_close(registry, now).registry.leave_in_flight(seat),
{
    let room = registry.room_at(seat.room);
    room_is_wf(registry, seat.room);
    leave_outlasts_the_rest(
        room,
        seat.peer_id,
        seat.conn_id,
        seat.peer_id,
        seat.conn_id,
        0,
        seat.peer_id,
        None,
        false,
        now,
    );
    changed_room_is_found(
        registry,
        seat.room,
        room.disconnected(seat.peer_id, seat.conn_id, now).room,
    );
}

/// Once it is known how its snapshot went, a `leave` in flight ends, whatever
/// became of its connection: no release is pending under its identity any more,
/// and the identity is free if the snapshot was saved.
pub proof fn resumed_leave_is_settled(
    connection: ConnectionView,
    registry: RegistryView,
    seat: SeatView,
    persisted: bool,
    now: Now,
)
    requires
        registry.wf(),
        registry.leave_in_flight(seat),
    ensures
        ({
            let after = connection.on_leave_persisted(
                registry,
                seat,
                persisted,
                now,
            ).registry.room_at(seat.room);
            &&& !after.release_is_pending(seat.peer_id)
            &&& if persisted {
                !after.connected(seat.peer_id) && !has_key(after.reservations, seat.peer_id)
            } else {
                after.holds_reservation(seat.peer_id)
            }
        }),
{
    let room = registry.room_at(seat.room);
    room_is_wf(registry, seat.room);
    ended_leave_is_settled(room, seat.peer_id, seat.conn_id, persisted, now.wall);
    changed_room_is_found(
        registry,
        seat.room,
        room.leave_finished(seat.peer_id, seat.conn_id, persisted, now.wall).room,
    );
}

/// A room that is kept is found as it was left.
proof fn changed_room_is_found(registry: RegistryView, handle: HandleView, room: RoomView)
    requires
        registry.wf(),
    ensures
        registry.room_at(handle) != gone_room(handle.session_id) ==> registry.with_room_at(
            handle,
            room,
        ).room_at(handle) == room,
{
    put_then_lookup(registry.rooms, handle.session_id, RoomEntry { id: handle.id, room });
    put_then_lookup(registry.unlisted, handle.id, room);
}

/// A connection that goes away keeps the table sound.
pub proof fn closing_keeps_the_table_sound(
    connection: ConnectionView,
    registry: RegistryView,
    now: Now,
)
    requires
        registry.is_sound(),
    ensures
        connection.on_close(registry, now).registry.is_sound(),
{
    if connection.room is Some {
        let handle = connection.room->0;
        let room = registry.room_at(handle);
        room_is_wf(registry, handle);
        disconnection_continues(room, connection.peer_id, connection.conn_id, now);
        room_change_keeps_sound(
            registry,
            handle,
            room.disconnected(connection.peer_id, connection.conn_id, now).room,
            None,
        );
    }
}

/// A client that is in a room cannot get into another one before it leaves.
pub proof fn one_room_at_a_time(
    connection: ConnectionView,
    registry: RegistryView,
    msg: ClientMessageView,
    tx: Sender<ServerMessage>,
    ip_key: Seq<char>,
    now: Now,
    cancel: CancellationToken,
)
    requires
        connection.room is Some,
        is_transition(msg.msg_type),
    ensures
        connection.on_message(registry, msg, tx, ip_key, now, cancel) == connection.unchanged(
            registry,
            refusal(
                ClientError::AlreadyInRoom,
                "Leave the current room before creating or joining another"@,
            ),
        ),
{
    reveal_strlit("ping");
    reveal_strlit("create");
    reveal_strlit("join");
    reveal_strlit("resume");
    assert("ping"@[0] == 'p' && "join"@[0] == 'j');
    assert("ping"@.len() == 4 && "create"@.len() == 6 && "resume"@.len() == 6);
}

/// A client that is in no room has nothing to say there.
pub proof fn nothing_to_say_outside(
    connection: ConnectionView,
    registry: RegistryView,
    msg: ClientMessageView,
    tx: Sender<ServerMessage>,
    ip_key: Seq<char>,
    now: Now,
    cancel: CancellationToken,
)
    requires
        connection.room is None,
        is_room_message(msg.msg_type),
    ensures
        connection.on_message(registry, msg, tx, ip_key, now, cancel) == connection.unchanged(
            registry,
            refusal(ClientError::NotInRoom, "Not in a room"@),
        ),
{
    reveal_strlit("ping");
    reveal_strlit("create");
    reveal_strlit("join");
    reveal_strlit("resume");
    reveal_strlit("leave");
    reveal_strlit("endSession");
    reveal_strlit("transferHost");
    reveal_strlit("broadcast");
    reveal_strlit("sendTo");
    assert("ping"@.len() == 4 && "join"@.len() == 4);
    assert("create"@[0] == 'c' && "resume"@[0] == 'r' && "sendTo"@[0] == 's');
}

impl ConnectionView {
    /// The connection is in the room that can be joined under `session_id`, and
    /// speaks for `peer_id` there.
    pub open spec fn speaks_for(
        self,
        registry: RegistryView,
        session_id: Seq<char>,
        peer_id: Seq<char>,
    ) -> bool {
        &&& self.room is Some
        &&& self.peer_id == peer_id
        &&& self.room->0.session_id == session_id
        &&& registry.is_current(self.room->0)
        &&& registry.room_at(self.room->0).is_current(peer_id, self.conn_id)
    }
}

/// A connection that `create` took into a room speaks for its identity there.
proof fn creating_makes_current(
    connection: ConnectionView,
    registry: RegistryView,
    msg: ClientMessageView,
    tx: Sender<ServerMessage>,
    ip_key: Seq<char>,
    now: Now,
    cancel: CancellationToken,
)
    requires
        registry.wf(),
        connection.room is None,
        connection.on_create(registry, msg, tx, ip_key, now, cancel).connection.room is Some,
    ensures
        ({
            let handling = connection.on_create(registry, msg, tx, ip_key, now, cancel);
            handling.connection.speaks_for(handling.registry, msg.session_id, msg.peer_id)
        }),
{
    let admission = admission_for(msg, tx);
    let verifier = verifier_of_token(msg.reconnect_token)->0;
    removal_keeps_wf(registry, msg.session_id);
    let freed = registry.without_room(msg.session_id);
    let fresh = RoomView::created(
        msg.session_id,
        msg.peer_id,
        verifier,
        ip_key,
        admission,
        now,
        cancel,
    ).room;
    entry_is_found(fresh.peers, 0);
    put_then_lookup(
        freed.rooms,
        msg.session_id,
        RoomEntry { id: freed.next_room_id, room: fresh },
    );
    if let Some(entry) = lookup(registry.rooms, msg.session_id) {
        let p = position(registry.rooms, msg.session_id);
        assert(registry.entry_is_wf(registry.rooms[p]));
        admission_is_current(entry.room, msg.peer_id, admission, cancel);
        put_then_lookup(
            registry.rooms,
            msg.session_id,
            RoomEntry {
                id: entry.id,
                room: entry.room.host_reconnected(admission, cancel).room,
            },
        );
    }
}

/// A connection that `join` or `resume` took into a room speaks for its identity
/// there.
proof fn joining_makes_current(
    connection: ConnectionView,
    registry: RegistryView,
    msg: ClientMessageView,
    resume_only: bool,
    tx: Sender<ServerMessage>,
    now: Now,
    cancel: CancellationToken,
)
    requires
        registry.wf(),
        connection.room is None,
        connection.on_join(registry, msg, resume_only, tx, now, cancel).connection.room is Some,
    ensures
        ({
            let handling = connection.on_join(registry, msg, resume_only, tx, now, cancel);
            handling.connection.speaks_for(handling.registry, msg.session_id, msg.peer_id)
        }),
{
    let admission = admission_for(msg, tx);
    let entry = lookup(registry.rooms, msg.session_id)->0;
    let p = position(registry.rooms, msg.session_id);
    assert(registry.entry_is_wf(registry.rooms[p]));
    let before = entry.room.pruned(now.mono);
    let joined = entry.room.join_or_resume(msg, admission, resume_only, now, cancel);
    assert(before.peers == entry.room.peers);
    admission_is_current(before, msg.peer_id, admission, cancel);
    assert(joined.room.peers == before.admitted(msg.peer_id, admission, cancel).peers);
    assert(joined.room.is_current(msg.peer_id, before.next_conn_id));
    put_then_lookup(
        registry.rooms,
        msg.session_id,
        RoomEntry { id: entry.id, room: joined.room },
    );
}

/// A connection that a message took into a room is the one that speaks for its
/// identity there.
pub proof fn entering_makes_current(
    connection: ConnectionView,
    registry: RegistryView,
    msg: ClientMessageView,
    tx: Sender<ServerMessage>,
    ip_key: Seq<char>,
    now: Now,
    cancel: CancellationToken,
)
    requires
        registry.wf(),
        connection.room is None,
        connection.on_message(registry, msg, tx, ip_key, now, cancel).connection.room is Some,
    ensures
        ({
            let handling = connection.on_message(registry, msg, tx, ip_key, now, cancel);
            handling.connection.speaks_for(handling.registry, msg.session_id, msg.peer_id)
        }),
{
    let handling = connection.on_message(registry, msg, tx, ip_key, now, cancel);
    let resume_only = msg.msg_type == client_type::RESUME@;
    if handling == connection.on_create(registry, msg, tx, ip_key, now, cancel) {
        creating_makes_current(connection, registry, msg, tx, ip_key, now, cancel);
    } else {
        assert(handling == connection.on_join(registry, msg, resume_only, tx, now, cancel));
        joining_makes_current(connection, registry, msg, resume_only, tx, now, cancel);
    }
}

} // verus!
