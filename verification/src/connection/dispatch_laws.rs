//! What each message of a client does: which operation of which room it asks
//! for, with what, and what the client is told otherwise.

use crate::clock::Now;
use crate::connection::model::{ConnectionView, Decision, Handling, SeatView};
use crate::id_map::lookup;
use crate::ids::is_valid_id;
use crate::protocol::{ClientMessageView, ServerMessage, ServerMessageView};
use crate::registry::model::{HandleView, RegistryView};
use crate::registry::table_laws::{ended_room_is_forgotten, ending_room_is_taken_off};
use crate::room::model::{AdmissionView, EffectsView};
use crate::room::news_laws::{
    ended_session_is_told_to_everyone, error_reply, every_guest_has_a_queue, is_silent, plain, told,
};
use crate::room::ConnectedPeer;
use tokio::sync::mpsc::Sender;
use tokio_util::sync::CancellationToken;
use vstd::prelude::*;

verus! {

/// The client is answered, and nothing else is done.
pub open spec fn only_answers(
    h: Handling,
    connection: ConnectionView,
    registry: RegistryView,
    effects: EffectsView,
) -> bool {
    &&& h.connection == connection
    &&& h.registry == registry
    &&& h.decision == Decision::Done(effects)
}

/// What a client asks to be admitted with.
pub open spec fn asked(msg: ClientMessageView, tx: Sender<ServerMessage>) -> AdmissionView {
    AdmissionView {
        peer_id: msg.peer_id,
        tx,
        sync_protocol_version: msg.sync_protocol_version,
        host_transfer_capable: msg.capabilities.contains("hostTransfer"@),
    }
}

/// The answer to a client that speaks another version of the protocol.
pub open spec fn wrong_version() -> EffectsView {
    let reply = error_reply("protocol_mismatch"@, "Unsupported relay protocol version"@);
    EffectsView {
        reply: Some(ServerMessageView { protocol_version: 2, ..reply.reply->0 }),
        ..reply
    }
}

/// The connection has a seat under the number and the token that were assigned,
/// or is where it was if none was.
pub open spec fn takes_seat(
    after: ConnectionView,
    before: ConnectionView,
    room: HandleView,
    peer_id: Seq<char>,
    effects: EffectsView,
) -> bool {
    match effects.assigned_conn_id {
        Some(conn_id) => {
            &&& after.room == Some(room)
            &&& after.peer_id == peer_id
            &&& after.conn_id == conn_id
            &&& after.cancel == effects.assigned_cancel
        },
        None => after == before,
    }
}

/// The connection is in no room.
pub open spec fn has_no_seat(connection: ConnectionView) -> bool {
    &&& connection.room is None
    &&& connection.peer_id.len() == 0
    &&& connection.cancel is None
}

/// The names of the messages differ.
proof fn message_types_differ()
    ensures
        "ping"@ != "create"@,
        "ping"@ != "join"@,
        "ping"@ != "resume"@,
        "ping"@ != "leave"@,
        "ping"@ != "endSession"@,
        "ping"@ != "broadcast"@,
        "ping"@ != "transferHost"@,
        "ping"@ != "sendTo"@,
        "create"@ != "join"@,
        "create"@ != "resume"@,
        "create"@ != "leave"@,
        "create"@ != "endSession"@,
        "create"@ != "broadcast"@,
        "create"@ != "transferHost"@,
        "create"@ != "sendTo"@,
        "join"@ != "resume"@,
        "join"@ != "leave"@,
        "join"@ != "endSession"@,
        "join"@ != "broadcast"@,
        "join"@ != "transferHost"@,
        "join"@ != "sendTo"@,
        "resume"@ != "leave"@,
        "resume"@ != "endSession"@,
        "resume"@ != "broadcast"@,
        "resume"@ != "transferHost"@,
        "resume"@ != "sendTo"@,
        "leave"@ != "endSession"@,
        "leave"@ != "broadcast"@,
        "leave"@ != "transferHost"@,
        "leave"@ != "sendTo"@,
        "endSession"@ != "broadcast"@,
        "endSession"@ != "transferHost"@,
        "endSession"@ != "sendTo"@,
        "broadcast"@ != "transferHost"@,
        "broadcast"@ != "sendTo"@,
        "transferHost"@ != "sendTo"@,
{
    reveal_strlit("ping");
    reveal_strlit("create");
    reveal_strlit("join");
    reveal_strlit("resume");
    reveal_strlit("leave");
    reveal_strlit("endSession");
    reveal_strlit("broadcast");
    reveal_strlit("transferHost");
    reveal_strlit("sendTo");
    assert("create"@[0] == 'c' && "resume"@[0] == 'r' && "sendTo"@[0] == 's');
    assert("ping"@[0] == 'p' && "join"@[0] == 'j');
    assert("leave"@.len() == 5 && "broadcast"@.len() == 9);
    assert("endSession"@.len() == 10 && "transferHost"@.len() == 12);
}

/// A `ping` is answered with a `pong`, wherever the client is.
pub proof fn ping_is_answered(
    connection: ConnectionView,
    registry: RegistryView,
    msg: ClientMessageView,
    tx: Sender<ServerMessage>,
    ip_key: Seq<char>,
    now: Now,
    cancel: CancellationToken,
)
    requires
        msg.msg_type == "ping"@,
    ensures
        ({
            let h = connection.on_message(registry, msg, tx, ip_key, now, cancel);
            only_answers(
                h,
                connection,
                registry,
                EffectsView {
                    reply: Some(plain("pong"@)),
                    broadcast: Seq::empty(),
                    evict: Seq::empty(),
                    dirty: false,
                    assigned_conn_id: None,
                    assigned_cancel: None,
                },
            )
        }),
{
}

/// A client that is in a room already is told so when it asks for one, and
/// nothing happens.
pub proof fn seated_client_stays_where_it_is(
    connection: ConnectionView,
    registry: RegistryView,
    msg: ClientMessageView,
    tx: Sender<ServerMessage>,
    ip_key: Seq<char>,
    now: Now,
    cancel: CancellationToken,
)
    requires
        connection.room is Some,
        msg.msg_type == "create"@ || msg.msg_type == "join"@ || msg.msg_type == "resume"@,
    ensures
        only_answers(
            connection.on_message(registry, msg, tx, ip_key, now, cancel),
            connection,
            registry,
            error_reply(
                "already_in_room"@,
                "Leave the current room before creating or joining another"@,
            ),
        ),
{
    message_types_differ();
}

/// A `create` of a client that is in no room is checked for its ids and its
/// version, and then asks the table for that session, in the client's own name
/// and for its own address.
pub proof fn create_asks_for_a_room(
    connection: ConnectionView,
    registry: RegistryView,
    msg: ClientMessageView,
    tx: Sender<ServerMessage>,
    ip_key: Seq<char>,
    now: Now,
    cancel: CancellationToken,
)
    requires
        connection.room is None,
        msg.msg_type == "create"@,
    ensures
        ({
            let h = connection.on_message(registry, msg, tx, ip_key, now, cancel);
            let creation = registry.create(
                msg.session_id,
                msg.peer_id,
                msg.reconnect_token,
                ip_key,
                asked(msg, tx),
                now,
                cancel,
            );
            if !is_valid_id(msg.session_id, 64) || !is_valid_id(msg.peer_id, 128) {
                only_answers(
                    h,
                    connection,
                    registry,
                    error_reply("invalid_message"@, "Invalid sessionId or peerId"@),
                )
            } else if msg.protocol_version != 2 {
                only_answers(h, connection, registry, wrong_version())
            } else {
                &&& h.registry == creation.registry
                &&& h.decision == Decision::Done(creation.effects)
                &&& creation.handle is None ==> h.connection == connection
                &&& creation.handle is Some ==> takes_seat(
                    h.connection,
                    connection,
                    creation.handle->0,
                    msg.peer_id,
                    creation.effects,
                )
            }
        }),
{
    message_types_differ();
}

/// A `join` or a `resume` of a client that is in no room is checked for its ids
/// and its version, and then asks the room that is listed under the session to
/// let the client in. No other room is asked.
pub proof fn join_asks_the_listed_room(
    connection: ConnectionView,
    registry: RegistryView,
    msg: ClientMessageView,
    tx: Sender<ServerMessage>,
    ip_key: Seq<char>,
    now: Now,
    cancel: CancellationToken,
)
    requires
        connection.room is None,
        msg.msg_type == "join"@ || msg.msg_type == "resume"@,
    ensures
        ({
            let h = connection.on_message(registry, msg, tx, ip_key, now, cancel);
            let found = lookup(registry.rooms, msg.session_id);
            if !is_valid_id(msg.session_id, 64) || !is_valid_id(msg.peer_id, 128) {
                only_answers(
                    h,
                    connection,
                    registry,
                    error_reply("invalid_message"@, "Invalid sessionId or peerId"@),
                )
            } else if msg.protocol_version != 2 {
                only_answers(h, connection, registry, wrong_version())
            } else if found is None {
                only_answers(
                    h,
                    connection,
                    registry,
                    error_reply("room_not_found"@, "Room does not exist"@),
                )
            } else {
                let handle = HandleView { session_id: msg.session_id, id: found->0.id };
                let outcome = found->0.room.join_or_resume(
                    msg,
                    asked(msg, tx),
                    msg.msg_type == "resume"@,
                    now,
                    cancel,
                );
                &&& h.registry == registry.with_room_at(handle, outcome.room)
                &&& h.decision == Decision::Done(outcome.effects)
                &&& takes_seat(h.connection, connection, handle, msg.peer_id, outcome.effects)
            }
        }),
{
    message_types_differ();
}

/// A client that is in no room is told so when it sends something that is for
/// the room; what no client sends is refused wherever the client is.
pub proof fn stray_messages_are_refused(
    connection: ConnectionView,
    registry: RegistryView,
    msg: ClientMessageView,
    tx: Sender<ServerMessage>,
    ip_key: Seq<char>,
    now: Now,
    cancel: CancellationToken,
)
    ensures
        ({
            let h = connection.on_message(registry, msg, tx, ip_key, now, cancel);
            let for_the_room = msg.msg_type == "leave"@ || msg.msg_type == "endSession"@
                || msg.msg_type == "broadcast"@ || msg.msg_type == "sendTo"@ || msg.msg_type
                == "transferHost"@;
            let known = for_the_room || msg.msg_type == "ping"@ || msg.msg_type == "create"@
                || msg.msg_type == "join"@ || msg.msg_type == "resume"@;
            &&& !known ==> only_answers(
                h,
                connection,
                registry,
                error_reply("invalid_message"@, "Unknown message type"@),
            )
            &&& for_the_room && connection.room is None ==> only_answers(
                h,
                connection,
                registry,
                error_reply("not_in_room"@, "Not in a room"@),
            )
        }),
{
    message_types_differ();
}

/// What a client sends in a room goes to the room that the client is in, in the
/// name and under the number that it was given there.
pub proof fn payloads_go_to_the_own_room(
    connection: ConnectionView,
    registry: RegistryView,
    msg: ClientMessageView,
    tx: Sender<ServerMessage>,
    ip_key: Seq<char>,
    now: Now,
    cancel: CancellationToken,
)
    requires
        connection.room is Some,
    ensures
        ({
            let h = connection.on_message(registry, msg, tx, ip_key, now, cancel);
            let handle = connection.room->0;
            let room = registry.room_at(handle);
            let sent_to_all = room.broadcast(
                connection.peer_id,
                connection.conn_id,
                msg.payload,
                now.wall,
            );
            let sent_to_one = room.send_to(
                connection.peer_id,
                connection.conn_id,
                msg.to,
                msg.payload,
                now.wall,
            );
            let handed_over = room.transfer_host(
                connection.peer_id,
                connection.conn_id,
                msg.protocol_version,
                msg.to,
            );
            let bad_target = error_reply("invalid_message"@, "Invalid to field"@);
            &&& msg.msg_type == "broadcast"@ ==> only_answers(
                h,
                connection,
                registry.with_room_at(handle, sent_to_all.room),
                sent_to_all.effects,
            )
            &&& msg.msg_type == "sendTo"@ ==> if is_valid_id(msg.to, 128) {
                only_answers(
                    h,
                    connection,
                    registry.with_room_at(handle, sent_to_one.room),
                    sent_to_one.effects,
                )
            } else {
                only_answers(h, connection, registry, bad_target)
            }
            &&& msg.msg_type == "transferHost"@ ==> if is_valid_id(msg.to, 128) {
                only_answers(
                    h,
                    connection,
                    registry.with_room_at(handle, handed_over.room),
                    handed_over.effects,
                )
            } else {
                only_answers(h, connection, registry, bad_target)
            }
        }),
{
    message_types_differ();
}

/// A `leave` that is in order marks the client's own identity in its own room as
/// being released and waits for a snapshot; one that is not is refused. Either
/// way the client is in the room still.
pub proof fn leave_waits_for_a_snapshot(
    connection: ConnectionView,
    registry: RegistryView,
    msg: ClientMessageView,
    tx: Sender<ServerMessage>,
    ip_key: Seq<char>,
    now: Now,
    cancel: CancellationToken,
)
    requires
        connection.room is Some,
        msg.msg_type == "leave"@,
    ensures
        ({
            let h = connection.on_message(registry, msg, tx, ip_key, now, cancel);
            let handle = connection.room->0;
            let room = registry.room_at(handle);
            if room.may_leave(
                connection.peer_id,
                connection.conn_id,
                msg.reconnect_token,
                msg.protocol_version,
            ) {
                &&& h.connection == connection
                &&& h.registry == registry.with_room_at(
                    handle,
                    room.with_release(connection.peer_id, true),
                )
                &&& h.decision == Decision::PersistLeave(
                    SeatView {
                        room: handle,
                        peer_id: connection.peer_id,
                        conn_id: connection.conn_id,
                    },
                )
            } else {
                only_answers(
                    h,
                    connection,
                    registry,
                    error_reply("peer_id_unavailable"@, "Unable to release peer identity"@),
                )
            }
        }),
{
    message_types_differ();
}

/// Once its snapshot is saved or not, a `leave` goes on in the room in which it
/// was asked for. The client is out of the room then, unless it is told of an
/// error or has moved on.
pub proof fn leave_goes_on_where_it_began(
    connection: ConnectionView,
    registry: RegistryView,
    seat: SeatView,
    persisted: bool,
    now: Now,
)
    ensures
        ({
            let h = connection.on_leave_persisted(registry, seat, persisted, now);
            let outcome = registry.room_at(seat.room).leave_finished(
                seat.peer_id,
                seat.conn_id,
                persisted,
                now.wall,
            );
            let reply = outcome.effects.reply;
            let still_there = connection.room == Some(seat.room) && connection.peer_id
                == seat.peer_id && connection.conn_id == seat.conn_id;
            &&& h.registry == registry.with_room_at(seat.room, outcome.room)
            &&& h.decision == Decision::Done(outcome.effects)
            &&& if still_there && !(reply is Some && reply->0.code is Some) {
                has_no_seat(h.connection)
            } else {
                h.connection == connection
            }
        }),
{
}

/// An `endSession` that is in order takes the client's own room off the table
/// and waits for a snapshot, to be told to each guest then. One that is not is
/// refused, and the client is in no room any more.
pub proof fn end_session_waits_for_a_snapshot(
    connection: ConnectionView,
    registry: RegistryView,
    msg: ClientMessageView,
    tx: Sender<ServerMessage>,
    ip_key: Seq<char>,
    now: Now,
    cancel: CancellationToken,
)
    requires
        connection.room is Some,
        msg.msg_type == "endSession"@,
    ensures
        ({
            let h = connection.on_message(registry, msg, tx, ip_key, now, cancel);
            let handle = connection.room->0;
            let room = registry.room_at(handle);
            if room.may_end_session(
                connection.peer_id,
                connection.conn_id,
                msg.reconnect_token,
                msg.protocol_version,
            ) {
                &&& h.connection == connection
                &&& h.registry == registry.end_begun(handle)
                &&& h.decision is PersistEnd
                &&& h.decision->PersistEnd_0 == handle
                &&& h.decision->PersistEnd_1.len() == room.peers.filter(
                    |e: (Seq<char>, ConnectedPeer)| e.0 != connection.peer_id,
                ).len()
                &&& forall|queue: Sender<ServerMessage>| #[trigger]
                    h.decision->PersistEnd_1.contains(queue) <==> exists|i: int|
                        0 <= i < room.peers.len() && (#[trigger] room.peers[i]).0
                            != connection.peer_id && room.peers[i].1.tx == queue
            } else {
                &&& has_no_seat(h.connection)
                &&& h.registry == registry
                &&& h.decision == Decision::Done(
                    error_reply("peer_id_unavailable"@, "Unable to end room"@),
                )
            }
        }),
{
    message_types_differ();
    every_guest_has_a_queue(registry.room_at(connection.room->0), connection.peer_id);
}

/// Once its snapshot is saved or not, the end of a room goes on, and whoever
/// asked for it is in no room any more.
pub proof fn end_session_goes_on(
    connection: ConnectionView,
    registry: RegistryView,
    room: HandleView,
    guests: Seq<Sender<ServerMessage>>,
    persisted: bool,
)
    ensures
        ({
            let h = connection.on_end_persisted(registry, room, guests, persisted);
            let outcome = registry.end_finished(room, guests, persisted);
            &&& h.registry == outcome.registry
            &&& h.decision == Decision::Done(outcome.effects)
            &&& if connection.room == Some(room) {
                has_no_seat(h.connection)
            } else {
                h.connection == connection
            }
        }),
{
}

/// When the host ends its session and that is saved, every guest who was
/// connected is told on its own queue, everyone is shut down, and the room is
/// gone.
pub proof fn every_guest_learns_of_the_end(
    connection: ConnectionView,
    registry: RegistryView,
    msg: ClientMessageView,
    tx: Sender<ServerMessage>,
    ip_key: Seq<char>,
    now: Now,
    cancel: CancellationToken,
)
    requires
        registry.wf(),
        connection.room is Some,
        registry.is_current(connection.room->0),
        msg.msg_type == "endSession"@,
        registry.room_at(connection.room->0).may_end_session(
            connection.peer_id,
            connection.conn_id,
            msg.reconnect_token,
            msg.protocol_version,
        ),
    ensures
        ({
            let handle = connection.room->0;
            let room = registry.room_at(handle);
            let begun = connection.on_message(registry, msg, tx, ip_key, now, cancel);
            let guests = begun.decision->PersistEnd_1;
            let ended = begun.connection.on_end_persisted(begun.registry, handle, guests, true);
            let effects = ended.decision->Done_0;
            &&& begun.decision is PersistEnd
            &&& ended.decision is Done
            &&& forall|i: int|
                0 <= i < room.peers.len() && room.peers[i].0 != connection.peer_id ==> told(
                    effects.broadcast,
                    (#[trigger] room.peers[i]).1.tx,
                    ServerMessageView {
                        session_id: Some(room.session_id),
                        protocol_version: 2,
                        ..plain("ended"@)
                    },
                )
            &&& effects.broadcast.len() == room.peers.filter(
                |e: (Seq<char>, ConnectedPeer)| e.0 != connection.peer_id,
            ).len()
            &&& effects.evict.len() == room.peers.len()
            &&& forall|i: int|
                0 <= i < room.peers.len() ==> effects.evict[i] == (
                #[trigger] room.peers[i]).1.cancel
            &&& has_no_seat(ended.connection)
            &&& ended.registry.get(handle.session_id) is None
        }),
{
    let handle = connection.room->0;
    let room = registry.room_at(handle);
    let begun = connection.on_message(registry, msg, tx, ip_key, now, cancel);
    let guests = begun.decision->PersistEnd_1;
    end_session_waits_for_a_snapshot(connection, registry, msg, tx, ip_key, now, cancel);
    ending_room_is_taken_off(registry, handle);
    ended_room_is_forgotten(begun.registry, handle, guests, true);
    let closing = begun.registry.room_at(handle);
    ended_session_is_told_to_everyone(closing, guests, true);
    let ended = begun.connection.on_end_persisted(begun.registry, handle, guests, true);
    let effects = ended.decision->Done_0;
    assert forall|i: int|
        0 <= i < room.peers.len() && room.peers[i].0 != connection.peer_id implies told(
        effects.broadcast,
        (#[trigger] room.peers[i]).1.tx,
        ServerMessageView {
            session_id: Some(room.session_id),
            protocol_version: 2,
            ..plain("ended"@)
        },
    ) by {
        assert(guests.contains(room.peers[i].1.tx));
        let k = choose|k: int| 0 <= k < guests.len() && guests[k] == room.peers[i].1.tx;
        assert(effects.broadcast[k].tx == guests[k]);
    }
}

/// When a connection goes away, it is taken out of the room that it is in, under
/// its own number; one that is in no room leaves nothing behind.
pub proof fn closed_connection_leaves_its_room(
    connection: ConnectionView,
    registry: RegistryView,
    now: Now,
)
    ensures
        ({
            let h = connection.on_close(registry, now);
            &&& h.connection.room is None
            &&& if connection.room is Some && connection.peer_id.len() > 0 {
                let outcome = registry.room_at(connection.room->0).disconnected(
                    connection.peer_id,
                    connection.conn_id,
                    now,
                );
                &&& h.registry == registry.with_room_at(connection.room->0, outcome.room)
                &&& h.decision == Decision::Done(outcome.effects)
            } else {
                &&& h.registry == registry
                &&& h.decision is Done
                &&& is_silent(h.decision->Done_0)
            }
        }),
{
}

/// A new connection is in no room.
pub proof fn new_connection_has_no_seat()
    ensures
        has_no_seat(ConnectionView::fresh()),
        ConnectionView::fresh().conn_id == 0,
{
}

} // verus!
