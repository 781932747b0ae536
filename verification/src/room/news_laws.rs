//! Who is told what: of each operation of a room, which messages go to whom, and
//! what else is to happen.

use crate::clock::{Now, WallTime};
use crate::id_map::{
    filter_origin, filter_then_lookup, has_key, keys, lookup, others, put_then_lookup, unique_keys,
    without, without_then_lookup,
};
use crate::ids::{is_valid_id, verifier_of_token};
use crate::protocol::{ClientMessageView, ServerMessage, ServerMessageView};
use crate::room::model::{
    grace_is_over, outbound_to, queues_of, AdmissionView, EffectsView, OutboundView,
    ReservationView, RoomView,
};
use crate::room::transfer_laws::{announced_is_possible, targets_are_the_eligible};
use crate::room::ConnectedPeer;
use tokio::sync::mpsc::Sender;
use tokio_util::sync::CancellationToken;
use vstd::prelude::*;

verus! {

/// A message with nothing in it but its type.
pub open spec fn plain(msg_type: Seq<char>) -> ServerMessageView {
    ServerMessageView {
        msg_type,
        session_id: None,
        peer_id: None,
        host_peer_id: None,
        reconnect_token: None,
        protocol_version: 0,
        from: None,
        peers: None,
        features: None,
        host_transfer_targets: None,
        code: None,
        message: None,
        payload: None,
    }
}

/// The effects that consist of one `error` reply.
pub open spec fn error_reply(code: Seq<char>, text: Seq<char>) -> EffectsView {
    EffectsView {
        reply: Some(
            ServerMessageView { code: Some(code), message: Some(text), ..plain("error"@) },
        ),
        broadcast: Seq::empty(),
        evict: Seq::empty(),
        dirty: false,
        assigned_conn_id: None,
        assigned_cancel: None,
    }
}

/// Nothing is done and nobody is told anything.
pub open spec fn is_silent(effects: EffectsView) -> bool {
    &&& effects.reply is None
    &&& effects.broadcast.len() == 0
    &&& effects.evict.len() == 0
    &&& !effects.dirty
    &&& effects.assigned_conn_id is None
    &&& effects.assigned_cancel is None
}

/// `msg` is among the messages, on the queue `tx`.
pub open spec fn told(
    sent: Seq<OutboundView>,
    tx: Sender<ServerMessage>,
    msg: ServerMessageView,
) -> bool {
    exists|k: int| 0 <= k < sent.len() && (#[trigger] sent[k]).tx == tx && sent[k].msg == msg
}

/// `msg` goes once to each of the peers that are to hear it, and nothing else is
/// sent.
pub open spec fn reaches(
    sent: Seq<OutboundView>,
    peers: Seq<(Seq<char>, ConnectedPeer)>,
    hears: spec_fn((Seq<char>, ConnectedPeer)) -> bool,
    msg: ServerMessageView,
) -> bool {
    &&& sent.len() == peers.filter(hears).len()
    &&& forall|k: int| 0 <= k < sent.len() ==> (#[trigger] sent[k]).msg == msg
    &&& forall|i: int|
        0 <= i < peers.len() && hears(peers[i]) ==> told(sent, (#[trigger] peers[i]).1.tx, msg)
    &&& forall|k: int|
        0 <= k < sent.len() ==> exists|i: int|
            0 <= i < peers.len() && hears(#[trigger] peers[i]) && (#[trigger] sent[k]).tx
                == peers[i].1.tx
}

/// Each of the peers that are to hear the news gets it on its own queue. First
/// the news is sent to all of them, then the eligibility to each capable peer,
/// and nothing else is sent.
pub open spec fn announces(
    sent: Seq<OutboundView>,
    peers: Seq<(Seq<char>, ConnectedPeer)>,
    hears: spec_fn((Seq<char>, ConnectedPeer)) -> bool,
    news: ServerMessageView,
    eligibility: ServerMessageView,
) -> bool {
    let hearing = peers.filter(hears).len() as int;
    &&& forall|i: int|
        0 <= i < peers.len() && hears(peers[i]) ==> told(sent, (#[trigger] peers[i]).1.tx, news)
    &&& hearing <= sent.len()
    &&& reaches(sent.take(hearing), peers, hears, news)
    &&& reaches(
        sent.skip(hearing),
        peers,
        |e: (Seq<char>, ConnectedPeer)| e.1.host_transfer_capable,
        eligibility,
    )
}

/// Two filters that agree on the members of a list pick the same ones.
pub(crate) proof fn same_filter<A>(s: Seq<A>, p: spec_fn(A) -> bool, q: spec_fn(A) -> bool)
    requires
        forall|i: int| 0 <= i < s.len() ==> p(#[trigger] s[i]) == q(s[i]),
    ensures
        s.filter(p) == s.filter(q),
    decreases s.len(),
{
    reveal(Seq::filter);
    if s.len() > 0 {
        let init = s.drop_last();
        assert forall|i: int| 0 <= i < init.len() implies p(#[trigger] init[i]) == q(init[i]) by {
            assert(init[i] == s[i]);
        }
        same_filter(init, p, q);
        assert(p(s[s.len() - 1]) == q(s[s.len() - 1]));
    }
}

/// The entries under other keys are those that a filter on the key picks.
proof fn others_are_filtered<K, V>(s: Seq<(K, V)>, k: K, other: spec_fn((K, V)) -> bool)
    requires
        forall|i: int| 0 <= i < s.len() ==> other(#[trigger] s[i]) == (s[i].0 != k),
    ensures
        others(s, k) == s.filter(other),
{
    same_filter(s, |e: (K, V)| e.0 != k, other);
}

/// Messages to the peers that pass a filter reach exactly those.
proof fn wave_reaches(
    peers: Seq<(Seq<char>, ConnectedPeer)>,
    hears: spec_fn((Seq<char>, ConnectedPeer)) -> bool,
    msg: ServerMessageView,
)
    ensures
        reaches(outbound_to(peers.filter(hears), msg), peers, hears, msg),
{
    let sent = outbound_to(peers.filter(hears), msg);
    let at = filter_origin(peers, hears);
    assert forall|i: int| 0 <= i < peers.len() && hears(peers[i]) implies told(
        sent,
        (#[trigger] peers[i]).1.tx,
        msg,
    ) by {
        assert(at.contains(i));
        let k = choose|k: int| 0 <= k < at.len() && at[k] == i;
        assert(peers.filter(hears)[k] == peers[at[k]]);
        assert(sent[k].tx == peers[i].1.tx && sent[k].msg == msg);
    }
    assert forall|k: int| 0 <= k < sent.len() implies exists|i: int|
        0 <= i < peers.len() && hears(#[trigger] peers[i]) && (#[trigger] sent[k]).tx
            == peers[i].1.tx by {
        let i = at[k];
        assert(peers.filter(hears)[k] == peers[i]);
        assert(hears(peers[i]) && sent[k].tx == peers[i].1.tx);
    }
}

/// News to some, then the eligibility to the capable ones.
proof fn two_waves(
    peers: Seq<(Seq<char>, ConnectedPeer)>,
    hears: spec_fn((Seq<char>, ConnectedPeer)) -> bool,
    news: ServerMessageView,
    eligibility: ServerMessageView,
)
    ensures
        announces(
            outbound_to(peers.filter(hears), news) + outbound_to(
                peers.filter(|e: (Seq<char>, ConnectedPeer)| e.1.host_transfer_capable),
                eligibility,
            ),
            peers,
            hears,
            news,
            eligibility,
        ),
{
    let capable = |e: (Seq<char>, ConnectedPeer)| e.1.host_transfer_capable;
    let first = outbound_to(peers.filter(hears), news);
    let second = outbound_to(peers.filter(capable), eligibility);
    wave_reaches(peers, hears, news);
    wave_reaches(peers, capable, eligibility);
    assert((first + second).take(first.len() as int) =~= first);
    assert((first + second).skip(first.len() as int) =~= second);
    assert forall|i: int| 0 <= i < peers.len() && hears(peers[i]) implies told(
        first + second,
        (#[trigger] peers[i]).1.tx,
        news,
    ) by {
        assert(told(first, peers[i].1.tx, news));
        let k = choose|k: int|
            0 <= k < first.len() && (#[trigger] first[k]).tx == peers[i].1.tx && first[k].msg
                == news;
        assert((first + second)[k] == first[k]);
    }
}

/// What capable peers are told of who may take over as host.
pub open spec fn eligibility_of(room: RoomView) -> ServerMessageView {
    ServerMessageView {
        session_id: Some(room.session_id),
        host_peer_id: Some(room.host_peer_id),
        host_transfer_targets: Some(room.announced_targets()),
        ..plain("hostTransferEligibility"@)
    }
}

/// The ids are those of the connected peers but `peer_id`, each once.
pub open spec fn lists_the_others(
    ids: Seq<Seq<char>>,
    peers: Seq<(Seq<char>, ConnectedPeer)>,
    peer_id: Seq<char>,
) -> bool {
    &&& ids.no_duplicates()
    &&& forall|id: Seq<char>| #[trigger]
        ids.contains(id) <==> id != peer_id && exists|i: int|
            0 <= i < peers.len() && (#[trigger] peers[i]).0 == id
}

/// The others' ids list the others.
proof fn others_are_listed(peers: Seq<(Seq<char>, ConnectedPeer)>, peer_id: Seq<char>)
    requires
        unique_keys(peers),
    ensures
        lists_the_others(keys(others(peers, peer_id)), peers, peer_id),
{
    let other = |e: (Seq<char>, ConnectedPeer)| e.0 != peer_id;
    let ids = keys(others(peers, peer_id));
    let at = filter_origin(peers, other);
    others_are_filtered(peers, peer_id, other);
    assert forall|i: int, j: int| 0 <= i < j < ids.len() implies ids[i] != ids[j] by {
        assert(at[i] < at[j]);
        assert(peers[at[i]].0 != peers[at[j]].0);
    }
    assert forall|id: Seq<char>| #[trigger]
        ids.contains(id) <==> id != peer_id && exists|i: int|
            0 <= i < peers.len() && (#[trigger] peers[i]).0 == id by {
        if ids.contains(id) {
            let k = choose|k: int| 0 <= k < ids.len() && ids[k] == id;
            assert(peers[at[k]].0 == id);
        }
        if id != peer_id && exists|i: int| 0 <= i < peers.len() && (#[trigger] peers[i]).0 == id {
            let i = choose|i: int| 0 <= i < peers.len() && (#[trigger] peers[i]).0 == id;
            assert(at.contains(i));
            let k = choose|k: int| 0 <= k < at.len() && at[k] == i;
            assert(ids[k] == id);
        }
    }
}

/// What a peer that was admitted is told.
pub open spec fn welcomes(
    reply: Option<ServerMessageView>,
    msg_type: Seq<char>,
    room: RoomView,
    peer_id: Seq<char>,
    token: Option<Seq<char>>,
) -> bool {
    &&& reply is Some
    &&& reply->0.peers is Some
    &&& lists_the_others(reply->0.peers->0, room.peers, peer_id)
    &&& reply->0 == (ServerMessageView {
        session_id: Some(room.session_id),
        host_peer_id: Some(room.host_peer_id),
        reconnect_token: token,
        protocol_version: 2,
        peers: reply->0.peers,
        features: Some(seq!["atomicHostTransfer"@, "authenticatedResume"@]),
        ..plain(msg_type)
    })
}

/// Under `peer_id` the connection of the admission speaks now, with the number
/// and the token given; nobody else's connection changed.
pub open spec fn connects(
    after: RoomView,
    before: RoomView,
    peer_id: Seq<char>,
    admission: AdmissionView,
    conn_id: u64,
    cancel: CancellationToken,
) -> bool {
    &&& lookup(after.peers, peer_id) == Some(
        ConnectedPeer {
            tx: admission.tx,
            sync_protocol_version: admission.sync_protocol_version,
            host_transfer_capable: admission.host_transfer_capable,
            conn_id,
            cancel,
        },
    )
    &&& forall|id: Seq<char>|
        id != peer_id ==> #[trigger] lookup(after.peers, id) == lookup(before.peers, id)
}

/// The room is still the same one, with the same host.
pub open spec fn same_room(after: RoomView, before: RoomView) -> bool {
    &&& after.session_id == before.session_id
    &&& after.host_peer_id == before.host_peer_id
    &&& after.host_verifier == before.host_verifier
    &&& after.owner_ip_key == before.owner_ip_key
    &&& after.created_at == before.created_at
    &&& after.closing == before.closing
}

/// A room that was just made holds its host and nobody else, and the host is
/// told so.
pub proof fn new_room_has_its_host(
    session_id: Seq<char>,
    host_peer_id: Seq<char>,
    host_verifier: Seq<u8>,
    owner_ip_key: Seq<char>,
    host: AdmissionView,
    now: Now,
    cancel: CancellationToken,
)
    ensures
        ({
            let outcome = RoomView::created(
                session_id,
                host_peer_id,
                host_verifier,
                owner_ip_key,
                host,
                now,
                cancel,
            );
            let room = outcome.room;
            &&& room.session_id == session_id
            &&& room.host_peer_id == host_peer_id
            &&& room.host_verifier == host_verifier
            &&& room.owner_ip_key == owner_ip_key
            &&& room.created_at == now.wall
            &&& room.last_activity_at == now.wall
            &&& !room.closing
            &&& room.reservations.len() == 0
            &&& room.peers.len() == 1
            &&& room.peers[0] == (
                host_peer_id,
                ConnectedPeer {
                    tx: host.tx,
                    sync_protocol_version: host.sync_protocol_version,
                    host_transfer_capable: host.host_transfer_capable,
                    conn_id: 1,
                    cancel,
                },
            )
            &&& room.next_conn_id == 2
            &&& outcome.effects.reply == Some(
                ServerMessageView {
                    session_id: Some(session_id),
                    host_peer_id: Some(host_peer_id),
                    protocol_version: 2,
                    features: Some(seq!["atomicHostTransfer"@, "authenticatedResume"@]),
                    ..plain("created"@)
                },
            )
            &&& announces(
                outcome.effects.broadcast,
                room.peers,
                |e: (Seq<char>, ConnectedPeer)| false,
                plain(Seq::empty()),
                eligibility_of(room),
            )
            &&& outcome.effects.evict.len() == 0
            &&& outcome.effects.dirty
            &&& outcome.effects.assigned_conn_id == Some(1u64)
            &&& outcome.effects.assigned_cancel == Some(cancel)
        }),
{
    let outcome = RoomView::created(
        session_id,
        host_peer_id,
        host_verifier,
        owner_ip_key,
        host,
        now,
        cancel,
    );
    eligibility_alone(outcome.room);
    assert(outcome.effects.broadcast == outcome.room.eligibility_news());
}

/// Where there is no news, the eligibility alone is sent.
proof fn eligibility_alone(room: RoomView)
    ensures
        announces(
            room.eligibility_news(),
            room.peers,
            |e: (Seq<char>, ConnectedPeer)| false,
            plain(Seq::empty()),
            eligibility_of(room),
        ),
{
    let nobody = |e: (Seq<char>, ConnectedPeer)| false;
    let news = plain(Seq::empty());
    two_waves(room.peers, nobody, news, eligibility_of(room));
    let at = filter_origin(room.peers, nobody);
    if at.len() > 0 {
        assert(nobody(room.peers[at[0]]));
    }
    let capable = |e: (Seq<char>, ConnectedPeer)| e.1.host_transfer_capable;
    assert(outbound_to(room.peers.filter(nobody), news) + outbound_to(
        room.peers.filter(capable),
        eligibility_of(room),
    ) =~= room.eligibility_news());
}

/// News to everyone but one, then the eligibility.
proof fn others_then_eligibility(room: RoomView, peer_id: Seq<char>, news: ServerMessageView)
    ensures
        announces(
            room.to_others(peer_id, news) + room.eligibility_news(),
            room.peers,
            |e: (Seq<char>, ConnectedPeer)| e.0 != peer_id,
            news,
            eligibility_of(room),
        ),
{
    let other = |e: (Seq<char>, ConnectedPeer)| e.0 != peer_id;
    others_are_filtered(room.peers, peer_id, other);
    two_waves(room.peers, other, news, eligibility_of(room));
}

/// A host that connects again speaks for its identity from then on. Whoever else
/// is connected hears of it if the host was away, an earlier connection of the
/// host is shut down, and nothing else of the room changes.
pub proof fn returning_host_takes_its_place(
    room: RoomView,
    host: AdmissionView,
    cancel: CancellationToken,
)
    requires
        room.wf(),
        room.next_conn_id < u64::MAX,
    ensures
        ({
            let outcome = room.host_reconnected(host, cancel);
            let after = outcome.room;
            let id = room.host_peer_id;
            let was_away = lookup(room.peers, id) is None;
            &&& same_room(after, room)
            &&& after.reservations == room.reservations
            &&& after.last_activity_at == room.last_activity_at
            &&& after.next_conn_id == room.next_conn_id + 1
            &&& connects(after, room, id, host, room.next_conn_id, cancel)
            &&& welcomes(outcome.effects.reply, "created"@, after, id, None)
            &&& announces(
                outcome.effects.broadcast,
                after.peers,
                |e: (Seq<char>, ConnectedPeer)| was_away && e.0 != id,
                ServerMessageView { peer_id: Some(id), ..plain("peerJoined"@) },
                eligibility_of(after),
            )
            &&& outcome.effects.evict == match lookup(room.peers, id) {
                Some(peer) => seq![peer.cancel],
                None => Seq::empty(),
            }
            &&& outcome.effects.dirty
            &&& outcome.effects.assigned_conn_id == Some(room.next_conn_id)
            &&& outcome.effects.assigned_cancel == Some(cancel)
        }),
{
    let outcome = room.host_reconnected(host, cancel);
    let after = outcome.room;
    let id = room.host_peer_id;
    let was_away = lookup(room.peers, id) is None;
    let news = ServerMessageView { peer_id: Some(id), ..plain("peerJoined"@) };
    put_then_lookup(
        room.peers,
        id,
        ConnectedPeer {
            tx: host.tx,
            sync_protocol_version: host.sync_protocol_version,
            host_transfer_capable: host.host_transfer_capable,
            conn_id: room.next_conn_id,
            cancel,
        },
    );
    others_are_listed(after.peers, id);
    let hears = |e: (Seq<char>, ConnectedPeer)| was_away && e.0 != id;
    two_waves(after.peers, hears, news, eligibility_of(after));
    let capable = |e: (Seq<char>, ConnectedPeer)| e.1.host_transfer_capable;
    let second = outbound_to(after.peers.filter(capable), eligibility_of(after));
    assert(second == after.eligibility_news());
    if was_away {
        others_are_filtered(after.peers, id, hears);
    } else {
        let at = filter_origin(after.peers, hears);
        if at.len() > 0 {
            assert(hears(after.peers[at[0]]));
        }
        assert(outbound_to(after.peers.filter(hears), news) + second =~= second);
    }
}

/// Whom a room is given to again: its own host, with the host's verifier; and
/// anybody, once nobody is connected. A room that is closing is given to nobody.
pub proof fn room_is_given_again(room: RoomView, peer_id: Seq<char>, presented: Seq<u8>)
    ensures
        room.is_hosted_by(peer_id, presented) <==> {
            &&& !room.closing
            &&& peer_id == room.host_peer_id
            &&& presented == room.host_verifier
        },
        room.is_reclaimable() <==> !room.closing && forall|id: Seq<char>| #[trigger]
            lookup(room.peers, id) is None,
{
    if room.peers.len() > 0 {
        assert(has_key(room.peers, room.peers[0].0));
        assert(lookup(room.peers, room.peers[0].0) is Some);
    }
}

/// A reservation is still good: it is being released, its guest is connected, or
/// its guest has been away for less than five minutes.
pub open spec fn outlives(room: RoomView, e: (Seq<char>, ReservationView), now: Now) -> bool {
    ||| e.1.release_pending
    ||| lookup(room.peers, e.0) is Some
    ||| match e.1.absent_since {
        Some(since) => now.mono.at() - since.at() < 300_000_000_000,
        None => true,
    }
}

/// What is reserved under `id`, if that is still good.
pub open spec fn still_held(room: RoomView, id: Seq<char>, now: Now) -> Option<ReservationView> {
    match lookup(room.reservations, id) {
        Some(r) => if outlives(room, (id, r), now) {
            Some(r)
        } else {
            None
        },
        None => None,
    }
}

/// How many reservations are still good.
pub open spec fn held_count(room: RoomView, now: Now) -> nat {
    room.reservations.filter(|e: (Seq<char>, ReservationView)| outlives(room, e, now)).len()
}

/// Pruning forgets the reservations that are no longer good, and changes nothing
/// else.
pub proof fn pruning_forgets_what_expired(room: RoomView, now: Now)
    requires
        unique_keys(room.reservations),
    ensures
        ({
            let after = room.pruned(now.mono);
            &&& same_room(after, room)
            &&& after.peers == room.peers
            &&& after.last_activity_at == room.last_activity_at
            &&& after.next_conn_id == room.next_conn_id
            &&& after.reservations.len() == held_count(room, now)
            &&& unique_keys(after.reservations)
            &&& forall|id: Seq<char>| #[trigger]
                lookup(after.reservations, id) == still_held(room, id, now)
        }),
{
    let good = |e: (Seq<char>, ReservationView)| outlives(room, e, now);
    let keeps = |e: (Seq<char>, ReservationView)|
        e.1.release_pending || room.connected(e.0) || !grace_is_over(e.1, now.mono);
    assert forall|i: int| 0 <= i < room.reservations.len() implies good(
        #[trigger] room.reservations[i],
    ) == keeps(room.reservations[i]) by {}
    same_filter(room.reservations, good, keeps);
    filter_then_lookup(room.reservations, good);
    assert(room.pruned(now.mono).reservations == room.reservations.filter(keeps));
}

/// Who is let into a room, and what the others are told who are not. The host
/// comes in with its own token, a guest with the token of its reservation while
/// that is good and not being released, and somebody new by a plain `join` with
/// any token of the right form while fewer than seven identities are held.
pub proof fn who_is_let_in(
    room: RoomView,
    msg: ClientMessageView,
    admission: AdmissionView,
    resume_only: bool,
    now: Now,
    cancel: CancellationToken,
)
    requires
        room.wf(),
    ensures
        ({
            let outcome = room.join_or_resume(msg, admission, resume_only, now, cancel);
            let id = admission.peer_id;
            let presented = verifier_of_token(msg.reconnect_token);
            let held = still_held(room, id, now);
            let known = if id == room.host_peer_id {
                presented == Some(room.host_verifier)
            } else {
                held is Some && !held->0.release_pending && presented == Some(held->0.verifier)
            };
            let new = id != room.host_peer_id && held is None && lookup(room.peers, id) is None
                && !resume_only && presented is Some;
            if room.closing {
                &&& outcome.room == room
                &&& outcome.effects == error_reply("room_not_found"@, "Room does not exist"@)
            } else if !known && !new {
                &&& outcome.effects == error_reply(
                    "peer_id_unavailable"@,
                    "Peer ID is unavailable"@,
                )
                &&& outcome.room == room.pruned(now.mono)
            } else if new && held_count(room, now) >= 7 {
                &&& outcome.effects == error_reply("room_full"@, "Room is full"@)
                &&& outcome.room == room.pruned(now.mono)
            } else {
                outcome.effects.assigned_conn_id is Some
            }
        }),
{
    pruning_forgets_what_expired(room, now);
    let id = admission.peer_id;
    let before = room.pruned(now.mono);
    assert(lookup(before.reservations, id) == still_held(room, id, now));
    let outcome = room.join_or_resume(msg, admission, resume_only, now, cancel);
    assert(room.connected(id) == (lookup(room.peers, id) is Some));
    assert(room.closing ==> outcome.effects =~= error_reply(
        "room_not_found"@,
        "Room does not exist"@,
    ));
}

/// A peer that is let in speaks for its identity from then on, which is reserved
/// for its token unless it is the host. It is told who else is there; everyone
/// else who is connected is told that it joined, and an earlier connection of
/// its own is shut down. Nobody else's connection or reservation changes, but
/// for what expired.
pub proof fn newcomer_is_announced_to_everyone(
    room: RoomView,
    msg: ClientMessageView,
    admission: AdmissionView,
    resume_only: bool,
    now: Now,
    cancel: CancellationToken,
)
    requires
        room.wf(),
        room.next_conn_id < u64::MAX,
        room.join_or_resume(
            msg,
            admission,
            resume_only,
            now,
            cancel,
        ).effects.assigned_conn_id is Some,
    ensures
        ({
            let outcome = room.join_or_resume(msg, admission, resume_only, now, cancel);
            let after = outcome.room;
            let id = admission.peer_id;
            &&& same_room(after, room)
            &&& after.last_activity_at == now.wall
            &&& after.next_conn_id == room.next_conn_id + 1
            &&& connects(after, room, id, admission, room.next_conn_id, cancel)
            &&& id != room.host_peer_id ==> lookup(after.reservations, id) == Some(
                ReservationView {
                    verifier: verifier_of_token(msg.reconnect_token)->0,
                    absent_since: None,
                    release_pending: false,
                },
            )
            &&& forall|other: Seq<char>|
                other != id || id == room.host_peer_id ==> #[trigger] lookup(
                    after.reservations,
                    other,
                ) == still_held(room, other, now)
            &&& announces(
                outcome.effects.broadcast,
                after.peers,
                |e: (Seq<char>, ConnectedPeer)| e.0 != id,
                ServerMessageView { peer_id: Some(id), ..plain("peerJoined"@) },
                eligibility_of(after),
            )
            &&& welcomes(
                outcome.effects.reply,
                if resume_only {
                    "resumed"@
                } else {
                    "joined"@
                },
                after,
                id,
                Some(msg.reconnect_token),
            )
            &&& outcome.effects.evict == match lookup(room.peers, id) {
                Some(peer) => seq![peer.cancel],
                None => Seq::empty(),
            }
            &&& outcome.effects.dirty
            &&& outcome.effects.assigned_conn_id == Some(room.next_conn_id)
            &&& outcome.effects.assigned_cancel == Some(cancel)
        }),
{
    let outcome = room.join_or_resume(msg, admission, resume_only, now, cancel);
    let after = outcome.room;
    let id = admission.peer_id;
    pruning_forgets_what_expired(room, now);
    let before = room.pruned(now.mono);
    put_then_lookup(
        room.peers,
        id,
        ConnectedPeer {
            tx: admission.tx,
            sync_protocol_version: admission.sync_protocol_version,
            host_transfer_capable: admission.host_transfer_capable,
            conn_id: room.next_conn_id,
            cancel,
        },
    );
    put_then_lookup(
        before.reservations,
        id,
        ReservationView {
            verifier: verifier_of_token(msg.reconnect_token)->0,
            absent_since: None,
            release_pending: false,
        },
    );
    others_are_listed(after.peers, id);
    others_then_eligibility(
        after,
        id,
        ServerMessageView { peer_id: Some(id), ..plain("peerJoined"@) },
    );
    assert forall|other: Seq<char>|
        other != id || id == room.host_peer_id implies #[trigger] lookup(
        after.reservations,
        other,
    ) == still_held(room, other, now) by {
        assert(lookup(before.reservations, other) == still_held(room, other, now));
    }
}

/// Who may begin to leave: the current connection of a guest, with the token of
/// a reservation that is not being released already. All that changes is that it
/// is being released then.
pub proof fn guest_may_begin_to_leave(
    room: RoomView,
    peer_id: Seq<char>,
    conn_id: u64,
    token: Seq<char>,
    protocol_version: u32,
)
    requires
        room.wf(),
    ensures
        room.may_leave(peer_id, conn_id, token, protocol_version) <==> {
            let peer = lookup(room.peers, peer_id);
            let held = lookup(room.reservations, peer_id);
            &&& !room.closing
            &&& protocol_version == 2
            &&& peer is Some
            &&& peer->0.conn_id == conn_id
            &&& peer_id != room.host_peer_id
            &&& held is Some
            &&& !held->0.release_pending
            &&& verifier_of_token(token) == Some(held->0.verifier)
        },
        lookup(room.reservations, peer_id) is Some ==> {
            let after = room.with_release(peer_id, true);
            &&& same_room(after, room)
            &&& after.peers == room.peers
            &&& after.last_activity_at == room.last_activity_at
            &&& after.next_conn_id == room.next_conn_id
            &&& lookup(after.reservations, peer_id) == Some(
                ReservationView {
                    release_pending: true,
                    ..lookup(room.reservations, peer_id)->0
                },
            )
            &&& forall|id: Seq<char>|
                id != peer_id ==> #[trigger] lookup(after.reservations, id) == lookup(
                    room.reservations,
                    id,
                )
        },
{
    put_then_lookup(
        room.reservations,
        peer_id,
        ReservationView { release_pending: true, ..lookup(room.reservations, peer_id)->0 },
    );
}

/// A guest that left is told so, and everyone who is still connected is told
/// that it left. One that could not is told that alone, and one that has gone
/// meanwhile is told nothing.
pub proof fn leaving_is_announced_to_everyone(
    room: RoomView,
    peer_id: Seq<char>,
    conn_id: u64,
    persisted: bool,
    now: WallTime,
)
    requires
        room.wf(),
    ensures
        ({
            let outcome = room.leave_finished(peer_id, conn_id, persisted, now);
            let after = outcome.room;
            let peer = lookup(room.peers, peer_id);
            let held = lookup(room.reservations, peer_id);
            &&& same_room(after, room)
            &&& after.next_conn_id == room.next_conn_id
            &&& forall|id: Seq<char>|
                id != peer_id ==> #[trigger] lookup(after.peers, id) == lookup(room.peers, id)
            &&& forall|id: Seq<char>|
                id != peer_id ==> #[trigger] lookup(after.reservations, id) == lookup(
                    room.reservations,
                    id,
                )
            &&& if held is None || !held->0.release_pending || (peer is Some && peer->0.conn_id
                != conn_id) {
                after == room && is_silent(outcome.effects)
            } else if peer is None {
                &&& after.peers == room.peers
                &&& lookup(after.reservations, peer_id) == if persisted {
                    None
                } else {
                    Some(ReservationView { release_pending: false, ..held->0 })
                }
                &&& after.last_activity_at == room.last_activity_at
                &&& outcome.effects.reply is None
                &&& outcome.effects.broadcast.len() == 0
                &&& outcome.effects.evict.len() == 0
                &&& outcome.effects.dirty
            } else if !persisted {
                &&& after.peers == room.peers
                &&& lookup(after.reservations, peer_id) == Some(
                    ReservationView { release_pending: false, ..held->0 },
                )
                &&& after.last_activity_at == room.last_activity_at
                &&& outcome.effects == error_reply(
                    "invalid_message"@,
                    "Unable to persist released peer identity"@,
                )
            } else {
                &&& lookup(after.peers, peer_id) is None
                &&& lookup(after.reservations, peer_id) is None
                &&& after.last_activity_at == now
                &&& outcome.effects.reply == Some(
                    ServerMessageView {
                        session_id: Some(room.session_id),
                        peer_id: Some(peer_id),
                        protocol_version: 2,
                        ..plain("left"@)
                    },
                )
                &&& announces(
                    outcome.effects.broadcast,
                    after.peers,
                    |e: (Seq<char>, ConnectedPeer)| e.0 != peer_id,
                    ServerMessageView { peer_id: Some(peer_id), ..plain("peerLeft"@) },
                    eligibility_of(after),
                )
                &&& outcome.effects.evict.len() == 0
                &&& outcome.effects.dirty
                &&& outcome.effects.assigned_conn_id is None
            }
        }),
{
    let outcome = room.leave_finished(peer_id, conn_id, persisted, now);
    without_then_lookup(room.peers, peer_id);
    without_then_lookup(room.reservations, peer_id);
    put_then_lookup(
        room.reservations,
        peer_id,
        ReservationView { release_pending: false, ..lookup(room.reservations, peer_id)->0 },
    );
    others_then_eligibility(
        outcome.room,
        peer_id,
        ServerMessageView { peer_id: Some(peer_id), ..plain("peerLeft"@) },
    );
    assert(outcome.effects.reply is Some && outcome.effects.reply->0.code is Some
        ==> outcome.effects =~= error_reply(
        "invalid_message"@,
        "Unable to persist released peer identity"@,
    ));
}

/// Who may end a session: the current connection of the host, with the host's
/// token.
pub proof fn host_may_end_its_session(
    room: RoomView,
    peer_id: Seq<char>,
    conn_id: u64,
    token: Seq<char>,
    protocol_version: u32,
)
    ensures
        room.may_end_session(peer_id, conn_id, token, protocol_version) <==> {
            let peer = lookup(room.peers, peer_id);
            &&& !room.closing
            &&& protocol_version == 2
            &&& peer_id == room.host_peer_id
            &&& peer is Some
            &&& peer->0.conn_id == conn_id
            &&& verifier_of_token(token) == Some(room.host_verifier)
        },
{
}

/// When a session has ended, everyone who is connected is shut down. If that was
/// saved, the host and the guests on each of the queues are told; if not, the
/// host alone is told that it failed.
pub proof fn ended_session_is_told_to_everyone(
    room: RoomView,
    guests: Seq<Sender<ServerMessage>>,
    persisted: bool,
)
    ensures
        ({
            let outcome = room.session_ended(guests, persisted);
            let effects = outcome.effects;
            let ended = ServerMessageView {
                session_id: Some(room.session_id),
                protocol_version: 2,
                ..plain("ended"@)
            };
            &&& outcome.room.peers.len() == 0
            &&& outcome.room.reservations.len() == 0
            &&& effects.evict.len() == room.peers.len()
            &&& forall|i: int|
                0 <= i < room.peers.len() ==> effects.evict[i] == (
                #[trigger] room.peers[i]).1.cancel
            &&& !effects.dirty
            &&& effects.assigned_conn_id is None
            &&& effects.assigned_cancel is None
            &&& if persisted {
                &&& effects.reply == Some(ended)
                &&& effects.broadcast.len() == guests.len()
                &&& forall|i: int|
                    0 <= i < guests.len() ==> {
                        &&& (#[trigger] effects.broadcast[i]).tx == guests[i]
                        &&& effects.broadcast[i].msg == ended
                    }
            } else {
                &&& effects.reply == Some(
                    ServerMessageView {
                        code: Some("invalid_message"@),
                        message: Some("Unable to persist ended room"@),
                        ..plain("error"@)
                    },
                )
                &&& effects.broadcast.len() == 0
            }
        }),
{
}

/// The guests that a session's end is told to are all who are connected but the
/// host, each once.
pub proof fn every_guest_has_a_queue(room: RoomView, host: Seq<char>)
    ensures
        ({
            let queues = queues_of(others(room.peers, host));
            &&& queues.len() == room.peers.filter(
                |e: (Seq<char>, ConnectedPeer)| e.0 != host,
            ).len()
            &&& forall|tx: Sender<ServerMessage>| #[trigger]
                queues.contains(tx) <==> exists|i: int|
                    0 <= i < room.peers.len() && (#[trigger] room.peers[i]).0 != host
                        && room.peers[i].1.tx == tx
        }),
{
    let other = |e: (Seq<char>, ConnectedPeer)| e.0 != host;
    others_are_filtered(room.peers, host, other);
    let queues = queues_of(others(room.peers, host));
    let at = filter_origin(room.peers, other);
    assert forall|tx: Sender<ServerMessage>| #[trigger]
        queues.contains(tx) <==> exists|i: int|
            0 <= i < room.peers.len() && (#[trigger] room.peers[i]).0 != host
                && room.peers[i].1.tx == tx by {
        if queues.contains(tx) {
            let k = choose|k: int| 0 <= k < queues.len() && queues[k] == tx;
            assert(other(room.peers[at[k]]));
            assert(others(room.peers, host)[k] == room.peers[at[k]]);
        }
        if exists|i: int|
            0 <= i < room.peers.len() && (#[trigger] room.peers[i]).0 != host
                && room.peers[i].1.tx == tx {
            let i = choose|i: int|
                0 <= i < room.peers.len() && (#[trigger] room.peers[i]).0 != host
                    && room.peers[i].1.tx == tx;
            assert(other(room.peers[i]));
            let k = choose|k: int| 0 <= k < at.len() && at[k] == i;
            assert(queues[k] == tx);
        }
    }
}

/// A host transfer, from its conditions to who is told. Where it succeeds, every
/// connected peer, bystanders too, is told who the host is and who was; the new
/// host's token is the one that was reserved for it, and the former host's is
/// reserved for the former host.
pub proof fn transfer_is_told_to_everyone(
    room: RoomView,
    peer_id: Seq<char>,
    conn_id: u64,
    protocol_version: u32,
    target: Seq<char>,
)
    requires
        room.wf(),
    ensures
        ({
            let outcome = room.transfer_host(peer_id, conn_id, protocol_version, target);
            let after = outcome.room;
            let effects = outcome.effects;
            let peer = lookup(room.peers, peer_id);
            let held = lookup(room.reservations, target);
            if room.closing || peer is None || peer->0.conn_id != conn_id || protocol_version
                != 2 {
                &&& after == room
                &&& effects == error_reply(
                    "peer_id_unavailable"@,
                    "Unable to transfer host authority"@,
                )
            } else if peer_id != room.host_peer_id {
                &&& after == room
                &&& effects == error_reply(
                    "not_host"@,
                    "Only the host can transfer host authority"@,
                )
            } else if !is_valid_id(target, 128) || target == peer_id || lookup(
                room.peers,
                target,
            ) is None || held is None || held->0.release_pending {
                &&& after == room
                &&& effects == error_reply("peer_not_found"@, "Target peer not found"@)
            } else if !room.announced_targets().contains(target) {
                &&& after == room
                &&& effects == error_reply(
                    "host_transfer_unavailable"@,
                    "The current room roster cannot follow a host transfer"@,
                )
            } else {
                &&& after.host_peer_id == target
                &&& after.host_verifier == held->0.verifier
                &&& after.peers == room.peers
                &&& after.session_id == room.session_id
                &&& after.owner_ip_key == room.owner_ip_key
                &&& after.created_at == room.created_at
                &&& after.last_activity_at == room.last_activity_at
                &&& !after.closing
                &&& after.next_conn_id == room.next_conn_id
                &&& lookup(after.reservations, target) is None
                &&& lookup(after.reservations, peer_id) == Some(
                    ReservationView {
                        verifier: room.host_verifier,
                        absent_since: None,
                        release_pending: false,
                    },
                )
                &&& forall|id: Seq<char>|
                    id != target && id != peer_id ==> #[trigger] lookup(after.reservations, id)
                        == lookup(room.reservations, id)
                &&& announces(
                    effects.broadcast,
                    room.peers,
                    |e: (Seq<char>, ConnectedPeer)| true,
                    ServerMessageView {
                        session_id: Some(room.session_id),
                        host_peer_id: Some(target),
                        from: Some(peer_id),
                        ..plain("hostChanged"@)
                    },
                    eligibility_of(after),
                )
                &&& effects.reply is None
                &&& effects.evict.len() == 0
                &&& effects.dirty
                &&& effects.assigned_conn_id is None
            }
        }),
{
    let outcome = room.transfer_host(peer_id, conn_id, protocol_version, target);
    let after = outcome.room;
    targets_are_the_eligible(room, target);
    announced_is_possible(room, target);
    let everyone = |e: (Seq<char>, ConnectedPeer)| true;
    let news = ServerMessageView {
        session_id: Some(room.session_id),
        host_peer_id: Some(target),
        from: Some(peer_id),
        ..plain("hostChanged"@)
    };
    two_waves(room.peers, everyone, news, eligibility_of(after));
    all_pass(room.peers, everyone);
    without_then_lookup(room.reservations, target);
    put_then_lookup(
        without(room.reservations, target),
        room.host_peer_id,
        ReservationView {
            verifier: room.host_verifier,
            absent_since: None,
            release_pending: false,
        },
    );
}

/// A filter that everything passes picks everything.
proof fn all_pass<A>(s: Seq<A>, p: spec_fn(A) -> bool)
    requires
        forall|i: int| 0 <= i < s.len() ==> p(#[trigger] s[i]),
    ensures
        s.filter(p) == s,
    decreases s.len(),
{
    reveal(Seq::filter);
    if s.len() > 0 {
        let init = s.drop_last();
        assert forall|i: int| 0 <= i < init.len() implies p(#[trigger] init[i]) by {
            assert(init[i] == s[i]);
        }
        all_pass(init, p);
        assert(p(s[s.len() - 1]));
        assert(init.push(s.last()) =~= s);
    } else {
        assert(s.filter(p) =~= s);
    }
}

/// A payload for one peer goes to that peer alone, unchanged and under its
/// sender's name; where there is no such peer, the sender is told so.
pub proof fn payload_goes_to_its_target_alone(
    room: RoomView,
    sender_id: Seq<char>,
    conn_id: u64,
    target_id: Seq<char>,
    payload: Option<Seq<char>>,
    now: WallTime,
)
    ensures
        ({
            let outcome = room.send_to(sender_id, conn_id, target_id, payload, now);
            let sender = lookup(room.peers, sender_id);
            let target = lookup(room.peers, target_id);
            if room.closing || sender is None || sender->0.conn_id != conn_id {
                outcome.room == room && is_silent(outcome.effects)
            } else if target is None {
                &&& outcome.room == room
                &&& outcome.effects == error_reply("not_in_room"@, "Target peer not found"@)
            } else {
                &&& same_room(outcome.room, room)
                &&& outcome.room.peers == room.peers
                &&& outcome.room.reservations == room.reservations
                &&& outcome.room.next_conn_id == room.next_conn_id
                &&& outcome.room.last_activity_at == now
                &&& outcome.effects.broadcast.len() == 1
                &&& outcome.effects.broadcast[0].tx == target->0.tx
                &&& outcome.effects.broadcast[0].msg == (ServerMessageView {
                    from: Some(sender_id),
                    payload,
                    ..plain("message"@)
                })
                &&& outcome.effects.reply is None
                &&& outcome.effects.evict.len() == 0
                &&& !outcome.effects.dirty
                &&& outcome.effects.assigned_conn_id is None
            }
        }),
{
}

/// A payload for everyone goes to each other connected peer once, unchanged and
/// under its sender's name.
pub proof fn payload_goes_to_everyone_else(
    room: RoomView,
    sender_id: Seq<char>,
    conn_id: u64,
    payload: Option<Seq<char>>,
    now: WallTime,
)
    ensures
        ({
            let outcome = room.broadcast(sender_id, conn_id, payload, now);
            let sender = lookup(room.peers, sender_id);
            if room.closing || sender is None || sender->0.conn_id != conn_id {
                outcome.room == room && is_silent(outcome.effects)
            } else {
                &&& same_room(outcome.room, room)
                &&& outcome.room.peers == room.peers
                &&& outcome.room.reservations == room.reservations
                &&& outcome.room.next_conn_id == room.next_conn_id
                &&& outcome.room.last_activity_at == now
                &&& reaches(
                    outcome.effects.broadcast,
                    room.peers,
                    |e: (Seq<char>, ConnectedPeer)| e.0 != sender_id,
                    ServerMessageView { from: Some(sender_id), payload, ..plain("message"@) },
                )
                &&& outcome.effects.reply is None
                &&& outcome.effects.evict.len() == 0
                &&& !outcome.effects.dirty
                &&& outcome.effects.assigned_conn_id is None
            }
        }),
{
    let other = |e: (Seq<char>, ConnectedPeer)| e.0 != sender_id;
    others_are_filtered(room.peers, sender_id, other);
    wave_reaches(
        room.peers,
        other,
        ServerMessageView { from: Some(sender_id), payload, ..plain("message"@) },
    );
}

/// A connection that goes away is announced to everyone who is still there. A
/// guest's identity stays reserved for its token, and its absence counts from
/// then on.
pub proof fn disconnection_is_announced_to_everyone(
    room: RoomView,
    peer_id: Seq<char>,
    conn_id: u64,
    now: Now,
)
    requires
        room.wf(),
    ensures
        ({
            let outcome = room.disconnected(peer_id, conn_id, now);
            let after = outcome.room;
            let peer = lookup(room.peers, peer_id);
            let held = lookup(room.reservations, peer_id);
            if room.closing || peer is None || peer->0.conn_id != conn_id {
                after == room && is_silent(outcome.effects)
            } else {
                &&& same_room(after, room)
                &&& after.next_conn_id == room.next_conn_id
                &&& after.last_activity_at == now.wall
                &&& lookup(after.peers, peer_id) is None
                &&& forall|id: Seq<char>|
                    id != peer_id ==> #[trigger] lookup(after.peers, id) == lookup(room.peers, id)
                &&& lookup(after.reservations, peer_id) == match held {
                    Some(r) => Some(ReservationView { absent_since: Some(now.mono), ..r }),
                    None => None,
                }
                &&& forall|id: Seq<char>|
                    id != peer_id ==> #[trigger] lookup(after.reservations, id) == lookup(
                        room.reservations,
                        id,
                    )
                &&& announces(
                    outcome.effects.broadcast,
                    after.peers,
                    |e: (Seq<char>, ConnectedPeer)| e.0 != peer_id,
                    ServerMessageView { peer_id: Some(peer_id), ..plain("peerLeft"@) },
                    eligibility_of(after),
                )
                &&& outcome.effects.reply is None
                &&& outcome.effects.evict.len() == 0
                &&& outcome.effects.dirty
                &&& outcome.effects.assigned_conn_id is None
            }
        }),
{
    let outcome = room.disconnected(peer_id, conn_id, now);
    without_then_lookup(room.peers, peer_id);
    put_then_lookup(
        room.reservations,
        peer_id,
        ReservationView {
            absent_since: Some(now.mono),
            ..lookup(room.reservations, peer_id)->0
        },
    );
    others_then_eligibility(
        outcome.room,
        peer_id,
        ServerMessageView { peer_id: Some(peer_id), ..plain("peerLeft"@) },
    );
}

} // verus!
