//! What holds of a change of host.

use crate::host_transfer::{
    can_follow, find_peer, target_ids, target_is_valid, targets_among, PeerInfoView,
};
use crate::id_map::{
    entry_is_found, filter_origin, filter_push, has_key, lookup, position, put_then_lookup,
    unique_keys, without, without_then_lookup,
};
use crate::ids::is_valid_id;
use crate::protocol::{MAX_PEER_ID_LENGTH, RELAY_PROTOCOL_VERSION};
use crate::room::model::{infos_of, ReservationView, RoomView};
use crate::room::ConnectedPeer;
use vstd::prelude::*;

verus! {

/// Looking a peer up in what the admissions said finds what that peer's said.
proof fn found_info(peers: Seq<(Seq<char>, ConnectedPeer)>, id: Seq<char>)
    requires
        unique_keys(peers),
    ensures
        match lookup(peers, id) {
            Some(peer) => find_peer(infos_of(peers), id) == Some(
                PeerInfoView {
                    peer_id: id,
                    sync_protocol_version: peer.sync_protocol_version,
                    host_transfer_capable: peer.host_transfer_capable,
                },
            ),
            None => find_peer(infos_of(peers), id) is None,
        },
    decreases peers.len(),
{
    let infos = infos_of(peers);
    if peers.len() > 0 {
        entry_is_found(peers, 0);
        if peers[0].0 != id {
            let rest = peers.drop_first();
            assert(infos.drop_first() =~= infos_of(rest));
            found_info(rest, id);
            if has_key(peers, id) {
                let i = position(peers, id);
                assert(rest[i - 1] == peers[i]);
                entry_is_found(rest, i - 1);
                entry_is_found(peers, i);
            }
            if has_key(rest, id) {
                let i = position(rest, id);
                assert(peers[i + 1] == rest[i]);
                assert(has_key(peers, id));
            }
        }
    }
}

/// Who is listed as a target: those among the peers who may take over.
proof fn listed_targets(
    host: Seq<char>,
    peers: Seq<PeerInfoView>,
    reserved: spec_fn(Seq<char>) -> bool,
    part: Seq<PeerInfoView>,
    target: Seq<char>,
)
    ensures
        targets_among(host, peers, reserved, part).contains(target) <==> target_is_valid(
            host,
            peers,
            reserved,
            target,
        ) && exists|i: int| 0 <= i < part.len() && (#[trigger] part[i]).peer_id == target,
    decreases part.len(),
{
    let valid = |p: PeerInfoView| target_is_valid(host, peers, reserved, p.peer_id);
    let ids = targets_among(host, peers, reserved, part);
    if part.len() == 0 {
        reveal(Seq::filter);
        assert(ids =~= Seq::empty());
    } else {
        let init = part.drop_last();
        let last = part.last();
        let before = targets_among(host, peers, reserved, init);
        listed_targets(host, peers, reserved, init, target);
        assert(part =~= init.push(last));
        filter_push(init, valid, last);
        if valid(last) {
            assert(ids =~= before.push(last.peer_id));
            if ids.contains(target) {
                let k = choose|k: int| 0 <= k < ids.len() && ids[k] == target;
                if k < before.len() {
                    assert(before[k] == target);
                    let i = choose|i: int|
                        0 <= i < init.len() && (#[trigger] init[i]).peer_id == target;
                    assert(part[i].peer_id == target);
                } else {
                    assert(part[part.len() - 1].peer_id == target);
                }
            }
            if before.contains(target) {
                let k = choose|k: int| 0 <= k < before.len() && before[k] == target;
                assert(ids[k] == target);
            }
            assert(ids[before.len() as int] == last.peer_id);
        } else {
            assert(ids =~= before);
            if before.contains(target) {
                let i = choose|i: int|
                    0 <= i < init.len() && (#[trigger] init[i]).peer_id == target;
                assert(part[i].peer_id == target);
            }
        }
        if target_is_valid(host, peers, reserved, target) && exists|i: int|
            0 <= i < part.len() && (#[trigger] part[i]).peer_id == target {
            let i = choose|i: int| 0 <= i < part.len() && (#[trigger] part[i]).peer_id == target;
            if i < init.len() {
                assert(init[i].peer_id == target);
            }
        }
    }
}

/// Whoever is found in a roster is in it.
proof fn found_is_listed(peers: Seq<PeerInfoView>, id: Seq<char>)
    requires
        find_peer(peers, id) is Some,
    ensures
        exists|i: int| 0 <= i < peers.len() && (#[trigger] peers[i]).peer_id == id,
    decreases peers.len(),
{
    if peers[0].peer_id != id {
        found_is_listed(peers.drop_first(), id);
        let i = choose|i: int|
            0 <= i < peers.drop_first().len() && (#[trigger] peers.drop_first()[i]).peer_id == id;
        assert(peers[i + 1].peer_id == id);
    } else {
        assert(peers[0].peer_id == id);
    }
}

impl RoomView {
    /// The targets that the room announces.
    pub open spec fn announced_targets(self) -> Seq<Seq<char>> {
        target_ids(
            self.host_peer_id,
            infos_of(self.peers),
            |id: Seq<char>| self.holds_reservation(id),
        )
    }
}

/// The targets that a room announces are those who may take over.
pub(crate) proof fn announced_is_possible(room: RoomView, target: Seq<char>)
    ensures
        room.announced_targets().contains(target) <==> room.may_hand_over_to(target),
{
    let infos = infos_of(room.peers);
    let reserved = |id: Seq<char>| room.holds_reservation(id);
    listed_targets(room.host_peer_id, infos, reserved, infos, target);
    if room.may_hand_over_to(target) {
        found_is_listed(infos, target);
    }
}

/// Who may take over, peer by peer: the connected host and everyone at its sync
/// version can transfer hosts, nobody's version is zero or less, and the target
/// is another connected peer at the host's version whose identity is reserved
/// and not being released. The room announces those, each once.
pub proof fn targets_are_the_eligible(room: RoomView, target: Seq<char>)
    requires
        room.wf(),
    ensures
        room.announced_targets().no_duplicates(),
        room.announced_targets().contains(target) <==> {
            let host = lookup(room.peers, room.host_peer_id);
            let peer = lookup(room.peers, target);
            let held = lookup(room.reservations, target);
            &&& host is Some
            &&& host->0.sync_protocol_version > 0
            &&& host->0.host_transfer_capable
            &&& forall|i: int|
                0 <= i < room.peers.len() ==> {
                    &&& (#[trigger] room.peers[i]).1.sync_protocol_version > 0
                    &&& room.peers[i].1.sync_protocol_version == host->0.sync_protocol_version
                        ==> room.peers[i].1.host_transfer_capable
                }
            &&& target != room.host_peer_id
            &&& peer is Some
            &&& peer->0.host_transfer_capable
            &&& peer->0.sync_protocol_version == host->0.sync_protocol_version
            &&& held is Some
            &&& !held->0.release_pending
        },
{
    announced_is_possible(room, target);
    found_info(room.peers, target);
    found_info(room.peers, room.host_peer_id);
    let infos = infos_of(room.peers);
    if lookup(room.peers, room.host_peer_id) is Some {
        let version = lookup(room.peers, room.host_peer_id)->0.sync_protocol_version;
        assert forall|i: int| 0 <= i < infos.len() implies can_follow(
            #[trigger] infos[i],
            version,
        ) == {
            &&& room.peers[i].1.sync_protocol_version > 0
            &&& room.peers[i].1.sync_protocol_version == version
                ==> room.peers[i].1.host_transfer_capable
        } by {}
        if room.may_hand_over_to(target) {
            assert forall|i: int| 0 <= i < room.peers.len() implies {
                &&& (#[trigger] room.peers[i]).1.sync_protocol_version > 0
                &&& room.peers[i].1.sync_protocol_version == version
                    ==> room.peers[i].1.host_transfer_capable
            } by {
                assert(can_follow(infos[i], version));
            }
        }
    }
    let valid = |p: PeerInfoView|
        target_is_valid(
            room.host_peer_id,
            infos,
            |id: Seq<char>| room.holds_reservation(id),
            p.peer_id,
        );
    let at = filter_origin(infos, valid);
    let ids = room.announced_targets();
    assert forall|i: int, j: int| 0 <= i < j < ids.len() implies ids[i] != ids[j] by {
        assert(at[i] < at[j]);
        assert(ids[i] == room.peers[at[i]].0);
        assert(ids[j] == room.peers[at[j]].0);
    }
}

/// A host may hand over to exactly the peers that its room announces as targets.
pub proof fn transfer_succeeds_iff_announced(room: RoomView, conn_id: u64, target: Seq<char>)
    requires
        room.wf(),
        !room.closing,
        room.is_current(room.host_peer_id, conn_id),
        is_valid_id(target, MAX_PEER_ID_LENGTH as nat),
    ensures
        ({
            let outcome = room.transfer_host(
                room.host_peer_id,
                conn_id,
                RELAY_PROTOCOL_VERSION,
                target,
            );
            if room.announced_targets().contains(target) {
                outcome.room == room.handed_over_to(target) && outcome.effects.reply is None
            } else {
                outcome.room == room && outcome.effects.reply is Some
                    && outcome.effects.broadcast.len() == 0
            }
        }),
{
    announced_is_possible(room, target);
    found_info(room.peers, target);
}

/// The host before may get its place back: the new host's room announces it as a
/// target.
pub proof fn former_host_may_take_over_again(room: RoomView, target: Seq<char>)
    requires
        room.wf(),
        room.may_hand_over_to(target),
    ensures
        room.handed_over_to(target).may_hand_over_to(room.host_peer_id),
        room.handed_over_to(target).announced_targets().contains(room.host_peer_id),
{
    let after = room.handed_over_to(target);
    let r = ReservationView {
        verifier: room.host_verifier,
        absent_since: None,
        release_pending: false,
    };
    found_info(room.peers, target);
    found_info(room.peers, room.host_peer_id);
    without_then_lookup(room.reservations, target);
    put_then_lookup(without(room.reservations, target), room.host_peer_id, r);
    assert(after.holds_reservation(room.host_peer_id));
    announced_is_possible(after, room.host_peer_id);
}

/// Handing over and back again leaves the room as it was: the same host, the
/// same tokens, the same reservations.
pub proof fn transfer_and_back(room: RoomView, target: Seq<char>)
    requires
        room.wf(),
        room.may_hand_over_to(target),
    ensures
        ({
            let back = room.handed_over_to(target).handed_over_to(room.host_peer_id);
            &&& back.host_peer_id == room.host_peer_id
            &&& back.host_verifier == room.host_verifier
            &&& back.peers == room.peers
            &&& forall|id: Seq<char>| #[trigger]
                lookup(back.reservations, id) == lookup(room.reservations, id)
        }),
{
    let host = room.host_peer_id;
    let there = room.handed_over_to(target);
    let back = there.handed_over_to(host);
    let old_host = ReservationView {
        verifier: room.host_verifier,
        absent_since: None,
        release_pending: false,
    };
    let old_target = ReservationView {
        verifier: there.host_verifier,
        absent_since: None,
        release_pending: false,
    };
    found_info(room.peers, target);
    assert(room.connected(target));
    without_then_lookup(room.reservations, target);
    put_then_lookup(without(room.reservations, target), host, old_host);
    without_then_lookup(there.reservations, host);
    put_then_lookup(without(there.reservations, host), target, old_target);
    assert(lookup(room.reservations, target) == Some(old_target));
    assert forall|id: Seq<char>| #[trigger]
        lookup(back.reservations, id) == lookup(room.reservations, id) by {
        if id != target && id != host {
            assert(lookup(there.reservations, id) == lookup(room.reservations, id));
        }
    }
}

/// One connected peer that could not follow keeps the whole room from changing
/// its host: it announces no target.
pub proof fn straggler_blocks_transfer(room: RoomView, straggler: Seq<char>)
    requires
        room.wf(),
        room.connected(straggler),
        room.connected(room.host_peer_id),
        ({
            let peer = lookup(room.peers, straggler)->0;
            let host = lookup(room.peers, room.host_peer_id)->0;
            ||| peer.sync_protocol_version <= 0
            ||| peer.sync_protocol_version == host.sync_protocol_version
                && !peer.host_transfer_capable
        }),
    ensures
        room.announced_targets().len() == 0,
        forall|target: Seq<char>| !#[trigger] room.may_hand_over_to(target),
{
    found_info(room.peers, room.host_peer_id);
    let i = position(room.peers, straggler);
    let host = lookup(room.peers, room.host_peer_id)->0;
    assert(!can_follow(infos_of(room.peers)[i], host.sync_protocol_version));
    assert forall|target: Seq<char>| !#[trigger] room.may_hand_over_to(target) by {}
    if room.announced_targets().len() > 0 {
        let first = room.announced_targets()[0];
        assert(room.announced_targets().contains(first));
        announced_is_possible(room, first);
    }
}

/// Only the host can hand over.
pub proof fn only_the_host_hands_over(
    room: RoomView,
    peer_id: Seq<char>,
    conn_id: u64,
    protocol_version: u32,
    target: Seq<char>,
)
    requires
        peer_id != room.host_peer_id,
    ensures
        room.transfer_host(peer_id, conn_id, protocol_version, target).room == room,
        room.transfer_host(peer_id, conn_id, protocol_version, target).effects.broadcast.len()
            == 0,
{
}

} // verus!
