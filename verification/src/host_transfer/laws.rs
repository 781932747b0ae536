//! Who may hand over and who may take over, read off a roster.

use crate::host_transfer::{
    capable_ids, find_peer, host_is_eligible, target_ids, target_is_valid, PeerInfoView,
};
use crate::id_map::filter_origin;
use vstd::prelude::*;

verus! {

/// The peer at `i` is the first with that id.
pub open spec fn stands_first(peers: Seq<PeerInfoView>, i: int, id: Seq<char>) -> bool {
    &&& 0 <= i < peers.len()
    &&& peers[i].peer_id == id
    &&& forall|j: int| 0 <= j < i ==> (#[trigger] peers[j]).peer_id != id
}

/// A peer is found iff it is in the roster, and then it is the first with that
/// id.
pub proof fn found_peer_stands_first(peers: Seq<PeerInfoView>, id: Seq<char>)
    ensures
        match find_peer(peers, id) {
            Some(p) => exists|i: int| #[trigger] stands_first(peers, i, id) && peers[i] == p,
            None => forall|i: int| 0 <= i < peers.len() ==> (#[trigger] peers[i]).peer_id != id,
        },
        forall|i: int| #[trigger]
            stands_first(peers, i, id) ==> find_peer(peers, id) == Some(peers[i]),
    decreases peers.len(),
{
    if peers.len() > 0 {
        let rest = peers.drop_first();
        if peers[0].peer_id == id {
            assert(stands_first(peers, 0, id));
            assert forall|i: int| #[trigger] stands_first(peers, i, id) implies find_peer(peers, id)
                == Some(peers[i]) by {
                if i > 0 {
                    assert(peers[0].peer_id != id);
                }
            }
        } else {
            found_peer_stands_first(rest, id);
            assert forall|i: int| #[trigger] stands_first(peers, i, id) implies find_peer(peers, id)
                == Some(peers[i]) by {
                assert(i > 0);
                assert forall|j: int| 0 <= j < i - 1 implies (#[trigger] rest[j]).peer_id != id by {
                    assert(peers[j + 1].peer_id != id);
                }
                assert(stands_first(rest, i - 1, id));
            }
            match find_peer(rest, id) {
                Some(p) => {
                    let i = choose|i: int| #[trigger] stands_first(rest, i, id) && rest[i] == p;
                    assert forall|j: int| 0 <= j < i + 1 implies (
                    #[trigger] peers[j]).peer_id != id by {
                        if j > 0 {
                            assert(rest[j - 1].peer_id != id);
                        }
                    }
                    assert(stands_first(peers, i + 1, id));
                },
                None => {
                    assert forall|i: int| 0 <= i < peers.len() implies (
                    #[trigger] peers[i]).peer_id != id by {
                        if i > 0 {
                            assert(rest[i - 1].peer_id != id);
                        }
                    }
                },
            }
        }
    }
}

/// The host, at `h`, can hand over: it declared the capability, everyone has a
/// positive version, and everyone at the host's version declared the capability.
pub open spec fn may_hand_over(peers: Seq<PeerInfoView>, h: int) -> bool {
    &&& peers[h].host_transfer_capable
    &&& forall|i: int|
        0 <= i < peers.len() ==> {
            &&& (#[trigger] peers[i]).sync_protocol_version > 0
            &&& peers[i].sync_protocol_version == peers[h].sync_protocol_version
                ==> peers[i].host_transfer_capable
        }
}

/// A room has a host that could hand over iff the host is in the roster, is
/// capable, and nobody stands in the way.
pub proof fn host_hands_over_if_nobody_blocks(host: Seq<char>, peers: Seq<PeerInfoView>)
    ensures
        host_is_eligible(host, peers) <==> exists|h: int| #[trigger]
            stands_first(peers, h, host) && may_hand_over(peers, h),
{
    found_peer_stands_first(peers, host);
    if host_is_eligible(host, peers) {
        let p = find_peer(peers, host)->0;
        let h = choose|h: int| #[trigger] stands_first(peers, h, host) && peers[h] == p;
        assert(may_hand_over(peers, h));
    }
    if exists|h: int| #[trigger] stands_first(peers, h, host) && may_hand_over(peers, h) {
        let h = choose|h: int| #[trigger]
            stands_first(peers, h, host) && may_hand_over(peers, h);
        assert(find_peer(peers, host) == Some(peers[h]));
        assert(peers[h].sync_protocol_version > 0);
    }
}

/// Who may take over: somebody else than a host who can hand over, who is in the
/// roster, capable, at the host's version, and reserved.
pub proof fn target_is_capable_and_reserved(
    host: Seq<char>,
    peers: Seq<PeerInfoView>,
    reserved: spec_fn(Seq<char>) -> bool,
    target: Seq<char>,
)
    ensures
        target_is_valid(host, peers, reserved, target) <==> {
            &&& target != host
            &&& reserved(target)
            &&& exists|h: int, t: int|
                #![trigger stands_first(peers, h, host), stands_first(peers, t, target)]
                stands_first(peers, h, host) && stands_first(peers, t, target) && may_hand_over(
                    peers,
                    h,
                ) && peers[t].host_transfer_capable && peers[t].sync_protocol_version
                    == peers[h].sync_protocol_version
        },
{
    found_peer_stands_first(peers, host);
    found_peer_stands_first(peers, target);
    host_hands_over_if_nobody_blocks(host, peers);
    if target_is_valid(host, peers, reserved, target) {
        let h = choose|h: int| #[trigger]
            stands_first(peers, h, host) && may_hand_over(peers, h);
        let p = find_peer(peers, target)->0;
        let t = choose|t: int| #[trigger] stands_first(peers, t, target) && peers[t] == p;
        assert(find_peer(peers, host) == Some(peers[h]));
    }
}

/// The eligibility is told to the ids of the capable peers, each once and in the
/// roster's order.
pub proof fn recipients_are_the_capable(peers: Seq<PeerInfoView>) -> (at: Seq<int>)
    ensures
        at.len() == capable_ids(peers).len(),
        forall|k: int|
            0 <= k < at.len() ==> {
                &&& 0 <= #[trigger] at[k] < peers.len()
                &&& peers[at[k]].host_transfer_capable
                &&& capable_ids(peers)[k] == peers[at[k]].peer_id
            },
        forall|k: int, l: int| 0 <= k < l < at.len() ==> #[trigger] at[k] < #[trigger] at[l],
        forall|i: int|
            0 <= i < peers.len() && (#[trigger] peers[i]).host_transfer_capable ==> at.contains(i),
{
    let capable = |p: PeerInfoView| p.host_transfer_capable;
    let at = filter_origin(peers, capable);
    assert forall|i: int| 0 <= i < peers.len() && (
    #[trigger] peers[i]).host_transfer_capable implies at.contains(i) by {
        assert(capable(peers[i]));
    }
    assert forall|k: int| 0 <= k < at.len() implies {
        &&& 0 <= #[trigger] at[k] < peers.len()
        &&& peers[at[k]].host_transfer_capable
        &&& capable_ids(peers)[k] == peers[at[k]].peer_id
    } by {
        assert(capable(peers[at[k]]));
    }
    at
}

/// The targets are the ids of the peers who may take over, each once and in the
/// roster's order.
pub proof fn targets_are_the_valid(
    host: Seq<char>,
    peers: Seq<PeerInfoView>,
    reserved: spec_fn(Seq<char>) -> bool,
) -> (at: Seq<int>)
    ensures
        at.len() == target_ids(host, peers, reserved).len(),
        forall|k: int|
            0 <= k < at.len() ==> {
                &&& 0 <= #[trigger] at[k] < peers.len()
                &&& target_is_valid(host, peers, reserved, peers[at[k]].peer_id)
                &&& target_ids(host, peers, reserved)[k] == peers[at[k]].peer_id
            },
        forall|k: int, l: int| 0 <= k < l < at.len() ==> #[trigger] at[k] < #[trigger] at[l],
        forall|i: int|
            0 <= i < peers.len() && target_is_valid(
                host,
                peers,
                reserved,
                (#[trigger] peers[i]).peer_id,
            ) ==> at.contains(i),
{
    let valid = |p: PeerInfoView| target_is_valid(host, peers, reserved, p.peer_id);
    let at = filter_origin(peers, valid);
    assert forall|i: int|
        0 <= i < peers.len() && target_is_valid(
            host,
            peers,
            reserved,
            (#[trigger] peers[i]).peer_id,
        ) implies at.contains(i) by {
        assert(valid(peers[i]));
    }
    assert forall|k: int| 0 <= k < at.len() implies {
        &&& 0 <= #[trigger] at[k] < peers.len()
        &&& target_is_valid(host, peers, reserved, peers[at[k]].peer_id)
        &&& target_ids(host, peers, reserved)[k] == peers[at[k]].peer_id
    } by {
        assert(valid(peers[at[k]]));
    }
    at
}

} // verus!
