//! Who may take over as host.
//!
//! Eligibility is all-or-nothing: a room offers host transfer only while every
//! connected peer has a positive sync-protocol version and every one at the
//! host's own version has declared the `hostTransfer` capability.

use crate::id_map::filter_push;
use crate::text::{str_eq, strings_view};
use vstd::prelude::*;

pub mod laws;

verus! {

/// What a connected peer's admission said that matters for host transfer.
#[derive(Debug, Clone, Copy)]
pub struct PeerInfo<'a> {
    pub peer_id: &'a str,
    pub sync_protocol_version: i32,
    pub host_transfer_capable: bool,
}

pub struct PeerInfoView {
    pub peer_id: Seq<char>,
    pub sync_protocol_version: i32,
    pub host_transfer_capable: bool,
}

impl<'a> View for PeerInfo<'a> {
    type V = PeerInfoView;

    open spec fn view(&self) -> PeerInfoView {
        PeerInfoView {
            peer_id: self.peer_id@,
            sync_protocol_version: self.sync_protocol_version,
            host_transfer_capable: self.host_transfer_capable,
        }
    }
}

/// A roster as a sequence of views.
pub open spec fn roster(peers: Seq<PeerInfo<'_>>) -> Seq<PeerInfoView> {
    peers.map_values(|p: PeerInfo<'_>| p@)
}

/// The first peer in the roster with the given id.
pub open spec fn find_peer(peers: Seq<PeerInfoView>, peer_id: Seq<char>) -> Option<PeerInfoView>
    decreases peers.len(),
{
    if peers.len() == 0 {
        None
    } else if peers[0].peer_id == peer_id {
        Some(peers[0])
    } else {
        find_peer(peers.drop_first(), peer_id)
    }
}

/// A peer with a positive sync version that, at the given version, has declared
/// the capability.
pub open spec fn can_follow(peer: PeerInfoView, version: i32) -> bool {
    &&& peer.sync_protocol_version > 0
    &&& peer.sync_protocol_version == version ==> peer.host_transfer_capable
}

/// The host is connected and capable, and the whole roster can follow a
/// transfer away from it.
pub open spec fn host_is_eligible(host_peer_id: Seq<char>, peers: Seq<PeerInfoView>) -> bool {
    match find_peer(peers, host_peer_id) {
        Some(host) => {
            &&& host.sync_protocol_version > 0
            &&& host.host_transfer_capable
            &&& forall|i: int|
                0 <= i < peers.len() ==> can_follow(#[trigger] peers[i], host.sync_protocol_version)
        },
        None => false,
    }
}

/// `target` is connected, is not the host, and is capable at the version of an
/// eligible host.
pub open spec fn target_qualifies(
    host_peer_id: Seq<char>,
    peers: Seq<PeerInfoView>,
    target: Seq<char>,
) -> bool {
    &&& target != host_peer_id
    &&& host_is_eligible(host_peer_id, peers)
    &&& find_peer(peers, target) is Some
    &&& find_peer(peers, target)->0.host_transfer_capable
    &&& find_peer(peers, target)->0.sync_protocol_version == find_peer(
        peers,
        host_peer_id,
    )->0.sync_protocol_version
}

/// `target` may take over: it qualifies and is reserved.
pub open spec fn target_is_valid(
    host_peer_id: Seq<char>,
    peers: Seq<PeerInfoView>,
    reserved: spec_fn(Seq<char>) -> bool,
    target: Seq<char>,
) -> bool {
    target_qualifies(host_peer_id, peers, target) && reserved(target)
}

/// The ids of the peers that declared the capability, in roster order.
pub open spec fn capable_ids(peers: Seq<PeerInfoView>) -> Seq<Seq<char>> {
    peers.filter(|p: PeerInfoView| p.host_transfer_capable).map_values(|p: PeerInfoView| p.peer_id)
}

/// The ids of those in `part` that are valid transfer targets for the roster
/// `peers`, in order.
pub open spec fn targets_among(
    host_peer_id: Seq<char>,
    peers: Seq<PeerInfoView>,
    reserved: spec_fn(Seq<char>) -> bool,
    part: Seq<PeerInfoView>,
) -> Seq<Seq<char>> {
    part.filter(
        |p: PeerInfoView| target_is_valid(host_peer_id, peers, reserved, p.peer_id),
    ).map_values(|p: PeerInfoView| p.peer_id)
}

/// The ids of the valid transfer targets, in roster order.
pub open spec fn target_ids(
    host_peer_id: Seq<char>,
    peers: Seq<PeerInfoView>,
    reserved: spec_fn(Seq<char>) -> bool,
) -> Seq<Seq<char>> {
    targets_among(host_peer_id, peers, reserved, peers)
}

/// `f` may be called on any id, and answers with `reserved` of its characters.
pub open spec fn answers<F: Fn(&str) -> bool>(
    f: F,
    reserved: spec_fn(Seq<char>) -> bool,
) -> bool {
    forall|id: &str, b: bool| #[trigger] f.ensures((id,), b) ==> b == reserved(id@)
}

/// The first peer with the given id.
fn find_info<'a>(peers: &[PeerInfo<'a>], peer_id: &str) -> (res: Option<PeerInfo<'a>>)
    ensures
        match res {
            Some(p) => find_peer(roster(peers@), peer_id@) == Some(p@),
            None => find_peer(roster(peers@), peer_id@) is None,
        },
{
    let mut i: usize = 0;
    assert(roster(peers@).skip(0) =~= roster(peers@));
    while i < peers.len()
        invariant
            i <= peers@.len(),
            find_peer(roster(peers@), peer_id@) == find_peer(
                roster(peers@).skip(i as int),
                peer_id@,
            ),
        decreases peers@.len() - i,
    {
        let ghost rest = roster(peers@).skip(i as int);
        assert(rest[0] == peers@[i as int]@);
        if str_eq(peers[i].peer_id, peer_id) {
            return Some(peers[i]);
        }
        assert(rest.drop_first() =~= roster(peers@).skip(i + 1));
        i = i + 1;
    }
    None
}

/// Whether the room has a host that could hand over now: the connected host is
/// capable with a positive sync version, no peer at its version lacks the
/// capability, and no peer has a sync version of zero or less. A peer at
/// another positive version blocks nothing.
pub fn eligible_host(host_peer_id: &str, peers: &[PeerInfo<'_>]) -> (res: bool)
    ensures
        res == host_is_eligible(host_peer_id@, roster(peers@)),
{
    let host = match find_info(peers, host_peer_id) {
        Some(host) => host,
        None => {
            return false;
        },
    };
    if host.sync_protocol_version <= 0 || !host.host_transfer_capable {
        return false;
    }
    let mut i: usize = 0;
    while i < peers.len()
        invariant
            i <= peers@.len(),
            find_peer(roster(peers@), host_peer_id@) == Some(host@),
            host.sync_protocol_version > 0,
            host.host_transfer_capable,
            forall|j: int|
                0 <= j < i ==> can_follow(
                    #[trigger] roster(peers@)[j],
                    host.sync_protocol_version,
                ),
        decreases peers@.len() - i,
    {
        let p = peers[i];
        assert(roster(peers@)[i as int] == p@);
        if p.sync_protocol_version <= 0 || (p.sync_protocol_version == host.sync_protocol_version
            && !p.host_transfer_capable) {
            return false;
        }
        i = i + 1;
    }
    true
}

/// Whether `target_peer_id` is a legal transfer target. `is_reserved` tells
/// which ids are reserved and not about to be released.
pub fn is_valid_target<F: Fn(&str) -> bool>(
    host_peer_id: &str,
    peers: &[PeerInfo<'_>],
    is_reserved: F,
    target_peer_id: &str,
) -> (res: bool)
    requires
        is_reserved.requires((target_peer_id,)),
    ensures
        target_qualifies(host_peer_id@, roster(peers@), target_peer_id@) ==> is_reserved.ensures(
            (target_peer_id,),
            res,
        ),
        !target_qualifies(host_peer_id@, roster(peers@), target_peer_id@) ==> !res,
{
    valid_target(host_peer_id, peers, &is_reserved, target_peer_id)
}

fn valid_target<F: Fn(&str) -> bool>(
    host_peer_id: &str,
    peers: &[PeerInfo<'_>],
    is_reserved: &F,
    target_peer_id: &str,
) -> (res: bool)
    requires
        is_reserved.requires((target_peer_id,)),
    ensures
        target_qualifies(host_peer_id@, roster(peers@), target_peer_id@) ==> is_reserved.ensures(
            (target_peer_id,),
            res,
        ),
        !target_qualifies(host_peer_id@, roster(peers@), target_peer_id@) ==> !res,
{
    if str_eq(target_peer_id, host_peer_id) {
        return false;
    }
    if !eligible_host(host_peer_id, peers) {
        return false;
    }
    let host = match find_info(peers, host_peer_id) {
        Some(host) => host,
        None => {
            return false;
        },
    };
    let target = match find_info(peers, target_peer_id) {
        Some(target) => target,
        None => {
            return false;
        },
    };
    is_reserved(target_peer_id) && target.host_transfer_capable && target.sync_protocol_version
        == host.sync_protocol_version
}

/// What a `hostTransferEligibility` message says for the current roster, or
/// `None` where it should not be sent: nobody connected is capable, so there is
/// nobody to notify.
///
/// Gives the recipients, who are the capable peers, and the ids of the valid
/// targets, which may be none.
pub fn compute_eligibility<F: Fn(&str) -> bool>(
    host_peer_id: &str,
    peers: &[PeerInfo<'_>],
    is_reserved: F,
) -> (res: Option<(Vec<String>, Vec<String>)>)
    requires
        forall|j: int|
            0 <= j < peers@.len() ==> is_reserved.requires(((#[trigger] peers@[j]).peer_id,)),
    ensures
        res is None <==> capable_ids(roster(peers@)).len() == 0,
        res matches Some((recipients, targets)) ==> {
            &&& strings_view(recipients@) == capable_ids(roster(peers@))
            &&& forall|reserved: spec_fn(Seq<char>) -> bool| #[trigger]
                answers(is_reserved, reserved) ==> strings_view(targets@) == target_ids(
                    host_peer_id@,
                    roster(peers@),
                    reserved,
                )
        },
{
    let ghost all = roster(peers@);
    let ghost capable = |p: PeerInfoView| p.host_transfer_capable;
    let mut recipients: Vec<String> = Vec::new();
    let mut targets: Vec<String> = Vec::new();
    let mut i: usize = 0;
    assert(all.take(0) =~= Seq::empty());
    proof {
        reveal(Seq::filter);
    }
    while i < peers.len()
        invariant
            i <= peers@.len(),
            all == roster(peers@),
            capable == (|p: PeerInfoView| p.host_transfer_capable),
            forall|j: int|
                0 <= j < peers@.len() ==> is_reserved.requires(((#[trigger] peers@[j]).peer_id,)),
            strings_view(recipients@) == capable_ids(all.take(i as int)),
            forall|reserved: spec_fn(Seq<char>) -> bool| #[trigger]
                answers(is_reserved, reserved) ==> strings_view(targets@) == targets_among(
                    host_peer_id@,
                    all,
                    reserved,
                    all.take(i as int),
                ),
        decreases peers@.len() - i,
    {
        let p = peers[i];
        let ghost before = all.take(i as int);
        let ghost recipients_before = recipients@;
        let ghost targets_before = targets@;
        proof {
            assert(all[i as int] == p@);
            assert(all.take(i + 1) =~= before.push(p@));
            filter_push(before, capable, p@);
        }
        if p.host_transfer_capable {
            recipients.push(p.peer_id.to_string());
        }
        let valid = valid_target(host_peer_id, peers, &is_reserved, p.peer_id);
        if valid {
            targets.push(p.peer_id.to_string());
        }
        i = i + 1;
        proof {
            if p.host_transfer_capable {
                assert(strings_view(recipients@) =~= strings_view(recipients_before).push(p@.peer_id));
                assert(capable_ids(all.take(i as int)) =~= capable_ids(before).push(p@.peer_id));
            }
            assert forall|reserved: spec_fn(Seq<char>) -> bool| #[trigger]
                answers(is_reserved, reserved) implies strings_view(targets@) == targets_among(
                host_peer_id@,
                all,
                reserved,
                all.take(i as int),
            ) by {
                filter_push(
                    before,
                    |p: PeerInfoView| target_is_valid(host_peer_id@, all, reserved, p.peer_id),
                    p@,
                );
                assert(valid == target_is_valid(host_peer_id@, all, reserved, p@.peer_id));
                if valid {
                    assert(strings_view(targets@) =~= strings_view(targets_before).push(p@.peer_id));
                    assert(targets_among(host_peer_id@, all, reserved, all.take(i as int))
                        =~= targets_among(host_peer_id@, all, reserved, before).push(p@.peer_id));
                }
            }
        }
    }
    assert(all.take(i as int) =~= all);
    assert(recipients@.len() == strings_view(recipients@).len());
    if recipients.len() == 0 {
        return None;
    }
    Some((recipients, targets))
}

} // verus!
