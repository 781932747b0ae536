//! What holds of the address that a request counts for.

use crate::client_ip::{
    all_hops_parse, hop_address, hops, normalized, resolved, trusts, unmapped, walked, IpAddress,
};
use vstd::prelude::*;

verus! {

/// A request that does not come from a trusted proxy counts for the address that
/// it comes from, whatever its header says.
pub proof fn untrusted_peer_counts_for_itself(
    nets: Seq<(IpAddress, u8)>,
    peer_addr: IpAddress,
    forwarded_for: Seq<Seq<char>>,
)
    requires
        !trusts(nets, unmapped(peer_addr)),
    ensures
        resolved(nets, peer_addr, forwarded_for) == Some(normalized(unmapped(peer_addr))),
{
}

/// Without trusted proxies every request counts for the address that it comes
/// from.
pub proof fn nobody_is_trusted_by_default(
    peer_addr: IpAddress,
    forwarded_for: Seq<Seq<char>>,
)
    ensures
        resolved(Seq::empty(), peer_addr, forwarded_for) == Some(
            normalized(unmapped(peer_addr)),
        ),
{
}

/// Two IPv6 addresses count as one iff they agree in their first 64 bits.
pub proof fn household_counts_as_one(a: u128, b: u128)
    ensures
        normalized(IpAddress::V6(a)) == normalized(IpAddress::V6(b)) <==> a
            / 0x1_0000_0000_0000_0000 == b / 0x1_0000_0000_0000_0000,
{
    assert(a == (a / 0x1_0000_0000_0000_0000) * 0x1_0000_0000_0000_0000 + a
        % 0x1_0000_0000_0000_0000);
    assert(b == (b / 0x1_0000_0000_0000_0000) * 0x1_0000_0000_0000_0000 + b
        % 0x1_0000_0000_0000_0000);
}

/// An IPv4 address that is written as an IPv6 address counts as itself.
pub proof fn mapped_address_counts_as_itself(v4: u32, nets: Seq<(IpAddress, u8)>)
    requires
        !trusts(nets, IpAddress::V4(v4)),
    ensures
        resolved(
            nets,
            IpAddress::V6((0xffff_0000_0000 + v4) as u128),
            Seq::empty(),
        ) == Some(IpAddress::V4(v4)),
{
}

/// Doing it twice changes nothing: a resolved address counts as itself.
pub proof fn resolved_address_is_final(
    nets: Seq<(IpAddress, u8)>,
    peer_addr: IpAddress,
    forwarded_for: Seq<Seq<char>>,
)
    ensures
        match resolved(nets, peer_addr, forwarded_for) {
            Some(addr) => normalized(addr) == addr,
            None => true,
        },
        unmapped(unmapped(peer_addr)) == unmapped(peer_addr),
{
    assert forall|v6: u128|
        (#[trigger] (v6 - v6 % 0x1_0000_0000_0000_0000)) % 0x1_0000_0000_0000_0000 == 0 by {
        assert(v6 - v6 % 0x1_0000_0000_0000_0000 == (v6 / 0x1_0000_0000_0000_0000)
            * 0x1_0000_0000_0000_0000);
    }
}

/// The walk over the hops stops at the nearest one that is no trusted proxy, or
/// at the farthest one if all are.
pub proof fn walk_stops_at_first_untrusted_hop(
    nets: Seq<(IpAddress, u8)>,
    peer: IpAddress,
    list: Seq<Seq<char>>,
    n: int,
) -> (k: int)
    requires
        trusts(nets, peer),
        0 < n <= list.len(),
    ensures
        0 <= k < n,
        walked(nets, peer, list, n) == unmapped(hop_address(list[k])->0),
        forall|j: int|
            k < j < n ==> trusts(nets, unmapped(hop_address(#[trigger] list[j])->0)),
        k == 0 || !trusts(nets, walked(nets, peer, list, n)),
    decreases n,
{
    let next = unmapped(hop_address(list[n - 1])->0);
    if n == 1 || !trusts(nets, next) {
        n - 1
    } else {
        walk_stops_at_first_untrusted_hop(nets, next, list, n - 1)
    }
}

/// What is written before the hop at which the walk stops does not matter: a
/// client cannot get itself another address by sending a header of its own.
pub proof fn farther_hops_do_not_matter(
    nets: Seq<(IpAddress, u8)>,
    peer: IpAddress,
    list: Seq<Seq<char>>,
    n: int,
    forged: Seq<Seq<char>>,
)
    requires
        0 <= n <= list.len(),
        !trusts(nets, walked(nets, peer, list, n)),
    ensures
        walked(nets, peer, forged + list, forged.len() + n) == walked(nets, peer, list, n),
    decreases n,
{
    if n > 0 && trusts(nets, peer) {
        let next = unmapped(hop_address(list[n - 1])->0);
        assert((forged + list)[forged.len() + n - 1] == list[n - 1]);
        farther_hops_do_not_matter(nets, next, list, n - 1, forged);
    }
}

/// A header with a hop that is no address is refused as a whole, wherever that
/// hop stands.
pub proof fn every_hop_must_be_an_address(
    nets: Seq<(IpAddress, u8)>,
    peer_addr: IpAddress,
    forwarded_for: Seq<Seq<char>>,
)
    requires
        trusts(nets, unmapped(peer_addr)),
        forwarded_for.len() > 0,
        !all_hops_parse(hops(forwarded_for)),
    ensures
        resolved(nets, peer_addr, forwarded_for) is None,
{
}

} // verus!
