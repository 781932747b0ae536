//! Whom the operator's list of networks trusts, and what a request counts for on
//! that account.

use crate::client_ip::laws::walk_stops_at_first_untrusted_hop;
use crate::client_ip::{
    address_bits, all_hops_parse, hop_address, hops, listed_networks, network_of, networks_of,
    normalized, parsed_address, parsed_network, resolved, share_prefix, total_bytes, trusts,
    unmapped, IpAddress,
};
use crate::text::laws::text_without_comma_is_one_part;
use crate::text::{comma_parts, trimmed};
use vstd::arithmetic::div_mod::{lemma_basic_div, lemma_div_denominator, lemma_fundamental_div_mod};
use vstd::arithmetic::power2::{
    lemma2_to64, lemma_pow2_adds, lemma_pow2_pos, lemma_pow2_unfold, pow2,
};
use vstd::prelude::*;
use vstd::utf8::encode_utf8;

verus! {

/// The bit of `n` that counts `2^i`.
pub open spec fn bit(n: nat, i: int) -> nat {
    (n / pow2(i as nat)) % 2
}

/// An address is in a network: it is of the same kind, and all of its first
/// bits, as many as the prefix has, are those of the network.
pub open spec fn lies_in(addr: IpAddress, net: (IpAddress, u8)) -> bool {
    match (addr, net.0) {
        (IpAddress::V4(a), IpAddress::V4(n)) => forall|i: int|
            32 - net.1 <= i < 32 ==> #[trigger] bit(a as nat, i) == bit(n as nat, i),
        (IpAddress::V6(a), IpAddress::V6(n)) => forall|i: int|
            128 - net.1 <= i < 128 ==> #[trigger] bit(a as nat, i) == bit(n as nat, i),
        _ => false,
    }
}

/// Numbers agree above bit `k` iff all bits from there up to the last agree.
proof fn quotients_agree_iff_bits_do(a: nat, b: nat, k: nat, top: nat)
    requires
        k <= top,
        a < pow2(top),
        b < pow2(top),
    ensures
        a / pow2(k) == b / pow2(k) <==> (forall|i: int|
            k <= i < top ==> #[trigger] bit(a, i) == bit(b, i)),
    decreases top - k,
{
    lemma_pow2_pos(k);
    if k == top {
        lemma_basic_div(a as int, pow2(k) as int);
        lemma_basic_div(b as int, pow2(k) as int);
    } else {
        quotients_agree_iff_bits_do(a, b, k + 1, top);
        lemma_pow2_unfold(k + 1);
        lemma_div_denominator(a as int, pow2(k) as int, 2);
        lemma_div_denominator(b as int, pow2(k) as int, 2);
        assert(pow2(k) * 2 == pow2(k + 1));
        let qa = a / pow2(k);
        let qb = b / pow2(k);
        assert(qa / 2 == a / pow2(k + 1));
        assert(qb / 2 == b / pow2(k + 1));
        lemma_fundamental_div_mod(qa as int, 2);
        lemma_fundamental_div_mod(qb as int, 2);
        assert(bit(a, k as int) == qa % 2);
        assert(bit(b, k as int) == qb % 2);
        assert(qa == qb <==> (qa / 2 == qb / 2 && qa % 2 == qb % 2));
        if forall|i: int| k <= i < top ==> #[trigger] bit(a, i) == bit(b, i) {
            assert(bit(a, k as int) == bit(b, k as int));
            assert(forall|i: int| k + 1 <= i < top ==> #[trigger] bit(a, i) == bit(b, i));
        }
        if qa == qb {
            assert forall|i: int| k <= i < top implies #[trigger] bit(a, i) == bit(b, i) by {
                if i == k {
                } else {
                    assert(k + 1 <= i);
                }
            }
        }
    }
}

/// A network holds the addresses of its kind that start with the bits of its
/// prefix.
pub proof fn network_holds_its_prefix(net: (IpAddress, u8), addr: IpAddress)
    requires
        net.1 <= address_bits(net.0),
    ensures
        share_prefix(net.0, addr, net.1) <==> lies_in(addr, net),
{
    lemma2_to64();
    lemma_pow2_adds(64, 64);
    match (addr, net.0) {
        (IpAddress::V4(a), IpAddress::V4(n)) => {
            quotients_agree_iff_bits_do(a as nat, n as nat, (32 - net.1) as nat, 32);
        },
        (IpAddress::V6(a), IpAddress::V6(n)) => {
            assert(pow2(128) == 0x1_0000_0000_0000_0000_0000_0000_0000_0000);
            quotients_agree_iff_bits_do(a as nat, n as nat, (128 - net.1) as nat, 128);
        },
        _ => {},
    }
}

/// The address that is meant: one that is written as `::ffff:` and an IPv4
/// address is that IPv4 address.
pub open spec fn meant(addr: IpAddress) -> IpAddress {
    match addr {
        IpAddress::V6(n) => if 0xffff_0000_0000 <= n <= 0xffff_ffff_ffff {
            IpAddress::V4((n - 0xffff_0000_0000) as u32)
        } else {
            addr
        },
        IpAddress::V4(_) => addr,
    }
}

/// The address that quotas are kept by has the first half of the address that it
/// stands for and nothing in the second; an IPv4 address stands for itself.
pub proof fn quota_address_keeps_the_first_half(addr: IpAddress)
    ensures
        unmapped(addr) == meant(addr),
        match addr {
            IpAddress::V4(_) => normalized(addr) == addr,
            IpAddress::V6(n) => {
                &&& normalized(addr) is V6
                &&& normalized(addr)->V6_0 % 0x1_0000_0000_0000_0000 == 0
                &&& normalized(addr)->V6_0 / 0x1_0000_0000_0000_0000 == n
                    / 0x1_0000_0000_0000_0000
            },
        },
{
    if let IpAddress::V6(n) = addr {
        assert(n == (n / 0x1_0000_0000_0000_0000) * 0x1_0000_0000_0000_0000 + n
            % 0x1_0000_0000_0000_0000);
    }
}

/// All prefixes are as long as an address at most.
pub open spec fn prefixes_fit(nets: Seq<(IpAddress, u8)>) -> bool {
    forall|i: int| 0 <= i < nets.len() ==> (#[trigger] nets[i]).1 <= address_bits(nets[i].0)
}

/// One of the listed networks holds the address.
pub open spec fn is_listed(nets: Seq<(IpAddress, u8)>, addr: IpAddress) -> bool {
    exists|i: int| 0 <= i < nets.len() && lies_in(meant(addr), #[trigger] nets[i])
}

/// An address is trusted iff one of the listed networks holds it, whichever.
pub proof fn every_listed_network_is_trusted(nets: Seq<(IpAddress, u8)>, addr: IpAddress)
    requires
        prefixes_fit(nets),
    ensures
        trusts(nets, addr) <==> is_listed(nets, addr),
{
    quota_address_keeps_the_first_half(addr);
    assert forall|i: int| 0 <= i < nets.len() implies share_prefix(
        (#[trigger] nets[i]).0,
        unmapped(addr),
        nets[i].1,
    ) == lies_in(meant(addr), nets[i]) by {
        network_holds_its_prefix(nets[i], unmapped(addr));
    }
    if trusts(nets, addr) {
        let i = choose|i: int|
            0 <= i < nets.len() && share_prefix(
                (#[trigger] nets[i]).0,
                unmapped(addr),
                nets[i].1,
            );
        assert(lies_in(meant(addr), nets[i]));
    }
    if is_listed(nets, addr) {
        let i = choose|i: int| 0 <= i < nets.len() && lies_in(meant(addr), #[trigger] nets[i]);
        assert(share_prefix(nets[i].0, unmapped(addr), nets[i].1));
    }
}

/// A request that a trusted proxy hands on, whichever listed network the proxy
/// is in, counts for the client that the proxy names, if that is no proxy.
pub proof fn any_trusted_proxy_may_name_the_client(
    nets: Seq<(IpAddress, u8)>,
    i: int,
    proxy: IpAddress,
    header: Seq<char>,
    client: IpAddress,
)
    requires
        prefixes_fit(nets),
        0 <= i < nets.len(),
        lies_in(meant(proxy), nets[i]),
        !header.contains(','),
        encode_utf8(header).len() <= 4096,
        trimmed(header).len() > 0,
        parsed_address(trimmed(header)) == Some(client),
        forall|j: int| 0 <= j < nets.len() ==> !lies_in(meant(client), #[trigger] nets[j]),
    ensures
        resolved(nets, proxy, seq![header]) == Some(normalized(meant(client))),
{
    let values = seq![header];
    quota_address_keeps_the_first_half(proxy);
    quota_address_keeps_the_first_half(client);
    assert(meant(meant(proxy)) == meant(proxy));
    assert(lies_in(meant(meant(proxy)), nets[i]));
    every_listed_network_is_trusted(nets, meant(proxy));
    every_listed_network_is_trusted(nets, meant(client));
    text_without_comma_is_one_part(header);
    assert(values =~= Seq::empty().push(header));
    header_values_are_read_in_turn(Seq::empty(), header);
    assert(hops(values) =~= seq![header]);
    let list = hops(values);
    assert(hop_address(list[0]) == Some(client));
    assert(all_hops_parse(list));
    let k = walk_stops_at_first_untrusted_hop(nets, unmapped(proxy), list, 1);
}

/// Which header of a trusted proxy is refused: one of more than 4096 bytes, one
/// of more than 32 hops, and one with a hop that is no address. A header that
/// nobody trusted sent, or none, is not read at all.
pub proof fn which_headers_are_refused(
    nets: Seq<(IpAddress, u8)>,
    peer_addr: IpAddress,
    forwarded_for: Seq<Seq<char>>,
)
    requires
        prefixes_fit(nets),
    ensures
        resolved(nets, peer_addr, forwarded_for) is None <==> {
            &&& is_listed(nets, peer_addr)
            &&& forwarded_for.len() > 0
            &&& {
                ||| total_bytes(forwarded_for) > 4096
                ||| hops(forwarded_for).len() > 32
                ||| exists|i: int|
                    0 <= i < hops(forwarded_for).len() && {
                        let hop = trimmed(#[trigger] hops(forwarded_for)[i]);
                        hop.len() == 0 || parsed_address(hop) is None
                    }
            }
        },
        !is_listed(nets, peer_addr) || forwarded_for.len() == 0 ==> resolved(
            nets,
            peer_addr,
            forwarded_for,
        ) == Some(normalized(meant(peer_addr))),
{
    let list = hops(forwarded_for);
    quota_address_keeps_the_first_half(peer_addr);
    assert(meant(meant(peer_addr)) == meant(peer_addr));
    every_listed_network_is_trusted(nets, peer_addr);
    every_listed_network_is_trusted(nets, meant(peer_addr));
    assert(trusts(nets, unmapped(peer_addr)) == is_listed(nets, peer_addr));
    if !all_hops_parse(list) {
        let i = choose|i: int| 0 <= i < list.len() && !(hop_address(#[trigger] list[i]) is Some);
        assert(trimmed(list[i]).len() == 0 || parsed_address(trimmed(list[i])) is None);
    } else {
        assert forall|i: int| 0 <= i < list.len() implies !({
            let hop = trimmed(#[trigger] list[i]);
            hop.len() == 0 || parsed_address(hop) is None
        }) by {
            assert(hop_address(list[i]) is Some);
        }
    }
}

/// A request of a trusted proxy counts for the nearest hop that no listed
/// network holds, or for the farthest hop where all are held. The result is the
/// place of that hop.
pub proof fn request_counts_for_the_nearest_stranger(
    nets: Seq<(IpAddress, u8)>,
    peer_addr: IpAddress,
    forwarded_for: Seq<Seq<char>>,
) -> (k: int)
    requires
        prefixes_fit(nets),
        is_listed(nets, peer_addr),
        hops(forwarded_for).len() > 0,
        resolved(nets, peer_addr, forwarded_for) is Some,
    ensures
        ({
            let list = hops(forwarded_for);
            &&& 0 <= k < list.len()
            &&& resolved(nets, peer_addr, forwarded_for) == Some(
                normalized(meant(parsed_address(trimmed(list[k]))->0)),
            )
            &&& k > 0 ==> !is_listed(nets, parsed_address(trimmed(list[k]))->0)
            &&& forall|j: int|
                k < j < list.len() ==> is_listed(
                    nets,
                    parsed_address(trimmed(#[trigger] list[j]))->0,
                )
        }),
{
    let list = hops(forwarded_for);
    quota_address_keeps_the_first_half(peer_addr);
    assert(meant(meant(peer_addr)) == meant(peer_addr));
    every_listed_network_is_trusted(nets, peer_addr);
    every_listed_network_is_trusted(nets, meant(peer_addr));
    assert(trusts(nets, unmapped(peer_addr)));
    if forwarded_for.len() == 0 {
        assert(list.len() == 0);
    }
    assert(all_hops_parse(list));
    let k = walk_stops_at_first_untrusted_hop(
        nets,
        unmapped(peer_addr),
        list,
        list.len() as int,
    );
    assert forall|j: int| 0 <= j < list.len() implies {
        let addr = parsed_address(trimmed(#[trigger] list[j]))->0;
        &&& hop_address(list[j]) == Some(addr)
        &&& unmapped(addr) == meant(addr)
        &&& trusts(nets, unmapped(addr)) == is_listed(nets, addr)
    } by {
        let addr = parsed_address(trimmed(list[j]))->0;
        assert(hop_address(list[j]) is Some);
        quota_address_keeps_the_first_half(addr);
        assert(meant(meant(addr)) == meant(addr));
        every_listed_network_is_trusted(nets, meant(addr));
        every_listed_network_is_trusted(nets, addr);
    }
    assert(hop_address(list[k]) is Some);
    k
}

/// The hops of several header values are those of the first ones, then those of
/// the last one, which are what stands between its commas; their bytes add up.
pub proof fn header_values_are_read_in_turn(values: Seq<Seq<char>>, more: Seq<char>)
    ensures
        hops(values.push(more)) == hops(values) + comma_parts(more),
        total_bytes(values.push(more)) == total_bytes(values) + encode_utf8(more).len(),
        hops(Seq::empty()).len() == 0,
        total_bytes(Seq::empty()) == 0,
{
    assert(values.push(more).drop_last() =~= values);
}

/// The parts of a list each give the network that they stand for, in turn, or
/// one of them stands for none.
proof fn networks_are_those_of_the_parts(parts: Seq<Seq<char>>)
    ensures
        match networks_of(parts) {
            Some(nets) => {
                &&& nets.len() == parts.len()
                &&& forall|i: int|
                    0 <= i < parts.len() ==> network_of(#[trigger] parts[i]) == Some(nets[i])
            },
            None => exists|i: int| 0 <= i < parts.len() && network_of(#[trigger] parts[i]) is None,
        },
    decreases parts.len(),
{
    if parts.len() > 0 {
        let init = parts.drop_last();
        networks_are_those_of_the_parts(init);
        match networks_of(init) {
            Some(before) => {
                if let Some(nets) = networks_of(parts) {
                    assert forall|i: int| 0 <= i < parts.len() implies network_of(
                        #[trigger] parts[i],
                    ) == Some(nets[i]) by {
                        if i < init.len() {
                            assert(init[i] == parts[i]);
                        }
                    }
                } else {
                    assert(network_of(parts[parts.len() - 1]) is None);
                }
            },
            None => {
                let i = choose|i: int|
                    0 <= i < init.len() && network_of(#[trigger] init[i]) is None;
                assert(network_of(parts[i]) is None);
            },
        }
    }
}

/// Of a list with something in it, each part between commas gives one network,
/// in turn; the list is refused iff one part, white space around it aside, is no
/// network. White space alone lists nothing.
pub proof fn each_part_lists_a_network(value: Seq<char>)
    ensures
        trimmed(value).len() == 0 ==> listed_networks(value) == Some(
            Seq::<(IpAddress, u8)>::empty(),
        ),
        trimmed(value).len() > 0 ==> {
            let parts = comma_parts(trimmed(value));
            match listed_networks(value) {
                Some(nets) => {
                    &&& nets.len() == parts.len()
                    &&& prefixes_fit(nets)
                    &&& forall|i: int|
                        0 <= i < parts.len() ==> parsed_network(trimmed(#[trigger] parts[i]))
                            == Some(nets[i])
                },
                None => exists|i: int|
                    0 <= i < parts.len() && match parsed_network(trimmed(#[trigger] parts[i])) {
                        Some((IpAddress::V4(_), prefix_len)) => prefix_len > 32,
                        Some((IpAddress::V6(_), prefix_len)) => prefix_len > 128,
                        None => true,
                    },
            }
        },
{
    if trimmed(value).len() > 0 {
        let parts = comma_parts(trimmed(value));
        networks_are_those_of_the_parts(parts);
        match listed_networks(value) {
            Some(nets) => {
                assert forall|i: int| 0 <= i < nets.len() implies (#[trigger] nets[i]).1
                    <= address_bits(nets[i].0) by {
                    assert(network_of(parts[i]) == Some(nets[i]));
                }
                assert forall|i: int| 0 <= i < parts.len() implies parsed_network(
                    trimmed(#[trigger] parts[i]),
                ) == Some(nets[i]) by {
                    assert(network_of(parts[i]) == Some(nets[i]));
                }
            },
            None => {
                let i = choose|i: int|
                    0 <= i < parts.len() && network_of(#[trigger] parts[i]) is None;
                assert(match parsed_network(trimmed(parts[i])) {
                    Some((IpAddress::V4(_), prefix_len)) => prefix_len > 32,
                    Some((IpAddress::V6(_), prefix_len)) => prefix_len > 128,
                    None => true,
                });
            },
        }
    }
}

} // verus!
