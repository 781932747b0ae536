//! Which address a request counts for. Quotas and rate limits are kept by that
//! address, so a client must not be able to choose it: `X-Forwarded-For` is
//! believed as far as it was written by proxies that the operator trusts.

use crate::error::ClientIpError;
use crate::key_map::Key;
use crate::text::{comma_parts, split_commas, strs_view, trim, trimmed};
use vstd::arithmetic::power2::pow2;
use vstd::prelude::*;
use vstd::utf8::encode_utf8;

pub mod laws;
pub mod trust_laws;

verus! {

/// Longest `X-Forwarded-For` that is read, over all occurrences of the header.
pub const MAX_FORWARDED_FOR_BYTES: usize = 4096;

/// Most hops that `X-Forwarded-For` may list, over all occurrences.
pub const MAX_FORWARDED_FOR_HOPS: usize = 32;

/// An IP address as a number.
#[derive(Clone, Copy, PartialEq, Eq, Structural, Hash, Debug)]
pub enum IpAddress {
    V4(u32),
    V6(u128),
}

impl Key for IpAddress {
    fn same(self, other: Self) -> (res: bool) {
        self == other
    }
}

/// The address that a text stands for, if it is one.
pub uninterp spec fn parsed_address(text: Seq<char>) -> Option<IpAddress>;

/// The address and the prefix length that a text in CIDR notation stands for, if
/// it is one.
pub uninterp spec fn parsed_network(text: Seq<char>) -> Option<(IpAddress, u8)>;

/// `IpAddr::from_str`: the address that the text stands for. The result depends
/// on the text alone.
#[verifier::external_body]
fn read_address(text: &str) -> (res: Option<IpAddress>)
    ensures
        res == parsed_address(text@),
{
    match ipnet::IpNet::new(text.parse().ok()?, 0).ok()? {
        ipnet::IpNet::V4(net) => Some(IpAddress::V4(u32::from_be_bytes(net.addr().octets()))),
        ipnet::IpNet::V6(net) => Some(IpAddress::V6(u128::from_be_bytes(net.addr().octets()))),
    }
}

/// `ipnet::IpNet::from_str`: the address and the prefix length that the text
/// stands for. The result depends on the text alone.
#[verifier::external_body]
fn read_network(text: &str) -> (res: Option<(IpAddress, u8)>)
    ensures
        res == parsed_network(text@),
{
    match text.parse::<ipnet::IpNet>().ok()? {
        ipnet::IpNet::V4(net) => {
            Some((IpAddress::V4(u32::from_be_bytes(net.addr().octets())), net.prefix_len()))
        },
        ipnet::IpNet::V6(net) => {
            Some((IpAddress::V6(u128::from_be_bytes(net.addr().octets())), net.prefix_len()))
        },
    }
}

/// How many bits an address of this kind has.
pub open spec fn address_bits(addr: IpAddress) -> nat {
    match addr {
        IpAddress::V4(_) => 32,
        IpAddress::V6(_) => 128,
    }
}

/// Two addresses are of one kind and agree in their first `prefix_len` bits.
pub open spec fn share_prefix(a: IpAddress, b: IpAddress, prefix_len: u8) -> bool {
    match (a, b) {
        (IpAddress::V4(a), IpAddress::V4(b)) => a as nat / pow2((32 - prefix_len) as nat)
            == b as nat / pow2((32 - prefix_len) as nat),
        (IpAddress::V6(a), IpAddress::V6(b)) => a as nat / pow2((128 - prefix_len) as nat)
            == b as nat / pow2((128 - prefix_len) as nat),
        _ => false,
    }
}

/// `ipnet::IpNet::contains` for an address: it is in the network iff it is of
/// the network's kind and agrees with it in the first `prefix_len` bits.
#[verifier::external_body]
fn network_contains(net: IpAddress, prefix_len: u8, addr: IpAddress) -> (res: bool)
    requires
        prefix_len <= address_bits(net),
    ensures
        res == share_prefix(net, addr, prefix_len),
{
    let network = |ip: IpAddress, len: u8| match ip {
        IpAddress::V4(v4) => ipnet::IpNet::new(v4.to_be_bytes().into(), len),
        IpAddress::V6(v6) => ipnet::IpNet::new(v6.to_be_bytes().into(), len),
    };
    match (network(net, prefix_len), network(addr, 0)) {
        (Ok(net), Ok(addr)) => net.contains(&addr.addr()),
        _ => false,
    }
}

/// A network in CIDR notation.
#[derive(Clone, Copy)]
pub struct IpNetwork {
    addr: IpAddress,
    prefix_len: u8,
}

impl IpNetwork {
    #[verifier::type_invariant]
    spec fn prefix_fits(&self) -> bool {
        self.prefix_len <= address_bits(self.addr)
    }
}

impl View for IpNetwork {
    type V = (IpAddress, u8);

    closed spec fn view(&self) -> (IpAddress, u8) {
        (self.addr, self.prefix_len)
    }
}

/// The networks of a list.
pub open spec fn networks_view(list: Seq<IpNetwork>) -> Seq<(IpAddress, u8)> {
    list.map_values(|n: IpNetwork| n@)
}

impl IpNetwork {
    /// The network with the first `prefix_len` bits of `addr`, if there are so
    /// many.
    pub fn new(addr: IpAddress, prefix_len: u8) -> (res: Option<Self>)
        ensures
            match res {
                Some(net) => prefix_len <= address_bits(addr) && net@ == (addr, prefix_len),
                None => prefix_len > address_bits(addr),
            },
    {
        let bits: u8 = match addr {
            IpAddress::V4(_) => 32,
            IpAddress::V6(_) => 128,
        };
        if prefix_len > bits {
            return None;
        }
        Some(IpNetwork { addr, prefix_len })
    }

    pub fn contains(&self, addr: IpAddress) -> (res: bool)
        ensures
            res == share_prefix(self@.0, addr, self@.1),
    {
        proof {
            use_type_invariant(self);
        }
        network_contains(self.addr, self.prefix_len, addr)
    }
}

/// The network that a text stands for, white space around it aside.
pub open spec fn network_of(text: Seq<char>) -> Option<(IpAddress, u8)> {
    match parsed_network(trimmed(text)) {
        Some((addr, prefix_len)) => if prefix_len <= address_bits(addr) {
            Some((addr, prefix_len))
        } else {
            None
        },
        None => None,
    }
}

/// The networks that the parts of a list stand for; there are none if a part is
/// no network.
pub open spec fn networks_of(parts: Seq<Seq<char>>) -> Option<Seq<(IpAddress, u8)>>
    decreases parts.len(),
{
    if parts.len() == 0 {
        Some(Seq::empty())
    } else {
        match (networks_of(parts.drop_last()), network_of(parts.last())) {
            (Some(before), Some(net)) => Some(before.push(net)),
            _ => None,
        }
    }
}

/// The networks that a comma-separated list stands for. White space alone
/// stands for the empty list.
pub open spec fn listed_networks(value: Seq<char>) -> Option<Seq<(IpAddress, u8)>> {
    if trimmed(value).len() == 0 {
        Some(Seq::empty())
    } else {
        networks_of(comma_parts(trimmed(value)))
    }
}

/// The networks of an optional list.
pub open spec fn opt_networks_view(
    list: Result<Vec<IpNetwork>, ClientIpError>,
) -> Option<Seq<(IpAddress, u8)>> {
    match list {
        Ok(list) => Some(networks_view(list@)),
        Err(_) => None,
    }
}

/// Where an earlier part is no network, the list stands for none.
proof fn networks_need_every_part(parts: Seq<Seq<char>>, n: int)
    requires
        0 <= n <= parts.len(),
        networks_of(parts.take(n)) is None,
    ensures
        networks_of(parts) is None,
    decreases parts.len() - n,
{
    if n < parts.len() {
        assert(parts.take(n + 1).drop_last() =~= parts.take(n));
        networks_need_every_part(parts, n + 1);
    } else {
        assert(parts.take(n) =~= parts);
    }
}

/// Reads the list of trusted proxies. An empty list trusts nobody; one with a
/// part that is no network is refused.
pub fn parse_trusted_proxy_cidrs(value: &str) -> (res: Result<Vec<IpNetwork>, ClientIpError>)
    ensures
        opt_networks_view(res) == listed_networks(value@),
{
    let text = trim(value);
    let mut nets: Vec<IpNetwork> = Vec::new();
    if text.is_empty() {
        assert(networks_view(nets@) =~= Seq::empty());
        return Ok(nets);
    }
    let parts = split_commas(text);
    let ghost all = strs_view(parts@);
    let mut i: usize = 0;
    assert(networks_view(nets@) =~= Seq::empty());
    while i < parts.len()
        invariant
            i <= parts@.len(),
            all == strs_view(parts@),
            all == comma_parts(trimmed(value@)),
            trimmed(value@).len() > 0,
            networks_of(all.take(i as int)) == Some(networks_view(nets@)),
        decreases parts@.len() - i,
    {
        assert(all.take(i + 1).drop_last() =~= all.take(i as int));
        assert(all.take(i + 1).last() == parts@[i as int]@);
        let net = match read_network(trim(parts[i])) {
            Some((addr, prefix_len)) => IpNetwork::new(addr, prefix_len),
            None => None,
        };
        match net {
            Some(net) => {
                let ghost before = nets@;
                nets.push(net);
                assert(networks_view(nets@) =~= networks_view(before).push(net@));
            },
            None => {
                proof {
                    networks_need_every_part(all, i + 1);
                }
                return Err(ClientIpError);
            },
        }
        i = i + 1;
    }
    assert(all.take(i as int) =~= all);
    Ok(nets)
}

/// An IPv4 address that is written as an IPv6 address counts as the former.
pub open spec fn unmapped(addr: IpAddress) -> IpAddress {
    match addr {
        IpAddress::V6(v6) => if v6 / 0x1_0000_0000 == 0xffff {
            IpAddress::V4((v6 % 0x1_0000_0000) as u32)
        } else {
            addr
        },
        IpAddress::V4(_) => addr,
    }
}

/// The address that quotas are kept by: of an IPv6 address its first half, as
/// one household has the second half to itself.
pub open spec fn normalized(addr: IpAddress) -> IpAddress {
    match addr {
        IpAddress::V6(v6) => IpAddress::V6((v6 - v6 % 0x1_0000_0000_0000_0000) as u128),
        IpAddress::V4(_) => addr,
    }
}

fn unmap(addr: IpAddress) -> (res: IpAddress)
    ensures
        res == unmapped(addr),
{
    match addr {
        IpAddress::V6(v6) => {
            if v6 / 0x1_0000_0000 == 0xffff {
                IpAddress::V4((v6 % 0x1_0000_0000) as u32)
            } else {
                addr
            }
        },
        IpAddress::V4(_) => addr,
    }
}

fn normalize(addr: IpAddress) -> (res: IpAddress)
    ensures
        res == normalized(addr),
{
    match addr {
        IpAddress::V6(v6) => IpAddress::V6(v6 - v6 % 0x1_0000_0000_0000_0000),
        IpAddress::V4(_) => addr,
    }
}

/// Reads an address.
pub fn parse_address(text: &str) -> (res: Option<IpAddress>)
    ensures
        res == parsed_address(text@),
{
    read_address(text)
}

/// One of the networks contains the address.
pub open spec fn trusts(nets: Seq<(IpAddress, u8)>, addr: IpAddress) -> bool {
    exists|i: int|
        0 <= i < nets.len() && share_prefix(
            (#[trigger] nets[i]).0,
            unmapped(addr),
            nets[i].1,
        )
}

/// The bytes of all header values together.
pub open spec fn total_bytes(values: Seq<Seq<char>>) -> nat
    decreases values.len(),
{
    if values.len() == 0 {
        0
    } else {
        total_bytes(values.drop_last()) + encode_utf8(values.last()).len()
    }
}

/// The hops that the header values list, the nearest one last.
pub open spec fn hops(values: Seq<Seq<char>>) -> Seq<Seq<char>>
    decreases values.len(),
{
    if values.len() == 0 {
        Seq::empty()
    } else {
        hops(values.drop_last()) + comma_parts(values.last())
    }
}

/// The address that a hop stands for, white space around it aside.
pub open spec fn hop_address(hop: Seq<char>) -> Option<IpAddress> {
    if trimmed(hop).len() == 0 {
        None
    } else {
        parsed_address(trimmed(hop))
    }
}

/// Every hop is an address.
pub open spec fn all_hops_parse(list: Seq<Seq<char>>) -> bool {
    forall|i: int| 0 <= i < list.len() ==> hop_address(#[trigger] list[i]) is Some
}

/// Whom the walk over the hops from the nearest one on arrives at: it goes on
/// past a hop as long as that one is trusted. `n` hops are left.
pub open spec fn walked(
    nets: Seq<(IpAddress, u8)>,
    selected: IpAddress,
    list: Seq<Seq<char>>,
    n: int,
) -> IpAddress
    decreases n,
{
    if n <= 0 || !trusts(nets, selected) {
        selected
    } else {
        walked(nets, unmapped(hop_address(list[n - 1])->0), list, n - 1)
    }
}

/// The address that a request counts for; `None` where its header is refused.
pub open spec fn resolved(
    nets: Seq<(IpAddress, u8)>,
    peer_addr: IpAddress,
    forwarded_for: Seq<Seq<char>>,
) -> Option<IpAddress> {
    let peer = unmapped(peer_addr);
    let list = hops(forwarded_for);
    if !trusts(nets, peer) || forwarded_for.len() == 0 {
        Some(normalized(peer))
    } else if total_bytes(forwarded_for) > MAX_FORWARDED_FOR_BYTES || list.len()
        > MAX_FORWARDED_FOR_HOPS || !all_hops_parse(list) {
        None
    } else {
        Some(normalized(walked(nets, peer, list, list.len() as int)))
    }
}

pub struct ClientIpResolver {
    trusted_proxies: Vec<IpNetwork>,
}

impl View for ClientIpResolver {
    type V = Seq<(IpAddress, u8)>;

    closed spec fn view(&self) -> Seq<(IpAddress, u8)> {
        networks_view(self.trusted_proxies@)
    }
}

impl Clone for ClientIpResolver {
    fn clone(&self) -> (res: Self)
        ensures
            res@ == self@,
    {
        let mut nets: Vec<IpNetwork> = Vec::new();
        let mut i: usize = 0;
        while i < self.trusted_proxies.len()
            invariant
                i <= self.trusted_proxies@.len(),
                nets@ == self.trusted_proxies@.take(i as int),
            decreases self.trusted_proxies@.len() - i,
        {
            nets.push(self.trusted_proxies[i]);
            i = i + 1;
            assert(self.trusted_proxies@.take(i as int) =~= self.trusted_proxies@.take(
                i - 1,
            ).push(self.trusted_proxies@[i - 1]));
        }
        assert(self.trusted_proxies@.take(i as int) =~= self.trusted_proxies@);
        ClientIpResolver { trusted_proxies: nets }
    }
}

impl Default for ClientIpResolver {
    /// A resolver that trusts nobody.
    fn default() -> (res: Self)
        ensures
            res@ == Seq::<(IpAddress, u8)>::empty(),
    {
        let res = ClientIpResolver { trusted_proxies: Vec::new() };
        assert(res@ =~= Seq::<(IpAddress, u8)>::empty());
        res
    }
}

/// The first values alone hold no more bytes and list no more hops than all of
/// them.
proof fn prefix_is_smaller(values: Seq<Seq<char>>, n: int)
    requires
        0 <= n <= values.len(),
    ensures
        total_bytes(values.take(n)) <= total_bytes(values),
        hops(values.take(n)).len() <= hops(values).len(),
    decreases values.len() - n,
{
    if n < values.len() {
        assert(values.take(n + 1).drop_last() =~= values.take(n));
        prefix_is_smaller(values, n + 1);
    } else {
        assert(values.take(n) =~= values);
    }
}

impl ClientIpResolver {
    pub fn new(trusted_proxies: Vec<IpNetwork>) -> (res: Self)
        ensures
            res@ == networks_view(trusted_proxies@),
    {
        ClientIpResolver { trusted_proxies }
    }

    /// Whether the address is that of a trusted proxy.
    fn trusted(&self, addr: IpAddress) -> (res: bool)
        ensures
            res == trusts(self@, addr),
    {
        let plain = unmap(addr);
        let mut i: usize = 0;
        while i < self.trusted_proxies.len()
            invariant
                i <= self.trusted_proxies@.len(),
                plain == unmapped(addr),
                forall|j: int|
                    0 <= j < i ==> !share_prefix(
                        (#[trigger] networks_view(self.trusted_proxies@)[j]).0,
                        plain,
                        networks_view(self.trusted_proxies@)[j].1,
                    ),
            decreases self.trusted_proxies@.len() - i,
        {
            if self.trusted_proxies[i].contains(plain) {
                assert(share_prefix(self@[i as int].0, plain, self@[i as int].1));
                return true;
            }
            i = i + 1;
        }
        false
    }

    /// The hops that the header values list, unless those are too long or list
    /// too many.
    fn bounded_hops<'a>(forwarded_for: &[&'a str]) -> (res: Option<Vec<&'a str>>)
        ensures
            ({
                let values = strs_view(forwarded_for@);
                let fits = total_bytes(values) <= MAX_FORWARDED_FOR_BYTES && hops(values).len()
                    <= MAX_FORWARDED_FOR_HOPS;
                match res {
                    Some(list) => fits && strs_view(list@) == hops(values),
                    None => !fits,
                }
            }),
    {
        let ghost values = strs_view(forwarded_for@);
        let mut bytes: usize = 0;
        let mut list: Vec<&'a str> = Vec::new();
        let mut i: usize = 0;
        assert(strs_view(list@) =~= hops(values.take(0)));
        while i < forwarded_for.len()
            invariant
                i <= forwarded_for@.len(),
                values == strs_view(forwarded_for@),
                bytes == total_bytes(values.take(i as int)),
                bytes <= MAX_FORWARDED_FOR_BYTES,
                strs_view(list@) == hops(values.take(i as int)),
                list@.len() <= MAX_FORWARDED_FOR_HOPS,
            decreases forwarded_for@.len() - i,
        {
            let value = forwarded_for[i];
            proof {
                assert(values.take(i + 1).drop_last() =~= values.take(i as int));
                assert(values.take(i + 1).last() == value@);
                prefix_is_smaller(values, i + 1);
            }
            if value.as_bytes().len() > MAX_FORWARDED_FOR_BYTES - bytes {
                return None;
            }
            bytes = bytes + value.as_bytes().len();
            let mut parts = split_commas(value);
            let ghost before = list@;
            let ghost more = parts@;
            if parts.len() > MAX_FORWARDED_FOR_HOPS - list.len() {
                return None;
            }
            list.append(&mut parts);
            assert(strs_view(list@) =~= strs_view(before) + strs_view(more));
            i = i + 1;
        }
        assert(values.take(i as int) =~= values);
        Some(list)
    }

    /// The address that a request counts for, from the address of its TCP peer
    /// and the values of its `X-Forwarded-For` headers in the order in which
    /// they came. The walk from the nearest hop on stops at the first one that
    /// is no trusted proxy.
    pub fn resolve(&self, peer_addr: IpAddress, forwarded_for: &[&str]) -> (res: Result<
        IpAddress,
        ClientIpError,
    >)
        ensures
            match res {
                Ok(addr) => resolved(self@, peer_addr, strs_view(forwarded_for@)) == Some(addr),
                Err(_) => resolved(self@, peer_addr, strs_view(forwarded_for@)) is None,
            },
    {
        let peer = unmap(peer_addr);
        if !self.trusted(peer) || forwarded_for.len() == 0 {
            return Ok(normalize(peer));
        }
        let list = match ClientIpResolver::bounded_hops(forwarded_for) {
            Some(list) => list,
            None => {
                return Err(ClientIpError);
            },
        };
        let ghost texts = strs_view(list@);
        let mut selected = peer;
        let mut walking = true;
        let mut n: usize = list.len();
        while n > 0
            invariant
                n <= list@.len(),
                texts == strs_view(list@),
                texts == hops(strs_view(forwarded_for@)),
                forwarded_for@.len() > 0,
                peer == unmapped(peer_addr),
                trusts(self@, peer),
                forall|j: int|
                    n <= j < texts.len() ==> hop_address(#[trigger] texts[j]) is Some,
                walked(self@, peer, texts, texts.len() as int) == if walking {
                    walked(self@, selected, texts, n as int)
                } else {
                    selected
                },
            decreases n,
        {
            n = n - 1;
            assert(texts[n as int] == list@[n as int]@);
            let hop = trim(list[n]);
            if hop.is_empty() {
                assert(hop_address(texts[n as int]) is None);
                return Err(ClientIpError);
            }
            let addr = match read_address(hop) {
                Some(addr) => addr,
                None => {
                    assert(hop_address(texts[n as int]) is None);
                    return Err(ClientIpError);
                },
            };
            if walking {
                if self.trusted(selected) {
                    selected = unmap(addr);
                } else {
                    walking = false;
                }
            }
        }
        Ok(normalize(selected))
    }
}

} // verus!
