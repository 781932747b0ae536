//! What holds of the limits.

use crate::client_ip::IpAddress;
use crate::clock::{elapsed, Monotonic};
use crate::id_map::{
    entry_is_found, filter_then_lookup, has_key, lookup, position, put_then_lookup, unique_keys,
    without_then_lookup,
};
use crate::quotas::{
    ConnectionCounts, LastTimestampView, LimiterView, MAX_CONNS_PER_IP, MAX_GLOBAL_CONNS,
};
use vstd::prelude::*;

verus! {

/// Forgetting what no longer matters does not matter: every address gets the
/// same answer later as it would have got.
pub proof fn cleanup_changes_no_answer(
    limiter: LastTimestampView,
    ip: IpAddress,
    now: Monotonic,
    later: Monotonic,
)
    requires
        unique_keys(limiter.last),
        now.at() <= later.at(),
    ensures
        limiter.cleaned(now).allows(ip, later) == limiter.allows(ip, later),
{
    let keeps = |e: (IpAddress, Monotonic)| elapsed(e.1.at(), now.at()) < limiter.interval;
    filter_then_lookup(limiter.last, keeps);
    assert(limiter.cleaned(now).last == limiter.last.filter(keeps));
    assert(lookup(limiter.last.filter(keeps), ip) == if has_key(limiter.last, ip) && keeps(
        (ip, lookup(limiter.last, ip)->0),
    ) {
        lookup(limiter.last, ip)
    } else {
        None
    });
}

/// An address that acted waits for the interval; nobody else does.
pub proof fn one_action_per_interval(
    limiter: LastTimestampView,
    ip: IpAddress,
    other: IpAddress,
    now: Monotonic,
    later: Monotonic,
)
    requires
        unique_keys(limiter.last),
    ensures
        limiter.acted(ip, now).allows(ip, later) <==> elapsed(now.at(), later.at())
            >= limiter.interval,
        other != ip ==> limiter.acted(ip, now).allows(other, later) == limiter.allows(
            other,
            later,
        ),
{
    put_then_lookup(limiter.last, ip, now);
}

/// The sum of the counts.
pub open spec fn total(counts: Seq<(IpAddress, usize)>) -> nat
    decreases counts.len(),
{
    if counts.len() == 0 {
        0
    } else {
        total(counts.drop_last()) + counts.last().1 as nat
    }
}

/// The sum after one count changed.
proof fn total_update(counts: Seq<(IpAddress, usize)>, i: int, e: (IpAddress, usize))
    requires
        0 <= i < counts.len(),
    ensures
        total(counts.update(i, e)) == total(counts) - counts[i].1 + e.1,
    decreases counts.len(),
{
    let after = counts.update(i, e);
    if i == counts.len() - 1 {
        assert(after.drop_last() =~= counts.drop_last());
    } else {
        assert(after.drop_last() =~= counts.drop_last().update(i, e));
        total_update(counts.drop_last(), i, e);
    }
}

/// The sum after one count was removed.
proof fn total_remove(counts: Seq<(IpAddress, usize)>, i: int)
    requires
        0 <= i < counts.len(),
    ensures
        total(counts.remove(i)) == total(counts) - counts[i].1,
    decreases counts.len(),
{
    let after = counts.remove(i);
    if i == counts.len() - 1 {
        assert(after =~= counts.drop_last());
    } else {
        assert(after.drop_last() =~= counts.drop_last().remove(i));
        total_remove(counts.drop_last(), i);
    }
}

impl ConnectionCounts {
    /// The counts add up and are within the limits; an address without a
    /// connection is not kept.
    pub open spec fn wf(self) -> bool {
        &&& unique_keys(self.per_ip)
        &&& self.global == total(self.per_ip)
        &&& self.global <= MAX_GLOBAL_CONNS
        &&& forall|i: int|
            0 <= i < self.per_ip.len() ==> 0 < (#[trigger] self.per_ip[i]).1 <= MAX_CONNS_PER_IP
    }
}

/// Without connections the counts are in order.
pub proof fn no_connections_are_wf()
    ensures
        (ConnectionCounts { global: 0, per_ip: Seq::empty() }).wf(),
{
}

/// A connection that is let in keeps the counts in order and within the limits.
pub proof fn connecting_keeps_wf(counts: ConnectionCounts, ip: IpAddress)
    requires
        counts.wf(),
        counts.admits(ip),
    ensures
        counts.connected(ip).wf(),
        counts.connected(ip).of(ip) == counts.of(ip) + 1,
{
    let n = (counts.of(ip) + 1) as usize;
    put_then_lookup(counts.per_ip, ip, n);
    let after = counts.connected(ip).per_ip;
    if has_key(counts.per_ip, ip) {
        let p = position(counts.per_ip, ip);
        total_update(counts.per_ip, p, (ip, n));
        assert forall|i: int| 0 <= i < after.len() implies 0 < (#[trigger] after[i]).1
            <= MAX_CONNS_PER_IP by {
            assert(0 < counts.per_ip[i].1 <= MAX_CONNS_PER_IP);
        }
    } else {
        assert(after.drop_last() =~= counts.per_ip);
        assert forall|i: int| 0 <= i < after.len() implies 0 < (#[trigger] after[i]).1
            <= MAX_CONNS_PER_IP by {
            if i < counts.per_ip.len() {
                assert(0 < counts.per_ip[i].1 <= MAX_CONNS_PER_IP);
            }
        }
    }
}

/// A connection that is over keeps the counts in order.
pub proof fn disconnecting_keeps_wf(counts: ConnectionCounts, ip: IpAddress)
    requires
        counts.wf(),
    ensures
        counts.disconnected(ip).wf(),
{
    let after = counts.disconnected(ip).per_ip;
    without_then_lookup(counts.per_ip, ip);
    if has_key(counts.per_ip, ip) {
        let p = position(counts.per_ip, ip);
        assert(0 < counts.per_ip[p].1 <= MAX_CONNS_PER_IP);
        let n = (counts.of(ip) - 1) as usize;
        put_then_lookup(counts.per_ip, ip, n);
        total_update(counts.per_ip, p, (ip, n));
        total_remove(counts.per_ip, p);
        assert forall|i: int| 0 <= i < after.len() implies 0 < (#[trigger] after[i]).1
            <= MAX_CONNS_PER_IP by {
            if counts.of(ip) > 1 {
                assert(0 < counts.per_ip[i].1 <= MAX_CONNS_PER_IP);
            } else {
                let j = if i < p {
                    i
                } else {
                    i + 1
                };
                assert(after[i] == counts.per_ip[j]);
                assert(0 < counts.per_ip[j].1 <= MAX_CONNS_PER_IP);
            }
        }
    }
}

/// A connection that comes and goes leaves no trace.
pub proof fn connection_leaves_no_trace(counts: ConnectionCounts, ip: IpAddress)
    requires
        counts.wf(),
        counts.admits(ip),
    ensures
        counts.connected(ip).disconnected(ip) == counts,
{
    connecting_keeps_wf(counts, ip);
    let during = counts.connected(ip);
    let after = during.disconnected(ip);
    if has_key(counts.per_ip, ip) {
        let p = position(counts.per_ip, ip);
        assert(0 < counts.per_ip[p].1);
        entry_is_found(during.per_ip, p);
        assert(after.per_ip =~= counts.per_ip);
    } else {
        entry_is_found(during.per_ip, counts.per_ip.len() as int);
        assert(after.per_ip =~= counts.per_ip);
    }
    assert(after =~= counts);
}

/// There may be one connection more while there are fewer than 100 in all and
/// fewer than five from the address.
pub proof fn connections_are_limited(counts: ConnectionCounts, ip: IpAddress)
    requires
        unique_keys(counts.per_ip),
    ensures
        counts.admits(ip) <==> {
            &&& counts.global < 100
            &&& lookup(counts.per_ip, ip) matches Some(n) ==> n < 5
        },
        counts.admits(ip) ==> {
            let after = counts.connected(ip);
            &&& after.global == counts.global + 1
            &&& after.of(ip) == counts.of(ip) + 1
            &&& forall|other: IpAddress|
                other != ip ==> #[trigger] after.of(other) == counts.of(other)
        },
        ({
            let after = counts.disconnected(ip);
            &&& after.global == if counts.of(ip) > 0 && counts.global > 0 {
                counts.global - 1
            } else {
                counts.global as int
            }
            &&& after.of(ip) == if counts.of(ip) > 0 {
                counts.of(ip) - 1
            } else {
                0
            }
            &&& forall|other: IpAddress|
                other != ip ==> #[trigger] after.of(other) == counts.of(other)
        }),
{
    put_then_lookup(counts.per_ip, ip, (counts.of(ip) + 1) as usize);
    without_then_lookup(counts.per_ip, ip);
    if counts.of(ip) > 1 {
        put_then_lookup(counts.per_ip, ip, (counts.of(ip) - 1) as usize);
    }
}

/// An action that is let through counts once for its address, and for no other;
/// a new limiter has let nothing through.
pub proof fn granted_action_counts_once(
    limiter: LimiterView,
    ip: IpAddress,
    other: IpAddress,
    burst: u32,
    sustained_per_sec: u32,
)
    ensures
        limiter.counted(ip).quota == limiter.quota,
        limiter.counted(ip).granted.count(ip) == limiter.granted.count(ip) + 1,
        other != ip ==> limiter.counted(ip).granted.count(other) == limiter.granted.count(other),
        limiter.is_new_to(ip) <==> limiter.granted.count(ip) == 0,
        LimiterView::fresh(burst, sustained_per_sec).quota == (burst, sustained_per_sec),
        LimiterView::fresh(burst, sustained_per_sec).granted.count(ip) == 0,
{
}

} // verus!
