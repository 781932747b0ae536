//! Rate limits and connection quotas by client address.
//!
//! - [`IpRateLimiter`]: a burst and a sustained rate for each address, for
//!   attempts to connect and for failed log lookups.
//! - [`LastTimestampLimiter`]: one action for each address in an interval, for
//!   log uploads.
//! - [`ConnectionQuota`]: how many connections there may be, in all and for
//!   each address.

use crate::client_ip::IpAddress;
use crate::clock::{elapsed, Monotonic};
use crate::id_map::{lookup, put, unique_keys, without};
use crate::key_map::KeyMap;
use std::num::NonZeroU32;
use vstd::multiset::Multiset;
use vstd::prelude::*;

pub mod laws;

verus! {

pub const CONNECT_ATTEMPT_BURST: u32 = 5;

pub const CONNECT_ATTEMPT_SUSTAINED: u32 = 1;

pub const FAILED_LOG_LOOKUP_BURST: u32 = 10;

pub const FAILED_LOG_LOOKUP_SUSTAINED: u32 = 1;

/// How long an address waits between two log uploads, in nanoseconds.
pub const LOG_UPLOAD_INTERVAL: u128 = 60_000_000_000;

/// Most connections in all.
pub const MAX_GLOBAL_CONNS: usize = 100;

/// Most connections from one address.
pub const MAX_CONNS_PER_IP: usize = 5;

/// A burst and a sustained rate for each address, kept by the keyed limiter of
/// the `governor` crate.
#[verifier::external_body]
pub struct IpRateLimiter {
    inner: governor::DefaultKeyedRateLimiter<IpAddress>,
}

/// The burst size and the cells per second that a limiter was made with.
pub uninterp spec fn limiter_quota(limiter: IpRateLimiter) -> (u32, u32);

/// The actions that a limiter has let through, each by its address.
pub uninterp spec fn limiter_granted(limiter: IpRateLimiter) -> Multiset<IpAddress>;

/// What a limiter was made with, and what it has let through.
#[verifier::ext_equal]
pub struct LimiterView {
    pub quota: (u32, u32),
    pub granted: Multiset<IpAddress>,
}

impl LimiterView {
    /// Nothing was let through yet.
    pub open spec fn fresh(burst: u32, sustained_per_sec: u32) -> LimiterView {
        LimiterView { quota: (burst, sustained_per_sec), granted: Multiset::empty() }
    }

    /// One action more of `ip` was let through.
    pub open spec fn counted(self, ip: IpAddress) -> LimiterView {
        LimiterView { granted: self.granted.insert(ip), ..self }
    }

    /// No action of `ip` was let through yet.
    pub open spec fn is_new_to(self, ip: IpAddress) -> bool {
        self.granted.count(ip) == 0
    }
}

impl View for IpRateLimiter {
    type V = LimiterView;

    open spec fn view(&self) -> LimiterView {
        LimiterView { quota: limiter_quota(*self), granted: limiter_granted(*self) }
    }
}

impl IpRateLimiter {
    /// `governor::RateLimiter::keyed` with a quota of `sustained_per_sec` cells
    /// per second and bursts of `burst` cells for each address. It has let
    /// nothing through yet.
    #[verifier::external_body]
    fn keyed(burst: u32, sustained_per_sec: u32) -> (res: Self)
        requires
            burst > 0,
            sustained_per_sec > 0,
        ensures
            limiter_quota(res) == (burst, sustained_per_sec),
            limiter_granted(res) == Multiset::<IpAddress>::empty(),
    {
        let quota = governor::Quota::per_second(NonZeroU32::new(sustained_per_sec).unwrap())
            .allow_burst(NonZeroU32::new(burst).unwrap());
        IpRateLimiter { inner: governor::RateLimiter::keyed(quota) }
    }

    /// A limiter for bursts of `burst` and `sustained_per_sec` actions per
    /// second. Zero counts as one.
    pub fn new(burst: u32, sustained_per_sec: u32) -> (res: Self)
        ensures
            res@ == LimiterView::fresh(
                if burst == 0 {
                    1
                } else {
                    burst
                },
                if sustained_per_sec == 0 {
                    1
                } else {
                    sustained_per_sec
                },
            ),
    {
        let burst = if burst == 0 {
            1
        } else {
            burst
        };
        let sustained_per_sec = if sustained_per_sec == 0 {
            1
        } else {
            sustained_per_sec
        };
        IpRateLimiter::keyed(burst, sustained_per_sec)
    }

    /// `governor::RateLimiter::check_key`: whether one action more of the
    /// address is within its rate now. One that is let through counts, and only
    /// that; an address of which nothing was let through yet is within its rate,
    /// whatever the clock says. How much of a burst goes through after that, and
    /// when more does, rests on the clock that the limiter reads, so nothing is
    /// said of it.
    #[verifier::external_body]
    pub fn allow(&mut self, ip: IpAddress) -> (res: bool)
        ensures
            limiter_quota(*final(self)) == limiter_quota(*old(self)),
            limiter_granted(*final(self)) == if res {
                limiter_granted(*old(self)).insert(ip)
            } else {
                limiter_granted(*old(self))
            },
            limiter_granted(*old(self)).count(ip) == 0 ==> res,
    {
        self.inner.check_key(&ip).is_ok()
    }
}

/// When each address last acted, and how long it waits.
#[verifier::ext_equal]
pub struct LastTimestampView {
    pub interval: u128,
    pub last: Seq<(IpAddress, Monotonic)>,
}

impl LastTimestampView {
    /// The address may act at `now`: it never did, or an interval ago.
    pub open spec fn allows(self, ip: IpAddress, now: Monotonic) -> bool {
        match lookup(self.last, ip) {
            Some(last) => elapsed(last.at(), now.at()) >= self.interval,
            None => true,
        }
    }

    /// The address acted at `now`.
    pub open spec fn acted(self, ip: IpAddress, now: Monotonic) -> LastTimestampView {
        LastTimestampView { last: put(self.last, ip, now), ..self }
    }

    /// Only what is less than an interval ago is remembered.
    pub open spec fn cleaned(self, now: Monotonic) -> LastTimestampView {
        LastTimestampView {
            last: self.last.filter(
                |e: (IpAddress, Monotonic)| elapsed(e.1.at(), now.at()) < self.interval,
            ),
            ..self
        }
    }
}

/// One action for each address in an interval.
pub struct LastTimestampLimiter {
    interval: u128,
    last: KeyMap<IpAddress, Monotonic>,
}

impl View for LastTimestampLimiter {
    type V = LastTimestampView;

    closed spec fn view(&self) -> LastTimestampView {
        LastTimestampView { interval: self.interval, last: self.last@ }
    }
}

impl LastTimestampLimiter {
    /// A limiter with the given interval, in nanoseconds.
    pub fn new(interval: u128) -> (res: Self)
        ensures
            res@ == (LastTimestampView { interval, last: Seq::empty() }),
    {
        LastTimestampLimiter { interval, last: KeyMap::new() }
    }

    /// Whether the address may act now, which is remembered if it may.
    pub fn allow(&mut self, ip: IpAddress, now: Monotonic) -> (res: bool)
        ensures
            res == old(self)@.allows(ip, now),
            final(self)@ == if res {
                old(self)@.acted(ip, now)
            } else {
                old(self)@
            },
            unique_keys(old(self)@.last),
    {
        if let Some(last) = self.last.get(ip) {
            if now.since(*last) < self.interval {
                return false;
            }
        }
        self.last.insert(ip, now);
        true
    }

    /// Forgets what no longer keeps an address waiting.
    pub fn cleanup(&mut self, now: Monotonic)
        ensures
            final(self)@ == old(self)@.cleaned(now),
            unique_keys(old(self)@.last),
    {
        let interval = self.interval;
        let keep = |_ip: IpAddress, last: &Monotonic| -> (b: bool)
            ensures
                b == (elapsed(last@.at(), now.at()) < interval),
            { now.since(*last) < interval };
        let ghost keeps = |e: (IpAddress, Monotonic)| elapsed(e.1.at(), now.at()) < interval;
        self.last.retain(keep, Ghost(keeps));
    }
}

/// How many connections there are.
#[verifier::ext_equal]
pub struct ConnectionCounts {
    pub global: usize,
    pub per_ip: Seq<(IpAddress, usize)>,
}

impl ConnectionCounts {
    /// The connections from `ip`.
    pub open spec fn of(self, ip: IpAddress) -> nat {
        match lookup(self.per_ip, ip) {
            Some(n) => n as nat,
            None => 0,
        }
    }

    /// There may be one connection more from `ip`.
    pub open spec fn admits(self, ip: IpAddress) -> bool {
        self.global < MAX_GLOBAL_CONNS && self.of(ip) < MAX_CONNS_PER_IP
    }

    /// One connection more from `ip`.
    pub open spec fn connected(self, ip: IpAddress) -> ConnectionCounts {
        ConnectionCounts {
            global: (self.global + 1) as usize,
            per_ip: put(self.per_ip, ip, (self.of(ip) + 1) as usize),
        }
    }

    /// One connection fewer from `ip`, if there was one; a count of zero is not
    /// kept.
    pub open spec fn disconnected(self, ip: IpAddress) -> ConnectionCounts {
        ConnectionCounts {
            global: if self.of(ip) > 0 && self.global > 0 {
                (self.global - 1) as usize
            } else {
                self.global
            },
            per_ip: if self.of(ip) > 1 {
                put(self.per_ip, ip, (self.of(ip) - 1) as usize)
            } else {
                without(self.per_ip, ip)
            },
        }
    }
}

/// Counts the connections, in all and for each address.
pub struct ConnectionQuota {
    global: usize,
    per_ip: KeyMap<IpAddress, usize>,
}

impl View for ConnectionQuota {
    type V = ConnectionCounts;

    closed spec fn view(&self) -> ConnectionCounts {
        ConnectionCounts { global: self.global, per_ip: self.per_ip@ }
    }
}

impl Default for ConnectionQuota {
    fn default() -> (res: Self)
        ensures
            res@ == (ConnectionCounts { global: 0, per_ip: Seq::empty() }),
    {
        ConnectionQuota { global: 0, per_ip: KeyMap::new() }
    }
}

impl ConnectionQuota {
    /// Counts a connection from `ip`, if there may be one more.
    pub fn try_connect(&mut self, ip: IpAddress) -> (res: bool)
        ensures
            res == old(self)@.admits(ip),
            final(self)@ == if res {
                old(self)@.connected(ip)
            } else {
                old(self)@
            },
    {
        if self.global >= MAX_GLOBAL_CONNS {
            return false;
        }
        let count: usize = match self.per_ip.get(ip) {
            Some(count) => *count,
            None => 0,
        };
        if count >= MAX_CONNS_PER_IP {
            return false;
        }
        self.per_ip.insert(ip, count + 1);
        self.global = self.global + 1;
        true
    }

    /// A connection from `ip` is over.
    pub fn disconnect(&mut self, ip: IpAddress)
        ensures
            final(self)@ == old(self)@.disconnected(ip),
    {
        let count: usize = match self.per_ip.get(ip) {
            Some(count) => *count,
            None => 0,
        };
        if count > 1 {
            self.per_ip.insert(ip, count - 1);
        } else {
            self.per_ip.remove(ip);
        }
        if count > 0 && self.global > 0 {
            self.global = self.global - 1;
        }
    }
}

} // verus!
