use relay_rs::client_ip::{parse_address, IpAddress};
use relay_rs::clock::Monotonic;
use relay_rs::quotas::{
    ConnectionQuota, IpRateLimiter, LastTimestampLimiter, LOG_UPLOAD_INTERVAL, MAX_CONNS_PER_IP,
    MAX_GLOBAL_CONNS,
};

fn ip(text: &str) -> IpAddress {
    parse_address(text).unwrap()
}

fn at(secs: i64) -> Monotonic {
    Monotonic { secs, nanos: 0 }
}

#[test]
fn connection_quota_enforces_per_ip_and_global_caps() {
    let mut quota = ConnectionQuota::default();
    let ip = ip("10.0.0.1");
    for _ in 0..MAX_CONNS_PER_IP {
        assert!(quota.try_connect(ip));
    }
    assert!(!quota.try_connect(ip));
    quota.disconnect(ip);
    assert!(quota.try_connect(ip));
}

#[test]
fn last_timestamp_limiter_blocks_within_interval() {
    let mut limiter = LastTimestampLimiter::new(60_000_000_000);
    let ip = ip("10.0.0.2");
    assert!(limiter.allow(ip, at(1000)));
    assert!(!limiter.allow(ip, at(1000)));
}

#[test]
fn ip_rate_limiter_allows_burst_then_blocks() {
    let mut limiter = IpRateLimiter::new(2, 1);
    let ip = ip("10.0.0.3");
    assert!(limiter.allow(ip));
    assert!(limiter.allow(ip));
    assert!(!limiter.allow(ip));
}

#[test]
fn rate_of_zero_counts_as_one() {
    let mut limiter = IpRateLimiter::new(0, 0);
    assert!(limiter.allow(ip("10.0.0.4")));
    assert!(!limiter.allow(ip("10.0.0.4")));
    // Every address has a rate of its own.
    assert!(limiter.allow(ip("10.0.0.5")));
}

#[test]
fn global_cap_holds_for_many_addresses() {
    let mut quota = ConnectionQuota::default();
    for n in 0..MAX_GLOBAL_CONNS {
        assert!(quota.try_connect(IpAddress::V4(n as u32)));
    }
    assert!(!quota.try_connect(ip("192.0.2.1")));
    quota.disconnect(IpAddress::V4(7));
    assert!(quota.try_connect(ip("192.0.2.1")));
    assert!(!quota.try_connect(IpAddress::V4(7)));
}

#[test]
fn disconnecting_an_unknown_address_changes_nothing() {
    let mut quota = ConnectionQuota::default();
    quota.disconnect(ip("10.0.0.1"));
    for n in 0..MAX_GLOBAL_CONNS {
        assert!(quota.try_connect(IpAddress::V4(n as u32)));
    }
    quota.disconnect(ip("10.0.0.1"));
    assert!(!quota.try_connect(ip("10.0.0.1")));
}

#[test]
fn address_may_act_again_after_the_interval() {
    let mut limiter = LastTimestampLimiter::new(LOG_UPLOAD_INTERVAL);
    assert!(limiter.allow(ip("10.0.0.1"), at(1000)));
    assert!(!limiter.allow(ip("10.0.0.1"), at(1059)));
    assert!(limiter.allow(ip("10.0.0.2"), at(1059)));
    assert!(limiter.allow(ip("10.0.0.1"), at(1060)));
    // A refused attempt does not prolong the wait, an allowed one does.
    assert!(!limiter.allow(ip("10.0.0.1"), at(1119)));
    // A clock that went backwards lets nobody in early.
    assert!(!limiter.allow(ip("10.0.0.1"), at(900)));
}

#[test]
fn cleanup_of_old_actions_changes_no_answer() {
    let mut limiter = LastTimestampLimiter::new(LOG_UPLOAD_INTERVAL);
    assert!(limiter.allow(ip("10.0.0.1"), at(1000)));
    assert!(limiter.allow(ip("10.0.0.2"), at(1030)));
    limiter.cleanup(at(1061));
    assert!(!limiter.allow(ip("10.0.0.2"), at(1061)));
    assert!(limiter.allow(ip("10.0.0.1"), at(1061)));
}
