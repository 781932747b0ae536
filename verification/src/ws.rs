//! Whether a client may open a WebSocket.

use crate::client_ip::IpAddress;
use crate::http::{HttpReply, ReplyView, BAD_REQUEST, TOO_MANY_REQUESTS};
use crate::quotas::{ConnectionQuota, IpRateLimiter};
use vstd::prelude::*;

verus! {

/// Decides on a client at `ip`; `attempt_allowed` says whether its rate of
/// attempts is within the limit. A client that is let in is counted.
pub fn decide_upgrade(
    quota: &mut ConnectionQuota,
    ip: IpAddress,
    attempt_allowed: bool,
) -> (res: Result<IpAddress, HttpReply>)
    ensures
        match res {
            Ok(addr) => {
                &&& addr == ip
                &&& attempt_allowed
                &&& old(quota)@.admits(ip)
                &&& final(quota)@ == old(quota)@.connected(ip)
            },
            Err(reply) => {
                &&& !attempt_allowed || !old(quota)@.admits(ip)
                &&& final(quota)@ == old(quota)@
                &&& reply@ == (ReplyView {
                    status: TOO_MANY_REQUESTS,
                    body: if !attempt_allowed {
                        "Too many connection attempts"@
                    } else {
                        "Too many connections"@
                    },
                })
            },
        },
{
    if !attempt_allowed {
        return Err(HttpReply::new(TOO_MANY_REQUESTS, "Too many connection attempts"));
    }
    if !quota.try_connect(ip) {
        return Err(HttpReply::new(TOO_MANY_REQUESTS, "Too many connections"));
    }
    Ok(ip)
}

/// Decides on a client; `client` is its address, if its header was read. The
/// limiter is asked about that address first. Whether it lets the attempt
/// through rests on the clock that it reads, but for the first attempt of an
/// address, which it does.
pub fn ws_handler(
    quota: &mut ConnectionQuota,
    limiter: &mut IpRateLimiter,
    client: Option<IpAddress>,
) -> (res: Result<IpAddress, HttpReply>)
    ensures
        match client {
            None => {
                &&& res matches Err(reply)
                &&& reply@ == (ReplyView {
                    status: BAD_REQUEST,
                    body: "Invalid client address"@,
                })
                &&& final(quota)@ == old(quota)@
                &&& final(limiter)@ == old(limiter)@
            },
            Some(ip) => match res {
                Ok(addr) => {
                    &&& addr == ip
                    &&& old(quota)@.admits(ip)
                    &&& final(quota)@ == old(quota)@.connected(ip)
                    &&& final(limiter)@ == old(limiter)@.counted(ip)
                },
                Err(reply) => {
                    &&& final(quota)@ == old(quota)@
                    &&& reply@.status == TOO_MANY_REQUESTS
                    &&& {
                        ||| {
                            &&& reply@.body == "Too many connection attempts"@
                            &&& !old(limiter)@.is_new_to(ip)
                            &&& final(limiter)@ == old(limiter)@
                        }
                        ||| {
                            &&& reply@.body == "Too many connections"@
                            &&& !old(quota)@.admits(ip)
                            &&& final(limiter)@ == old(limiter)@.counted(ip)
                        }
                    }
                },
            },
        },
        client matches Some(ip) && old(limiter)@.is_new_to(ip) && old(quota)@.admits(ip)
            ==> res is Ok,
{
    match client {
        Some(ip) => decide_upgrade(quota, ip, limiter.allow(ip)),
        None => Err(HttpReply::new(BAD_REQUEST, "Invalid client address")),
    }
}

} // verus!
