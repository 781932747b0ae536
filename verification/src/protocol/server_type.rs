//! Types of the messages that the relay sends.

use vstd::prelude::*;

verus! {

pub const CREATED: &'static str = "created";

pub const JOINED: &'static str = "joined";

pub const RESUMED: &'static str = "resumed";

pub const PEER_JOINED: &'static str = "peerJoined";

pub const PEER_LEFT: &'static str = "peerLeft";

pub const MESSAGE: &'static str = "message";

pub const ERROR: &'static str = "error";

pub const PONG: &'static str = "pong";

pub const LEFT: &'static str = "left";

pub const ENDED: &'static str = "ended";

pub const HOST_CHANGED: &'static str = "hostChanged";

pub const HOST_TRANSFER_ELIGIBILITY: &'static str = "hostTransferEligibility";

} // verus!
