//! Types of the messages that clients send.

use vstd::prelude::*;

verus! {

pub const CREATE: &'static str = "create";

pub const JOIN: &'static str = "join";

pub const RESUME: &'static str = "resume";

pub const BROADCAST: &'static str = "broadcast";

pub const SEND_TO: &'static str = "sendTo";

pub const PING: &'static str = "ping";

pub const LEAVE: &'static str = "leave";

pub const END_SESSION: &'static str = "endSession";

pub const TRANSFER_HOST: &'static str = "transferHost";

} // verus!
