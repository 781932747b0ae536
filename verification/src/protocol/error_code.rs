//! Codes that `error` messages carry.

use vstd::prelude::*;

verus! {

pub const RATE_LIMITED: &'static str = "rate_limited";

pub const INVALID_MESSAGE: &'static str = "invalid_message";

pub const ROOM_EXISTS: &'static str = "room_exists";

pub const ROOM_NOT_FOUND: &'static str = "room_not_found";

pub const ROOM_FULL: &'static str = "room_full";

pub const NOT_IN_ROOM: &'static str = "not_in_room";

pub const ALREADY_IN_ROOM: &'static str = "already_in_room";

pub const PEER_ID_UNAVAILABLE: &'static str = "peer_id_unavailable";

pub const PROTOCOL_MISMATCH: &'static str = "protocol_mismatch";

pub const NOT_HOST: &'static str = "not_host";

pub const PEER_NOT_FOUND: &'static str = "peer_not_found";

pub const HOST_TRANSFER_UNAVAILABLE: &'static str = "host_transfer_unavailable";

} // verus!
