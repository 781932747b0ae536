//! Capabilities that a client may declare.

use vstd::prelude::*;

verus! {

pub const HOST_TRANSFER: &'static str = "hostTransfer";

} // verus!
