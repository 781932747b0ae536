//! Features that the relay announces.

use vstd::prelude::*;

verus! {

pub const ATOMIC_HOST_TRANSFER: &'static str = "atomicHostTransfer";

pub const AUTHENTICATED_RESUME: &'static str = "authenticatedResume";

} // verus!
