//! The regular sweep: expired reservations, abandoned and overaged rooms, old
//! logs.

use crate::clock::Now;
use crate::logs::LogStore;
use crate::registry::model::{changed_rooms, due_rooms, tokens_of_all};
use crate::registry::{Registry, Sweep};
use crate::room::evictions;
use vstd::prelude::*;

verus! {

/// How often the sweep runs, in seconds.
pub const CLEANUP_INTERVAL_SECS: u64 = 300;

/// Sweeps the rooms and the logs.
pub fn sweep(registry: &mut Registry, logs: &mut LogStore, now: Now) -> (res: Sweep)
    ensures
        final(registry)@ == old(registry)@.swept(now),
        final(logs)@ == old(logs)@.cleaned(now),
        evictions(res.evict@) == tokens_of_all(due_rooms(old(registry)@.rooms, now.wall)),
        res.changed == changed_rooms(old(registry)@.rooms, now).len(),
{
    let res = registry.sweep(now);
    logs.cleanup(now);
    res
}

} // verus!
