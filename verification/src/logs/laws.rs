//! What holds of the logs that are kept.

use crate::client_ip::IpAddress;
use crate::clock::{elapsed, Now, WallTime};
use crate::id_map::{filter_then_lookup, has_key, lookup, put_then_lookup, unique_keys};
use crate::logs::{
    fresh_entries, is_log_id, EntryView, LogStoreView, LOG_MAX_AGE, MAX_LOG_ENTRIES,
};
use vstd::prelude::*;

verus! {

/// A log that was stored is read back under its id, and every other one still is
/// under its own.
pub proof fn stored_log_is_read_back(
    store: LogStoreView,
    id: Seq<char>,
    other: Seq<char>,
    data: Seq<u8>,
    now: WallTime,
)
    requires
        unique_keys(store.entries),
        !has_key(store.entries, id),
        is_log_id(id),
    ensures
        store.stored(id, data, now).found(id) == Some(data),
        other != id ==> store.stored(id, data, now).found(other) == store.found(other),
{
    put_then_lookup(store.entries, id, EntryView { data, created_at: now });
}

/// A log is kept until it is too old, and not longer: a cleanup forgets exactly
/// those that are.
pub proof fn log_is_kept_until_too_old(store: LogStoreView, id: Seq<char>, now: Now)
    requires
        unique_keys(store.entries),
        store.found(id) is Some,
    ensures
        store.cleaned(now).found(id) == if elapsed(
            lookup(store.entries, id)->0.created_at.at(),
            now.wall.at(),
        ) < LOG_MAX_AGE {
            store.found(id)
        } else {
            None
        },
{
    let fresh = |e: (Seq<char>, EntryView)|
        elapsed(e.1.created_at.at(), now.wall.at()) < LOG_MAX_AGE;
    filter_then_lookup(store.entries, fresh);
    assert(fresh_entries(store.entries, now.wall) == store.entries.filter(fresh));
}

/// There are never more logs than there may be: an upload is let through only
/// while there is place for it.
pub proof fn store_is_never_overfull(
    store: LogStoreView,
    client: Option<IpAddress>,
    len: nat,
    id: Seq<char>,
    data: Seq<u8>,
    now: Now,
)
    requires
        store.entries.len() <= MAX_LOG_ENTRIES,
        unique_keys(store.entries),
    ensures
        ({
            let verdict = store.judged(client, len, now);
            &&& verdict.store.entries.len() <= MAX_LOG_ENTRIES
            &&& verdict.reply is None ==> verdict.store.stored(
                id,
                data,
                now.wall,
            ).entries.len() <= MAX_LOG_ENTRIES
        }),
{
    let fresh = |e: (Seq<char>, EntryView)|
        elapsed(e.1.created_at.at(), now.wall.at()) < LOG_MAX_AGE;
    filter_then_lookup(store.entries, fresh);
    assert(fresh_entries(store.entries, now.wall) == store.entries.filter(fresh));
    put_then_lookup(
        store.entries.filter(fresh),
        id,
        EntryView { data, created_at: now.wall },
    );
}

} // verus!
