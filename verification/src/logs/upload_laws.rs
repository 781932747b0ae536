//! What becomes of an upload and of a lookup, from the limits in plain numbers.

use crate::client_ip::IpAddress;
use crate::clock::{elapsed, Monotonic, Now, WallTime};
use crate::http::ReplyView;
use crate::id_map::{filter_then_lookup, has_key, lookup, put_then_lookup, unique_keys};
use crate::logs::{
    fresh_entries, is_log_id, is_log_id_char, missing_reply_for, EntryView, LogStoreView,
    LOG_MAX_AGE,
};
use crate::room::news_laws::same_filter;
use vstd::prelude::*;

verus! {

/// A log is still kept: it came in less than three days ago.
pub open spec fn is_young(entry: EntryView, now: WallTime) -> bool {
    now.at() - entry.created_at.at() < 259_200_000_000_000
}

/// The logs are those of before that are young.
pub open spec fn keeps_the_young(after: LogStoreView, before: LogStoreView, now: WallTime) -> bool {
    forall|id: Seq<char>| #[trigger]
        lookup(after.entries, id) == match lookup(before.entries, id) {
            Some(entry) => if is_young(entry, now) {
                Some(entry)
            } else {
                None
            },
            None => None,
        }
}

/// The young logs are kept.
proof fn young_entries_are_kept(store: LogStoreView, now: WallTime)
    requires
        unique_keys(store.entries),
    ensures
        ({
            let fresh = fresh_entries(store.entries, now);
            &&& fresh.len() == store.entries.filter(
                |e: (Seq<char>, EntryView)| is_young(e.1, now),
            ).len()
            &&& forall|id: Seq<char>| #[trigger]
                lookup(fresh, id) == match lookup(store.entries, id) {
                    Some(entry) => if is_young(entry, now) {
                        Some(entry)
                    } else {
                        None
                    },
                    None => None,
                }
        }),
{
    let young = |e: (Seq<char>, EntryView)| is_young(e.1, now);
    let fresh = |e: (Seq<char>, EntryView)|
        elapsed(e.1.created_at.at(), now.at()) < LOG_MAX_AGE;
    same_filter(store.entries, young, fresh);
    filter_then_lookup(store.entries, young);
    assert(fresh_entries(store.entries, now) == store.entries.filter(fresh));
}

/// The address uploaded something less than a minute ago.
pub open spec fn has_to_wait(store: LogStoreView, ip: IpAddress, now: Now) -> bool {
    match lookup(store.uploads.last, ip) {
        Some(last) => now.mono.at() - last.at() < 60_000_000_000,
        None => false,
    }
}

/// What becomes of an upload, in every case. An upload that is not refused for
/// its address counts for it, whether or not it is stored; and only where it
/// might be stored are the old logs forgotten.
pub proof fn what_becomes_of_an_upload(
    store: LogStoreView,
    client: Option<IpAddress>,
    len: nat,
    now: Now,
)
    requires
        unique_keys(store.entries),
        unique_keys(store.uploads.last),
        store.uploads.interval == 60_000_000_000,
    ensures
        ({
            let verdict = store.judged(client, len, now);
            let after = verdict.store;
            &&& after.failures == store.failures
            &&& after.uploads.interval == store.uploads.interval
            &&& match client {
                None => {
                    &&& verdict.reply == Some(
                        ReplyView { status: 400, body: "Invalid client address"@ },
                    )
                    &&& after == store
                },
                Some(ip) => if has_to_wait(store, ip, now) {
                    &&& verdict.reply == Some(
                        ReplyView { status: 429, body: "Rate limited: 1 upload per minute"@ },
                    )
                    &&& after == store
                } else {
                    &&& lookup(after.uploads.last, ip) == Some(now.mono)
                    &&& forall|other: IpAddress|
                        other != ip ==> #[trigger] lookup(after.uploads.last, other) == lookup(
                            store.uploads.last,
                            other,
                        )
                    &&& if len == 0 {
                        &&& verdict.reply == Some(
                            ReplyView { status: 400, body: "Empty body"@ },
                        )
                        &&& after.entries == store.entries
                    } else if len > 1_048_576 {
                        &&& verdict.reply == Some(
                            ReplyView { status: 413, body: "Log too large (max 1MB)"@ },
                        )
                        &&& after.entries == store.entries
                    } else {
                        &&& keeps_the_young(after, store, now.wall)
                        &&& verdict.reply == if store.entries.filter(
                            |e: (Seq<char>, EntryView)| is_young(e.1, now.wall),
                        ).len() >= 500 {
                            Some(ReplyView { status: 503, body: "Log store full"@ })
                        } else {
                            None
                        }
                    }
                },
            }
        }),
{
    young_entries_are_kept(store, now.wall);
    if let Some(ip) = client {
        put_then_lookup(store.uploads.last, ip, now.mono);
    }
}

/// A log is found under its id, and under nothing that is no id: five lower-case
/// letters or digits.
pub proof fn what_is_found(store: LogStoreView, id: Seq<char>)
    ensures
        store.found(id) == if id.len() == 5 && (forall|i: int|
            0 <= i < 5 ==> 'a' <= #[trigger] id[i] <= 'z' || '0' <= id[i] <= '9') {
            match lookup(store.entries, id) {
                Some(entry) => Some(entry.data),
                None => None,
            }
        } else {
            None
        },
        missing_reply_for(true) == (ReplyView { status: 404, body: "Not found"@ }),
        missing_reply_for(false) == (ReplyView {
            status: 429,
            body: "Too many failed lookups"@,
        }),
{
    if is_log_id(id) {
        assert forall|i: int| 0 <= i < 5 implies 'a' <= #[trigger] id[i] <= 'z' || '0' <= id[i]
            <= '9' by {
            assert(is_log_id_char(id[i]));
        }
    }
}

/// An id that is drawn can be taken only where some log can be found.
pub proof fn taken_ids_are_found(store: LogStoreView)
    ensures
        store.some_id_is_taken() <==> exists|id: Seq<char>| #[trigger] store.found(id) is Some,
{
    if store.some_id_is_taken() {
        let id = choose|id: Seq<char>| is_log_id(id) && #[trigger] has_key(store.entries, id);
        assert(store.found(id) is Some);
    }
    if exists|id: Seq<char>| #[trigger] store.found(id) is Some {
        let id = choose|id: Seq<char>| #[trigger] store.found(id) is Some;
        assert(has_key(store.entries, id));
    }
}

/// Storing a log puts it, with its time, under an id that is free, and changes
/// nothing else; under an id that is taken nothing is stored.
pub proof fn log_is_put_under_a_free_id(
    store: LogStoreView,
    id: Seq<char>,
    data: Seq<u8>,
    now: WallTime,
)
    requires
        unique_keys(store.entries),
    ensures
        ({
            let after = store.stored(id, data, now);
            &&& lookup(store.entries, id) is Some ==> after == store
            &&& lookup(store.entries, id) is None ==> {
                &&& lookup(after.entries, id) == Some(EntryView { data, created_at: now })
                &&& after.entries.len() == store.entries.len() + 1
            }
            &&& forall|other: Seq<char>|
                other != id ==> #[trigger] lookup(after.entries, other) == lookup(
                    store.entries,
                    other,
                )
            &&& after.uploads == store.uploads
            &&& after.failures == store.failures
        }),
{
    put_then_lookup(store.entries, id, EntryView { data, created_at: now });
    assert(lookup(store.entries, id) is Some <==> has_key(store.entries, id));
}

/// A cleanup keeps the young logs and those uploads that still keep their
/// address waiting; failed lookups are counted as before.
pub proof fn cleanup_keeps_the_young(store: LogStoreView, now: Now)
    requires
        unique_keys(store.entries),
        unique_keys(store.uploads.last),
        store.uploads.interval == 60_000_000_000,
    ensures
        ({
            let after = store.cleaned(now);
            &&& keeps_the_young(after, store, now.wall)
            &&& after.uploads.interval == store.uploads.interval
            &&& after.failures == store.failures
            &&& forall|ip: IpAddress| #[trigger]
                lookup(after.uploads.last, ip) == if has_to_wait(store, ip, now) {
                    lookup(store.uploads.last, ip)
                } else {
                    None
                }
        }),
{
    young_entries_are_kept(store, now.wall);
    let waits = |e: (IpAddress, Monotonic)|
        elapsed(e.1.at(), now.mono.at()) < store.uploads.interval;
    filter_then_lookup(store.uploads.last, waits);
    assert(store.cleaned(now).uploads.last == store.uploads.last.filter(waits));
}

/// A new store is empty. An address waits a minute between uploads, and may fail
/// ten lookups at once and one each second.
pub proof fn new_store_is_empty()
    ensures
        LogStoreView::empty().entries.len() == 0,
        LogStoreView::empty().uploads.last.len() == 0,
        LogStoreView::empty().uploads.interval == 60_000_000_000,
        LogStoreView::empty().failures.quota == (10u32, 1u32),
        forall|ip: IpAddress| #[trigger] LogStoreView::empty().failures.granted.count(ip) == 0,
{
}

/// A failed lookup that is let through counts once for its address, and changes
/// nothing else.
pub proof fn failed_lookup_counts_once(store: LogStoreView, ip: IpAddress)
    ensures
        ({
            let after = store.failed(ip);
            &&& after.entries == store.entries
            &&& after.uploads == store.uploads
            &&& after.failures.quota == store.failures.quota
            &&& forall|other: IpAddress| #[trigger]
                after.failures.granted.count(other) == if other == ip {
                    store.failures.granted.count(other) + 1
                } else {
                    store.failures.granted.count(other)
                }
        }),
{
}

} // verus!
