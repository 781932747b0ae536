//! Crash logs: a client uploads one and gets an id, under which it can be read
//! for some days.

use crate::client_ip::IpAddress;
use crate::clock::{elapsed, Now, WallTime};
use crate::http::{
    opt_reply_view, HttpReply, ReplyView, BAD_REQUEST, NOT_FOUND, PAYLOAD_TOO_LARGE,
    SERVICE_UNAVAILABLE, TOO_MANY_REQUESTS,
};
use crate::id_map::{has_key, lookup, put, unique_keys, IdMap};
use crate::quotas::{
    IpRateLimiter, LastTimestampLimiter, LastTimestampView, LimiterView, FAILED_LOG_LOOKUP_BURST,
    FAILED_LOG_LOOKUP_SUSTAINED, LOG_UPLOAD_INTERVAL,
};
use rand::Rng;
use vstd::prelude::*;
use vstd::utf8::{is_ascii_chars, is_ascii_chars_encode_utf8};

pub mod laws;
pub mod upload_laws;

verus! {

/// Largest log, in bytes.
pub const MAX_LOG_SIZE: usize = 1_048_576;

/// Most logs that are kept at once.
pub const MAX_LOG_ENTRIES: usize = 500;

pub const LOG_ID_LENGTH: usize = 5;

/// How long a log is kept, in nanoseconds.
pub const LOG_MAX_AGE: u128 = 259_200_000_000_000;

/// Most lookups at once.
pub const MAX_CONCURRENT_LOOKUPS: usize = 32;

/// The characters of log ids.
pub const ID_ALPHABET: &'static str = "abcdefghijklmnopqrstuvwxyz0123456789";

/// How many characters that are.
pub const ID_ALPHABET_SIZE: usize = 36;

/// The media type of a log.
pub const LOG_CONTENT_TYPE: &'static str = "text/plain; charset=utf-8";

/// What caches may do with a log.
pub const LOG_CACHE_CONTROL: &'static str = "private, no-store";

/// A lower-case letter or a digit.
pub open spec fn is_log_id_char(c: char) -> bool {
    'a' <= c <= 'z' || '0' <= c <= '9'
}

/// As many letters and digits as a log id has.
pub open spec fn is_log_id(text: Seq<char>) -> bool {
    &&& text.len() == LOG_ID_LENGTH
    &&& forall|i: int| 0 <= i < text.len() ==> is_log_id_char(#[trigger] text[i])
}

/// The alphabet holds letters and digits.
proof fn alphabet_is_valid()
    ensures
        ID_ALPHABET@.len() == ID_ALPHABET_SIZE,
        is_ascii_chars(ID_ALPHABET@),
        forall|i: int|
            0 <= i < ID_ALPHABET_SIZE ==> is_log_id_char(#[trigger] ID_ALPHABET@[i]),
{
    reveal_strlit("abcdefghijklmnopqrstuvwxyz0123456789");
}

/// `rand::Rng::gen_range` of the thread's generator: a number below `n`. Which
/// one is a matter of chance.
#[verifier::external_body]
fn random_below(n: usize) -> (res: usize)
    requires
        n > 0,
    ensures
        res < n,
{
    rand::thread_rng().gen_range(0..n)
}

/// The id made of the characters that were drawn.
pub fn log_id_of(draws: &Vec<usize>) -> (res: String)
    requires
        forall|i: int| 0 <= i < draws@.len() ==> #[trigger] draws@[i] < ID_ALPHABET_SIZE,
    ensures
        res@ == draws@.map_values(|d: usize| ID_ALPHABET@[d as int]),
{
    proof {
        alphabet_is_valid();
    }
    let mut id = String::new();
    let mut i: usize = 0;
    while i < draws.len()
        invariant
            i <= draws@.len(),
            forall|j: int| 0 <= j < draws@.len() ==> #[trigger] draws@[j] < ID_ALPHABET_SIZE,
            ID_ALPHABET@.len() == ID_ALPHABET_SIZE,
            is_ascii_chars(ID_ALPHABET@),
            id@ == draws@.take(i as int).map_values(|d: usize| ID_ALPHABET@[d as int]),
        decreases draws@.len() - i,
    {
        let at: usize = draws[i];
        let ghost before = id@;
        id.append(ID_ALPHABET.substring_ascii(at, at + 1));
        i = i + 1;
        assert(id@ =~= before.push(ID_ALPHABET@[at as int]));
        assert(draws@.take(i as int) =~= draws@.take(i - 1).push(at));
        assert(id@ =~= draws@.take(i as int).map_values(|d: usize| ID_ALPHABET@[d as int]));
    }
    assert(draws@.take(i as int) =~= draws@);
    id
}

/// A log id, drawn at random.
pub fn generate_log_id() -> (res: String)
    ensures
        is_log_id(res@),
{
    let mut draws: Vec<usize> = Vec::new();
    while draws.len() < LOG_ID_LENGTH
        invariant
            draws@.len() <= LOG_ID_LENGTH,
            forall|i: int| 0 <= i < draws@.len() ==> #[trigger] draws@[i] < ID_ALPHABET_SIZE,
        decreases LOG_ID_LENGTH - draws@.len(),
    {
        draws.push(random_below(ID_ALPHABET_SIZE));
    }
    proof {
        alphabet_is_valid();
    }
    log_id_of(&draws)
}

pub fn valid_log_id(id: &str) -> (res: bool)
    ensures
        res == is_log_id(id@),
{
    if !id.is_ascii() {
        assert(!is_log_id(id@)) by {
            if is_log_id(id@) {
                assert forall|i: int| 0 <= i < id@.len() implies '\0' <= #[trigger] id@[i]
                    <= '\u{7f}' by {
                    assert(is_log_id_char(id@[i]));
                }
                assert(is_ascii_chars(id@));
            }
        }
        return false;
    }
    let bytes = id.as_bytes();
    proof {
        is_ascii_chars_encode_utf8(id@);
    }
    if bytes.len() != LOG_ID_LENGTH {
        return false;
    }
    let mut i: usize = 0;
    while i < bytes.len()
        invariant
            i <= bytes@.len(),
            is_ascii_chars(id@),
            bytes@.len() == id@.len(),
            forall|j: int| 0 <= j < bytes@.len() ==> id@[j] as u8 == #[trigger] bytes@[j],
            forall|j: int| 0 <= j < i ==> is_log_id_char(#[trigger] id@[j]),
        decreases bytes@.len() - i,
    {
        let c = bytes[i] as char;
        assert(c == id@[i as int]);
        if !(('a' <= c && c <= 'z') || ('0' <= c && c <= '9')) {
            return false;
        }
        i = i + 1;
    }
    true
}

/// A log that is kept.
pub struct Entry {
    pub data: Vec<u8>,
    pub created_at: WallTime,
}

pub struct EntryView {
    pub data: Seq<u8>,
    pub created_at: WallTime,
}

impl View for Entry {
    type V = EntryView;

    open spec fn view(&self) -> EntryView {
        EntryView { data: self.data@, created_at: self.created_at }
    }
}

/// The logs that are not too old.
pub open spec fn fresh_entries(
    entries: Seq<(Seq<char>, EntryView)>,
    now: WallTime,
) -> Seq<(Seq<char>, EntryView)> {
    entries.filter(
        |e: (Seq<char>, EntryView)| elapsed(e.1.created_at.at(), now.at()) < LOG_MAX_AGE,
    )
}

#[verifier::ext_equal]
pub struct LogStoreView {
    pub entries: Seq<(Seq<char>, EntryView)>,
    pub uploads: LastTimestampView,
    /// The failed lookups.
    pub failures: LimiterView,
}

/// What becomes of an upload: the answer that refuses it, or `None` if it is to
/// be stored.
#[verifier::ext_equal]
pub struct Verdict {
    pub store: LogStoreView,
    pub reply: Option<ReplyView>,
}

impl LogStoreView {
    /// Nothing is kept, and nobody has done anything yet.
    pub open spec fn empty() -> LogStoreView {
        LogStoreView {
            entries: Seq::empty(),
            uploads: LastTimestampView { interval: LOG_UPLOAD_INTERVAL, last: Seq::empty() },
            failures: LimiterView::fresh(FAILED_LOG_LOOKUP_BURST, FAILED_LOG_LOOKUP_SUSTAINED),
        }
    }

    /// One failed lookup more of `ip` was let through.
    pub open spec fn failed(self, ip: IpAddress) -> LogStoreView {
        LogStoreView { failures: self.failures.counted(ip), ..self }
    }

    /// An upload of `len` bytes comes from `client`.
    pub open spec fn judged(self, client: Option<IpAddress>, len: nat, now: Now) -> Verdict {
        let refused = |store: LogStoreView, status: u16, body: Seq<char>|
            Verdict { store, reply: Some(ReplyView { status, body }) };
        match client {
            None => refused(self, BAD_REQUEST, "Invalid client address"@),
            Some(ip) => if !self.uploads.allows(ip, now.mono) {
                refused(self, TOO_MANY_REQUESTS, "Rate limited: 1 upload per minute"@)
            } else {
                let counted = LogStoreView { uploads: self.uploads.acted(ip, now.mono), ..self };
                let fresh = LogStoreView {
                    entries: fresh_entries(self.entries, now.wall),
                    ..counted
                };
                if len == 0 {
                    refused(counted, BAD_REQUEST, "Empty body"@)
                } else if len > MAX_LOG_SIZE {
                    refused(counted, PAYLOAD_TOO_LARGE, "Log too large (max 1MB)"@)
                } else if fresh.entries.len() >= MAX_LOG_ENTRIES {
                    refused(fresh, SERVICE_UNAVAILABLE, "Log store full"@)
                } else {
                    Verdict { store: fresh, reply: None }
                }
            },
        }
    }

    /// A log is stored under `id`, if that is free.
    pub open spec fn stored(self, id: Seq<char>, data: Seq<u8>, now: WallTime) -> LogStoreView {
        if has_key(self.entries, id) {
            self
        } else {
            LogStoreView {
                entries: put(self.entries, id, EntryView { data, created_at: now }),
                ..self
            }
        }
    }

    /// There is a log id under which a log is kept.
    pub open spec fn some_id_is_taken(self) -> bool {
        exists|id: Seq<char>| is_log_id(id) && #[trigger] has_key(self.entries, id)
    }

    /// The log under `id`. There is none under a text that is no log id.
    pub open spec fn found(self, id: Seq<char>) -> Option<Seq<u8>> {
        if is_log_id(id) {
            match lookup(self.entries, id) {
                Some(entry) => Some(entry.data),
                None => None,
            }
        } else {
            None
        }
    }

    /// What is too old is forgotten.
    pub open spec fn cleaned(self, now: Now) -> LogStoreView {
        LogStoreView {
            entries: fresh_entries(self.entries, now.wall),
            uploads: self.uploads.cleaned(now.mono),
            ..self
        }
    }
}

pub struct LogStore {
    entries: IdMap<Entry>,
    upload_limiter: LastTimestampLimiter,
    failed_lookup_limiter: IpRateLimiter,
}

impl View for LogStore {
    type V = LogStoreView;

    closed spec fn view(&self) -> LogStoreView {
        LogStoreView {
            entries: self.entries@,
            uploads: self.upload_limiter@,
            failures: self.failed_lookup_limiter@,
        }
    }
}

/// What became of an upload.
pub enum Upload {
    Refused(HttpReply),
    /// The log is kept under this id.
    Stored(String),
    /// The id that was drawn is taken; nothing is stored yet.
    Taken,
}

/// The outcome of a lookup before failed ones are counted.
pub enum Lookup {
    Refused(HttpReply),
    /// There is no such log; the failure counts for the address.
    Missing(IpAddress),
    Found(Vec<u8>),
}

/// The answer to a lookup.
pub enum LogReply {
    Text(HttpReply),
    Log(Vec<u8>),
}

/// The answer where there is no such log. `allowed` says whether the address
/// may fail once more.
pub open spec fn missing_reply_for(allowed: bool) -> ReplyView {
    if allowed {
        ReplyView { status: NOT_FOUND, body: "Not found"@ }
    } else {
        ReplyView { status: TOO_MANY_REQUESTS, body: "Too many failed lookups"@ }
    }
}

pub fn missing_reply(allowed: bool) -> (res: HttpReply)
    ensures
        res@ == missing_reply_for(allowed),
{
    if allowed {
        HttpReply::new(NOT_FOUND, "Not found")
    } else {
        HttpReply::new(TOO_MANY_REQUESTS, "Too many failed lookups")
    }
}

impl LogStore {
    pub fn new() -> (res: Self)
        ensures
            res@ == LogStoreView::empty(),
    {
        LogStore {
            entries: IdMap::new(),
            upload_limiter: LastTimestampLimiter::new(LOG_UPLOAD_INTERVAL),
            failed_lookup_limiter: IpRateLimiter::new(
                FAILED_LOG_LOOKUP_BURST,
                FAILED_LOG_LOOKUP_SUSTAINED,
            ),
        }
    }

    /// Forgets the logs that are too old.
    fn forget_old(&mut self, now: WallTime)
        ensures
            final(self)@ == (LogStoreView {
                entries: fresh_entries(old(self)@.entries, now),
                ..old(self)@
            }),
            unique_keys(old(self)@.entries),
    {
        let keep = |_id: &String, e: &Entry| -> (b: bool)
            ensures
                b == (elapsed(e@.created_at.at(), now.at()) < LOG_MAX_AGE),
            { now.since(e.created_at) < LOG_MAX_AGE };
        let ghost keeps = |e: (Seq<char>, EntryView)|
            elapsed(e.1.created_at.at(), now.at()) < LOG_MAX_AGE;
        self.entries.retain(keep, Ghost(keeps));
    }

    /// Forgets what is too old: logs, and uploads that no longer keep an address
    /// waiting.
    pub fn cleanup(&mut self, now: Now)
        ensures
            final(self)@ == old(self)@.cleaned(now),
    {
        self.forget_old(now.wall);
        self.upload_limiter.cleanup(now.mono);
    }

    /// Decides on an upload; `client` is the address that it counts for, if its
    /// header was read. Returns the answer that refuses it, or `None` if it is
    /// to be stored under a free id.
    pub fn begin_upload(&mut self, client: Option<IpAddress>, body: &[u8], now: Now) -> (res:
        Option<HttpReply>)
        ensures
            (Verdict { store: final(self)@, reply: opt_reply_view(res) }) == old(self)@.judged(
                client,
                body@.len(),
                now,
            ),
    {
        let ip = match client {
            Some(ip) => ip,
            None => {
                return Some(HttpReply::new(BAD_REQUEST, "Invalid client address"));
            },
        };
        if !self.upload_limiter.allow(ip, now.mono) {
            return Some(HttpReply::new(TOO_MANY_REQUESTS, "Rate limited: 1 upload per minute"));
        }
        if body.len() == 0 {
            return Some(HttpReply::new(BAD_REQUEST, "Empty body"));
        }
        if body.len() > MAX_LOG_SIZE {
            return Some(HttpReply::new(PAYLOAD_TOO_LARGE, "Log too large (max 1MB)"));
        }
        self.forget_old(now.wall);
        if self.entries.len() >= MAX_LOG_ENTRIES {
            return Some(HttpReply::new(SERVICE_UNAVAILABLE, "Log store full"));
        }
        None
    }

    /// Stores a log under `id`, if that is free. Returns whether it was.
    pub fn store(&mut self, id: &str, data: Vec<u8>, now: WallTime) -> (res: bool)
        ensures
            res == !has_key(old(self)@.entries, id@),
            final(self)@ == old(self)@.stored(id@, data@, now),
    {
        if self.entries.contains_key(id) {
            return false;
        }
        self.entries.insert(id.to_string(), Entry { data, created_at: now });
        true
    }

    /// Stores a log under an id that is drawn at random, if that is free.
    pub fn store_drawn(&mut self, data: &[u8], now: WallTime) -> (res: Upload)
        ensures
            match res {
                Upload::Stored(id) => {
                    &&& is_log_id(id@)
                    &&& !has_key(old(self)@.entries, id@)
                    &&& final(self)@ == old(self)@.stored(id@, data@, now)
                },
                Upload::Taken => old(self)@.some_id_is_taken() && final(self)@ == old(self)@,
                Upload::Refused(_) => false,
            },
    {
        let id = generate_log_id();
        if self.store(id.as_str(), vstd::slice::slice_to_vec(data), now) {
            Upload::Stored(id)
        } else {
            Upload::Taken
        }
    }

    /// Takes an upload in; `client` is the address that it counts for, if its
    /// header was read. Where the id that was drawn is taken, the caller goes on
    /// with [`LogStore::store_drawn`].
    pub fn post_logs(&mut self, client: Option<IpAddress>, body: &[u8], now: Now) -> (res: Upload)
        ensures
            ({
                let verdict = old(self)@.judged(client, body@.len(), now);
                match res {
                    Upload::Refused(reply) => {
                        &&& verdict.reply == Some(reply@)
                        &&& final(self)@ == verdict.store
                    },
                    Upload::Stored(id) => {
                        &&& verdict.reply is None
                        &&& is_log_id(id@)
                        &&& !has_key(verdict.store.entries, id@)
                        &&& final(self)@ == verdict.store.stored(id@, body@, now.wall)
                    },
                    Upload::Taken => {
                        &&& verdict.reply is None
                        &&& verdict.store.some_id_is_taken()
                        &&& final(self)@ == verdict.store
                    },
                }
            }),
    {
        match self.begin_upload(client, body, now) {
            Some(reply) => Upload::Refused(reply),
            None => self.store_drawn(body, now.wall),
        }
    }

    /// Whether a log is kept under `id`.
    pub fn holds(&self, id: &str) -> (res: bool)
        ensures
            res == has_key(self@.entries, id@),
    {
        self.entries.contains_key(id)
    }

    /// Looks a log up; `slot` says whether there was room for one lookup more.
    /// A text that is no log id is looked up in vain like any other.
    pub fn look_up(&self, client: Option<IpAddress>, slot: bool, id: &str) -> (res: Lookup)
        ensures
            match client {
                None => res matches Lookup::Refused(reply) && reply@ == (ReplyView {
                    status: BAD_REQUEST,
                    body: "Invalid client address"@,
                }),
                Some(ip) => if !slot {
                    res matches Lookup::Refused(reply) && reply@ == (ReplyView {
                        status: TOO_MANY_REQUESTS,
                        body: "Too many concurrent lookups"@,
                    })
                } else {
                    match self@.found(id@) {
                        Some(data) => res matches Lookup::Found(found) && found@ == data,
                        None => res == Lookup::Missing(ip),
                    }
                },
            },
    {
        let ip = match client {
            Some(ip) => ip,
            None => {
                return Lookup::Refused(HttpReply::new(BAD_REQUEST, "Invalid client address"));
            },
        };
        if !slot {
            return Lookup::Refused(
                HttpReply::new(TOO_MANY_REQUESTS, "Too many concurrent lookups"),
            );
        }
        if !valid_log_id(id) {
            return Lookup::Missing(ip);
        }
        match self.entries.get(id) {
            Some(entry) => {
                let data = vstd::slice::slice_to_vec(entry.data.as_slice());
                Lookup::Found(data)
            },
            None => Lookup::Missing(ip),
        }
    }

    /// Answers a lookup. Failed ones are limited by address: whether one more is
    /// let through rests on the clock that the limiter reads, but for the first
    /// one of an address, which is.
    pub fn get_logs(&mut self, client: Option<IpAddress>, slot: bool, id: &str) -> (res: LogReply)
        ensures
            match client {
                None => {
                    &&& res matches LogReply::Text(reply)
                    &&& reply@ == (ReplyView {
                        status: BAD_REQUEST,
                        body: "Invalid client address"@,
                    })
                    &&& final(self)@ == old(self)@
                },
                Some(ip) => if !slot {
                    &&& res matches LogReply::Text(reply)
                    &&& reply@ == (ReplyView {
                        status: TOO_MANY_REQUESTS,
                        body: "Too many concurrent lookups"@,
                    })
                    &&& final(self)@ == old(self)@
                } else {
                    match old(self)@.found(id@) {
                        Some(data) => {
                            &&& res matches LogReply::Log(log)
                            &&& log@ == data
                            &&& final(self)@ == old(self)@
                        },
                        None => {
                            &&& res matches LogReply::Text(reply)
                            &&& {
                                ||| {
                                    &&& reply@ == missing_reply_for(true)
                                    &&& final(self)@ == old(self)@.failed(ip)
                                }
                                ||| {
                                    &&& reply@ == missing_reply_for(false)
                                    &&& !old(self)@.failures.is_new_to(ip)
                                    &&& final(self)@ == old(self)@
                                }
                            }
                        },
                    }
                },
            },
    {
        match self.look_up(client, slot, id) {
            Lookup::Refused(reply) => LogReply::Text(reply),
            Lookup::Missing(ip) => LogReply::Text(
                missing_reply(self.failed_lookup_limiter.allow(ip)),
            ),
            Lookup::Found(data) => LogReply::Log(data),
        }
    }
}

impl Default for LogStore {
    fn default() -> (res: Self)
        ensures
            res@ == LogStoreView::empty(),
    {
        LogStore::new()
    }
}

/// The answer to a health check.
pub fn health() -> (res: &'static str)
    ensures
        res@ == "ok"@,
{
    "ok"
}

} // verus!
