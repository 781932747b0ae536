use relay_rs::client_ip::IpAddress;
use relay_rs::clock::{Monotonic, Now, WallTime};
use relay_rs::http::HttpReply;
use relay_rs::logs::{
    generate_log_id, health, log_id_of, missing_reply, valid_log_id, LogReply, LogStore, Lookup, Upload,
    LOG_ID_LENGTH, MAX_LOG_ENTRIES, MAX_LOG_SIZE,
};

fn at(secs: i64) -> Now {
    Now {
        wall: WallTime { secs: 1_700_000_000 + secs, nanos: 0 },
        mono: Monotonic { secs: 5_000 + secs, nanos: 0 },
    }
}

fn client(n: u32) -> Option<IpAddress> {
    Some(IpAddress::V4(n))
}

fn text(reply: Option<HttpReply>) -> (u16, String) {
    let reply = reply.unwrap();
    (reply.status, reply.body)
}

#[test]
fn log_ids_are_drawn_from_the_alphabet() {
    assert_eq!(log_id_of(&vec![0, 25, 26, 35, 1]), "az09b");
    for _ in 0..50 {
        let id = generate_log_id();
        assert_eq!(id.len(), LOG_ID_LENGTH);
        assert!(valid_log_id(&id));
    }
    let distinct = (0..20).map(|_| generate_log_id()).collect::<std::collections::HashSet<String>>();
    assert!(distinct.len() > 1);
}

#[test]
fn log_ids_have_one_form() {
    assert!(valid_log_id("abc12"));
    assert!(!valid_log_id("abc1"));
    assert!(!valid_log_id("abc123"));
    assert!(!valid_log_id("ABC12"));
    assert!(!valid_log_id("ab-12"));
    assert!(!valid_log_id("abc1\u{e9}"));
    assert!(!valid_log_id("abc\u{e9}"));
    assert!(!valid_log_id(""));
}

#[test]
fn stored_log_can_be_read() {
    let mut store = LogStore::new();
    assert!(store.begin_upload(client(1), b"crash", at(0)).is_none());
    assert!(store.store("abc12", b"crash".to_vec(), at(0).wall));
    assert!(store.holds("abc12"));
    // An id that is taken is not given out again.
    assert!(!store.store("abc12", b"other".to_vec(), at(0).wall));
    match store.get_logs(client(2), true, "abc12") {
        LogReply::Log(data) => assert_eq!(data, b"crash"),
        LogReply::Text(_) => panic!("the log is there"),
    }
}

#[test]
fn uploads_are_refused_with_their_reason() {
    let mut store = LogStore::new();
    let refused = store.begin_upload(None, b"x", at(0));
    assert_eq!(text(refused), (400, "Invalid client address".to_string()));
    let refused = store.begin_upload(client(1), b"", at(0));
    assert_eq!(text(refused), (400, "Empty body".to_string()));
    let refused = store.begin_upload(client(1), b"x", at(59));
    assert_eq!(text(refused), (429, "Rate limited: 1 upload per minute".to_string()));
    let huge = vec![0u8; MAX_LOG_SIZE + 1];
    let refused = store.begin_upload(client(1), &huge, at(60));
    assert_eq!(text(refused), (413, "Log too large (max 1MB)".to_string()));
    assert!(store.begin_upload(client(2), &huge[1..], at(60)).is_none());
}

#[test]
fn full_store_refuses_uploads_until_logs_expire() {
    let mut store = LogStore::new();
    for n in 0..MAX_LOG_ENTRIES {
        assert!(store.store(&format!("a{n}"), vec![1], at(0).wall));
    }
    let refused = store.begin_upload(client(1), b"x", at(100));
    assert_eq!(text(refused), (503, "Log store full".to_string()));
    let three_days = 3 * 24 * 60 * 60;
    let refused = store.begin_upload(client(2), b"x", at(three_days - 1));
    assert_eq!(text(refused), (503, "Log store full".to_string()));
    assert!(store.begin_upload(client(3), b"x", at(three_days)).is_none());
    assert!(!store.holds("a0"));
}

#[test]
fn malformed_id_is_answered_like_an_unknown_one() {
    let mut store = LogStore::new();
    store.store("toolong", vec![1], at(0).wall);
    for id in ["zzzzz", "toolong", "../x"] {
        assert!(matches!(store.look_up(client(1), true, id), Lookup::Missing(_)));
        match store.get_logs(client(1), true, id) {
            LogReply::Text(reply) => {
                assert_eq!((reply.status, reply.body), (404, "Not found".to_string()));
            }
            LogReply::Log(_) => panic!("there is no such log"),
        }
    }
}

#[test]
fn lookups_are_refused_with_their_reason() {
    let mut store = LogStore::new();
    match store.look_up(None, true, "abc12") {
        Lookup::Refused(reply) => assert_eq!(reply.body, "Invalid client address"),
        _ => panic!("no address"),
    }
    match store.get_logs(client(1), false, "abc12") {
        LogReply::Text(reply) => {
            assert_eq!((reply.status, reply.body), (429, "Too many concurrent lookups".to_string()));
        }
        LogReply::Log(_) => panic!("no slot"),
    }
    let reply = missing_reply(false);
    assert_eq!((reply.status, reply.body), (429, "Too many failed lookups".to_string()));
}

#[test]
fn failed_lookups_are_limited_by_address() {
    let mut store = LogStore::new();
    let mut limited = 0;
    for _ in 0..40 {
        match store.get_logs(client(9), true, "zzzzz") {
            LogReply::Text(reply) => {
                if reply.status == 429 {
                    limited += 1;
                }
            }
            LogReply::Log(_) => panic!("there is no such log"),
        }
    }
    assert!(limited > 0 && limited <= 30);
    match store.get_logs(client(10), true, "zzzzz") {
        LogReply::Text(reply) => assert_eq!(reply.status, 404),
        LogReply::Log(_) => panic!("there is no such log"),
    }
}

#[test]
fn cleanup_forgets_old_logs_only() {
    let mut store = LogStore::new();
    let three_days = 3 * 24 * 60 * 60;
    store.store("older", vec![1], at(0).wall);
    store.store("newer", vec![2], at(1).wall);
    store.cleanup(at(three_days));
    assert!(!store.holds("older"));
    assert!(store.holds("newer"));
    assert_eq!(health(), "ok");
}

#[test]
fn upload_is_kept_under_a_fresh_id() {
    let mut store = LogStore::new();
    let id = match store.post_logs(client(1), b"crash", at(0)) {
        Upload::Stored(id) => id,
        _ => panic!("nothing is in the way"),
    };
    assert!(valid_log_id(&id));
    match store.get_logs(client(2), true, &id) {
        LogReply::Log(data) => assert_eq!(data, b"crash"),
        LogReply::Text(_) => panic!("the log is there"),
    }
    match store.post_logs(client(1), b"again", at(1)) {
        Upload::Refused(reply) => assert_eq!(reply.status, 429),
        _ => panic!("one upload per minute"),
    }
    match store.post_logs(None, b"x", at(1)) {
        Upload::Refused(reply) => assert_eq!(reply.status, 400),
        _ => panic!("the header could not be read"),
    }
}

#[test]
fn further_ids_are_drawn_beside_those_that_are_taken() {
    let mut store = LogStore::new();
    let mut kept = 0;
    while kept < 20 {
        match store.store_drawn(&[kept], at(0).wall) {
            Upload::Stored(id) => {
                assert!(store.holds(&id));
                kept += 1;
            }
            Upload::Taken => assert!(kept > 0),
            Upload::Refused(_) => panic!("drawing refuses nothing"),
        }
    }
}

#[test]
fn store_is_empty_by_default() {
    let mut store = LogStore::default();
    assert!(store.begin_upload(client(1), b"x", at(0)).is_none());
    assert!(store.begin_upload(client(1), b"x", at(1)).is_some());
}
