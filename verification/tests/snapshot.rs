use base64::engine::general_purpose::URL_SAFE_NO_PAD;
use base64::Engine;
use relay_rs::clock::{Monotonic, Now, WallTime};
use relay_rs::error::SnapshotError;
use relay_rs::id_map::IdMap;
use relay_rs::ids::Verifier;
use relay_rs::room::PeerReservation;
use relay_rs::snapshot::{
    build_room_dto, flush_result, from_millis, load_snapshot, resolve_waiters, terminal_result,
    to_millis, Answer, Command, ReservationDto, RoomDto, Snapshotter, StateSnapshotDto, Step,
    SNAPSHOT_FORMAT_VERSION,
};
use tokio::sync::oneshot;

const NOW: Now = Now {
    wall: WallTime { secs: 1_700_000_000, nanos: 250_000_000 },
    mono: Monotonic { secs: 5_000, nanos: 0 },
};

const NOW_MILLIS: u64 = 1_700_000_000_250;

fn verifier_of(byte: u8) -> Verifier {
    Verifier::from_token(&URL_SAFE_NO_PAD.encode([byte; 32])).unwrap()
}

fn reservation(byte: u8, absent_since_millis: Option<u64>) -> ReservationDto {
    ReservationDto { verifier: verifier_of(byte).encode(), absent_since_millis }
}

fn room(session: &str) -> RoomDto {
    let mut reservations = IdMap::new();
    reservations.insert("g1".to_string(), reservation(2, Some(NOW_MILLIS - 60_000)));
    RoomDto {
        session_id: session.to_string(),
        host_peer_id: "host".to_string(),
        host_verifier: verifier_of(1).encode(),
        protocol_version: 2,
        reservations,
        created_at_millis: NOW_MILLIS - 3_600_000,
        last_activity_at_millis: NOW_MILLIS - 60_000,
    }
}

fn load(rooms: Vec<RoomDto>) -> Vec<String> {
    load_snapshot(Some(StateSnapshotDto::new(rooms)), NOW)
        .into_iter()
        .map(|r| r.session_id)
        .collect()
}

#[test]
fn sound_room_is_restored() {
    let restored = load_snapshot(Some(StateSnapshotDto::new(vec![room("s")])), NOW);
    assert_eq!(restored.len(), 1);
    let r = &restored[0];
    assert_eq!(r.host_peer_id, "host");
    assert!(r.host_verifier.matches(&verifier_of(1)));
    assert_eq!(to_millis(r.created_at), NOW_MILLIS - 3_600_000);
    assert_eq!(r.last_activity_at, from_millis(NOW_MILLIS - 60_000));
    let g1 = r.reservations.get("g1").unwrap();
    assert!(g1.verifier.matches(&verifier_of(2)));
    assert_eq!(g1.absent_since, Some(Monotonic { secs: 4_940, nanos: 0 }));
}

#[test]
fn nothing_is_restored_from_no_snapshot_or_another_version() {
    assert!(load_snapshot(None, NOW).is_empty());
    let newer = StateSnapshotDto { version: SNAPSHOT_FORMAT_VERSION + 1, rooms: vec![room("s")] };
    assert!(load_snapshot(Some(newer), NOW).is_empty());
}

#[test]
fn malformed_rooms_are_dropped() {
    let mut bad_session = room("s");
    bad_session.session_id = "not an id".to_string();
    let mut long_session = room("s");
    long_session.session_id = "x".repeat(65);
    let mut bad_host = room("s");
    bad_host.host_peer_id = String::new();
    let mut bad_verifier = room("s");
    bad_verifier.host_verifier = "AAAA".to_string();
    let mut old_protocol = room("s");
    old_protocol.protocol_version = 1;
    let bad = vec![bad_session, long_session, bad_host, bad_verifier, old_protocol];
    assert!(load(bad).is_empty());
}

#[test]
fn overaged_rooms_are_dropped() {
    let day = 86_400_000;
    let mut limit = room("limit");
    limit.created_at_millis = NOW_MILLIS - day;
    limit.last_activity_at_millis = NOW_MILLIS - 300_000;
    let mut old = room("old");
    old.created_at_millis = NOW_MILLIS - day - 1;
    let mut idle = room("idle");
    idle.last_activity_at_millis = NOW_MILLIS - 300_001;
    let mut future = room("future");
    future.created_at_millis = NOW_MILLIS + 5_000;
    future.last_activity_at_millis = NOW_MILLIS + 5_000;
    assert_eq!(load(vec![limit, old, idle, future]), ["limit", "future"]);
}

#[test]
fn room_with_a_malformed_identity_is_dropped() {
    let mut bad_id = room("a");
    bad_id.reservations.insert("no id".to_string(), reservation(3, None));
    let mut bad_verifier = room("b");
    bad_verifier.reservations.insert(
        "g2".to_string(),
        ReservationDto { verifier: "?".to_string(), absent_since_millis: None },
    );
    let mut host_as_guest = room("c");
    host_as_guest.reservations.insert("host".to_string(), reservation(1, None));
    assert!(load(vec![bad_id, bad_verifier, host_as_guest]).is_empty());
}

#[test]
fn first_room_of_a_session_counts() {
    let mut second = room("s");
    second.host_peer_id = "other".to_string();
    let restored = load_snapshot(Some(StateSnapshotDto::new(vec![room("s"), second])), NOW);
    assert_eq!(restored.len(), 1);
    assert_eq!(restored[0].host_peer_id, "host");
    // One whose identities are malformed still takes the session's place.
    let mut bad = room("s");
    bad.reservations.insert("no id".to_string(), reservation(3, None));
    assert!(load(vec![bad, room("s")]).is_empty());
    // One that does not count does not.
    let mut old = room("s");
    old.created_at_millis = 0;
    assert_eq!(load(vec![old, room("s")]), ["s"]);
}

#[test]
fn identity_being_released_is_not_saved() {
    let mut reservations = IdMap::new();
    let held = PeerReservation {
        verifier: verifier_of(2),
        absent_since: Some(Monotonic { secs: 4_990, nanos: 500_000 }),
        release_pending: false,
    };
    reservations.insert("g1".to_string(), held);
    let leaving = PeerReservation {
        verifier: verifier_of(3),
        absent_since: None,
        release_pending: true,
    };
    reservations.insert("g2".to_string(), leaving);
    let connected = PeerReservation {
        verifier: verifier_of(4),
        absent_since: None,
        release_pending: false,
    };
    reservations.insert("g3".to_string(), connected);
    let v = verifier_of(1);
    let dto = build_room_dto("s", "host", &v, &reservations, NOW.wall, NOW.wall, NOW);
    assert_eq!(dto.protocol_version, 2);
    assert_eq!(dto.created_at_millis, NOW_MILLIS);
    assert_eq!(dto.host_verifier, v.encode());
    assert_eq!(dto.reservations.len(), 2);
    let g1 = dto.reservations.get("g1").unwrap();
    assert_eq!(g1.absent_since_millis, Some(NOW_MILLIS - 10_000));
    assert!(Verifier::from_encoded(&g1.verifier).unwrap().matches(&verifier_of(2)));
    assert_eq!(dto.reservations.get("g3").unwrap().absent_since_millis, None);
    assert!(!dto.reservations.contains_key("g2"));
}

#[test]
fn times_are_saved_to_the_millisecond() {
    assert_eq!(to_millis(WallTime { secs: 12, nanos: 345_999_999 }), 12_345);
    assert_eq!(from_millis(12_345), WallTime { secs: 12, nanos: 345_000_000 });
    assert_eq!(to_millis(WallTime { secs: -1, nanos: 0 }), 0);
    assert_eq!(to_millis(from_millis(u64::MAX)), u64::MAX);
}

type Waiting = oneshot::Receiver<Result<(), SnapshotError>>;

fn waiter() -> (oneshot::Sender<Result<(), SnapshotError>>, Waiting) {
    oneshot::channel()
}

#[test]
fn change_that_nobody_waits_for_is_saved_later() {
    let mut writer = Snapshotter::new();
    assert!(!writer.debounce_pending());
    assert!(matches!(writer.on_command(Command::Mutate), Step::Wait));
    assert!(writer.debounce_pending());
    assert!(writer.on_persisted(&Err(SnapshotError("disk full".to_string()))).is_empty());
    assert!(writer.debounce_pending());
    assert!(writer.on_persisted(&Ok(())).is_empty());
    assert!(!writer.debounce_pending());
}

#[test]
fn change_that_somebody_waits_for_is_saved_at_once() {
    let mut writer = Snapshotter::new();
    let (tx, mut rx) = waiter();
    assert!(matches!(writer.on_command(Command::Terminal(tx)), Step::Persist));
    assert!(rx.try_recv().is_err());
    for notice in writer.on_persisted(&Ok(())) {
        assert!(notice.to.send(notice.result).is_ok());
    }
    assert!(rx.try_recv().unwrap().is_ok());
    assert!(writer.waiters.is_empty());
}

#[test]
fn failed_write_is_reported_to_everyone_who_waits() {
    let mut writer = Snapshotter::new();
    let (tx1, mut rx1) = waiter();
    let (tx2, mut rx2) = waiter();
    writer.on_command(Command::Terminal(tx1));
    writer.on_command(Command::Terminal(tx2));
    let notices = writer.on_persisted(&Err(SnapshotError("disk full".to_string())));
    assert_eq!(notices.len(), 2);
    for notice in notices {
        assert!(notice.to.send(notice.result).is_ok());
    }
    let failure = rx1.try_recv().unwrap().unwrap_err();
    assert_eq!(failure.description(), "snapshot persistence failed: disk full");
    assert!(rx2.try_recv().unwrap().is_err());
    assert!(writer.debounce_pending());
}

#[test]
fn only_changes_that_are_saved_are_resolved() {
    let (tx1, _rx1) = waiter();
    let (tx2, _rx2) = waiter();
    let mut waiters = vec![(4, tx1), (6, tx2)];
    let notices = resolve_waiters(&mut waiters, 5, &Ok(()));
    assert_eq!(notices.len(), 1);
    assert!(notices[0].result.is_ok());
    assert_eq!(waiters.len(), 1);
    assert_eq!(waiters[0].0, 6);
}

#[test]
fn writer_saves_before_it_stops_if_there_is_anything_to_save() {
    let mut writer = Snapshotter::new();
    let (tx, mut rx) = waiter();
    match writer.on_command(Command::FlushAndStop(tx)) {
        Step::Stop(notices) => {
            assert_eq!(notices.len(), 1);
            for notice in notices {
                assert!(notice.to.send(notice.result).is_ok());
            }
        }
        _ => panic!("nothing was to be saved"),
    }
    assert!(rx.try_recv().unwrap().is_ok());

    writer.on_command(Command::Mutate);
    let (tx, _rx) = waiter();
    assert!(matches!(writer.on_command(Command::FlushAndStop(tx)), Step::PersistAndStop(_)));
}

#[test]
fn writer_that_is_gone_is_reported() {
    let failure = terminal_result(Answer::NotSent).unwrap_err();
    assert_eq!(failure.0, "snapshot writer is stopped");
    let failure = terminal_result(Answer::Dropped).unwrap_err();
    assert_eq!(failure.0, "snapshot writer dropped the request");
    assert!(terminal_result(Answer::Received(Ok(()))).is_ok());

    assert!(flush_result(Some(Answer::NotSent)).is_ok());
    assert!(flush_result(Some(Answer::Dropped)).is_ok());
    let failure = flush_result(None).unwrap_err();
    assert_eq!(failure.0, "snapshot flush timed out");
    let failed = Answer::Received(Err(SnapshotError("x".to_string())));
    assert_eq!(flush_result(Some(failed)).unwrap_err().0, "x");
}
