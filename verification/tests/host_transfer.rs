use relay_rs::host_transfer::{compute_eligibility, eligible_host, is_valid_target, PeerInfo};

fn peer<'a>(id: &'a str, sync_version: i32, capable: bool) -> PeerInfo<'a> {
    PeerInfo { peer_id: id, sync_protocol_version: sync_version, host_transfer_capable: capable }
}

#[test]
fn host_not_capable_is_never_eligible() {
    let peers = vec![peer("host", 5, false), peer("guest", 5, true)];
    assert!(!eligible_host("host", &peers));
}

#[test]
fn host_with_zero_sync_version_is_never_eligible() {
    let peers = vec![peer("host", 0, true)];
    assert!(!eligible_host("host", &peers));
}

#[test]
fn straggler_at_hosts_version_blocks_eligibility() {
    // guest2 shares the host's sync version but lacks the capability.
    let peers = vec![peer("host", 5, true), peer("guest1", 5, true), peer("guest2", 5, false)];
    assert!(!eligible_host("host", &peers));
}

#[test]
fn peer_at_different_version_without_capability_does_not_block() {
    let peers = vec![peer("host", 5, true), peer("guest", 3, false)];
    assert!(eligible_host("host", &peers));
}

#[test]
fn any_zero_sync_version_peer_blocks_eligibility_regardless_of_version() {
    let peers = vec![peer("host", 5, true), peer("guest", 0, true)];
    assert!(!eligible_host("host", &peers));
}

#[test]
fn valid_target_requires_reservation_and_matching_version() {
    let peers = vec![peer("host", 5, true), peer("guest", 5, true)];
    assert!(is_valid_target("host", &peers, |_| true, "guest"));
    assert!(!is_valid_target("host", &peers, |_| false, "guest"));
}

#[test]
fn valid_target_rejects_mismatched_sync_version() {
    let peers = vec![peer("host", 5, true), peer("guest", 3, true)];
    assert!(!is_valid_target("host", &peers, |_| true, "guest"));
}

#[test]
fn compute_eligibility_none_when_nobody_capable() {
    let peers = vec![peer("host", 5, false), peer("guest", 5, false)];
    assert!(compute_eligibility("host", &peers, |_| true).is_none());
}

#[test]
fn compute_eligibility_sends_empty_targets_to_lone_capable_recipient() {
    // The host is the only capable peer and cannot be its own target, so the
    // message goes out to it with no target.
    let peers = vec![peer("host", 5, true)];
    let (recipients, targets) = compute_eligibility("host", &peers, |_| true).unwrap();
    assert_eq!(recipients, vec!["host".to_string()]);
    assert!(targets.is_empty());
}

#[test]
fn compute_eligibility_full_room() {
    let peers = vec![peer("host", 5, true), peer("g1", 5, true), peer("g2", 5, true)];
    let (recipients, targets) = compute_eligibility("host", &peers, |_| true).unwrap();
    assert_eq!(recipients.len(), 3);
    assert_eq!(targets, vec!["g1".to_string(), "g2".to_string()]);
}
