use bucket_brigade::models::{
    is_restoring, needs_restore, ObjectInfo, RestoreState, StorageClassTier, TrackedRestoreRequest,
};
use bucket_brigade::parse::parse_restore_state;
use bucket_brigade::policy::{MigrationPolicy, PolicyError, PolicyStore};
use bucket_brigade::tracker::RestoreTracker;

fn record(tier: StorageClassTier, state: Option<RestoreState>) -> ObjectInfo {
    ObjectInfo {
        key: "k".to_string(),
        size: 0,
        last_modified: None,
        storage_class: tier,
        restore_state: state,
    }
}

#[test]
fn archive_tiers_need_restore_until_covered() {
    assert!(needs_restore(&record(StorageClassTier::GlacierFlexibleRetrieval, None)));
    assert!(needs_restore(&record(StorageClassTier::GlacierDeepArchive, None)));
    assert!(needs_restore(&record(
        StorageClassTier::GlacierDeepArchive,
        Some(RestoreState::Expired)
    )));
    assert!(!needs_restore(&record(
        StorageClassTier::GlacierDeepArchive,
        Some(RestoreState::Available)
    )));
    assert!(!needs_restore(&record(
        StorageClassTier::GlacierDeepArchive,
        Some(RestoreState::InProgress { expiry: None })
    )));
    // Outside the archive tiers, never.
    assert!(!needs_restore(&record(StorageClassTier::Standard, None)));
    assert!(!needs_restore(&record(StorageClassTier::GlacierInstantRetrieval, None)));
    assert!(!needs_restore(&record(StorageClassTier::Standard, Some(RestoreState::Expired))));
}

#[test]
fn restoring_follows_the_state_whatever_the_tier() {
    assert!(is_restoring(&record(
        StorageClassTier::Standard,
        Some(RestoreState::InProgress { expiry: None })
    )));
    assert!(!is_restoring(&record(StorageClassTier::GlacierDeepArchive, None)));
    assert!(!is_restoring(&record(
        StorageClassTier::GlacierDeepArchive,
        Some(RestoreState::Available)
    )));
}

#[test]
fn tier_labels_are_the_remote_spellings() {
    assert_eq!(StorageClassTier::Standard.label(), "STANDARD");
    assert_eq!(StorageClassTier::IntelligentTiering.label(), "INTELLIGENT_TIERING");
    assert_eq!(StorageClassTier::StandardIa.label(), "STANDARD_IA");
    assert_eq!(StorageClassTier::OneZoneIa.label(), "ONEZONE_IA");
    assert_eq!(StorageClassTier::GlacierInstantRetrieval.label(), "GLACIER_IR");
    assert_eq!(StorageClassTier::GlacierFlexibleRetrieval.label(), "GLACIER");
    assert_eq!(StorageClassTier::GlacierDeepArchive.label(), "DEEP_ARCHIVE");
    assert_eq!(StorageClassTier::ReducedRedundancy.label(), "REDUCED_REDUNDANCY");
    assert_eq!(StorageClassTier::Unknown("EXPRESS_ONEZONE".to_string()).label(), "EXPRESS_ONEZONE");
}

#[test]
fn selectable_lists_the_seven_targets_in_menu_order() {
    let tiers = StorageClassTier::selectable();
    let labels: Vec<&str> = tiers.iter().map(|t| t.label()).collect();
    assert_eq!(labels, vec![
        "STANDARD",
        "INTELLIGENT_TIERING",
        "STANDARD_IA",
        "ONEZONE_IA",
        "GLACIER_IR",
        "GLACIER",
        "DEEP_ARCHIVE",
    ]);
}

#[test]
fn missing_restore_header_means_unknown_state() {
    assert!(parse_restore_state(None).is_none());
}

#[test]
fn ongoing_restore_header_parses_as_in_progress() {
    let r = parse_restore_state(Some("ongoing-request=\"true\""));
    assert!(matches!(r, Some(RestoreState::InProgress { expiry: None })));
    // Header matching is ASCII case-insensitive.
    let r = parse_restore_state(Some("ONGOING-REQUEST=\"TRUE\""));
    assert!(matches!(r, Some(RestoreState::InProgress { expiry: None })));
}

#[test]
fn finished_restore_header_with_expiry_keeps_the_timestamp() {
    let r = parse_restore_state(Some(
        "ongoing-request=\"false\", expiry-date=\"Fri, 21 Dec 2012 00:00:00 GMT\"",
    ));
    match r {
        Some(RestoreState::InProgress { expiry: Some(e) }) => {
            assert_eq!(e, "2012-12-21T00:00:00+00:00");
        }
        other => panic!("unexpected parse: {:?}", other),
    }
}

#[test]
fn unreadable_expiry_counts_as_available() {
    let r = parse_restore_state(Some("expiry-date=\"not a date\""));
    assert!(matches!(r, Some(RestoreState::Available)));
}

#[test]
fn finished_restore_header_without_expiry_is_available() {
    let r = parse_restore_state(Some("ongoing-request=\"false\""));
    assert!(matches!(r, Some(RestoreState::Available)));
}

#[test]
fn unrecognised_restore_header_counts_as_expired() {
    let r = parse_restore_state(Some("something else entirely"));
    assert!(matches!(r, Some(RestoreState::Expired)));
}

#[test]
fn tracker_records_and_updates_requests() {
    let mut t = RestoreTracker::new();
    t.add_request("box".to_string(), "a".to_string(), 7, "2024-01-01T00:00:00Z".to_string());
    t.add_request("box".to_string(), "b".to_string(), 3, "2024-01-02T00:00:00Z".to_string());
    assert_eq!(t.get_all_requests().len(), 2);
    assert_eq!(t.get_active_requests().len(), 2);
    assert!(matches!(
        t.get_all_requests()[0].current_status,
        RestoreState::InProgress { expiry: None }
    ));

    t.update_status("box", "a", RestoreState::Available);
    assert!(matches!(t.get_all_requests()[0].current_status, RestoreState::Available));
    assert_eq!(t.get_active_requests().len(), 1);
    assert_eq!(t.get_active_requests()[0].key, "b");

    // Updating an unknown key changes nothing.
    t.update_status("box", "zzz", RestoreState::Expired);
    assert_eq!(t.get_all_requests().len(), 2);

    t.remove_completed();
    assert_eq!(t.get_all_requests().len(), 1);
    assert_eq!(t.get_all_requests()[0].key, "b");
    assert_eq!(t.get_all_requests()[0].days, 3);
}

#[test]
fn tracker_loads_existing_requests() {
    let t = RestoreTracker::with_requests(vec![TrackedRestoreRequest {
        bucket: "box".to_string(),
        key: "k".to_string(),
        requested_at: "2024-01-01T00:00:00Z".to_string(),
        days: 1,
        current_status: RestoreState::Expired,
    }]);
    assert_eq!(t.get_all_requests().len(), 1);
    assert!(t.get_active_requests().is_empty());
}

#[test]
fn policy_store_adds_and_removes_in_bounds() {
    let mut store = PolicyStore::new();
    assert!(store.policies.is_empty());
    store.add(MigrationPolicy::new(
        bucket_brigade::mask::ObjectMask {
            name: "n".to_string(),
            pattern: "p".to_string(),
            kind: bucket_brigade::mask::MaskKind::Contains,
            case_sensitive: false,
            storage_class_filter: None,
        },
        StorageClassTier::StandardIa,
        Some("note".to_string()),
        "id-9".to_string(),
        "2024-06-01T00:00:00Z".to_string(),
    ));
    assert_eq!(store.policies.len(), 1);
    assert_eq!(store.policies[0].id, "id-9");

    assert_eq!(store.remove(3), Err(PolicyError::IndexOutOfBounds));
    assert_eq!(PolicyError::IndexOutOfBounds.message(), "policy index out of bounds");
    assert_eq!(store.policies.len(), 1);
    assert_eq!(store.remove(0), Ok(()));
    assert!(store.policies.is_empty());
}
