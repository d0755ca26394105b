use bucket_brigade::app::{App, AppMode, PendingAction, StorageIntent};
use bucket_brigade::executor::{
    apply_restore_outcomes, apply_template, apply_transition_outcomes, begin_storage_selection,
    describe_restore_error, initiate_restore_flow, merge_restore_statuses, plan_restore,
    stage_transition, AdmissionError, ObjectOpError, RestoreOutcome, RestoreStatusUpdate,
    TransitionAdmission, TransitionOutcome,
};
use bucket_brigade::mask::{MaskKind, ObjectMask};
use bucket_brigade::models::{BucketInfo, ObjectInfo, RestoreState, StorageClassTier};
use bucket_brigade::policy::MigrationPolicy;

fn record(key: &str, tier: StorageClassTier, state: Option<RestoreState>) -> ObjectInfo {
    ObjectInfo {
        key: key.to_string(),
        size: 1,
        last_modified: None,
        storage_class: tier,
        restore_state: state,
    }
}

fn all_mask() -> ObjectMask {
    ObjectMask {
        name: "all".to_string(),
        pattern: "".to_string(),
        kind: MaskKind::Prefix,
        case_sensitive: true,
        storage_class_filter: None,
    }
}

fn app_with_bucket(objects: Vec<ObjectInfo>) -> App {
    let mut app = App::new();
    app.set_buckets(vec![BucketInfo {
        name: "box".to_string(),
        region: None,
        creation_date: None,
    }]);
    app.set_objects(objects);
    app.apply_mask(Some(all_mask()));
    app
}

#[test]
fn transition_admission_refused_while_one_target_needs_restore() {
    let mut app = app_with_bucket(vec![
        record("a", StorageClassTier::Standard, None),
        record("b", StorageClassTier::GlacierDeepArchive, None),
        record("c", StorageClassTier::Standard, None),
    ]);
    let r = stage_transition(&mut app, StorageClassTier::Standard);
    assert_eq!(r, TransitionAdmission::Blocked { needing: 1 });
    assert_eq!(app.mode, AppMode::Browsing);
    assert!(app.pending_action.is_none());
    assert_eq!(
        app.status.back().unwrap(),
        "\u{26a0} 1 objects require restore before transition. Press 'r' to restore them first."
    );

    // Once that object is available, admission succeeds.
    app.objects[1].restore_state = Some(RestoreState::Available);
    app.apply_mask(Some(all_mask()));
    let r = stage_transition(&mut app, StorageClassTier::Standard);
    assert_eq!(r, TransitionAdmission::Staged);
    assert_eq!(app.mode, AppMode::Confirming);
    assert!(matches!(
        app.pending_action,
        Some(PendingAction::Transition { target_class: StorageClassTier::Standard })
    ));
    assert_eq!(
        app.status.back().unwrap(),
        "Confirm transition to STANDARD (press Enter to confirm)"
    );
}

#[test]
fn transition_admission_refuses_an_empty_target_set() {
    let mut app = app_with_bucket(vec![]);
    let r = stage_transition(&mut app, StorageClassTier::Standard);
    assert_eq!(r, TransitionAdmission::EmptyTarget);
    assert_eq!(app.status.back().unwrap(), "No objects selected for transition");
}

#[test]
fn restore_partitioning_counts_and_requests() {
    let mut app = app_with_bucket(vec![
        record("p", StorageClassTier::GlacierDeepArchive,
            Some(RestoreState::InProgress { expiry: None })),
        record("q", StorageClassTier::GlacierFlexibleRetrieval,
            Some(RestoreState::InProgress { expiry: None })),
        record("r", StorageClassTier::GlacierDeepArchive, Some(RestoreState::Available)),
        record("s", StorageClassTier::GlacierDeepArchive, None),
        record("t", StorageClassTier::GlacierFlexibleRetrieval, None),
    ]);
    let plan = plan_restore(&mut app);
    assert_eq!(plan.skipped_restoring, 2);
    assert_eq!(plan.skipped_available, 1);
    assert_eq!(plan.eligible, vec!["s".to_string(), "t".to_string()]);
    let log: Vec<&String> = app.status.iter().collect();
    let n = log.len();
    assert_eq!(log[n - 3], "Skipped 2 objects already being restored");
    assert_eq!(log[n - 2], "Skipped 1 objects already restored");
    assert_eq!(log[n - 1], "Requesting restore for 2 objects...");
}

#[test]
fn restore_plan_with_nothing_eligible_says_so() {
    let mut app = app_with_bucket(vec![
        record("a", StorageClassTier::Standard, None),
    ]);
    let plan = plan_restore(&mut app);
    assert!(plan.eligible.is_empty());
    assert_eq!(plan.skipped_restoring, 0);
    assert_eq!(plan.skipped_available, 0);
    assert_eq!(app.status.back().unwrap(), "No objects need restore");
}

#[test]
fn one_transition_failure_does_not_drop_the_rest() {
    let mut app = app_with_bucket(vec![
        record("a", StorageClassTier::Standard, None),
        record("b", StorageClassTier::Standard, None),
        record("c", StorageClassTier::Standard, None),
    ]);
    let outcomes = vec![
        TransitionOutcome { key: "a".to_string(), error: None },
        TransitionOutcome { key: "b".to_string(), error: Some("access denied".to_string()) },
        TransitionOutcome { key: "c".to_string(), error: None },
    ];
    let before = app.status.len();
    apply_transition_outcomes(&mut app, &outcomes, &StorageClassTier::StandardIa);
    assert_eq!(app.status.len(), before + 3);
    let log: Vec<&String> = app.status.iter().collect();
    let n = log.len();
    assert_eq!(log[n - 3], "Transitioned a to STANDARD_IA");
    assert_eq!(log[n - 2], "Transition failed for b: access denied");
    assert_eq!(log[n - 1], "Transitioned c to STANDARD_IA");
}

#[test]
fn restore_outcomes_patch_only_the_accepted_keys() {
    let mut app = app_with_bucket(vec![
        record("a", StorageClassTier::GlacierDeepArchive, None),
        record("b", StorageClassTier::GlacierDeepArchive, None),
    ]);
    let outcomes = vec![
        RestoreOutcome { key: "a".to_string(), error: None },
        RestoreOutcome { key: "b".to_string(), error: Some(ObjectOpError::Timeout) },
    ];
    apply_restore_outcomes(&mut app, &outcomes);
    assert!(matches!(
        app.objects[0].restore_state,
        Some(RestoreState::InProgress { expiry: None })
    ));
    assert!(app.objects[1].restore_state.is_none());
    // The filtered view was recomputed, so badges there agree.
    assert!(matches!(
        app.filtered_objects[0].restore_state,
        Some(RestoreState::InProgress { expiry: None })
    ));
    let log: Vec<&String> = app.status.iter().collect();
    let n = log.len();
    assert_eq!(log[n - 2], "\u{2713} Restore requested for a");
    assert_eq!(
        log[n - 1],
        "\u{2717} Restore failed for b: request timed out; please retry"
    );
}

#[test]
fn restore_errors_have_distinct_messages() {
    assert_eq!(
        describe_restore_error(&ObjectOpError::NotFound),
        "NoSuchKey: object was not found (mask may target stale keys or bucket differs)"
    );
    assert_eq!(
        describe_restore_error(&ObjectOpError::InvalidState),
        "InvalidObjectState: object is already being restored or not eligible for this operation"
    );
    assert_eq!(
        describe_restore_error(&ObjectOpError::Service {
            code: "SlowDown".to_string(),
            message: "reduce request rate".to_string(),
        }),
        "SlowDown: reduce request rate"
    );
    assert_eq!(
        describe_restore_error(&ObjectOpError::Dispatch { detail: "dns".to_string() }),
        "network/dispatch failure: dns"
    );
    assert_eq!(
        describe_restore_error(&ObjectOpError::Timeout),
        "request timed out; please retry"
    );
    assert_eq!(
        describe_restore_error(&ObjectOpError::Response { detail: "bad gateway".to_string() }),
        "response error: bad gateway"
    );
    assert_eq!(
        describe_restore_error(&ObjectOpError::Unclassified { detail: "odd".to_string() }),
        "odd"
    );
}

#[test]
fn storage_selection_admission_errors() {
    let mut app = App::new();
    assert_eq!(
        begin_storage_selection(&mut app, StorageIntent::Transition),
        Err(AdmissionError::NoBucket)
    );
    assert_eq!(AdmissionError::NoBucket.message(), "Select a bucket first");

    let mut app = app_with_bucket(vec![]);
    assert_eq!(
        begin_storage_selection(&mut app, StorageIntent::Transition),
        Err(AdmissionError::EmptyTarget)
    );
    assert_eq!(
        AdmissionError::EmptyTarget.message(),
        "Select at least one object (mask or row)"
    );

    let mut app = app_with_bucket(vec![record("a", StorageClassTier::Standard, None)]);
    assert_eq!(begin_storage_selection(&mut app, StorageIntent::Transition), Ok(()));
    assert_eq!(app.mode, AppMode::SelectingStorageClass);
    assert_eq!(app.storage_class_cursor, 0);
}

#[test]
fn restore_flow_stages_only_when_needed() {
    let mut app = App::new();
    assert_eq!(initiate_restore_flow(&mut app), Err(AdmissionError::NoRestoreTargets));
    assert_eq!(
        AdmissionError::NoRestoreTargets.message(),
        "Select objects to restore first"
    );

    let mut app = app_with_bucket(vec![
        record("a", StorageClassTier::GlacierDeepArchive, None),
        record("b", StorageClassTier::GlacierDeepArchive,
            Some(RestoreState::InProgress { expiry: None })),
    ]);
    assert_eq!(initiate_restore_flow(&mut app), Ok(()));
    assert_eq!(app.mode, AppMode::Confirming);
    assert!(matches!(app.pending_action, Some(PendingAction::Restore { days: 7 })));
    assert_eq!(
        app.status.back().unwrap(),
        "Will restore 1 objects (1 already restoring will be skipped)"
    );

    let mut app = app_with_bucket(vec![record("a", StorageClassTier::Standard, None)]);
    assert_eq!(initiate_restore_flow(&mut app), Ok(()));
    assert_eq!(app.mode, AppMode::Browsing);
    assert!(app.pending_action.is_none());
    assert_eq!(
        app.status.back().unwrap(),
        "No objects need restore (not Glacier or already restored)"
    );
}

#[test]
fn template_stages_a_transition_through_its_mask() {
    let mut app = app_with_bucket(vec![
        record("a/1", StorageClassTier::Standard, None),
        record("b/1", StorageClassTier::Standard, None),
    ]);
    app.apply_mask(None);
    let template = MigrationPolicy::new(
        ObjectMask {
            name: "a-things".to_string(),
            pattern: "a/".to_string(),
            kind: MaskKind::Prefix,
            case_sensitive: true,
            storage_class_filter: None,
        },
        StorageClassTier::GlacierDeepArchive,
        None,
        "id-1".to_string(),
        "2024-01-01T00:00:00Z".to_string(),
    );
    let r = apply_template(&mut app, &template);
    assert_eq!(r, TransitionAdmission::Staged);
    assert_eq!(app.filtered_objects.len(), 1);
    assert_eq!(app.mode, AppMode::Confirming);
    assert!(matches!(
        app.pending_action,
        Some(PendingAction::Transition { target_class: StorageClassTier::GlacierDeepArchive })
    ));
}

#[test]
fn merge_updates_catalog_by_key_in_any_order() {
    let base = vec![
        record("a", StorageClassTier::GlacierDeepArchive, None),
        record("b", StorageClassTier::GlacierDeepArchive, None),
        record("c", StorageClassTier::Standard, None),
    ];
    let updates_one_order = vec![
        RestoreStatusUpdate { key: "a".to_string(), restore_state: Some(RestoreState::Available) },
        RestoreStatusUpdate {
            key: "b".to_string(),
            restore_state: Some(RestoreState::InProgress { expiry: None }),
        },
    ];
    let updates_other_order: Vec<RestoreStatusUpdate> =
        updates_one_order.iter().rev().map(|u| RestoreStatusUpdate {
            key: u.key.clone(),
            restore_state: u.restore_state.clone(),
        }).collect();

    let mut app1 = app_with_bucket(base.clone());
    merge_restore_statuses(&mut app1, &updates_one_order);
    let mut app2 = app_with_bucket(base);
    merge_restore_statuses(&mut app2, &updates_other_order);

    for app in [&app1, &app2] {
        assert!(matches!(app.objects[0].restore_state, Some(RestoreState::Available)));
        assert!(matches!(
            app.objects[1].restore_state,
            Some(RestoreState::InProgress { expiry: None })
        ));
        assert!(app.objects[2].restore_state.is_none());
    }
}

#[test]
fn counts_follow_the_single_selection_without_a_mask() {
    let mut app = App::new();
    app.set_objects(vec![
        record("a", StorageClassTier::GlacierDeepArchive, None),
        record("b", StorageClassTier::Standard, None),
    ]);
    app.selected_object = 0;
    assert!(app.any_targets_need_restoration());
    assert_eq!(app.count_objects_needing_restore(), 1);
    app.selected_object = 1;
    assert!(!app.any_targets_need_restoration());
    assert_eq!(app.count_objects_needing_restore(), 0);
    app.selected_object = 5; // out of bounds: empty target set
    assert_eq!(bucket_brigade::app::target_count(&app), 0);
    assert!(!app.any_targets_need_restoration());
}
