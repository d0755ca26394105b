use bucket_brigade::app::{ActivePane, App, MaskEditorField};
use bucket_brigade::mask::{MaskKind, ObjectMask};
use bucket_brigade::models::{BucketInfo, ObjectInfo, StorageClassTier};

fn record(key: &str) -> ObjectInfo {
    ObjectInfo {
        key: key.to_string(),
        size: 1,
        last_modified: None,
        storage_class: StorageClassTier::Standard,
        restore_state: None,
    }
}

fn bucket(name: &str, region: Option<&str>) -> BucketInfo {
    BucketInfo {
        name: name.to_string(),
        region: region.map(|r| r.to_string()),
        creation_date: None,
    }
}

fn records(n: usize) -> Vec<ObjectInfo> {
    (0..n).map(|i| record(&format!("k{:05}", i))).collect()
}

#[test]
fn new_app_is_empty_and_browsing() {
    let app = App::new();
    assert!(app.objects.is_empty());
    assert!(app.buckets.is_empty());
    assert!(app.active_mask.is_none());
    assert!(app.continuation_token.is_none());
    assert!(!app.is_loading_objects);
    assert_eq!(app.available_regions.len(), 16);
    assert_eq!(app.available_regions[0], "All Regions");
    assert_eq!(app.available_regions[1], "us-east-1");
}

#[test]
fn append_objects_keeps_keys_sorted() {
    let mut app = App::new();
    app.set_objects(vec![record("b"), record("d")]);
    // set_objects keeps the given order; append re-sorts the whole catalog.
    app.append_objects(vec![record("c"), record("a")]);
    let keys: Vec<&str> = app.objects.iter().map(|o| o.key.as_str()).collect();
    assert_eq!(keys, vec!["a", "b", "c", "d"]);
}

#[test]
fn append_objects_reapplies_active_mask() {
    let mut app = App::new();
    app.set_objects(vec![record("a/1"), record("b/1")]);
    app.apply_mask(Some(ObjectMask {
        name: "m".to_string(),
        pattern: "a/".to_string(),
        kind: MaskKind::Prefix,
        case_sensitive: true,
        storage_class_filter: None,
    }));
    assert_eq!(app.filtered_objects.len(), 1);
    app.append_objects(vec![record("a/0"), record("c/1")]);
    let keys: Vec<&str> = app.filtered_objects.iter().map(|o| o.key.as_str()).collect();
    assert_eq!(keys, vec!["a/0", "a/1"]);
}

#[test]
fn pagination_of_five_records_in_pages_of_two_takes_three_fetches() {
    // A finite remote listing, served two records per fetch.
    let listing = records(5);
    let page_size = 2;
    let mut app = App::new();
    app.reset_pagination();
    let mut fetches = 0;
    loop {
        let offset = app.objects.len();
        let page: Vec<ObjectInfo> = listing.iter().skip(offset).take(page_size).cloned().collect();
        let truncated = offset + page.len() < listing.len();
        app.append_objects(page);
        app.continuation_token = if truncated { Some(format!("cursor-{}", fetches)) } else { None };
        fetches += 1;
        if !app.has_more_objects() {
            break;
        }
    }
    assert_eq!(fetches, 3); // ceil(5 / 2)
    assert_eq!(app.objects.len(), 5);
    assert!(app.continuation_token.is_none());
    let mut keys: Vec<&str> = app.objects.iter().map(|o| o.key.as_str()).collect();
    let before = keys.clone();
    keys.dedup();
    assert_eq!(keys, before); // no duplicate keys
}

#[test]
fn lazy_load_triggers_near_the_tail() {
    let mut app = App::new();
    app.set_objects(records(200));
    app.continuation_token = Some("next".to_string());
    app.selected_object = 160;
    assert!(app.should_load_more()); // within 50 of the end
    app.selected_object = 100;
    assert!(!app.should_load_more()); // no mask, far from the end
}

#[test]
fn lazy_load_respects_cursor_and_loading_flag() {
    let mut app = App::new();
    app.set_objects(records(200));
    app.selected_object = 199;
    assert!(!app.should_load_more()); // no cursor left
    app.continuation_token = Some("next".to_string());
    assert!(app.should_load_more());
    app.is_loading_objects = true;
    assert!(!app.should_load_more()); // a page is already in flight
}

#[test]
fn lazy_load_feeds_a_sparse_mask() {
    let mut app = App::new();
    app.set_objects(records(200));
    app.continuation_token = Some("next".to_string());
    app.selected_object = 0;
    app.apply_mask(Some(ObjectMask {
        name: "m".to_string(),
        pattern: "zzz".to_string(),
        kind: MaskKind::Prefix,
        case_sensitive: true,
        storage_class_filter: None,
    }));
    assert!(app.filtered_objects.len() < 100);
    assert!(app.should_load_more()); // sparse matches keep pulling pages
}

#[test]
fn status_log_keeps_the_twenty_most_recent_entries() {
    let mut app = App::new();
    for i in 0..25 {
        app.push_status(&format!("entry {}", i));
    }
    assert_eq!(app.status.len(), 20);
    assert_eq!(app.status.front().unwrap(), "entry 5");
    assert_eq!(app.status.back().unwrap(), "entry 24");
}

#[test]
fn region_filter_narrows_buckets() {
    let mut app = App::new();
    app.set_buckets(vec![
        bucket("one", Some("us-east-1")),
        bucket("two", Some("eu-west-1")),
        bucket("three", None),
    ]);
    assert_eq!(app.buckets.len(), 3);
    app.set_region(Some("us-east-1".to_string()));
    let names: Vec<&str> = app.buckets.iter().map(|b| b.name.as_str()).collect();
    assert_eq!(names, vec!["one"]);
    app.set_region(Some("All Regions".to_string()));
    assert_eq!(app.buckets.len(), 3);
    assert_eq!(app.get_current_region_display(), "All Regions");
}

#[test]
fn cycle_region_steps_and_wraps() {
    let mut app = App::new();
    bucket_brigade::app::cycle_region(&mut app, 1);
    assert_eq!(app.selected_region.as_deref(), Some("us-east-1"));
    assert_eq!(app.status.back().unwrap(), "Region filter: us-east-1");
    bucket_brigade::app::cycle_region(&mut app, -1);
    assert_eq!(app.selected_region, None); // back to "All Regions"
    bucket_brigade::app::cycle_region(&mut app, -1);
    assert_eq!(app.selected_region.as_deref(), Some("ca-central-1")); // wraps around
    assert_eq!(app.active_pane, ActivePane::Buckets);
}

#[test]
fn move_selection_clamps_to_bounds() {
    let mut app = App::new();
    app.active_pane = ActivePane::Objects;
    app.set_objects(records(10));
    bucket_brigade::app::move_selection(&mut app, -5);
    assert_eq!(app.selected_object, 0);
    bucket_brigade::app::move_selection(&mut app, 7);
    assert_eq!(app.selected_object, 7);
    bucket_brigade::app::move_selection(&mut app, 100);
    assert_eq!(app.selected_object, 9);
}

#[test]
fn bucket_selection_schedules_a_load() {
    let mut app = App::new();
    app.set_buckets(vec![bucket("one", None), bucket("two", None)]);
    assert!(!app.pending_bucket_load);
    bucket_brigade::app::move_selection(&mut app, 1);
    assert_eq!(app.selected_bucket, 1);
    assert!(app.pending_bucket_load);
    app.pending_bucket_load = false;
    bucket_brigade::app::jump_selection(&mut app, true);
    assert_eq!(app.selected_bucket, 0);
    assert!(app.pending_bucket_load);
}

#[test]
fn jump_selection_hits_both_ends() {
    let mut app = App::new();
    app.active_pane = ActivePane::Objects;
    app.set_objects(records(10));
    bucket_brigade::app::jump_selection(&mut app, false);
    assert_eq!(app.selected_object, 9);
    bucket_brigade::app::jump_selection(&mut app, true);
    assert_eq!(app.selected_object, 0);
}

#[test]
fn reset_pagination_clears_the_epoch() {
    let mut app = App::new();
    app.set_objects(records(3));
    app.continuation_token = Some("t".to_string());
    app.total_object_count = Some(30);
    app.is_loading_objects = true;
    app.selected_object = 2;
    app.reset_pagination();
    assert!(app.objects.is_empty());
    assert!(app.filtered_objects.is_empty());
    assert!(app.continuation_token.is_none());
    assert!(app.total_object_count.is_none());
    assert!(!app.is_loading_objects);
    assert_eq!(app.selected_object, 0);
}

#[test]
fn replace_object_swaps_the_matching_record() {
    let mut app = App::new();
    app.set_objects(vec![record("a"), record("b")]);
    let mut refreshed = record("b");
    refreshed.size = 99;
    refreshed.storage_class = StorageClassTier::GlacierDeepArchive;
    app.replace_object(refreshed);
    assert_eq!(app.objects[1].size, 99);
    assert!(matches!(app.objects[1].storage_class, StorageClassTier::GlacierDeepArchive));
    // An unknown key changes nothing.
    let stranger = record("zzz");
    app.replace_object(stranger);
    assert_eq!(app.objects.len(), 2);
}

#[test]
fn mask_editor_fields_cycle_both_ways() {
    assert_eq!(MaskEditorField::Pattern.next(), MaskEditorField::Mode);
    assert_eq!(MaskEditorField::Mode.next(), MaskEditorField::Case);
    assert_eq!(MaskEditorField::Case.next(), MaskEditorField::StorageClass);
    assert_eq!(MaskEditorField::StorageClass.next(), MaskEditorField::Pattern);
    for f in [
        MaskEditorField::Pattern,
        MaskEditorField::Mode,
        MaskEditorField::Case,
        MaskEditorField::StorageClass,
    ] {
        assert_eq!(f.next().previous(), f);
    }
}

#[test]
fn mask_kind_cycle_is_the_fixed_circle() {
    let mut app = App::new();
    let labels = |app: &App| match app.mask_draft.kind {
        MaskKind::Prefix => "Prefix",
        MaskKind::Suffix => "Suffix",
        MaskKind::Contains => "Contains",
        MaskKind::Regex => "Regex",
    };
    assert_eq!(labels(&app), "Prefix");
    app.cycle_mask_kind();
    assert_eq!(labels(&app), "Suffix");
    app.cycle_mask_kind();
    assert_eq!(labels(&app), "Contains");
    app.cycle_mask_kind();
    assert_eq!(labels(&app), "Regex");
    app.cycle_mask_kind();
    assert_eq!(labels(&app), "Prefix");
    app.cycle_mask_kind_backwards();
    assert_eq!(labels(&app), "Regex");
}
