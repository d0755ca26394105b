use bucket_brigade::app::App;
use bucket_brigade::mask::{MaskKind, ObjectMask};
use bucket_brigade::models::{ObjectInfo, RestoreState, StorageClassTier};

fn mask(kind: MaskKind, pattern: &str, case_sensitive: bool) -> ObjectMask {
    ObjectMask {
        name: "m".to_string(),
        pattern: pattern.to_string(),
        kind,
        case_sensitive,
        storage_class_filter: None,
    }
}

fn record(key: &str, tier: StorageClassTier, state: Option<RestoreState>) -> ObjectInfo {
    ObjectInfo {
        key: key.to_string(),
        size: 1,
        last_modified: None,
        storage_class: tier,
        restore_state: state,
    }
}

#[test]
fn prefix_matches_like_starts_with() {
    let m = mask(MaskKind::Prefix, "a/", true);
    assert!(m.matches("a/1.txt"));
    assert!(m.matches("a/"));
    assert!(!m.matches("b/1.txt"));
    assert!(!m.matches("xa/1.txt"));
    assert!(!m.matches(""));
}

#[test]
fn suffix_matches_like_ends_with() {
    let m = mask(MaskKind::Suffix, ".txt", true);
    assert!(m.matches("a/1.txt"));
    assert!(m.matches(".txt"));
    assert!(!m.matches("a/1.txt.gz"));
    assert!(!m.matches("txt"));
}

#[test]
fn contains_matches_like_substring() {
    let m = mask(MaskKind::Contains, "/1.", true);
    assert!(m.matches("a/1.txt"));
    assert!(!m.matches("a/21txt"));
    let empty = mask(MaskKind::Contains, "", true);
    assert!(empty.matches("anything"));
    assert!(empty.matches(""));
}

#[test]
fn case_insensitive_lowers_both_sides() {
    let m = mask(MaskKind::Prefix, "A/", false);
    assert!(m.matches("a/1.txt"));
    assert!(m.matches("A/1.txt"));
    let m2 = mask(MaskKind::Suffix, ".TXT", false);
    assert!(m2.matches("a/1.txt"));
    let m3 = mask(MaskKind::Contains, "Report", false);
    assert!(m3.matches("a/rEpOrT.pdf"));
    // The sensitive variants must not match across case.
    let strict = mask(MaskKind::Prefix, "A/", true);
    assert!(!strict.matches("a/1.txt"));
}

#[test]
fn invalid_regex_matches_no_key() {
    let m = mask(MaskKind::Regex, "[unclosed", true);
    assert!(!m.matches(""));
    assert!(!m.matches("[unclosed"));
    assert!(!m.matches("a/1.txt"));
    assert!(!m.matches("anything at all"));
}

#[test]
fn valid_regex_matches_as_compiled() {
    let m = mask(MaskKind::Regex, "^a/.*\\.txt$", true);
    assert!(m.matches("a/1.txt"));
    assert!(!m.matches("b/1.txt"));
    assert!(!m.matches("a/1.doc"));
}

#[test]
fn regex_case_flag_follows_mask() {
    let insensitive = mask(MaskKind::Regex, "^A/", false);
    assert!(insensitive.matches("a/1.txt"));
    let sensitive = mask(MaskKind::Regex, "^A/", true);
    assert!(!sensitive.matches("a/1.txt"));
}

#[test]
fn tier_filter_restricts_matches() {
    let mut m = mask(MaskKind::Prefix, "a/", true);
    m.storage_class_filter = Some(StorageClassTier::GlacierFlexibleRetrieval);
    let glacier = record("a/1.txt", StorageClassTier::GlacierFlexibleRetrieval, None);
    let standard = record("a/2.txt", StorageClassTier::Standard, None);
    assert!(m.selects(&glacier));
    assert!(!m.selects(&standard));
}

#[test]
fn summary_shows_name_kind_pattern_and_filter() {
    let m = mask(MaskKind::Prefix, "a/", true);
    assert_eq!(m.summary(), "m (Prefix: a/)");
    let mut loose = mask(MaskKind::Regex, "x.*", false);
    loose.name = "wide".to_string();
    loose.storage_class_filter = Some(StorageClassTier::Standard);
    assert_eq!(loose.summary(), "wide (Regex: x.* (insensitive) + STANDARD)");
}

#[test]
fn prefix_mask_filters_bucket_listing() {
    let mut app = App::new();
    app.set_objects(vec![
        record("a/1.txt", StorageClassTier::Standard, None),
        record("a/2.txt", StorageClassTier::Standard, None),
        record("b/1.txt", StorageClassTier::Standard, None),
    ]);
    app.apply_mask(Some(mask(MaskKind::Prefix, "a/", true)));
    let keys: Vec<&str> = app.filtered_objects.iter().map(|o| o.key.as_str()).collect();
    assert_eq!(keys, vec!["a/1.txt", "a/2.txt"]);
    assert_eq!(bucket_brigade::app::target_count(&app), 2);
    let target_keys = bucket_brigade::app::target_keys(&app);
    assert_eq!(target_keys, vec!["a/1.txt".to_string(), "a/2.txt".to_string()]);
}

#[test]
fn apply_mask_reports_match_count() {
    let mut app = App::new();
    app.set_objects(vec![
        record("a/1.txt", StorageClassTier::Standard, None),
        record("a/2.txt", StorageClassTier::Standard, None),
        record("b/1.txt", StorageClassTier::Standard, None),
    ]);
    app.apply_mask(Some(mask(MaskKind::Prefix, "a/", true)));
    assert_eq!(app.status.back().unwrap(), "Mask 'm' matched 2 objects");
    app.apply_mask(Some(mask(MaskKind::Prefix, "zzz/", true)));
    assert_eq!(app.status.back().unwrap(), "Mask applied but matched no objects");
    app.apply_mask(None);
    assert_eq!(app.status.back().unwrap(), "Cleared mask filter");
    assert!(app.filtered_objects.is_empty());
}
