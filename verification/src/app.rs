//! Application core: the object catalog with its pagination cursor, the
//! active mask, the targeting resolver, selection state, and the bounded
//! status log.

use std::collections::VecDeque;

use vstd::multiset::Multiset;
use vstd::prelude::*;

use crate::mask::{mask_selects, MaskKind, ObjectMask};
use crate::models::{
    spec_is_restoring, spec_needs_restore, BucketInfo, ObjectInfo, StorageClassTier,
};
use crate::text::{lemma_lex_le_total, lemma_lex_le_trans, lex_le, str_eq_str, str_le};

verus! {

broadcast use {
    vstd::seq_lib::group_filter_ensures,
    vstd::seq_lib::group_to_multiset_ensures,
    vstd::prelude::Seq::lemma_take_succ_push,
    vstd::prelude::Seq::lemma_filter_push,
    vstd::multiset::group_multiset_axioms,
};

/// The status log keeps this many most-recent entries; the oldest is evicted
/// first.
pub const STATUS_LIMIT: usize = 20;

/// How far ahead of the loaded tail the selection may sit before another page
/// is requested.
pub const LOOK_AHEAD: usize = 50;

/// A mask whose current match count is below this keeps pulling pages while
/// a cursor remains.
pub const SPARSE_MATCH_LIMIT: usize = 100;

/// Which pane has keyboard focus.
#[derive(Clone, Copy, Debug, PartialEq, Eq, Structural)]
pub enum ActivePane {
    Buckets,
    Objects,
    MaskEditor,
}

/// The modal state of the application.
#[derive(Clone, Copy, Debug, PartialEq, Eq, Structural)]
pub enum AppMode {
    Browsing,
    EditingMask,
    Confirming,
    SelectingStorageClass,
    ShowingHelp,
    ViewingLog,
    ViewingRestoreRequests,
    CredentialError,
}

/// What the storage-class selector has been opened for.
#[derive(Clone, Copy, Debug, PartialEq, Eq, Structural)]
pub enum StorageIntent {
    Transition,
}

/// The field of the mask editor that has focus.
#[derive(Clone, Copy, Debug, PartialEq, Eq, Structural)]
pub enum MaskEditorField {
    Pattern,
    Mode,
    Case,
    StorageClass,
}

impl MaskEditorField {
    /// The next field in editor order, wrapping around.
    pub fn next(self) -> (r: Self)
        ensures
            r == match self {
                MaskEditorField::Pattern => MaskEditorField::Mode,
                MaskEditorField::Mode => MaskEditorField::Case,
                MaskEditorField::Case => MaskEditorField::StorageClass,
                MaskEditorField::StorageClass => MaskEditorField::Pattern,
            },
    {
        match self {
            MaskEditorField::Pattern => MaskEditorField::Mode,
            MaskEditorField::Mode => MaskEditorField::Case,
            MaskEditorField::Case => MaskEditorField::StorageClass,
            MaskEditorField::StorageClass => MaskEditorField::Pattern,
        }
    }

    /// The previous field in editor order, wrapping around.
    pub fn previous(self) -> (r: Self)
        ensures
            r == match self {
                MaskEditorField::Pattern => MaskEditorField::StorageClass,
                MaskEditorField::Mode => MaskEditorField::Pattern,
                MaskEditorField::Case => MaskEditorField::Mode,
                MaskEditorField::StorageClass => MaskEditorField::Case,
            },
    {
        match self {
            MaskEditorField::Pattern => MaskEditorField::StorageClass,
            MaskEditorField::Mode => MaskEditorField::Pattern,
            MaskEditorField::Case => MaskEditorField::Mode,
            MaskEditorField::StorageClass => MaskEditorField::Case,
        }
    }
}

/// The mask the editor is building.
#[derive(Debug)]
pub struct MaskDraft {
    pub pattern: String,
    pub kind: MaskKind,
    pub case_sensitive: bool,
    pub storage_class_filter: Option<StorageClassTier>,
    pub storage_class_cursor: usize,
    pub cursor_pos: usize,
}

impl Clone for MaskDraft {
    fn clone(&self) -> (r: Self)
        ensures
            r == *self,
    {
        MaskDraft {
            pattern: self.pattern.clone(),
            kind: self.kind,
            case_sensitive: self.case_sensitive,
            storage_class_filter: match &self.storage_class_filter {
                Some(t) => Some(t.clone()),
                None => None,
            },
            storage_class_cursor: self.storage_class_cursor,
            cursor_pos: self.cursor_pos,
        }
    }
}

impl Default for MaskDraft {
    /// An empty case-insensitive prefix draft.
    fn default() -> (r: Self)
        ensures
            r.pattern@ == Seq::<char>::empty(),
            r.kind is Prefix,
            !r.case_sensitive,
            r.storage_class_filter is None,
            r.storage_class_cursor == 0,
            r.cursor_pos == 0,
    {
        MaskDraft {
            pattern: String::new(),
            kind: MaskKind::Prefix,
            case_sensitive: false,
            storage_class_filter: None,
            storage_class_cursor: 0,
            cursor_pos: 0,
        }
    }
}

/// A bulk operation staged for confirmation.
#[derive(Debug)]
pub enum PendingAction {
    Transition { target_class: StorageClassTier },
    Restore { days: i32 },
}

/// The whole mutable application state: catalog, mask, targeting, modal
/// state and status log. A single logical owner drives it.
#[derive(Debug)]
pub struct App {
    pub buckets: Vec<BucketInfo>,
    pub all_buckets: Vec<BucketInfo>,
    pub objects: Vec<ObjectInfo>,
    pub filtered_objects: Vec<ObjectInfo>,
    pub selected_bucket: usize,
    pub selected_object: usize,
    pub selected_region: Option<String>,
    pub available_regions: Vec<String>,
    pub status: VecDeque<String>,
    pub active_pane: ActivePane,
    pub mode: AppMode,
    pub mask_draft: MaskDraft,
    pub active_mask: Option<ObjectMask>,
    pub pending_action: Option<PendingAction>,
    pub storage_class_cursor: usize,
    pub storage_intent: StorageIntent,
    pub mask_field: MaskEditorField,
    pub pending_bucket_load: bool,
    pub total_object_count: Option<usize>,
    pub continuation_token: Option<String>,
    pub is_loading_objects: bool,
}

/// The subset of `records` that `mask` selects, in catalog order.
pub fn filter_records(records: &Vec<ObjectInfo>, mask: &ObjectMask) -> (r: Vec<ObjectInfo>)
    ensures
        r@ == records@.filter(|o: ObjectInfo| mask_selects(*mask, o)),
{
    let mut r: Vec<ObjectInfo> = Vec::new();
    let mut i: usize = 0;
    while i < records.len()
        invariant
            i <= records@.len(),
            r@ == records@.take(i as int).filter(|o: ObjectInfo| mask_selects(*mask, o)),
        decreases records@.len() - i,
    {
        if mask.selects(&records[i]) {
            r.push(records[i].clone());
        }
        i += 1;
    }
    proof {
        assert(records@.take(records@.len() as int) =~= records@);
    }
    r
}

/// Sorts the records by key, keeping exactly the same records (insertion
/// sort into a fresh vector).
pub fn sort_records_by_key(v: &mut Vec<ObjectInfo>)
    ensures
        keys_sorted(final(v)@),
        final(v)@.to_multiset() == old(v)@.to_multiset(),
{
    let mut out: Vec<ObjectInfo> = Vec::new();
    while v.len() > 0
        invariant
            keys_sorted(out@),
            out@.to_multiset().add(v@.to_multiset()) == old(v)@.to_multiset(),
        decreases v@.len(),
    {
        let ghost v_before = v@;
        let x = v.pop().unwrap();
        proof {
            assert(v@ =~= v_before.remove(v_before.len() - 1));
        }
        let mut p: usize = 0;
        let mut scanning = true;
        while scanning
            invariant
                p <= out@.len(),
                forall|j: int| 0 <= j < p ==> lex_le(out@[j].key@, x.key@),
                !scanning ==> (p == out@.len() || !lex_le(out@[p as int].key@, x.key@)),
            decreases out@.len() - p, (if scanning { 1int } else { 0int }),
        {
            if p < out.len() {
                if str_le(out[p].key.as_str(), x.key.as_str()) {
                    p += 1;
                } else {
                    scanning = false;
                }
            } else {
                scanning = false;
            }
        }
        let ghost pre = out@;
        let ghost xkey = x.key@;
        out.insert(p, x);
        proof {
            pre.insert_ensures(p as int, x);
            assert forall|i: int, j: int| 0 <= i < j < out@.len()
                implies lex_le(out@[i].key@, out@[j].key@) by {
                if i == p && j > p {
                    lemma_lex_le_total(pre[p as int].key@, xkey);
                    if j > p + 1 {
                        lemma_lex_le_trans(xkey, pre[p as int].key@, pre[j - 1].key@);
                    }
                }
            }
            assert(out@.to_multiset().add(v@.to_multiset()) =~= old(v)@.to_multiset());
        }
    }
    proof {
        assert(v@.to_multiset() =~= Multiset::<ObjectInfo>::empty());
        assert(out@.to_multiset() =~= out@.to_multiset().add(v@.to_multiset()));
    }
    *v = out;
}

/// The catalog keys are in nondecreasing lexicographic order.
pub open spec fn keys_sorted(s: Seq<ObjectInfo>) -> bool {
    forall|i: int, j: int| 0 <= i < j < s.len() ==> lex_le(s[i].key@, s[j].key@)
}

/// The text of each status entry, oldest first.
pub open spec fn log_view(s: Seq<String>) -> Seq<Seq<char>> {
    s.map_values(|x: String| x@)
}

/// One ring-buffer push: the entry goes to the back, and the oldest entry
/// leaves once the log is at capacity.
pub open spec fn ring_push(log: Seq<Seq<char>>, entry: Seq<char>) -> Seq<Seq<char>> {
    if log.len() >= STATUS_LIMIT {
        log.drop_first().push(entry)
    } else {
        log.push(entry)
    }
}

/// The region menu, in cycling order.
pub open spec fn default_regions() -> Seq<Seq<char>> {
    seq![
        "All Regions"@,
        "us-east-1"@,
        "us-east-2"@,
        "us-west-1"@,
        "us-west-2"@,
        "eu-west-1"@,
        "eu-west-2"@,
        "eu-west-3"@,
        "eu-central-1"@,
        "ap-northeast-1"@,
        "ap-northeast-2"@,
        "ap-southeast-1"@,
        "ap-southeast-2"@,
        "ap-south-1"@,
        "sa-east-1"@,
        "ca-central-1"@,
    ]
}

/// Clones a bucket list, keeping its contents.
fn clone_buckets(v: &Vec<BucketInfo>) -> (r: Vec<BucketInfo>)
    ensures
        r@ == v@,
{
    let mut r: Vec<BucketInfo> = Vec::new();
    let mut i: usize = 0;
    while i < v.len()
        invariant
            i <= v@.len(),
            r@ == v@.take(i as int),
        decreases v@.len() - i,
    {
        r.push(v[i].clone());
        i += 1;
    }
    proof {
        assert(v@.take(v@.len() as int) =~= v@);
    }
    r
}

/// The buckets of `all` whose region equals `region`.
fn filter_buckets_by_region(all: &Vec<BucketInfo>, region: &String) -> (r: Vec<BucketInfo>)
    ensures
        r@ == all@.filter(|b: BucketInfo| bucket_in_region(b, region@)),
{
    let mut r: Vec<BucketInfo> = Vec::new();
    let mut i: usize = 0;
    while i < all.len()
        invariant
            i <= all@.len(),
            r@ == all@.take(i as int).filter(|b: BucketInfo| bucket_in_region(b, region@)),
        decreases all@.len() - i,
    {
        let keep = match &all[i].region {
            Some(br) => str_eq_str(br.as_str(), region.as_str()),
            None => false,
        };
        if keep {
            r.push(all[i].clone());
        }
        i += 1;
    }
    proof {
        assert(all@.take(all@.len() as int) =~= all@);
    }
    r
}

/// Does this bucket pass the region filter `sel`? `None` and the sentinel
/// `"All Regions"` both pass everything.
pub open spec fn bucket_in_region(b: BucketInfo, r: Seq<char>) -> bool {
    match b.region {
        Some(br) => br@ == r,
        None => false,
    }
}

/// The buckets shown for a region selection.
pub open spec fn region_filtered(all: Seq<BucketInfo>, sel: Option<String>) -> Seq<BucketInfo> {
    match sel {
        None => all,
        Some(r) => if r@ == "All Regions"@ {
            all
        } else {
            all.filter(|b: BucketInfo| bucket_in_region(b, r@))
        },
    }
}

impl App {
    /// The texts in the status log, oldest first.
    pub open spec fn status_log(self) -> Seq<Seq<char>> {
        log_view(self.status@)
    }

    /// The records the user is looking at: the filtered view while a mask is
    /// active, the full loaded catalog otherwise.
    pub open spec fn active_records(self) -> Seq<ObjectInfo> {
        if self.active_mask is Some {
            self.filtered_objects@
        } else {
            self.objects@
        }
    }

    /// The target set the targeting resolver computes: every filtered record
    /// while a mask is active; otherwise the selected record alone, or
    /// nothing when the selection is out of bounds.
    pub open spec fn target_records(self) -> Seq<ObjectInfo> {
        if self.active_mask is Some {
            self.filtered_objects@
        } else if self.selected_object < self.objects@.len() {
            seq![self.objects@[self.selected_object as int]]
        } else {
            Seq::empty()
        }
    }

    /// A fresh application state: empty catalog, no mask, browsing mode, the
    /// fixed region menu.
    pub fn new() -> (r: Self)
        ensures
            r.buckets@ == Seq::<BucketInfo>::empty(),
            r.all_buckets@ == Seq::<BucketInfo>::empty(),
            r.objects@ == Seq::<ObjectInfo>::empty(),
            r.filtered_objects@ == Seq::<ObjectInfo>::empty(),
            r.selected_bucket == 0,
            r.selected_object == 0,
            r.selected_region is None,
            r.available_regions@.len() == default_regions().len(),
            forall|i: int| 0 <= i < default_regions().len()
                ==> r.available_regions@[i]@ == #[trigger] default_regions()[i],
            r.status@.len() == 0,
            r.active_pane is Buckets,
            r.mode is Browsing,
            r.active_mask is None,
            r.pending_action is None,
            r.storage_class_cursor == 0,
            r.storage_intent is Transition,
            r.mask_field is Pattern,
            !r.pending_bucket_load,
            r.total_object_count is None,
            r.continuation_token is None,
            !r.is_loading_objects,
    {
        let mut available_regions: Vec<String> = Vec::new();
        available_regions.push("All Regions".to_owned());
        available_regions.push("us-east-1".to_owned());
        available_regions.push("us-east-2".to_owned());
        available_regions.push("us-west-1".to_owned());
        available_regions.push("us-west-2".to_owned());
        available_regions.push("eu-west-1".to_owned());
        available_regions.push("eu-west-2".to_owned());
        available_regions.push("eu-west-3".to_owned());
        available_regions.push("eu-central-1".to_owned());
        available_regions.push("ap-northeast-1".to_owned());
        available_regions.push("ap-northeast-2".to_owned());
        available_regions.push("ap-southeast-1".to_owned());
        available_regions.push("ap-southeast-2".to_owned());
        available_regions.push("ap-south-1".to_owned());
        available_regions.push("sa-east-1".to_owned());
        available_regions.push("ca-central-1".to_owned());
        App {
            buckets: Vec::new(),
            all_buckets: Vec::new(),
            objects: Vec::new(),
            filtered_objects: Vec::new(),
            selected_bucket: 0,
            selected_object: 0,
            selected_region: None,
            available_regions,
            status: VecDeque::new(),
            active_pane: ActivePane::Buckets,
            mode: AppMode::Browsing,
            mask_draft: MaskDraft::default(),
            active_mask: None,
            pending_action: None,
            storage_class_cursor: 0,
            storage_intent: StorageIntent::Transition,
            mask_field: MaskEditorField::Pattern,
            pending_bucket_load: false,
            total_object_count: None,
            continuation_token: None,
            is_loading_objects: false,
        }
    }

    /// Appends one entry to the bounded status log, evicting the oldest
    /// entry when the log is at capacity.
    pub fn push_status(&mut self, status: &str)
        ensures
            final(self).status_log() == ring_push(old(self).status_log(), status@),
            *final(self) == (App { status: final(self).status, ..*old(self) }),
    {
        if self.status.len() >= STATUS_LIMIT {
            self.status.pop_front();
        }
        self.status.push_back(status.to_owned());
        proof {
            assert(self.status_log() =~= ring_push(old(self).status_log(), status@));
        }
    }

    /// The name of the selected bucket, when the selection is in bounds.
    pub fn selected_bucket_name(&self) -> (r: Option<&str>)
        ensures
            match r {
                Some(s) => self.selected_bucket < self.buckets@.len()
                    && s@ == self.buckets@[self.selected_bucket as int].name@,
                None => self.selected_bucket >= self.buckets@.len(),
            },
    {
        if self.selected_bucket < self.buckets.len() {
            Some(self.buckets[self.selected_bucket].name.as_str())
        } else {
            None
        }
    }

    /// The record under the selection cursor in the active view, if any.
    pub fn selected_object(&self) -> (r: Option<&ObjectInfo>)
        ensures
            match r {
                Some(o) => self.selected_object < self.active_records().len()
                    && *o == self.active_records()[self.selected_object as int],
                None => self.selected_object >= self.active_records().len(),
            },
    {
        if self.active_mask.is_some() {
            if self.selected_object < self.filtered_objects.len() {
                Some(&self.filtered_objects[self.selected_object])
            } else {
                None
            }
        } else {
            if self.selected_object < self.objects.len() {
                Some(&self.objects[self.selected_object])
            } else {
                None
            }
        }
    }

    /// The records currently shown: the filtered view under a mask, the
    /// whole loaded catalog otherwise.
    pub fn active_objects(&self) -> (r: &[ObjectInfo])
        ensures
            r@ == self.active_records(),
    {
        if self.active_mask.is_some() {
            self.filtered_objects.as_slice()
        } else {
            self.objects.as_slice()
        }
    }

    /// Replaces the full bucket list and reapplies the region filter.
    pub fn set_buckets(&mut self, buckets: Vec<BucketInfo>)
        ensures
            final(self).all_buckets@ == buckets@,
            final(self).buckets@ == region_filtered(buckets@, old(self).selected_region),
            final(self).selected_bucket == 0,
            *final(self) == (App {
                buckets: final(self).buckets,
                all_buckets: final(self).all_buckets,
                selected_bucket: 0,
                ..*old(self)
            }),
    {
        self.all_buckets = buckets;
        self.apply_region_filter();
    }

    /// Recomputes the shown buckets from the full list and the selected
    /// region, and rewinds the bucket selection.
    pub fn apply_region_filter(&mut self)
        ensures
            final(self).buckets@ == region_filtered(old(self).all_buckets@, old(self).selected_region),
            final(self).selected_bucket == 0,
            *final(self) == (App {
                buckets: final(self).buckets,
                selected_bucket: 0,
                ..*old(self)
            }),
    {
        let filtered = match &self.selected_region {
            Some(region) => {
                if str_eq_str(region.as_str(), "All Regions") {
                    clone_buckets(&self.all_buckets)
                } else {
                    filter_buckets_by_region(&self.all_buckets, region)
                }
            }
            None => clone_buckets(&self.all_buckets),
        };
        self.buckets = filtered;
        self.selected_bucket = 0;
    }

    /// Selects a region filter (or `None` for all) and reapplies it.
    pub fn set_region(&mut self, region: Option<String>)
        ensures
            final(self).selected_region == region,
            final(self).buckets@ == region_filtered(old(self).all_buckets@, region),
            final(self).selected_bucket == 0,
            *final(self) == (App {
                selected_region: final(self).selected_region,
                buckets: final(self).buckets,
                selected_bucket: 0,
                ..*old(self)
            }),
    {
        self.selected_region = region;
        self.apply_region_filter();
    }

    /// The region shown in the header: the selected one, or the sentinel.
    pub fn get_current_region_display(&self) -> (r: String)
        ensures
            r@ == match self.selected_region {
                Some(region) => region@,
                None => "All Regions"@,
            },
    {
        match &self.selected_region {
            Some(region) => region.clone(),
            None => "All Regions".to_owned(),
        }
    }

    /// Replaces the loaded catalog wholesale, clearing the filtered view and
    /// rewinding the selection; the caller reapplies any active mask.
    pub fn set_objects(&mut self, objects: Vec<ObjectInfo>)
        ensures
            final(self).objects@ == objects@,
            final(self).filtered_objects@ == Seq::<ObjectInfo>::empty(),
            final(self).selected_object == 0,
            *final(self) == (App {
                objects: final(self).objects,
                filtered_objects: final(self).filtered_objects,
                selected_object: 0,
                ..*old(self)
            }),
    {
        self.objects = objects;
        self.filtered_objects = Vec::new();
        self.selected_object = 0;
    }

    /// Appends one fetched page to the catalog, re-sorting by key to keep
    /// the order invariant, and recomputes the filtered view if a mask is
    /// active.
    pub fn append_objects(&mut self, new_objects: Vec<ObjectInfo>)
        ensures
            final(self).objects@.to_multiset()
                == old(self).objects@.to_multiset().add(new_objects@.to_multiset()),
            keys_sorted(final(self).objects@),
            match old(self).active_mask {
                Some(m) => final(self).filtered_objects@
                    == final(self).objects@.filter(|o: ObjectInfo| mask_selects(m, o)),
                None => final(self).filtered_objects@ == old(self).filtered_objects@,
            },
            *final(self) == (App {
                objects: final(self).objects,
                filtered_objects: final(self).filtered_objects,
                ..*old(self)
            }),
    {
        let mut incoming = new_objects;
        proof {
            vstd::seq_lib::lemma_multiset_commutative(self.objects@, incoming@);
        }
        self.objects.append(&mut incoming);
        sort_records_by_key(&mut self.objects);
        let refiltered = match &self.active_mask {
            Some(m) => Some(filter_records(&self.objects, m)),
            None => None,
        };
        if let Some(f) = refiltered {
            self.filtered_objects = f;
        }
    }

    /// Replaces the first catalog record carrying `record`'s key with
    /// `record` (a refreshed copy from the remote store), recomputing the
    /// filtered view when a mask is active. A key the catalog does not
    /// hold changes no record.
    pub fn replace_object(&mut self, record: ObjectInfo)
        ensures
            ({
                let idx = first_key_index(old(self).objects@, record.key@);
                if idx < old(self).objects@.len() {
                    final(self).objects@ == old(self).objects@.update(idx, record)
                } else {
                    final(self).objects@ == old(self).objects@
                }
            }),
            match old(self).active_mask {
                Some(m) => final(self).filtered_objects@
                    == final(self).objects@.filter(|o: ObjectInfo| mask_selects(m, o)),
                None => final(self).filtered_objects@ == old(self).filtered_objects@,
            },
            *final(self) == (App {
                objects: final(self).objects,
                filtered_objects: final(self).filtered_objects,
                ..*old(self)
            }),
    {
        let found = find_object_index(&self.objects, record.key.as_str());
        if let Some(i) = found {
            let ghost pre = self.objects@;
            self.objects.remove(i);
            self.objects.insert(i, record);
            proof {
                assert(self.objects@ =~= pre.update(i as int, record));
            }
        }
        let refiltered = match &self.active_mask {
            Some(m) => Some(filter_records(&self.objects, m)),
            None => None,
        };
        if let Some(f) = refiltered {
            self.filtered_objects = f;
        }
    }

    /// Forgets everything loaded for the current container: records, the
    /// filtered view, the cursor, the total count and the loading flag.
    pub fn reset_pagination(&mut self)
        ensures
            final(self).objects@ == Seq::<ObjectInfo>::empty(),
            final(self).filtered_objects@ == Seq::<ObjectInfo>::empty(),
            final(self).total_object_count is None,
            final(self).continuation_token is None,
            !final(self).is_loading_objects,
            final(self).selected_object == 0,
            *final(self) == (App {
                objects: final(self).objects,
                filtered_objects: final(self).filtered_objects,
                total_object_count: None,
                continuation_token: None,
                is_loading_objects: false,
                selected_object: 0,
                ..*old(self)
            }),
    {
        self.objects = Vec::new();
        self.filtered_objects = Vec::new();
        self.total_object_count = None;
        self.continuation_token = None;
        self.is_loading_objects = false;
        self.selected_object = 0;
    }

    /// Does a continuation cursor remain, so that more pages exist?
    pub fn has_more_objects(&self) -> (r: bool)
        ensures
            r == (self.continuation_token is Some),
    {
        self.continuation_token.is_some()
    }

    /// The lazy-load trigger: another page should be fetched.
    pub open spec fn spec_should_load_more(self) -> bool {
        &&& !self.is_loading_objects
        &&& self.objects@.len() > 0
        &&& self.continuation_token is Some
        &&& {
            ||| (self.active_mask is Some && self.filtered_objects@.len() < SPARSE_MATCH_LIMIT)
            ||| self.selected_object + LOOK_AHEAD >= self.objects@.len()
        }
    }

    /// Should another page be fetched now? True exactly when no page is in
    /// flight, something is loaded, a cursor remains, and either an active
    /// mask still has few matches or the selection is within the look-ahead
    /// window of the loaded tail.
    pub fn should_load_more(&self) -> (r: bool)
        ensures
            r == self.spec_should_load_more(),
    {
        if self.is_loading_objects {
            return false;
        }
        let loaded = self.objects.len();
        if loaded == 0 {
            return false;
        }
        if self.continuation_token.is_none() {
            return false;
        }
        if self.active_mask.is_some() && self.filtered_objects.len() < SPARSE_MATCH_LIMIT {
            return true;
        }
        if loaded <= LOOK_AHEAD {
            true
        } else {
            self.selected_object >= loaded - LOOK_AHEAD
        }
    }

    /// Applies (or clears) the active mask, recomputing the filtered view
    /// from the full loaded catalog and reporting the match count.
    pub fn apply_mask(&mut self, mask: Option<ObjectMask>)
        ensures
            final(self).active_mask == mask,
            match mask {
                Some(m) => {
                    &&& final(self).filtered_objects@
                        == old(self).objects@.filter(|o: ObjectInfo| mask_selects(m, o))
                    &&& final(self).selected_object == 0
                    &&& final(self).status_log() == ring_push(
                        old(self).status_log(),
                        apply_mask_report(m, final(self).filtered_objects@.len() as nat),
                    )
                    &&& *final(self) == (App {
                        active_mask: final(self).active_mask,
                        filtered_objects: final(self).filtered_objects,
                        selected_object: 0,
                        status: final(self).status,
                        ..*old(self)
                    })
                },
                None => {
                    &&& final(self).filtered_objects@ == Seq::<ObjectInfo>::empty()
                    &&& final(self).status_log() == ring_push(
                        old(self).status_log(),
                        "Cleared mask filter"@,
                    )
                    &&& *final(self) == (App {
                        active_mask: None,
                        filtered_objects: final(self).filtered_objects,
                        status: final(self).status,
                        ..*old(self)
                    })
                },
            },
    {
        match mask {
            Some(m) => {
                let filtered = filter_records(&self.objects, &m);
                let count = filtered.len();
                let msg = if count == 0 {
                    "Mask applied but matched no objects".to_owned()
                } else {
                    let mut s = "Mask '".to_owned();
                    s.append(m.name.as_str());
                    s.append("' matched ");
                    let rendered = crate::text::usize_to_string(count);
                    s.append(rendered.as_str());
                    s.append(" objects");
                    s
                };
                proof {
                    assert(msg@ =~= apply_mask_report(m, count as nat));
                }
                self.filtered_objects = filtered;
                self.selected_object = 0;
                self.active_mask = Some(m);
                self.push_status(msg.as_str());
            }
            None => {
                self.active_mask = None;
                self.filtered_objects = Vec::new();
                self.push_status("Cleared mask filter");
            }
        }
    }

    /// Moves pane focus forward.
    pub fn next_pane(&mut self)
        ensures
            final(self).active_pane == match old(self).active_pane {
                ActivePane::Buckets => ActivePane::Objects,
                ActivePane::Objects => ActivePane::Buckets,
                ActivePane::MaskEditor => ActivePane::Buckets,
            },
            *final(self) == (App { active_pane: final(self).active_pane, ..*old(self) }),
    {
        self.active_pane = match self.active_pane {
            ActivePane::Buckets => ActivePane::Objects,
            ActivePane::Objects => ActivePane::Buckets,
            ActivePane::MaskEditor => ActivePane::Buckets,
        };
    }

    /// Moves pane focus backward (the two panes alternate).
    pub fn previous_pane(&mut self)
        ensures
            final(self).active_pane == match old(self).active_pane {
                ActivePane::Buckets => ActivePane::Objects,
                ActivePane::Objects => ActivePane::Buckets,
                ActivePane::MaskEditor => ActivePane::Buckets,
            },
            *final(self) == (App { active_pane: final(self).active_pane, ..*old(self) }),
    {
        self.active_pane = match self.active_pane {
            ActivePane::Buckets => ActivePane::Objects,
            ActivePane::Objects => ActivePane::Buckets,
            ActivePane::MaskEditor => ActivePane::Buckets,
        };
    }

    /// Advances the draft's kind one step in the fixed circular order
    /// Prefix, Suffix, Contains, Regex.
    pub fn cycle_mask_kind(&mut self)
        ensures
            final(self).mask_draft.kind == match old(self).mask_draft.kind {
                MaskKind::Prefix => MaskKind::Suffix,
                MaskKind::Suffix => MaskKind::Contains,
                MaskKind::Contains => MaskKind::Regex,
                MaskKind::Regex => MaskKind::Prefix,
            },
            final(self).mask_draft == (MaskDraft {
                kind: final(self).mask_draft.kind,
                ..old(self).mask_draft
            }),
            *final(self) == (App { mask_draft: final(self).mask_draft, ..*old(self) }),
    {
        self.mask_draft.kind = match self.mask_draft.kind {
            MaskKind::Prefix => MaskKind::Suffix,
            MaskKind::Suffix => MaskKind::Contains,
            MaskKind::Contains => MaskKind::Regex,
            MaskKind::Regex => MaskKind::Prefix,
        };
    }

    /// Steps the draft's kind backward around the same circle.
    pub fn cycle_mask_kind_backwards(&mut self)
        ensures
            final(self).mask_draft.kind == match old(self).mask_draft.kind {
                MaskKind::Prefix => MaskKind::Regex,
                MaskKind::Suffix => MaskKind::Prefix,
                MaskKind::Contains => MaskKind::Suffix,
                MaskKind::Regex => MaskKind::Contains,
            },
            final(self).mask_draft == (MaskDraft {
                kind: final(self).mask_draft.kind,
                ..old(self).mask_draft
            }),
            *final(self) == (App { mask_draft: final(self).mask_draft, ..*old(self) }),
    {
        self.mask_draft.kind = match self.mask_draft.kind {
            MaskKind::Prefix => MaskKind::Regex,
            MaskKind::Suffix => MaskKind::Prefix,
            MaskKind::Contains => MaskKind::Suffix,
            MaskKind::Regex => MaskKind::Contains,
        };
    }

    /// Toggles the draft's case sensitivity.
    pub fn toggle_mask_case(&mut self)
        ensures
            final(self).mask_draft.case_sensitive == !old(self).mask_draft.case_sensitive,
            final(self).mask_draft == (MaskDraft {
                case_sensitive: final(self).mask_draft.case_sensitive,
                ..old(self).mask_draft
            }),
            *final(self) == (App { mask_draft: final(self).mask_draft, ..*old(self) }),
    {
        self.mask_draft.case_sensitive = !self.mask_draft.case_sensitive;
    }

    /// Switches the modal state.
    pub fn set_mode(&mut self, mode: AppMode)
        ensures
            final(self).mode == mode,
            *final(self) == (App { mode: mode, ..*old(self) }),
    {
        self.mode = mode;
    }

    /// Gives a mask-editor field the focus.
    pub fn focus_mask_field(&mut self, field: MaskEditorField)
        ensures
            final(self).mask_field == field,
            *final(self) == (App { mask_field: field, ..*old(self) }),
    {
        self.mask_field = field;
    }

    /// Moves editor focus to the next field.
    pub fn next_mask_field(&mut self)
        ensures
            final(self).mask_field == match old(self).mask_field {
                MaskEditorField::Pattern => MaskEditorField::Mode,
                MaskEditorField::Mode => MaskEditorField::Case,
                MaskEditorField::Case => MaskEditorField::StorageClass,
                MaskEditorField::StorageClass => MaskEditorField::Pattern,
            },
            *final(self) == (App { mask_field: final(self).mask_field, ..*old(self) }),
    {
        self.mask_field = self.mask_field.next();
    }

    /// Moves editor focus to the previous field.
    pub fn previous_mask_field(&mut self)
        ensures
            final(self).mask_field == match old(self).mask_field {
                MaskEditorField::Pattern => MaskEditorField::StorageClass,
                MaskEditorField::Mode => MaskEditorField::Pattern,
                MaskEditorField::Case => MaskEditorField::Mode,
                MaskEditorField::StorageClass => MaskEditorField::Case,
            },
            *final(self) == (App { mask_field: final(self).mask_field, ..*old(self) }),
    {
        self.mask_field = self.mask_field.previous();
    }

    /// Does any object of the target set still need a restore? Consulted as
    /// the admission gate before a transition.
    pub fn any_targets_need_restoration(&self) -> (r: bool)
        ensures
            r == exists|i: int| 0 <= i < self.target_records().len()
                && spec_needs_restore(#[trigger] self.target_records()[i]),
    {
        if self.active_mask.is_some() {
            let mut i: usize = 0;
            while i < self.filtered_objects.len()
                invariant
                    self.active_mask is Some,
                    i <= self.filtered_objects@.len(),
                    forall|j: int| 0 <= j < i
                        ==> !spec_needs_restore(#[trigger] self.filtered_objects@[j]),
                decreases self.filtered_objects@.len() - i,
            {
                if crate::models::needs_restore(&self.filtered_objects[i]) {
                    proof {
                        assert(spec_needs_restore(self.target_records()[i as int]));
                    }
                    return true;
                }
                i += 1;
            }
            false
        } else if self.selected_object < self.objects.len() {
            let r = crate::models::needs_restore(&self.objects[self.selected_object]);
            proof {
                if r {
                    assert(spec_needs_restore(self.target_records()[0]));
                } else {
                    assert(forall|i: int| 0 <= i < self.target_records().len()
                        ==> !spec_needs_restore(#[trigger] self.target_records()[i]));
                }
            }
            r
        } else {
            false
        }
    }

    /// How many objects of the target set need a restore before they can be
    /// transitioned.
    pub fn count_objects_needing_restore(&self) -> (r: usize)
        ensures
            r == self.target_records().filter(|o: ObjectInfo| spec_needs_restore(o)).len(),
    {
        if self.active_mask.is_some() {
            count_needing_restore(&self.filtered_objects)
        } else if self.selected_object < self.objects.len() {
            proof {
                reveal_with_fuel(Seq::filter, 2);
            }
            if crate::models::needs_restore(&self.objects[self.selected_object]) {
                1
            } else {
                0
            }
        } else {
            proof {
                reveal_with_fuel(Seq::filter, 1);
            }
            0
        }
    }

    /// How many objects of the target set are already being restored.
    pub fn count_objects_restoring(&self) -> (r: usize)
        ensures
            r == self.target_records().filter(|o: ObjectInfo| spec_is_restoring(o)).len(),
    {
        if self.active_mask.is_some() {
            count_restoring(&self.filtered_objects)
        } else if self.selected_object < self.objects.len() {
            proof {
                reveal_with_fuel(Seq::filter, 2);
            }
            if crate::models::is_restoring(&self.objects[self.selected_object]) {
                1
            } else {
                0
            }
        } else {
            proof {
                reveal_with_fuel(Seq::filter, 1);
            }
            0
        }
    }
}

/// Counts the records that need a restore.
fn count_needing_restore(records: &Vec<ObjectInfo>) -> (r: usize)
    ensures
        r == records@.filter(|o: ObjectInfo| spec_needs_restore(o)).len(),
{
    let mut count: usize = 0;
    let mut i: usize = 0;
    while i < records.len()
        invariant
            i <= records@.len(),
            count == records@.take(i as int).filter(|o: ObjectInfo| spec_needs_restore(o)).len(),
        decreases records@.len() - i,
    {
        proof {
            records@.take(i as int + 1).lemma_filter_len(|o: ObjectInfo| spec_needs_restore(o));
        }
        if crate::models::needs_restore(&records[i]) {
            count += 1;
        }
        i += 1;
    }
    proof {
        assert(records@.take(records@.len() as int) =~= records@);
    }
    count
}

/// Counts the records whose restore is in progress.
fn count_restoring(records: &Vec<ObjectInfo>) -> (r: usize)
    ensures
        r == records@.filter(|o: ObjectInfo| spec_is_restoring(o)).len(),
{
    let mut count: usize = 0;
    let mut i: usize = 0;
    while i < records.len()
        invariant
            i <= records@.len(),
            count == records@.take(i as int).filter(|o: ObjectInfo| spec_is_restoring(o)).len(),
        decreases records@.len() - i,
    {
        proof {
            records@.take(i as int + 1).lemma_filter_len(|o: ObjectInfo| spec_is_restoring(o));
        }
        if crate::models::is_restoring(&records[i]) {
            count += 1;
        }
        i += 1;
    }
    proof {
        assert(records@.take(records@.len() as int) =~= records@);
    }
    count
}

/// The status line reported when a mask is applied.
pub open spec fn apply_mask_report(m: ObjectMask, count: nat) -> Seq<char> {
    if count == 0 {
        "Mask applied but matched no objects"@
    } else {
        "Mask '"@ + m.name@ + "' matched "@ + crate::text::dec_str_of(count) + " objects"@
    }
}

/// How many objects the next bulk operation would act on: the sole
/// authority both the executor and the presentation layer consult, so the
/// displayed and the executed target sets never diverge.
pub fn target_count(app: &App) -> (r: usize)
    ensures
        r == app.target_records().len(),
{
    if app.active_mask.is_some() {
        app.filtered_objects.len()
    } else if app.selected_object < app.objects.len() {
        1
    } else {
        0
    }
}

/// The index of the first record carrying `key`; the catalog's length when
/// none does.
pub open spec fn first_key_index(records: Seq<ObjectInfo>, key: Seq<char>) -> int
    decreases records.len(),
{
    if records.len() == 0 {
        0
    } else if records[0].key@ == key {
        0
    } else {
        1 + first_key_index(records.drop_first(), key)
    }
}

proof fn lemma_first_key_skip(records: Seq<ObjectInfo>, key: Seq<char>, i: int)
    requires
        0 <= i <= records.len(),
        forall|j: int| 0 <= j < i ==> (#[trigger] records[j]).key@ != key,
    ensures
        first_key_index(records, key) == i + first_key_index(records.skip(i), key),
    decreases i,
{
    if i > 0 {
        lemma_first_key_skip(records.drop_first(), key, i - 1);
        assert(records.skip(i) =~= records.drop_first().skip(i - 1));
    } else {
        assert(records.skip(0) =~= records);
    }
}

/// The index of the first record carrying `key`, if the catalog holds one.
fn find_object_index(records: &Vec<ObjectInfo>, key: &str) -> (r: Option<usize>)
    ensures
        match r {
            Some(i) => i < records@.len() && first_key_index(records@, key@) == i
                && records@[i as int].key@ == key@,
            None => first_key_index(records@, key@) == records@.len(),
        },
{
    let mut i: usize = 0;
    while i < records.len()
        invariant
            i <= records@.len(),
            forall|j: int| 0 <= j < i ==> (#[trigger] records@[j]).key@ != key@,
        decreases records@.len() - i,
    {
        if str_eq_str(records[i].key.as_str(), key) {
            proof {
                lemma_first_key_skip(records@, key@, i as int);
                assert(records@.skip(i as int)[0] == records@[i as int]);
            }
            return Some(i);
        }
        i += 1;
    }
    proof {
        lemma_first_key_skip(records@, key@, records@.len() as int);
        assert(records@.skip(records@.len() as int) =~= Seq::<ObjectInfo>::empty());
    }
    None
}

/// Where a selection lands after moving by `delta` and clamping to
/// `[0, len)`.
pub open spec fn clamped_move(cur: int, delta: int, len: int) -> int {
    let raw = cur + delta;
    if raw < 0 {
        0
    } else if raw >= len {
        len - 1
    } else {
        raw
    }
}

/// Steps an index by `delta`, clamped to the bounds of a nonempty list.
fn step_index(cur: usize, delta: isize, len: usize) -> (r: usize)
    requires
        len > 0,
    ensures
        r as int == clamped_move(cur as int, delta as int, len as int),
{
    let c = cur as i128;
    let d = delta as i128;
    let l = len as i128;
    let raw = c + d;
    let idx = if raw < 0 {
        0
    } else if raw >= l {
        l - 1
    } else {
        raw
    };
    idx as usize
}

/// Moves the selection in the focused pane by `delta`, clamped to the pane's
/// list. A bucket change schedules a (debounced) object load.
pub fn move_selection(app: &mut App, delta: isize)
    ensures
        match old(app).active_pane {
            ActivePane::Buckets => {
                if old(app).buckets@.len() == 0 {
                    *final(app) == *old(app)
                } else {
                    let target = clamped_move(
                        old(app).selected_bucket as int,
                        delta as int,
                        old(app).buckets@.len() as int,
                    );
                    if target == old(app).selected_bucket {
                        *final(app) == *old(app)
                    } else {
                        final(app).selected_bucket == target
                            && final(app).pending_bucket_load
                            && *final(app) == (App {
                                selected_bucket: final(app).selected_bucket,
                                pending_bucket_load: true,
                                ..*old(app)
                            })
                    }
                }
            },
            ActivePane::Objects => {
                if old(app).active_records().len() == 0 {
                    *final(app) == *old(app)
                } else {
                    final(app).selected_object == clamped_move(
                        old(app).selected_object as int,
                        delta as int,
                        old(app).active_records().len() as int,
                    ) && *final(app) == (App {
                        selected_object: final(app).selected_object,
                        ..*old(app)
                    })
                }
            },
            ActivePane::MaskEditor => *final(app) == *old(app),
        },
{
    match app.active_pane {
        ActivePane::Buckets => {
            let len = app.buckets.len();
            if len == 0 {
                return;
            }
            let target = step_index(app.selected_bucket, delta, len);
            if target != app.selected_bucket {
                app.selected_bucket = target;
                app.pending_bucket_load = true;
            }
        }
        ActivePane::Objects => {
            let len = if app.active_mask.is_some() {
                app.filtered_objects.len()
            } else {
                app.objects.len()
            };
            if len == 0 {
                return;
            }
            app.selected_object = step_index(app.selected_object, delta, len);
        }
        ActivePane::MaskEditor => {}
    }
}

/// Jumps the selection in the focused pane to the first (`start`) or last
/// entry. A bucket change schedules a (debounced) object load.
pub fn jump_selection(app: &mut App, start: bool)
    ensures
        match old(app).active_pane {
            ActivePane::Buckets => {
                if old(app).buckets@.len() == 0 {
                    *final(app) == *old(app)
                } else {
                    let target: int = if start { 0 } else { old(app).buckets@.len() - 1 };
                    if target == old(app).selected_bucket {
                        *final(app) == *old(app)
                    } else {
                        final(app).selected_bucket == target
                            && final(app).pending_bucket_load
                            && *final(app) == (App {
                                selected_bucket: final(app).selected_bucket,
                                pending_bucket_load: true,
                                ..*old(app)
                            })
                    }
                }
            },
            ActivePane::Objects => {
                if old(app).active_records().len() == 0 {
                    *final(app) == *old(app)
                } else {
                    final(app).selected_object
                        == (if start { 0int } else { old(app).active_records().len() - 1 })
                        && *final(app) == (App {
                            selected_object: final(app).selected_object,
                            ..*old(app)
                        })
                }
            },
            ActivePane::MaskEditor => *final(app) == *old(app),
        },
{
    match app.active_pane {
        ActivePane::Buckets => {
            let len = app.buckets.len();
            if len == 0 {
                return;
            }
            let target: usize = if start { 0 } else { len - 1 };
            if target != app.selected_bucket {
                app.selected_bucket = target;
                app.pending_bucket_load = true;
            }
        }
        ActivePane::Objects => {
            let len = if app.active_mask.is_some() {
                app.filtered_objects.len()
            } else {
                app.objects.len()
            };
            if len == 0 {
                return;
            }
            app.selected_object = if start { 0 } else { len - 1 };
        }
        ActivePane::MaskEditor => {}
    }
}

/// The index of the first region whose text is `name`; the list's length
/// when none matches.
pub open spec fn first_region_index(regions: Seq<String>, name: Seq<char>) -> int
    decreases regions.len(),
{
    if regions.len() == 0 {
        0
    } else if regions[0]@ == name {
        0
    } else {
        1 + first_region_index(regions.drop_first(), name)
    }
}

proof fn lemma_first_region_skip(regions: Seq<String>, name: Seq<char>, i: int)
    requires
        0 <= i <= regions.len(),
        forall|j: int| 0 <= j < i ==> regions[j]@ != name,
    ensures
        first_region_index(regions, name) == i + first_region_index(regions.skip(i), name),
    decreases i,
{
    if i > 0 {
        lemma_first_region_skip(regions.drop_first(), name, i - 1);
        assert(regions.skip(i) =~= regions.drop_first().skip(i - 1));
    } else {
        assert(regions.skip(0) =~= regions);
    }
}

/// The index of the first region named `name`, or `None`.
fn find_region(regions: &Vec<String>, name: &str) -> (r: Option<usize>)
    ensures
        match r {
            Some(i) => i < regions@.len() && first_region_index(regions@, name@) == i
                && regions@[i as int]@ == name@,
            None => first_region_index(regions@, name@) == regions@.len(),
        },
{
    let mut i: usize = 0;
    while i < regions.len()
        invariant
            i <= regions@.len(),
            forall|j: int| 0 <= j < i ==> regions@[j]@ != name@,
        decreases regions@.len() - i,
    {
        if str_eq_str(regions[i].as_str(), name) {
            proof {
                lemma_first_region_skip(regions@, name@, i as int);
                assert(regions@.skip(i as int)[0] == regions@[i as int]);
            }
            return Some(i);
        }
        i += 1;
    }
    proof {
        lemma_first_region_skip(regions@, name@, regions@.len() as int);
        assert(regions@.skip(regions@.len() as int) =~= Seq::<String>::empty());
    }
    None
}

/// Steps `cur` by `delta` around a cycle of length `len` (the Euclidean
/// remainder, always in bounds).
fn wrap_index(cur: usize, delta: isize, len: usize) -> (r: usize)
    requires
        len > 0,
        cur < len,
    ensures
        r < len,
        r as int == (cur as int + delta as int) % (len as int),
{
    let l = len;
    let steps: usize = if delta >= 0 {
        (delta as usize) % l
    } else {
        let mag = (-(delta as i128)) as usize;
        let m = mag % l;
        if m == 0 {
            0
        } else {
            l - m
        }
    };
    proof {
        let li = len as int;
        let di = delta as int;
        if delta < 0 {
            let mag = -di;
            let q = mag / li;
            let m = mag % li;
            vstd::arithmetic::div_mod::lemma_fundamental_div_mod(mag, li);
            assert(0 <= m < li) by (nonlinear_arith)
                requires li > 0, m == mag % li;
            if m == 0 {
                vstd::arithmetic::div_mod::lemma_mod_multiples_vanish(-q, 0, li);
                vstd::arithmetic::div_mod::lemma_small_mod(0, len as nat);
                assert(di == li * (-q) + 0) by (nonlinear_arith)
                    requires mag == li * q + m, m == 0, di == -mag;
            } else {
                vstd::arithmetic::div_mod::lemma_mod_multiples_vanish(-q - 1, li - m, li);
                vstd::arithmetic::div_mod::lemma_small_mod((li - m) as nat, len as nat);
                assert(di == li * (-q - 1) + (li - m)) by (nonlinear_arith)
                    requires mag == li * q + m, di == -mag;
            }
        }
        assert(steps as int == di % li);
        vstd::arithmetic::div_mod::lemma_small_mod(cur as nat, len as nat);
        vstd::arithmetic::div_mod::lemma_add_mod_noop(cur as int, di, li);
    }
    let c128 = cur as i128;
    let s128 = steps as i128;
    let l128 = l as i128;
    let idx = (c128 + s128) % l128;
    proof {
        assert(0 <= (c128 + s128) as int % (l128 as int) < l128 as int) by (nonlinear_arith)
            requires l128 > 0;
    }
    idx as usize
}

/// The region name that cycling by `delta` lands on: starting from the
/// currently displayed region (or the top when it is not in the menu), step
/// `delta` entries around the menu.
pub open spec fn cycled_region(app: App, delta: int) -> Seq<char> {
    let regions = app.available_regions@;
    let shown = match app.selected_region {
        Some(region) => region@,
        None => "All Regions"@,
    };
    let found = first_region_index(regions, shown);
    let cur: int = if found >= regions.len() { 0 } else { found };
    let idx = (cur + delta) % (regions.len() as int);
    regions[idx]@
}

/// Cycles the region filter by `delta` around the fixed menu, reapplies the
/// bucket filter, gives the bucket pane focus, and reports the new filter.
pub fn cycle_region(app: &mut App, delta: isize)
    requires
        old(app).available_regions@.len() > 0,
    ensures
        ({
            let name = cycled_region(*old(app), delta as int);
            &&& (match final(app).selected_region {
                Some(region) => name != "All Regions"@ && region@ == name,
                None => name == "All Regions"@,
            })
            &&& final(app).buckets@
                == region_filtered(old(app).all_buckets@, final(app).selected_region)
            &&& final(app).selected_bucket == 0
            &&& final(app).active_pane is Buckets
            &&& final(app).status_log() == ring_push(old(app).status_log(), "Region filter: "@ + name)
            &&& final(app).available_regions == old(app).available_regions
            &&& *final(app) == (App {
                selected_region: final(app).selected_region,
                buckets: final(app).buckets,
                selected_bucket: 0,
                active_pane: ActivePane::Buckets,
                status: final(app).status,
                ..*old(app)
            })
        }),
{
    let shown = app.get_current_region_display();
    let cur: usize = match find_region(&app.available_regions, shown.as_str()) {
        Some(i) => i,
        None => 0,
    };
    let len = app.available_regions.len();
    let idx = wrap_index(cur, delta, len);
    let name = app.available_regions[idx].clone();
    let region_to_set = if str_eq_str(name.as_str(), "All Regions") {
        None
    } else {
        Some(name.clone())
    };
    app.set_region(region_to_set);
    app.active_pane = ActivePane::Buckets;
    let mut msg = "Region filter: ".to_owned();
    msg.append(name.as_str());
    app.push_status(msg.as_str());
}

/// The keys of the target set, in catalog order.
pub fn target_keys(app: &App) -> (r: Vec<String>)
    ensures
        r@.len() == app.target_records().len(),
        forall|i: int| 0 <= i < r@.len() ==> r@[i]@ == app.target_records()[i].key@,
{
    let mut r: Vec<String> = Vec::new();
    if app.active_mask.is_some() {
        let mut i: usize = 0;
        while i < app.filtered_objects.len()
            invariant
                app.active_mask is Some,
                i <= app.filtered_objects@.len(),
                r@.len() == i,
                forall|j: int| 0 <= j < i ==> r@[j]@ == app.filtered_objects@[j].key@,
            decreases app.filtered_objects@.len() - i,
        {
            r.push(app.filtered_objects[i].key.clone());
            i += 1;
        }
    } else if app.selected_object < app.objects.len() {
        r.push(app.objects[app.selected_object].key.clone());
    }
    r
}

} // verus!
