//! Core data model: storage tiers, restore lifecycle states, object and
//! bucket records, and the restore-eligibility classifier.

use vstd::prelude::*;

verus! {

/// Closed enumeration of storage tiers. `Unknown` preserves the raw label of
/// a tier this client does not recognise.
#[derive(Debug)]
pub enum StorageClassTier {
    Standard,
    IntelligentTiering,
    StandardIa,
    OneZoneIa,
    GlacierInstantRetrieval,
    GlacierFlexibleRetrieval,
    GlacierDeepArchive,
    ReducedRedundancy,
    Unknown(String),
}

/// Mathematical equality of two tiers: same variant, and for `Unknown` the
/// same label characters.
pub open spec fn tier_eq(a: StorageClassTier, b: StorageClassTier) -> bool {
    match a {
        StorageClassTier::Standard => b is Standard,
        StorageClassTier::IntelligentTiering => b is IntelligentTiering,
        StorageClassTier::StandardIa => b is StandardIa,
        StorageClassTier::OneZoneIa => b is OneZoneIa,
        StorageClassTier::GlacierInstantRetrieval => b is GlacierInstantRetrieval,
        StorageClassTier::GlacierFlexibleRetrieval => b is GlacierFlexibleRetrieval,
        StorageClassTier::GlacierDeepArchive => b is GlacierDeepArchive,
        StorageClassTier::ReducedRedundancy => b is ReducedRedundancy,
        StorageClassTier::Unknown(la) => b is Unknown && la@ == b->0@,
    }
}

impl StorageClassTier {
    /// Executable tier equality, matching `tier_eq`.
    pub fn same_tier(&self, other: &StorageClassTier) -> (r: bool)
        ensures
            r == tier_eq(*self, *other),
    {
        match self {
            StorageClassTier::Standard => matches!(other, StorageClassTier::Standard),
            StorageClassTier::IntelligentTiering => matches!(other, StorageClassTier::IntelligentTiering),
            StorageClassTier::StandardIa => matches!(other, StorageClassTier::StandardIa),
            StorageClassTier::OneZoneIa => matches!(other, StorageClassTier::OneZoneIa),
            StorageClassTier::GlacierInstantRetrieval => matches!(other, StorageClassTier::GlacierInstantRetrieval),
            StorageClassTier::GlacierFlexibleRetrieval => matches!(other, StorageClassTier::GlacierFlexibleRetrieval),
            StorageClassTier::GlacierDeepArchive => matches!(other, StorageClassTier::GlacierDeepArchive),
            StorageClassTier::ReducedRedundancy => matches!(other, StorageClassTier::ReducedRedundancy),
            StorageClassTier::Unknown(la) => match other {
                StorageClassTier::Unknown(lb) => *la == *lb,
                _ => false,
            },
        }
    }

    /// The label shown for this tier, as the remote store spells it.
    pub fn label(&self) -> (r: &str)
        ensures
            r@ == spec_label(*self),
    {
        match self {
            StorageClassTier::Standard => "STANDARD",
            StorageClassTier::IntelligentTiering => "INTELLIGENT_TIERING",
            StorageClassTier::StandardIa => "STANDARD_IA",
            StorageClassTier::OneZoneIa => "ONEZONE_IA",
            StorageClassTier::GlacierInstantRetrieval => "GLACIER_IR",
            StorageClassTier::GlacierFlexibleRetrieval => "GLACIER",
            StorageClassTier::GlacierDeepArchive => "DEEP_ARCHIVE",
            StorageClassTier::ReducedRedundancy => "REDUCED_REDUNDANCY",
            StorageClassTier::Unknown(label) => label.as_str(),
        }
    }

    /// The tiers a user may pick as a migration target, in menu order.
    pub fn selectable() -> (r: Vec<StorageClassTier>)
        ensures
            r@ =~= selectable_tiers(),
    {
        let mut v: Vec<StorageClassTier> = Vec::new();
        v.push(StorageClassTier::Standard);
        v.push(StorageClassTier::IntelligentTiering);
        v.push(StorageClassTier::StandardIa);
        v.push(StorageClassTier::OneZoneIa);
        v.push(StorageClassTier::GlacierInstantRetrieval);
        v.push(StorageClassTier::GlacierFlexibleRetrieval);
        v.push(StorageClassTier::GlacierDeepArchive);
        v
    }
}

impl Clone for StorageClassTier {
    fn clone(&self) -> (r: Self)
        ensures
            r == *self,
    {
        match self {
            StorageClassTier::Standard => StorageClassTier::Standard,
            StorageClassTier::IntelligentTiering => StorageClassTier::IntelligentTiering,
            StorageClassTier::StandardIa => StorageClassTier::StandardIa,
            StorageClassTier::OneZoneIa => StorageClassTier::OneZoneIa,
            StorageClassTier::GlacierInstantRetrieval => StorageClassTier::GlacierInstantRetrieval,
            StorageClassTier::GlacierFlexibleRetrieval => StorageClassTier::GlacierFlexibleRetrieval,
            StorageClassTier::GlacierDeepArchive => StorageClassTier::GlacierDeepArchive,
            StorageClassTier::ReducedRedundancy => StorageClassTier::ReducedRedundancy,
            StorageClassTier::Unknown(label) => StorageClassTier::Unknown(label.clone()),
        }
    }
}

/// The label of each tier; `Unknown` keeps its raw label.
pub open spec fn spec_label(t: StorageClassTier) -> Seq<char> {
    match t {
        StorageClassTier::Standard => "STANDARD"@,
        StorageClassTier::IntelligentTiering => "INTELLIGENT_TIERING"@,
        StorageClassTier::StandardIa => "STANDARD_IA"@,
        StorageClassTier::OneZoneIa => "ONEZONE_IA"@,
        StorageClassTier::GlacierInstantRetrieval => "GLACIER_IR"@,
        StorageClassTier::GlacierFlexibleRetrieval => "GLACIER"@,
        StorageClassTier::GlacierDeepArchive => "DEEP_ARCHIVE"@,
        StorageClassTier::ReducedRedundancy => "REDUCED_REDUNDANCY"@,
        StorageClassTier::Unknown(label) => label@,
    }
}

/// The menu of target tiers offered for a transition.
pub open spec fn selectable_tiers() -> Seq<StorageClassTier> {
    seq![
        StorageClassTier::Standard,
        StorageClassTier::IntelligentTiering,
        StorageClassTier::StandardIa,
        StorageClassTier::OneZoneIa,
        StorageClassTier::GlacierInstantRetrieval,
        StorageClassTier::GlacierFlexibleRetrieval,
        StorageClassTier::GlacierDeepArchive,
    ]
}

/// Restore lifecycle of one object, as last reported or optimistically set.
/// Absent state (`None` at the use sites) means unknown / never requested.
#[derive(Debug)]
pub enum RestoreState {
    Available,
    InProgress { expiry: Option<String> },
    Expired,
}

/// Clones an optional string, keeping its value.
pub fn clone_opt_string(s: &Option<String>) -> (r: Option<String>)
    ensures
        r == *s,
{
    match s {
        Some(v) => Some(v.clone()),
        None => None,
    }
}

impl Clone for RestoreState {
    fn clone(&self) -> (r: Self)
        ensures
            r == *self,
    {
        match self {
            RestoreState::Available => RestoreState::Available,
            RestoreState::InProgress { expiry } => RestoreState::InProgress {
                expiry: clone_opt_string(expiry),
            },
            RestoreState::Expired => RestoreState::Expired,
        }
    }
}

/// One object of the remote listing, as the catalog holds it.
#[derive(Debug)]
pub struct ObjectInfo {
    pub key: String,
    pub size: i64,
    pub last_modified: Option<String>,
    pub storage_class: StorageClassTier,
    pub restore_state: Option<RestoreState>,
}

impl Clone for ObjectInfo {
    fn clone(&self) -> (r: Self)
        ensures
            r == *self,
    {
        ObjectInfo {
            key: self.key.clone(),
            size: self.size,
            last_modified: clone_opt_string(&self.last_modified),
            storage_class: self.storage_class.clone(),
            restore_state: match &self.restore_state {
                Some(rs) => Some(rs.clone()),
                None => None,
            },
        }
    }
}

/// One container of the remote store.
#[derive(Debug)]
pub struct BucketInfo {
    pub name: String,
    pub region: Option<String>,
    pub creation_date: Option<String>,
}

impl Clone for BucketInfo {
    fn clone(&self) -> (r: Self)
        ensures
            r == *self,
    {
        BucketInfo {
            name: self.name.clone(),
            region: clone_opt_string(&self.region),
            creation_date: clone_opt_string(&self.creation_date),
        }
    }
}

/// A restore request this client has issued, with its last known status.
#[derive(Debug)]
pub struct TrackedRestoreRequest {
    pub bucket: String,
    pub key: String,
    pub requested_at: String,
    pub days: i32,
    pub current_status: RestoreState,
}

impl Clone for TrackedRestoreRequest {
    fn clone(&self) -> (r: Self)
        ensures
            r == *self,
    {
        TrackedRestoreRequest {
            bucket: self.bucket.clone(),
            key: self.key.clone(),
            requested_at: self.requested_at.clone(),
            days: self.days,
            current_status: self.current_status.clone(),
        }
    }
}

/// The archive tiers: the only tiers whose objects must be restored before
/// they can be read.
pub open spec fn is_archive_tier(t: StorageClassTier) -> bool {
    t is GlacierFlexibleRetrieval || t is GlacierDeepArchive
}

/// A restore state that already grants or promises read access.
pub open spec fn restore_covered(rs: Option<RestoreState>) -> bool {
    match rs {
        Some(RestoreState::Available) => true,
        Some(RestoreState::InProgress { .. }) => true,
        _ => false,
    }
}

/// An object needs a restore before it can be read or transitioned: it sits
/// in an archive tier and is neither available nor already being restored.
pub open spec fn spec_needs_restore(o: ObjectInfo) -> bool {
    is_archive_tier(o.storage_class) && !restore_covered(o.restore_state)
}

/// An object counts as restoring whenever its state says so, whatever its
/// tier claims.
pub open spec fn spec_is_restoring(o: ObjectInfo) -> bool {
    o.restore_state matches Some(RestoreState::InProgress { .. })
}

/// Lifecycle classifier: must this object be restored before read access?
pub fn needs_restore(o: &ObjectInfo) -> (r: bool)
    ensures
        r == spec_needs_restore(*o),
{
    let archived = matches!(
        o.storage_class,
        StorageClassTier::GlacierFlexibleRetrieval | StorageClassTier::GlacierDeepArchive
    );
    let covered = matches!(
        o.restore_state,
        Some(RestoreState::Available) | Some(RestoreState::InProgress { .. })
    );
    archived && !covered
}

/// Lifecycle classifier: is a restore currently in progress for this object?
pub fn is_restoring(o: &ObjectInfo) -> (r: bool)
    ensures
        r == spec_is_restoring(*o),
{
    matches!(o.restore_state, Some(RestoreState::InProgress { .. }))
}

/// The object's last reported state is `Available`.
pub open spec fn spec_is_available(o: ObjectInfo) -> bool {
    o.restore_state matches Some(RestoreState::Available)
}

/// Is the object's last reported state `Available`?
pub fn is_available(o: &ObjectInfo) -> (r: bool)
    ensures
        r == spec_is_available(*o),
{
    matches!(o.restore_state, Some(RestoreState::Available))
}

} // verus!
