//! Saved migration templates: a mask paired with a target tier. Loading and
//! persisting the store is the caller's concern; the store itself is the
//! in-memory list with its bounds-checked edits.

use vstd::prelude::*;

use crate::mask::ObjectMask;
use crate::models::StorageClassTier;

verus! {

/// A saved {mask, target tier} pair. The identifier and creation timestamp
/// are opaque text supplied by the caller.
#[derive(Debug)]
pub struct MigrationPolicy {
    pub id: String,
    pub mask: ObjectMask,
    pub target_storage_class: StorageClassTier,
    pub notes: Option<String>,
    pub created_at: String,
}

impl Clone for MigrationPolicy {
    fn clone(&self) -> (r: Self)
        ensures
            r == *self,
    {
        MigrationPolicy {
            id: self.id.clone(),
            mask: self.mask.clone(),
            target_storage_class: self.target_storage_class.clone(),
            notes: crate::models::clone_opt_string(&self.notes),
            created_at: self.created_at.clone(),
        }
    }
}

impl MigrationPolicy {
    /// Builds a policy from its parts.
    pub fn new(
        mask: ObjectMask,
        target_storage_class: StorageClassTier,
        notes: Option<String>,
        id: String,
        created_at: String,
    ) -> (r: Self)
        ensures
            r == (MigrationPolicy { mask, target_storage_class, notes, id, created_at }),
    {
        MigrationPolicy { id, mask, target_storage_class, notes, created_at }
    }
}

/// Why a store edit was refused.
#[derive(Clone, Copy, Debug, PartialEq, Eq, Structural)]
pub enum PolicyError {
    IndexOutOfBounds,
}

impl PolicyError {
    /// The message shown for this error.
    pub fn message(&self) -> (r: &str)
        ensures
            r@ == "policy index out of bounds"@,
    {
        "policy index out of bounds"
    }
}

/// The in-memory list of saved policies.
#[derive(Debug)]
pub struct PolicyStore {
    pub policies: Vec<MigrationPolicy>,
}

impl PolicyStore {
    /// An empty store.
    pub fn new() -> (r: Self)
        ensures
            r.policies@ == Seq::<MigrationPolicy>::empty(),
    {
        PolicyStore { policies: Vec::new() }
    }

    /// A store holding exactly the given policies (as loaded from disk).
    pub fn with_policies(policies: Vec<MigrationPolicy>) -> (r: Self)
        ensures
            r.policies@ == policies@,
    {
        PolicyStore { policies }
    }

    /// Appends a policy.
    pub fn add(&mut self, policy: MigrationPolicy)
        ensures
            final(self).policies@ == old(self).policies@.push(policy),
    {
        self.policies.push(policy);
    }

    /// Removes the policy at `index`; refused, with the store unchanged,
    /// exactly when `index` is out of bounds.
    pub fn remove(&mut self, index: usize) -> (r: Result<(), PolicyError>)
        ensures
            match r {
                Ok(()) => index < old(self).policies@.len()
                    && final(self).policies@ == old(self).policies@.remove(index as int),
                Err(e) => index >= old(self).policies@.len()
                    && e is IndexOutOfBounds
                    && *final(self) == *old(self),
            },
    {
        if index < self.policies.len() {
            self.policies.remove(index);
            Ok(())
        } else {
            Err(PolicyError::IndexOutOfBounds)
        }
    }
}

} // verus!
