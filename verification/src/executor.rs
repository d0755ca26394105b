//! Migration executor: admission checks, restore partitioning, per-object
//! outcome reporting and local reconciliation.
//!
//! Both bulk operations follow the same shape: admission check, per-object
//! remote call loop (driven by the caller, which owns the remote client),
//! local reconciliation, status report. Every per-object outcome the caller
//! hands back is reported individually; a failure never drops the others.

use vstd::prelude::*;

use crate::app::{
    apply_mask_report, ring_push, target_count, App, AppMode, PendingAction, StorageIntent,
};
use crate::mask::mask_selects;
use crate::models::{
    spec_is_available, spec_is_restoring, spec_needs_restore, ObjectInfo, RestoreState,
    StorageClassTier,
};
use crate::policy::MigrationPolicy;
use crate::text::{dec_str_of, str_eq_str, usize_to_string};

verus! {

broadcast use {
    vstd::seq_lib::group_filter_ensures,
    vstd::prelude::Seq::lemma_take_succ_push,
    vstd::prelude::Seq::lemma_filter_push,
};

/// A chain of ring-buffer pushes: the log after appending each entry in
/// order, evicting the oldest entries as the log fills.
pub open spec fn ring_push_all(log: Seq<Seq<char>>, entries: Seq<Seq<char>>) -> Seq<Seq<char>>
    decreases entries.len(),
{
    if entries.len() == 0 {
        log
    } else {
        ring_push_all(ring_push(log, entries[0]), entries.drop_first())
    }
}

/// Extending a push chain by one more entry pushes it at the end.
pub proof fn lemma_ring_push_all_snoc(log: Seq<Seq<char>>, entries: Seq<Seq<char>>, entry: Seq<char>)
    ensures
        ring_push_all(log, entries.push(entry)) == ring_push(ring_push_all(log, entries), entry),
    decreases entries.len(),
{
    let es = entries.push(entry);
    if entries.len() == 0 {
        assert(es.drop_first() =~= Seq::<Seq<char>>::empty());
        assert(es[0] == entry);
        assert(ring_push_all(ring_push(log, entry), es.drop_first()) == ring_push(log, entry));
        assert(ring_push_all(log, entries) == log);
    } else {
        lemma_ring_push_all_snoc(ring_push(log, entries[0]), entries.drop_first(), entry);
        assert(es.drop_first() =~= entries.drop_first().push(entry));
        assert(es[0] == entries[0]);
    }
}

/// Why an operation was refused before any remote call was made.
#[derive(Clone, Copy, Debug, PartialEq, Eq, Structural)]
pub enum AdmissionError {
    NoBucket,
    EmptyTarget,
    NoRestoreTargets,
}

impl AdmissionError {
    /// The message shown for this refusal.
    pub fn message(&self) -> (r: &str)
        ensures
            r@ == match *self {
                AdmissionError::NoBucket => "Select a bucket first"@,
                AdmissionError::EmptyTarget => "Select at least one object (mask or row)"@,
                AdmissionError::NoRestoreTargets => "Select objects to restore first"@,
            },
    {
        match self {
            AdmissionError::NoBucket => "Select a bucket first",
            AdmissionError::EmptyTarget => "Select at least one object (mask or row)",
            AdmissionError::NoRestoreTargets => "Select objects to restore first",
        }
    }
}

/// A classified per-object remote failure, as the caller's transport layer
/// reports it.
#[derive(Debug)]
pub enum ObjectOpError {
    NotFound,
    InvalidState,
    Service { code: String, message: String },
    Dispatch { detail: String },
    Timeout,
    Response { detail: String },
    Unclassified { detail: String },
}

impl Clone for ObjectOpError {
    fn clone(&self) -> (r: Self)
        ensures
            r == *self,
    {
        match self {
            ObjectOpError::NotFound => ObjectOpError::NotFound,
            ObjectOpError::InvalidState => ObjectOpError::InvalidState,
            ObjectOpError::Service { code, message } => ObjectOpError::Service {
                code: code.clone(),
                message: message.clone(),
            },
            ObjectOpError::Dispatch { detail } => ObjectOpError::Dispatch {
                detail: detail.clone(),
            },
            ObjectOpError::Timeout => ObjectOpError::Timeout,
            ObjectOpError::Response { detail } => ObjectOpError::Response {
                detail: detail.clone(),
            },
            ObjectOpError::Unclassified { detail } => ObjectOpError::Unclassified {
                detail: detail.clone(),
            },
        }
    }
}

/// The user-facing text for each failure class: not-found and invalid-state
/// get a friendly explanation, other service errors keep their code and
/// message, transport classes get their own wording, and unclassified
/// errors fall back to the raw message.
pub open spec fn restore_error_text(e: ObjectOpError) -> Seq<char> {
    match e {
        ObjectOpError::NotFound =>
            "NoSuchKey: object was not found (mask may target stale keys or bucket differs)"@,
        ObjectOpError::InvalidState =>
            "InvalidObjectState: object is already being restored or not eligible for this operation"@,
        ObjectOpError::Service { code, message } => code@ + ": "@ + message@,
        ObjectOpError::Dispatch { detail } => "network/dispatch failure: "@ + detail@,
        ObjectOpError::Timeout => "request timed out; please retry"@,
        ObjectOpError::Response { detail } => "response error: "@ + detail@,
        ObjectOpError::Unclassified { detail } => detail@,
    }
}

/// Renders a classified restore failure for the status log.
pub fn describe_restore_error(e: &ObjectOpError) -> (r: String)
    ensures
        r@ == restore_error_text(*e),
{
    match e {
        ObjectOpError::NotFound => {
            "NoSuchKey: object was not found (mask may target stale keys or bucket differs)"
                .to_owned()
        }
        ObjectOpError::InvalidState => {
            "InvalidObjectState: object is already being restored or not eligible for this operation"
                .to_owned()
        }
        ObjectOpError::Service { code, message } => {
            let mut s = code.clone();
            s.append(": ");
            s.append(message.as_str());
            proof {
                assert(s@ =~= restore_error_text(*e));
            }
            s
        }
        ObjectOpError::Dispatch { detail } => {
            let mut s = "network/dispatch failure: ".to_owned();
            s.append(detail.as_str());
            proof {
                assert(s@ =~= restore_error_text(*e));
            }
            s
        }
        ObjectOpError::Timeout => "request timed out; please retry".to_owned(),
        ObjectOpError::Response { detail } => {
            let mut s = "response error: ".to_owned();
            s.append(detail.as_str());
            proof {
                assert(s@ =~= restore_error_text(*e));
            }
            s
        }
        ObjectOpError::Unclassified { detail } => detail.clone(),
    }
}

/// The outcome of a transition admission check.
#[derive(Clone, Copy, Debug, PartialEq, Eq, Structural)]
pub enum TransitionAdmission {
    EmptyTarget,
    Blocked { needing: usize },
    Staged,
}

/// The refusal reported when targets still need a restore.
pub open spec fn blocked_report(needing: nat) -> Seq<char> {
    "⚠ "@ + dec_str_of(needing)
        + " objects require restore before transition. Press 'r' to restore them first."@
}

/// The confirmation prompt for a staged transition.
pub open spec fn staged_report(target: StorageClassTier) -> Seq<char> {
    "Confirm transition to "@ + crate::models::spec_label(target)
        + " (press Enter to confirm)"@
}

/// The transition admission gate: refuses an empty target set, refuses (and
/// counts) targets still needing a restore, and otherwise stages the
/// transition for confirmation. All-or-nothing: nothing is staged on a
/// refusal.
pub fn stage_transition(app: &mut App, target: StorageClassTier) -> (r: TransitionAdmission)
    ensures
        ({
            let targets = old(app).target_records();
            let blocked = targets.filter(|o: ObjectInfo| spec_needs_restore(o)).len();
            match r {
                TransitionAdmission::EmptyTarget => {
                    &&& targets.len() == 0
                    &&& final(app).status_log() == ring_push(
                        old(app).status_log(),
                        "No objects selected for transition"@,
                    )
                    &&& *final(app) == (App { status: final(app).status, ..*old(app) })
                },
                TransitionAdmission::Blocked { needing } => {
                    &&& targets.len() > 0
                    &&& blocked > 0
                    &&& needing == blocked
                    &&& final(app).mode is Browsing
                    &&& final(app).status_log() == ring_push(
                        old(app).status_log(),
                        blocked_report(needing as nat),
                    )
                    &&& *final(app) == (App {
                        status: final(app).status,
                        mode: AppMode::Browsing,
                        ..*old(app)
                    })
                },
                TransitionAdmission::Staged => {
                    &&& targets.len() > 0
                    &&& blocked == 0
                    &&& final(app).mode is Confirming
                    &&& final(app).pending_action == Some(
                        PendingAction::Transition { target_class: target },
                    )
                    &&& final(app).status_log() == ring_push(old(app).status_log(), staged_report(target))
                    &&& *final(app) == (App {
                        status: final(app).status,
                        mode: AppMode::Confirming,
                        pending_action: final(app).pending_action,
                        ..*old(app)
                    })
                },
            }
        }),
{
    let count = target_count(app);
    if count == 0 {
        app.push_status("No objects selected for transition");
        return TransitionAdmission::EmptyTarget;
    }
    if app.any_targets_need_restoration() {
        app.set_mode(AppMode::Browsing);
        let needing = app.count_objects_needing_restore();
        proof {
            let targets = old(app).target_records();
            let pred = |o: ObjectInfo| spec_needs_restore(o);
            let w = choose|i: int| 0 <= i < targets.len() && spec_needs_restore(targets[i]);
            targets.lemma_filter_contains(pred, w);
        }
        let mut msg = "\u{26a0} ".to_owned();
        let rendered = usize_to_string(needing);
        msg.append(rendered.as_str());
        msg.append(" objects require restore before transition. Press 'r' to restore them first.");
        proof {
            assert(msg@ =~= blocked_report(needing as nat));
        }
        app.push_status(msg.as_str());
        return TransitionAdmission::Blocked { needing };
    }
    proof {
        let targets = old(app).target_records();
        let pred = |o: ObjectInfo| spec_needs_restore(o);
        if targets.filter(pred).len() > 0 {
            let elem = targets.filter(pred)[0];
            assert(targets.filter(pred).contains(elem));
            targets.lemma_filter_contains_rev(pred, elem);
            let w = choose|i: int| 0 <= i < targets.len() && targets[i] == elem;
            assert(spec_needs_restore(targets[w]));
        }
    }
    let mut msg = "Confirm transition to ".to_owned();
    msg.append(target.label());
    msg.append(" (press Enter to confirm)");
    proof {
        assert(msg@ =~= staged_report(target));
    }
    app.pending_action = Some(PendingAction::Transition { target_class: target });
    app.set_mode(AppMode::Confirming);
    app.push_status(msg.as_str());
    TransitionAdmission::Staged
}

/// Opens the storage-class selector for a bulk action, refusing when no
/// bucket is selected or the target set is empty.
pub fn begin_storage_selection(app: &mut App, intent: StorageIntent) -> (r: Result<
    (),
    AdmissionError,
>)
    ensures
        match r {
            Ok(()) => {
                &&& old(app).selected_bucket < old(app).buckets@.len()
                &&& old(app).target_records().len() > 0
                &&& final(app).storage_intent == intent
                &&& final(app).storage_class_cursor == 0
                &&& final(app).mode is SelectingStorageClass
                &&& *final(app) == (App {
                    storage_intent: intent,
                    storage_class_cursor: 0,
                    mode: AppMode::SelectingStorageClass,
                    ..*old(app)
                })
            },
            Err(e) => {
                &&& *final(app) == *old(app)
                &&& match e {
                    AdmissionError::NoBucket =>
                        old(app).selected_bucket >= old(app).buckets@.len(),
                    AdmissionError::EmptyTarget =>
                        old(app).selected_bucket < old(app).buckets@.len()
                            && old(app).target_records().len() == 0,
                    AdmissionError::NoRestoreTargets => false,
                }
            },
        },
{
    if app.selected_bucket >= app.buckets.len() {
        return Err(AdmissionError::NoBucket);
    }
    if target_count(app) == 0 {
        return Err(AdmissionError::EmptyTarget);
    }
    app.storage_intent = intent;
    app.storage_class_cursor = 0;
    app.set_mode(AppMode::SelectingStorageClass);
    Ok(())
}

/// The prompt pushed when a restore flow is opened, given how many targets
/// need a restore and how many are already restoring.
pub open spec fn restore_flow_report(need: nat, restoring: nat) -> Seq<char> {
    if need == 0 {
        if restoring > 0 {
            dec_str_of(restoring) + " objects are already being restored"@
        } else {
            "No objects need restore (not Glacier or already restored)"@
        }
    } else {
        if restoring > 0 {
            "Will restore "@ + dec_str_of(need) + " objects ("@ + dec_str_of(restoring)
                + " already restoring will be skipped)"@
        } else {
            "Confirm restore request for "@ + dec_str_of(need) + " objects"@
        }
    }
}

/// Opens the restore flow: refuses when nothing is targeted; reports when no
/// target needs a restore; otherwise stages a restore (fixed 7-day
/// retention) for confirmation, reporting how many objects will be
/// restored and how many are skipped as already restoring.
pub fn initiate_restore_flow(app: &mut App) -> (r: Result<(), AdmissionError>)
    ensures
        ({
            let targets = old(app).target_records();
            let need = targets.filter(|o: ObjectInfo| spec_needs_restore(o)).len();
            let restoring = targets.filter(|o: ObjectInfo| spec_is_restoring(o)).len();
            let has_bucket = old(app).selected_bucket < old(app).buckets@.len();
            match r {
                Err(e) => {
                    &&& (!has_bucket || targets.len() == 0)
                    &&& e is NoRestoreTargets
                    &&& *final(app) == *old(app)
                },
                Ok(()) => {
                    &&& has_bucket
                    &&& targets.len() > 0
                    &&& final(app).status_log() == ring_push(
                        old(app).status_log(),
                        restore_flow_report(need as nat, restoring as nat),
                    )
                    &&& if need == 0 {
                        *final(app) == (App { status: final(app).status, ..*old(app) })
                    } else {
                        final(app).pending_action == Some(PendingAction::Restore { days: 7 })
                            && final(app).mode is Confirming
                            && *final(app) == (App {
                                status: final(app).status,
                                pending_action: final(app).pending_action,
                                mode: AppMode::Confirming,
                                ..*old(app)
                            })
                    }
                },
            }
        }),
{
    if app.selected_bucket >= app.buckets.len() {
        return Err(AdmissionError::NoRestoreTargets);
    }
    if target_count(app) == 0 {
        return Err(AdmissionError::NoRestoreTargets);
    }

    let need = app.count_objects_needing_restore();
    let restoring = app.count_objects_restoring();

    if need == 0 {
        if restoring > 0 {
            let mut msg = usize_to_string(restoring);
            msg.append(" objects are already being restored");
            proof {
                assert(msg@ =~= restore_flow_report(need as nat, restoring as nat));
            }
            app.push_status(msg.as_str());
        } else {
            app.push_status("No objects need restore (not Glacier or already restored)");
        }
        return Ok(());
    }

    app.pending_action = Some(PendingAction::Restore { days: 7 });
    app.set_mode(AppMode::Confirming);

    if restoring > 0 {
        let mut msg = "Will restore ".to_owned();
        let n = usize_to_string(need);
        msg.append(n.as_str());
        msg.append(" objects (");
        let m = usize_to_string(restoring);
        msg.append(m.as_str());
        msg.append(" already restoring will be skipped)");
        proof {
            assert(msg@ =~= restore_flow_report(need as nat, restoring as nat));
        }
        app.push_status(msg.as_str());
    } else {
        let mut msg = "Confirm restore request for ".to_owned();
        let n = usize_to_string(need);
        msg.append(n.as_str());
        msg.append(" objects");
        proof {
            assert(msg@ =~= restore_flow_report(need as nat, restoring as nat));
        }
        app.push_status(msg.as_str());
    }
    Ok(())
}

/// How a restore run partitions the target set: the keys to request,
/// targets skipped as already restoring, and targets skipped as already
/// available. Targets in no archive tier and in no restore state are
/// dropped silently, as they have nothing to restore.
#[derive(Debug)]
pub struct RestorePlan {
    pub eligible: Vec<String>,
    pub skipped_restoring: usize,
    pub skipped_available: usize,
}

/// Partitions `records` for a restore run.
fn collect_restore_plan(records: &Vec<ObjectInfo>) -> (r: RestorePlan)
    ensures
        r.skipped_restoring == records@.filter(|o: ObjectInfo| spec_is_restoring(o)).len(),
        r.skipped_available == records@.filter(|o: ObjectInfo| spec_is_available(o)).len(),
        r.eligible@.len() == records@.filter(|o: ObjectInfo| spec_needs_restore(o)).len(),
        forall|i: int| 0 <= i < r.eligible@.len()
            ==> r.eligible@[i]@
                == records@.filter(|o: ObjectInfo| spec_needs_restore(o))[i].key@,
{
    let mut eligible: Vec<String> = Vec::new();
    let mut skipped_restoring: usize = 0;
    let mut skipped_available: usize = 0;
    let mut i: usize = 0;
    while i < records.len()
        invariant
            i <= records@.len(),
            skipped_restoring
                == records@.take(i as int).filter(|o: ObjectInfo| spec_is_restoring(o)).len(),
            skipped_available
                == records@.take(i as int).filter(|o: ObjectInfo| spec_is_available(o)).len(),
            eligible@.len()
                == records@.take(i as int).filter(|o: ObjectInfo| spec_needs_restore(o)).len(),
            forall|j: int| 0 <= j < eligible@.len()
                ==> eligible@[j]@
                    == records@.take(i as int).filter(
                        |o: ObjectInfo| spec_needs_restore(o),
                    )[j].key@,
        decreases records@.len() - i,
    {
        proof {
            records@.take(i as int + 1).lemma_filter_len(|o: ObjectInfo| spec_is_restoring(o));
            records@.take(i as int + 1).lemma_filter_len(|o: ObjectInfo| spec_is_available(o));
        }
        if crate::models::is_restoring(&records[i]) {
            skipped_restoring += 1;
        } else if crate::models::is_available(&records[i]) {
            skipped_available += 1;
        } else if crate::models::needs_restore(&records[i]) {
            eligible.push(records[i].key.clone());
        }
        i += 1;
    }
    proof {
        assert(records@.take(records@.len() as int) =~= records@);
    }
    RestorePlan { eligible, skipped_restoring, skipped_available }
}

/// The status entries a restore plan produces: one per nonzero skip count,
/// then either the refusal or the announcement of the requests to come.
pub open spec fn plan_reports(restoring: nat, available: nat, eligible: nat) -> Seq<Seq<char>> {
    (if restoring > 0 {
        seq!["Skipped "@ + dec_str_of(restoring) + " objects already being restored"@]
    } else {
        Seq::<Seq<char>>::empty()
    }) + (if available > 0 {
        seq!["Skipped "@ + dec_str_of(available) + " objects already restored"@]
    } else {
        Seq::<Seq<char>>::empty()
    }) + (if eligible == 0 {
        seq!["No objects need restore"@]
    } else {
        seq!["Requesting restore for "@ + dec_str_of(eligible) + " objects..."@]
    })
}

/// Partitions the current target set for a restore run and reports the
/// partition: how many targets are skipped as already restoring or already
/// available, and how many restore requests will be issued. The caller
/// issues one remote request per eligible key and hands the outcomes to
/// `apply_restore_outcomes`.
pub fn plan_restore(app: &mut App) -> (r: RestorePlan)
    ensures
        ({
            let targets = old(app).target_records();
            let need = targets.filter(|o: ObjectInfo| spec_needs_restore(o));
            &&& r.skipped_restoring
                == targets.filter(|o: ObjectInfo| spec_is_restoring(o)).len()
            &&& r.skipped_available
                == targets.filter(|o: ObjectInfo| spec_is_available(o)).len()
            &&& r.eligible@.len() == need.len()
            &&& forall|i: int| 0 <= i < r.eligible@.len() ==> r.eligible@[i]@ == need[i].key@
            &&& final(app).status_log() == ring_push_all(
                old(app).status_log(),
                plan_reports(
                    r.skipped_restoring as nat,
                    r.skipped_available as nat,
                    r.eligible@.len() as nat,
                ),
            )
            &&& *final(app) == (App { status: final(app).status, ..*old(app) })
        }),
{
    let plan = if app.active_mask.is_some() {
        collect_restore_plan(&app.filtered_objects)
    } else if app.selected_object < app.objects.len() {
        let mut single: Vec<ObjectInfo> = Vec::new();
        single.push(app.objects[app.selected_object].clone());
        let plan = collect_restore_plan(&single);
        proof {
            assert(single@ =~= old(app).target_records());
        }
        plan
    } else {
        proof {
            reveal_with_fuel(Seq::filter, 1);
        }
        RestorePlan { eligible: Vec::new(), skipped_restoring: 0, skipped_available: 0 }
    };
    let ghost entries = plan_reports(
        plan.skipped_restoring as nat,
        plan.skipped_available as nat,
        plan.eligible@.len() as nat,
    );
    let ghost mut done: Seq<Seq<char>> = Seq::empty();
    if plan.skipped_restoring > 0 {
        let mut msg = "Skipped ".to_owned();
        let n = usize_to_string(plan.skipped_restoring);
        msg.append(n.as_str());
        msg.append(" objects already being restored");
        proof {
            assert(msg@ =~= "Skipped "@ + dec_str_of(plan.skipped_restoring as nat)
                + " objects already being restored"@);
            lemma_ring_push_all_snoc(old(app).status_log(), done, msg@);
            done = done.push(msg@);
        }
        app.push_status(msg.as_str());
    }
    if plan.skipped_available > 0 {
        let mut msg = "Skipped ".to_owned();
        let n = usize_to_string(plan.skipped_available);
        msg.append(n.as_str());
        msg.append(" objects already restored");
        proof {
            assert(msg@ =~= "Skipped "@ + dec_str_of(plan.skipped_available as nat)
                + " objects already restored"@);
            lemma_ring_push_all_snoc(old(app).status_log(), done, msg@);
            done = done.push(msg@);
        }
        app.push_status(msg.as_str());
    }
    if plan.eligible.len() == 0 {
        proof {
            lemma_ring_push_all_snoc(old(app).status_log(), done, "No objects need restore"@);
            done = done.push("No objects need restore"@);
        }
        app.push_status("No objects need restore");
    } else {
        let mut msg = "Requesting restore for ".to_owned();
        let n = usize_to_string(plan.eligible.len());
        msg.append(n.as_str());
        msg.append(" objects...");
        proof {
            assert(msg@ =~= "Requesting restore for "@ + dec_str_of(plan.eligible@.len() as nat)
                + " objects..."@);
            lemma_ring_push_all_snoc(old(app).status_log(), done, msg@);
            done = done.push(msg@);
        }
        app.push_status(msg.as_str());
    }
    proof {
        assert(done =~= entries);
    }
    plan
}

/// One per-object transition attempt, as the caller's remote loop reports
/// it: the key, and the failure text if the call failed.
#[derive(Debug)]
pub struct TransitionOutcome {
    pub key: String,
    pub error: Option<String>,
}

/// The status entry for one transition outcome.
pub open spec fn transition_report(oc: TransitionOutcome, target: StorageClassTier) -> Seq<char> {
    match oc.error {
        None => "Transitioned "@ + oc.key@ + " to "@ + crate::models::spec_label(target),
        Some(detail) => "Transition failed for "@ + oc.key@ + ": "@ + detail@,
    }
}

/// Reports every per-object outcome of a transition run, in order: one
/// status entry per key, success and failure alike, attributable to its
/// key. A failed object never suppresses the report of the others, and the
/// run never panics. The authoritative reconciliation is the caller's full
/// reload afterwards, so no local record is patched here.
pub fn apply_transition_outcomes(
    app: &mut App,
    outcomes: &Vec<TransitionOutcome>,
    target: &StorageClassTier,
)
    ensures
        final(app).status_log() == ring_push_all(
            old(app).status_log(),
            outcomes@.map_values(|oc: TransitionOutcome| transition_report(oc, *target)),
        ),
        *final(app) == (App { status: final(app).status, ..*old(app) }),
{
    let ghost entries = outcomes@.map_values(
        |oc: TransitionOutcome| transition_report(oc, *target),
    );
    let mut i: usize = 0;
    while i < outcomes.len()
        invariant
            i <= outcomes@.len(),
            entries == outcomes@.map_values(
                |oc: TransitionOutcome| transition_report(oc, *target),
            ),
            app.status_log() == ring_push_all(old(app).status_log(), entries.take(i as int)),
            *app == (App { status: app.status, ..*old(app) }),
        decreases outcomes@.len() - i,
    {
        let msg = match &outcomes[i].error {
            None => {
                let mut s = "Transitioned ".to_owned();
                s.append(outcomes[i].key.as_str());
                s.append(" to ");
                s.append(target.label());
                s
            }
            Some(detail) => {
                let mut s = "Transition failed for ".to_owned();
                s.append(outcomes[i].key.as_str());
                s.append(": ");
                s.append(detail.as_str());
                s
            }
        };
        proof {
            assert(msg@ =~= transition_report(outcomes@[i as int], *target));
            assert(entries.take(i as int + 1) =~= entries.take(i as int).push(entries[i as int]));
            lemma_ring_push_all_snoc(old(app).status_log(), entries.take(i as int), msg@);
        }
        app.push_status(msg.as_str());
        i += 1;
    }
    proof {
        assert(entries.take(entries.len() as int) =~= entries);
    }
}

/// One per-object restore attempt, as the caller's remote loop reports it:
/// the key, and the classified failure if the call failed.
#[derive(Debug)]
pub struct RestoreOutcome {
    pub key: String,
    pub error: Option<ObjectOpError>,
}

/// The status entry for one restore outcome; a failure carries its
/// classified description.
pub open spec fn restore_report(oc: RestoreOutcome) -> Seq<char> {
    match oc.error {
        None => "\u{2713} Restore requested for "@ + oc.key@,
        Some(e) => "\u{2717} Restore failed for "@ + oc.key@ + ": "@ + restore_error_text(e),
    }
}

/// Did some outcome report a successful restore request for this key?
pub open spec fn restore_succeeded_for(outcomes: Seq<RestoreOutcome>, key: Seq<char>) -> bool {
    exists|j: int| 0 <= j < outcomes.len()
        && (#[trigger] outcomes[j]).error is None
        && outcomes[j].key@ == key
}

/// The record as reconciliation leaves it: optimistically marked in
/// progress (with no expiry) when its restore request was accepted,
/// untouched otherwise. The next authoritative reload overwrites this.
pub open spec fn reconciled_record(o: ObjectInfo, outcomes: Seq<RestoreOutcome>) -> ObjectInfo {
    if restore_succeeded_for(outcomes, o.key@) {
        ObjectInfo { restore_state: Some(RestoreState::InProgress { expiry: None }), ..o }
    } else {
        o
    }
}

/// Did some outcome report a successful restore request for this key?
fn succeeded_contains(outcomes: &Vec<RestoreOutcome>, key: &str) -> (r: bool)
    ensures
        r == restore_succeeded_for(outcomes@, key@),
{
    let mut j: usize = 0;
    while j < outcomes.len()
        invariant
            j <= outcomes@.len(),
            forall|t: int| 0 <= t < j
                ==> !((#[trigger] outcomes@[t]).error is None && outcomes@[t].key@ == key@),
        decreases outcomes@.len() - j,
    {
        if outcomes[j].error.is_none() && str_eq_str(outcomes[j].key.as_str(), key) {
            return true;
        }
        j += 1;
    }
    false
}

/// Reports every per-object outcome of a restore run, in order, then
/// reconciles locally: each object whose request was accepted is
/// optimistically marked in progress, failed objects are left unchanged,
/// and the filtered view is recomputed when a mask is active so displayed
/// counts and badges stay consistent. One entry per key, success and
/// failure alike; a failed object never suppresses the others.
pub fn apply_restore_outcomes(app: &mut App, outcomes: &Vec<RestoreOutcome>)
    ensures
        final(app).status_log() == ring_push_all(
            old(app).status_log(),
            outcomes@.map_values(|oc: RestoreOutcome| restore_report(oc)),
        ),
        final(app).objects@.len() == old(app).objects@.len(),
        forall|i: int| 0 <= i < old(app).objects@.len()
            ==> final(app).objects@[i]
                == reconciled_record(#[trigger] old(app).objects@[i], outcomes@),
        match old(app).active_mask {
            Some(m) => final(app).filtered_objects@
                == final(app).objects@.filter(|o: ObjectInfo| mask_selects(m, o)),
            None => final(app).filtered_objects@ == old(app).filtered_objects@,
        },
        *final(app) == (App {
            status: final(app).status,
            objects: final(app).objects,
            filtered_objects: final(app).filtered_objects,
            ..*old(app)
        }),
{
    let ghost entries = outcomes@.map_values(|oc: RestoreOutcome| restore_report(oc));
    let mut i: usize = 0;
    while i < outcomes.len()
        invariant
            i <= outcomes@.len(),
            entries == outcomes@.map_values(|oc: RestoreOutcome| restore_report(oc)),
            app.status_log() == ring_push_all(old(app).status_log(), entries.take(i as int)),
            *app == (App { status: app.status, ..*old(app) }),
        decreases outcomes@.len() - i,
    {
        let msg = match &outcomes[i].error {
            None => {
                let mut s = "\u{2713} Restore requested for ".to_owned();
                s.append(outcomes[i].key.as_str());
                s
            }
            Some(e) => {
                let mut s = "\u{2717} Restore failed for ".to_owned();
                s.append(outcomes[i].key.as_str());
                s.append(": ");
                let detail = describe_restore_error(e);
                s.append(detail.as_str());
                s
            }
        };
        proof {
            assert(msg@ =~= restore_report(outcomes@[i as int]));
            assert(entries.take(i as int + 1) =~= entries.take(i as int).push(entries[i as int]));
            lemma_ring_push_all_snoc(old(app).status_log(), entries.take(i as int), msg@);
        }
        app.push_status(msg.as_str());
        i += 1;
    }
    proof {
        assert(entries.take(entries.len() as int) =~= entries);
    }

    let mut k: usize = 0;
    while k < app.objects.len()
        invariant
            k <= app.objects@.len(),
            app.objects@.len() == old(app).objects@.len(),
            forall|j: int| 0 <= j < k
                ==> app.objects@[j]
                    == reconciled_record(#[trigger] old(app).objects@[j], outcomes@),
            forall|j: int| k <= j < app.objects@.len()
                ==> app.objects@[j] == old(app).objects@[j],
            app.status_log() == ring_push_all(old(app).status_log(), entries),
            *app == (App { status: app.status, objects: app.objects, ..*old(app) }),
        decreases app.objects@.len() - k,
    {
        let hit = succeeded_contains(outcomes, app.objects[k].key.as_str());
        if hit {
            let ghost pre = app.objects@;
            let mut o = app.objects.remove(k);
            o.restore_state = Some(RestoreState::InProgress { expiry: None });
            app.objects.insert(k, o);
            proof {
                assert(app.objects@ =~= pre.update(
                    k as int,
                    reconciled_record(old(app).objects@[k as int], outcomes@),
                ));
            }
        }
        k += 1;
    }

    let refiltered = match &app.active_mask {
        Some(m) => Some(crate::app::filter_records(&app.objects, m)),
        None => None,
    };
    if let Some(f) = refiltered {
        set_filtered_view(app, f);
    }
}

/// Replaces the filtered view (the last step of reconciliation).
fn set_filtered_view(app: &mut App, filtered: Vec<ObjectInfo>)
    ensures
        final(app).filtered_objects@ == filtered@,
        *final(app) == (App { filtered_objects: final(app).filtered_objects, ..*old(app) }),
{
    app.filtered_objects = filtered;
}

/// One key's refreshed restore state, as a bulk status lookup reports it
/// (`None` when the lookup could not tell).
#[derive(Debug)]
pub struct RestoreStatusUpdate {
    pub key: String,
    pub restore_state: Option<RestoreState>,
}

/// The state the last update for `key` carries, if any update names it.
/// Later updates win, so when each key appears at most once — as a bulk
/// lookup queries each key once — the merge does not depend on the order
/// in which results arrived.
pub open spec fn last_status_for(
    updates: Seq<RestoreStatusUpdate>,
    key: Seq<char>,
) -> Option<Option<RestoreState>>
    decreases updates.len(),
{
    if updates.len() == 0 {
        None
    } else if updates.last().key@ == key {
        Some(updates.last().restore_state)
    } else {
        last_status_for(updates.drop_last(), key)
    }
}

/// No two updates name the same key, as in a bulk status refresh, which
/// queries each key exactly once.
pub open spec fn distinct_update_keys(updates: Seq<RestoreStatusUpdate>) -> bool {
    forall|i: int, j: int| 0 <= i < j < updates.len()
        ==> updates[i].key@ != updates[j].key@
}

/// With distinct keys, the merged state for a key is simply the state of
/// the one update that names it.
proof fn lemma_last_status_lookup(updates: Seq<RestoreStatusUpdate>, key: Seq<char>)
    requires
        distinct_update_keys(updates),
    ensures
        forall|j: int| 0 <= j < updates.len() && (#[trigger] updates[j]).key@ == key
            ==> last_status_for(updates, key) == Some(updates[j].restore_state),
        (forall|j: int| 0 <= j < updates.len() ==> (#[trigger] updates[j]).key@ != key)
            ==> last_status_for(updates, key) is None,
    decreases updates.len(),
{
    if updates.len() > 0 && updates.last().key@ != key {
        assert(updates.drop_last() =~= updates.take(updates.len() - 1));
        lemma_last_status_lookup(updates.drop_last(), key);
        assert forall|j: int| 0 <= j < updates.len() && (#[trigger] updates[j]).key@ == key
            implies last_status_for(updates, key) == Some(updates[j].restore_state) by {
            assert(j < updates.len() - 1);
            assert(updates.drop_last()[j] == updates[j]);
        }
    }
}

/// Commutative merge: when no two updates name the same key, the state a
/// merge leaves for any key does not depend on the order in which the
/// updates arrived — results of a bounded fan-out may be collected in any
/// completion order.
pub proof fn lemma_merge_order_irrelevant(
    a: Seq<RestoreStatusUpdate>,
    b: Seq<RestoreStatusUpdate>,
    key: Seq<char>,
)
    requires
        a.to_multiset() == b.to_multiset(),
        distinct_update_keys(a),
        distinct_update_keys(b),
    ensures
        last_status_for(a, key) == last_status_for(b, key),
{
    broadcast use vstd::seq_lib::group_to_multiset_ensures;

    lemma_last_status_lookup(a, key);
    lemma_last_status_lookup(b, key);
    if exists|i: int| 0 <= i < a.len() && (#[trigger] a[i]).key@ == key {
        let i = choose|i: int| 0 <= i < a.len() && (#[trigger] a[i]).key@ == key;
        assert(a.contains(a[i]));
        assert(b.to_multiset().contains(a[i]));
        assert(b.contains(a[i]));
        let j = choose|j: int| 0 <= j < b.len() && b[j] == a[i];
        assert(b[j].key@ == key);
    } else {
        if exists|j: int| 0 <= j < b.len() && (#[trigger] b[j]).key@ == key {
            let j = choose|j: int| 0 <= j < b.len() && (#[trigger] b[j]).key@ == key;
            assert(b.contains(b[j]));
            assert(a.to_multiset().contains(b[j]));
            assert(a.contains(b[j]));
            let i = choose|i: int| 0 <= i < a.len() && a[i] == b[j];
            assert(a[i].key@ == key);
        }
    }
}

/// The refreshed state for `key` among `updates`, last update winning.
fn find_last_status(updates: &Vec<RestoreStatusUpdate>, key: &str) -> (r: Option<
    Option<RestoreState>,
>)
    ensures
        r == last_status_for(updates@, key@),
{
    let mut j: usize = updates.len();
    proof {
        assert(updates@.take(updates@.len() as int) =~= updates@);
    }
    while j > 0
        invariant
            j <= updates@.len(),
            last_status_for(updates@, key@) == last_status_for(updates@.take(j as int), key@),
        decreases j,
    {
        proof {
            assert(updates@.take(j as int).last() == updates@[j - 1]);
            assert(updates@.take(j as int).drop_last() =~= updates@.take(j - 1));
        }
        if str_eq_str(updates[j - 1].key.as_str(), key) {
            let st = match &updates[j - 1].restore_state {
                Some(s) => Some(s.clone()),
                None => None,
            };
            return Some(st);
        }
        j -= 1;
    }
    proof {
        assert(updates@.take(0) =~= Seq::<RestoreStatusUpdate>::empty());
    }
    None
}

/// Merges refreshed restore states into the catalog by key: each record
/// named by an update takes that update's state, every other record is
/// untouched, and the filtered view is recomputed when a mask is active.
/// Each key of a bulk lookup appears once among the updates, so the order
/// in which the lookups completed has no effect on the final state.
pub fn merge_restore_statuses(app: &mut App, updates: &Vec<RestoreStatusUpdate>)
    ensures
        final(app).objects@.len() == old(app).objects@.len(),
        forall|i: int| 0 <= i < old(app).objects@.len()
            ==> final(app).objects@[i]
                == (match last_status_for(updates@, (#[trigger] old(app).objects@[i]).key@) {
                    Some(st) => ObjectInfo { restore_state: st, ..old(app).objects@[i] },
                    None => old(app).objects@[i],
                }),
        match old(app).active_mask {
            Some(m) => final(app).filtered_objects@
                == final(app).objects@.filter(|o: ObjectInfo| mask_selects(m, o)),
            None => final(app).filtered_objects@ == old(app).filtered_objects@,
        },
        *final(app) == (App {
            objects: final(app).objects,
            filtered_objects: final(app).filtered_objects,
            ..*old(app)
        }),
{
    let mut k: usize = 0;
    while k < app.objects.len()
        invariant
            k <= app.objects@.len(),
            app.objects@.len() == old(app).objects@.len(),
            forall|j: int| 0 <= j < k
                ==> app.objects@[j]
                    == (match last_status_for(updates@, (#[trigger] old(app).objects@[j]).key@) {
                        Some(st) => ObjectInfo { restore_state: st, ..old(app).objects@[j] },
                        None => old(app).objects@[j],
                    }),
            forall|j: int| k <= j < app.objects@.len()
                ==> app.objects@[j] == old(app).objects@[j],
            *app == (App { objects: app.objects, ..*old(app) }),
        decreases app.objects@.len() - k,
    {
        let hit = find_last_status(updates, app.objects[k].key.as_str());
        if let Some(st) = hit {
            let ghost pre = app.objects@;
            let mut o = app.objects.remove(k);
            o.restore_state = st;
            app.objects.insert(k, o);
            proof {
                assert(app.objects@ =~= pre.update(
                    k as int,
                    (match last_status_for(updates@, old(app).objects@[k as int].key@) {
                        Some(st2) => ObjectInfo {
                            restore_state: st2,
                            ..old(app).objects@[k as int]
                        },
                        None => old(app).objects@[k as int],
                    }),
                ));
            }
        }
        k += 1;
    }
    let refiltered = match &app.active_mask {
        Some(m) => Some(crate::app::filter_records(&app.objects, m)),
        None => None,
    };
    if let Some(f) = refiltered {
        set_filtered_view(app, f);
    }
}

/// The two status entries a template application produces: the mask report
/// and the admission gate's answer.
pub open spec fn template_reports(
    m: crate::mask::ObjectMask,
    count: nat,
    r: TransitionAdmission,
    target: StorageClassTier,
) -> Seq<Seq<char>> {
    seq![
        apply_mask_report(m, count),
        match r {
            TransitionAdmission::EmptyTarget => "No objects selected for transition"@,
            TransitionAdmission::Blocked { needing } => blocked_report(needing as nat),
            TransitionAdmission::Staged => staged_report(target),
        },
    ]
}

/// Applies a saved template: sets its mask as the active one (recomputing
/// the filtered view) and then runs the transition admission gate with its
/// target tier, staging the transition exactly as a manually configured
/// one.
pub fn apply_template(app: &mut App, template: &MigrationPolicy) -> (r: TransitionAdmission)
    ensures
        ({
            let m = template.mask;
            let ftr = old(app).objects@.filter(|o: ObjectInfo| mask_selects(m, o));
            let blocked = ftr.filter(|o: ObjectInfo| spec_needs_restore(o)).len();
            &&& final(app).active_mask == Some(m)
            &&& final(app).filtered_objects@ == ftr
            &&& final(app).objects@ == old(app).objects@
            &&& final(app).selected_object == 0
            &&& (r is EmptyTarget <==> ftr.len() == 0)
            &&& (r matches TransitionAdmission::Blocked { needing }
                ==> blocked > 0 && needing == blocked)
            &&& (r is Staged <==> ftr.len() > 0 && blocked == 0)
            &&& (r is Staged ==> final(app).pending_action == Some(
                PendingAction::Transition { target_class: template.target_storage_class },
            ) && final(app).mode is Confirming)
            &&& (r is EmptyTarget ==> final(app).mode == old(app).mode
                && final(app).pending_action == old(app).pending_action)
            &&& (r matches TransitionAdmission::Blocked { needing }
                ==> final(app).mode is Browsing
                    && final(app).pending_action == old(app).pending_action)
            &&& final(app).status_log() == ring_push_all(
                old(app).status_log(),
                template_reports(m, ftr.len() as nat, r, template.target_storage_class),
            )
        }),
{
    app.apply_mask(Some(template.mask.clone()));
    let r = stage_transition(app, template.target_storage_class.clone());
    proof {
        let m = template.mask;
        let ftr = old(app).objects@.filter(|o: ObjectInfo| mask_selects(m, o));
        let e1 = apply_mask_report(m, ftr.len() as nat);
        let e2 = match r {
            TransitionAdmission::EmptyTarget => "No objects selected for transition"@,
            TransitionAdmission::Blocked { needing } => blocked_report(needing as nat),
            TransitionAdmission::Staged => staged_report(template.target_storage_class),
        };
        let es = template_reports(m, ftr.len() as nat, r, template.target_storage_class);
        assert(es == seq![e1, e2]);
        assert(es.drop_first() =~= seq![e2]);
        assert(seq![e2].drop_first() =~= Seq::<Seq<char>>::empty());
        assert(ring_push_all(ring_push(ring_push(old(app).status_log(), e1), e2),
            seq![e2].drop_first()) == ring_push(ring_push(old(app).status_log(), e1), e2));
        assert(ring_push_all(ring_push(old(app).status_log(), e1), es.drop_first())
            == ring_push(ring_push(old(app).status_log(), e1), e2));
        assert(ring_push_all(old(app).status_log(), es)
            == ring_push(ring_push(old(app).status_log(), e1), e2));
        assert(app.status_log() == ring_push(ring_push(old(app).status_log(), e1), e2));
    }
    r
}

} // verus!
