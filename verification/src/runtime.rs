//! The decisions of the safety runtime: what a gate answers once the
//! guardrails and the consensus round have spoken, and what every step
//! writes to the audit trail and the metrics.

use vstd::prelude::*;

use crate::audit::{appended, AuditEntryView, AuditLog, Severity};
use crate::consensus::ConsensusResult;
use crate::error::{BastionError, BastionResult};
use crate::guardrails::{any_blocked, first_blocked_from, GuardrailResult, GuardrailResultView, GuardrailVerdict, VerdictView};
use crate::heal::{decide, heal_plan, HealAction, HealActionView, HealDecision, HealDecisionView};
use crate::checkpoint::{Checkpoint, CheckpointView, MemoryStore};
use crate::clock::is_uuid_v4_text;
use crate::json::{JsonModel, JsonValue};
use crate::observe::{counts_after_action, room_for_action, Metrics, MetricsSnapshot};
use crate::text::{debug_str, owned, spec_debug_str};
use crate::verify::{VerifyResult, VerifyResultView};

verus! {

/// What a gate answers.
#[derive(Debug)]
#[must_use]
pub enum GateOutcome {
    Approved { consensus: ConsensusResult },
    Rejected { reason: String },
    Blocked { reason: String },
}

impl GateOutcome {
    pub fn is_approved(&self) -> (r: bool)
        ensures
            r == (self is Approved),
    {
        match self {
            GateOutcome::Approved { .. } => true,
            _ => false,
        }
    }
}

/// The text that the derived `Debug` gives a heal action (`{:?}`): the
/// variant's name, then its fields by name, each string in its `Debug` form.
pub open spec fn heal_debug(a: HealActionView) -> Seq<char> {
    match a {
        HealActionView::Retry { reason } => "Retry { reason: "@ + spec_debug_str(reason) + " }"@,
        HealActionView::RetrySimplified { reason } => "RetrySimplified { reason: "@ + spec_debug_str(reason) + " }"@,
        HealActionView::Escalate { reason } => "Escalate { reason: "@ + spec_debug_str(reason) + " }"@,
        HealActionView::Abort { reason } => "Abort { reason: "@ + spec_debug_str(reason) + " }"@,
        HealActionView::Rollback { checkpoint_id, reason } => "Rollback { checkpoint_id: "@
            + spec_debug_str(checkpoint_id) + ", reason: "@ + spec_debug_str(reason) + " }"@,
    }
}

fn debug_field(out: &mut String, s: &String)
    ensures
        final(out)@ == old(out)@ + spec_debug_str(s@),
{
    let d = debug_str(s.as_str());
    out.append(d.as_str());
}

/// Writes a heal action as its derived `Debug` does.
fn heal_debug_text(a: &HealAction) -> (r: String)
    ensures
        r@ == heal_debug(a@),
{
    match a {
        HealAction::Retry { reason } => {
            let mut out = owned("Retry { reason: ");
            debug_field(&mut out, reason);
            out.append(" }");
            out
        },
        HealAction::RetrySimplified { reason } => {
            let mut out = owned("RetrySimplified { reason: ");
            debug_field(&mut out, reason);
            out.append(" }");
            out
        },
        HealAction::Escalate { reason } => {
            let mut out = owned("Escalate { reason: ");
            debug_field(&mut out, reason);
            out.append(" }");
            out
        },
        HealAction::Abort { reason } => {
            let mut out = owned("Abort { reason: ");
            debug_field(&mut out, reason);
            out.append(" }");
            out
        },
        HealAction::Rollback { checkpoint_id, reason } => {
            let mut out = owned("Rollback { checkpoint_id: ");
            debug_field(&mut out, checkpoint_id);
            out.append(", reason: ");
            debug_field(&mut out, reason);
            out.append(" }");
            out
        },
    }
}

/// The reason a blocking result gives.
pub open spec fn block_reason(r: GuardrailResultView) -> Seq<char> {
    match r.verdict {
        VerdictView::Block { reason } => reason,
        _ => "blocked"@,
    }
}

/// The audit note a verification result leaves, if it leaves one.
pub open spec fn verification_note(name: Seq<char>, r: VerifyResultView, score_text: Seq<char>) -> Option<(Severity, Seq<char>)> {
    match r {
        VerifyResultView::Valid => None,
        VerifyResultView::Invalid { reason } => Some((Severity::Critical, "VERIFY FAILED ("@ + name + "): "@ + reason)),
        VerifyResultView::Drift { detail, .. } => Some((Severity::Warning, "DRIFT ("@ + name + "): "@ + detail + " (score="@ + score_text + ")"@)),
    }
}

/// The audit notes that the first `n` verification results leave, in order.
pub open spec fn verification_notes(results: Seq<(String, VerifyResult)>, score_texts: Seq<String>, n: int) -> Seq<(Severity, Seq<char>)>
    decreases n,
{
    if n <= 0 {
        Seq::empty()
    } else {
        let before = verification_notes(results, score_texts, n - 1);
        match verification_note(results[n - 1].0@, results[n - 1].1@, score_texts[n - 1]@) {
            Some(note) => before.push(note),
            None => before,
        }
    }
}

/// How many of the first `n` results are valid, invalid and drifting.
pub open spec fn verification_counts(results: Seq<(String, VerifyResult)>, n: int) -> (nat, nat, nat)
    decreases n,
{
    if n <= 0 {
        (0, 0, 0)
    } else {
        let (v, i, d) = verification_counts(results, n - 1);
        match results[n - 1].1 {
            VerifyResult::Valid => (v + 1, i, d),
            VerifyResult::Invalid { .. } => (v, i + 1, d),
            VerifyResult::Drift { .. } => (v, i, d + 1),
        }
    }
}

/// `after` is `before` followed by one entry per note, for this action
/// and without data, each chained to the one before.
pub open spec fn notes_logged(before: Seq<AuditEntryView>, after: Seq<AuditEntryView>, action: Seq<char>, notes: Seq<(Severity, Seq<char>)>) -> bool {
    &&& after.len() == before.len() + notes.len()
    &&& after.subrange(0, before.len() as int) == before
    &&& forall|k: int| 0 <= k < notes.len() ==> {
        &&& #[trigger] after[before.len() + k].severity == notes[k].0
        &&& after[before.len() + k].action == action
        &&& after[before.len() + k].detail == notes[k].1
        &&& after[before.len() + k].data is None
    }
}

/// The audit trail and the metrics of a runtime, with its retry budget.
pub struct RuntimeCore {
    audit: AuditLog,
    metrics: Metrics,
    max_retries: u32,
}

impl RuntimeCore {
    /// The audit entries so far.
    pub closed spec fn audit_view(&self) -> Seq<AuditEntryView> {
        self.audit.view()
    }

    /// The counters so far.
    pub closed spec fn metrics_view(&self) -> MetricsSnapshot {
        self.metrics.view()
    }

    /// How many attempts the healer allows.
    pub closed spec fn retry_budget(&self) -> u32 {
        self.max_retries
    }

    pub fn new(max_retries: u32) -> (c: Self)
        ensures
            c.audit_view().len() == 0,
            c.metrics_view() == crate::observe::zero_counts(),
            c.retry_budget() == max_retries,
    {
        RuntimeCore { audit: AuditLog::new(), metrics: Metrics::new(), max_retries }
    }

    pub fn max_retries(&self) -> (r: u32)
        ensures
            r == self.retry_budget(),
    {
        self.max_retries
    }

    /// Screens an action by the results of its guardrails. On a blocking result it
    /// answers `Blocked` with the first blocking reason, logs a critical
    /// entry that carries the context, and counts a blocked action.
    /// Otherwise nothing changes and the consensus round may run.
    pub fn screen(&mut self, action: &str, context: &JsonValue, results: &[GuardrailResult], elapsed_ms: u64) -> (r: Option<GateOutcome>)
        requires
            first_blocked_from(results@, 0) is Some ==> room_for_action(old(self).metrics_view(), elapsed_ms),
        ensures
            final(self).retry_budget() == old(self).retry_budget(),
            match first_blocked_from(results@, 0) {
                Some(i) => {
                    &&& r matches Some(GateOutcome::Blocked { reason }) && reason@ == block_reason(results@[i]@)
                    &&& appended(old(self).audit_view(), final(self).audit_view(), Severity::Critical, action@,
                            "BLOCKED: "@ + block_reason(results@[i]@), Some(context@))
                    &&& final(self).metrics_view() == counts_after_action(old(self).metrics_view(), false, elapsed_ms)
                },
                None => {
                    &&& r is None
                    &&& final(self).audit_view() == old(self).audit_view()
                    &&& final(self).metrics_view() == old(self).metrics_view()
                },
            },
    {
        match any_blocked(results) {
            Some(blocked) => {
                let reason = match &blocked.verdict {
                    GuardrailVerdict::Block { reason } => reason.clone(),
                    _ => owned("blocked"),
                };
                let mut detail = owned("BLOCKED: ");
                detail.append(reason.as_str());
                let _id = self.audit.log(Severity::Critical, action, detail.as_str(), Some(context.duplicate()));
                self.metrics.record_action(false, elapsed_ms);
                Some(GateOutcome::Blocked { reason })
            },
            None => None,
        }
    }

    /// Settles a gate by the consensus round's outcome. Consensus gives
    /// `Approved` (an info entry quoting the agreement, one approved action,
    /// one agreement); a failed consensus gives `Rejected` with its reason
    /// (a warning entry, one blocked action, one consensus failure); any
    /// other error is handed back with nothing recorded.
    /// `agreement_percent` is the agreement ratio times 100, printed with
    /// no decimals.
    pub fn settle(&mut self, action: &str, outcome: BastionResult<ConsensusResult>, agreement_percent: &str, elapsed_ms: u64) -> (r: BastionResult<GateOutcome>)
        requires
            outcome is Ok ==> room_for_action(old(self).metrics_view(), elapsed_ms)
                && old(self).metrics_view().consensus_agreements < u64::MAX,
            outcome matches Err(BastionError::ConsensusFailure { .. }) ==> room_for_action(old(self).metrics_view(), elapsed_ms)
                && old(self).metrics_view().consensus_failures < u64::MAX,
        ensures
            final(self).retry_budget() == old(self).retry_budget(),
            match outcome {
                Ok(c) => {
                    &&& r matches Ok(GateOutcome::Approved { consensus }) && consensus == c
                    &&& appended(old(self).audit_view(), final(self).audit_view(), Severity::Info, action@,
                            "APPROVED: "@ + agreement_percent@ + "%"@, None)
                    &&& final(self).metrics_view() == (MetricsSnapshot {
                        consensus_agreements: (old(self).metrics_view().consensus_agreements + 1) as u64,
                        ..counts_after_action(old(self).metrics_view(), true, elapsed_ms)
                    })
                },
                Err(BastionError::ConsensusFailure { reason }) => {
                    &&& r matches Ok(GateOutcome::Rejected { reason: why }) && why@ == reason@
                    &&& appended(old(self).audit_view(), final(self).audit_view(), Severity::Warning, action@,
                            "REJECTED: "@ + reason@, None)
                    &&& final(self).metrics_view() == (MetricsSnapshot {
                        consensus_failures: (old(self).metrics_view().consensus_failures + 1) as u64,
                        ..counts_after_action(old(self).metrics_view(), false, elapsed_ms)
                    })
                },
                Err(e) => {
                    &&& r matches Err(e2) && e2 == e
                    &&& final(self).audit_view() == old(self).audit_view()
                    &&& final(self).metrics_view() == old(self).metrics_view()
                },
            },
    {
        match outcome {
            Ok(consensus) => {
                let mut detail = owned("APPROVED: ");
                detail.append(agreement_percent);
                detail.append("%");
                let _id = self.audit.log(Severity::Info, action, detail.as_str(), None);
                self.metrics.record_action(true, elapsed_ms);
                self.metrics.record_consensus(true);
                Ok(GateOutcome::Approved { consensus })
            },
            Err(BastionError::ConsensusFailure { reason }) => {
                let mut detail = owned("REJECTED: ");
                detail.append(reason.as_str());
                let _id = self.audit.log(Severity::Warning, action, detail.as_str(), None);
                self.metrics.record_action(false, elapsed_ms);
                self.metrics.record_consensus(false);
                Ok(GateOutcome::Rejected { reason })
            },
            Err(e) => Err(e),
        }
    }

    /// Records that a checkpoint was saved.
    pub fn checkpoint_saved(&mut self, label: &str)
        ensures
            final(self).retry_budget() == old(self).retry_budget(),
            final(self).metrics_view() == old(self).metrics_view(),
            appended(old(self).audit_view(), final(self).audit_view(), Severity::Info, "checkpoint"@, "saved: "@ + label@, None),
    {
        let mut detail = owned("saved: ");
        detail.append(label);
        let _id = self.audit.log(Severity::Info, "checkpoint", detail.as_str(), None);
    }

    /// Records that the runtime rolled back to a checkpoint.
    pub fn rolled_back(&mut self, label: &str)
        requires
            old(self).metrics_view().rollbacks < u64::MAX,
        ensures
            final(self).retry_budget() == old(self).retry_budget(),
            final(self).metrics_view() == (MetricsSnapshot { rollbacks: (old(self).metrics_view().rollbacks + 1) as u64, ..old(self).metrics_view() }),
            appended(old(self).audit_view(), final(self).audit_view(), Severity::Critical, "rollback"@, "restored to: "@ + label@, None),
    {
        let mut detail = owned("restored to: ");
        detail.append(label);
        let _id = self.audit.log(Severity::Critical, "rollback", detail.as_str(), None);
        self.metrics.record_rollback();
    }

    /// Snapshots `state` under `label` into the store and records the save;
    /// gives the new checkpoint's id.
    pub fn checkpoint(&mut self, store: &mut MemoryStore, label: &str, state: JsonValue) -> (r: BastionResult<String>)
        ensures
            final(self).retry_budget() == old(self).retry_budget(),
            r matches Ok(id) && {
                &&& is_uuid_v4_text(id@)
                &&& checkpoint_stored(old(store).view(), final(store).view(), id@, label@, state@)
            },
            final(self).metrics_view() == old(self).metrics_view(),
            appended(old(self).audit_view(), final(self).audit_view(), Severity::Info, "checkpoint"@, "saved: "@ + label@, None),
    {
        let cp = Checkpoint::new(label, state);
        let id = cp.id.clone();
        let saved = store.save(&cp);
        assert(saved is Ok);
        self.checkpoint_saved(label);
        Ok(id)
    }

    /// Restores the checkpoint with this id from the store and records the
    /// rollback; an id the store does not hold gives `NotFound` and records
    /// nothing.
    pub fn rollback(&mut self, store: &MemoryStore, id: &str) -> (r: BastionResult<Checkpoint>)
        requires
            store.view().contains_key(id@) ==> old(self).metrics_view().rollbacks < u64::MAX,
        ensures
            final(self).retry_budget() == old(self).retry_budget(),
            match r {
                Ok(cp) => {
                    &&& store.view().contains_key(id@)
                    &&& cp@ == store.view()[id@]
                    &&& final(self).metrics_view() == (MetricsSnapshot {
                        rollbacks: (old(self).metrics_view().rollbacks + 1) as u64,
                        ..old(self).metrics_view()
                    })
                    &&& appended(old(self).audit_view(), final(self).audit_view(), Severity::Critical, "rollback"@,
                            "restored to: "@ + cp.label@, None)
                },
                Err(BastionError::NotFound(missing)) => {
                    &&& !store.view().contains_key(id@)
                    &&& missing@ == id@
                    &&& final(self).metrics_view() == old(self).metrics_view()
                    &&& final(self).audit_view() == old(self).audit_view()
                },
                Err(_) => false,
            },
    {
        let cp = store.load(id)?;
        self.rolled_back(cp.label.as_str());
        Ok(cp)
    }

    /// Records the results of the verifications of an action: a valid
    /// result counts as passed; an invalid one is logged as critical and
    /// counts as failed; a drifting one is logged as a warning and counts
    /// as drift. `score_texts[i]` is the drift score of `results[i]`
    /// printed with two decimals.
    pub fn verified(&mut self, action: &str, results: &[(String, VerifyResult)], score_texts: &[String])
        requires
            score_texts@.len() == results@.len(),
            old(self).metrics_view().verifications_passed + verification_counts(results@, results@.len() as int).0 <= u64::MAX,
            old(self).metrics_view().verifications_failed + verification_counts(results@, results@.len() as int).1 <= u64::MAX,
            old(self).metrics_view().drift_detections + verification_counts(results@, results@.len() as int).2 <= u64::MAX,
        ensures
            final(self).retry_budget() == old(self).retry_budget(),
            notes_logged(old(self).audit_view(), final(self).audit_view(), action@,
                verification_notes(results@, score_texts@, results@.len() as int)),
            ({
                let (v, i, d) = verification_counts(results@, results@.len() as int);
                final(self).metrics_view() == (MetricsSnapshot {
                    verifications_passed: (old(self).metrics_view().verifications_passed + v) as u64,
                    verifications_failed: (old(self).metrics_view().verifications_failed + i) as u64,
                    drift_detections: (old(self).metrics_view().drift_detections + d) as u64,
                    ..old(self).metrics_view()
                })
            }),
    {
        let ghost a0 = self.audit_view();
        let ghost m0 = self.metrics_view();
        let n = results.len();
        assert(a0.subrange(0, a0.len() as int) =~= a0);
        let mut i: usize = 0;
        while i < n
            invariant
                n == results@.len(),
                n == score_texts@.len(),
                i <= n,
                self.retry_budget() == old(self).retry_budget(),
                a0 == old(self).audit_view(),
                m0 == old(self).metrics_view(),
                m0.verifications_passed + verification_counts(results@, n as int).0 <= u64::MAX,
                m0.verifications_failed + verification_counts(results@, n as int).1 <= u64::MAX,
                m0.drift_detections + verification_counts(results@, n as int).2 <= u64::MAX,
                notes_logged(a0, self.audit_view(), action@, verification_notes(results@, score_texts@, i as int)),
                ({
                    let (v, f, d) = verification_counts(results@, i as int);
                    self.metrics_view() == (MetricsSnapshot {
                        verifications_passed: (m0.verifications_passed + v) as u64,
                        verifications_failed: (m0.verifications_failed + f) as u64,
                        drift_detections: (m0.drift_detections + d) as u64,
                        ..m0
                    })
                }),
            decreases n - i,
        {
            proof { lemma_counts_monotone(results@, i as int + 1, n as int); }
            let ghost before = self.audit_view();
            let ghost notes = verification_notes(results@, score_texts@, i as int);
            match &results[i].1 {
                VerifyResult::Valid => {
                    self.metrics.record_verification(true);
                },
                VerifyResult::Invalid { reason } => {
                    let mut detail = owned("VERIFY FAILED (");
                    detail.append(results[i].0.as_str());
                    detail.append("): ");
                    detail.append(reason.as_str());
                    let _id = self.audit.log(Severity::Critical, action, detail.as_str(), None);
                    self.metrics.record_verification(false);
                    proof { lemma_notes_push(a0, before, self.audit_view(), action@, notes); }
                },
                VerifyResult::Drift { score_bits, detail: drift } => {
                    let mut detail = owned("DRIFT (");
                    detail.append(results[i].0.as_str());
                    detail.append("): ");
                    detail.append(drift.as_str());
                    detail.append(" (score=");
                    detail.append(score_texts[i].as_str());
                    detail.append(")");
                    let _id = self.audit.log(Severity::Warning, action, detail.as_str(), None);
                    self.metrics.record_drift();
                    proof { lemma_notes_push(a0, before, self.audit_view(), action@, notes); }
                },
            }
            i = i + 1;
        }
    }

    /// Decides what to do after a failure, with this runtime's retry
    /// budget, and logs the decision as a warning under `heal:<failure>`.
    pub fn heal(&mut self, failure_type: &str, error: &str, attempt: u32, prev_failures: &[String]) -> (action: HealAction)
        ensures
            final(self).retry_budget() == old(self).retry_budget(),
            final(self).metrics_view() == old(self).metrics_view(),
            action@ == heal_plan(HealDecisionView {
                attempt,
                max_retries: old(self).retry_budget(),
                failure_type: failure_type@,
                error_detail: error@,
                previous_failures: prev_failures@.map_values(|s: String| s@),
            }),
            appended(old(self).audit_view(), final(self).audit_view(), Severity::Warning,
                "heal:"@ + failure_type@, heal_debug(action@), None),
    {
        let mut previous: Vec<String> = Vec::new();
        let mut i: usize = 0;
        while i < prev_failures.len()
            invariant
                i <= prev_failures@.len(),
                previous@.len() == i,
                forall|k: int| 0 <= k < i ==> #[trigger] previous@[k] == prev_failures@[k],
            decreases prev_failures@.len() - i,
        {
            previous.push(prev_failures[i].clone());
            i = i + 1;
        }
        let ctx = HealDecision {
            attempt,
            max_retries: self.max_retries,
            failure_type: owned(failure_type),
            error_detail: owned(error),
            previous_failures: previous,
        };
        assert(ctx@.previous_failures =~= prev_failures@.map_values(|s: String| s@));
        let action = decide(&ctx);
        let mut label = owned("heal:");
        label.append(failure_type);
        let detail = heal_debug_text(&action);
        let _id = self.audit.log(Severity::Warning, label.as_str(), detail.as_str(), None);
        action
    }

    /// The counters now.
    pub fn observe(&self) -> (s: MetricsSnapshot)
        ensures
            s == self.metrics_view(),
            s.approved + s.blocked == s.total_actions,
    {
        self.metrics.snapshot()
    }

    /// The audit trail.
    pub fn audit_log(&self) -> (log: &AuditLog)
        ensures
            log.view() == self.audit_view(),
    {
        &self.audit
    }
}

proof fn lemma_counts_monotone(results: Seq<(String, VerifyResult)>, i: int, n: int)
    requires
        0 <= i <= n,
    ensures
        verification_counts(results, i).0 <= verification_counts(results, n).0,
        verification_counts(results, i).1 <= verification_counts(results, n).1,
        verification_counts(results, i).2 <= verification_counts(results, n).2,
    decreases n - i,
{
    if i < n {
        lemma_counts_monotone(results, i, n - 1);
    }
}

proof fn lemma_notes_push(
    a0: Seq<AuditEntryView>,
    before: Seq<AuditEntryView>,
    after: Seq<AuditEntryView>,
    action: Seq<char>,
    notes: Seq<(Severity, Seq<char>)>,
)
    requires
        notes_logged(a0, before, action, notes),
        after.len() == before.len() + 1,
        after.drop_last() == before,
        after.last().action == action,
        after.last().data is None,
    ensures
        notes_logged(a0, after, action, notes.push((after.last().severity, after.last().detail))),
{
    let np = notes.push((after.last().severity, after.last().detail));
    assert(after.subrange(0, a0.len() as int) =~= before.subrange(0, a0.len() as int)) by {
        assert forall|k: int| 0 <= k < a0.len() implies after[k] == before[k] by {
            assert(after.drop_last()[k] == after[k]);
        }
    }
    assert forall|k: int| 0 <= k < np.len() implies {
        &&& #[trigger] after[a0.len() + k].severity == np[k].0
        &&& after[a0.len() + k].action == action
        &&& after[a0.len() + k].detail == np[k].1
        &&& after[a0.len() + k].data is None
    } by {
        if k < notes.len() {
            assert(after.drop_last()[a0.len() + k] == after[a0.len() + k]);
            assert(before[a0.len() + k].severity == notes[k].0);
        }
    }
}

/// `after` is `before` with one more checkpoint stored under `id`: made of
/// `label` and `state`, with no metadata.
pub open spec fn checkpoint_stored(
    before: Map<Seq<char>, CheckpointView>,
    after: Map<Seq<char>, CheckpointView>,
    id: Seq<char>,
    label: Seq<char>,
    state: JsonModel,
) -> bool {
    &&& after.contains_key(id)
    &&& after[id].id == id
    &&& after[id].label == label
    &&& after[id].state == state
    &&& after[id].metadata.len() == 0
    &&& after == before.insert(id, after[id])
}

/// Rolling back to a checkpoint that the runtime made gives back the id,
/// label and state it was made with, and no metadata; saving other
/// checkpoints in between, under other ids, does not change what comes back.
pub proof fn law_rollback_restores_checkpoint(
    before: Map<Seq<char>, CheckpointView>,
    after: Map<Seq<char>, CheckpointView>,
    id: Seq<char>,
    label: Seq<char>,
    state: JsonModel,
    others: Seq<CheckpointView>,
)
    requires
        checkpoint_stored(before, after, id, label, state),
        forall|j: int| 0 <= j < others.len() ==> #[trigger] others[j].id != id,
    ensures
        saved_all(after, others).contains_key(id),
        saved_all(after, others)[id].id == id,
        saved_all(after, others)[id].label == label,
        saved_all(after, others)[id].state == state,
        saved_all(after, others)[id].metadata.len() == 0,
    decreases others.len(),
{
    if others.len() > 0 {
        law_rollback_restores_checkpoint(before, after, id, label, state, others.drop_last());
    }
}

/// The store after saving each of `others` in turn.
pub open spec fn saved_all(store: Map<Seq<char>, CheckpointView>, others: Seq<CheckpointView>) -> Map<Seq<char>, CheckpointView>
    decreases others.len(),
{
    if others.len() == 0 {
        store
    } else {
        let last = others.last();
        saved_all(store, others.drop_last()).insert(last.id, last)
    }
}

} // verus!
