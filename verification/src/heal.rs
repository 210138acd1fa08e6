//! Self-healing decision tree: when something fails, decide whether to
//! retry, simplify, escalate, roll back or abort.

use vstd::prelude::*;

use crate::text::{decimal, is_text, owned, push_decimal};

verus! {

/// What the healer decides to do.
#[derive(Debug, Clone, PartialEq)]
#[must_use]
pub enum HealAction {
    /// Retry the same action (possibly with a different model).
    Retry { reason: String },
    /// Retry with reduced scope or simpler approach.
    RetrySimplified { reason: String },
    /// Escalate to human review.
    Escalate { reason: String },
    /// Abort: too many failures, give up.
    Abort { reason: String },
    /// Roll back to a checkpoint and try a different approach.
    Rollback { checkpoint_id: String, reason: String },
}

/// The mathematical value of a [`HealAction`]: its variant and its texts.
pub enum HealActionView {
    Retry { reason: Seq<char> },
    RetrySimplified { reason: Seq<char> },
    Escalate { reason: Seq<char> },
    Abort { reason: Seq<char> },
    Rollback { checkpoint_id: Seq<char>, reason: Seq<char> },
}

impl View for HealAction {
    type V = HealActionView;

    open spec fn view(&self) -> HealActionView {
        match self {
            HealAction::Retry { reason } => HealActionView::Retry { reason: reason@ },
            HealAction::RetrySimplified { reason } => HealActionView::RetrySimplified { reason: reason@ },
            HealAction::Escalate { reason } => HealActionView::Escalate { reason: reason@ },
            HealAction::Abort { reason } => HealActionView::Abort { reason: reason@ },
            HealAction::Rollback { checkpoint_id, reason } => HealActionView::Rollback {
                checkpoint_id: checkpoint_id@,
                reason: reason@,
            },
        }
    }
}

/// Decision context for the healer.
#[derive(Debug, Clone)]
pub struct HealDecision {
    pub attempt: u32,
    pub max_retries: u32,
    pub failure_type: String,
    pub error_detail: String,
    pub previous_failures: Vec<String>,
}

/// The mathematical value of a [`HealDecision`].
pub struct HealDecisionView {
    pub attempt: u32,
    pub max_retries: u32,
    pub failure_type: Seq<char>,
    pub error_detail: Seq<char>,
    pub previous_failures: Seq<Seq<char>>,
}

impl View for HealDecision {
    type V = HealDecisionView;

    open spec fn view(&self) -> HealDecisionView {
        HealDecisionView {
            attempt: self.attempt,
            max_retries: self.max_retries,
            failure_type: self.failure_type@,
            error_detail: self.error_detail@,
            previous_failures: self.previous_failures@.map_values(|s: String| s@),
        }
    }
}

impl Default for HealDecision {
    fn default() -> (d: Self)
        ensures
            d.attempt == 1,
            d.max_retries == 3,
            d.failure_type@ == Seq::<char>::empty(),
            d.error_detail@ == Seq::<char>::empty(),
            d.previous_failures@ == Seq::<String>::empty(),
    {
        HealDecision {
            attempt: 1,
            max_retries: 3,
            failure_type: String::new(),
            error_detail: String::new(),
            previous_failures: Vec::new(),
        }
    }
}

/// The last two recorded failures are the same error.
pub open spec fn oscillating(failures: Seq<Seq<char>>) -> bool {
    failures.len() >= 2 && failures[failures.len() - 1] == failures[failures.len() - 2]
}

/// The healer's decision tree, stated over the decision context.
pub open spec fn heal_plan(ctx: HealDecisionView) -> HealActionView {
    let ft = ctx.failure_type;
    if ctx.attempt > ctx.max_retries {
        HealActionView::Abort {
            reason: "exceeded max retries ("@ + decimal(ctx.max_retries as nat) + ")"@,
        }
    } else if oscillating(ctx.previous_failures) {
        HealActionView::Escalate {
            reason: "oscillation detected: same error '"@
                + ctx.previous_failures[ctx.previous_failures.len() - 1] + "' repeated"@,
        }
    } else if ft == "consensus_failure"@ {
        if ctx.attempt == 1 {
            HealActionView::Retry { reason: "consensus not reached — retrying with same agents"@ }
        } else {
            HealActionView::Escalate { reason: "consensus failed multiple times — needs human review"@ }
        }
    } else if ft == "verification_failed"@ || ft == "invalid_output"@ {
        if ctx.attempt <= 1 {
            HealActionView::Retry { reason: "output verification failed — retrying"@ }
        } else {
            HealActionView::RetrySimplified { reason: "output keeps failing verification — simplifying"@ }
        }
    } else if ft == "drift_detected"@ {
        HealActionView::Rollback {
            checkpoint_id: Seq::empty(),
            reason: "drift detected: "@ + ctx.error_detail,
        }
    } else if ft == "timeout"@ {
        HealActionView::Retry { reason: "operation timed out — retrying"@ }
    } else if ft == "guardrail_blocked"@ {
        HealActionView::Escalate { reason: "guardrail blocked action: "@ + ctx.error_detail }
    } else if ctx.attempt == 1 {
        HealActionView::Retry { reason: "unknown failure: "@ + ft + " — retrying"@ }
    } else {
        HealActionView::Escalate { reason: "repeated failure: "@ + ft }
    }
}

/// Once the attempts exceed the retry budget, the healer aborts, whatever
/// the failure.
pub proof fn law_over_budget_aborts(ctx: HealDecisionView)
    requires
        ctx.attempt > ctx.max_retries,
    ensures
        heal_plan(ctx) is Abort,
{
}

/// The healer aborts only when the attempts exceed the retry budget.
pub proof fn law_abort_only_over_budget(ctx: HealDecisionView)
    requires
        heal_plan(ctx) is Abort,
    ensures
        ctx.attempt > ctx.max_retries,
{
}

/// Within the budget, the same error twice in a row is escalated to a
/// human, whatever the failure type.
pub proof fn law_oscillation_escalates(ctx: HealDecisionView)
    requires
        ctx.attempt <= ctx.max_retries,
        oscillating(ctx.previous_failures),
    ensures
        heal_plan(ctx) == (HealActionView::Escalate {
            reason: "oscillation detected: same error '"@ + ctx.previous_failures.last() + "' repeated"@,
        }),
{
}

/// Within the retry budget and without oscillation, the healer answers by
/// the failure type: a timeout is always retried; a consensus failure is
/// retried once and then escalated; a failed verification or invalid output
/// is retried once and then retried simplified; drift rolls back; a blocked
/// guardrail is escalated; any other failure is retried once and then
/// escalated.
pub proof fn law_heal_by_failure_type(ctx: HealDecisionView)
    requires
        ctx.attempt <= ctx.max_retries,
        !oscillating(ctx.previous_failures),
    ensures
        ctx.failure_type == "timeout"@
            ==> heal_plan(ctx) == (HealActionView::Retry { reason: "operation timed out — retrying"@ }),
        ctx.failure_type == "consensus_failure"@ && ctx.attempt == 1
            ==> heal_plan(ctx) == (HealActionView::Retry { reason: "consensus not reached — retrying with same agents"@ }),
        ctx.failure_type == "consensus_failure"@ && ctx.attempt != 1
            ==> heal_plan(ctx) == (HealActionView::Escalate { reason: "consensus failed multiple times — needs human review"@ }),
        (ctx.failure_type == "verification_failed"@ || ctx.failure_type == "invalid_output"@) && ctx.attempt <= 1
            ==> heal_plan(ctx) == (HealActionView::Retry { reason: "output verification failed — retrying"@ }),
        (ctx.failure_type == "verification_failed"@ || ctx.failure_type == "invalid_output"@) && ctx.attempt > 1
            ==> heal_plan(ctx) == (HealActionView::RetrySimplified { reason: "output keeps failing verification — simplifying"@ }),
        ctx.failure_type == "drift_detected"@ ==> heal_plan(ctx) == (HealActionView::Rollback {
            checkpoint_id: Seq::empty(),
            reason: "drift detected: "@ + ctx.error_detail,
        }),
        ctx.failure_type == "guardrail_blocked"@
            ==> heal_plan(ctx) == (HealActionView::Escalate { reason: "guardrail blocked action: "@ + ctx.error_detail }),
        ctx.failure_type != "timeout"@ && ctx.failure_type != "consensus_failure"@
            && ctx.failure_type != "verification_failed"@ && ctx.failure_type != "invalid_output"@
            && ctx.failure_type != "drift_detected"@ && ctx.failure_type != "guardrail_blocked"@ && ctx.attempt == 1
            ==> heal_plan(ctx) == (HealActionView::Retry { reason: "unknown failure: "@ + ctx.failure_type + " — retrying"@ }),
        ctx.failure_type != "timeout"@ && ctx.failure_type != "consensus_failure"@
            && ctx.failure_type != "verification_failed"@ && ctx.failure_type != "invalid_output"@
            && ctx.failure_type != "drift_detected"@ && ctx.failure_type != "guardrail_blocked"@ && ctx.attempt != 1
            ==> heal_plan(ctx) == (HealActionView::Escalate { reason: "repeated failure: "@ + ctx.failure_type }),
{
    // The six named failure types differ in their first character.
    reveal_strlit("timeout");
    reveal_strlit("consensus_failure");
    reveal_strlit("verification_failed");
    reveal_strlit("invalid_output");
    reveal_strlit("drift_detected");
    reveal_strlit("guardrail_blocked");
    assert("timeout"@[0] == 't');
    assert("consensus_failure"@[0] == 'c');
    assert("verification_failed"@[0] == 'v');
    assert("invalid_output"@[0] == 'i');
    assert("drift_detected"@[0] == 'd');
    assert("guardrail_blocked"@[0] == 'g');
}

/// Decide what to do when an action fails.
pub fn decide(ctx: &HealDecision) -> (action: HealAction)
    ensures
        action@ == heal_plan(ctx@),
{
    if ctx.attempt > ctx.max_retries {
        let mut reason = owned("exceeded max retries (");
        push_decimal(&mut reason, ctx.max_retries);
        reason.append(")");
        return HealAction::Abort { reason };
    }
    let n = ctx.previous_failures.len();
    if n >= 2 {
        let last = &ctx.previous_failures[n - 1];
        let prev = &ctx.previous_failures[n - 2];
        if last.eq(prev) {
            let mut reason = owned("oscillation detected: same error '");
            reason.append(last.as_str());
            reason.append("' repeated");
            return HealAction::Escalate { reason };
        }
    }
    assert(!oscillating(ctx@.previous_failures));
    let ft = &ctx.failure_type;
    if is_text(ft, "consensus_failure") {
        if ctx.attempt == 1 {
            HealAction::Retry { reason: owned("consensus not reached — retrying with same agents") }
        } else {
            HealAction::Escalate { reason: owned("consensus failed multiple times — needs human review") }
        }
    } else if is_text(ft, "verification_failed") || is_text(ft, "invalid_output") {
        if ctx.attempt <= 1 {
            HealAction::Retry { reason: owned("output verification failed — retrying") }
        } else {
            HealAction::RetrySimplified { reason: owned("output keeps failing verification — simplifying") }
        }
    } else if is_text(ft, "drift_detected") {
        let mut reason = owned("drift detected: ");
        reason.append(ctx.error_detail.as_str());
        HealAction::Rollback { checkpoint_id: String::new(), reason }
    } else if is_text(ft, "timeout") {
        HealAction::Retry { reason: owned("operation timed out — retrying") }
    } else if is_text(ft, "guardrail_blocked") {
        let mut reason = owned("guardrail blocked action: ");
        reason.append(ctx.error_detail.as_str());
        HealAction::Escalate { reason }
    } else if ctx.attempt == 1 {
        let mut reason = owned("unknown failure: ");
        reason.append(ft.as_str());
        reason.append(" — retrying");
        HealAction::Retry { reason }
    } else {
        let mut reason = owned("repeated failure: ");
        reason.append(ft.as_str());
        HealAction::Escalate { reason }
    }
}

} // verus!
