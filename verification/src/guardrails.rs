//! Pluggable domain guardrails: different rules for finance, medical,
//! coding and defense.

use vstd::prelude::*;

use crate::json::{JsonModel, JsonValue};
use crate::text::{find_first, first_match, lemma_first_match_from, owned, seq_contains, pattern_views, spec_to_lowercase, to_lowercase};

verus! {

/// Bit pattern of the `f64` value 1.0.
pub const RISK_FULL_BITS: u64 = 0x3FF0_0000_0000_0000u64;

/// Bit pattern of the `f64` value 0.8.
pub const RISK_MEDICAL_BITS: u64 = 0x3FE9_9999_9999_999Au64;

/// Bit pattern of the `f64` value 0.0.
pub const RISK_NONE_BITS: u64 = 0u64;

#[derive(Debug, Clone, PartialEq)]
pub enum GuardrailVerdict {
    Allow,
    Block { reason: String },
    Warn { reason: String },
}

/// The mathematical value of a [`GuardrailVerdict`].
pub enum VerdictView {
    Allow,
    Block { reason: Seq<char> },
    Warn { reason: Seq<char> },
}

impl View for GuardrailVerdict {
    type V = VerdictView;

    open spec fn view(&self) -> VerdictView {
        match self {
            GuardrailVerdict::Allow => VerdictView::Allow,
            GuardrailVerdict::Block { reason } => VerdictView::Block { reason: reason@ },
            GuardrailVerdict::Warn { reason } => VerdictView::Warn { reason: reason@ },
        }
    }
}

/// The outcome of one guardrail. The risk score, a number between 0 and 1,
/// is held as the bit pattern of an `f64` (`f64::to_bits`).
#[derive(Debug, Clone)]
pub struct GuardrailResult {
    pub rule: String,
    pub verdict: GuardrailVerdict,
    pub risk_score_bits: u64,
}

/// The mathematical value of a [`GuardrailResult`].
pub struct GuardrailResultView {
    pub rule: Seq<char>,
    pub verdict: VerdictView,
    pub risk_score_bits: u64,
}

impl View for GuardrailResult {
    type V = GuardrailResultView;

    open spec fn view(&self) -> GuardrailResultView {
        GuardrailResultView { rule: self.rule@, verdict: self.verdict@, risk_score_bits: self.risk_score_bits }
    }
}

/// A guardrail that evaluates whether an action should proceed.
pub trait Guardrail: Send + Sync {
    // Each implementation in this library defines the three spec functions;
    // the defaults name no particular value, so an implementation that
    // keeps them cannot prove its methods' contracts.

    /// The guardrail's name.
    closed spec fn spec_name(&self) -> Seq<char> {
        vstd::pervasive::arbitrary()
    }

    /// The domain the guardrail belongs to.
    closed spec fn spec_domain(&self) -> Seq<char> {
        vstd::pervasive::arbitrary()
    }

    /// What the guardrail answers for an action in a context.
    closed spec fn spec_evaluate(&self, action: Seq<char>, context: JsonModel) -> GuardrailResultView {
        vstd::pervasive::arbitrary()
    }

    fn name(&self) -> (r: &str)
        ensures
            r@ == self.spec_name(),
    ;

    fn domain(&self) -> (r: &str)
        ensures
            r@ == self.spec_domain(),
    ;

    fn evaluate(&self, action: &str, context: &JsonValue) -> (r: GuardrailResult)
        ensures
            r@ == self.spec_evaluate(action@, context@),
    ;
}

// ── Code guardrails ──────────────────────────────────────

/// Blocks actions that mention destructive commands.
pub struct DangerousPatterns;

/// The commands that [`DangerousPatterns`] looks for, in the order it looks.
pub open spec fn dangerous_patterns() -> Seq<Seq<char>> {
    seq![
        "rm -rf /"@, "drop table"@, "delete from"@, "format c:"@,
        "shutdown"@, "exec("@, "eval("@, "system("@,
    ]
}

/// What [`DangerousPatterns`] answers for an action.
pub open spec fn dangerous_patterns_result(action: Seq<char>) -> GuardrailResultView {
    match first_match(spec_to_lowercase(action), dangerous_patterns()) {
        Some(i) => GuardrailResultView {
            rule: "dangerous_patterns"@,
            verdict: VerdictView::Block { reason: "dangerous pattern detected: "@ + dangerous_patterns()[i] },
            risk_score_bits: RISK_FULL_BITS,
        },
        None => GuardrailResultView {
            rule: "dangerous_patterns"@,
            verdict: VerdictView::Allow,
            risk_score_bits: RISK_NONE_BITS,
        },
    }
}

impl Guardrail for DangerousPatterns {
    open spec fn spec_name(&self) -> Seq<char> {
        "dangerous_patterns"@
    }

    open spec fn spec_domain(&self) -> Seq<char> {
        "coding"@
    }

    open spec fn spec_evaluate(&self, action: Seq<char>, context: JsonModel) -> GuardrailResultView {
        dangerous_patterns_result(action)
    }

    fn name(&self) -> (r: &str) {
        "dangerous_patterns"
    }

    fn domain(&self) -> (r: &str) {
        "coding"
    }

    fn evaluate(&self, action: &str, context: &JsonValue) -> (r: GuardrailResult)
        ensures
            r@ == dangerous_patterns_result(action@),
    {
        let lower = to_lowercase(action);
        let pats: Vec<&str> = vec![
            "rm -rf /", "drop table", "delete from", "format c:",
            "shutdown", "exec(", "eval(", "system(",
        ];
        assert(pattern_views(pats@) =~= dangerous_patterns());
        match find_first(lower.as_str(), &pats) {
            Some(i) => {
                let mut reason = owned("dangerous pattern detected: ");
                reason.append(pats[i]);
                GuardrailResult {
                    rule: owned("dangerous_patterns"),
                    verdict: GuardrailVerdict::Block { reason },
                    risk_score_bits: RISK_FULL_BITS,
                }
            },
            None => GuardrailResult {
                rule: owned("dangerous_patterns"),
                verdict: GuardrailVerdict::Allow,
                risk_score_bits: RISK_NONE_BITS,
            },
        }
    }
}

// ── Medical guardrails ───────────────────────────────────

/// Warns on actions that read as medical advice.
pub struct MedicalDisclaimer;

/// The terms that [`MedicalDisclaimer`] looks for, in the order it looks.
pub open spec fn medical_terms() -> Seq<Seq<char>> {
    seq!["prescribe"@, "diagnose"@, "dosage"@, "treatment plan"@, "medication"@]
}

/// What [`MedicalDisclaimer`] answers for an action.
pub open spec fn medical_disclaimer_result(action: Seq<char>) -> GuardrailResultView {
    match first_match(spec_to_lowercase(action), medical_terms()) {
        Some(i) => GuardrailResultView {
            rule: "medical_disclaimer"@,
            verdict: VerdictView::Warn {
                reason: "medical action '"@ + medical_terms()[i] + "' requires human oversight"@,
            },
            risk_score_bits: RISK_MEDICAL_BITS,
        },
        None => GuardrailResultView {
            rule: "medical_disclaimer"@,
            verdict: VerdictView::Allow,
            risk_score_bits: RISK_NONE_BITS,
        },
    }
}

impl Guardrail for MedicalDisclaimer {
    open spec fn spec_name(&self) -> Seq<char> {
        "medical_disclaimer"@
    }

    open spec fn spec_domain(&self) -> Seq<char> {
        "medical"@
    }

    open spec fn spec_evaluate(&self, action: Seq<char>, context: JsonModel) -> GuardrailResultView {
        medical_disclaimer_result(action)
    }

    fn name(&self) -> (r: &str) {
        "medical_disclaimer"
    }

    fn domain(&self) -> (r: &str) {
        "medical"
    }

    fn evaluate(&self, action: &str, context: &JsonValue) -> (r: GuardrailResult)
        ensures
            r@ == medical_disclaimer_result(action@),
    {
        let lower = to_lowercase(action);
        let terms: Vec<&str> = vec!["prescribe", "diagnose", "dosage", "treatment plan", "medication"];
        assert(pattern_views(terms@) =~= medical_terms());
        match find_first(lower.as_str(), &terms) {
            Some(i) => {
                let mut reason = owned("medical action '");
                reason.append(terms[i]);
                reason.append("' requires human oversight");
                GuardrailResult {
                    rule: owned("medical_disclaimer"),
                    verdict: GuardrailVerdict::Warn { reason },
                    risk_score_bits: RISK_MEDICAL_BITS,
                }
            },
            None => GuardrailResult {
                rule: owned("medical_disclaimer"),
                verdict: GuardrailVerdict::Allow,
                risk_score_bits: RISK_NONE_BITS,
            },
        }
    }
}

// ── Defense guardrails ───────────────────────────────────

/// Blocks every action that the context does not mark as approved by a human.
pub struct HumanInLoop;

/// The context holds `"human_approved": true`.
pub open spec fn human_approved(context: JsonModel) -> bool {
    context.member("human_approved"@) == Some(JsonModel::Bool(true))
}

/// What [`HumanInLoop`] answers for a context.
pub open spec fn human_in_loop_result(context: JsonModel) -> GuardrailResultView {
    if human_approved(context) {
        GuardrailResultView { rule: "human_in_loop"@, verdict: VerdictView::Allow, risk_score_bits: RISK_NONE_BITS }
    } else {
        GuardrailResultView {
            rule: "human_in_loop"@,
            verdict: VerdictView::Block { reason: "defense actions require explicit human approval"@ },
            risk_score_bits: RISK_FULL_BITS,
        }
    }
}

impl Guardrail for HumanInLoop {
    open spec fn spec_name(&self) -> Seq<char> {
        "human_in_loop"@
    }

    open spec fn spec_domain(&self) -> Seq<char> {
        "defense"@
    }

    open spec fn spec_evaluate(&self, action: Seq<char>, context: JsonModel) -> GuardrailResultView {
        human_in_loop_result(context)
    }

    fn name(&self) -> (r: &str) {
        "human_in_loop"
    }

    fn domain(&self) -> (r: &str) {
        "defense"
    }

    fn evaluate(&self, action: &str, context: &JsonValue) -> (r: GuardrailResult)
        ensures
            r@ == human_in_loop_result(context@),
    {
        let approved = match context.get("human_approved") {
            Some(v) => match v.as_bool() {
                Some(b) => b,
                None => false,
            },
            None => false,
        };
        if !approved {
            GuardrailResult {
                rule: owned("human_in_loop"),
                verdict: GuardrailVerdict::Block { reason: owned("defense actions require explicit human approval") },
                risk_score_bits: RISK_FULL_BITS,
            }
        } else {
            GuardrailResult { rule: owned("human_in_loop"), verdict: GuardrailVerdict::Allow, risk_score_bits: RISK_NONE_BITS }
        }
    }
}

/// The code guardrail blocks exactly the actions whose lower-cased text
/// contains one of the destructive commands `rm -rf /`, `drop table`,
/// `delete from`, `format c:`, `shutdown`, `exec(`, `eval(` and `system(`,
/// with full risk, naming the first of them in that order that occurs; every
/// other action is allowed with no risk.
pub proof fn law_dangerous_commands_block(action: Seq<char>)
    ensures
        ({
            let lower = spec_to_lowercase(action);
            let cmds = seq![
                "rm -rf /"@,
                "drop table"@,
                "delete from"@,
                "format c:"@,
                "shutdown"@,
                "exec("@,
                "eval("@,
                "system("@,
            ];
            let r = dangerous_patterns_result(action);
            &&& r.rule == "dangerous_patterns"@
            &&& (exists|i: int| 0 <= i < 8 && seq_contains(lower, #[trigger] cmds[i])) ==> {
                exists|i: int| {
                    &&& 0 <= i < 8
                    &&& seq_contains(lower, #[trigger] cmds[i])
                    &&& forall|j: int| 0 <= j < i ==> !seq_contains(lower, #[trigger] cmds[j])
                    &&& r.verdict == VerdictView::Block { reason: "dangerous pattern detected: "@ + cmds[i] }
                    &&& r.risk_score_bits == 0x3FF0_0000_0000_0000u64
                }
            }
            &&& (forall|i: int| 0 <= i < 8 ==> !seq_contains(lower, #[trigger] cmds[i])) ==> {
                &&& r.verdict == VerdictView::Allow
                &&& r.risk_score_bits == 0u64
            }
        }),
{
    let lower = spec_to_lowercase(action);
    let cmds = seq![
        "rm -rf /"@,
        "drop table"@,
        "delete from"@,
        "format c:"@,
        "shutdown"@,
        "exec("@,
        "eval("@,
        "system("@,
    ];
    assert(dangerous_patterns() =~= cmds);
    lemma_first_match_from(lower, cmds, 0);
}

/// The medical guardrail warns on exactly the actions whose lower-cased
/// text contains one of `prescribe`, `diagnose`, `dosage`, `treatment plan`
/// and `medication`, naming the first of them in that order that occurs,
/// with risk 0.8; every other action is allowed with no risk.
pub proof fn law_medical_terms_warn(action: Seq<char>)
    ensures
        ({
            let lower = spec_to_lowercase(action);
            let terms = seq!["prescribe"@, "diagnose"@, "dosage"@, "treatment plan"@, "medication"@];
            let r = medical_disclaimer_result(action);
            &&& r.rule == "medical_disclaimer"@
            &&& (exists|i: int| 0 <= i < 5 && seq_contains(lower, #[trigger] terms[i])) ==> {
                exists|i: int| {
                    &&& 0 <= i < 5
                    &&& seq_contains(lower, #[trigger] terms[i])
                    &&& forall|j: int| 0 <= j < i ==> !seq_contains(lower, #[trigger] terms[j])
                    &&& r.verdict == VerdictView::Warn {
                        reason: "medical action '"@ + terms[i] + "' requires human oversight"@,
                    }
                    &&& r.risk_score_bits == 0x3FE9_9999_9999_999Au64
                }
            }
            &&& (forall|i: int| 0 <= i < 5 ==> !seq_contains(lower, #[trigger] terms[i])) ==> {
                &&& r.verdict == VerdictView::Allow
                &&& r.risk_score_bits == 0u64
            }
        }),
{
    let lower = spec_to_lowercase(action);
    let terms = seq!["prescribe"@, "diagnose"@, "dosage"@, "treatment plan"@, "medication"@];
    assert(medical_terms() =~= terms);
    lemma_first_match_from(lower, terms, 0);
}

/// The defense guardrail allows an action, with no risk, exactly when its
/// context has the member `"human_approved": true` (the first member of that
/// name); otherwise it blocks it with full risk, asking for human approval.
pub proof fn law_human_approval_required(context: JsonModel)
    ensures
        context.member("human_approved"@) == Some(JsonModel::Bool(true)) ==> human_in_loop_result(context)
            == (GuardrailResultView { rule: "human_in_loop"@, verdict: VerdictView::Allow, risk_score_bits: 0u64 }),
        context.member("human_approved"@) != Some(JsonModel::Bool(true)) ==> human_in_loop_result(context)
            == (GuardrailResultView {
                rule: "human_in_loop"@,
                verdict: VerdictView::Block { reason: "defense actions require explicit human approval"@ },
                risk_score_bits: 0x3FF0_0000_0000_0000u64,
            }),
{
}

/// The medical guardrail never blocks: it warns or allows.
pub proof fn law_medical_never_blocks(action: Seq<char>)
    ensures
        !(medical_disclaimer_result(action).verdict is Block),
{
}

/// The defense guardrail allows exactly the actions whose context holds
/// `"human_approved": true`, and blocks all others.
pub proof fn law_human_in_loop_blocks_unapproved(context: JsonModel)
    ensures
        human_in_loop_result(context).verdict is Allow <==> human_approved(context),
        human_in_loop_result(context).verdict is Block <==> !human_approved(context),
{
}

/// The index of the first result whose verdict blocks.
pub open spec fn first_blocked_from(results: Seq<GuardrailResult>, i: int) -> Option<int>
    decreases results.len() - i,
{
    if i < 0 || i >= results.len() {
        None
    } else if results[i].verdict is Block {
        Some(i)
    } else {
        first_blocked_from(results, i + 1)
    }
}

/// The first block wins: the search from index `i` finds the least index
/// from `i` on whose verdict blocks, and finds nothing exactly when no
/// verdict from `i` on blocks.
pub proof fn law_first_block_wins(results: Seq<GuardrailResult>, i: int)
    requires
        0 <= i <= results.len(),
    ensures
        match first_blocked_from(results, i) {
            Some(j) => {
                &&& i <= j < results.len()
                &&& results[j].verdict is Block
                &&& forall|m: int| i <= m < j ==> !(#[trigger] results[m].verdict is Block)
            },
            None => forall|m: int| i <= m < results.len() ==> !(#[trigger] results[m].verdict is Block),
        },
    decreases results.len() - i,
{
    if i < results.len() && !(results[i].verdict is Block) {
        law_first_block_wins(results, i + 1);
    }
}

/// Quick check: did any guardrail block? Gives the first result that did.
pub fn any_blocked(results: &[GuardrailResult]) -> (r: Option<&GuardrailResult>)
    ensures
        match r {
            Some(b) => exists|i: int| first_blocked_from(results@, 0) == Some(i) && results@[i] == *b,
            None => first_blocked_from(results@, 0) is None,
        },
{
    let mut i: usize = 0;
    while i < results.len()
        invariant
            i <= results@.len(),
            first_blocked_from(results@, 0) == first_blocked_from(results@, i as int),
        decreases results@.len() - i,
    {
        if let GuardrailVerdict::Block { .. } = &results[i].verdict {
            assert(first_blocked_from(results@, i as int) == Some(i as int));
            return Some(&results[i]);
        }
        i = i + 1;
    }
    None
}

/// Runs every guardrail on the action, in order.
pub fn evaluate_all(guardrails: &[Box<dyn Guardrail>], action: &str, context: &JsonValue) -> (r: Vec<GuardrailResult>)
    ensures
        r@.len() == guardrails@.len(),
        forall|k: int| 0 <= k < guardrails@.len() ==> #[trigger] r@[k]@ == guardrails@[k].spec_evaluate(action@, context@),
{
    let mut out: Vec<GuardrailResult> = Vec::new();
    let mut i: usize = 0;
    while i < guardrails.len()
        invariant
            i <= guardrails@.len(),
            out@.len() == i,
            forall|k: int| 0 <= k < i ==> #[trigger] out@[k]@ == guardrails@[k].spec_evaluate(action@, context@),
        decreases guardrails@.len() - i,
    {
        out.push(guardrails[i].evaluate(action, context));
        i = i + 1;
    }
    out
}

} // verus!
