//! Deterministic verification: validate agent outputs without an LLM call.
//! Catches hallucinations, silent failures and drift.

use vstd::prelude::*;

use crate::json::{spec_json_text, ActionResult, JsonModel, JsonValue};
use crate::text::{find_first, first_match, lemma_first_match_from, owned, seq_contains, pattern_views, spec_to_lowercase, to_lowercase};

verus! {

/// Bit pattern of the `f64` value 0.3, the drift score of a hallucination marker.
pub const HALLUCINATION_SCORE_BITS: u64 = 0x3FD3_3333_3333_3333u64;

/// Result of a verification check. A drift score is held as the bit
/// pattern of an `f64` (`f64::to_bits`).
#[derive(Debug, Clone, PartialEq)]
#[must_use]
pub enum VerifyResult {
    /// Output matches expectations.
    Valid,
    /// Output is wrong or unexpected.
    Invalid { reason: String },
    /// Output is technically valid but shows drift from expected behavior.
    Drift { score_bits: u64, detail: String },
}

/// The mathematical value of a [`VerifyResult`].
pub enum VerifyResultView {
    Valid,
    Invalid { reason: Seq<char> },
    Drift { score_bits: u64, detail: Seq<char> },
}

impl View for VerifyResult {
    type V = VerifyResultView;

    open spec fn view(&self) -> VerifyResultView {
        match self {
            VerifyResult::Valid => VerifyResultView::Valid,
            VerifyResult::Invalid { reason } => VerifyResultView::Invalid { reason: reason@ },
            VerifyResult::Drift { score_bits, detail } => VerifyResultView::Drift {
                score_bits: *score_bits,
                detail: detail@,
            },
        }
    }
}

/// A verification check that runs deterministically (no LLM call).
pub trait Verification: Send + Sync {
    // Each implementation in this library defines both spec functions; the
    // defaults name no particular value, so an implementation that keeps
    // them cannot prove its methods' contracts.

    /// The check's name.
    closed spec fn spec_name(&self) -> Seq<char> {
        vstd::pervasive::arbitrary()
    }

    /// Whether `verdict` is an answer that this check gives for the action
    /// and the result's JSON value. A relation, not a function: a check may
    /// read the world outside its arguments (a file, a clock).
    closed spec fn answers(&self, action: Seq<char>, result: JsonModel, verdict: VerifyResultView) -> bool {
        vstd::pervasive::arbitrary()
    }

    fn name(&self) -> (r: &str)
        ensures
            r@ == self.spec_name(),
    ;

    fn check(&self, action: &str, result: &ActionResult) -> (r: VerifyResult)
        ensures
            self.answers(action@, result@, r@),
    ;
}

// ── Built-in verifications ───────────────────────────────

/// Verify that a result is not empty.
pub struct NotEmpty;

/// What [`NotEmpty`] answers for a value.
pub open spec fn not_empty_result(value: JsonModel) -> VerifyResultView {
    match value {
        JsonModel::Null => VerifyResultView::Invalid { reason: "result is null"@ },
        JsonModel::Text(s) => if s.len() == 0 {
            VerifyResultView::Invalid { reason: "result is empty string"@ }
        } else {
            VerifyResultView::Valid
        },
        JsonModel::Array(a) => if a.len() == 0 {
            VerifyResultView::Invalid { reason: "result is empty array"@ }
        } else {
            VerifyResultView::Valid
        },
        JsonModel::Object(o) => if o.len() == 0 {
            VerifyResultView::Invalid { reason: "result is empty object"@ }
        } else {
            VerifyResultView::Valid
        },
        _ => VerifyResultView::Valid,
    }
}

impl Verification for NotEmpty {
    open spec fn spec_name(&self) -> Seq<char> {
        "not_empty"@
    }

    open spec fn answers(&self, action: Seq<char>, result: JsonModel, verdict: VerifyResultView) -> bool {
        verdict == not_empty_result(result)
    }

    fn name(&self) -> (r: &str) {
        "not_empty"
    }

    fn check(&self, action: &str, result: &ActionResult) -> (r: VerifyResult)
        ensures
            r@ == not_empty_result(result@),
    {
        let value = result.value();
        proof {
            crate::json::lemma_items_model_len(*value);
        }
        match value {
            JsonValue::Null => VerifyResult::Invalid { reason: owned("result is null") },
            JsonValue::String(s) => if s.as_str().is_empty() {
                VerifyResult::Invalid { reason: owned("result is empty string") }
            } else {
                VerifyResult::Valid
            },
            JsonValue::Array(a) => if a.len() == 0 {
                VerifyResult::Invalid { reason: owned("result is empty array") }
            } else {
                VerifyResult::Valid
            },
            JsonValue::Object(o) => if o.len() == 0 {
                VerifyResult::Invalid { reason: owned("result is empty object") }
            } else {
                VerifyResult::Valid
            },
            _ => VerifyResult::Valid,
        }
    }
}

/// Verify that output doesn't contain hallucination markers.
pub struct HallucinationCheck;

/// The phrases that [`HallucinationCheck`] looks for, in the order it looks.
pub open spec fn hallucination_markers() -> Seq<Seq<char>> {
    seq![
        "i cannot"@, "i don't have access"@, "as an ai"@, "i'm not able to"@,
        "hypothetically"@, "i would assume"@, "i believe this might"@,
    ]
}

/// What [`HallucinationCheck`] answers for a result with this JSON text.
pub open spec fn hallucination_result(text: Seq<char>) -> VerifyResultView {
    match first_match(spec_to_lowercase(text), hallucination_markers()) {
        Some(i) => VerifyResultView::Drift {
            score_bits: HALLUCINATION_SCORE_BITS,
            detail: "possible hallucination marker: '"@ + hallucination_markers()[i] + "'"@,
        },
        None => VerifyResultView::Valid,
    }
}

impl Verification for HallucinationCheck {
    open spec fn spec_name(&self) -> Seq<char> {
        "hallucination_check"@
    }

    open spec fn answers(&self, action: Seq<char>, result: JsonModel, verdict: VerifyResultView) -> bool {
        verdict == hallucination_result(spec_json_text(result))
    }

    fn name(&self) -> (r: &str) {
        "hallucination_check"
    }

    fn check(&self, action: &str, result: &ActionResult) -> (r: VerifyResult)
        ensures
            r@ == hallucination_result(spec_json_text(result@)),
    {
        let lower = to_lowercase(result.text());
        let markers: Vec<&str> = vec![
            "i cannot", "i don't have access", "as an ai", "i'm not able to",
            "hypothetically", "i would assume", "i believe this might",
        ];
        assert(pattern_views(markers@) =~= hallucination_markers());
        match find_first(lower.as_str(), &markers) {
            Some(i) => {
                let mut detail = owned("possible hallucination marker: '");
                detail.append(markers[i]);
                detail.append("'");
                VerifyResult::Drift { score_bits: HALLUCINATION_SCORE_BITS, detail }
            },
            None => VerifyResult::Valid,
        }
    }
}

/// The hallucination check reports drift, with score 0.3, on exactly the
/// results whose lower-cased JSON text contains one of `i cannot`,
/// `i don't have access`, `as an ai`, `i'm not able to`, `hypothetically`,
/// `i would assume` and `i believe this might`, naming the first of them in
/// that order that occurs; every other result is valid.
pub proof fn law_hallucination_markers_drift(text: Seq<char>)
    ensures
        ({
            let lower = spec_to_lowercase(text);
            let marks = seq![
                "i cannot"@,
                "i don't have access"@,
                "as an ai"@,
                "i'm not able to"@,
                "hypothetically"@,
                "i would assume"@,
                "i believe this might"@,
            ];
            let r = hallucination_result(text);
            &&& (exists|i: int| 0 <= i < 7 && seq_contains(lower, #[trigger] marks[i])) ==> {
                exists|i: int| {
                    &&& 0 <= i < 7
                    &&& seq_contains(lower, #[trigger] marks[i])
                    &&& forall|j: int| 0 <= j < i ==> !seq_contains(lower, #[trigger] marks[j])
                    &&& r == VerifyResultView::Drift {
                        score_bits: 0x3FD3_3333_3333_3333u64,
                        detail: "possible hallucination marker: '"@ + marks[i] + "'"@,
                    }
                }
            }
            &&& (forall|i: int| 0 <= i < 7 ==> !seq_contains(lower, #[trigger] marks[i])) ==> r == VerifyResultView::Valid
        }),
{
    let lower = spec_to_lowercase(text);
    let marks = seq![
        "i cannot"@,
        "i don't have access"@,
        "as an ai"@,
        "i'm not able to"@,
        "hypothetically"@,
        "i would assume"@,
        "i believe this might"@,
    ];
    assert(hallucination_markers() =~= marks);
    lemma_first_match_from(lower, marks, 0);
}

/// The not-empty check rejects exactly null, the empty string, the empty
/// array and the empty object, each with its own reason, and passes every
/// other value.
pub proof fn law_not_empty_rejects_empty_values(value: JsonModel)
    ensures
        value == JsonModel::Null ==> not_empty_result(value) == (VerifyResultView::Invalid { reason: "result is null"@ }),
        value == JsonModel::Text(Seq::empty()) ==> not_empty_result(value)
            == (VerifyResultView::Invalid { reason: "result is empty string"@ }),
        value == JsonModel::Array(Seq::empty()) ==> not_empty_result(value)
            == (VerifyResultView::Invalid { reason: "result is empty array"@ }),
        value == JsonModel::Object(Seq::empty()) ==> not_empty_result(value)
            == (VerifyResultView::Invalid { reason: "result is empty object"@ }),
        value != JsonModel::Null && value != JsonModel::Text(Seq::empty()) && value != JsonModel::Array(Seq::empty())
            && value != JsonModel::Object(Seq::empty()) ==> not_empty_result(value) == VerifyResultView::Valid,
{
    match value {
        JsonModel::Text(s) => if s.len() == 0 { assert(s =~= Seq::<char>::empty()); },
        JsonModel::Array(a) => if a.len() == 0 { assert(a =~= Seq::<JsonModel>::empty()); },
        JsonModel::Object(o) => if o.len() == 0 { assert(o =~= Seq::<(Seq<char>, JsonModel)>::empty()); },
        _ => {},
    }
}

// ── Files named by a result ──────────────────────────────

/// The text a result holds under `"path"`, if it is an object with such a
/// string member.
pub open spec fn path_of(result: JsonModel) -> Option<Seq<char>> {
    match result.member("path"@) {
        Some(JsonModel::Text(p)) => Some(p),
        _ => None,
    }
}

/// The path that a result names under `"path"`, if it names one.
pub fn requested_path(result: &ActionResult) -> (r: Option<&str>)
    ensures
        match r {
            Some(p) => path_of(result@) == Some(p@),
            None => path_of(result@) is None,
        },
{
    match result.value().get("path") {
        Some(v) => v.as_str(),
        None => None,
    }
}

/// What a file check answers for a path, given whether a file is there.
pub open spec fn file_check_result(path: Seq<char>, exists: bool) -> VerifyResultView {
    if exists {
        VerifyResultView::Valid
    } else {
        VerifyResultView::Invalid { reason: "file not found: "@ + path }
    }
}

/// The verdict on a named file: valid where it exists, otherwise invalid
/// with the path in the reason.
pub fn file_check_verdict(path: &str, exists: bool) -> (r: VerifyResult)
    ensures
        r@ == file_check_result(path@, exists),
{
    if exists {
        VerifyResult::Valid
    } else {
        let mut reason = owned("file not found: ");
        reason.append(path);
        VerifyResult::Invalid { reason }
    }
}

/// Runs every verification on the result, in order, each paired with its name.
pub fn run_verifications(checks: &[Box<dyn Verification>], action: &str, result: &ActionResult) -> (r: Vec<(String, VerifyResult)>)
    ensures
        r@.len() == checks@.len(),
        forall|k: int| 0 <= k < checks@.len() ==> #[trigger] r@[k].0@ == checks@[k].spec_name(),
        forall|k: int| 0 <= k < checks@.len() ==> checks@[k].answers(action@, result@, #[trigger] r@[k].1@),
{
    let mut out: Vec<(String, VerifyResult)> = Vec::new();
    let mut i: usize = 0;
    while i < checks.len()
        invariant
            i <= checks@.len(),
            out@.len() == i,
            forall|k: int| 0 <= k < i ==> #[trigger] out@[k].0@ == checks@[k].spec_name(),
            forall|k: int| 0 <= k < i ==> checks@[k].answers(action@, result@, #[trigger] out@[k].1@),
        decreases checks@.len() - i,
    {
        let name = String::from_str(checks[i].name());
        let verdict = checks[i].check(action, result);
        out.push((name, verdict));
        i = i + 1;
    }
    out
}

/// Quick check: did all verifications pass?
pub fn all_valid(results: &[(String, VerifyResult)]) -> (r: bool)
    ensures
        r == (forall|i: int| 0 <= i < results@.len() ==> #[trigger] results@[i].1 is Valid),
{
    let mut i: usize = 0;
    while i < results.len()
        invariant
            i <= results@.len(),
            forall|k: int| 0 <= k < i ==> #[trigger] results@[k].1 is Valid,
        decreases results@.len() - i,
    {
        if !matches!(results[i].1, VerifyResult::Valid) {
            return false;
        }
        i = i + 1;
    }
    true
}

/// When every verification passed, none detected drift.
pub proof fn law_all_valid_excludes_drift(results: Seq<(String, VerifyResult)>)
    requires
        forall|i: int| 0 <= i < results.len() ==> #[trigger] results[i].1 is Valid,
    ensures
        !(exists|i: int| 0 <= i < results.len() && #[trigger] results[i].1 is Drift),
{
}

/// Quick check: did any verification detect drift?
pub fn has_drift(results: &[(String, VerifyResult)]) -> (r: bool)
    ensures
        r == (exists|i: int| 0 <= i < results@.len() && #[trigger] results@[i].1 is Drift),
{
    let mut i: usize = 0;
    while i < results.len()
        invariant
            i <= results@.len(),
            forall|k: int| 0 <= k < i ==> !(#[trigger] results@[k].1 is Drift),
        decreases results@.len() - i,
    {
        if matches!(results[i].1, VerifyResult::Drift { .. }) {
            return true;
        }
        i = i + 1;
    }
    false
}

} // verus!
