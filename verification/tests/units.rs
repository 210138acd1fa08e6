use bastion_core::audit::{sha256_hash, verify_entries, AuditLog, Severity};
use bastion_core::checkpoint::{checkpoint_id_of_file, Checkpoint, MemoryStore};
use bastion_core::consensus::{count_rule_met, require_agents, dissenting, group_by_content, normalize, tally, AgentResponse, ConsensusConfig, ConsensusStrategy};
use bastion_core::error::BastionError;
use bastion_core::guardrails::{any_blocked, DangerousPatterns, Guardrail, GuardrailResult, GuardrailVerdict, HumanInLoop, MedicalDisclaimer};
use bastion_core::heal::{decide, HealAction, HealDecision};
use bastion_core::json::{ActionResult, JsonValue};
use bastion_core::observe::{duration_millis, Metrics, Timer};
use bastion_core::runtime::{GateOutcome, RuntimeCore};
use bastion_core::text::trim;
use bastion_core::verify::{all_valid, file_check_verdict, requested_path, has_drift, HallucinationCheck, NotEmpty, Verification, VerifyResult};

fn obj(pairs: Vec<(&str, JsonValue)>) -> JsonValue {
    JsonValue::Object(pairs.into_iter().map(|(k, v)| (k.to_string(), v)).collect())
}

fn text(s: &str) -> JsonValue {
    JsonValue::String(s.to_string())
}

fn response(content: &str, confidence: f64) -> AgentResponse {
    AgentResponse { content: content.to_string(), confidence_bits: confidence.to_bits(), model_id: "m".to_string(), metadata: Vec::new() }
}

fn ctx(attempt: u32, max_retries: u32, failure_type: &str, detail: &str, prev: Vec<&str>) -> HealDecision {
    HealDecision {
        attempt,
        max_retries,
        failure_type: failure_type.to_string(),
        error_detail: detail.to_string(),
        previous_failures: prev.into_iter().map(|s| s.to_string()).collect(),
    }
}

fn reason_of(a: &HealAction) -> &str {
    match a {
        HealAction::Retry { reason }
        | HealAction::RetrySimplified { reason }
        | HealAction::Escalate { reason }
        | HealAction::Abort { reason }
        | HealAction::Rollback { reason, .. } => reason,
    }
}

// ── heal ─────────────────────────────────────────────────

#[test]
fn heal_abort_quotes_budget() {
    let a = decide(&ctx(4, 3, "timeout", "", vec![]));
    assert_eq!(a, HealAction::Abort { reason: "exceeded max retries (3)".to_string() });
    let a = decide(&ctx(1000, 999, "timeout", "", vec![]));
    assert_eq!(reason_of(&a), "exceeded max retries (999)");
}

#[test]
fn heal_over_budget_beats_oscillation() {
    let a = decide(&ctx(5, 2, "consensus_failure", "", vec!["x", "x"]));
    assert!(matches!(a, HealAction::Abort { .. }));
}

#[test]
fn heal_oscillation_reason() {
    let a = decide(&ctx(1, 3, "timeout", "", vec!["boom", "boom"]));
    assert_eq!(a, HealAction::Escalate { reason: "oscillation detected: same error 'boom' repeated".to_string() });
    let b = decide(&ctx(1, 3, "timeout", "", vec!["boom", "bang"]));
    assert!(matches!(b, HealAction::Retry { .. }));
}

#[test]
fn heal_consensus_failure_branches() {
    assert_eq!(
        decide(&ctx(1, 3, "consensus_failure", "", vec![])),
        HealAction::Retry { reason: "consensus not reached — retrying with same agents".to_string() }
    );
    assert_eq!(
        decide(&ctx(2, 3, "consensus_failure", "", vec![])),
        HealAction::Escalate { reason: "consensus failed multiple times — needs human review".to_string() }
    );
}

#[test]
fn heal_verification_branches() {
    assert_eq!(
        decide(&ctx(1, 3, "invalid_output", "", vec![])),
        HealAction::Retry { reason: "output verification failed — retrying".to_string() }
    );
    assert_eq!(
        decide(&ctx(2, 3, "verification_failed", "", vec![])),
        HealAction::RetrySimplified { reason: "output keeps failing verification — simplifying".to_string() }
    );
}

#[test]
fn heal_drift_rolls_back() {
    assert_eq!(
        decide(&ctx(1, 3, "drift_detected", "score fell", vec![])),
        HealAction::Rollback { checkpoint_id: String::new(), reason: "drift detected: score fell".to_string() }
    );
}

#[test]
fn heal_guardrail_and_unknown() {
    assert_eq!(
        decide(&ctx(1, 3, "guardrail_blocked", "no", vec![])),
        HealAction::Escalate { reason: "guardrail blocked action: no".to_string() }
    );
    assert_eq!(
        decide(&ctx(1, 3, "disk", "", vec![])),
        HealAction::Retry { reason: "unknown failure: disk — retrying".to_string() }
    );
    assert_eq!(
        decide(&ctx(2, 3, "disk", "", vec![])),
        HealAction::Escalate { reason: "repeated failure: disk".to_string() }
    );
}

#[test]
fn heal_decision_default() {
    let d = HealDecision::default();
    assert_eq!(d.attempt, 1);
    assert_eq!(d.max_retries, 3);
    assert!(d.failure_type.is_empty() && d.previous_failures.is_empty());
}

// ── guardrails ───────────────────────────────────────────

#[test]
fn dangerous_patterns_reason_and_risk() {
    let r = DangerousPatterns.evaluate("please DROP TABLE users", &JsonValue::Null);
    assert_eq!(r.rule, "dangerous_patterns");
    assert_eq!(r.verdict, GuardrailVerdict::Block { reason: "dangerous pattern detected: drop table".to_string() });
    assert_eq!(f64::from_bits(r.risk_score_bits), 1.0);
    let ok = DangerousPatterns.evaluate("list tables", &JsonValue::Null);
    assert_eq!(ok.verdict, GuardrailVerdict::Allow);
    assert_eq!(f64::from_bits(ok.risk_score_bits), 0.0);
    assert_eq!(DangerousPatterns.domain(), "coding");
}

#[test]
fn dangerous_patterns_first_pattern_wins() {
    let r = DangerousPatterns.evaluate("eval(x); rm -rf /", &JsonValue::Null);
    assert_eq!(r.verdict, GuardrailVerdict::Block { reason: "dangerous pattern detected: rm -rf /".to_string() });
}

#[test]
fn medical_disclaimer_warns() {
    let r = MedicalDisclaimer.evaluate("Adjust the DOSAGE", &JsonValue::Null);
    assert_eq!(r.verdict, GuardrailVerdict::Warn { reason: "medical action 'dosage' requires human oversight".to_string() });
    assert_eq!(f64::from_bits(r.risk_score_bits), 0.8);
    assert_eq!(MedicalDisclaimer.evaluate("ship it", &JsonValue::Null).verdict, GuardrailVerdict::Allow);
}

#[test]
fn human_in_loop_reads_context() {
    let blocked = HumanInLoop.evaluate("fire", &obj(vec![("human_approved", text("true"))]));
    assert!(matches!(blocked.verdict, GuardrailVerdict::Block { .. }));
    let missing = HumanInLoop.evaluate("fire", &JsonValue::Null);
    assert_eq!(
        missing.verdict,
        GuardrailVerdict::Block { reason: "defense actions require explicit human approval".to_string() }
    );
    let ok = HumanInLoop.evaluate("fire", &obj(vec![("human_approved", JsonValue::Bool(true))]));
    assert_eq!(ok.verdict, GuardrailVerdict::Allow);
}

#[test]
fn any_blocked_gives_first_block() {
    let results = vec![
        GuardrailResult { rule: "a".into(), verdict: GuardrailVerdict::Warn { reason: "w".into() }, risk_score_bits: 0 },
        GuardrailResult { rule: "b".into(), verdict: GuardrailVerdict::Block { reason: "x".into() }, risk_score_bits: 0 },
        GuardrailResult { rule: "c".into(), verdict: GuardrailVerdict::Block { reason: "y".into() }, risk_score_bits: 0 },
    ];
    assert_eq!(any_blocked(&results).map(|r| r.rule.as_str()), Some("b"));
    assert!(any_blocked(&results[..1]).is_none());
}

// ── verify ───────────────────────────────────────────────

#[test]
fn not_empty_each_kind() {
    let check = |v: JsonValue| NotEmpty.check("a", &ActionResult::new(v));
    assert_eq!(check(JsonValue::Null), VerifyResult::Invalid { reason: "result is null".into() });
    assert_eq!(check(text("")), VerifyResult::Invalid { reason: "result is empty string".into() });
    assert_eq!(check(JsonValue::Array(vec![])), VerifyResult::Invalid { reason: "result is empty array".into() });
    assert_eq!(check(JsonValue::Object(vec![])), VerifyResult::Invalid { reason: "result is empty object".into() });
    assert_eq!(check(JsonValue::Bool(false)), VerifyResult::Valid);
    assert_eq!(check(JsonValue::Number("0".into())), VerifyResult::Valid);
    assert_eq!(check(JsonValue::Array(vec![JsonValue::Null])), VerifyResult::Valid);
}

#[test]
fn hallucination_marker_detail() {
    let r = HallucinationCheck.check("a", &ActionResult::new(text("As an AI, I cannot")));
    assert_eq!(
        r,
        VerifyResult::Drift { score_bits: 0.3f64.to_bits(), detail: "possible hallucination marker: 'i cannot'".into() }
    );
    assert_eq!(HallucinationCheck.check("a", &ActionResult::new(text("fine"))), VerifyResult::Valid);
}

#[test]
fn hallucination_reads_json_text() {
    // The marker is looked for in the JSON text, keys included.
    let keyed = obj(vec![("hypothetically", JsonValue::Bool(true))]);
    assert!(matches!(HallucinationCheck.check("a", &ActionResult::new(keyed)), VerifyResult::Drift { .. }));
    // JSON text leaves an apostrophe as it is, so "i don't have access" matches.
    let quoted = text("I don't have access to that");
    assert!(matches!(HallucinationCheck.check("a", &ActionResult::new(quoted)), VerifyResult::Drift { .. }));
}

#[test]
fn action_result_text_is_compact_json() {
    let v = obj(vec![
        ("b", JsonValue::Number("1.5".into())),
        ("a", JsonValue::Array(vec![JsonValue::Null, JsonValue::Bool(true), text("x\"y")])),
    ]);
    let r = ActionResult::new(v);
    assert_eq!(r.text(), "{\"a\":[null,true,\"x\\\"y\"],\"b\":1.5}");
    assert_eq!(r.value().get("b").and_then(|x| match x {
        JsonValue::Number(n) => Some(n.clone()),
        _ => None,
    }), Some("1.5".to_string()));
    assert_eq!(ActionResult::new(JsonValue::Null).text(), "null");
    assert_eq!(ActionResult::new(text("hi")).text(), "\"hi\"");
}

#[test]
fn trim_removes_unicode_white_space() {
    assert_eq!(trim("  a b \t\n"), "a b");
    assert_eq!(trim("\u{3000}\u{85}x\u{2028}"), "x");
    assert_eq!(trim(" \u{A0} "), "");
    assert_eq!(trim(""), "");
    assert_eq!(trim("\u{200B}x"), "\u{200B}x");
    for s in ["  x ", "\u{1680}y\u{205F}", "\r\n z \u{202F}", "\u{2000}\u{200A}"] {
        assert_eq!(trim(s), s.trim());
    }
}

#[test]
fn all_valid_and_has_drift() {
    let valid = vec![("a".to_string(), VerifyResult::Valid)];
    assert!(all_valid(&valid) && !has_drift(&valid));
    let mixed = vec![
        ("a".to_string(), VerifyResult::Valid),
        ("b".to_string(), VerifyResult::Drift { score_bits: 0, detail: "d".into() }),
    ];
    assert!(!all_valid(&mixed) && has_drift(&mixed));
    assert!(all_valid(&[]) && !has_drift(&[]));
}

// ── json ─────────────────────────────────────────────────

#[test]
fn json_get_and_duplicate() {
    let v = obj(vec![("a", JsonValue::Bool(true)), ("a", JsonValue::Bool(false)), ("s", text("x"))]);
    assert_eq!(v.get("a").and_then(|x| x.as_bool()), Some(true));
    assert_eq!(v.get("s").and_then(|x| x.as_str()), Some("x"));
    assert!(v.get("missing").is_none());
    assert!(text("x").get("a").is_none());
    let copy = v.duplicate();
    assert_eq!(copy.get("s").and_then(|x| x.as_str()), Some("x"));
}

// ── audit ────────────────────────────────────────────────

#[test]
fn sha256_of_known_input() {
    assert_eq!(sha256_hash("abc"), "ba7816bf8f01cfea414140de5dae2223b00361a396177a9cb410ff61f20015ad");
    assert_eq!(sha256_hash(""), "e3b0c44298fc1c149afbf4c8996fb92427ae41e4649b934ca495991b7852b855");
}

#[test]
fn audit_log_chains_entries() {
    let mut log = AuditLog::new();
    let id1 = log.log(Severity::Info, "a", "first", None);
    let id2 = log.log(Severity::Critical, "b", "second", Some(JsonValue::Bool(true)));
    assert_ne!(id1, id2);
    let es = log.entries();
    assert_eq!(log.len(), 2);
    assert_eq!(es[0].id, id1);
    assert_eq!(es[0].prev_hash, "GENESIS");
    assert_eq!(es[1].prev_hash, es[0].hash);
    assert_eq!(es[0].hash.len(), 64);
    assert_eq!(es[1].severity, Severity::Critical);
    assert_eq!(log.verify_chain(), (true, None));
    assert_eq!(verify_entries(&es), (true, None));
}

#[test]
fn tampering_is_detected() {
    let mut log = AuditLog::new();
    log.log(Severity::Info, "a", "one", None);
    log.log(Severity::Info, "b", "two", None);
    log.log(Severity::Info, "c", "three", None);

    let mut es = log.entries();
    es[1].detail = "forged".to_string();
    assert_eq!(verify_entries(&es), (false, Some(1)));

    let mut es = log.entries();
    es[0].hash = sha256_hash("anything");
    assert_eq!(verify_entries(&es), (false, Some(1)));

    let mut es = log.entries();
    es[2].prev_hash = "GENESIS".to_string();
    assert_eq!(verify_entries(&es), (false, Some(2)));
}

#[test]
fn tampering_with_severity_or_data_is_detected() {
    let mut log = AuditLog::new();
    log.log(Severity::Critical, "a", "blocked", Some(JsonValue::Bool(true)));
    log.log(Severity::Info, "b", "two", None);

    let mut es = log.entries();
    es[0].severity = Severity::Info;
    assert_eq!(verify_entries(&es), (false, Some(0)));

    let mut es = log.entries();
    es[0].data = Some(JsonValue::Bool(false));
    assert_eq!(verify_entries(&es), (false, Some(0)));

    let mut es = log.entries();
    es[1].data = Some(JsonValue::Null);
    assert_eq!(verify_entries(&es), (false, Some(1)));
}

#[test]
fn ids_have_uuid_v4_form() {
    let mut log = AuditLog::new();
    let id = log.log(Severity::Info, "a", "x", None);
    let cp = Checkpoint::new("l", JsonValue::Null);
    for s in [id.as_str(), cp.id.as_str()] {
        let cs: Vec<char> = s.chars().collect();
        assert_eq!(cs.len(), 36);
        for (i, c) in cs.iter().enumerate() {
            if [8, 13, 18, 23].contains(&i) {
                assert_eq!(*c, '-');
            } else {
                assert!(c.is_ascii_digit() || ('a'..='f').contains(c));
            }
        }
        assert_eq!(cs[14], '4');
        assert!(['8', '9', 'a', 'b'].contains(&cs[19]));
    }
}

// ── checkpoints ──────────────────────────────────────────

#[test]
fn memory_store_round_trip() {
    let mut store = MemoryStore::new();
    let a = Checkpoint::new("a", JsonValue::Number("1".into()));
    let b = Checkpoint::new("b", JsonValue::Null);
    store.save(&a).unwrap();
    store.save(&b).unwrap();
    let mut ids = store.list().unwrap();
    ids.sort();
    let mut expected = vec![a.id.clone(), b.id.clone()];
    expected.sort();
    assert_eq!(ids, expected);
    assert_eq!(store.load(&a.id).unwrap().label, "a");
    store.delete(&a.id).unwrap();
    assert!(matches!(store.load(&a.id), Err(BastionError::NotFound(ref id)) if *id == a.id));
    assert_eq!(store.list().unwrap(), vec![b.id.clone()]);
    store.delete("nothing").unwrap();
}

#[test]
fn memory_store_save_replaces() {
    let mut store = MemoryStore::new();
    let mut a = Checkpoint::new("first", JsonValue::Null);
    store.save(&a).unwrap();
    a.label = "second".to_string();
    store.save(&a).unwrap();
    assert_eq!(store.list().unwrap().len(), 1);
    assert_eq!(store.load(&a.id).unwrap().label, "second");
}

// ── consensus ────────────────────────────────────────────

#[test]
fn normalize_trims_and_lowercases() {
    assert_eq!(normalize("  APPROVE \n"), "approve");
}

#[test]
fn groups_are_ranked() {
    let rs = vec![
        response("A", 0.9),
        response("b", 0.9),
        response(" a ", 0.9),
        response("B", 0.9),
        response("c", 0.9),
        response("c", 0.9),
        response("c", 0.9),
    ];
    let gs = group_by_content(&rs);
    assert_eq!(gs, vec![vec![4, 5, 6], vec![0, 2], vec![1, 3]]);
}

#[test]
fn dissent_excludes_winner() {
    let rs = vec![response("APPROVE", 0.9), response("reject", 0.5), response("approve ", 0.8)];
    let d = dissenting(&rs, "approve");
    assert_eq!(d.len(), 1);
    assert_eq!(d[0].content, "reject");
    assert_eq!(f64::from_bits(d[0].confidence_bits), 0.5);
}

#[test]
fn tally_needs_responses() {
    match tally(Vec::new()) {
        Err(BastionError::ConsensusFailure { reason }) => assert_eq!(reason, "no valid responses"),
        _ => panic!("expected a consensus failure"),
    }
    let t = tally(vec![response("x", 1.0)]).ok().unwrap();
    assert_eq!(t.groups, vec![vec![0]]);
}

#[test]
fn count_rules() {
    assert_eq!(count_rule_met(ConsensusStrategy::Majority, 2, 3), Some(true));
    assert_eq!(count_rule_met(ConsensusStrategy::Majority, 1, 2), Some(false));
    assert_eq!(count_rule_met(ConsensusStrategy::Unanimous, 3, 3), Some(true));
    assert_eq!(count_rule_met(ConsensusStrategy::Unanimous, 2, 3), Some(false));
    assert_eq!(count_rule_met(ConsensusStrategy::Weighted, 2, 3), None);
    assert_eq!(count_rule_met(ConsensusStrategy::Supermajority(0.67f64.to_bits()), 2, 3), None);
}

#[test]
fn consensus_defaults() {
    let c = ConsensusConfig::default();
    assert_eq!(c.strategy, ConsensusStrategy::Majority);
    assert_eq!(f64::from_bits(c.min_confidence_bits), 0.0);
    assert_eq!(c.timeout_ms, 30_000);
    assert_eq!(ConsensusStrategy::default(), ConsensusStrategy::Majority);
}

// ── metrics ──────────────────────────────────────────────

#[test]
fn metrics_count() {
    let mut m = Metrics::new();
    m.record_action(true, 10);
    m.record_action(false, 5);
    m.record_consensus(true);
    m.record_consensus(false);
    m.record_drift();
    m.record_rollback();
    m.record_failure();
    m.record_verification(true);
    m.record_verification(false);
    let s = m.snapshot();
    assert_eq!((s.total_actions, s.approved, s.blocked, s.total_latency_ms), (2, 1, 1, 15));
    assert_eq!((s.consensus_agreements, s.consensus_failures), (1, 1));
    assert_eq!((s.drift_detections, s.rollbacks, s.failed), (1, 1, 1));
    assert_eq!((s.verifications_passed, s.verifications_failed), (1, 1));
}

#[test]
fn timer_runs() {
    let t = Timer::start();
    assert!(t.elapsed_ms() < 60_000);
}

// ── runtime core ─────────────────────────────────────────

#[test]
fn core_records_blocked_gate() {
    let mut core = RuntimeCore::new(3);
    let context = obj(vec![("k", text("v"))]);
    let results = vec![DangerousPatterns.evaluate("shutdown now", &context)];
    let out = core.screen("shutdown now", &context, &results, 7);
    match out {
        Some(GateOutcome::Blocked { reason }) => assert_eq!(reason, "dangerous pattern detected: shutdown"),
        _ => panic!("expected a block"),
    }
    let es = core.audit_log().entries();
    assert_eq!(es.len(), 1);
    assert_eq!(es[0].detail, "BLOCKED: dangerous pattern detected: shutdown");
    assert_eq!(es[0].severity, Severity::Critical);
    assert!(es[0].data.as_ref().and_then(|d| d.get("k")).is_some());
    let m = core.observe();
    assert_eq!((m.total_actions, m.blocked, m.total_latency_ms), (1, 1, 7));
}

#[test]
fn core_settles_rejection_and_errors() {
    let mut core = RuntimeCore::new(3);
    let out = core.settle("act", Err(BastionError::ConsensusFailure { reason: "split".into() }), "", 1).unwrap();
    assert!(matches!(out, GateOutcome::Rejected { ref reason } if reason == "split"));
    assert!(matches!(core.settle("act", Err(BastionError::NoAgents), "", 1), Err(BastionError::NoAgents)));
    let es = core.audit_log().entries();
    assert_eq!(es.len(), 1);
    assert_eq!(es[0].detail, "REJECTED: split");
    let m = core.observe();
    assert_eq!((m.total_actions, m.blocked, m.consensus_failures), (1, 1, 1));
}

#[test]
fn core_logs_verification_notes() {
    let mut core = RuntimeCore::new(3);
    let results = vec![
        ("not_empty".to_string(), VerifyResult::Invalid { reason: "result is null".into() }),
        ("ok".to_string(), VerifyResult::Valid),
        ("drift".to_string(), VerifyResult::Drift { score_bits: 0.3f64.to_bits(), detail: "d".into() }),
    ];
    let scores = vec![String::new(), String::new(), "0.30".to_string()];
    core.verified("act", &results, &scores);
    let es = core.audit_log().entries();
    assert_eq!(es.len(), 2);
    assert_eq!(es[0].detail, "VERIFY FAILED (not_empty): result is null");
    assert_eq!(es[1].detail, "DRIFT (drift): d (score=0.30)");
    assert_eq!(es[1].severity, Severity::Warning);
    let m = core.observe();
    assert_eq!((m.verifications_passed, m.verifications_failed, m.drift_detections), (1, 1, 1));
}

#[test]
fn core_heal_logs_debug_text() {
    let mut core = RuntimeCore::new(3);
    let a = core.heal("timeout", "slow", 1, &[]);
    let es = core.audit_log().entries();
    assert_eq!(es[0].action, "heal:timeout");
    assert_eq!(es[0].detail, format!("{:?}", a));
    assert_eq!(es[0].detail, "Retry { reason: \"operation timed out — retrying\" }");
    assert_eq!(core.max_retries(), 3);
}

#[test]
fn core_checkpoint_and_rollback_entries() {
    let mut core = RuntimeCore::new(3);
    core.checkpoint_saved("pre");
    core.rolled_back("pre");
    let es = core.audit_log().entries();
    assert_eq!((es[0].action.as_str(), es[0].detail.as_str()), ("checkpoint", "saved: pre"));
    assert_eq!((es[1].action.as_str(), es[1].detail.as_str()), ("rollback", "restored to: pre"));
    assert_eq!(core.observe().rollbacks, 1);
    assert_eq!(core.audit_log().verify_chain(), (true, None));
}

#[test]
fn dissent_counts_the_rest() {
    let rs = vec![
        response("APPROVE", 0.9),
        response("reject", 0.9),
        response("approve", 0.9),
        response("maybe", 0.9),
    ];
    let t = tally(rs).ok().unwrap();
    let winner = &t.groups[0];
    let key = normalize(&t.responses[winner[0]].content);
    let d = dissenting(&t.responses, &key);
    assert_eq!(winner, &vec![0, 2]);
    assert_eq!(d.len() + winner.len(), t.responses.len());
}

#[test]
fn winner_gives_first_member_and_dissent() {
    let rs = vec![
        response("reject", 0.5),
        response(" Approve", 0.8),
        response("approve ", 0.9),
        response("maybe", 0.7),
    ];
    let t = tally(rs).ok().unwrap();
    assert_eq!(t.groups[0], vec![1, 2]);
    let (chosen, dissent) = t.winner(0);
    assert_eq!(chosen.content, " Approve");
    let contents: Vec<&str> = dissent.iter().map(|r| r.content.as_str()).collect();
    assert_eq!(contents, vec!["reject", "maybe"]);
}

#[test]
fn contains_is_exact() {
    let r = DangerousPatterns.evaluate("format c", &JsonValue::Null);
    assert_eq!(r.verdict, GuardrailVerdict::Allow);
    let r = DangerousPatterns.evaluate("FORMAT C:", &JsonValue::Null);
    assert_eq!(r.verdict, GuardrailVerdict::Block { reason: "dangerous pattern detected: format c:".to_string() });
}

#[test]
fn tampered_last_hash_is_reported_at_its_entry() {
    let mut log = AuditLog::new();
    log.log(Severity::Info, "a", "one", None);
    log.log(Severity::Info, "b", "two", None);
    let mut es = log.entries();
    es[1].hash = sha256_hash("other");
    assert_eq!(verify_entries(&es), (false, Some(1)));
    let mut es = log.entries();
    es[0].action = "z".to_string();
    assert_eq!(verify_entries(&es), (false, Some(0)));
}

#[test]
fn duration_millis_counts_whole_milliseconds() {
    assert_eq!(duration_millis(0, 999_999), 0);
    assert_eq!(duration_millis(1, 1_000_000), 1001);
    assert_eq!(duration_millis(2, 999_999_999), 2999);
    let d = std::time::Duration::new(7, 123_456_789);
    assert_eq!(duration_millis(d.as_secs(), d.subsec_nanos()), d.as_millis());
}

#[test]
fn checkpoint_ids_from_file_names() {
    assert_eq!(checkpoint_id_of_file("abc.json"), Some("abc".to_string()));
    assert_eq!(checkpoint_id_of_file("a.json.json"), Some("a".to_string()));
    assert_eq!(checkpoint_id_of_file(".json"), Some(String::new()));
    assert_eq!(checkpoint_id_of_file("x.txt"), None);
    assert_eq!(checkpoint_id_of_file("json"), None);
    for name in ["k.json", "k.json.json.json", "é.json"] {
        assert_eq!(checkpoint_id_of_file(name), Some(name.trim_end_matches(".json").to_string()));
    }
}

#[test]
fn file_check_reads_the_path() {
    let named = ActionResult::new(obj(vec![("path", text("/tmp/x"))]));
    assert_eq!(requested_path(&named), Some("/tmp/x"));
    assert_eq!(requested_path(&ActionResult::new(obj(vec![("path", JsonValue::Bool(true))]))), None);
    assert_eq!(requested_path(&ActionResult::new(JsonValue::Null)), None);
    assert_eq!(file_check_verdict("/tmp/x", true), VerifyResult::Valid);
    assert_eq!(
        file_check_verdict("/tmp/x", false),
        VerifyResult::Invalid { reason: "file not found: /tmp/x".to_string() }
    );
}

#[test]
fn consensus_needs_agents() {
    assert!(matches!(require_agents(0), Err(BastionError::NoAgents)));
    assert!(require_agents(2).is_ok());
}

#[test]
fn core_rollback_restores_checkpoint() {
    let mut core = RuntimeCore::new(3);
    let mut store = MemoryStore::new();
    let state = obj(vec![("step", JsonValue::Number("3".into()))]);
    let id = core.checkpoint(&mut store, "before-deploy", state).unwrap();
    let other = Checkpoint::new("other", JsonValue::Null);
    store.save(&other).unwrap();
    let before = core.observe();
    let n0 = core.audit_log().len();
    let cp = core.rollback(&store, &id).unwrap();
    assert_eq!(cp.id, id);
    assert_eq!(cp.label, "before-deploy");
    assert_eq!(cp.state.get("step").map(|v| matches!(v, JsonValue::Number(n) if n == "3")), Some(true));
    assert!(cp.metadata.is_empty());
    assert_eq!(core.observe().rollbacks, before.rollbacks + 1);
    assert_eq!(core.observe().total_actions, before.total_actions);
    let es = core.audit_log().entries();
    assert_eq!(es.len(), n0 + 1);
    assert_eq!(es[n0].severity, Severity::Critical);
    assert_eq!(es[n0].action, "rollback");
    assert_eq!(es[n0].detail, "restored to: before-deploy");
    assert_eq!(es[0].detail, "saved: before-deploy");
    assert!(store.load(&id).is_ok());
    assert!(matches!(core.rollback(&store, "missing"), Err(BastionError::NotFound(ref m)) if m == "missing"));
    assert_eq!(core.audit_log().len(), n0 + 1);
}
