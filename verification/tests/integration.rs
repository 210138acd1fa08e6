use bastion_core::consensus::{count_rule_met, dissenting, tally};
use bastion_core::prelude::ConsensusStrategy;
use bastion_core::guardrails::evaluate_all;
use bastion_core::prelude::{
    ActionResult, AgentResponse, BastionError, ConsensusResult, DangerousPatterns, GateOutcome, Guardrail, HealAction,
    HumanInLoop, JsonValue, MedicalDisclaimer, MemoryStore, NotEmpty, RuntimeCore, Verification, VerifyResult,
    Checkpoint, HallucinationCheck,
};
use bastion_core::verify::run_verifications;

fn response(content: &str, confidence: f64) -> AgentResponse {
    AgentResponse {
        content: content.to_string(),
        confidence_bits: confidence.to_bits(),
        model_id: "test".to_string(),
        metadata: Vec::new(),
    }
}

fn approve() -> AgentResponse {
    response("APPROVE", 0.95)
}

fn obj(pairs: Vec<(&str, JsonValue)>) -> JsonValue {
    JsonValue::Object(pairs.into_iter().map(|(k, v)| (k.to_string(), v)).collect())
}

fn empty_context() -> JsonValue {
    JsonValue::Object(Vec::new())
}

/// One gate with a majority rule: guardrails first, then the tally of the
/// agents' responses.
fn gate(
    core: &mut RuntimeCore,
    guardrails: &[Box<dyn Guardrail>],
    action: &str,
    context: &JsonValue,
    responses: Vec<AgentResponse>,
) -> GateOutcome {
    let results = evaluate_all(guardrails, action, context);
    if let Some(outcome) = core.screen(action, context, &results, 0) {
        return outcome;
    }
    let outcome = match tally(responses) {
        Err(e) => Err(e),
        Ok(t) => {
            let total = t.responses.len();
            let winner = &t.groups[0];
            let ratio = winner.len() as f64 / total as f64;
            if count_rule_met(ConsensusStrategy::Majority, winner.len(), total) != Some(true) {
                Err(BastionError::ConsensusFailure { reason: "agreement below majority".to_string() })
            } else {
                let chosen = t.responses[winner[0]].duplicate();
                let key = bastion_core::consensus::normalize(&chosen.content);
                let dissent = dissenting(&t.responses, &key);
                Ok(ConsensusResult {
                    chosen,
                    agreement_ratio_bits: ratio.to_bits(),
                    dissenting: dissent,
                    confidence_bits: 0.95f64.to_bits(),
                    total_responses: total,
                    failed_agents: 0,
                })
            }
        }
    };
    let percent = format!("{:.0}", 100.0);
    core.settle(action, outcome, &percent, 0).unwrap()
}

#[test]
fn test_gate_approved() {
    let mut core = RuntimeCore::new(3);
    let outcome = gate(&mut core, &[], "safe action", &empty_context(), vec![approve(), approve(), approve()]);
    assert!(outcome.is_approved());
}

#[test]
fn test_gate_blocked_by_guardrail() {
    let mut core = RuntimeCore::new(3);
    let guards: Vec<Box<dyn Guardrail>> = vec![Box::new(DangerousPatterns)];
    let outcome = gate(&mut core, &guards, "DROP TABLE users", &empty_context(), vec![approve()]);
    assert!(matches!(outcome, GateOutcome::Blocked { .. }));
}

#[test]
fn test_checkpoint_and_rollback() {
    let mut core = RuntimeCore::new(3);
    let mut store = MemoryStore::new();
    let cp = Checkpoint::new("test", obj(vec![("state", JsonValue::String("before".to_string()))]));
    let cp_id = cp.id.clone();
    store.save(&cp).unwrap();
    core.checkpoint_saved("test");
    let restored = store.load(&cp_id).unwrap();
    core.rolled_back(&restored.label);
    assert_eq!(restored.label, "test");
    assert_eq!(restored.state.get("state").and_then(|v| v.as_str()), Some("before"));
}

#[test]
fn test_verify_valid() {
    let checks: Vec<Box<dyn Verification>> = vec![Box::new(NotEmpty)];
    let result = ActionResult::new(obj(vec![("data", JsonValue::String("exists".to_string()))]));
    let results = run_verifications(&checks, "action", &result);
    assert!(results.iter().all(|(_, r)| matches!(r, VerifyResult::Valid)));
}

#[test]
fn test_verify_catches_empty() {
    let checks: Vec<Box<dyn Verification>> = vec![Box::new(NotEmpty)];
    let result = ActionResult::new(JsonValue::Null);
    let results = run_verifications(&checks, "action", &result);
    assert!(results.iter().any(|(_, r)| matches!(r, VerifyResult::Invalid { .. })));
}

#[test]
fn test_verify_catches_hallucination() {
    let checks: Vec<Box<dyn Verification>> = vec![Box::new(HallucinationCheck)];
    let result = ActionResult::new(obj(vec![(
        "text",
        JsonValue::String("I believe this might work hypothetically".to_string()),
    )]));
    let results = run_verifications(&checks, "action", &result);
    assert!(results.iter().any(|(_, r)| matches!(r, VerifyResult::Drift { .. })));
}

#[test]
fn test_heal_retry() {
    let mut core = RuntimeCore::new(3);
    let action = core.heal("timeout", "request timed out", 1, &[]);
    assert!(matches!(action, HealAction::Retry { .. }));
}

#[test]
fn test_heal_abort_after_max_retries() {
    let mut core = RuntimeCore::new(2);
    let action = core.heal("timeout", "request timed out", 3, &[]);
    assert!(matches!(action, HealAction::Abort { .. }));
}

#[test]
fn test_heal_escalate_on_oscillation() {
    let mut core = RuntimeCore::new(3);
    let prev: Vec<String> = vec!["error A".into(), "error A".into()];
    let action = core.heal("verification_failed", "same error", 2, &prev);
    assert!(matches!(action, HealAction::Escalate { .. }));
}

#[test]
fn test_audit_chain_integrity() {
    let mut core = RuntimeCore::new(3);
    gate(&mut core, &[], "action 1", &empty_context(), vec![approve(), approve()]);
    gate(&mut core, &[], "action 2", &empty_context(), vec![approve(), approve()]);
    gate(&mut core, &[], "action 3", &empty_context(), vec![approve(), approve()]);
    let (valid, _) = core.audit_log().verify_chain();
    assert!(valid);
}

#[test]
fn test_metrics_tracking() {
    let mut core = RuntimeCore::new(3);
    let guards: Vec<Box<dyn Guardrail>> = vec![Box::new(DangerousPatterns)];
    gate(&mut core, &guards, "safe action", &empty_context(), vec![approve(), approve()]);
    gate(&mut core, &guards, "DROP TABLE x", &empty_context(), vec![approve(), approve()]);
    let m = core.observe();
    assert_eq!(m.total_actions, 2);
    assert_eq!(m.approved, 1);
    assert_eq!(m.blocked, 1);
}

#[test]
fn test_medical_guardrail_warns() {
    let mut core = RuntimeCore::new(3);
    let guards: Vec<Box<dyn Guardrail>> = vec![Box::new(MedicalDisclaimer)];
    // Medical guardrail warns but doesn't block (it's a Warn, not Block)
    let outcome = gate(&mut core, &guards, "prescribe medication for patient", &empty_context(), vec![approve()]);
    assert!(outcome.is_approved());
}

#[test]
fn test_defense_human_in_loop() {
    let mut core = RuntimeCore::new(3);
    let guards: Vec<Box<dyn Guardrail>> = vec![Box::new(HumanInLoop)];
    let denied = obj(vec![("human_approved", JsonValue::Bool(false))]);
    let outcome = gate(&mut core, &guards, "launch drone", &denied, vec![approve()]);
    assert!(matches!(outcome, GateOutcome::Blocked { .. }));

    let granted = obj(vec![("human_approved", JsonValue::Bool(true))]);
    let outcome2 = gate(&mut core, &guards, "launch drone", &granted, vec![approve()]);
    assert!(outcome2.is_approved());
}
