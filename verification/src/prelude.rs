//! The items most users need, in one import.

pub use crate::audit::{AuditEntry, AuditLog, Severity};
pub use crate::checkpoint::{Checkpoint, MemoryStore};
pub use crate::clock::Timestamp;
pub use crate::consensus::{AgentResponse, ConsensusConfig, ConsensusResult, ConsensusStrategy};
pub use crate::error::{BastionError, BastionResult};
pub use crate::guardrails::{
    DangerousPatterns, Guardrail, GuardrailResult, GuardrailVerdict, HumanInLoop, MedicalDisclaimer,
};
pub use crate::heal::{HealAction, HealDecision};
pub use crate::json::{ActionResult, JsonValue};
pub use crate::observe::{Metrics, MetricsSnapshot, Timer};
pub use crate::runtime::{GateOutcome, RuntimeCore};
pub use crate::verify::{HallucinationCheck, NotEmpty, Verification, VerifyResult};
