//! # Bastion: safety primitives for agentic AI systems
//!
//! | Primitive | What it does |
//! |-----------|-------------|
//! | guardrails | Domain rules screen an action before anything else runs |
//! | consensus | Responses of several models are grouped and ranked |
//! | checkpoints | Snapshot state before risky operations, restore it later |
//! | verification | Deterministic checks of an action's result |
//! | audit | Hash-chained, tamper-evident log of every decision |
//! | metrics | Counts of actions, approvals, blocks, drift and rollbacks |
//! | heal | Self-healing decision tree: retry, escalate, roll back or abort |

pub mod audit;
pub mod checkpoint;
pub mod clock;
pub mod consensus;
pub mod error;
pub mod guardrails;
pub mod heal;
pub mod json;
pub mod observe;
pub mod prelude;
pub mod runtime;
pub mod text;
pub mod verify;

pub use audit::{AuditEntry, AuditLog, Severity};
pub use checkpoint::{Checkpoint, MemoryStore};
pub use consensus::{AgentResponse, ConsensusConfig, ConsensusResult, ConsensusStrategy};
pub use error::{BastionError, BastionResult};
pub use guardrails::{Guardrail, GuardrailResult, GuardrailVerdict};
pub use heal::{HealAction, HealDecision};
pub use json::{ActionResult, JsonValue};
pub use observe::{Metrics, MetricsSnapshot, Timer};
pub use runtime::{GateOutcome, RuntimeCore};
pub use verify::{Verification, VerifyResult};
