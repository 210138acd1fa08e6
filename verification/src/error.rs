//! The errors of the library.

use vstd::prelude::*;

verus! {

#[verifier::external_type_specification]
#[verifier::external_body]
pub struct ExIoError(std::io::Error);

#[verifier::external_type_specification]
#[verifier::external_body]
pub struct ExJsonError(serde_json::Error);

#[derive(Debug)]
pub enum BastionError {
    ConsensusFailure { reason: String },
    AgentError { agent_id: String, message: String },
    VerificationFailed { reason: String },
    Checkpoint(String),
    NotFound(String),
    GuardrailBlocked { rule: String, reason: String },
    Timeout { ms: u64 },
    NoAgents,
    Io(std::io::Error),
    Json(serde_json::Error),
}

pub type BastionResult<T> = Result<T, BastionError>;

} // verus!
