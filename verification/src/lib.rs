//! Workflow orchestration for coding agents: per-agent phase machines,
//! per-phase tool allowlists, shell command policies, evidence checks for
//! phase transitions, task graphs, worker delegation and session replay.
pub mod text;
pub mod paths;
pub mod shell_parser;
pub mod shell_policy;
pub mod types;
pub mod fsm;
pub mod policy;
pub mod transition_guards;
pub mod tasks;
pub mod workers;
pub mod evidence;
pub mod scope;
pub mod state;
pub mod runtime;
pub mod delegation;
pub mod debug;
pub mod commands;

pub use debug::OmdDebugLogger;
pub use evidence::{judge_claim, EvidenceClaim, VerificationResult};
pub use policy::PhaseToolPolicy;
pub use runtime::OmdRuntimeState;
pub use scope::WriteScopeValidator;
pub use transition_guards::{check_evidence_requirements, RequiredEvidence};
pub use types::{FuxiPhase, HongjunPhase, OmdAgent, OmdPhase, PanguPhase, TongtianPhase};
pub use workers::WorkerRegistry;
