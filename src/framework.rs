//! The framework's task and result vocabulary, and its configuration: how a
//! high-level task becomes an intent for the router, and how a coordinated
//! result is reported back.

use vstd::prelude::*;
use crate::behavioral::{CredibilityRating, Priority};
use crate::coordination::{CoordinationConfig, TaskPriority as CoordinationPriority, TaskStatus};
use crate::storage::StorageConfig;

verus! {

#[derive(Debug, Clone, Copy, PartialEq, Eq, Structural)]
pub enum ValidationStrictness {
    Essential,
    Extended,
    Comprehensive,
}

/// Settings of the built-in research worker.
#[derive(Debug, Clone)]
pub struct BehavioralConfig {
    pub enable_systematic_research: bool,
    /// Minimum credibility rating, written as its code ("B3").
    pub evidence_threshold: String,
    pub validation_strictness: ValidationStrictness,
    pub enable_cross_validation: bool,
}

/// The rating that a threshold code names, B3 when the code is not one of
/// the recognised ones.
pub open spec fn rating_of_code(code: Seq<char>) -> CredibilityRating {
    if code == "A1"@ {
        CredibilityRating::A1
    } else if code == "A2"@ {
        CredibilityRating::A2
    } else if code == "A3"@ {
        CredibilityRating::A3
    } else if code == "B1"@ {
        CredibilityRating::B1
    } else if code == "B2"@ {
        CredibilityRating::B2
    } else {
        CredibilityRating::B3
    }
}

impl BehavioralConfig {
    /// The minimum rating that `evidence_threshold` names. The codes A1 to
    /// A3 and B1 to B3 are recognised; anything else means B3.
    pub fn required_credibility(&self) -> (r: CredibilityRating)
        ensures
            r == rating_of_code(self.evidence_threshold@),
    {
        let code = &self.evidence_threshold;
        if *code == "A1".to_string() {
            CredibilityRating::A1
        } else if *code == "A2".to_string() {
            CredibilityRating::A2
        } else if *code == "A3".to_string() {
            CredibilityRating::A3
        } else if *code == "B1".to_string() {
            CredibilityRating::B1
        } else if *code == "B2".to_string() {
            CredibilityRating::B2
        } else {
            CredibilityRating::B3
        }
    }
}

/// Configuration of the whole framework.
#[derive(Debug, Clone)]
pub struct ACSConfig {
    pub storage: StorageConfig,
    pub coordination: CoordinationConfig,
    pub behavioral: BehavioralConfig,
}

impl Default for ACSConfig {
    fn default() -> (r: Self)
        ensures
            r.storage.redb_path@ == "agents.redb"@,
            r.storage.qdrant_url@ == "http://localhost:6334"@,
            r.storage.collection_name@ == "agent_knowledge"@,
            r.storage.embedding_dimension == 384,
            r.storage.sync_batch_size == 100,
            r.storage.consistency_mode == crate::storage::ConsistencyMode::Eventually,
            r.storage.reconcile_interval_ms == 60_000,
            r.storage.reconcile_grace_ms == 5_000,
            r.coordination == (CoordinationConfig {
                max_concurrent_agents: 10,
                coordination_timeout_ms: 30_000,
                consensus_threshold_percent: 67,
                enable_semantic_routing: true,
                enable_cloud_delegation: false,
            }),
            r.behavioral.enable_systematic_research,
            r.behavioral.evidence_threshold@ == "B3"@,
            r.behavioral.validation_strictness == ValidationStrictness::Essential,
            r.behavioral.enable_cross_validation,
    {
        ACSConfig {
            storage: StorageConfig::default(),
            coordination: CoordinationConfig::default(),
            behavioral: BehavioralConfig {
                enable_systematic_research: true,
                evidence_threshold: "B3".to_string(),
                validation_strictness: ValidationStrictness::Essential,
                enable_cross_validation: true,
            },
        }
    }
}

/// What a high-level task asks for.
#[derive(Debug, Clone)]
pub enum TaskType {
    Research { query: String, domain: Option<String>, sources_required: usize },
    Analysis { content: String, analysis_type: String },
    Synthesis { inputs: Vec<String>, output_format: String },
    Custom { action_type: String, context: String },
}

impl TaskType {
    pub open spec fn action_type_spec(&self) -> Seq<char> {
        match self {
            TaskType::Research { .. } => "research"@,
            TaskType::Analysis { .. } => "analyze"@,
            TaskType::Synthesis { .. } => "synthesize"@,
            TaskType::Custom { action_type, .. } => action_type@,
        }
    }

    pub open spec fn capability_spec(&self) -> Seq<char> {
        match self {
            TaskType::Research { .. } => "systematic_research"@,
            TaskType::Analysis { .. } => "analysis"@,
            TaskType::Synthesis { .. } => "synthesis"@,
            TaskType::Custom { .. } => "general"@,
        }
    }

    /// The action type of the intent that the task becomes.
    pub fn action_type(&self) -> (r: String)
        ensures
            r@ == self.action_type_spec(),
    {
        match self {
            TaskType::Research { .. } => "research".to_string(),
            TaskType::Analysis { .. } => "analyze".to_string(),
            TaskType::Synthesis { .. } => "synthesize".to_string(),
            TaskType::Custom { action_type, .. } => action_type.clone(),
        }
    }

    /// The capabilities that the task requires: one tag per kind of task.
    pub fn required_capabilities(&self) -> (r: Vec<String>)
        ensures
            r@.len() == 1,
            r@[0]@ == self.capability_spec(),
    {
        let tag = match self {
            TaskType::Research { .. } => "systematic_research".to_string(),
            TaskType::Analysis { .. } => "analysis".to_string(),
            TaskType::Synthesis { .. } => "synthesis".to_string(),
            TaskType::Custom { .. } => "general".to_string(),
        };
        let mut r: Vec<String> = Vec::new();
        r.push(tag);
        r
    }
}

#[derive(Debug, Clone, Copy, PartialEq, Eq, Structural)]
pub enum TaskPriority {
    Critical,
    High,
    Medium,
    Low,
}

impl TaskPriority {
    /// The same priority, for the intent.
    pub fn intent_priority(&self) -> (r: Priority)
        ensures
            *self is Critical <==> r is Critical,
            *self is High <==> r is High,
            *self is Medium <==> r is Medium,
            *self is Low <==> r is Low,
    {
        match self {
            TaskPriority::Critical => Priority::Critical,
            TaskPriority::High => Priority::High,
            TaskPriority::Medium => Priority::Medium,
            TaskPriority::Low => Priority::Low,
        }
    }

    /// The same priority, for the coordinated task.
    pub fn coordination_priority(&self) -> (r: CoordinationPriority)
        ensures
            *self is Critical <==> r is Critical,
            *self is High <==> r is High,
            *self is Medium <==> r is Medium,
            *self is Low <==> r is Low,
    {
        match self {
            TaskPriority::Critical => CoordinationPriority::Critical,
            TaskPriority::High => CoordinationPriority::High,
            TaskPriority::Medium => CoordinationPriority::Medium,
            TaskPriority::Low => CoordinationPriority::Low,
        }
    }
}

#[derive(Debug, Clone, Copy, PartialEq, Eq, Structural)]
pub enum ResultStatus {
    Success,
    Partial,
    Failed,
    RequiresInput,
}

impl ResultStatus {
    pub open spec fn of_task_spec(s: TaskStatus) -> ResultStatus {
        match s {
            TaskStatus::Completed => ResultStatus::Success,
            TaskStatus::InProgress => ResultStatus::Partial,
            TaskStatus::Failed => ResultStatus::Failed,
            TaskStatus::Pending => ResultStatus::RequiresInput,
            TaskStatus::Delegated => ResultStatus::Partial,
        }
    }

    /// How a coordinated task's status is reported to the framework's caller.
    pub fn from_task_status(s: TaskStatus) -> (r: ResultStatus)
        ensures
            r == Self::of_task_spec(s),
    {
        match s {
            TaskStatus::Completed => ResultStatus::Success,
            TaskStatus::InProgress => ResultStatus::Partial,
            TaskStatus::Failed => ResultStatus::Failed,
            TaskStatus::Pending => ResultStatus::RequiresInput,
            TaskStatus::Delegated => ResultStatus::Partial,
        }
    }
}

/// Evidence as the framework reports it.
#[derive(Debug, Clone)]
pub struct ACSEvidence {
    pub source: String,
    pub credibility: String,
    pub content: String,
    pub validation_status: String,
}

/// Framework faults.
#[derive(Debug, Clone)]
pub enum ACSError {
    InitializationError(String),
    AgentRegistrationError(String),
    TaskExecutionError(String),
    StorageError(String),
    ConfigurationError(String),
    ShutdownError(String),
}

} // verus!
