use acs_core::behavioral::{CredibilityRating, Priority};
use acs_core::coordination::TaskStatus;
use acs_core::framework::{
    ACSConfig, BehavioralConfig, ResultStatus, TaskPriority, TaskType, ValidationStrictness,
};
use acs_core::research::{evidence_strength, EvidenceStrength, PrismaCheck, PrismaValidation, SearchQuery};

#[test]
fn credibility_values() {
    assert_eq!(CredibilityRating::A1.numeric_value(), 61);
    assert_eq!(CredibilityRating::B3.numeric_value(), 53);
    assert_eq!(CredibilityRating::F6.numeric_value(), 16);
    assert_eq!(CredibilityRating::C4.numeric_value(), 44);
}

#[test]
fn credibility_threshold() {
    assert!(CredibilityRating::A2.meets_threshold(&CredibilityRating::B3));
    assert!(CredibilityRating::B3.meets_threshold(&CredibilityRating::B3));
    assert!(!CredibilityRating::C1.meets_threshold(&CredibilityRating::B3));
    assert!(!CredibilityRating::B2.meets_threshold(&CredibilityRating::B3));
}

fn behavioral(code: &str) -> BehavioralConfig {
    BehavioralConfig {
        enable_systematic_research: true,
        evidence_threshold: code.to_string(),
        validation_strictness: ValidationStrictness::Essential,
        enable_cross_validation: true,
    }
}

#[test]
fn threshold_codes() {
    assert_eq!(behavioral("A1").required_credibility(), CredibilityRating::A1);
    assert_eq!(behavioral("A3").required_credibility(), CredibilityRating::A3);
    assert_eq!(behavioral("B2").required_credibility(), CredibilityRating::B2);
    assert_eq!(behavioral("B3").required_credibility(), CredibilityRating::B3);
    assert_eq!(behavioral("Z9").required_credibility(), CredibilityRating::B3);
}

#[test]
fn task_types_become_intents() {
    let research = TaskType::Research { query: "q".to_string(), domain: None, sources_required: 3 };
    assert_eq!(research.action_type(), "research");
    assert_eq!(research.required_capabilities(), vec!["systematic_research".to_string()]);
    let analysis = TaskType::Analysis { content: "c".to_string(), analysis_type: "t".to_string() };
    assert_eq!(analysis.action_type(), "analyze");
    assert_eq!(analysis.required_capabilities(), vec!["analysis".to_string()]);
    let synthesis = TaskType::Synthesis { inputs: vec![], output_format: "md".to_string() };
    assert_eq!(synthesis.action_type(), "synthesize");
    let custom = TaskType::Custom { action_type: "summarize".to_string(), context: "x".to_string() };
    assert_eq!(custom.action_type(), "summarize");
    assert_eq!(custom.required_capabilities(), vec!["general".to_string()]);
}

#[test]
fn priorities_carry_over() {
    assert_eq!(TaskPriority::High.intent_priority(), Priority::High);
    assert_eq!(TaskPriority::Low.intent_priority(), Priority::Low);
    assert!(matches!(
        TaskPriority::Critical.coordination_priority(),
        acs_core::coordination::TaskPriority::Critical
    ));
}

#[test]
fn result_status_mapping() {
    assert_eq!(ResultStatus::from_task_status(TaskStatus::Completed), ResultStatus::Success);
    assert_eq!(ResultStatus::from_task_status(TaskStatus::InProgress), ResultStatus::Partial);
    assert_eq!(ResultStatus::from_task_status(TaskStatus::Failed), ResultStatus::Failed);
    assert_eq!(ResultStatus::from_task_status(TaskStatus::Pending), ResultStatus::RequiresInput);
    assert_eq!(ResultStatus::from_task_status(TaskStatus::Delegated), ResultStatus::Partial);
}

#[test]
fn framework_defaults() {
    let c = ACSConfig::default();
    assert_eq!(c.behavioral.evidence_threshold, "B3");
    assert_eq!(c.behavioral.validation_strictness, ValidationStrictness::Essential);
    assert_eq!(c.storage.redb_path, "agents.redb");
    assert!(c.coordination.enable_semantic_routing);
}

#[test]
fn evidence_strength_bands() {
    assert_eq!(evidence_strength(2, 4), EvidenceStrength::Strong);
    assert_eq!(evidence_strength(1, 4), EvidenceStrength::Moderate);
    assert_eq!(evidence_strength(1, 8), EvidenceStrength::Weak);
    assert_eq!(evidence_strength(0, 0), EvidenceStrength::Strong);
    assert_eq!(evidence_strength(0, 3), EvidenceStrength::Moderate);
    assert_eq!(evidence_strength(0, 4), EvidenceStrength::Weak);
}

fn check(met: bool) -> PrismaCheck {
    PrismaCheck { phase: "p".to_string(), criteria_met: met, details: String::new(), automated: true }
}

#[test]
fn prisma_compliance() {
    let ok = PrismaValidation::new(vec![check(true), check(true)], "PRISMA 2020".to_string());
    assert!(ok.overall_compliance);
    let bad = PrismaValidation::new(vec![check(true), check(false)], "PRISMA 2020".to_string());
    assert!(!bad.overall_compliance);
    assert!(PrismaValidation::new(vec![], String::new()).overall_compliance);
}

#[test]
fn search_query_from_parameters() {
    let q = SearchQuery::from_parameters(Some("rust verification".to_string()), None, None, None).unwrap();
    assert_eq!(q.text, "rust verification");
    assert_eq!(q.domain, "general");
    assert_eq!(q.scope, "comprehensive");
    assert_eq!(q.max_sources, 20);
    let q = SearchQuery::from_parameters(
        Some("x".to_string()),
        Some("security".to_string()),
        Some("narrow".to_string()),
        Some(5),
    )
    .unwrap();
    assert_eq!((q.domain.as_str(), q.scope.as_str(), q.max_sources), ("security", "narrow", 5));
    assert!(SearchQuery::from_parameters(None, Some("d".to_string()), None, None).is_none());
}

#[test]
fn credibility_tiers() {
    assert!(CredibilityRating::A6.is_completely_reliable());
    assert!(!CredibilityRating::B1.is_completely_reliable());
    assert!(CredibilityRating::A4.is_high_quality());
    assert!(CredibilityRating::B3.is_high_quality());
    assert!(!CredibilityRating::B4.is_high_quality());
    assert!(!CredibilityRating::C1.is_high_quality());
}
