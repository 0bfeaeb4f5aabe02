use acs_core::behavioral::ActionStatus;
use acs_core::coordination::{
    record_status, routing_query, routing_record, task_status, AgentCoordinationHub, CoordinationConfig,
    CoordinationError, DispatchOutcome, TaskStatus, WorkerStatus,
};

const A: u128 = 0xa;
const B: u128 = 0xb;

fn tags(list: &[&str]) -> Vec<String> {
    list.iter().map(|t| t.to_string()).collect()
}

fn hub_with_two_researchers() -> AgentCoordinationHub {
    let mut hub = AgentCoordinationHub::new(CoordinationConfig::default());
    hub.register_as(A, tags(&["research", "evidence_validation"]));
    hub.register_as(B, tags(&["research", "evidence_validation"]));
    hub
}

#[test]
fn fallback_selects_first_registered() {
    let hub = hub_with_two_researchers();
    for _ in 0..3 {
        assert_eq!(hub.route_by_capabilities("research").unwrap(), A);
        assert_eq!(hub.route(None, "research").unwrap(), A);
    }
}

#[test]
fn capability_tags_match_exactly() {
    let mut hub = AgentCoordinationHub::new(CoordinationConfig::default());
    hub.register_as(A, tags(&["researcher"]));
    hub.register_as(B, tags(&["analysis", "research"]));
    assert_eq!(hub.route_by_capabilities("research").unwrap(), B);
    assert_eq!(hub.route_by_capabilities("analysis").unwrap(), B);
    assert_eq!(hub.route_by_capabilities("researcher").unwrap(), A);
    match hub.route_by_capabilities("summarize") {
        Err(CoordinationError::NoCapableAgent(action)) => assert_eq!(action, "summarize"),
        other => panic!("unexpected route {:?}", other),
    }
}

#[test]
fn tag_that_only_contains_the_action_does_not_match() {
    let mut hub = AgentCoordinationHub::new(CoordinationConfig::default());
    hub.register_as(A, tags(&["researcher", "systematic_research"]));
    assert!(matches!(hub.route_by_capabilities("research"), Err(CoordinationError::NoCapableAgent(_))));
}

#[test]
fn empty_registry_has_no_capable_worker() {
    let hub = AgentCoordinationHub::new(CoordinationConfig::default());
    assert!(matches!(hub.route(None, "research"), Err(CoordinationError::NoCapableAgent(_))));
}

#[test]
fn history_hit_wins_when_available() {
    let mut hub = hub_with_two_researchers();
    assert_eq!(hub.choose_route(Some(B), "research").unwrap(), B);
    let b_text = uuid::Uuid::from_u128(B).to_string();
    assert_eq!(hub.route_task_semantically(Some(b_text.as_str()), "research").unwrap(), B);
    assert_eq!(hub.route(Some(b_text.as_str()), "research").unwrap(), B);
    // a busy or unknown worker falls back to the capability route
    hub.begin_dispatch(B).unwrap();
    assert_eq!(hub.choose_route(Some(B), "research").unwrap(), A);
    assert_eq!(hub.choose_route(Some(0x99), "research").unwrap(), A);
    assert_eq!(hub.route_task_semantically(Some("not a uuid"), "research").unwrap(), A);
}

#[test]
fn semantic_routing_can_be_disabled() {
    let mut config = CoordinationConfig::default();
    config.enable_semantic_routing = false;
    let mut hub = AgentCoordinationHub::new(config);
    hub.register_as(A, tags(&["research"]));
    hub.register_as(B, tags(&["research"]));
    let b_text = uuid::Uuid::from_u128(B).to_string();
    assert_eq!(hub.route(Some(b_text.as_str()), "research").unwrap(), A);
}

#[test]
fn failed_task_releases_worker() {
    let mut hub = hub_with_two_researchers();
    hub.begin_dispatch(A).unwrap();
    assert_eq!(hub.worker_status(A), Some(WorkerStatus::Busy));
    match hub.finish_dispatch(A, DispatchOutcome::Failed("boom".to_string()), 40) {
        Err(CoordinationError::AgentExecutionError(d)) => assert_eq!(d, "boom"),
        other => panic!("unexpected result {:?}", other),
    }
    assert_eq!(hub.worker_status(A), Some(WorkerStatus::Available));
}

#[test]
fn timed_out_task_releases_worker() {
    let mut hub = hub_with_two_researchers();
    hub.begin_dispatch(B).unwrap();
    assert!(matches!(hub.finish_dispatch(B, DispatchOutcome::TimedOut, 30_000), Err(CoordinationError::Timeout)));
    assert_eq!(hub.worker_status(B), Some(WorkerStatus::Available));
}

#[test]
fn completed_task_reports_status_and_metrics() {
    let mut hub = hub_with_two_researchers();
    hub.begin_dispatch(A).unwrap();
    let r = hub.finish_dispatch(A, DispatchOutcome::Completed(ActionStatus::RequiresInput), 100);
    assert_eq!(r.unwrap(), TaskStatus::Pending);
    hub.begin_dispatch(A).unwrap();
    hub.finish_dispatch(A, DispatchOutcome::Failed("x".to_string()), 51).unwrap_err();
    let status = hub.get_coordination_status();
    let m = status.performance_metrics;
    assert_eq!((m.total_sessions, m.successful_completions, m.failed_operations), (2, 1, 1));
    assert_eq!(m.total_completion_time_ms, 151);
    assert_eq!(m.average_completion_time_ms(), 75);
}

#[test]
fn dispatch_to_unknown_worker_is_refused() {
    let mut hub = hub_with_two_researchers();
    assert!(matches!(hub.begin_dispatch(0x42), Err(CoordinationError::AgentNotFound(0x42))));
}

#[test]
fn status_counts_busy_and_available() {
    let mut hub = hub_with_two_researchers();
    hub.begin_dispatch(A).unwrap();
    let s = hub.get_coordination_status();
    assert_eq!((s.active_sessions, s.registered_agents, s.available_agents), (1, 2, 1));
    assert_eq!(s.worker_states, vec![(A, WorkerStatus::Busy), (B, WorkerStatus::Available)]);
}

#[test]
fn deregistered_worker_is_not_routed() {
    let mut hub = hub_with_two_researchers();
    hub.deregister(A).unwrap();
    assert_eq!(hub.worker_status(A), Some(WorkerStatus::Offline));
    assert_eq!(hub.route_by_capabilities("research").unwrap(), B);
    assert!(matches!(hub.begin_dispatch(A), Err(CoordinationError::AgentNotFound(_))));
    assert!(matches!(hub.deregister(0x77), Err(CoordinationError::AgentNotFound(0x77))));
}

#[test]
fn register_generates_fresh_identifier() {
    let mut hub = AgentCoordinationHub::new(CoordinationConfig::default());
    let id = hub.register(tags(&["synthesis"])).unwrap();
    assert_eq!(hub.worker_status(id), Some(WorkerStatus::Available));
    assert_eq!(hub.route_by_capabilities("synthesis").unwrap(), id);
    let other = hub.register(tags(&["synthesis"])).unwrap();
    assert_ne!(id, other);
    assert_eq!(hub.route_by_capabilities("synthesis").unwrap(), id);
}

#[test]
fn reregistering_replaces_entry() {
    let mut hub = hub_with_two_researchers();
    hub.register_as(A, tags(&["analysis"]));
    assert_eq!(hub.get_coordination_status().registered_agents, 2);
    assert_eq!(hub.route_by_capabilities("research").unwrap(), B);
}

#[test]
fn cloud_delegation_follows_configuration() {
    let hub = AgentCoordinationHub::new(CoordinationConfig::default());
    assert!(matches!(hub.check_cloud_delegation(), Err(CoordinationError::CloudDelegationDisabled)));
    let mut config = CoordinationConfig::default();
    config.enable_cloud_delegation = true;
    assert!(AgentCoordinationHub::new(config).check_cloud_delegation().is_ok());
}

#[test]
fn routing_query_text() {
    let values = vec!["quantum".to_string(), "computing".to_string()];
    assert_eq!(routing_query("research", &values), "research quantum computing");
    assert_eq!(routing_query("research", &vec![]), "research ");
}

#[test]
fn routing_record_text() {
    let text = routing_record(1, 2, TaskStatus::Completed, "research", "find papers");
    assert_eq!(
        text,
        "Task: 00000000-0000-0000-0000-000000000001 executed by agent \
         00000000-0000-0000-0000-000000000002 with status Completed. Intent: research find papers"
    );
}

#[test]
fn action_status_maps_to_task_status() {
    assert_eq!(task_status(ActionStatus::Completed), TaskStatus::Completed);
    assert_eq!(task_status(ActionStatus::InProgress), TaskStatus::InProgress);
    assert_eq!(task_status(ActionStatus::Failed), TaskStatus::Failed);
    assert_eq!(task_status(ActionStatus::RequiresInput), TaskStatus::Pending);
    assert_eq!(task_status(ActionStatus::Blocked), TaskStatus::Failed);
}

#[test]
fn coordination_defaults() {
    let c = CoordinationConfig::default();
    assert_eq!(c.max_concurrent_agents, 10);
    assert_eq!(c.coordination_timeout_ms, 30_000);
    assert_eq!(c.consensus_threshold_percent, 67);
    assert!(c.enable_semantic_routing);
    assert!(!c.enable_cloud_delegation);
}

#[test]
fn routing_record_status_follows_the_dispatch() {
    assert_eq!(record_status(&Ok(TaskStatus::Completed)), TaskStatus::Completed);
    assert_eq!(record_status(&Err(CoordinationError::Timeout)), TaskStatus::Failed);
}

#[test]
fn register_appends_after_existing_workers() {
    let mut hub = hub_with_two_researchers();
    let id = hub.register(tags(&["research"])).unwrap();
    let s = hub.get_coordination_status();
    assert_eq!(s.worker_states.len(), 3);
    assert_eq!(s.worker_states[2], (id, WorkerStatus::Available));
    assert_eq!(hub.route_by_capabilities("research").unwrap(), A);
}
