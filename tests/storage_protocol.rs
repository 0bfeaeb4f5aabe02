use acs_core::ids::entity_key;
use acs_core::storage::{
    rehydrate, Collection, HybridStorageCoordinator, StorageConfig, StorageError, StoreStep,
    WriteOutcome,
};

fn coordinator() -> HybridStorageCoordinator {
    let mut config = StorageConfig::default();
    config.reconcile_grace_ms = 1_000;
    HybridStorageCoordinator::new(config)
}

#[test]
fn knowledge_without_embedding_is_embedded_first() {
    let c = coordinator();
    assert!(matches!(c.first_step(Collection::Knowledge, None), StoreStep::Embed));
    assert!(matches!(c.first_step(Collection::Knowledge, Some(384)), StoreStep::WriteStructured));
    assert!(matches!(c.first_step(Collection::Agents, None), StoreStep::WriteStructured));
    assert!(matches!(c.first_step(Collection::Coordination, Some(3)), StoreStep::WriteStructured));
}

#[test]
fn supplied_embedding_of_wrong_dimension_is_refused() {
    let c = coordinator();
    assert!(matches!(
        c.first_step(Collection::Knowledge, Some(383)),
        StoreStep::Done(Err(StorageError::EmbeddingError(_)))
    ));
}

#[test]
fn embedding_failure_aborts_before_any_write() {
    let c = coordinator();
    match c.record_embedding(Err("provider down".to_string())) {
        StoreStep::Done(Err(StorageError::EmbeddingError(d))) => assert_eq!(d, "provider down"),
        other => panic!("unexpected step {:?}", other),
    }
    assert!(matches!(c.record_embedding(Ok(384)), StoreStep::WriteStructured));
    assert!(matches!(c.record_embedding(Ok(0)), StoreStep::Done(Err(StorageError::EmbeddingError(_)))));
    assert!(c.pending_operations().is_empty());
}

#[test]
fn structured_failure_rolls_back() {
    let mut c = coordinator();
    let t = c.begin_write(Collection::Knowledge, 7, 100).unwrap();
    assert_eq!(t.operation_id, 0);
    assert_eq!(c.pending_operations().len(), 1);
    match c.record_structured(t, Err("lock conflict".to_string())) {
        StoreStep::Done(Err(StorageError::TransactionError(d))) => assert_eq!(d, "lock conflict"),
        other => panic!("unexpected step {:?}", other),
    }
    assert!(c.pending_operations().is_empty());
    assert_eq!(c.get_metrics().error_count, 1);
    assert_eq!(c.get_metrics().operations_total, 1);
}

#[test]
fn unindexed_collection_completes_after_structured_commit() {
    let mut c = coordinator();
    let t = c.begin_write(Collection::Agents, 7, 100).unwrap();
    assert!(matches!(c.record_structured(t, Ok(())), StoreStep::Done(Ok(WriteOutcome::Durable))));
    assert!(c.pending_operations().is_empty());
    assert_eq!(c.get_metrics().operations_success, 1);
}

#[test]
fn knowledge_write_commits_structured_then_vector() {
    let mut c = coordinator();
    let t = c.begin_write(Collection::Knowledge, 9, 100).unwrap();
    assert!(matches!(c.record_structured(t, Ok(())), StoreStep::UpsertVector));
    let ops = c.pending_operations();
    assert_eq!(ops.len(), 1);
    assert!(ops[0].structured_committed);
    assert!(!ops[0].vector_committed);
    assert!(matches!(c.record_vector(t, Ok(())), Ok(WriteOutcome::Indexed)));
    assert!(c.pending_operations().is_empty());
    assert_eq!(c.get_metrics().operations_success, 1);
}

#[test]
fn failed_upsert_is_deferred_and_healed_by_reconcile() {
    let mut c = coordinator();
    let t = c.begin_write(Collection::Knowledge, 9, 100).unwrap();
    c.record_structured(t, Ok(()));
    match c.record_vector(t, Err("index unreachable".to_string())) {
        Ok(WriteOutcome::AwaitingIndex(d)) => assert_eq!(d, "index unreachable"),
        other => panic!("unexpected outcome {:?}", other),
    }
    let ops = c.pending_operations();
    assert_eq!(ops.len(), 1);
    assert_eq!(ops[0].entity_id, 9);
    assert!(ops[0].structured_committed && !ops[0].vector_committed);

    // within the grace period nothing is touched
    assert!(c.due_repairs(1_000).is_empty());
    let early = c.reconcile(1_000, &vec![]);
    assert_eq!((early.reconciled, early.still_failing, early.discarded), (0, 0, 0));
    assert_eq!(c.pending_operations().len(), 1);

    let due = c.due_repairs(2_000);
    assert_eq!(due.len(), 1);
    assert_eq!(due[0].entity_id, 9);
    let report = c.reconcile(2_000, &vec![t.operation_id]);
    assert_eq!((report.reconciled, report.still_failing, report.discarded), (1, 0, 0));
    assert!(c.pending_operations().is_empty());
    assert_eq!(c.last_sync(), Some(2_000));
}

#[test]
fn second_reconcile_reports_nothing() {
    let mut c = coordinator();
    let a = c.begin_write(Collection::Knowledge, 1, 0).unwrap();
    c.record_structured(a, Ok(()));
    c.record_vector(a, Err("down".to_string())).unwrap();
    let abandoned = c.begin_write(Collection::Knowledge, 2, 0).unwrap();
    c.abandon_write(abandoned);
    let first = c.reconcile(5_000, &vec![a.operation_id]);
    assert_eq!((first.reconciled, first.still_failing, first.discarded), (1, 0, 1));
    let second = c.reconcile(5_000, &vec![a.operation_id]);
    assert_eq!((second.reconciled, second.still_failing, second.discarded), (0, 0, 0));
}

#[test]
fn retry_that_keeps_failing_stays_pending() {
    let mut c = coordinator();
    let a = c.begin_write(Collection::Knowledge, 1, 0).unwrap();
    c.record_structured(a, Ok(()));
    c.record_vector(a, Err("down".to_string())).unwrap();
    let first = c.reconcile(5_000, &vec![]);
    assert_eq!((first.reconciled, first.still_failing, first.discarded), (0, 1, 0));
    // only the listed operations count as repaired
    let second = c.reconcile(5_000, &vec![a.operation_id + 1]);
    assert_eq!((second.reconciled, second.still_failing, second.discarded), (0, 1, 0));
    let third = c.reconcile(5_000, &vec![a.operation_id]);
    assert_eq!((third.reconciled, third.still_failing, third.discarded), (1, 0, 0));
    assert!(c.pending_operations().is_empty());
}

#[test]
fn abandoned_structured_write_is_discarded() {
    let mut c = coordinator();
    let t = c.begin_write(Collection::Coordination, 3, 10).unwrap();
    // a running write is not touched
    let early = c.reconcile(10 + 1_001, &vec![]);
    assert_eq!((early.reconciled, early.still_failing, early.discarded), (0, 0, 0));
    c.abandon_write(t);
    assert!(!c.pending_operations()[0].in_flight);
    let report = c.reconcile(10 + 1_001, &vec![]);
    assert_eq!((report.reconciled, report.still_failing, report.discarded), (0, 0, 1));
    assert!(c.pending_operations().is_empty());
}

#[test]
fn operation_ids_increase() {
    let mut c = coordinator();
    let a = c.begin_write(Collection::Agents, 1, 0).unwrap();
    let b = c.begin_write(Collection::Agents, 2, 0).unwrap();
    assert_eq!((a.operation_id, b.operation_id), (0, 1));
    assert_eq!(c.get_metrics().operations_total, 2);
}

#[test]
fn config_validation() {
    let config = StorageConfig::default();
    assert!(config.validate().is_ok());
    assert_eq!(config.embedding_dimension, 384);
    assert_eq!(config.collection_name, "agent_knowledge");
    let mut bad = StorageConfig::default();
    bad.embedding_dimension = 0;
    assert!(matches!(bad.validate(), Err(StorageError::ConfigurationError(_))));
    let mut bad = StorageConfig::default();
    bad.sync_batch_size = 0;
    assert!(matches!(bad.validate(), Err(StorageError::ConfigurationError(_))));
}

#[test]
fn search_rehydration_keeps_rank_and_skips_missing() {
    let found = vec![Some("first"), None, Some("second"), None];
    assert_eq!(rehydrate(found), vec!["first", "second"]);
    let none: Vec<Option<u8>> = vec![None, None];
    assert!(rehydrate(none).is_empty());
}

#[test]
fn top_ranked_hit_comes_first() {
    // the index ranks "vector database performance" first for its query
    let ranked = vec![Some("vector database performance"), Some("database tuning")];
    assert_eq!(rehydrate(ranked)[0], "vector database performance");
}

#[test]
fn table_names_and_keys() {
    assert_eq!(Collection::Agents.table_name(), "agents");
    assert_eq!(Collection::Knowledge.table_name(), "knowledge");
    assert_eq!(Collection::Coordination.table_name(), "coordination");
    assert!(Collection::Knowledge.is_indexed());
    assert!(!Collection::Agents.is_indexed());
    assert_eq!(entity_key(1), "00000000-0000-0000-0000-000000000001");
    assert_eq!(
        entity_key(0xa1a2a3a4b1b2c1c2d1d2d3d4d5d6d7d8),
        "a1a2a3a4-b1b2-c1c2-d1d2-d3d4d5d6d7d8"
    );
}

#[test]
fn second_write_of_same_entity_waits_for_the_first() {
    let mut c = coordinator();
    let a = c.begin_write(Collection::Knowledge, 5, 0).unwrap();
    assert!(matches!(
        c.begin_write(Collection::Knowledge, 5, 0),
        Err(StorageError::CoordinationError(_))
    ));
    // other entities and other collections are not held up
    assert!(c.begin_write(Collection::Knowledge, 6, 0).is_ok());
    assert!(c.begin_write(Collection::Agents, 5, 0).is_ok());
    assert!(matches!(c.record_structured(a, Ok(())), StoreStep::UpsertVector));
    assert!(c.begin_write(Collection::Knowledge, 5, 0).is_err());
    c.record_vector(a, Ok(())).unwrap();
    assert!(c.begin_write(Collection::Knowledge, 5, 0).is_ok());
}

#[test]
fn deferred_write_does_not_block_the_next() {
    let mut c = coordinator();
    let a = c.begin_write(Collection::Knowledge, 5, 0).unwrap();
    c.record_structured(a, Ok(()));
    c.record_vector(a, Err("down".to_string())).unwrap();
    let ops = c.pending_operations();
    assert!(!ops[0].in_flight);
    let b = c.begin_write(Collection::Knowledge, 5, 0).unwrap();
    assert_eq!(b.operation_id, a.operation_id + 1);
}

#[test]
fn running_write_is_left_alone_by_reconcile() {
    let mut c = coordinator();
    let a = c.begin_write(Collection::Knowledge, 5, 0).unwrap();
    c.record_structured(a, Ok(()));
    // the upsert is still running when a pass comes
    assert!(c.due_repairs(5_000).is_empty());
    let report = c.reconcile(5_000, &vec![]);
    assert_eq!((report.reconciled, report.still_failing, report.discarded), (0, 0, 0));
    assert!(c.pending_operations()[0].in_flight);
    assert!(c.begin_write(Collection::Knowledge, 5, 5_000).is_err());
    c.record_vector(a, Err("down".to_string())).unwrap();
    assert_eq!(c.due_repairs(5_000).len(), 1);
    assert!(c.begin_write(Collection::Knowledge, 5, 5_000).is_ok());
}

#[test]
fn settled_writes_restore_the_table() {
    let mut c = coordinator();
    let kept = c.begin_write(Collection::Knowledge, 1, 0).unwrap();
    c.record_structured(kept, Ok(()));
    let before = c.pending_operations();
    let failed = c.begin_write(Collection::Knowledge, 2, 0).unwrap();
    c.record_structured(failed, Err("conflict".to_string()));
    assert_eq!(c.pending_operations(), before);
    let durable = c.begin_write(Collection::Agents, 2, 0).unwrap();
    c.record_structured(durable, Ok(()));
    assert_eq!(c.pending_operations(), before);
    let indexed = c.begin_write(Collection::Knowledge, 3, 0).unwrap();
    c.record_structured(indexed, Ok(()));
    c.record_vector(indexed, Ok(())).unwrap();
    assert_eq!(c.pending_operations(), before);
}

#[test]
fn abandoned_committed_write_is_retried() {
    let mut c = coordinator();
    let t = c.begin_write(Collection::Knowledge, 4, 0).unwrap();
    c.record_structured(t, Ok(()));
    c.abandon_write(t);
    assert!(c.begin_write(Collection::Knowledge, 4, 1).is_ok());
    let due = c.due_repairs(5_000);
    assert_eq!(due.len(), 1);
    assert_eq!(due[0].operation_id, t.operation_id);
}
