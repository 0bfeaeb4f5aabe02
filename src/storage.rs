//! The dual-store coordinator: the bookkeeping that keeps the structured
//! store (authoritative) and the vector index (derived) in agreement.
//!
//! A write is a short protocol. The caller asks for the first step, performs
//! it against the backend, and reports the result; the coordinator answers
//! with the next step. The structured write always commits before the vector
//! upsert, and an upsert that fails leaves a pending operation behind that a
//! later reconciliation pass retries.

use vstd::prelude::*;

verus! {

/// The logical collections of the structured store. They share no keys.
#[derive(Debug, Clone, Copy, PartialEq, Eq, Structural)]
pub enum Collection {
    Agents,
    Knowledge,
    Coordination,
}

impl Collection {
    /// Knowledge records are mirrored into the vector index; agent
    /// descriptors and coordination records live in the structured store only.
    pub open spec fn indexed(self) -> bool {
        self is Knowledge
    }

    pub fn is_indexed(&self) -> (r: bool)
        ensures
            r == self.indexed(),
    {
        matches!(self, Collection::Knowledge)
    }

    /// Name of the table that holds the collection in the structured store.
    pub fn table_name(&self) -> (r: &'static str)
        ensures
            self is Agents ==> r@ == "agents"@,
            self is Knowledge ==> r@ == "knowledge"@,
            self is Coordination ==> r@ == "coordination"@,
    {
        match self {
            Collection::Agents => "agents",
            Collection::Knowledge => "knowledge",
            Collection::Coordination => "coordination",
        }
    }
}

/// Faults of the storage layer. Each names the backend or stage that failed,
/// so that a caller can tell "nothing was written" (embedding, transaction)
/// from "written but not yet searchable" (a deferred upsert is not a fault,
/// see `WriteOutcome::AwaitingIndex`).
#[derive(Debug, Clone)]
pub enum StorageError {
    InitializationError(String),
    TransactionError(String),
    SerializationError(String),
    VectorError(String),
    EmbeddingError(String),
    CoordinationError(String),
    ConfigurationError(String),
}

#[derive(Debug, Clone, Copy, PartialEq, Eq, Structural)]
pub enum ConsistencyMode {
    Immediate,
    Eventually,
    EventDriven,
}

/// Configuration of the storage layer.
#[derive(Debug, Clone)]
pub struct StorageConfig {
    pub redb_path: String,
    pub qdrant_url: String,
    pub collection_name: String,
    pub embedding_dimension: usize,
    pub sync_batch_size: usize,
    pub consistency_mode: ConsistencyMode,
    /// How often a reconciliation pass runs.
    pub reconcile_interval_ms: u64,
    /// How old a pending operation must be before a pass touches it.
    pub reconcile_grace_ms: u64,
}

impl StorageConfig {
    /// The dimension, the batch size and the interval are positive.
    pub open spec fn valid(&self) -> bool {
        &&& self.embedding_dimension > 0
        &&& self.sync_batch_size > 0
        &&& self.reconcile_interval_ms > 0
    }

    /// Accepts a configuration whose dimension, batch size and interval are
    /// positive.
    pub fn validate(&self) -> (r: Result<(), StorageError>)
        ensures
            r is Ok <==> self.valid(),
            r is Err ==> r->Err_0 is ConfigurationError,
    {
        if self.embedding_dimension == 0 {
            Err(StorageError::ConfigurationError("embedding dimension must be positive".to_string()))
        } else if self.sync_batch_size == 0 {
            Err(StorageError::ConfigurationError("sync batch size must be positive".to_string()))
        } else if self.reconcile_interval_ms == 0 {
            Err(StorageError::ConfigurationError("reconcile interval must be positive".to_string()))
        } else {
            Ok(())
        }
    }
}

impl Default for StorageConfig {
    fn default() -> (r: Self)
        ensures
            r.redb_path@ == "agents.redb"@,
            r.qdrant_url@ == "http://localhost:6334"@,
            r.collection_name@ == "agent_knowledge"@,
            r.embedding_dimension == 384,
            r.sync_batch_size == 100,
            r.consistency_mode == ConsistencyMode::Eventually,
            r.reconcile_interval_ms == 60_000,
            r.reconcile_grace_ms == 5_000,
    {
        StorageConfig {
            redb_path: "agents.redb".to_string(),
            qdrant_url: "http://localhost:6334".to_string(),
            collection_name: "agent_knowledge".to_string(),
            embedding_dimension: 384,
            sync_batch_size: 100,
            consistency_mode: ConsistencyMode::Eventually,
            reconcile_interval_ms: 60_000,
            reconcile_grace_ms: 5_000,
        }
    }
}

/// One coordinated write that has not settled yet. An entry leaves the
/// table when its vector write commits (or, for collections without an
/// index, when its structured write commits), when its structured write
/// fails, or when reconciliation repairs or discards it.
#[derive(Debug, Clone, Copy, PartialEq, Eq, Structural)]
pub struct PendingOperation {
    pub operation_id: u64,
    pub collection: Collection,
    pub entity_id: u128,
    pub structured_committed: bool,
    pub vector_committed: bool,
    /// The write that opened the entry is still running. An entry left to
    /// reconciliation has no writer.
    pub in_flight: bool,
    pub created_at: u64,
}

/// Handle of a write in progress, handed out when the write begins.
#[derive(Debug, Clone, Copy, PartialEq, Eq, Structural)]
pub struct StoreTicket {
    pub operation_id: u64,
    pub collection: Collection,
    pub entity_id: u128,
    pub created_at: u64,
}

/// How a write that succeeded stands.
#[derive(Debug, Clone)]
pub enum WriteOutcome {
    /// Committed to the structured store; the collection has no index.
    Durable,
    /// Committed to the structured store and to the vector index.
    Indexed,
    /// Committed to the structured store; the upsert failed with the given
    /// detail and is left to reconciliation.
    AwaitingIndex(String),
}

/// What the caller of a write does next.
#[derive(Debug)]
pub enum StoreStep {
    /// Compute the embedding of the content.
    Embed,
    /// Serialize the entity and commit it to the structured store.
    WriteStructured,
    /// Upsert the embedding and payload attributes into the vector index.
    UpsertVector,
    /// The write is over.
    Done(Result<WriteOutcome, StorageError>),
}

/// Counts of one reconciliation pass.
#[derive(Debug, Clone, Copy, PartialEq, Eq, Structural)]
pub struct SyncResult {
    pub reconciled: usize,
    pub still_failing: usize,
    pub discarded: usize,
}

/// Operation counters. They stop at `u64::MAX`.
#[derive(Debug, Clone, Copy, PartialEq, Eq, Structural)]
pub struct StorageMetrics {
    pub operations_total: u64,
    pub operations_success: u64,
    pub error_count: u64,
}

/// `x + 1`, or `x` when it is already `u64::MAX`.
pub open spec fn bump(x: u64) -> u64 {
    if x < u64::MAX {
        (x + 1) as u64
    } else {
        x
    }
}

/// An operation is due for reconciliation once no write is running for it
/// and it is older than the grace period. A running write is never touched:
/// only the write itself settles its entry.
pub open spec fn is_due(op: PendingOperation, now: u64, grace: u64) -> bool {
    &&& !op.in_flight
    &&& now as int - op.created_at as int > grace as int
}

/// A due operation whose structured write committed and whose vector write
/// did not: reconciliation retries its upsert.
pub open spec fn is_repair(op: PendingOperation, now: u64, grace: u64) -> bool {
    is_due(op, now, grace) && op.structured_committed && !op.vector_committed
}

/// A due operation whose structured write never committed: there is
/// nothing to propagate, and reconciliation drops it.
pub open spec fn is_discard(op: PendingOperation, now: u64, grace: u64) -> bool {
    is_due(op, now, grace) && !op.structured_committed
}

/// No entry of the table has its vector write committed: an entry leaves
/// the table as soon as that happens.
pub open spec fn no_vector_commits(ops: Seq<PendingOperation>) -> bool {
    forall|j: int| 0 <= j < ops.len() ==> !(#[trigger] ops[j]).vector_committed
}

/// The entries of every operation but `id`.
pub open spec fn other_operation(id: u64) -> spec_fn(PendingOperation) -> bool {
    |op: PendingOperation| op.operation_id != id
}

/// The entries a pass at `now` retries.
pub open spec fn repair_of(now: u64, grace: u64) -> spec_fn(PendingOperation) -> bool {
    |op: PendingOperation| is_repair(op, now, grace)
}

/// Marks the structured write of operation `id` committed.
pub open spec fn commit_structured(id: u64) -> spec_fn(PendingOperation) -> PendingOperation {
    |op: PendingOperation|
        if op.operation_id == id {
            PendingOperation { structured_committed: true, ..op }
        } else {
            op
        }
}

/// Hands the entry of operation `id` over to reconciliation.
pub open spec fn release(id: u64) -> spec_fn(PendingOperation) -> PendingOperation {
    |op: PendingOperation|
        if op.operation_id == id {
            PendingOperation { in_flight: false, ..op }
        } else {
            op
        }
}

/// The entry that a write with a failed upsert leaves behind.
pub open spec fn repair_entry(t: StoreTicket) -> PendingOperation {
    PendingOperation {
        operation_id: t.operation_id,
        collection: t.collection,
        entity_id: t.entity_id,
        structured_committed: true,
        vector_committed: false,
        in_flight: false,
        created_at: t.created_at,
    }
}

/// The entry belongs to a running write of entity `id` of collection `c`.
pub open spec fn writes(op: PendingOperation, c: Collection, id: u128) -> bool {
    op.in_flight && op.collection == c && op.entity_id == id
}

/// Number of running writes of entity `id` of collection `c` in `ops`.
pub open spec fn active_writes(ops: Seq<PendingOperation>, c: Collection, id: u128) -> nat
    decreases ops.len(),
{
    if ops.len() == 0 {
        0
    } else {
        active_writes(ops.drop_last(), c, id) + if writes(ops.last(), c, id) {
            1nat
        } else {
            0nat
        }
    }
}

/// Every operation id in `ops` is below `n`.
pub open spec fn ids_below(ops: Seq<PendingOperation>, n: u64) -> bool {
    forall|j: int| 0 <= j < ops.len() ==> (#[trigger] ops[j]).operation_id < n
}

/// At most one write of each entity runs at a time.
pub open spec fn single_writer(ops: Seq<PendingOperation>) -> bool {
    forall|c: Collection, id: u128| #[trigger] active_writes(ops, c, id) <= 1
}

/// One reconciliation pass over `ops`: the entries that stay pending, and
/// the counts of reconciled, still failing and discarded operations.
/// `repaired` lists the operations whose retried upsert succeeded.
pub open spec fn reconcile_pass(ops: Seq<PendingOperation>, now: u64, grace: u64, repaired: Seq<u64>) -> (
    Seq<PendingOperation>,
    nat,
    nat,
    nat,
)
    decreases ops.len(),
{
    if ops.len() == 0 {
        (Seq::empty(), 0, 0, 0)
    } else {
        let (kept, rc, sf, dc) = reconcile_pass(ops.drop_last(), now, grace, repaired);
        let op = ops.last();
        if is_discard(op, now, grace) {
            (kept, rc, sf, dc + 1)
        } else if is_repair(op, now, grace) {
            if repaired.contains(op.operation_id) {
                (kept, rc + 1, sf, dc)
            } else {
                (kept.push(op), rc, sf + 1, dc)
            }
        } else {
            (kept.push(op), rc, sf, dc)
        }
    }
}

/// Bookkeeping of the dual-store coordinator: the pending-operation table,
/// the operation counters and the time of the last reconciliation.
pub struct HybridStorageCoordinator {
    config: StorageConfig,
    pending: Vec<PendingOperation>,
    next_operation: u64,
    metrics: StorageMetrics,
    last_sync: Option<u64>,
}

impl HybridStorageCoordinator {
    pub closed spec fn pending_ops(&self) -> Seq<PendingOperation> {
        self.pending@
    }

    pub closed spec fn next_operation_id(&self) -> u64 {
        self.next_operation
    }

    pub closed spec fn metrics_view(&self) -> StorageMetrics {
        self.metrics
    }

    pub closed spec fn config_view(&self) -> StorageConfig {
        self.config
    }

    pub closed spec fn last_sync_view(&self) -> Option<u64> {
        self.last_sync
    }

    /// The coordinator's invariant: no entry has its vector committed, at
    /// most one write of each entity is in flight, and every pending
    /// operation id was handed out already (it is below the next one).
    pub open spec fn wf(&self) -> bool {
        &&& no_vector_commits(self.pending_ops())
        &&& single_writer(self.pending_ops())
        &&& ids_below(self.pending_ops(), self.next_operation_id())
    }

    /// The grace period of reconciliation.
    pub open spec fn grace(&self) -> u64 {
        self.config_view().reconcile_grace_ms
    }

    pub fn new(config: StorageConfig) -> (r: Self)
        ensures
            r.pending_ops() == Seq::<PendingOperation>::empty(),
            r.next_operation_id() == 0,
            r.metrics_view() == (StorageMetrics { operations_total: 0, operations_success: 0, error_count: 0 }),
            r.config_view() == config,
            r.last_sync_view() is None,
            r.wf(),
    {
        HybridStorageCoordinator {
            config,
            pending: Vec::new(),
            next_operation: 0,
            metrics: StorageMetrics { operations_total: 0, operations_success: 0, error_count: 0 },
            last_sync: None,
        }
    }

    pub fn config(&self) -> (r: &StorageConfig)
        ensures
            *r == self.config_view(),
    {
        &self.config
    }

    pub fn get_metrics(&self) -> (r: StorageMetrics)
        ensures
            r == self.metrics_view(),
    {
        self.metrics
    }

    pub fn last_sync(&self) -> (r: Option<u64>)
        ensures
            r == self.last_sync_view(),
    {
        self.last_sync
    }

    pub fn pending_operations(&self) -> (r: Vec<PendingOperation>)
        ensures
            r@ == self.pending_ops(),
    {
        self.pending.clone()
    }

    /// The first step of a write. Knowledge records without an embedding
    /// are embedded before anything is written; `supplied` is the length of
    /// the embedding that came with the record, if any, and one of another
    /// dimension than the configured one aborts the write.
    pub fn first_step(&self, collection: Collection, supplied: Option<usize>) -> (r: StoreStep)
        ensures
            !collection.indexed() ==> r is WriteStructured,
            collection.indexed() && supplied is None ==> r is Embed,
            collection.indexed() && supplied is Some ==> {
                &&& supplied->Some_0 == self.config_view().embedding_dimension ==> r is WriteStructured
                &&& supplied->Some_0 != self.config_view().embedding_dimension ==> (r matches StoreStep::Done(
                    Err(StorageError::EmbeddingError(_)),
                ))
            },
    {
        if !collection.is_indexed() {
            return StoreStep::WriteStructured;
        }
        match supplied {
            None => StoreStep::Embed,
            Some(len) => self.check_dimension(len),
        }
    }

    /// The step after the embedding provider answered with a vector of
    /// length `result`, or failed: a failure, or a vector of another
    /// dimension than the configured one, aborts the write before anything
    /// is stored.
    pub fn record_embedding(&self, result: Result<usize, String>) -> (r: StoreStep)
        ensures
            result is Err ==> r == StoreStep::Done(Err(StorageError::EmbeddingError(result->Err_0))),
            result is Ok && result->Ok_0 == self.config_view().embedding_dimension ==> r is WriteStructured,
            result is Ok && result->Ok_0 != self.config_view().embedding_dimension ==> (r matches StoreStep::Done(
                Err(StorageError::EmbeddingError(_)),
            )),
    {
        match result {
            Ok(len) => self.check_dimension(len),
            Err(detail) => StoreStep::Done(Err(StorageError::EmbeddingError(detail))),
        }
    }

    fn check_dimension(&self, len: usize) -> (r: StoreStep)
        ensures
            len == self.config_view().embedding_dimension ==> r is WriteStructured,
            len != self.config_view().embedding_dimension ==> (r matches StoreStep::Done(
                Err(StorageError::EmbeddingError(_)),
            )),
    {
        if len == self.config.embedding_dimension {
            StoreStep::WriteStructured
        } else {
            StoreStep::Done(Err(StorageError::EmbeddingError("embedding has another dimension than the index".to_string())))
        }
    }

    /// Opens a pending operation for a write of `entity_id` into
    /// `collection`, just before its structured transaction. A write of an
    /// entity is refused while another write of it is running, that is,
    /// until that write has reported its last step. Reconciliation never
    /// releases a running write, so two writes of an entity never overlap;
    /// upserts that reconciliation retries are the caller's to keep apart
    /// from writes of the same entity.
    pub fn begin_write(&mut self, collection: Collection, entity_id: u128, now: u64) -> (r: Result<
        StoreTicket,
        StorageError,
    >)
        requires
            old(self).wf(),
        ensures
            final(self).wf(),
            ({
                let refused = old(self).next_operation_id() == u64::MAX || active_writes(
                    old(self).pending_ops(),
                    collection,
                    entity_id,
                ) > 0;
                &&& refused ==> {
                    &&& r is Err
                    &&& r->Err_0 is CoordinationError
                    &&& *final(self) == *old(self)
                }
                &&& !refused ==> {
                    let t = StoreTicket {
                        operation_id: old(self).next_operation_id(),
                        collection,
                        entity_id,
                        created_at: now,
                    };
                    &&& r == Ok::<StoreTicket, StorageError>(t)
                    &&& final(self).pending_ops() == old(self).pending_ops().push(
                        PendingOperation {
                            operation_id: t.operation_id,
                            collection,
                            entity_id,
                            structured_committed: false,
                            vector_committed: false,
                            in_flight: true,
                            created_at: now,
                        },
                    )
                    &&& final(self).next_operation_id() == old(self).next_operation_id() + 1
                    &&& final(self).metrics_view() == (StorageMetrics {
                        operations_total: bump(old(self).metrics_view().operations_total),
                        ..old(self).metrics_view()
                    })
                    &&& final(self).config_view() == old(self).config_view()
                    &&& final(self).last_sync_view() == old(self).last_sync_view()
                }
            }),
    {
        if self.next_operation == u64::MAX {
            return Err(StorageError::CoordinationError("operation ids exhausted".to_string()));
        }
        if has_active_write(&self.pending, collection, entity_id) {
            return Err(StorageError::CoordinationError("a write of this entity is in flight".to_string()));
        }
        let id = self.next_operation;
        self.next_operation = id + 1;
        let entry = PendingOperation {
            operation_id: id,
            collection,
            entity_id,
            structured_committed: false,
            vector_committed: false,
            in_flight: true,
            created_at: now,
        };
        self.pending.push(entry);
        proof {
            assert(self.pending@.drop_last() =~= old(self).pending@);
            assert forall|j: int| 0 <= j < self.pending@.len() implies (#[trigger] self.pending@[j]).operation_id
                < self.next_operation by {
                if j < old(self).pending@.len() {
                    assert(self.pending@[j] == old(self).pending@[j]);
                }
            }
            assert forall|c: Collection, e: u128| #[trigger] active_writes(self.pending@, c, e) <= 1 by {
                assert(active_writes(old(self).pending@, c, e) <= 1);
            }
        }
        self.metrics.operations_total = self.metrics.operations_total.saturating_add(1);
        Ok(StoreTicket { operation_id: id, collection, entity_id, created_at: now })
    }

    /// The step after the structured transaction answered. A failure rolls
    /// the pending operation back and surfaces; a commit completes writes
    /// of collections without an index and asks for the upsert otherwise.
    pub fn record_structured(&mut self, ticket: StoreTicket, result: Result<(), String>) -> (r: StoreStep)
        requires
            old(self).wf(),
        ensures
            final(self).wf(),
            final(self).config_view() == old(self).config_view(),
            final(self).next_operation_id() == old(self).next_operation_id(),
            final(self).last_sync_view() == old(self).last_sync_view(),
            final(self).metrics_view().operations_total == old(self).metrics_view().operations_total,
            result is Err ==> {
                &&& r == StoreStep::Done(Err(StorageError::TransactionError(result->Err_0)))
                &&& final(self).pending_ops() == old(self).pending_ops().filter(
                    other_operation(ticket.operation_id),
                )
                &&& final(self).metrics_view().error_count == bump(old(self).metrics_view().error_count)
                &&& final(self).metrics_view().operations_success == old(self).metrics_view().operations_success
            },
            result is Ok && ticket.collection.indexed() ==> {
                &&& r is UpsertVector
                &&& final(self).pending_ops() == old(self).pending_ops().map_values(
                    commit_structured(ticket.operation_id),
                )
                &&& final(self).metrics_view() == old(self).metrics_view()
            },
            result is Ok && !ticket.collection.indexed() ==> {
                &&& r == StoreStep::Done(Ok(WriteOutcome::Durable))
                &&& final(self).pending_ops() == old(self).pending_ops().filter(
                    other_operation(ticket.operation_id),
                )
                &&& final(self).metrics_view().operations_success == bump(old(self).metrics_view().operations_success)
                &&& final(self).metrics_view().error_count == old(self).metrics_view().error_count
            },
    {
        match result {
            Err(detail) => {
                self.pending = without_operation(&self.pending, ticket.operation_id);
                self.metrics.error_count = self.metrics.error_count.saturating_add(1);
                StoreStep::Done(Err(StorageError::TransactionError(detail)))
            },
            Ok(()) => {
                if ticket.collection.is_indexed() {
                    self.pending = with_structured_commit(&self.pending, ticket.operation_id);
                    StoreStep::UpsertVector
                } else {
                    self.pending = without_operation(&self.pending, ticket.operation_id);
                    self.metrics.operations_success = self.metrics.operations_success.saturating_add(1);
                    StoreStep::Done(Ok(WriteOutcome::Durable))
                }
            },
        }
    }

    /// The end of a write after the vector index answered. A failed upsert
    /// does not undo the structured commit: the write is reported as
    /// awaiting its index, and an entry for reconciliation stays behind (for
    /// a ticket that this coordinator handed out).
    pub fn record_vector(&mut self, ticket: StoreTicket, result: Result<(), String>) -> (r: Result<
        WriteOutcome,
        StorageError,
    >)
        requires
            old(self).wf(),
        ensures
            final(self).wf(),
            final(self).config_view() == old(self).config_view(),
            final(self).next_operation_id() == old(self).next_operation_id(),
            final(self).last_sync_view() == old(self).last_sync_view(),
            result is Ok ==> {
                &&& r == Ok::<WriteOutcome, StorageError>(WriteOutcome::Indexed)
                &&& final(self).pending_ops() == old(self).pending_ops().filter(
                    other_operation(ticket.operation_id),
                )
                &&& final(self).metrics_view() == (StorageMetrics {
                    operations_success: bump(old(self).metrics_view().operations_success),
                    ..old(self).metrics_view()
                })
            },
            result is Err ==> {
                &&& r == Ok::<WriteOutcome, StorageError>(WriteOutcome::AwaitingIndex(result->Err_0))
                &&& ticket.operation_id < old(self).next_operation_id() ==> final(self).pending_ops()
                    == old(self).pending_ops().filter(other_operation(ticket.operation_id)).push(repair_entry(ticket))
                &&& ticket.operation_id >= old(self).next_operation_id() ==> final(self).pending_ops()
                    == old(self).pending_ops().filter(other_operation(ticket.operation_id))
                &&& final(self).metrics_view() == old(self).metrics_view()
            },
    {
        self.pending = without_operation(&self.pending, ticket.operation_id);
        match result {
            Ok(()) => {
                self.metrics.operations_success = self.metrics.operations_success.saturating_add(1);
                Ok(WriteOutcome::Indexed)
            },
            Err(detail) => {
                if ticket.operation_id >= self.next_operation {
                    return Ok(WriteOutcome::AwaitingIndex(detail));
                }
                self.pending.push(
                    PendingOperation {
                        operation_id: ticket.operation_id,
                        collection: ticket.collection,
                        entity_id: ticket.entity_id,
                        structured_committed: true,
                        vector_committed: false,
                        in_flight: false,
                        created_at: ticket.created_at,
                    },
                );
                proof {
                    let kept = old(self).pending@.filter(other_operation(ticket.operation_id));
                    assert(self.pending@.drop_last() =~= kept);
                    assert forall|j: int| 0 <= j < self.pending@.len() implies (#[trigger] self.pending@[j]).operation_id
                        < self.next_operation by {
                        if j < kept.len() {
                            assert(self.pending@[j] == kept[j]);
                        }
                    }
                    assert forall|c: Collection, e: u128| #[trigger] active_writes(self.pending@, c, e) <= 1 by {
                        lemma_filter_keeps_fewer_writes(old(self).pending@, other_operation(ticket.operation_id), c, e);
                        assert(active_writes(old(self).pending@, c, e) <= 1);
                    }
                }
                Ok(WriteOutcome::AwaitingIndex(detail))
            },
        }
    }
}

impl HybridStorageCoordinator {
    /// Gives up a running write: its entry is no longer held by a writer and
    /// is left to reconciliation, which drops it if its structured write
    /// never committed and retries its upsert otherwise.
    pub fn abandon_write(&mut self, ticket: StoreTicket)
        requires
            old(self).wf(),
        ensures
            final(self).wf(),
            final(self).pending_ops() == old(self).pending_ops().map_values(release(ticket.operation_id)),
            final(self).config_view() == old(self).config_view(),
            final(self).next_operation_id() == old(self).next_operation_id(),
            final(self).metrics_view() == old(self).metrics_view(),
            final(self).last_sync_view() == old(self).last_sync_view(),
    {
        let ops = &self.pending;
        let mut r: Vec<PendingOperation> = Vec::new();
        let mut i: usize = 0;
        while i < ops.len()
            invariant
                i <= ops.len(),
                r@ == ops@.take(i as int).map_values(release(ticket.operation_id)),
                no_vector_commits(ops@) ==> no_vector_commits(r@),
                ids_below(ops@, self.next_operation) ==> ids_below(r@, self.next_operation),
            decreases ops.len() - i,
        {
            let op = ops[i];
            let next = if op.operation_id == ticket.operation_id {
                PendingOperation { in_flight: false, ..op }
            } else {
                op
            };
            r.push(next);
            proof {
                assert(ops@.take(i as int + 1).map_values(release(ticket.operation_id)) =~= ops@.take(
                    i as int,
                ).map_values(release(ticket.operation_id)).push(next));
            }
            i += 1;
        }
        proof {
            assert(ops@.take(ops.len() as int) =~= ops@);
            assert forall|c: Collection, e: u128| #[trigger] active_writes(r@, c, e) <= 1 by {
                lemma_release_keeps_fewer_writes(ops@, ticket.operation_id, c, e);
                assert(active_writes(ops@, c, e) <= 1);
            }
        }
        self.pending = r;
    }

    /// The operations whose upserts a reconciliation pass at `now` retries,
    /// in table order. The caller upserts each, reading the record's current
    /// structured payload, and hands the ids of the upserts that succeeded
    /// to `reconcile`.
    pub fn due_repairs(&self, now: u64) -> (r: Vec<PendingOperation>)
        ensures
            r@ == self.pending_ops().filter(repair_of(now, self.grace())),
    {
        let grace = self.config.reconcile_grace_ms;
        let mut r: Vec<PendingOperation> = Vec::new();
        let mut i: usize = 0;
        while i < self.pending.len()
            invariant
                i <= self.pending.len(),
                grace == self.grace(),
                r@ == self.pending@.take(i as int).filter(repair_of(now, grace)),
            decreases self.pending.len() - i,
        {
            let op = self.pending[i];
            proof {
                assert(self.pending@.take(i as int + 1) =~= self.pending@.take(i as int).push(op));
                self.pending@.take(i as int).lemma_filter_push(op, repair_of(now, grace));
            }
            if due(op, now, grace) && op.structured_committed && !op.vector_committed {
                r.push(op);
            }
            i += 1;
        }
        proof {
            assert(self.pending@.take(self.pending.len() as int) =~= self.pending@);
        }
        r
    }

    /// One reconciliation pass at `now`. Due operations whose structured
    /// write never committed are discarded. Due operations awaiting their
    /// upsert are reconciled when `repaired`, the operations whose retried
    /// upsert succeeded, lists them, and stay pending otherwise. Entries that
    /// are not due, among them those of running writes, stay as they are.
    pub fn reconcile(&mut self, now: u64, repaired: &Vec<u64>) -> (r: SyncResult)
        requires
            old(self).wf(),
        ensures
            final(self).wf(),
            ({
                let (kept, rc, sf, dc) = reconcile_pass(old(self).pending_ops(), now, old(self).grace(), repaired@);
                &&& final(self).pending_ops() == kept
                &&& r.reconciled as nat == rc
                &&& r.still_failing as nat == sf
                &&& r.discarded as nat == dc
            }),
            final(self).last_sync_view() == Some(now),
            final(self).config_view() == old(self).config_view(),
            final(self).next_operation_id() == old(self).next_operation_id(),
            final(self).metrics_view() == old(self).metrics_view(),
    {
        let grace = self.config.reconcile_grace_ms;
        let ops = &self.pending;
        let mut kept: Vec<PendingOperation> = Vec::new();
        let mut rc: usize = 0;
        let mut sf: usize = 0;
        let mut dc: usize = 0;
        let mut i: usize = 0;
        while i < ops.len()
            invariant
                i <= ops.len(),
                rc + dc + kept@.len() == i,
                sf <= kept@.len(),
                no_vector_commits(ops@),
                no_vector_commits(kept@),
                ids_below(ops@, self.next_operation),
                ids_below(kept@, self.next_operation),
                reconcile_pass(ops@.take(i as int), now, grace, repaired@) == (kept@, rc as nat, sf as nat, dc as nat),
            decreases ops.len() - i,
        {
            let op = ops[i];
            proof {
                assert(ops@.take(i as int + 1).drop_last() =~= ops@.take(i as int));
            }
            if due(op, now, grace) && !op.structured_committed {
                dc += 1;
            } else if due(op, now, grace) && !op.vector_committed {
                if contains_id(repaired, op.operation_id) {
                    rc += 1;
                } else {
                    kept.push(op);
                    sf += 1;
                }
            } else {
                kept.push(op);
            }
            i += 1;
        }
        proof {
            assert(ops@.take(ops.len() as int) =~= ops@);
            assert forall|c: Collection, e: u128| #[trigger] active_writes(kept@, c, e) <= 1 by {
                lemma_pass_keeps_fewer_writes(ops@, now, grace, repaired@, c, e);
                assert(active_writes(ops@, c, e) <= 1);
            }
        }
        self.pending = kept;
        self.last_sync = Some(now);
        SyncResult { reconciled: rc, still_failing: sf, discarded: dc }
    }
}

/// The retries of a pass are the repair entries of the table: a pass
/// reports each of them as reconciled or as still failing, and every other
/// entry is either discarded or kept.
pub proof fn lemma_pass_counts(ops: Seq<PendingOperation>, now: u64, grace: u64, repaired: Seq<u64>)
    ensures
        ({
            let (kept, rc, sf, dc) = reconcile_pass(ops, now, grace, repaired);
            &&& rc + sf == ops.filter(repair_of(now, grace)).len()
            &&& rc + dc + kept.len() == ops.len()
        }),
    decreases ops.len(),
{
    if ops.len() > 0 {
        lemma_pass_counts(ops.drop_last(), now, grace, repaired);
        assert(ops.drop_last().push(ops.last()) =~= ops);
        ops.drop_last().lemma_filter_push(ops.last(), repair_of(now, grace));
    } else {
        assert(ops.filter(repair_of(now, grace)) =~= Seq::<PendingOperation>::empty()) by {
            reveal(Seq::filter);
        }
    }
}

/// Reconciliation is idempotent: a second pass at the same time, with no
/// new pending operations in between, discards nothing and retries exactly
/// the operations that the first pass left failing. So when the first pass
/// left none failing, the second reconciles nothing and changes nothing.
pub proof fn lemma_reconcile_idempotent(
    ops: Seq<PendingOperation>,
    now: u64,
    grace: u64,
    first: Seq<u64>,
    second: Seq<u64>,
)
    ensures
        ({
            let (k1, r1, s1, d1) = reconcile_pass(ops, now, grace, first);
            let (k2, r2, s2, d2) = reconcile_pass(k1, now, grace, second);
            &&& d2 == 0
            &&& r2 + s2 == s1
            &&& s1 == 0 ==> r2 == 0 && k2 == k1
        }),
    decreases ops.len(),
{
    if ops.len() > 0 {
        let prev = ops.drop_last();
        let op = ops.last();
        lemma_reconcile_idempotent(prev, now, grace, first, second);
        let (k1p, r1p, s1p, d1p) = reconcile_pass(prev, now, grace, first);
        let (k1, r1, s1, d1) = reconcile_pass(ops, now, grace, first);
        if k1 != k1p {
            assert(k1.drop_last() =~= k1p);
        }
    }
}

/// A pass in which every retried upsert succeeds leaves no due operation
/// pending: each deferred upsert older than the grace period has reached
/// the vector index, and each abandoned structured write has been dropped.
pub proof fn lemma_successful_pass_clears_due(
    ops: Seq<PendingOperation>,
    now: u64,
    grace: u64,
    repaired: Seq<u64>,
)
    requires
        no_vector_commits(ops),
        forall|j: int| 0 <= j < ops.len() && is_repair(#[trigger] ops[j], now, grace) ==> repaired.contains(
            ops[j].operation_id,
        ),
    ensures
        ({
            let (kept, rc, sf, dc) = reconcile_pass(ops, now, grace, repaired);
            &&& sf == 0
            &&& rc == ops.filter(repair_of(now, grace)).len()
            &&& forall|j: int| 0 <= j < kept.len() ==> !is_due(#[trigger] kept[j], now, grace)
        }),
    decreases ops.len(),
{
    lemma_pass_counts(ops, now, grace, repaired);
    if ops.len() > 0 {
        let prev = ops.drop_last();
        assert(no_vector_commits(prev)) by {
            assert forall|j: int| 0 <= j < prev.len() implies !(#[trigger] prev[j]).vector_committed by {
                assert(prev[j] == ops[j]);
            }
        }
        assert forall|j: int| 0 <= j < prev.len() && is_repair(#[trigger] prev[j], now, grace) implies repaired.contains(
            prev[j].operation_id,
        ) by {
            assert(prev[j] == ops[j]);
        }
        assert(!ops[ops.len() - 1].vector_committed);
        lemma_successful_pass_clears_due(prev, now, grace, repaired);
        let (kp, rp, sp, dp) = reconcile_pass(prev, now, grace, repaired);
        let (kept, rc, sf, dc) = reconcile_pass(ops, now, grace, repaired);
        assert forall|j: int| 0 <= j < kept.len() implies !is_due(#[trigger] kept[j], now, grace) by {
            if j < kp.len() {
                if kept != kp {
                    assert(kept[j] == kp[j]);
                }
            }
        }
    }
}

/// A write whose upsert failed is picked up by reconciliation: once its
/// grace period has passed, the entry it left behind is among the upserts
/// that a pass retries.
pub proof fn lemma_deferred_write_is_retried(ops: Seq<PendingOperation>, t: StoreTicket, now: u64, grace: u64)
    requires
        ops.contains(repair_entry(t)),
        now as int - t.created_at as int > grace as int,
    ensures
        ops.filter(repair_of(now, grace)).contains(repair_entry(t)),
{
    let i = choose|i: int| 0 <= i < ops.len() && ops[i] == repair_entry(t);
    assert(repair_of(now, grace)(ops[i]));
    ops.lemma_filter_contains(repair_of(now, grace), i);
}

proof fn lemma_filter_keeps_all(ops: Seq<PendingOperation>, pred: spec_fn(PendingOperation) -> bool)
    requires
        forall|j: int| 0 <= j < ops.len() ==> pred(#[trigger] ops[j]),
    ensures
        ops.filter(pred) == ops,
    decreases ops.len(),
{
    if ops.len() > 0 {
        let prev = ops.drop_last();
        assert forall|j: int| 0 <= j < prev.len() implies pred(#[trigger] prev[j]) by {
            assert(prev[j] == ops[j]);
        }
        lemma_filter_keeps_all(prev, pred);
        assert(prev.push(ops.last()) =~= ops);
        prev.lemma_filter_push(ops.last(), pred);
        assert(pred(ops[ops.len() - 1]));
    } else {
        assert(ops.filter(pred) =~= ops) by {
            reveal(Seq::filter);
        }
    }
}

/// A write that settles without leaving a repair entry leaves the pending
/// table as it found it: `begin_write` appended an entry under a fresh id,
/// below which all other ids lie, and settling removes exactly that id. So
/// a failed structured write, a committed write into a collection without
/// an index, and an indexed write all restore the table.
pub proof fn lemma_settled_write_restores_table(ops: Seq<PendingOperation>, entry: PendingOperation)
    requires
        ids_below(ops, entry.operation_id),
    ensures
        ops.push(entry).filter(other_operation(entry.operation_id)) == ops,
        ops.push(entry).map_values(commit_structured(entry.operation_id)).filter(
            other_operation(entry.operation_id),
        ) == ops,
{
    let pred = other_operation(entry.operation_id);
    lemma_filter_keeps_all(ops, pred);
    ops.lemma_filter_push(entry, pred);
    let committed = ops.push(entry).map_values(commit_structured(entry.operation_id));
    assert(committed =~= ops.push(PendingOperation { structured_committed: true, ..entry }));
    ops.lemma_filter_push(PendingOperation { structured_committed: true, ..entry }, pred);
}

proof fn lemma_one_write_counted(ops: Seq<PendingOperation>, i: int, c: Collection, id: u128)
    requires
        0 <= i < ops.len(),
        writes(ops[i], c, id),
    ensures
        active_writes(ops, c, id) >= 1,
    decreases ops.len(),
{
    if i < ops.len() - 1 {
        assert(ops.drop_last()[i] == ops[i]);
        lemma_one_write_counted(ops.drop_last(), i, c, id);
    }
}

proof fn lemma_two_writes_counted(ops: Seq<PendingOperation>, lo: int, hi: int, c: Collection, id: u128)
    requires
        0 <= lo < hi < ops.len(),
        writes(ops[lo], c, id),
        writes(ops[hi], c, id),
    ensures
        active_writes(ops, c, id) >= 2,
    decreases ops.len(),
{
    let prev = ops.drop_last();
    assert(prev[lo] == ops[lo]);
    if hi < ops.len() - 1 {
        assert(prev[hi] == ops[hi]);
        lemma_two_writes_counted(prev, lo, hi, c, id);
    } else {
        lemma_one_write_counted(prev, lo, c, id);
    }
}

/// Writes of one entity do not overlap: no two entries of a table that
/// keeps the coordinator's invariant belong to running writes of the same
/// entity. A second write of an entity begins only after the first has
/// reported its last step.
pub proof fn lemma_no_concurrent_writes(ops: Seq<PendingOperation>, i: int, j: int)
    requires
        single_writer(ops),
        0 <= i < ops.len(),
        0 <= j < ops.len(),
        i != j,
        ops[i].in_flight,
        ops[j].in_flight,
    ensures
        ops[i].collection != ops[j].collection || ops[i].entity_id != ops[j].entity_id,
{
    if ops[i].collection == ops[j].collection && ops[i].entity_id == ops[j].entity_id {
        let c = ops[i].collection;
        let id = ops[i].entity_id;
        if i < j {
            lemma_two_writes_counted(ops, i, j, c, id);
        } else {
            lemma_two_writes_counted(ops, j, i, c, id);
        }
        assert(active_writes(ops, c, id) <= 1);
    }
}

proof fn lemma_filter_keeps_fewer_writes(
    ops: Seq<PendingOperation>,
    pred: spec_fn(PendingOperation) -> bool,
    c: Collection,
    id: u128,
)
    ensures
        active_writes(ops.filter(pred), c, id) <= active_writes(ops, c, id),
    decreases ops.len(),
{
    if ops.len() > 0 {
        let prev = ops.drop_last();
        lemma_filter_keeps_fewer_writes(prev, pred, c, id);
        assert(prev.push(ops.last()) =~= ops);
        prev.lemma_filter_push(ops.last(), pred);
        if pred(ops.last()) {
            assert(prev.filter(pred).push(ops.last()).drop_last() =~= prev.filter(pred));
        }
    } else {
        assert(ops.filter(pred) =~= ops) by {
            reveal(Seq::filter);
        }
    }
}

proof fn lemma_commit_keeps_writes(ops: Seq<PendingOperation>, op_id: u64, c: Collection, id: u128)
    ensures
        active_writes(ops.map_values(commit_structured(op_id)), c, id) == active_writes(ops, c, id),
    decreases ops.len(),
{
    if ops.len() > 0 {
        let prev = ops.drop_last();
        lemma_commit_keeps_writes(prev, op_id, c, id);
        assert(ops.map_values(commit_structured(op_id)).drop_last() =~= prev.map_values(
            commit_structured(op_id),
        ));
    }
}

proof fn lemma_release_keeps_fewer_writes(ops: Seq<PendingOperation>, op_id: u64, c: Collection, id: u128)
    ensures
        active_writes(ops.map_values(release(op_id)), c, id) <= active_writes(ops, c, id),
    decreases ops.len(),
{
    if ops.len() > 0 {
        let prev = ops.drop_last();
        lemma_release_keeps_fewer_writes(prev, op_id, c, id);
        assert(ops.map_values(release(op_id)).drop_last() =~= prev.map_values(release(op_id)));
    }
}

proof fn lemma_pass_keeps_fewer_writes(
    ops: Seq<PendingOperation>,
    now: u64,
    grace: u64,
    repaired: Seq<u64>,
    c: Collection,
    id: u128,
)
    ensures
        active_writes(reconcile_pass(ops, now, grace, repaired).0, c, id) <= active_writes(ops, c, id),
    decreases ops.len(),
{
    if ops.len() > 0 {
        lemma_pass_keeps_fewer_writes(ops.drop_last(), now, grace, repaired, c, id);
        let kp = reconcile_pass(ops.drop_last(), now, grace, repaired).0;
        let k = reconcile_pass(ops, now, grace, repaired).0;
        if k != kp {
            assert(k.drop_last() =~= kp);
        }
    }
}

fn same_collection(a: Collection, b: Collection) -> (r: bool)
    ensures
        r == (a == b),
{
    match (a, b) {
        (Collection::Agents, Collection::Agents) => true,
        (Collection::Knowledge, Collection::Knowledge) => true,
        (Collection::Coordination, Collection::Coordination) => true,
        _ => false,
    }
}

fn has_active_write(ops: &Vec<PendingOperation>, c: Collection, id: u128) -> (r: bool)
    ensures
        r == (active_writes(ops@, c, id) > 0),
{
    let mut found = false;
    let mut i: usize = 0;
    while i < ops.len()
        invariant
            i <= ops.len(),
            found == (active_writes(ops@.take(i as int), c, id) > 0),
        decreases ops.len() - i,
    {
        proof {
            assert(ops@.take(i as int + 1).drop_last() =~= ops@.take(i as int));
        }
        let op = ops[i];
        if op.in_flight && same_collection(op.collection, c) && op.entity_id == id {
            found = true;
        }
        i += 1;
    }
    proof {
        assert(ops@.take(ops.len() as int) =~= ops@);
    }
    found
}

fn contains_id(ids: &Vec<u64>, id: u64) -> (r: bool)
    ensures
        r == ids@.contains(id),
{
    let mut i: usize = 0;
    while i < ids.len()
        invariant
            i <= ids.len(),
            forall|j: int| 0 <= j < i ==> ids@[j] != id,
        decreases ids.len() - i,
    {
        if ids[i] == id {
            assert(ids@[i as int] == id);
            return true;
        }
        i += 1;
    }
    false
}

/// The values of `found` that are present, in order.
pub open spec fn present<T>(found: Seq<Option<T>>) -> Seq<T>
    decreases found.len(),
{
    if found.len() == 0 {
        Seq::empty()
    } else {
        let rest = present(found.subrange(1, found.len() as int));
        match found[0] {
            Some(v) => seq![v] + rest,
            None => rest,
        }
    }
}

/// Rehydrates the hits of a vector search: `found[i]` is the structured
/// record of the `i`-th hit, in the index's ranking, or `None` when the
/// structured store does not hold it (a sync artifact, skipped). The result
/// keeps the ranking.
pub fn rehydrate<T>(found: Vec<Option<T>>) -> (r: Vec<T>)
    ensures
        r@ == present(found@),
{
    let ghost all = found@;
    let mut found = found;
    let mut r: Vec<T> = Vec::new();
    while found.len() > 0
        invariant
            r@ + present(found@) == present(all),
        decreases found.len(),
    {
        let ghost before = found@;
        let x = found.remove(0);
        proof {
            assert(before.subrange(1, before.len() as int) =~= found@);
        }
        match x {
            Some(v) => {
                proof {
                    assert(r@.push(v) + present(found@) =~= r@ + (seq![v] + present(found@)));
                }
                r.push(v);
            },
            None => {},
        }
    }
    proof {
        assert(present(found@) =~= Seq::<T>::empty());
        assert(r@ + Seq::<T>::empty() =~= r@);
    }
    r
}

fn due(op: PendingOperation, now: u64, grace: u64) -> (r: bool)
    ensures
        r == is_due(op, now, grace),
{
    !op.in_flight && now > op.created_at && now - op.created_at > grace
}

fn without_operation(ops: &Vec<PendingOperation>, id: u64) -> (r: Vec<PendingOperation>)
    ensures
        r@ == ops@.filter(other_operation(id)),
        no_vector_commits(ops@) ==> no_vector_commits(r@),
        single_writer(ops@) ==> single_writer(r@),
        forall|n: u64| ids_below(ops@, n) ==> ids_below(r@, n),
{
    let mut r: Vec<PendingOperation> = Vec::new();
    let mut i: usize = 0;
    while i < ops.len()
        invariant
            i <= ops.len(),
            r@ == ops@.take(i as int).filter(other_operation(id)),
            no_vector_commits(ops@) ==> no_vector_commits(r@),
            forall|n: u64| ids_below(ops@, n) ==> ids_below(r@, n),
        decreases ops.len() - i,
    {
        let op = ops[i];
        proof {
            assert(ops@.take(i as int + 1) =~= ops@.take(i as int).push(op));
            ops@.take(i as int).lemma_filter_push(op, other_operation(id));
        }
        if op.operation_id != id {
            r.push(op);
        }
        i += 1;
    }
    proof {
        assert(ops@.take(ops.len() as int) =~= ops@);
        assert forall|c: Collection, e: u128| single_writer(ops@) implies #[trigger] active_writes(r@, c, e) <= 1 by {
            lemma_filter_keeps_fewer_writes(ops@, other_operation(id), c, e);
            assert(active_writes(ops@, c, e) <= 1);
        }
    }
    r
}

fn with_structured_commit(ops: &Vec<PendingOperation>, id: u64) -> (r: Vec<PendingOperation>)
    ensures
        r@ == ops@.map_values(commit_structured(id)),
        no_vector_commits(ops@) ==> no_vector_commits(r@),
        single_writer(ops@) ==> single_writer(r@),
        forall|n: u64| ids_below(ops@, n) ==> ids_below(r@, n),
{
    let mut r: Vec<PendingOperation> = Vec::new();
    let mut i: usize = 0;
    while i < ops.len()
        invariant
            i <= ops.len(),
            r@ == ops@.take(i as int).map_values(commit_structured(id)),
            no_vector_commits(ops@) ==> no_vector_commits(r@),
            forall|n: u64| ids_below(ops@, n) ==> ids_below(r@, n),
        decreases ops.len() - i,
    {
        let op = ops[i];
        let next = if op.operation_id == id {
            PendingOperation { structured_committed: true, ..op }
        } else {
            op
        };
        r.push(next);
        proof {
            assert(ops@.take(i as int + 1).map_values(commit_structured(id)) =~= ops@.take(
                i as int,
            ).map_values(commit_structured(id)).push(next));
        }
        i += 1;
    }
    proof {
        assert(ops@.take(ops.len() as int) =~= ops@);
        assert forall|c: Collection, e: u128| single_writer(ops@) implies #[trigger] active_writes(r@, c, e) <= 1 by {
            lemma_commit_keeps_writes(ops@, id, c, e);
            assert(active_writes(ops@, c, e) <= 1);
        }
    }
    r
}

} // verus!
