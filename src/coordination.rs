//! The work router: a registry of workers with their capability tags and
//! states, the routing decision for an intent, and the bookkeeping around a
//! dispatch.
//!
//! Executing a worker and searching the routing history are the caller's
//! part; the hub decides which worker runs, keeps each worker's state, and
//! guarantees that a dispatch releases its worker whatever its outcome.

use vstd::prelude::*;
use crate::behavioral::ActionStatus;
use crate::ids::{fresh_id, id_text, parse_uuid, uuid_parse, uuid_text};
use crate::storage::bump;

verus! {

/// Routing and dispatch faults.
#[derive(Debug, Clone)]
pub enum CoordinationError {
    AgentNotFound(u128),
    NoCapableAgent(String),
    AgentExecutionError(String),
    SemanticRoutingError(String),
    StorageError(String),
    SerializationError(String),
    CloudDelegationDisabled,
    Timeout,
    /// Every identifier drawn for a new worker was already registered.
    DuplicateAgent(u128),
    ConfigurationError(String),
}

/// Configuration of the hub.
#[derive(Debug, Clone, Copy, PartialEq, Eq, Structural)]
pub struct CoordinationConfig {
    pub max_concurrent_agents: usize,
    pub coordination_timeout_ms: u64,
    /// Share of agreeing workers needed for consensus, in percent.
    pub consensus_threshold_percent: u64,
    pub enable_semantic_routing: bool,
    pub enable_cloud_delegation: bool,
}

impl Default for CoordinationConfig {
    fn default() -> (r: Self)
        ensures
            r == (CoordinationConfig {
                max_concurrent_agents: 10,
                coordination_timeout_ms: 30_000,
                consensus_threshold_percent: 67,
                enable_semantic_routing: true,
                enable_cloud_delegation: false,
            }),
    {
        CoordinationConfig {
            max_concurrent_agents: 10,
            coordination_timeout_ms: 30_000,
            consensus_threshold_percent: 67,
            enable_semantic_routing: true,
            enable_cloud_delegation: false,
        }
    }
}

/// State of a registered worker. A failed task never leaves a worker in an
/// error state: it goes back to `Available`.
#[derive(Debug, Clone, Copy, PartialEq, Eq, Structural)]
pub enum WorkerStatus {
    Available,
    Busy,
    Offline,
}

/// Status of a coordinated task.
#[derive(Debug, Clone, Copy, PartialEq, Eq, Structural)]
pub enum TaskStatus {
    Pending,
    InProgress,
    Completed,
    Failed,
    Delegated,
}

#[derive(Debug, Clone, Copy, PartialEq, Eq, Structural)]
pub enum TaskPriority {
    Critical,
    High,
    Medium,
    Low,
}

/// A registered worker: its identifier, its declared capability tags and
/// its state.
#[derive(Debug, Clone)]
pub struct WorkerRecord {
    pub id: u128,
    pub capabilities: Vec<String>,
    pub status: WorkerStatus,
}

/// How a dispatched task ended.
#[derive(Debug, Clone)]
pub enum DispatchOutcome {
    /// The worker returned an action with this status.
    Completed(ActionStatus),
    /// The worker failed with this detail.
    Failed(String),
    /// The task outran its timeout.
    TimedOut,
}

/// Dispatch counters. They stop at their type's maximum.
#[derive(Debug, Clone, Copy, PartialEq, Eq, Structural)]
pub struct CoordinationMetrics {
    pub total_sessions: u64,
    pub successful_completions: u64,
    pub failed_operations: u64,
    pub total_completion_time_ms: u128,
}

impl CoordinationMetrics {
    /// Mean completion time of the dispatches so far, rounded down; zero
    /// before the first.
    pub fn average_completion_time_ms(&self) -> (r: u128)
        ensures
            self.total_sessions == 0 ==> r == 0,
            self.total_sessions > 0 ==> r == self.total_completion_time_ms / (self.total_sessions as u128),
    {
        if self.total_sessions == 0 {
            0
        } else {
            self.total_completion_time_ms / (self.total_sessions as u128)
        }
    }
}

/// Snapshot of the hub.
#[derive(Debug, Clone)]
pub struct CoordinationStatus {
    /// Dispatches in progress: the workers that are busy.
    pub active_sessions: usize,
    pub registered_agents: usize,
    pub available_agents: usize,
    /// Each registered worker with its state, in registration order.
    pub worker_states: Vec<(u128, WorkerStatus)>,
    pub performance_metrics: CoordinationMetrics,
}

/// A worker's identifier and state.
pub open spec fn id_and_status(w: WorkerRecord) -> (u128, WorkerStatus) {
    (w.id, w.status)
}

/// A worker can take an action when it is not offline and the action type
/// is one of its capability tags.
pub open spec fn capable(w: WorkerRecord, action: Seq<char>) -> bool {
    &&& w.status != WorkerStatus::Offline
    &&& exists|k: int| 0 <= k < w.capabilities@.len() && #[trigger] w.capabilities@[k]@ == action
}

/// Position `i` of the registry holds the worker `id`.
pub open spec fn slot(ws: Seq<WorkerRecord>, id: u128, i: int) -> bool {
    0 <= i < ws.len() && ws[i].id == id
}

/// The worker `id` is in the registry.
pub open spec fn registered(ws: Seq<WorkerRecord>, id: u128) -> bool {
    exists|i: int| slot(ws, id, i)
}

/// No identifier appears twice in the registry.
pub open spec fn unique_ids(ws: Seq<WorkerRecord>) -> bool {
    forall|i: int, j: int| 0 <= i < ws.len() && 0 <= j < ws.len() && i != j ==> ws[i].id != ws[j].id
}

/// The capability route: the first worker, in registration order, that can
/// take the action.
pub open spec fn first_capable(ws: Seq<WorkerRecord>, action: Seq<char>, r: Result<u128, CoordinationError>) -> bool {
    &&& r is Ok ==> exists|i: int|
        {
            &&& #[trigger] slot(ws, r->Ok_0, i)
            &&& capable(ws[i], action)
            &&& forall|j: int| 0 <= j < i ==> !capable(#[trigger] ws[j], action)
        }
    &&& r is Err ==> {
        &&& r->Err_0 is NoCapableAgent
        &&& forall|j: int| 0 <= j < ws.len() ==> !capable(#[trigger] ws[j], action)
    }
}

/// A history hit is taken when it names a registered, available worker.
pub open spec fn hit_usable(ws: Seq<WorkerRecord>, hit: Option<u128>) -> bool {
    &&& hit is Some
    &&& exists|i: int| slot(ws, hit->Some_0, i) && ws[i].status == WorkerStatus::Available
}

/// The task status that a worker's action status stands for.
pub open spec fn task_status_of(s: ActionStatus) -> TaskStatus {
    match s {
        ActionStatus::Completed => TaskStatus::Completed,
        ActionStatus::InProgress => TaskStatus::InProgress,
        ActionStatus::Failed => TaskStatus::Failed,
        ActionStatus::RequiresInput => TaskStatus::Pending,
        ActionStatus::Blocked => TaskStatus::Failed,
    }
}

/// `x + d`, or `u128::MAX` when that overflows.
pub open spec fn add_capped(x: u128, d: u64) -> u128 {
    if x + d <= u128::MAX {
        (x + d) as u128
    } else {
        u128::MAX
    }
}

/// Number of workers in `ws` with status `s`.
pub open spec fn count_status(ws: Seq<WorkerRecord>, s: WorkerStatus) -> nat
    decreases ws.len(),
{
    if ws.len() == 0 {
        0
    } else {
        count_status(ws.drop_last(), s) + if ws.last().status == s {
            1nat
        } else {
            0nat
        }
    }
}

/// The router's registry, configuration and counters.
pub struct AgentCoordinationHub {
    config: CoordinationConfig,
    workers: Vec<WorkerRecord>,
    metrics: CoordinationMetrics,
}

impl AgentCoordinationHub {
    pub closed spec fn workers_view(&self) -> Seq<WorkerRecord> {
        self.workers@
    }

    pub closed spec fn config_view(&self) -> CoordinationConfig {
        self.config
    }

    pub closed spec fn metrics_view(&self) -> CoordinationMetrics {
        self.metrics
    }

    /// The hub's invariant: identifiers are unique in the registry.
    pub open spec fn wf(&self) -> bool {
        unique_ids(self.workers_view())
    }

    pub fn new(config: CoordinationConfig) -> (r: Self)
        ensures
            r.wf(),
            r.workers_view() == Seq::<WorkerRecord>::empty(),
            r.config_view() == config,
            r.metrics_view() == (CoordinationMetrics {
                total_sessions: 0,
                successful_completions: 0,
                failed_operations: 0,
                total_completion_time_ms: 0,
            }),
    {
        AgentCoordinationHub {
            config,
            workers: Vec::new(),
            metrics: CoordinationMetrics {
                total_sessions: 0,
                successful_completions: 0,
                failed_operations: 0,
                total_completion_time_ms: 0,
            },
        }
    }

    pub fn config(&self) -> (r: CoordinationConfig)
        ensures
            r == self.config_view(),
    {
        self.config
    }

    /// Index of the worker `id` in the registry.
    fn position(&self, id: u128) -> (r: Option<usize>)
        requires
            self.wf(),
        ensures
            r is None ==> !registered(self.workers_view(), id),
            r is Some ==> slot(self.workers_view(), id, r->Some_0 as int),
    {
        let mut i: usize = 0;
        while i < self.workers.len()
            invariant
                i <= self.workers.len(),
                forall|j: int| 0 <= j < i ==> self.workers@[j].id != id,
            decreases self.workers.len() - i,
        {
            if self.workers[i].id == id {
                return Some(i);
            }
            i += 1;
        }
        None
    }

    /// State of the worker `id`, if it is registered.
    pub fn worker_status(&self, id: u128) -> (r: Option<WorkerStatus>)
        requires
            self.wf(),
        ensures
            r is None ==> !registered(self.workers_view(), id),
            r is Some ==> exists|i: int| slot(self.workers_view(), id, i) && self.workers_view()[i].status == r->Some_0,
    {
        match self.position(id) {
            Some(i) => Some(self.workers[i].status),
            None => None,
        }
    }

    /// Registers a worker under `id` with its capability tags, available.
    /// An identifier already registered has its entry replaced in place.
    pub fn register_as(&mut self, id: u128, capabilities: Vec<String>) -> (r: u128)
        requires
            old(self).wf(),
        ensures
            r == id,
            final(self).wf(),
            final(self).config_view() == old(self).config_view(),
            final(self).metrics_view() == old(self).metrics_view(),
            ({
                let rec = WorkerRecord { id, capabilities, status: WorkerStatus::Available };
                &&& !registered(old(self).workers_view(), id) ==> final(self).workers_view() == old(self).workers_view().push(rec)
                &&& forall|i: int| slot(old(self).workers_view(), id, i) ==> final(self).workers_view() == old(self).workers_view().update(i, rec)
            }),
    {
        let rec = WorkerRecord { id, capabilities, status: WorkerStatus::Available };
        match self.position(id) {
            Some(i) => {
                self.workers.set(i, rec);
                proof {
                    assert forall|k: int| slot(old(self).workers_view(), id, k) implies k == i by {}
                }
            },
            None => {
                self.workers.push(rec);
                proof {
                    let ws = self.workers@;
                    assert forall|a: int, b: int| 0 <= a < ws.len() && 0 <= b < ws.len() && a != b implies ws[a].id
                        != ws[b].id by {
                        if a < ws.len() - 1 && b < ws.len() - 1 {
                        } else if a == ws.len() - 1 {
                            assert(!slot(old(self).workers@, id, b));
                        } else {
                            assert(!slot(old(self).workers@, id, a));
                        }
                    }
                }
            },
        }
        id
    }

    /// Registers a worker under a freshly generated identifier, available,
    /// after every worker registered before it, and returns that identifier.
    /// An identifier that is already registered is drawn again, up to four
    /// draws; when all of them collide nothing is registered.
    pub fn register(&mut self, capabilities: Vec<String>) -> (r: Result<u128, CoordinationError>)
        requires
            old(self).wf(),
        ensures
            final(self).wf(),
            final(self).config_view() == old(self).config_view(),
            final(self).metrics_view() == old(self).metrics_view(),
            r is Ok ==> {
                &&& !registered(old(self).workers_view(), r->Ok_0)
                &&& final(self).workers_view() == old(self).workers_view().push(
                    WorkerRecord { id: r->Ok_0, capabilities, status: WorkerStatus::Available },
                )
            },
            r is Err ==> r->Err_0 is DuplicateAgent && final(self).workers_view() == old(self).workers_view(),
    {
        let mut drawn: u128 = fresh_id();
        let mut attempt: usize = 0;
        while attempt < 4
            invariant
                self.wf(),
                self.workers@ == old(self).workers@,
                self.config == old(self).config,
                self.metrics == old(self).metrics,
            decreases 4 - attempt,
        {
            if attempt > 0 {
                drawn = fresh_id();
            }
            if self.position(drawn).is_none() {
                let id = self.register_as(drawn, capabilities);
                return Ok(id);
            }
            attempt += 1;
        }
        Err(CoordinationError::DuplicateAgent(drawn))
    }

    /// Takes the worker `id` offline.
    pub fn deregister(&mut self, id: u128) -> (r: Result<(), CoordinationError>)
        requires
            old(self).wf(),
        ensures
            final(self).wf(),
            final(self).config_view() == old(self).config_view(),
            final(self).metrics_view() == old(self).metrics_view(),
            !registered(old(self).workers_view(), id) ==> r == Err::<(), CoordinationError>(CoordinationError::AgentNotFound(id))
                && final(self).workers_view() == old(self).workers_view(),
            forall|i: int| slot(old(self).workers_view(), id, i) ==> r is Ok
                && final(self).workers_view() == old(self).workers_view().update(
                    i,
                    WorkerRecord { status: WorkerStatus::Offline, ..old(self).workers_view()[i] },
                ),
    {
        self.set_status(id, WorkerStatus::Offline)
    }

    fn set_status(&mut self, id: u128, status: WorkerStatus) -> (r: Result<(), CoordinationError>)
        requires
            old(self).wf(),
        ensures
            final(self).wf(),
            final(self).config_view() == old(self).config_view(),
            final(self).metrics_view() == old(self).metrics_view(),
            !registered(old(self).workers_view(), id) ==> r == Err::<(), CoordinationError>(CoordinationError::AgentNotFound(id))
                && final(self).workers_view() == old(self).workers_view(),
            forall|i: int| slot(old(self).workers_view(), id, i) ==> r is Ok
                && final(self).workers_view() == old(self).workers_view().update(
                    i,
                    WorkerRecord { status, ..old(self).workers_view()[i] },
                ),
    {
        match self.position(id) {
            Some(i) => {
                let mut w = self.workers.remove(i);
                w.status = status;
                self.workers.insert(i, w);
                proof {
                    assert(self.workers@ =~= old(self).workers@.update(i as int, w));
                }
                Ok(())
            },
            None => Err(CoordinationError::AgentNotFound(id)),
        }
    }

    /// The capability route: the first worker, in registration order, that
    /// is not offline and has `action_type` among its capability tags.
    pub fn route_by_capabilities(&self, action_type: &str) -> (r: Result<u128, CoordinationError>)
        requires
            self.wf(),
        ensures
            first_capable(self.workers_view(), action_type@, r),
    {
        let mut i: usize = 0;
        while i < self.workers.len()
            invariant
                i <= self.workers.len(),
                forall|j: int| 0 <= j < i ==> !capable(#[trigger] self.workers@[j], action_type@),
            decreases self.workers.len() - i,
        {
            if has_capability(&self.workers[i], action_type) {
                let id = self.workers[i].id;
                proof {
                    let r = Ok::<u128, CoordinationError>(id);
                    assert(slot(self.workers@, r->Ok_0, i as int));
                    assert(first_capable(self.workers@, action_type@, r));
                }
                return Ok(id);
            }
            i += 1;
        }
        Err(CoordinationError::NoCapableAgent(action_type.to_string()))
    }

    /// The routing decision given the worker named by the top hit of the
    /// routing history, if any: that worker when it is registered and
    /// available, else the capability route.
    pub fn choose_route(&self, hit: Option<u128>, action_type: &str) -> (r: Result<u128, CoordinationError>)
        requires
            self.wf(),
        ensures
            hit_usable(self.workers_view(), hit) ==> r == Ok::<u128, CoordinationError>(hit->Some_0),
            !hit_usable(self.workers_view(), hit) ==> first_capable(self.workers_view(), action_type@, r),
    {
        if let Some(id) = hit {
            if let Some(i) = self.position(id) {
                if matches!(self.workers[i].status, WorkerStatus::Available) {
                    return Ok(id);
                }
                proof {
                    assert forall|k: int| slot(self.workers@, id, k) implies self.workers@[k].status
                        != WorkerStatus::Available by {
                        assert(k == i);
                    }
                }
            }
        }
        self.route_by_capabilities(action_type)
    }

    /// Semantic routing: `hit_text` is the worker identifier that the top
    /// hit of the routing history carries, if any.
    pub fn route_task_semantically(&self, hit_text: Option<&str>, action_type: &str) -> (r: Result<
        u128,
        CoordinationError,
    >)
        requires
            self.wf(),
        ensures
            ({
                let hit = match hit_text {
                    Some(t) => uuid_parse(t@),
                    None => None,
                };
                &&& hit_usable(self.workers_view(), hit) ==> r == Ok::<u128, CoordinationError>(hit->Some_0)
                &&& !hit_usable(self.workers_view(), hit) ==> first_capable(self.workers_view(), action_type@, r)
            }),
            forall|id: u128|
                hit_text is Some && hit_text->Some_0@ == #[trigger] uuid_text(id) ==> uuid_parse(hit_text->Some_0@)
                    == Some(id),
    {
        let hit = match hit_text {
            Some(t) => parse_uuid(t),
            None => None,
        };
        self.choose_route(hit, action_type)
    }

    /// Routes an intent: semantically when the configuration enables it,
    /// else by capabilities alone.
    pub fn route(&self, hit_text: Option<&str>, action_type: &str) -> (r: Result<u128, CoordinationError>)
        requires
            self.wf(),
        ensures
            ({
                let hit = match hit_text {
                    Some(t) => uuid_parse(t@),
                    None => None,
                };
                let semantic = self.config_view().enable_semantic_routing;
                &&& semantic && hit_usable(self.workers_view(), hit) ==> r == Ok::<u128, CoordinationError>(hit->Some_0)
                &&& !(semantic && hit_usable(self.workers_view(), hit)) ==> first_capable(
                    self.workers_view(),
                    action_type@,
                    r,
                )
            }),
            forall|id: u128|
                self.config_view().enable_semantic_routing && hit_text is Some && hit_text->Some_0@
                    == #[trigger] uuid_text(id) ==> uuid_parse(hit_text->Some_0@) == Some(id),
    {
        if self.config.enable_semantic_routing {
            self.route_task_semantically(hit_text, action_type)
        } else {
            self.route_by_capabilities(action_type)
        }
    }

    /// Marks the worker `id` busy before its task runs. Unknown and offline
    /// workers are refused.
    pub fn begin_dispatch(&mut self, id: u128) -> (r: Result<(), CoordinationError>)
        requires
            old(self).wf(),
        ensures
            final(self).wf(),
            final(self).config_view() == old(self).config_view(),
            final(self).metrics_view() == old(self).metrics_view(),
            !registered(old(self).workers_view(), id) ==> r == Err::<(), CoordinationError>(CoordinationError::AgentNotFound(id))
                && final(self).workers_view() == old(self).workers_view(),
            forall|i: int| #[trigger] slot(old(self).workers_view(), id, i) ==> {
                let w = old(self).workers_view()[i];
                &&& w.status == WorkerStatus::Offline ==> r == Err::<(), CoordinationError>(CoordinationError::AgentNotFound(id))
                    && final(self).workers_view() == old(self).workers_view()
                &&& w.status != WorkerStatus::Offline ==> r is Ok && final(self).workers_view()
                    == old(self).workers_view().update(i, WorkerRecord { status: WorkerStatus::Busy, ..w })
            },
    {
        match self.position(id) {
            Some(i) => {
                if matches!(self.workers[i].status, WorkerStatus::Offline) {
                    proof {
                        assert forall|k: int| #[trigger] slot(old(self).workers@, id, k) implies k == i by {}
                    }
                    Err(CoordinationError::AgentNotFound(id))
                } else {
                    self.set_status(id, WorkerStatus::Busy)
                }
            },
            None => Err(CoordinationError::AgentNotFound(id)),
        }
    }

    /// Settles a dispatch of the worker `id` that took `elapsed_ms`. The
    /// worker is released whatever the outcome: unless it was taken offline
    /// meanwhile, it is available again. The counters record the dispatch,
    /// and the outcome becomes the task's status or its fault.
    pub fn finish_dispatch(&mut self, id: u128, outcome: DispatchOutcome, elapsed_ms: u64) -> (r: Result<
        TaskStatus,
        CoordinationError,
    >)
        requires
            old(self).wf(),
        ensures
            final(self).wf(),
            final(self).config_view() == old(self).config_view(),
            !registered(old(self).workers_view(), id) ==> final(self).workers_view() == old(self).workers_view(),
            forall|i: int| #[trigger] slot(old(self).workers_view(), id, i) ==> {
                let w = old(self).workers_view()[i];
                &&& w.status == WorkerStatus::Offline ==> final(self).workers_view() == old(self).workers_view()
                &&& w.status != WorkerStatus::Offline ==> final(self).workers_view()
                    == old(self).workers_view().update(i, WorkerRecord { status: WorkerStatus::Available, ..w })
            },
            ({
                let m = old(self).metrics_view();
                let success = outcome is Completed;
                final(self).metrics_view() == (CoordinationMetrics {
                    total_sessions: bump(m.total_sessions),
                    successful_completions: if success {
                        bump(m.successful_completions)
                    } else {
                        m.successful_completions
                    },
                    failed_operations: if success {
                        m.failed_operations
                    } else {
                        bump(m.failed_operations)
                    },
                    total_completion_time_ms: add_capped(m.total_completion_time_ms, elapsed_ms),
                })
            }),
            outcome is Completed ==> r == Ok::<TaskStatus, CoordinationError>(task_status_of(outcome->Completed_0)),
            outcome is Failed ==> r == Err::<TaskStatus, CoordinationError>(
                CoordinationError::AgentExecutionError(outcome->Failed_0),
            ),
            outcome is TimedOut ==> r == Err::<TaskStatus, CoordinationError>(CoordinationError::Timeout),
    {
        if let Some(i) = self.position(id) {
            proof {
                assert forall|k: int| #[trigger] slot(old(self).workers@, id, k) implies k == i by {}
            }
            if !matches!(self.workers[i].status, WorkerStatus::Offline) {
                let _ = self.set_status(id, WorkerStatus::Available);
            }
        }
        let success = match &outcome {
            DispatchOutcome::Completed(_) => true,
            _ => false,
        };
        self.metrics.total_sessions = self.metrics.total_sessions.saturating_add(1);
        if success {
            self.metrics.successful_completions = self.metrics.successful_completions.saturating_add(1);
        } else {
            self.metrics.failed_operations = self.metrics.failed_operations.saturating_add(1);
        }
        self.metrics.total_completion_time_ms = self.metrics.total_completion_time_ms.saturating_add(
            elapsed_ms as u128,
        );
        match outcome {
            DispatchOutcome::Completed(s) => Ok(task_status(s)),
            DispatchOutcome::Failed(detail) => Err(CoordinationError::AgentExecutionError(detail)),
            DispatchOutcome::TimedOut => Err(CoordinationError::Timeout),
        }
    }

    /// Refuses cloud delegation unless the configuration enables it.
    pub fn check_cloud_delegation(&self) -> (r: Result<(), CoordinationError>)
        ensures
            self.config_view().enable_cloud_delegation ==> r is Ok,
            !self.config_view().enable_cloud_delegation ==> r == Err::<(), CoordinationError>(
                CoordinationError::CloudDelegationDisabled,
            ),
    {
        if self.config.enable_cloud_delegation {
            Ok(())
        } else {
            Err(CoordinationError::CloudDelegationDisabled)
        }
    }

    /// Snapshot of the hub: busy and available workers, registry size and
    /// counters.
    pub fn get_coordination_status(&self) -> (r: CoordinationStatus)
        ensures
            r.active_sessions as nat == count_status(self.workers_view(), WorkerStatus::Busy),
            r.available_agents as nat == count_status(self.workers_view(), WorkerStatus::Available),
            r.registered_agents as nat == self.workers_view().len(),
            r.worker_states@ == self.workers_view().map_values(|w: WorkerRecord| id_and_status(w)),
            r.performance_metrics == self.metrics_view(),
    {
        let mut states: Vec<(u128, WorkerStatus)> = Vec::new();
        let mut busy: usize = 0;
        let mut available: usize = 0;
        let mut i: usize = 0;
        while i < self.workers.len()
            invariant
                i <= self.workers.len(),
                busy + available <= i,
                busy as nat == count_status(self.workers@.take(i as int), WorkerStatus::Busy),
                available as nat == count_status(self.workers@.take(i as int), WorkerStatus::Available),
                states@ == self.workers@.take(i as int).map_values(|w: WorkerRecord| id_and_status(w)),
            decreases self.workers.len() - i,
        {
            proof {
                assert(self.workers@.take(i as int + 1).drop_last() =~= self.workers@.take(i as int));
            }
            states.push((self.workers[i].id, self.workers[i].status));
            proof {
                assert(states@ =~= self.workers@.take(i as int + 1).map_values(|w: WorkerRecord| id_and_status(w)));
            }
            match self.workers[i].status {
                WorkerStatus::Busy => busy += 1,
                WorkerStatus::Available => available += 1,
                WorkerStatus::Offline => {},
            }
            i += 1;
        }
        proof {
            assert(self.workers@.take(self.workers.len() as int) =~= self.workers@);
        }
        CoordinationStatus {
            active_sessions: busy,
            registered_agents: self.workers.len(),
            available_agents: available,
            worker_states: states,
            performance_metrics: self.metrics,
        }
    }
}

impl TaskStatus {
    pub open spec fn name_spec(self) -> Seq<char> {
        match self {
            TaskStatus::Pending => "Pending"@,
            TaskStatus::InProgress => "InProgress"@,
            TaskStatus::Completed => "Completed"@,
            TaskStatus::Failed => "Failed"@,
            TaskStatus::Delegated => "Delegated"@,
        }
    }

    /// The status's name, as routing records write it.
    pub fn name(&self) -> (r: &'static str)
        ensures
            r@ == self.name_spec(),
    {
        match self {
            TaskStatus::Pending => "Pending",
            TaskStatus::InProgress => "InProgress",
            TaskStatus::Completed => "Completed",
            TaskStatus::Failed => "Failed",
            TaskStatus::Delegated => "Delegated",
        }
    }
}

/// Words joined by single spaces.
pub open spec fn join_words(words: Seq<Seq<char>>) -> Seq<char>
    decreases words.len(),
{
    if words.len() == 0 {
        Seq::empty()
    } else if words.len() == 1 {
        words[0]
    } else {
        join_words(words.drop_last()) + " "@ + words.last()
    }
}

/// The text with which the routing history is searched for an intent: its
/// action type, a space, and its text parameter values joined by spaces.
pub open spec fn routing_query_text(action_type: Seq<char>, values: Seq<Seq<char>>) -> Seq<char> {
    action_type + " "@ + join_words(values)
}

/// The searchable text of a routing record.
pub open spec fn routing_record_text(
    task_id: u128,
    agent_id: u128,
    status: TaskStatus,
    action_type: Seq<char>,
    context: Seq<char>,
) -> Seq<char> {
    "Task: "@ + uuid_text(task_id) + " executed by agent "@ + uuid_text(agent_id) + " with status "@
        + status.name_spec() + ". Intent: "@ + action_type + " "@ + context
}

/// Builds the search text for an intent from its action type and the
/// values of its text parameters.
pub fn routing_query(action_type: &str, values: &Vec<String>) -> (r: String)
    ensures
        r@ == routing_query_text(action_type@, values@.map_values(|v: String| v@)),
{
    let ghost words = values@.map_values(|v: String| v@);
    let mut joined = String::new();
    let mut i: usize = 0;
    while i < values.len()
        invariant
            i <= values.len(),
            words == values@.map_values(|v: String| v@),
            joined@ == join_words(words.take(i as int)),
        decreases values.len() - i,
    {
        proof {
            assert(words.take(i as int + 1).drop_last() =~= words.take(i as int));
        }
        if i > 0 {
            joined.append(" ");
        }
        joined.append(&values[i]);
        proof {
            if i == 0 {
                assert(joined@ =~= words.take(1)[0]);
            }
        }
        i += 1;
    }
    proof {
        assert(words.take(values.len() as int) =~= words);
    }
    let mut r = action_type.to_string();
    r.append(" ");
    r.append(&joined);
    r
}

/// Builds the searchable text of the routing record that a dispatch leaves:
/// which task ran on which worker, how it ended, and the intent.
pub fn routing_record(
    task_id: u128,
    agent_id: u128,
    status: TaskStatus,
    action_type: &str,
    context: &str,
) -> (r: String)
    ensures
        r@ == routing_record_text(task_id, agent_id, status, action_type@, context@),
{
    let mut r = "Task: ".to_string();
    r.append(&id_text(task_id));
    r.append(" executed by agent ");
    r.append(&id_text(agent_id));
    r.append(" with status ");
    r.append(status.name());
    r.append(". Intent: ");
    r.append(action_type);
    r.append(" ");
    r.append(context);
    r
}

/// The status that the routing record of a dispatch carries: the task's
/// status, or `Failed` when the dispatch ended in a fault.
pub fn record_status(result: &Result<TaskStatus, CoordinationError>) -> (r: TaskStatus)
    ensures
        result is Ok ==> r == result->Ok_0,
        result is Err ==> r == TaskStatus::Failed,
{
    match result {
        Ok(s) => *s,
        Err(_) => TaskStatus::Failed,
    }
}

/// The status a coordinated task takes from the worker's action status.
pub fn task_status(s: ActionStatus) -> (r: TaskStatus)
    ensures
        r == task_status_of(s),
{
    match s {
        ActionStatus::Completed => TaskStatus::Completed,
        ActionStatus::InProgress => TaskStatus::InProgress,
        ActionStatus::Failed => TaskStatus::Failed,
        ActionStatus::RequiresInput => TaskStatus::Pending,
        ActionStatus::Blocked => TaskStatus::Failed,
    }
}

fn has_capability(w: &WorkerRecord, action_type: &str) -> (r: bool)
    ensures
        r == capable(*w, action_type@),
{
    if matches!(w.status, WorkerStatus::Offline) {
        return false;
    }
    let wanted = action_type.to_string();
    let mut k: usize = 0;
    while k < w.capabilities.len()
        invariant
            k <= w.capabilities.len(),
            w.status != WorkerStatus::Offline,
            wanted@ == action_type@,
            forall|m: int| 0 <= m < k ==> #[trigger] w.capabilities@[m]@ != action_type@,
        decreases w.capabilities.len() - k,
    {
        if w.capabilities[k] == wanted {
            assert(w.capabilities@[k as int]@ == action_type@);
            return true;
        }
        k += 1;
    }
    false
}

/// The capability tags of a worker, as text.
pub open spec fn tags(w: WorkerRecord) -> Seq<Seq<char>> {
    w.capabilities@.map_values(|c: String| c@)
}

/// Fallback routing is deterministic: when two workers declare the same
/// capability tags and were registered in the order A then B, and no worker
/// registered before A can take the action, the capability route picks A
/// whenever A can take it; B, though just as capable, is never chosen.
pub proof fn lemma_fallback_prefers_first_registered(
    ws: Seq<WorkerRecord>,
    a: int,
    b: int,
    action: Seq<char>,
    r: Result<u128, CoordinationError>,
)
    requires
        unique_ids(ws),
        0 <= a < b < ws.len(),
        tags(ws[a]) == tags(ws[b]),
        ws[b].status != WorkerStatus::Offline,
        capable(ws[a], action),
        forall|j: int| 0 <= j < a ==> !capable(#[trigger] ws[j], action),
        first_capable(ws, action, r),
    ensures
        capable(ws[b], action),
        r == Ok::<u128, CoordinationError>(ws[a].id),
        r != Ok::<u128, CoordinationError>(ws[b].id),
{
    let k = choose|k: int| 0 <= k < ws[a].capabilities@.len() && #[trigger] ws[a].capabilities@[k]@ == action;
    assert(tags(ws[a]).len() == ws[a].capabilities@.len());
    assert(tags(ws[b]).len() == ws[b].capabilities@.len());
    assert(tags(ws[a])[k] == ws[a].capabilities@[k]@);
    assert(tags(ws[b])[k] == ws[b].capabilities@[k]@);
    assert(ws[b].capabilities@[k]@ == action);
    if r is Ok {
        let i = choose|i: int|
            {
                &&& slot(ws, r->Ok_0, i)
                &&& capable(ws[i], action)
                &&& forall|j: int| 0 <= j < i ==> !capable(#[trigger] ws[j], action)
            };
        if i < a {
        } else if i > a {
            assert(!capable(ws[a], action));
        }
    }
}

} // verus!
