//! The worker's policies and its local queue.
//!
//! The worker takes tasks by priority, and first come first served within one
//! priority. It blocks tasks that are nested too deep or have travelled too far,
//! retries a refused delivery as often as its policy allows, and waits between
//! attempts without jitter.

use vstd::arithmetic::power2::pow2;
use vstd::prelude::*;
use vstd::string::*;
use std::sync::Arc;
use crate::bus::channel::{
    looks, max_capacity, task_capacity, try_recv, Received, MAX_CHANNEL_CAPACITY,
};
use crate::bus::error::BusError;
use crate::bus::registry::{EndpointRegistry, RegisteredEndpoint};
use crate::config::BridgeConfig;
use crate::ids::{hyphenated, DeliveryId, TaskId};
use crate::models::{AgentTask, TransportType};
use crate::text::{decimal, decimal_text};
use crate::time::{lemma_span_is_not_negative, Duration};

verus! {

/// One delivery attempt, as both stages of the dispatch see it.
#[derive(Debug, Clone)]
pub struct DispatchRequest<'a> {
    /// The task, exactly as submitted.
    pub task: &'a AgentTask,
    /// The target that passed validation.
    pub target: &'a RegisteredEndpoint,
    /// Identity of the attempt.
    pub delivery_id: DeliveryId,
    /// Number of the attempt, from 1.
    pub attempt: u32,
}

/// The terminal outcome of an accepted task.
#[derive(Debug, Clone, PartialEq, Eq)]
pub enum DispatchOutcome {
    /// The task finished.
    Completed {
        /// Its output.
        output: String,
    },
    /// The task ran and failed.
    Failed {
        /// Why.
        error: String,
    },
}

/// Why a dispatch stage gave no usable result.
#[derive(Debug, Clone, PartialEq, Eq)]
pub enum DispatchError {
    /// The delivery was not accepted: the task never ran.
    NotAccepted {
        /// Why.
        reason: String,
    },
    /// The delivery was accepted, but there is no terminal result.
    ExecutionFailed {
        /// Why.
        reason: String,
    },
    /// The dispatcher cannot prepare an execution.
    UnsupportedPrepared,
    /// Nobody knows whether the task was accepted.
    AcceptanceUnknown,
    /// An operator has to look.
    RecoveryNeeded,
}

impl DispatchError {
    /// The rendered error.
    pub open spec fn rendered(self) -> Seq<char> {
        match self {
            DispatchError::NotAccepted { reason } => "delivery was not accepted: "@ + reason@,
            DispatchError::ExecutionFailed { reason } => "execution failed after acceptance: "@
                + reason@,
            DispatchError::UnsupportedPrepared => "prepared execution is unsupported"@,
            DispatchError::AcceptanceUnknown => "execution acceptance is unknown"@,
            DispatchError::RecoveryNeeded => "execution requires recovery"@,
        }
    }

    /// Whether a further attempt could succeed: the task never ran, or its acceptance
    /// was lost before there was a result.
    pub open spec fn transient(self) -> bool {
        self is NotAccepted || self is ExecutionFailed
    }

    /// Renders the error.
    pub fn to_string(&self) -> (text: String)
        ensures
            text@ == self.rendered(),
    {
        match self {
            DispatchError::NotAccepted { reason } => {
                let mut text = "delivery was not accepted: ".to_owned();
                text.append(reason.as_str());
                text
            },
            DispatchError::ExecutionFailed { reason } => {
                let mut text = "execution failed after acceptance: ".to_owned();
                text.append(reason.as_str());
                text
            },
            DispatchError::UnsupportedPrepared => "prepared execution is unsupported".to_owned(),
            DispatchError::AcceptanceUnknown => "execution acceptance is unknown".to_owned(),
            DispatchError::RecoveryNeeded => "execution requires recovery".to_owned(),
        }
    }

    /// Whether a further attempt could succeed.
    pub fn is_transient(&self) -> (transient: bool)
        ensures
            transient == self.transient(),
    {
        match self {
            DispatchError::NotAccepted { .. } => true,
            DispatchError::ExecutionFailed { .. } => true,
            DispatchError::UnsupportedPrepared => false,
            DispatchError::AcceptanceUnknown => false,
            DispatchError::RecoveryNeeded => false,
        }
    }
}

/// What came of handing a terminal event to the authority that owns it.
#[derive(Debug, Clone, Copy, PartialEq, Eq, Structural)]
pub enum FinalizeResult {
    /// The event was recorded.
    Committed,
    /// The task was terminal already.
    AlreadyTerminal,
    /// The execution was superseded.
    Stale,
    /// The execution no longer holds its lease.
    Fenced,
    /// An operator has to look.
    RecoveryNeeded,
}

/// What came of recording a transition durably.
#[derive(Debug, Clone, Copy, PartialEq, Eq, Structural)]
pub enum LifecycleResult {
    /// It was recorded.
    Committed,
    /// It had been recorded before.
    Replay,
    /// It was superseded.
    Stale,
}

/// Identity of a durable execution, issued by the lease authority.
#[derive(Debug, Clone, PartialEq, Eq)]
pub struct QueueLeaseContext {
    /// What is leased.
    pub resource_key: String,
    /// Who holds it.
    pub runtime_owner: String,
    /// The fence of this holder.
    pub owner_fence: i64,
    /// When it runs out.
    pub expires_at: String,
}

/// A transport and what reaches it.
struct DispatcherEntry<D> {
    transport: TransportType,
    dispatcher: D,
}

/// Which dispatcher reaches which transport.
pub struct DispatcherRegistry<D> {
    entries: Vec<DispatcherEntry<D>>,
}

impl<D> DispatcherRegistry<D> {
    /// The dispatcher of each registered transport.
    pub closed spec fn table(&self) -> Map<TransportType, D> {
        Map::new(
            |transport: TransportType|
                exists|i: int|
                    0 <= i < self.entries@.len() && (#[trigger] self.entries@[i]).transport
                        == transport,
            |transport: TransportType|
                self.entries@[choose|i: int|
                    0 <= i < self.entries@.len() && (#[trigger] self.entries@[i]).transport
                        == transport].dispatcher,
        )
    }

    /// No transport is registered twice.
    pub closed spec fn wf(&self) -> bool {
        forall|i: int, j: int|
            0 <= i < j < self.entries@.len() ==> (#[trigger] self.entries@[i]).transport != (
            #[trigger] self.entries@[j]).transport
    }

    /// No dispatcher.
    pub fn new() -> (registry: DispatcherRegistry<D>)
        ensures
            registry.wf(),
            registry.table() == Map::<TransportType, D>::empty(),
    {
        let registry = DispatcherRegistry { entries: Vec::new() };
        assert(registry.table() =~= Map::<TransportType, D>::empty());
        registry
    }

    /// Registers a dispatcher, in place of an earlier one for the same transport.
    pub fn with(self, transport: TransportType, dispatcher: D) -> (registry: DispatcherRegistry<D>)
        requires
            self.wf(),
        ensures
            registry.wf(),
            registry.table() == self.table().insert(transport, dispatcher),
    {
        let ghost before = self;
        let mut entries = self.entries;
        let mut i: usize = 0;
        while i < entries.len() && entries[i].transport != transport
            invariant
                entries@ == before.entries@,
                i <= entries@.len(),
                forall|k: int| 0 <= k < i ==> (#[trigger] entries@[k]).transport != transport,
            decreases entries@.len() - i,
        {
            i = i + 1;
        }
        if i < entries.len() {
            entries.set(i, DispatcherEntry { transport, dispatcher });
            let registry = DispatcherRegistry { entries };
            proof {
                assert(registry.entries@[i as int].transport == transport);
                assert forall|t: TransportType| registry.table().dom().contains(t)
                    == before.table().insert(transport, dispatcher).dom().contains(t) by {
                    if before.table().dom().contains(t) {
                        let k = choose|k: int|
                            0 <= k < before.entries@.len() && (
                            #[trigger] before.entries@[k]).transport == t;
                        assert(registry.entries@[k].transport == t);
                    }
                    if registry.table().dom().contains(t) && t != transport {
                        let k = choose|k: int|
                            0 <= k < registry.entries@.len() && (
                            #[trigger] registry.entries@[k]).transport == t;
                        assert(before.entries@[k].transport == t);
                    }
                }
                assert(registry.table() =~= before.table().insert(transport, dispatcher));
            }
            return registry;
        }
        entries.push(DispatcherEntry { transport, dispatcher });
        let registry = DispatcherRegistry { entries };
        proof {
            let n = before.entries@.len() as int;
            assert(registry.entries@[n].transport == transport);
            assert forall|t: TransportType| registry.table().dom().contains(t)
                == before.table().insert(transport, dispatcher).dom().contains(t) by {
                if before.table().dom().contains(t) {
                    let k = choose|k: int|
                        0 <= k < before.entries@.len() && (#[trigger] before.entries@[k]).transport
                            == t;
                    assert(registry.entries@[k].transport == t);
                }
                if registry.table().dom().contains(t) && t != transport {
                    let k = choose|k: int|
                        0 <= k < registry.entries@.len() && (
                        #[trigger] registry.entries@[k]).transport == t;
                    assert(before.entries@[k].transport == t);
                }
            }
            assert forall|t: TransportType| #[trigger] before.table().dom().contains(t)
                implies registry.table()[t] == before.table()[t] by {
                let k = choose|k: int|
                    0 <= k < before.entries@.len() && (#[trigger] before.entries@[k]).transport
                        == t;
                assert(registry.entries@[k].transport == t);
            }
            assert(registry.table() =~= before.table().insert(transport, dispatcher));
        }
        registry
    }

    /// The dispatcher of a transport.
    pub fn get(&self, transport: TransportType) -> (dispatcher: Option<&D>)
        requires
            self.wf(),
        ensures
            dispatcher is Some <==> self.table().dom().contains(transport),
            dispatcher matches Some(found) ==> *found == self.table()[transport],
    {
        let mut i: usize = 0;
        while i < self.entries.len()
            invariant
                i <= self.entries@.len(),
                self.wf(),
                forall|k: int| 0 <= k < i ==> (#[trigger] self.entries@[k]).transport != transport,
            decreases self.entries@.len() - i,
        {
            if self.entries[i].transport == transport {
                assert(self.entries@[i as int].transport == transport);
                return Some(&self.entries[i].dispatcher);
            }
            i = i + 1;
        }
        None
    }

    /// Number of registered transports.
    pub fn len(&self) -> (len: usize)
        requires
            self.wf(),
        ensures
            len == self.table().dom().len(),
            self.table().dom().finite(),
    {
        proof {
            let all = self.entries@.map_values(|entry: DispatcherEntry<D>| entry.transport);
            assert(all.no_duplicates());
            all.unique_seq_to_set();
            assert forall|t: TransportType| all.to_set().contains(t)
                == self.table().dom().contains(t) by {
                if self.table().dom().contains(t) {
                    let k = choose|k: int|
                        0 <= k < self.entries@.len() && (#[trigger] self.entries@[k]).transport
                            == t;
                    assert(all[k] == t);
                }
                if all.contains(t) {
                    let k = choose|k: int| 0 <= k < all.len() && all[k] == t;
                    assert(self.entries@[k].transport == t);
                }
            }
            assert(all.to_set() =~= self.table().dom());
        }
        self.entries.len()
    }

    /// Whether no dispatcher is registered.
    pub fn is_empty(&self) -> (empty: bool)
        requires
            self.wf(),
        ensures
            empty == (self.table().dom().len() == 0),
    {
        self.len() == 0
    }
}

/// A task that waits for its turn.
#[derive(Debug, Clone, PartialEq, Eq)]
pub struct QueuedTask {
    /// Its place in the order of arrival.
    pub arrival: u64,
    /// The task.
    pub task: AgentTask,
}

/// Whether `a` is taken before `b`: the more urgent, and of equals the earlier.
pub open spec fn before(a: QueuedTask, b: QueuedTask) -> bool {
    a.task.priority.rank() > b.task.priority.rank() || (a.task.priority.rank()
        == b.task.priority.rank() && a.arrival < b.arrival)
}

/// The place of the task that is taken first: no other is taken before it, and none
/// that was added earlier ties with it.
pub open spec fn is_next(waiting: Seq<QueuedTask>, i: int) -> bool {
    &&& 0 <= i < waiting.len()
    &&& forall|k: int| 0 <= k < waiting.len() ==> !before(#[trigger] waiting[k], waiting[i])
    &&& forall|k: int| 0 <= k < i ==> before(waiting[i], #[trigger] waiting[k])
}

/// The worker's local queue.
pub struct PriorityQueue {
    waiting: Vec<QueuedTask>,
}

impl PriorityQueue {
    /// The waiting tasks, in the order in which they were added.
    pub closed spec fn tasks(&self) -> Seq<QueuedTask> {
        self.waiting@
    }

    /// An empty queue.
    pub fn new() -> (queue: PriorityQueue)
        ensures
            queue.tasks() == Seq::<QueuedTask>::empty(),
    {
        PriorityQueue { waiting: Vec::new() }
    }

    /// Adds a task.
    pub fn push(&mut self, task: AgentTask, arrival: u64)
        ensures
            final(self).tasks() == old(self).tasks().push(QueuedTask { arrival, task }),
    {
        self.waiting.push(QueuedTask { arrival, task });
    }

    /// Takes the most urgent task, and of equally urgent ones the one that arrived
    /// first.
    pub fn pop(&mut self) -> (task: Option<AgentTask>)
        ensures
            task is None <==> old(self).tasks().len() == 0,
            task is None ==> final(self).tasks() == old(self).tasks(),
            task matches Some(taken) ==> exists|i: int| #[trigger]
                is_next(old(self).tasks(), i) && taken == old(self).tasks()[i].task
                    && final(self).tasks() == old(self).tasks().remove(i),
    {
        if self.waiting.len() == 0 {
            return None;
        }
        let mut best: usize = 0;
        let mut i: usize = 1;
        while i < self.waiting.len()
            invariant
                self.waiting@ == old(self).waiting@,
                0 <= best < i <= self.waiting@.len(),
                is_next(self.waiting@.take(i as int), best as int),
            decreases self.waiting@.len() - i,
        {
            let ghost seen = self.waiting@.take(i as int);
            let ghost more = self.waiting@.take(i + 1);
            let rank: u8 = self.waiting[i].task.priority.value();
            let best_rank: u8 = self.waiting[best].task.priority.value();
            let sooner = rank > best_rank || (rank == best_rank && self.waiting[i].arrival
                < self.waiting[best].arrival);
            proof {
                assert(forall|k: int| 0 <= k < i ==> more[k] == seen[k]);
                assert(more[i as int] == self.waiting@[i as int]);
                if sooner {
                    assert forall|k: int| 0 <= k < i implies before(
                        more[i as int],
                        #[trigger] more[k],
                    ) by {
                        assert(!before(seen[k], seen[best as int]));
                    }
                    assert(is_next(more, i as int));
                } else {
                    assert(is_next(more, best as int));
                }
            }
            if sooner {
                best = i;
            }
            i = i + 1;
        }
        assert(self.waiting@.take(i as int) =~= self.waiting@);
        let taken = self.waiting.remove(best);
        assert(is_next(old(self).tasks(), best as int));
        Some(taken.task)
    }

    /// Number of waiting tasks.
    pub fn len(&self) -> (len: usize)
        ensures
            len == self.tasks().len(),
    {
        self.waiting.len()
    }
}

impl Default for PriorityQueue {
    fn default() -> (queue: PriorityQueue)
        ensures
            queue.tasks() == Seq::<QueuedTask>::empty(),
    {
        PriorityQueue::new()
    }
}

/// Which task is taken next is never in doubt.
pub proof fn law_the_next_task_is_unique(waiting: Seq<QueuedTask>, i: int, j: int)
    requires
        is_next(waiting, i),
        is_next(waiting, j),
    ensures
        i == j,
{
    assert(!before(waiting[i], waiting[j]));
    assert(!before(waiting[j], waiting[i]));
}

/// Tasks leave by urgency, and first come first served within one urgency: what is
/// taken next never precedes what was taken last.
pub proof fn law_tasks_leave_in_order(waiting: Seq<QueuedTask>, i: int, j: int)
    requires
        is_next(waiting, i),
        is_next(waiting.remove(i), j),
    ensures
        !before(waiting.remove(i)[j], waiting[i]),
{
    let left = waiting.remove(i);
    if j < i {
        assert(left[j] == waiting[j]);
    } else {
        assert(left[j] == waiting[j + 1]);
    }
}

/// A fail-stop reason of the worker: a transition could not be recorded.
#[derive(Debug, Clone, Copy, PartialEq, Eq, Structural)]
pub enum WorkerError {
    /// The event stream is closed.
    EventStreamClosed {
        /// The task whose transition was lost.
        task_id: TaskId,
        /// The sequence number that could not be written.
        seq: u64,
    },
    /// The event buffer is full.
    EventBackpressure {
        /// The task whose transition was lost.
        task_id: TaskId,
        /// The sequence number that could not be written.
        seq: u64,
    },
    /// The write failed for another reason.
    EventWrite {
        /// The task whose transition was lost.
        task_id: TaskId,
        /// The sequence number that could not be written.
        seq: u64,
        /// The reason.
        error: BusError,
    },
}

impl WorkerError {
    /// The rendered error.
    pub open spec fn rendered(self) -> Seq<char> {
        match self {
            WorkerError::EventStreamClosed { task_id, seq } => "event stream is closed; task "@
                + hyphenated(task_id.bits()) + " could not record seq "@ + decimal(seq as nat),
            WorkerError::EventBackpressure { task_id, seq } => "event buffer is full; task "@
                + hyphenated(task_id.bits()) + " could not record seq "@ + decimal(seq as nat),
            WorkerError::EventWrite { task_id, seq, error } => "event write failed for task "@
                + hyphenated(task_id.bits()) + " at seq "@ + decimal(seq as nat) + ": "@
                + error.rendered(),
        }
    }

    /// Renders the error.
    pub fn to_string(&self) -> (text: String)
        ensures
            text@ == self.rendered(),
    {
        match *self {
            WorkerError::EventStreamClosed { task_id, seq } => {
                let mut text = "event stream is closed; task ".to_owned();
                text.append(task_id.to_string().as_str());
                text.append(" could not record seq ");
                text.append(decimal_text(seq).as_str());
                text
            },
            WorkerError::EventBackpressure { task_id, seq } => {
                let mut text = "event buffer is full; task ".to_owned();
                text.append(task_id.to_string().as_str());
                text.append(" could not record seq ");
                text.append(decimal_text(seq).as_str());
                text
            },
            WorkerError::EventWrite { task_id, seq, error } => {
                let mut text = "event write failed for task ".to_owned();
                text.append(task_id.to_string().as_str());
                text.append(" at seq ");
                text.append(decimal_text(seq).as_str());
                text.append(": ");
                text.append(error.to_string().as_str());
                text
            },
        }
    }
}

/// Nesting depth that is still delivered, unless configured otherwise.
pub const DEFAULT_MAX_DEPTH: u32 = 8;

/// Hops that are still delivered, unless configured otherwise.
pub const DEFAULT_MAX_HOPS: u32 = 16;

/// The depth and the hops above which a task is not delivered.
#[derive(Debug, Clone, Copy, PartialEq, Eq, Structural)]
pub struct LoopLimits {
    /// Deepest nesting.
    pub max_depth: u32,
    /// Most hops.
    pub max_hops: u32,
}

impl LoopLimits {
    /// Whether a task is over a limit. The limit itself is still allowed.
    pub open spec fn exceeded(self, task: AgentTask) -> bool {
        task.depth > self.max_depth || task.hops > self.max_hops
    }

    /// Which limits a task is over.
    pub open spec fn hit(self, task: AgentTask) -> Seq<char> {
        if task.depth > self.max_depth && task.hops > self.max_hops {
            "depth, hops"@
        } else if task.depth > self.max_depth {
            "depth"@
        } else {
            "hops"@
        }
    }

    /// What is said of a task that is over a limit: identities, the two values and
    /// their limits, and nothing of what the task asks.
    pub open spec fn complaint(self, task: AgentTask) -> Seq<char> {
        "cycle limit exceeded (hit: "@ + self.hit(task) + "): task_id="@ + hyphenated(
            task.task_id.bits(),
        ) + " root_task_id="@ + hyphenated(task.root_task_id.bits()) + " parent_task_id="@ + (
        match task.parent_task_id {
            Some(parent) => hyphenated(parent.bits()),
            None => "none"@,
        }) + " from_agent="@ + hyphenated(task.from_agent.bits()) + " to_agent="@ + hyphenated(
            task.to_agent.bits(),
        ) + " depth="@ + decimal(task.depth as nat) + " (max "@ + decimal(self.max_depth as nat)
            + ") hops="@ + decimal(task.hops as nat) + " (max "@ + decimal(self.max_hops as nat)
            + ")"@
    }

    /// The limits of a configuration.
    pub fn from_bridge(bridge: &BridgeConfig) -> (limits: LoopLimits)
        ensures
            limits.max_depth == bridge.max_task_depth,
            limits.max_hops == bridge.max_task_hops,
    {
        LoopLimits { max_depth: bridge.max_task_depth, max_hops: bridge.max_task_hops }
    }

    /// What is said of a task that is over a limit, and nothing of one that is not.
    pub fn violation(&self, task: &AgentTask) -> (complaint: Option<String>)
        ensures
            complaint is Some <==> self.exceeded(*task),
            complaint matches Some(text) ==> text@ == self.complaint(*task),
    {
        let depth_over = task.depth > self.max_depth;
        let hops_over = task.hops > self.max_hops;
        if !depth_over && !hops_over {
            return None;
        }
        let mut text = "cycle limit exceeded (hit: ".to_owned();
        if depth_over && hops_over {
            text.append("depth, hops");
        } else if depth_over {
            text.append("depth");
        } else {
            text.append("hops");
        }
        text.append("): task_id=");
        text.append(task.task_id.to_string().as_str());
        text.append(" root_task_id=");
        text.append(task.root_task_id.to_string().as_str());
        text.append(" parent_task_id=");
        match task.parent_task_id {
            Some(parent) => text.append(parent.to_string().as_str()),
            None => text.append("none"),
        }
        text.append(" from_agent=");
        text.append(task.from_agent.to_string().as_str());
        text.append(" to_agent=");
        text.append(task.to_agent.to_string().as_str());
        text.append(" depth=");
        text.append(decimal_text(task.depth as u64).as_str());
        text.append(" (max ");
        text.append(decimal_text(self.max_depth as u64).as_str());
        text.append(") hops=");
        text.append(decimal_text(task.hops as u64).as_str());
        text.append(" (max ");
        text.append(decimal_text(self.max_hops as u64).as_str());
        text.append(")");
        Some(text)
    }
}

impl Default for LoopLimits {
    fn default() -> (limits: LoopLimits)
        ensures
            limits.max_depth == 8,
            limits.max_hops == 16,
    {
        LoopLimits { max_depth: DEFAULT_MAX_DEPTH, max_hops: DEFAULT_MAX_HOPS }
    }
}

/// The wait between two attempts. It never jitters.
#[derive(Debug, Clone, Copy, PartialEq, Eq, Structural)]
pub enum Backoff {
    /// No wait.
    Immediate,
    /// The same wait every time.
    Fixed(Duration),
    /// A wait that doubles with every attempt.
    Exponential {
        /// The wait after the first attempt.
        base: Duration,
        /// The longest wait.
        max: Duration,
    },
}

/// How often the base is doubled after attempt `k`.
pub open spec fn doublings(failed_attempt: u32) -> nat {
    if failed_attempt == 0 {
        0
    } else {
        (failed_attempt - 1) as nat
    }
}

impl Backoff {
    /// The wait after `failed_attempt`, in nanoseconds: the base, doubled with every
    /// attempt after the first, up to the longest wait.
    pub open spec fn delay(self, failed_attempt: u32) -> int {
        match self {
            Backoff::Immediate => 0,
            Backoff::Fixed(delay) => delay.total(),
            Backoff::Exponential { base, max } => {
                let doubled = base.total() * pow2(doublings(failed_attempt));
                if doubled <= max.total() {
                    doubled
                } else {
                    max.total()
                }
            },
        }
    }

    /// The wait after `failed_attempt`. However large the attempt count, it neither
    /// overflows nor wraps into a short wait.
    pub fn delay_for(&self, failed_attempt: u32) -> (delay: Duration)
        ensures
            delay.total() == self.delay(failed_attempt),
    {
        match *self {
            Backoff::Immediate => Duration::zero(),
            Backoff::Fixed(delay) => delay,
            Backoff::Exponential { base, max } => {
                let times: u32 = if failed_attempt == 0 {
                    0
                } else {
                    failed_attempt - 1
                };
                base.doubled(times, max)
            },
        }
    }
}

impl Default for Backoff {
    fn default() -> (backoff: Backoff)
        ensures
            backoff == Backoff::Immediate,
    {
        Backoff::Immediate
    }
}

/// The wait never shrinks from one attempt to the next, and never exceeds its
/// ceiling.
pub proof fn law_backoff_grows_to_its_ceiling(backoff: Backoff, k: u32)
    requires
        k < u32::MAX,
    ensures
        backoff.delay(k) <= backoff.delay((k + 1) as u32),
        backoff matches Backoff::Exponential { max, .. } ==> backoff.delay(k) <= max.total(),
{
    if let Backoff::Exponential { base, max } = backoff {
        let a = doublings(k);
        let b = doublings((k + 1) as u32);
        if a < b {
            vstd::arithmetic::power2::lemma_pow2_strictly_increases(a, b);
        }
        let x = pow2(a) as int;
        let y = pow2(b) as int;
        let z = base.total();
        lemma_span_is_not_negative(base);
        assert(z * x <= z * y) by (nonlinear_arith)
            requires
                0 <= z,
                x <= y,
        ;
    }
}

/// How many attempts a task gets, and the wait between them.
#[derive(Debug, Clone, Copy, PartialEq, Eq, Structural)]
pub struct RetryPolicy {
    /// All attempts together. Zero counts as one, so that a task always runs once.
    pub max_attempts: u32,
    /// The wait before a further attempt.
    pub backoff: Backoff,
}

impl RetryPolicy {
    /// Whether another attempt may follow `attempt`.
    pub open spec fn allows_after(self, attempt: int) -> bool {
        attempt < self.max_attempts && 1 < self.max_attempts || attempt < 1
    }

    /// Whether another attempt may follow `attempt`.
    pub fn allows_another_attempt_after(&self, attempt: u32) -> (allowed: bool)
        ensures
            allowed == self.allows_after(attempt as int),
    {
        let ceiling: u32 = if self.max_attempts < 1 {
            1
        } else {
            self.max_attempts
        };
        attempt < ceiling
    }
}

impl Default for RetryPolicy {
    fn default() -> (policy: RetryPolicy)
        ensures
            policy.max_attempts == 1,
            policy.backoff == Backoff::Immediate,
    {
        RetryPolicy { max_attempts: 1, backoff: Backoff::Immediate }
    }
}

/// The worker's opt-in controls.
#[derive(Debug, Clone, Copy, PartialEq, Eq, Structural)]
pub struct WorkerConfig {
    /// Depth and hops.
    pub limits: LoopLimits,
    /// Attempts and waits.
    pub retry: RetryPolicy,
    /// Whether the worker heeds a cancellation source.
    pub cancellation: bool,
    /// Whether a timer can preempt a stage and wait out a backoff.
    pub timer: bool,
}

impl Default for WorkerConfig {
    fn default() -> (config: WorkerConfig)
        ensures
            config.limits.max_depth == 8,
            config.limits.max_hops == 16,
            config.retry.max_attempts == 1,
            config.retry.backoff == Backoff::Immediate,
            !config.cancellation,
            !config.timer,
    {
        WorkerConfig {
            limits: LoopLimits::default(),
            retry: RetryPolicy::default(),
            cancellation: false,
            timer: false,
        }
    }
}

/// `tasks` as they wait when they arrived one after the other from `first` on.
pub open spec fn arrivals(tasks: Seq<AgentTask>, first: int) -> Seq<QueuedTask> {
    Seq::new(
        tasks.len(),
        |i: int| QueuedTask { arrival: (first + i) as u64, task: tasks[i] },
    )
}

/// Takes in what one look at the task channel gave. Says nothing while the next look
/// may give more, and otherwise whether the channel is closed and drained.
pub fn admit_one(received: Received, queue: &mut PriorityQueue, arrival: &mut u64) -> (ended:
    Option<bool>)
    requires
        *old(arrival) < u64::MAX,
    ensures
        match received {
            Received::Task(task) => {
                &&& ended is None
                &&& final(queue).tasks() == old(queue).tasks().push(
                    QueuedTask { arrival: *old(arrival), task },
                )
                &&& *final(arrival) == *old(arrival) + 1
            },
            Received::Empty => {
                &&& ended == Some(false)
                &&& final(queue).tasks() == old(queue).tasks()
                &&& *final(arrival) == *old(arrival)
            },
            Received::Disconnected => {
                &&& ended == Some(true)
                &&& final(queue).tasks() == old(queue).tasks()
                &&& *final(arrival) == *old(arrival)
            },
        },
{
    match received {
        Received::Task(task) => {
            queue.push(task, *arrival);
            *arrival = *arrival + 1;
            None
        },
        Received::Empty => Some(false),
        Received::Disconnected => Some(true),
    }
}

/// The tasks among what was seen, in order.
pub open spec fn found(seen: Seq<Received>) -> Seq<AgentTask>
    decreases seen.len(),
{
    if seen.len() == 0 {
        Seq::empty()
    } else {
        match seen.last() {
            Received::Task(task) => found(seen.drop_last()).push(task),
            _ => found(seen.drop_last()),
        }
    }
}

/// Whether `seen` is what one reads who has room for `room` tasks: as many tasks as
/// there is room for, or fewer, and then that there is none.
pub open spec fn read_for(seen: Seq<Received>, room: int) -> bool {
    &&& seen.len() <= if room > 0 {
        room
    } else {
        0
    }
    &&& forall|i: int| 0 <= i < seen.len() - 1 ==> (#[trigger] seen[i]) is Task
    &&& seen.len() < room ==> seen.len() > 0 && !(seen.last() is Task)
}

/// Whether the channel was seen to be closed and drained.
pub open spec fn seen_closed(seen: Seq<Received>) -> bool {
    seen.len() > 0 && seen.last() is Disconnected
}

/// There are at most as many tasks as looks, and fewer where the last one gave none.
proof fn lemma_found_len(seen: Seq<Received>)
    ensures
        found(seen).len() <= seen.len(),
        seen.len() > 0 && !(seen.last() is Task) ==> found(seen).len() < seen.len(),
    decreases seen.len(),
{
    if seen.len() > 0 {
        lemma_found_len(seen.drop_last());
    }
}

/// Moves waiting tasks into the queue, and says whether the channel is closed and
/// drained. At most as many are moved as the channel's capacity exceeds the queue by,
/// so the queue never grows past that capacity however fast others refill it.
pub fn admit_ready(
    tasks: &mut tokio::sync::mpsc::Receiver<AgentTask>,
    queue: &mut PriorityQueue,
    arrival: &mut u64,
) -> (closed: bool)
    requires
        *old(arrival) < 0x8000_0000_0000_0000,
    ensures
        task_capacity(*final(tasks)) == task_capacity(*old(tasks)),
        looks(*old(tasks)).is_prefix_of(looks(*final(tasks))),
        ({
            let seen = looks(*final(tasks)).skip(looks(*old(tasks)).len() as int);
            &&& read_for(seen, task_capacity(*old(tasks)) - old(queue).tasks().len())
            &&& closed == seen_closed(seen)
            &&& final(queue).tasks() == old(queue).tasks() + arrivals(
                found(seen),
                *old(arrival) as int,
            )
            &&& *final(arrival) == *old(arrival) + found(seen).len()
        }),
        final(queue).tasks().len() <= task_capacity(*old(tasks)) || final(queue).tasks()
            == old(queue).tasks(),
{
    let capacity: usize = max_capacity(tasks);
    let held: usize = queue.len();
    let budget: usize = if capacity > held {
        capacity - held
    } else {
        0
    };
    let ghost first = *arrival as int;
    let ghost earlier = looks(*tasks);
    let ghost mut seen: Seq<Received> = Seq::empty();
    assert(queue.tasks() =~= old(queue).tasks() + arrivals(found(seen), first));
    assert(looks(*tasks) =~= earlier + seen);
    let mut looked: usize = 0;
    while looked < budget
        invariant
            looked <= budget <= MAX_CHANNEL_CAPACITY,
            looked == seen.len(),
            budget > 0 ==> budget == task_capacity(*old(tasks)) - old(queue).tasks().len(),
            task_capacity(*tasks) == task_capacity(*old(tasks)),
            looks(*tasks) == earlier + seen,
            earlier == looks(*old(tasks)),
            forall|i: int| 0 <= i < seen.len() ==> (#[trigger] seen[i]) is Task,
            first == *old(arrival),
            first < 0x8000_0000_0000_0000,
            found(seen).len() <= seen.len(),
            *arrival == first + found(seen).len(),
            queue.tasks() == old(queue).tasks() + arrivals(found(seen), first),
        decreases budget - looked,
    {
        let received = try_recv(tasks);
        let ghost more = seen.push(received);
        proof {
            assert(more.drop_last() =~= seen);
            assert(looks(*tasks) =~= earlier + more);
            assert(looks(*tasks).skip(earlier.len() as int) =~= more);
            lemma_found_len(more);
        }
        match admit_one(received, queue, arrival) {
            None => {
                proof {
                    assert(queue.tasks() =~= old(queue).tasks() + arrivals(found(more), first));
                    seen = more;
                }
            },
            Some(closed) => {
                return closed;
            },
        }
        looked = looked + 1;
    }
    assert(looks(*tasks).skip(earlier.len() as int) =~= seen);
    false
}

/// What the worker does next.
#[derive(Debug, Clone, PartialEq, Eq)]
pub enum Turn {
    /// Drives a task through its transitions.
    Process(AgentTask),
    /// Waits for a task, or for the channel to close.
    AwaitTask,
    /// Stops: the channel is closed and every task was processed.
    Finish,
}

/// Takes tasks off the channel and drives them one at a time.
pub struct Worker<D> {
    registry: Arc<EndpointRegistry>,
    dispatchers: DispatcherRegistry<D>,
    config: WorkerConfig,
    lifecycle: bool,
    queue: PriorityQueue,
    arrival: u64,
    closed: bool,
}

/// Assembles a [`Worker`] whose controls differ from the defaults.
pub struct WorkerBuilder<D> {
    worker: Worker<D>,
}

impl<D> Worker<D> {
    /// The endpoints that targets are judged against.
    pub closed spec fn endpoints(&self) -> EndpointRegistry {
        *self.registry
    }

    /// The dispatcher of each transport.
    pub closed spec fn dispatch_table(&self) -> DispatcherRegistry<D> {
        self.dispatchers
    }

    /// The controls.
    pub closed spec fn controls(&self) -> WorkerConfig {
        self.config
    }

    /// Whether transitions are recorded durably.
    pub closed spec fn durable(&self) -> bool {
        self.lifecycle
    }

    /// The tasks that wait for their turn.
    pub closed spec fn backlog(&self) -> Seq<QueuedTask> {
        self.queue.tasks()
    }

    /// How many tasks were taken in.
    pub closed spec fn taken_in(&self) -> int {
        self.arrival as int
    }

    /// Whether the channel is known to be closed and drained.
    pub closed spec fn drained(&self) -> bool {
        self.closed
    }

    /// A worker with the default controls.
    pub fn new(registry: Arc<EndpointRegistry>, dispatchers: DispatcherRegistry<D>) -> (worker:
        Worker<D>)
        ensures
            worker.endpoints() == *registry,
            worker.dispatch_table() == dispatchers,
            worker.controls().limits.max_depth == 8,
            worker.controls().limits.max_hops == 16,
            worker.controls().retry.max_attempts == 1,
            worker.controls().retry.backoff == Backoff::Immediate,
            !worker.controls().cancellation,
            !worker.controls().timer,
            !worker.durable(),
            worker.backlog() == Seq::<QueuedTask>::empty(),
            worker.taken_in() == 0,
            !worker.drained(),
    {
        Worker {
            registry,
            dispatchers,
            config: WorkerConfig::default(),
            lifecycle: false,
            queue: PriorityQueue::new(),
            arrival: 0,
            closed: false,
        }
    }

    /// Starts from the default controls.
    pub fn builder(registry: Arc<EndpointRegistry>, dispatchers: DispatcherRegistry<D>) -> (builder:
        WorkerBuilder<D>)
        ensures
            builder.assembled().endpoints() == *registry,
            builder.assembled().dispatch_table() == dispatchers,
            builder.assembled().controls().retry.max_attempts == 1,
            builder.assembled().controls().retry.backoff == Backoff::Immediate,
            builder.assembled().controls().limits.max_depth == 8,
            builder.assembled().controls().limits.max_hops == 16,
            !builder.assembled().controls().cancellation,
            !builder.assembled().controls().timer,
            !builder.assembled().durable(),
            builder.assembled().backlog() == Seq::<QueuedTask>::empty(),
            builder.assembled().taken_in() == 0,
            !builder.assembled().drained(),
    {
        WorkerBuilder { worker: Worker::new(registry, dispatchers) }
    }

    /// A worker with one dispatcher.
    pub fn with_dispatcher(
        registry: Arc<EndpointRegistry>,
        transport: TransportType,
        dispatcher: D,
    ) -> (worker: Worker<D>)
        ensures
            worker.endpoints() == *registry,
            worker.dispatch_table().wf(),
            worker.dispatch_table().table() == Map::<TransportType, D>::empty().insert(
                transport,
                dispatcher,
            ),
            worker.controls().limits.max_depth == 8,
            worker.controls().limits.max_hops == 16,
            worker.controls().retry.max_attempts == 1,
            worker.controls().retry.backoff == Backoff::Immediate,
            !worker.controls().cancellation,
            !worker.controls().timer,
            !worker.durable(),
            worker.backlog() == Seq::<QueuedTask>::empty(),
            worker.taken_in() == 0,
            !worker.drained(),
    {
        Worker::new(registry, DispatcherRegistry::new().with(transport, dispatcher))
    }

    /// The registry.
    pub fn registry(&self) -> (registry: &EndpointRegistry)
        ensures
            *registry == self.endpoints(),
    {
        &self.registry
    }

    /// The dispatchers.
    pub fn dispatchers(&self) -> (dispatchers: &DispatcherRegistry<D>)
        ensures
            *dispatchers == self.dispatch_table(),
    {
        &self.dispatchers
    }

    /// The controls.
    pub fn config(&self) -> (config: WorkerConfig)
        ensures
            config == self.controls(),
    {
        self.config
    }

    /// How many tasks were taken from the channel so far.
    pub fn tasks_taken(&self) -> (count: u64)
        ensures
            count == self.taken_in(),
    {
        self.arrival
    }

    /// Whether transitions are recorded durably.
    pub fn has_lifecycle(&self) -> (durable: bool)
        ensures
            durable == self.durable(),
    {
        self.lifecycle
    }

    /// Takes in what is available, unless the channel is closed and drained, and says
    /// what to do next: process the task whose turn it is; stop once nothing is left
    /// and nothing more will come; else wait. A closed channel still has its backlog
    /// processed, so no accepted task is dropped.
    pub fn next_turn(&mut self, tasks: &mut tokio::sync::mpsc::Receiver<AgentTask>) -> (turn: Turn)
        requires
            old(self).taken_in() < 0x8000_0000_0000_0000,
        ensures
            final(self).endpoints() == old(self).endpoints(),
            final(self).dispatch_table() == old(self).dispatch_table(),
            final(self).controls() == old(self).controls(),
            final(self).durable() == old(self).durable(),
            old(self).drained() ==> final(self).drained() && final(self).taken_in() == old(
                self,
            ).taken_in(),
            looks(*old(tasks)).is_prefix_of(looks(*final(tasks))),
            ({
                let seen = looks(*final(tasks)).skip(looks(*old(tasks)).len() as int);
                let offered = old(self).backlog() + arrivals(found(seen), old(self).taken_in());
                &&& if old(self).drained() {
                    seen.len() == 0
                } else {
                    &&& read_for(seen, task_capacity(*old(tasks)) - old(self).backlog().len())
                    &&& final(self).drained() == seen_closed(seen)
                }
                &&& final(self).taken_in() == old(self).taken_in() + found(seen).len()
                &&& match turn {
                    Turn::Process(task) => exists|i: int| #[trigger]
                        is_next(offered, i) && task == offered[i].task && final(self).backlog()
                            == offered.remove(i),
                    Turn::AwaitTask => offered.len() == 0 && final(self).backlog() == offered
                        && !final(self).drained(),
                    Turn::Finish => offered.len() == 0 && final(self).backlog() == offered
                        && final(self).drained(),
                }
            }),
            old(self).backlog().len() <= task_capacity(*old(tasks)) ==> final(self).backlog().len()
                <= task_capacity(*old(tasks)),
            task_capacity(*final(tasks)) == task_capacity(*old(tasks)),
    {
        let ghost held = self.backlog();
        let ghost first = self.taken_in();
        if !self.closed {
            self.closed = admit_ready(tasks, &mut self.queue, &mut self.arrival);
        } else {
            assert(looks(*tasks).skip(looks(*tasks).len() as int) =~= Seq::empty());
            assert(held =~= held + arrivals(found(Seq::empty()), first));
        }
        let ghost offered = self.backlog();
        match self.queue.pop() {
            Some(task) => {
                proof {
                    let i = choose|i: int| #[trigger]
                        is_next(offered, i) && task == offered[i].task && self.backlog()
                            == offered.remove(i);
                    assert(is_next(offered, i));
                }
                Turn::Process(task)
            },
            None => {
                if self.closed {
                    Turn::Finish
                } else {
                    Turn::AwaitTask
                }
            },
        }
    }

    /// Takes in the task that was waited for. Says whether the worker goes on: it
    /// stops where the channel closed instead.
    pub fn received(&mut self, task: Option<AgentTask>) -> (goes_on: bool)
        requires
            old(self).taken_in() < u64::MAX,
        ensures
            goes_on == (task is Some),
            final(self).endpoints() == old(self).endpoints(),
            final(self).dispatch_table() == old(self).dispatch_table(),
            final(self).controls() == old(self).controls(),
            final(self).durable() == old(self).durable(),
            final(self).drained() == old(self).drained(),
            match task {
                Some(found) => {
                    &&& final(self).backlog() == old(self).backlog().push(
                        QueuedTask { arrival: old(self).taken_in() as u64, task: found },
                    )
                    &&& final(self).taken_in() == old(self).taken_in() + 1
                },
                None => {
                    &&& final(self).backlog() == old(self).backlog()
                    &&& final(self).taken_in() == old(self).taken_in()
                },
            },
    {
        match task {
            Some(found) => {
                self.queue.push(found, self.arrival);
                self.arrival = self.arrival + 1;
                true
            },
            None => false,
        }
    }
}

impl<D> WorkerBuilder<D> {
    /// The worker as assembled so far.
    pub closed spec fn assembled(&self) -> Worker<D> {
        self.worker
    }

    /// Replaces the controls.
    pub fn config(self, config: WorkerConfig) -> (builder: WorkerBuilder<D>)
        ensures
            builder.assembled().controls() == config,
            builder.assembled().endpoints() == self.assembled().endpoints(),
            builder.assembled().dispatch_table() == self.assembled().dispatch_table(),
            builder.assembled().durable() == self.assembled().durable(),
            builder.assembled().backlog() == self.assembled().backlog(),
            builder.assembled().taken_in() == self.assembled().taken_in(),
            builder.assembled().drained() == self.assembled().drained(),
    {
        let mut worker = self.worker;
        worker.config = config;
        WorkerBuilder { worker }
    }

    /// Has every transition recorded durably.
    pub fn lifecycle(self) -> (builder: WorkerBuilder<D>)
        ensures
            builder.assembled().durable(),
            builder.assembled().controls() == self.assembled().controls(),
            builder.assembled().endpoints() == self.assembled().endpoints(),
            builder.assembled().dispatch_table() == self.assembled().dispatch_table(),
            builder.assembled().backlog() == self.assembled().backlog(),
            builder.assembled().taken_in() == self.assembled().taken_in(),
            builder.assembled().drained() == self.assembled().drained(),
    {
        let mut worker = self.worker;
        worker.lifecycle = true;
        WorkerBuilder { worker }
    }

    /// Registers one more dispatcher.
    pub fn with_dispatcher(self, transport: TransportType, dispatcher: D) -> (builder:
        WorkerBuilder<D>)
        requires
            self.assembled().dispatch_table().wf(),
        ensures
            builder.assembled().dispatch_table().wf(),
            builder.assembled().dispatch_table().table()
                == self.assembled().dispatch_table().table().insert(transport, dispatcher),
            builder.assembled().controls() == self.assembled().controls(),
            builder.assembled().endpoints() == self.assembled().endpoints(),
            builder.assembled().durable() == self.assembled().durable(),
            builder.assembled().backlog() == self.assembled().backlog(),
            builder.assembled().taken_in() == self.assembled().taken_in(),
            builder.assembled().drained() == self.assembled().drained(),
    {
        let worker = self.worker;
        let dispatchers = worker.dispatchers.with(transport, dispatcher);
        WorkerBuilder {
            worker: Worker {
                registry: worker.registry,
                dispatchers,
                config: worker.config,
                lifecycle: worker.lifecycle,
                queue: worker.queue,
                arrival: worker.arrival,
                closed: worker.closed,
            },
        }
    }

    /// The worker.
    pub fn build(self) -> (worker: Worker<D>)
        ensures
            worker == self.assembled(),
    {
        self.worker
    }
}

/// The next task has the highest priority of all that wait, and came first among those of
/// that priority.
pub proof fn law_the_most_urgent_task_is_next(waiting: Seq<QueuedTask>, i: int, k: int)
    requires
        is_next(waiting, i),
        0 <= k < waiting.len(),
    ensures
        waiting[k].task.priority.rank() <= waiting[i].task.priority.rank(),
        waiting[k].task.priority.rank() == waiting[i].task.priority.rank() ==> waiting[i].arrival
            <= waiting[k].arrival,
{
    assert(!before(waiting[k], waiting[i]));
}

/// Where tasks wait, one of them is next.
pub proof fn law_some_task_is_next(waiting: Seq<QueuedTask>) -> (i: int)
    requires
        waiting.len() > 0,
        forall|a: int, b: int|
            0 <= a < b < waiting.len() ==> (#[trigger] waiting[a]).arrival != (
            #[trigger] waiting[b]).arrival,
    ensures
        is_next(waiting, i),
    decreases waiting.len(),
{
    if waiting.len() == 1 {
        0
    } else {
        let rest = waiting.drop_last();
        let last = waiting.len() - 1;
        assert forall|a: int, b: int| 0 <= a < b < rest.len() implies (#[trigger] rest[a]).arrival
            != (#[trigger] rest[b]).arrival by {
            assert(waiting[a].arrival != waiting[b].arrival);
        }
        let i = law_some_task_is_next(rest);
        assert(waiting[i].arrival != waiting[last].arrival);
        if before(waiting[last], waiting[i]) {
            assert forall|k: int| 0 <= k < waiting.len() implies !before(
                #[trigger] waiting[k],
                waiting[last],
            ) by {
                if k < last {
                    assert(!before(rest[k], rest[i]));
                }
            }
            assert forall|k: int| 0 <= k < last implies before(
                waiting[last],
                #[trigger] waiting[k],
            ) by {
                assert(!before(rest[k], rest[i]));
            }
            last
        } else {
            assert forall|k: int| 0 <= k < waiting.len() implies !before(
                #[trigger] waiting[k],
                waiting[i],
            ) by {
                if k < last {
                    assert(!before(rest[k], rest[i]));
                }
            }
            assert forall|k: int| 0 <= k < i implies before(waiting[i], #[trigger] waiting[k]) by {
                assert(before(rest[i], rest[k]));
            }
            i
        }
    }
}

/// How long a failed attempt is waited for: not at all; always the same; or twice as long
/// as after the attempt before, up to the ceiling, and for the base after the first.
pub proof fn law_backoff_waits_as_it_is_set(backoff: Backoff, k: u32)
    requires
        1 <= k < u32::MAX,
    ensures
        match backoff {
            Backoff::Immediate => backoff.delay(k) == 0,
            Backoff::Fixed(delay) => backoff.delay(k) == delay.total(),
            Backoff::Exponential { base, max } => {
                &&& backoff.delay(1) == (if base.total() <= max.total() {
                    base.total()
                } else {
                    max.total()
                })
                &&& backoff.delay((k + 1) as u32) == (if 2 * backoff.delay(k) <= max.total() {
                    2 * backoff.delay(k)
                } else {
                    max.total()
                })
            },
        },
{
    if let Backoff::Exponential { base, max } = backoff {
        vstd::arithmetic::power2::lemma2_to64();
        vstd::arithmetic::power2::lemma_pow2_unfold(k as nat);
        let before = pow2((k - 1) as nat);
        assert(pow2(k as nat) == 2 * before);
        assert(base.total() * (2 * before) == 2 * (base.total() * before)) by (nonlinear_arith);
        assert(base.total() * 1 == base.total());
        crate::time::lemma_span_is_not_negative(base);
        crate::time::lemma_span_is_not_negative(max);
        vstd::arithmetic::power2::lemma_pow2_pos((k - 1) as nat);
        assert(base.total() * before >= 0) by (nonlinear_arith)
            requires
                base.total() >= 0,
                before > 0,
        ;
    }
}

/// A task may be tried as often as its policy says, and at least once; only a refusal or a
/// failure after acceptance is tried again; and a task is stopped where it is nested deeper
/// or was handed on more often than allowed, which the complaint tells apart.
pub proof fn law_limits_are_kept(
    policy: RetryPolicy,
    attempt: nat,
    error: DispatchError,
    limits: LoopLimits,
    task: AgentTask,
)
    ensures
        policy.allows_after(attempt as int) <==> (attempt == 0 || attempt < policy.max_attempts),
        error.transient() <==> !(error is AcceptanceUnknown || error is RecoveryNeeded || error
            is UnsupportedPrepared),
        limits.exceeded(task) <==> !(task.depth <= limits.max_depth && task.hops
            <= limits.max_hops),
        task.depth > limits.max_depth && task.hops <= limits.max_hops ==> limits.hit(task)
            == "depth"@,
        task.depth <= limits.max_depth && task.hops > limits.max_hops ==> limits.hit(task)
            == "hops"@,
        task.depth > limits.max_depth && task.hops > limits.max_hops ==> limits.hit(task)
            == "depth, hops"@,
{
}

/// What was seen at the channel is taken in, in order and numbered from the next arrival
/// on.
pub proof fn law_tasks_are_taken_in_as_they_come(
    seen: Seq<Received>,
    next: Received,
    tasks: Seq<AgentTask>,
    first: int,
    i: int,
)
    requires
        0 <= first,
        first + tasks.len() <= u64::MAX,
        0 <= i < tasks.len(),
    ensures
        found(Seq::empty()) == Seq::<AgentTask>::empty(),
        found(seen.push(next)) == (match next {
            Received::Task(task) => found(seen).push(task),
            _ => found(seen),
        }),
        seen_closed(seen.push(next)) <==> next is Disconnected,
        arrivals(tasks, first).len() == tasks.len(),
        arrivals(tasks, first)[i].task == tasks[i],
        arrivals(tasks, first)[i].arrival == first + i,
{
    assert(seen.push(next).drop_last() =~= seen);
}

/// A worker that has room for more looks until it has none, or until nothing is there; it
/// never looks where it has no room.
pub proof fn law_a_worker_looks_while_it_has_room(seen: Seq<Received>, room: int)
    requires
        read_for(seen, room),
    ensures
        room <= 0 ==> seen.len() == 0,
        room > 0 ==> 0 < seen.len() <= room,
        found(seen).len() < room ==> seen.len() > 0 && !(seen.last() is Task),
        found(seen).len() <= seen.len(),
        forall|i: int| 0 <= i < seen.len() - 1 ==> (#[trigger] seen[i]) is Task,
{
    lemma_found_of_tasks(seen);
}

proof fn lemma_found_of_tasks(seen: Seq<Received>)
    ensures
        found(seen).len() <= seen.len(),
        (forall|i: int| 0 <= i < seen.len() ==> (#[trigger] seen[i]) is Task) ==> found(seen).len()
            == seen.len(),
    decreases seen.len(),
{
    if seen.len() > 0 {
        let rest = seen.drop_last();
        lemma_found_of_tasks(rest);
        assert forall|i: int| 0 <= i < rest.len() implies (#[trigger] rest[i]) == seen[i] by {}
        if forall|i: int| 0 <= i < seen.len() ==> (#[trigger] seen[i]) is Task {
            assert(seen[seen.len() - 1] is Task);
            assert forall|i: int| 0 <= i < rest.len() implies (#[trigger] rest[i]) is Task by {
                assert(seen[i] is Task);
            }
        }
    }
}

} // verus!
