//! Whether the bridge is live and ready, and what it tells about itself.

use vstd::prelude::*;
use vstd::string::*;


verus! {

/// Largest request that is read, in bytes.
pub const MAX_REQUEST_BYTES: usize = 4096;

/// Most connections at once.
pub const MAX_CONNECTIONS: usize = 32;

/// Where the owner of the bridge's parts is.
#[derive(Debug, Clone, Copy, PartialEq, Eq, Structural)]
pub enum OwnerState {
    Starting,
    Running,
    Stopping,
    Stopped,
    Failed,
}

/// Why the Matrix adapter is not available.
#[derive(Debug, Clone, Copy, PartialEq, Eq, Structural)]
pub enum MatrixFailure {
    Authentication,
    UserMismatch,
    DeviceMissing,
    DeviceMismatch,
    UnsafeStorePath,
    UnsafeStoreAncestor,
    StoreCorrupt,
    StoreBindingMismatch,
    CryptoInitialization,
    DeviceKeyUpload,
    RequiredTaskExited,
    Timeout,
}

impl MatrixFailure {
    /// The failure as it is logged.
    pub open spec fn logged(self) -> Seq<char> {
        match self {
            MatrixFailure::Authentication => "matrix-auth-failed"@,
            MatrixFailure::UserMismatch => "matrix-user-mismatch"@,
            MatrixFailure::DeviceMissing => "matrix-device-missing"@,
            MatrixFailure::DeviceMismatch => "matrix-device-mismatch"@,
            MatrixFailure::UnsafeStorePath => "matrix-unsafe-store-path"@,
            MatrixFailure::UnsafeStoreAncestor => "matrix-unsafe-store-ancestor"@,
            MatrixFailure::StoreCorrupt => "matrix-store-corrupt"@,
            MatrixFailure::StoreBindingMismatch => "matrix-store-binding-mismatch"@,
            MatrixFailure::CryptoInitialization => "matrix-crypto-initialization-failed"@,
            MatrixFailure::DeviceKeyUpload => "matrix-device-key-upload-failed"@,
            MatrixFailure::RequiredTaskExited => "matrix-required-task-exited"@,
            MatrixFailure::Timeout => "matrix-startup-timeout"@,
        }
    }

    /// The failure as it is logged.
    pub fn as_log_str(self) -> (text: &'static str)
        ensures
            text@ == self.logged(),
    {
        match self {
            MatrixFailure::Authentication => "matrix-auth-failed",
            MatrixFailure::UserMismatch => "matrix-user-mismatch",
            MatrixFailure::DeviceMissing => "matrix-device-missing",
            MatrixFailure::DeviceMismatch => "matrix-device-mismatch",
            MatrixFailure::UnsafeStorePath => "matrix-unsafe-store-path",
            MatrixFailure::UnsafeStoreAncestor => "matrix-unsafe-store-ancestor",
            MatrixFailure::StoreCorrupt => "matrix-store-corrupt",
            MatrixFailure::StoreBindingMismatch => "matrix-store-binding-mismatch",
            MatrixFailure::CryptoInitialization => "matrix-crypto-initialization-failed",
            MatrixFailure::DeviceKeyUpload => "matrix-device-key-upload-failed",
            MatrixFailure::RequiredTaskExited => "matrix-required-task-exited",
            MatrixFailure::Timeout => "matrix-startup-timeout",
        }
    }
}

/// How far the Matrix adapter is.
#[derive(Debug, Clone, Copy, PartialEq, Eq, Structural)]
pub enum MatrixPhase {
    Disabled,
    Preflight,
    IdentityMatched,
    StoreBound,
    KeyProved,
    Registering,
    Ready,
    Failed(MatrixFailure),
    RecoveryBlocked,
    ShuttingDown,
    Stopped,
}

/// Whether the adapter may go from one phase to another.
pub open spec fn legal(from: MatrixPhase, to: MatrixPhase) -> bool {
    match from {
        MatrixPhase::Preflight => to is IdentityMatched || to is Failed || to is RecoveryBlocked,
        MatrixPhase::IdentityMatched => to is StoreBound || to is Failed,
        MatrixPhase::StoreBound => to is KeyProved || to is Failed,
        MatrixPhase::KeyProved => to is Registering || to is Failed,
        MatrixPhase::Registering => to is Ready || to is Failed,
        MatrixPhase::Ready => to == MatrixPhase::Failed(MatrixFailure::RequiredTaskExited),
        _ => false,
    }
}

/// Whether the adapter may go from one phase to another.
pub fn legal_matrix_transition(from: MatrixPhase, to: MatrixPhase) -> (allowed: bool)
    ensures
        allowed == legal(from, to),
{
    match (from, to) {
        (MatrixPhase::Preflight, MatrixPhase::IdentityMatched) => true,
        (MatrixPhase::Preflight, MatrixPhase::RecoveryBlocked) => true,
        (MatrixPhase::Preflight, MatrixPhase::Failed(_)) => true,
        (MatrixPhase::IdentityMatched, MatrixPhase::StoreBound) => true,
        (MatrixPhase::IdentityMatched, MatrixPhase::Failed(_)) => true,
        (MatrixPhase::StoreBound, MatrixPhase::KeyProved) => true,
        (MatrixPhase::StoreBound, MatrixPhase::Failed(_)) => true,
        (MatrixPhase::KeyProved, MatrixPhase::Registering) => true,
        (MatrixPhase::KeyProved, MatrixPhase::Failed(_)) => true,
        (MatrixPhase::Registering, MatrixPhase::Ready) => true,
        (MatrixPhase::Registering, MatrixPhase::Failed(_)) => true,
        (MatrixPhase::Ready, MatrixPhase::Failed(reason)) => {
            matches!(reason, MatrixFailure::RequiredTaskExited)
        },
        _ => false,
    }
}

/// How ready the adapter is, as data.
pub ghost struct ReadinessView {
    pub generation: nat,
    pub phase: MatrixPhase,
    pub missing_room_keys: nat,
}

impl ReadinessView {
    /// The adapter starts anew.
    pub open spec fn begun(self) -> ReadinessView {
        ReadinessView { generation: self.generation + 1, phase: MatrixPhase::Preflight, ..self }
    }

    /// Whether a start that is known as `generation` may go on to `next`, where it
    /// takes the adapter to be in one of the phases `allowed`.
    pub open spec fn admits(self, generation: nat, allowed: Seq<MatrixPhase>, next: MatrixPhase) -> bool {
        self.generation == generation && allowed.contains(self.phase) && legal(self.phase, next)
    }

    /// A task the adapter cannot do without has ended.
    pub open spec fn without_task(self) -> ReadinessView {
        if self.phase is Registering || self.phase is Ready {
            ReadinessView {
                phase: MatrixPhase::Failed(MatrixFailure::RequiredTaskExited),
                ..self
            }
        } else {
            self
        }
    }

    /// The adapter is being stopped.
    pub open spec fn stopping(self) -> ReadinessView {
        ReadinessView { generation: self.generation + 1, phase: MatrixPhase::ShuttingDown, ..self }
    }
}

/// How ready the Matrix adapter is. Every start and every stop is a generation of
/// its own, and what belongs to an earlier one changes nothing any more.
#[derive(Debug)]
pub struct MatrixReadinessOwner {
    generation: u64,
    phase: MatrixPhase,
    missing_room_keys: u64,
}

impl View for MatrixReadinessOwner {
    type V = ReadinessView;

    closed spec fn view(&self) -> ReadinessView {
        ReadinessView {
            generation: self.generation as nat,
            phase: self.phase,
            missing_room_keys: self.missing_room_keys as nat,
        }
    }
}

impl MatrixReadinessOwner {
    /// An adapter that is not used.
    pub fn new() -> (owner: MatrixReadinessOwner)
        ensures
            owner@ == (ReadinessView {
                generation: 0,
                phase: MatrixPhase::Disabled,
                missing_room_keys: 0,
            }),
    {
        MatrixReadinessOwner { generation: 0, phase: MatrixPhase::Disabled, missing_room_keys: 0 }
    }

    /// Start anew. Returns the generation that the start is known as.
    pub fn begin(&mut self) -> (generation: u64)
        requires
            old(self)@.generation < u64::MAX,
        ensures
            final(self)@ == old(self)@.begun(),
            generation == final(self)@.generation,
    {
        self.generation = self.generation + 1;
        self.phase = MatrixPhase::Preflight;
        self.generation
    }

    /// Go on to `next`, where the start is still the current one, the adapter is in
    /// one of the phases `allowed`, and the step is a legal one. Says whether it was.
    pub fn transition(
        &mut self,
        generation: u64,
        allowed: &[MatrixPhase],
        next: MatrixPhase,
    ) -> (done: bool)
        ensures
            done == old(self)@.admits(generation as nat, allowed@, next),
            final(self)@ == (if done {
                ReadinessView { phase: next, ..old(self)@ }
            } else {
                old(self)@
            }),
    {
        let mut expected = false;
        let mut i: usize = 0;
        while i < allowed.len()
            invariant
                *self == *old(self),
                i <= allowed@.len(),
                expected == exists|k: int| 0 <= k < i && allowed@[k] == self.phase,
            decreases allowed@.len() - i,
        {
            let ghost before = expected;
            if allowed[i] == self.phase {
                expected = true;
                assert(allowed@[i as int] == self.phase);
            }
            i = i + 1;
        }
        if self.generation != generation || !expected || !legal_matrix_transition(
            self.phase,
            next,
        ) {
            return false;
        }
        self.phase = next;
        true
    }

    /// How far the adapter is.
    pub fn phase(&self) -> (phase: MatrixPhase)
        ensures
            phase == self@.phase,
    {
        self.phase
    }

    /// A task the adapter cannot do without has ended.
    pub fn fail_required_task(&mut self)
        ensures
            final(self)@ == old(self)@.without_task(),
    {
        if matches!(self.phase, MatrixPhase::Registering | MatrixPhase::Ready) {
            self.phase = MatrixPhase::Failed(MatrixFailure::RequiredTaskExited);
        }
    }

    /// Begin to stop.
    pub fn stop(&mut self)
        requires
            old(self)@.generation < u64::MAX,
        ensures
            final(self)@ == old(self)@.stopping(),
    {
        self.generation = self.generation + 1;
        self.phase = MatrixPhase::ShuttingDown;
    }

    /// Stopping is done.
    pub fn stopped(&mut self)
        ensures
            final(self)@ == (if old(self)@.phase is ShuttingDown {
                ReadinessView { phase: MatrixPhase::Stopped, ..old(self)@ }
            } else {
                old(self)@
            }),
    {
        if matches!(self.phase, MatrixPhase::ShuttingDown) {
            self.phase = MatrixPhase::Stopped;
        }
    }

    /// A message could not be read for want of its room's key. The count starts over
    /// after the largest number.
    pub fn record_missing_room_key(&mut self)
        ensures
            final(self)@ == (ReadinessView {
                missing_room_keys: if old(self)@.missing_room_keys == u64::MAX {
                    0
                } else {
                    old(self)@.missing_room_keys + 1
                },
                ..old(self)@
            }),
    {
        self.missing_room_keys = self.missing_room_keys.wrapping_add(1);
    }

    /// How many messages could not be read.
    pub fn missing_room_keys(&self) -> (count: u64)
        ensures
            count == self@.missing_room_keys,
    {
        self.missing_room_keys
    }
}

/// What belongs to an earlier start changes nothing: after another start or a stop,
/// no step of the earlier generation is taken.
pub proof fn law_an_old_generation_changes_nothing(
    state: ReadinessView,
    allowed: Seq<MatrixPhase>,
    next: MatrixPhase,
)
    ensures
        !state.begun().admits(state.generation, allowed, next),
        !state.stopping().admits(state.generation, allowed, next),
        !state.stopping().begun().admits(state.generation, allowed, next),
{
}

/// The adapter becomes ready from registering alone, a failure lasts for its
/// generation, and a ready adapter fails only for want of a task it needs.
pub proof fn law_readiness_is_reached_step_by_step(from: MatrixPhase, to: MatrixPhase)
    requires
        legal(from, to),
    ensures
        to is Ready ==> from is Registering,
        to is Registering ==> from is KeyProved,
        to is KeyProved ==> from is StoreBound,
        to is StoreBound ==> from is IdentityMatched,
        to is IdentityMatched ==> from is Preflight,
        !(from is Failed),
        from is Ready ==> to == MatrixPhase::Failed(MatrixFailure::RequiredTaskExited),
{
}

/// How ready the bridge is.
#[derive(Debug, Clone, Copy, PartialEq, Eq, Structural)]
pub enum Readiness {
    /// Tasks are taken.
    Ready,
    /// The owner does not run.
    OwnerUnavailable,
    /// The store does not answer.
    StoreUnavailable,
    /// An adapter does not run.
    AdapterUnavailable,
    /// Someone has to look before tasks are taken.
    RecoveryBlocked,
}

/// What is told about the bridge's health, as data.
pub ghost struct HealthView {
    pub live: bool,
    pub readiness: Readiness,
    pub diagnostic: Option<Seq<char>>,
}

/// What is told about the bridge's health.
#[derive(Debug, Clone, Copy, PartialEq, Eq)]
pub struct HealthSnapshot {
    pub live: bool,
    pub readiness: Readiness,
    pub diagnostic: Option<&'static str>,
}

impl View for HealthSnapshot {
    type V = HealthView;

    open spec fn view(&self) -> HealthView {
        HealthView {
            live: self.live,
            readiness: self.readiness,
            diagnostic: match self.diagnostic {
                Some(text) => Some(text@),
                None => None,
            },
        }
    }
}

/// What `base` becomes for a bridge that is blocked by recovery or waits for its
/// Matrix adapter, and whose owner is in `owner`.
pub open spec fn overlaid(
    base: HealthView,
    owner: OwnerState,
    recovery_blocked: bool,
    matrix: MatrixPhase,
) -> HealthView {
    let blocked = HealthView {
        readiness: Readiness::RecoveryBlocked,
        diagnostic: Some("recovery-blocked"@),
        ..base
    };
    let judged = if recovery_blocked {
        blocked
    } else {
        match matrix {
            MatrixPhase::Disabled => base,
            MatrixPhase::Ready => base,
            MatrixPhase::Failed(reason) => HealthView {
                readiness: Readiness::AdapterUnavailable,
                diagnostic: Some(reason.logged()),
                ..base
            },
            MatrixPhase::RecoveryBlocked => blocked,
            _ => HealthView {
                readiness: Readiness::AdapterUnavailable,
                diagnostic: Some("matrix-not-ready"@),
                ..base
            },
        }
    };
    HealthView { live: !(owner is Stopped || owner is Failed), ..judged }
}

/// The state of the bridge's parts.
#[derive(Debug)]
pub struct HealthState {
    owner: OwnerState,
    adapter_ready: bool,
    recovery_blocked: bool,
    insecure_a2a_peers: u64,
    required: Vec<bool>,
    matrix_required: Vec<bool>,
    matrix: MatrixReadinessOwner,
}

/// The state of the bridge's parts, as data.
pub ghost struct HealthStateView {
    pub owner: OwnerState,
    pub adapter_ready: bool,
    pub recovery_blocked: bool,
    pub insecure_a2a_peers: nat,
    /// The tasks that the owner cannot do without: whether each is alive.
    pub required: Seq<bool>,
    /// The tasks that the Matrix adapter cannot do without.
    pub matrix_required: Seq<bool>,
    pub matrix: ReadinessView,
}

impl View for HealthState {
    type V = HealthStateView;

    closed spec fn view(&self) -> HealthStateView {
        HealthStateView {
            owner: self.owner,
            adapter_ready: self.adapter_ready,
            recovery_blocked: self.recovery_blocked,
            insecure_a2a_peers: self.insecure_a2a_peers as nat,
            required: self.required@,
            matrix_required: self.matrix_required@,
            matrix: self.matrix@,
        }
    }
}

impl HealthState {
    /// A bridge that starts.
    pub fn new() -> (state: HealthState)
        ensures
            state@ == (HealthStateView {
                owner: OwnerState::Starting,
                adapter_ready: false,
                recovery_blocked: false,
                insecure_a2a_peers: 0,
                required: Seq::empty(),
                matrix_required: Seq::empty(),
                matrix: ReadinessView {
                    generation: 0,
                    phase: MatrixPhase::Disabled,
                    missing_room_keys: 0,
                },
            }),
    {
        HealthState {
            owner: OwnerState::Starting,
            adapter_ready: false,
            recovery_blocked: false,
            insecure_a2a_peers: 0,
            required: Vec::new(),
            matrix_required: Vec::new(),
            matrix: MatrixReadinessOwner::new(),
        }
    }

    /// The owner went on.
    pub fn set_owner(&mut self, owner: OwnerState)
        ensures
            final(self)@ == (HealthStateView { owner, ..old(self)@ }),
    {
        self.owner = owner;
    }

    /// The adapters run, or do not.
    pub fn set_adapter_ready(&mut self, ready: bool)
        ensures
            final(self)@ == (HealthStateView { adapter_ready: ready, ..old(self)@ }),
    {
        self.adapter_ready = ready;
    }

    /// Someone has to look before tasks are taken, or nobody has to.
    pub fn set_recovery_blocked(&mut self, blocked: bool)
        ensures
            final(self)@ == (HealthStateView { recovery_blocked: blocked, ..old(self)@ }),
    {
        self.recovery_blocked = blocked;
    }

    /// How many peers are trusted without a certificate.
    pub fn set_insecure_a2a_peers(&mut self, count: usize)
        ensures
            final(self)@ == (HealthStateView { insecure_a2a_peers: count as nat, ..old(self)@ }),
    {
        self.insecure_a2a_peers = count as u64;
    }

    /// How many peers are trusted without a certificate.
    pub fn insecure_a2a_peers(&self) -> (count: u64)
        ensures
            count == self@.insecure_a2a_peers,
    {
        self.insecure_a2a_peers
    }

    /// Where the owner is.
    pub fn owner(&self) -> (owner: OwnerState)
        ensures
            owner == self@.owner,
    {
        self.owner
    }

    /// Whether the adapters run.
    pub fn adapter_ready(&self) -> (ready: bool)
        ensures
            ready == self@.adapter_ready,
    {
        self.adapter_ready
    }

    /// How ready the Matrix adapter is.
    pub fn matrix(&self) -> (owner: &MatrixReadinessOwner)
        ensures
            owner@ == self@.matrix,
    {
        &self.matrix
    }

    /// How ready the Matrix adapter is, to be changed.
    pub fn matrix_mut(&mut self) -> (owner: &mut MatrixReadinessOwner)
        ensures
            owner@ == old(self)@.matrix,
            final(self)@ == (HealthStateView { matrix: final(owner)@, ..old(self)@ }),
    {
        &mut self.matrix
    }

    /// A task that the owner cannot do without is alive. Returns its number.
    pub fn register_required(&mut self) -> (number: usize)
        ensures
            number == old(self)@.required.len(),
            final(self)@ == (HealthStateView {
                required: old(self)@.required.push(true),
                ..old(self)@
            }),
    {
        let number: usize = self.required.len();
        self.required.push(true);
        number
    }

    /// A task that the Matrix adapter cannot do without is alive. Returns its number.
    pub fn register_matrix_required(&mut self) -> (number: usize)
        ensures
            number == old(self)@.matrix_required.len(),
            final(self)@ == (HealthStateView {
                matrix_required: old(self)@.matrix_required.push(true),
                ..old(self)@
            }),
    {
        let number: usize = self.matrix_required.len();
        self.matrix_required.push(true);
        number
    }

    /// A task that the owner cannot do without has ended.
    pub fn required_ended(&mut self, number: usize)
        ensures
            final(self)@ == (HealthStateView {
                required: if number < old(self)@.required.len() {
                    old(self)@.required.update(number as int, false)
                } else {
                    old(self)@.required
                },
                ..old(self)@
            }),
    {
        if number < self.required.len() {
            self.required.set(number, false);
        }
    }

    /// A task that the Matrix adapter cannot do without has ended.
    pub fn matrix_required_ended(&mut self, number: usize)
        ensures
            final(self)@ == (HealthStateView {
                matrix_required: if number < old(self)@.matrix_required.len() {
                    old(self)@.matrix_required.update(number as int, false)
                } else {
                    old(self)@.matrix_required
                },
                ..old(self)@
            }),
    {
        if number < self.matrix_required.len() {
            self.matrix_required.set(number, false);
        }
    }

    /// Look at the tasks that the bridge cannot do without. A Matrix task that ended
    /// fails the adapter. Says whether the owner runs with all of its tasks.
    pub fn observe(&mut self) -> (running: bool)
        ensures
            running == (old(self)@.owner is Running && all_alive(old(self)@.required)),
            final(self)@ == (HealthStateView {
                matrix: if all_alive(old(self)@.matrix_required) {
                    old(self)@.matrix
                } else {
                    old(self)@.matrix.without_task()
                },
                ..old(self)@
            }),
    {
        if !every_alive(&self.matrix_required) {
            self.matrix.fail_required_task();
        }
        matches!(self.owner, OwnerState::Running) && every_alive(&self.required)
    }

    /// What is told about the bridge's health, where `base` is what its store says.
    pub fn snapshot(&self, base: HealthSnapshot) -> (snapshot: HealthSnapshot)
        ensures
            snapshot@ == overlaid(
                base@,
                self@.owner,
                self@.recovery_blocked,
                self@.matrix.phase,
            ),
    {
        let mut snapshot = base;
        if self.recovery_blocked {
            snapshot.readiness = Readiness::RecoveryBlocked;
            snapshot.diagnostic = Some("recovery-blocked");
        } else {
            match self.matrix.phase() {
                MatrixPhase::Disabled | MatrixPhase::Ready => {},
                MatrixPhase::Failed(reason) => {
                    snapshot.readiness = Readiness::AdapterUnavailable;
                    snapshot.diagnostic = Some(reason.as_log_str());
                },
                MatrixPhase::RecoveryBlocked => {
                    snapshot.readiness = Readiness::RecoveryBlocked;
                    snapshot.diagnostic = Some("recovery-blocked");
                },
                _ => {
                    snapshot.readiness = Readiness::AdapterUnavailable;
                    snapshot.diagnostic = Some("matrix-not-ready");
                },
            }
        }
        snapshot.live = !matches!(self.owner, OwnerState::Stopped | OwnerState::Failed);
        snapshot
    }
}

/// Whether every task is alive.
pub open spec fn all_alive(tasks: Seq<bool>) -> bool {
    forall|i: int| 0 <= i < tasks.len() ==> tasks[i]
}

/// Whether every task is alive.
fn every_alive(tasks: &Vec<bool>) -> (alive: bool)
    ensures
        alive == all_alive(tasks@),
{
    let mut i: usize = 0;
    while i < tasks.len()
        invariant
            i <= tasks@.len(),
            forall|k: int| 0 <= k < i ==> tasks@[k],
        decreases tasks@.len() - i,
    {
        if !tasks[i] {
            assert(!tasks@[i as int]);
            return false;
        }
        i = i + 1;
    }
    true
}

/// A bridge that is blocked by recovery is never told to be ready, nor is one whose
/// Matrix adapter is used and not ready.
pub proof fn law_an_unready_bridge_is_not_told_ready(
    base: HealthView,
    owner: OwnerState,
    recovery_blocked: bool,
    matrix: MatrixPhase,
)
    requires
        recovery_blocked || !(matrix is Disabled || matrix is Ready),
    ensures
        !(overlaid(base, owner, recovery_blocked, matrix).readiness is Ready),
        overlaid(base, owner, recovery_blocked, matrix).diagnostic is Some,
{
}

/// How a bridge is told to be. It is live unless its owner has stopped or failed. Recovery
/// comes before everything else; a Matrix adapter that failed, is blocked, or is on its way
/// is told next; and otherwise what the store says holds.
pub proof fn law_health_is_told_as_it_is(
    base: HealthView,
    owner: OwnerState,
    recovery_blocked: bool,
    matrix: MatrixPhase,
)
    ensures
        ({
            let told = overlaid(base, owner, recovery_blocked, matrix);
            &&& told.live <==> (owner is Starting || owner is Running || owner is Stopping)
            &&& recovery_blocked || matrix is RecoveryBlocked ==> told.readiness is RecoveryBlocked
                && told.diagnostic == Some("recovery-blocked"@)
            &&& !recovery_blocked ==> {
                &&& matrix is Disabled || matrix is Ready ==> told.readiness == base.readiness
                    && told.diagnostic == base.diagnostic
                &&& matrix matches MatrixPhase::Failed(reason) ==> told.readiness
                    is AdapterUnavailable && told.diagnostic == Some(reason.logged())
                &&& matrix is Preflight || matrix is IdentityMatched || matrix is StoreBound
                    || matrix is KeyProved || matrix is Registering || matrix is ShuttingDown
                    || matrix is Stopped ==> told.readiness is AdapterUnavailable
                    && told.diagnostic == Some("matrix-not-ready"@)
            }
        }),
{
}

/// Every step towards readiness may be taken, and a failure may be told on the way; nothing
/// else may.
pub proof fn law_phases_follow_each_other(from: MatrixPhase, to: MatrixPhase)
    ensures
        legal(from, to) <==> {
            ||| from is Preflight && to is IdentityMatched
            ||| from is IdentityMatched && to is StoreBound
            ||| from is StoreBound && to is KeyProved
            ||| from is KeyProved && to is Registering
            ||| from is Registering && to is Ready
            ||| from is Preflight && to is RecoveryBlocked
            ||| to is Failed && (from is Preflight || from is IdentityMatched || from is StoreBound
                || from is KeyProved || from is Registering)
            ||| from is Ready && to == MatrixPhase::Failed(MatrixFailure::RequiredTaskExited)
        },
{
}

/// A start and a stop make a new generation; a required task that exits fails an adapter
/// that was registering or ready, and no other; and the count of missing keys is kept.
pub proof fn law_generations_and_failures(state: ReadinessView)
    ensures
        state.begun().generation == state.generation + 1,
        state.begun().phase is Preflight,
        state.stopping().generation == state.generation + 1,
        state.stopping().phase is ShuttingDown,
        state.without_task().generation == state.generation,
        state.without_task().phase == (if state.phase is Registering || state.phase is Ready {
            MatrixPhase::Failed(MatrixFailure::RequiredTaskExited)
        } else {
            state.phase
        }),
        state.begun().missing_room_keys == state.missing_room_keys,
        state.stopping().missing_room_keys == state.missing_room_keys,
        state.without_task().missing_room_keys == state.missing_room_keys,
{
}

/// Tasks are alive together where every one of them is.
pub proof fn law_one_dead_task_is_enough(tasks: Seq<bool>, more: bool)
    ensures
        all_alive(Seq::empty()),
        all_alive(tasks.push(more)) <==> (all_alive(tasks) && more),
        MAX_REQUEST_BYTES == 4096,
        MAX_CONNECTIONS == 32,
{
    let all = tasks.push(more);
    if all_alive(all) {
        assert forall|i: int| 0 <= i < tasks.len() implies tasks[i] by {
            assert(all[i] == tasks[i]);
        }
        assert(all[tasks.len() as int] == more);
    }
    if all_alive(tasks) && more {
        assert forall|i: int| 0 <= i < all.len() implies all[i] by {
            if i < tasks.len() {
                assert(all[i] == tasks[i]);
            }
        }
    }
}

} // verus!
