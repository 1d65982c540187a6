//! Starting the bridge: what an earlier run left, and what is assembled when.

use vstd::prelude::*;
use vstd::string::*;

use crate::a2a::cleanup::CleanupPolicy;
use crate::a2a::dispatcher::position_of;
use crate::app::error::AppError;
use crate::app::error::AppErrorView;
use crate::app::health::overlaid;
use crate::app::health::HealthView;
use crate::app::health::MatrixPhase;
use crate::app::health::OwnerState;
use crate::config::AgentEntry;
use crate::config::Config;
use crate::config::PeerEntry;
use crate::ids::hyphenated;
use crate::ids::TaskId;
use crate::models::TransportType;
use crate::text::views;
use crate::time::max_signed_span;
use crate::time::Duration;

verus! {

/// Most admissions and turns that are looked at.
pub const RECOVERY_LIMIT: u32 = 4096;

/// How often exchanges are cleaned, in seconds.
pub const CLEANUP_INTERVAL_SECS: u64 = 60;

/// How often the outbox is drained, in seconds.
pub const OUTBOX_INTERVAL_SECS: u64 = 1;

/// Most messages sent from the outbox at once.
pub const OUTBOX_BATCH: u32 = 64;

/// What an earlier run left.
#[derive(Debug, Clone, Copy, PartialEq, Eq, Structural)]
pub struct RecoveryFacts {
    /// Whether this run owns the runtime's record.
    pub owns_runtime: bool,
    /// Whether the stored admissions cannot be taken up.
    pub admissions_blocked: bool,
    /// How many stored admissions can be taken up.
    pub eligible: usize,
    /// How many tasks the queue holds.
    pub queue_capacity: usize,
    /// How many unfinished tasks no stored admission covers.
    pub unfinished: usize,
    /// How many turns were about to start.
    pub ready_turns: usize,
    /// How many turns nobody knows the end of.
    pub ambiguous_turns: usize,
    /// How many leases are held.
    pub active_leases: u64,
    /// How many leases need recovery.
    pub recovery_needed_leases: u64,
    /// How many runs need recovery.
    pub recovery_backlog: u64,
}

impl RecoveryFacts {
    /// Whether someone has to look before tasks are taken: something an earlier run
    /// left is ambiguous, or more was left than the queue holds.
    pub open spec fn blocks(self) -> bool {
        ||| !self.owns_runtime
        ||| self.admissions_blocked
        ||| self.eligible > self.queue_capacity
        ||| self.unfinished > 0
        ||| self.ready_turns > 0
        ||| self.ambiguous_turns > 0
        ||| self.active_leases > 0
        ||| self.recovery_needed_leases > 0
        ||| self.recovery_backlog > 0
    }

    /// Whether someone has to look before tasks are taken.
    pub fn is_blocked(&self) -> (blocked: bool)
        ensures
            blocked == self.blocks(),
    {
        !self.owns_runtime || self.admissions_blocked || self.eligible > self.queue_capacity
            || self.unfinished > 0 || self.ready_turns > 0 || self.ambiguous_turns > 0
            || self.active_leases > 0 || self.recovery_needed_leases > 0 || self.recovery_backlog
            > 0
    }
}

/// The unfinished tasks that none of the stored admissions covers, in order.
pub open spec fn not_covered(unfinished: Seq<TaskId>, covered: Seq<Seq<char>>) -> Seq<TaskId>
    decreases unfinished.len(),
{
    if unfinished.len() == 0 {
        Seq::empty()
    } else if covered.contains(hyphenated(unfinished.last().bits())) {
        not_covered(unfinished.drop_last(), covered)
    } else {
        not_covered(unfinished.drop_last(), covered).push(unfinished.last())
    }
}

/// The unfinished tasks that none of the stored admissions covers.
pub fn uncovered(unfinished: &Vec<TaskId>, covered: &Vec<String>) -> (left: Vec<TaskId>)
    ensures
        left@ == not_covered(unfinished@, views(covered@)),
{
    let mut left: Vec<TaskId> = Vec::new();
    let mut i: usize = 0;
    while i < unfinished.len()
        invariant
            i <= unfinished@.len(),
            left@ == not_covered(unfinished@.take(i as int), views(covered@)),
        decreases unfinished@.len() - i,
    {
        let text = unfinished[i].to_string();
        let found = position_of(covered, text.as_str());
        proof {
            assert(unfinished@.take(i + 1).drop_last() =~= unfinished@.take(i as int));
            match found {
                Some(at) => {
                    assert(views(covered@)[at as int] == text@);
                },
                None => {
                    assert forall|k: int| 0 <= k < views(covered@).len() implies views(covered@)[k]
                        != text@ by {
                        assert(views(covered@)[k] == covered@[k]@);
                    }
                },
            }
        }
        if found.is_none() {
            left.push(unfinished[i]);
        }
        i = i + 1;
    }
    assert(unfinished@.take(i as int) =~= unfinished@);
    left
}

/// What is assembled, in this order.
#[derive(Debug, Clone, Copy, PartialEq, Eq, Structural)]
pub enum BuildStep {
    /// The bridge's health is told whether it is blocked by recovery.
    TellRecovery { blocked: bool },
    /// The dispatcher of the agent with this number.
    Dispatcher(usize),
    /// The dispatchers of A2A peers.
    A2aPeers,
    /// The queue, with the default deadline of tasks.
    Queue,
    /// The gateway's retained content is counted.
    GatewayCheck,
    /// The stored admissions are taken up.
    Recover,
    /// The Matrix client is restored.
    MatrixRestore,
    /// The health listener.
    Health,
    /// The messages from and to Matrix.
    MatrixStart,
    /// The worker.
    Worker,
    /// The events.
    Broadcaster,
    /// The cleanup of exchanges.
    A2aCleanup,
    /// The A2A listener.
    A2aListen,
    /// The adapters are told ready.
    AdapterReady,
    /// The owner is told running.
    OwnerRunning,
}

/// Whether an agent has a dispatcher of its own.
pub open spec fn dispatched(entry: AgentEntry) -> bool {
    entry.declared.enabled && entry.declared.transport is Acp
}

/// The dispatchers of the first `upto` agents.
pub open spec fn dispatcher_steps(agents: Seq<AgentEntry>, upto: nat) -> Seq<BuildStep>
    decreases upto,
{
    if upto == 0 {
        Seq::empty()
    } else if dispatched(agents[upto - 1]) {
        dispatcher_steps(agents, (upto - 1) as nat).push(BuildStep::Dispatcher((upto - 1) as usize))
    } else {
        dispatcher_steps(agents, (upto - 1) as nat)
    }
}

/// One step, where it is wanted.
pub open spec fn where_wanted(step: BuildStep, wanted: bool) -> Seq<BuildStep> {
    if wanted {
        seq![step]
    } else {
        Seq::empty()
    }
}

/// What is assembled for a configuration. A bridge that is blocked by recovery only
/// tells about itself.
pub open spec fn build_steps(config: Config, blocked: bool) -> Seq<BuildStep> {
    let a2a = config.transports.a2a.enabled;
    let matrix = config.transports.matrix.enabled;
    let health = config.bridge.health_bind is Some;
    let told = seq![BuildStep::TellRecovery { blocked }];
    if blocked {
        told + where_wanted(BuildStep::Health, health) + seq![BuildStep::OwnerRunning]
    } else {
        told + dispatcher_steps(config.agents@, config.agents@.len()) + where_wanted(
            BuildStep::A2aPeers,
            a2a,
        ) + seq![BuildStep::Queue] + where_wanted(
            BuildStep::GatewayCheck,
            config.transports.gateway.enabled,
        ) + seq![BuildStep::Recover] + where_wanted(BuildStep::MatrixRestore, matrix)
            + where_wanted(BuildStep::Health, health) + where_wanted(BuildStep::MatrixStart, matrix)
            + seq![BuildStep::Worker] + seq![BuildStep::Broadcaster] + where_wanted(
            BuildStep::A2aCleanup,
            a2a,
        ) + where_wanted(BuildStep::A2aListen, a2a) + seq![BuildStep::AdapterReady] + seq![
            BuildStep::OwnerRunning,
        ]
    }
}

/// Append one step, where it is wanted.
fn push_wanted(steps: &mut Vec<BuildStep>, step: BuildStep, wanted: bool)
    ensures
        final(steps)@ == old(steps)@ + where_wanted(step, wanted),
{
    if wanted {
        steps.push(step);
    }
    assert(steps@ =~= old(steps)@ + where_wanted(step, wanted));
}

/// Append one step.
fn push_step(steps: &mut Vec<BuildStep>, step: BuildStep)
    ensures
        final(steps)@ == old(steps)@ + seq![step],
{
    steps.push(step);
    assert(steps@ =~= old(steps)@ + seq![step]);
}

/// What is assembled for a configuration.
pub fn assembly_plan(config: &Config, blocked: bool) -> (steps: Vec<BuildStep>)
    ensures
        steps@ == build_steps(*config, blocked),
{
    let a2a = config.transports.a2a.enabled;
    let matrix = config.transports.matrix.enabled;
    let health = config.bridge.health_bind.is_some();
    let mut steps: Vec<BuildStep> = Vec::new();
    steps.push(BuildStep::TellRecovery { blocked });
    let ghost told = seq![BuildStep::TellRecovery { blocked }];
    assert(steps@ =~= told);
    if blocked {
        push_wanted(&mut steps, BuildStep::Health, health);
        push_step(&mut steps, BuildStep::OwnerRunning);
        return steps;
    }
    assert(steps@ =~= told + dispatcher_steps(config.agents@, 0));
    let mut i: usize = 0;
    while i < config.agents.len()
        invariant
            i <= config.agents@.len(),
            steps@ == told + dispatcher_steps(config.agents@, i as nat),
        decreases config.agents@.len() - i,
    {
        let declared = &config.agents[i].declared;
        if declared.enabled && declared.transport == TransportType::Acp {
            steps.push(BuildStep::Dispatcher(i));
        }
        assert(steps@ =~= told + dispatcher_steps(config.agents@, (i + 1) as nat));
        i = i + 1;
    }
    push_wanted(&mut steps, BuildStep::A2aPeers, a2a);
    push_step(&mut steps, BuildStep::Queue);
    push_wanted(&mut steps, BuildStep::GatewayCheck, config.transports.gateway.enabled);
    push_step(&mut steps, BuildStep::Recover);
    push_wanted(&mut steps, BuildStep::MatrixRestore, matrix);
    push_wanted(&mut steps, BuildStep::Health, health);
    push_wanted(&mut steps, BuildStep::MatrixStart, matrix);
    push_step(&mut steps, BuildStep::Worker);
    push_step(&mut steps, BuildStep::Broadcaster);
    push_wanted(&mut steps, BuildStep::A2aCleanup, a2a);
    push_wanted(&mut steps, BuildStep::A2aListen, a2a);
    push_step(&mut steps, BuildStep::AdapterReady);
    push_step(&mut steps, BuildStep::OwnerRunning);
    steps
}

/// What starting is told to fail with where a step fails for `reason`. Some steps say
/// themselves why they failed.
pub open spec fn step_failure(step: BuildStep, reason: AppErrorView) -> AppErrorView {
    match step {
        BuildStep::A2aPeers => AppErrorView::Assembly("A2A peer startup failed"@),
        BuildStep::Queue => AppErrorView::Assembly("default timeout is out of range"@),
        BuildStep::GatewayCheck => AppErrorView::Assembly(
            "gateway retained-byte validation failed"@,
        ),
        BuildStep::MatrixRestore => AppErrorView::Matrix,
        BuildStep::Health => AppErrorView::Health,
        BuildStep::A2aCleanup => AppErrorView::Assembly("A2A cleanup startup failed"@),
        BuildStep::A2aListen => AppErrorView::Assembly("A2A listener startup failed"@),
        _ => reason,
    }
}

/// What starting is told to fail with.
fn failure_of(step: BuildStep, reason: AppError) -> (error: AppError)
    ensures
        error@ == step_failure(step, reason@),
{
    match step {
        BuildStep::A2aPeers => AppError::Assembly("A2A peer startup failed"),
        BuildStep::Queue => AppError::Assembly("default timeout is out of range"),
        BuildStep::GatewayCheck => AppError::Assembly("gateway retained-byte validation failed"),
        BuildStep::MatrixRestore => AppError::Matrix,
        BuildStep::Health => AppError::Health,
        BuildStep::A2aCleanup => AppError::Assembly("A2A cleanup startup failed"),
        BuildStep::A2aListen => AppError::Assembly("A2A listener startup failed"),
        _ => reason,
    }
}

/// What to do next to start the bridge.
#[derive(Debug, Clone, Copy, PartialEq, Eq)]
pub enum StartupAction {
    /// Take this step.
    Build(BuildStep),
    /// The bridge runs.
    Running,
    /// The bridge does not start: the runtime's record is closed where it is this
    /// run's own, and the store is closed.
    RollBack { error: AppError, close_record: bool },
}

/// The bridge on its way to a start.
#[derive(Debug)]
pub struct AppStartup {
    steps: Vec<BuildStep>,
    at: usize,
    owns_runtime: bool,
    over: bool,
}

impl AppStartup {
    /// The steps of the start.
    pub closed spec fn steps(&self) -> Seq<BuildStep> {
        self.steps@
    }

    /// How many steps were taken.
    pub closed spec fn taken(&self) -> nat {
        self.at as nat
    }

    /// Whether the runtime's record is this run's own.
    pub closed spec fn owns_runtime(&self) -> bool {
        self.owns_runtime
    }

    /// Whether the bridge is still starting.
    pub closed spec fn starting(&self) -> bool {
        !self.over && self.at < self.steps@.len()
    }

    /// Begin to start the bridge, after looking at what an earlier run left.
    pub fn begin(config: &Config, facts: &RecoveryFacts) -> (run: (AppStartup, StartupAction))
        ensures
            run.0.steps() == build_steps(*config, facts.blocks()),
            run.0.taken() == 0,
            run.0.owns_runtime() == facts.owns_runtime,
            run.0.starting(),
            run.1 == StartupAction::Build(build_steps(*config, facts.blocks())[0]),
    {
        let steps = assembly_plan(config, facts.is_blocked());
        proof {
            lemma_there_are_steps(*config, facts.blocks());
        }
        let first = steps[0];
        let run = AppStartup { steps, at: 0, owns_runtime: facts.owns_runtime, over: false };
        (run, StartupAction::Build(first))
    }

    /// The last step was taken, or failed.
    pub fn step(&mut self, result: Result<(), AppError>) -> (action: StartupAction)
        requires
            old(self).starting(),
        ensures
            final(self).steps() == old(self).steps(),
            final(self).owns_runtime() == old(self).owns_runtime(),
            match result {
                Err(reason) => {
                    &&& !final(self).starting()
                    &&& final(self).taken() == old(self).taken()
                    &&& action matches StartupAction::RollBack { error, close_record } && error@
                        == step_failure(old(self).steps()[old(self).taken() as int], reason@)
                        && close_record == old(self).owns_runtime()
                },
                Ok(_) => {
                    &&& final(self).taken() == old(self).taken() + 1
                    &&& if old(self).taken() + 1 < old(self).steps().len() {
                        final(self).starting() && action == StartupAction::Build(
                            old(self).steps()[old(self).taken() as int + 1],
                        )
                    } else {
                        !final(self).starting() && action == StartupAction::Running
                    }
                },
            },
    {
        match result {
            Err(reason) => {
                let error = failure_of(self.steps[self.at], reason);
                self.over = true;
                StartupAction::RollBack { error, close_record: self.owns_runtime }
            },
            Ok(()) => {
                let total: usize = self.steps.len();
                self.at = self.at + 1;
                if self.at < total {
                    StartupAction::Build(self.steps[self.at])
                } else {
                    StartupAction::Running
                }
            },
        }
    }
}

/// There is something to do, and the owner is told running last.
proof fn lemma_there_are_steps(config: Config, blocked: bool)
    ensures
        build_steps(config, blocked).len() > 0,
        build_steps(config, blocked).last() == BuildStep::OwnerRunning,
{
}

/// Before anything else, the bridge's health is told whether it is blocked by recovery:
/// a blocked bridge is never told to be ready.
pub proof fn law_health_knows_of_recovery_first(
    config: Config,
    blocked: bool,
    base: HealthView,
    owner: OwnerState,
    matrix: MatrixPhase,
)
    ensures
        build_steps(config, blocked)[0] == (BuildStep::TellRecovery { blocked }),
        blocked ==> !(overlaid(base, owner, blocked, matrix).readiness is Ready),
{
}

/// A bridge that is blocked by recovery takes no task: nothing but its health listener
/// is assembled.
pub proof fn law_a_blocked_bridge_takes_no_tasks(config: Config, at: int)
    requires
        0 <= at < build_steps(config, true).len(),
    ensures
        build_steps(config, true)[at] is TellRecovery || build_steps(config, true)[at] is Health
            || build_steps(config, true)[at] is OwnerRunning,
{
}

/// The steps before the worker: those up to the dispatchers and those that follow them.
pub open spec fn before_worker(config: Config) -> Seq<BuildStep> {
    let a2a = config.transports.a2a.enabled;
    let matrix = config.transports.matrix.enabled;
    let health = config.bridge.health_bind is Some;
    seq![BuildStep::TellRecovery { blocked: false }] + dispatcher_steps(
        config.agents@,
        config.agents@.len(),
    ) + where_wanted(BuildStep::A2aPeers, a2a) + seq![BuildStep::Queue] + where_wanted(
        BuildStep::GatewayCheck,
        config.transports.gateway.enabled,
    ) + seq![BuildStep::Recover] + where_wanted(BuildStep::MatrixRestore, matrix) + where_wanted(
        BuildStep::Health,
        health,
    ) + where_wanted(BuildStep::MatrixStart, matrix)
}

/// A step of a dispatcher is one.
proof fn lemma_dispatcher_steps(agents: Seq<AgentEntry>, upto: nat)
    ensures
        forall|i: int|
            0 <= i < dispatcher_steps(agents, upto).len() ==> (#[trigger] dispatcher_steps(
                agents,
                upto,
            )[i]) is Dispatcher,
    decreases upto,
{
    if upto > 0 {
        lemma_dispatcher_steps(agents, (upto - 1) as nat);
    }
}

/// The worker starts after the queue is there and what an earlier run left was taken
/// up, and the adapters are told ready only after everything was assembled.
pub proof fn law_the_worker_starts_after_recovery(config: Config)
    ensures
        ({
            let steps = build_steps(config, false);
            let first = before_worker(config);
            &&& first.contains(BuildStep::Queue)
            &&& first.contains(BuildStep::Recover)
            &&& !first.contains(BuildStep::Worker)
            &&& first.len() < steps.len()
            &&& steps.take(first.len() as int) == first
            &&& steps[first.len() as int] == BuildStep::Worker
            &&& steps[steps.len() - 2] == BuildStep::AdapterReady
            &&& steps.last() == BuildStep::OwnerRunning
        }),
{
    let a2a = config.transports.a2a.enabled;
    let matrix = config.transports.matrix.enabled;
    let health = config.bridge.health_bind is Some;
    let steps = build_steps(config, false);
    let first = before_worker(config);
    let dispatchers = dispatcher_steps(config.agents@, config.agents@.len());
    lemma_dispatcher_steps(config.agents@, config.agents@.len());
    let peers = where_wanted(BuildStep::A2aPeers, a2a);
    let gateway = where_wanted(BuildStep::GatewayCheck, config.transports.gateway.enabled);
    let queue_at = (1 + dispatchers.len() + peers.len()) as int;
    assert(first[queue_at] == BuildStep::Queue);
    let recover_at = queue_at + 1 + gateway.len();
    assert(first[recover_at] == BuildStep::Recover);
    assert forall|i: int| 0 <= i < first.len() implies first[i] != BuildStep::Worker by {
        if 0 < i <= dispatchers.len() {
            assert(first[i] == dispatchers[i - 1]);
            assert(dispatchers[i - 1] is Dispatcher);
        }
    }
    assert(steps.take(first.len() as int) =~= first);
}

/// What an agent's dispatcher works in. An enabled agent process needs a directory.
pub fn workspace_of(entry: &AgentEntry) -> (workspace: Result<&String, AppError>)
    ensures
        match workspace {
            Ok(workspace) => entry.declared.workspace == Some(*workspace),
            Err(error) => entry.declared.workspace is None && error@ == AppErrorView::Assembly(
                "enabled ACP workspace missing"@,
            ),
        },
{
    match &entry.declared.workspace {
        Some(workspace) => Ok(workspace),
        None => Err(AppError::Assembly("enabled ACP workspace missing")),
    }
}

/// The default deadline of tasks, where it can be added to an instant.
pub fn default_timeout(config: &Config) -> (timeout: Result<Duration, AppError>)
    ensures
        match timeout {
            Ok(timeout) => timeout.total() == config.bridge.default_timeout_seconds * 1_000_000_000
                && timeout.total() <= max_signed_span(),
            Err(error) => config.bridge.default_timeout_seconds * 1_000_000_000 > max_signed_span()
                && error@ == AppErrorView::Assembly("default timeout is out of range"@),
        },
{
    let timeout = Duration::from_secs(config.bridge.default_timeout_seconds);
    if timeout.fits_signed() {
        Ok(timeout)
    } else {
        Err(AppError::Assembly("default timeout is out of range"))
    }
}

/// How many of the peers are trusted without a certificate.
pub open spec fn insecure(peers: Seq<PeerEntry>) -> nat
    decreases peers.len(),
{
    if peers.len() == 0 {
        0
    } else if peers.last().peer.danger_accept_invalid_certs {
        insecure(peers.drop_last()) + 1
    } else {
        insecure(peers.drop_last())
    }
}

/// How many peers are trusted without a certificate, where peers are used at all.
pub fn insecure_peers(config: &Config) -> (count: usize)
    ensures
        count == (if config.transports.a2a.enabled {
            insecure(config.transports.a2a.peers@)
        } else {
            0
        }),
{
    if !config.transports.a2a.enabled {
        return 0;
    }
    let peers = &config.transports.a2a.peers;
    let mut count: usize = 0;
    let mut i: usize = 0;
    while i < peers.len()
        invariant
            i <= peers@.len(),
            count <= i,
            count == insecure(peers@.take(i as int)),
        decreases peers@.len() - i,
    {
        assert(peers@.take(i + 1).drop_last() =~= peers@.take(i as int));
        if peers[i].peer.danger_accept_invalid_certs {
            count = count + 1;
        }
        i = i + 1;
    }
    assert(peers@.take(i as int) =~= peers@);
    count
}

/// `value` in 64 signed bits, the largest half becoming negative.
pub open spec fn wrapped(value: u64) -> int {
    if value <= i64::MAX {
        value as int
    } else {
        value - 0x1_0000_0000_0000_0000
    }
}

/// `value` in 64 signed bits.
fn wrap(value: u64) -> (signed: i64)
    ensures
        signed == wrapped(value),
{
    if value <= 0x7fff_ffff_ffff_ffff {
        value as i64
    } else {
        -((u64::MAX - value) as i64) - 1
    }
}

/// How the content of exchanges is kept.
pub fn cleanup_policy(config: &Config) -> (policy: CleanupPolicy)
    ensures
        policy.terminal_ttl.total() == config.transports.a2a.terminal_content_ttl_seconds
            * 1_000_000_000,
        policy.byte_ceiling == wrapped(config.transports.a2a.retained_bytes_ceiling),
        policy.low_watermark == wrapped(config.transports.a2a.retained_bytes_low_watermark),
        policy.batch == config.transports.a2a.cleanup_batch,
        policy.interval.total() == CLEANUP_INTERVAL_SECS * 1_000_000_000,
{
    let a2a = &config.transports.a2a;
    CleanupPolicy {
        terminal_ttl: Duration::from_secs(a2a.terminal_content_ttl_seconds),
        byte_ceiling: wrap(a2a.retained_bytes_ceiling),
        low_watermark: wrap(a2a.retained_bytes_low_watermark),
        batch: a2a.cleanup_batch,
        interval: Duration::from_secs(CLEANUP_INTERVAL_SECS),
    }
}

/// How long a run may go on.
#[derive(Debug, Clone, Copy, PartialEq, Eq, Structural)]
pub struct ContinuationPolicy {
    pub max_turns: u32,
    pub max_wall_time: Duration,
    pub max_inactivity: Duration,
    pub max_consecutive_no_progress: u32,
    pub max_observed_output_bytes: u64,
    pub lease_ttl: Duration,
}

/// How long a run may go on.
pub fn continuation_policy(config: &Config) -> (policy: ContinuationPolicy)
    ensures
        policy.max_turns == config.runtime.max_turns,
        policy.max_wall_time.total() == config.runtime.max_wall_seconds * 1_000_000_000,
        policy.max_inactivity.total() == config.runtime.max_inactivity_seconds * 1_000_000_000,
        policy.max_consecutive_no_progress == config.runtime.max_no_progress,
        policy.max_observed_output_bytes == config.runtime.max_output_bytes,
        policy.lease_ttl.total() == config.runtime.lease_ttl_seconds * 1_000_000_000,
{
    ContinuationPolicy {
        max_turns: config.runtime.max_turns,
        max_wall_time: Duration::from_secs(config.runtime.max_wall_seconds),
        max_inactivity: Duration::from_secs(config.runtime.max_inactivity_seconds),
        max_consecutive_no_progress: config.runtime.max_no_progress,
        max_observed_output_bytes: config.runtime.max_output_bytes,
        lease_ttl: Duration::from_secs(config.runtime.lease_ttl_seconds),
    }
}

/// What a running bridge is told.
#[derive(Debug, Clone, Copy, PartialEq, Eq, Structural)]
pub enum RunEvent {
    /// To stop; or waiting for that failed.
    Shutdown { waited: bool },
    /// To take a changed configuration over.
    HangUp,
    /// No more signals will come.
    SignalsEnded,
    /// Signals cannot be waited for.
    SignalsUnavailable,
}

/// What a running bridge does next.
#[derive(Debug, PartialEq, Eq)]
pub enum RunAction {
    /// Take a changed configuration over, and go on.
    Reload,
    /// Stop, and end with this where stopping itself does not decide.
    Stop(Result<(), AppError>),
}

/// What a running bridge does when it is told something.
pub fn run_step(event: RunEvent) -> (action: RunAction)
    ensures
        match event {
            RunEvent::HangUp => action is Reload,
            RunEvent::Shutdown { waited: true } => action matches RunAction::Stop(Ok(_)),
            RunEvent::SignalsEnded => action matches RunAction::Stop(Ok(_)),
            _ => action matches RunAction::Stop(Err(error)) && error@ == AppErrorView::Shutdown,
        },
{
    match event {
        RunEvent::HangUp => RunAction::Reload,
        RunEvent::Shutdown { waited: true } => RunAction::Stop(Ok(())),
        RunEvent::SignalsEnded => RunAction::Stop(Ok(())),
        _ => RunAction::Stop(Err(AppError::Shutdown)),
    }
}

/// What the bridge ends with: a signal that could not be waited for comes first, and
/// otherwise the stop decides.
pub fn conclude(signalled: Result<(), AppError>, stopped: Result<(), AppError>) -> (end: Result<
    (),
    AppError,
>)
    ensures
        end == (if signalled is Err {
            signalled
        } else {
            stopped
        }),
{
    match signalled {
        Err(error) => Err(error),
        Ok(()) => stopped,
    }
}

/// The place of a step in the order of starting.
pub open spec fn build_rank(step: BuildStep) -> int {
    match step {
        BuildStep::TellRecovery { .. } => -1,
        BuildStep::Dispatcher(at) => at as int,
        BuildStep::A2aPeers => 0x1_0000_0000_0000_0000,
        BuildStep::Queue => 0x1_0000_0000_0000_0001,
        BuildStep::GatewayCheck => 0x1_0000_0000_0000_0002,
        BuildStep::Recover => 0x1_0000_0000_0000_0003,
        BuildStep::MatrixRestore => 0x1_0000_0000_0000_0004,
        BuildStep::Health => 0x1_0000_0000_0000_0005,
        BuildStep::MatrixStart => 0x1_0000_0000_0000_0006,
        BuildStep::Worker => 0x1_0000_0000_0000_0007,
        BuildStep::Broadcaster => 0x1_0000_0000_0000_0008,
        BuildStep::A2aCleanup => 0x1_0000_0000_0000_0009,
        BuildStep::A2aListen => 0x1_0000_0000_0000_000a,
        BuildStep::AdapterReady => 0x1_0000_0000_0000_000b,
        BuildStep::OwnerRunning => 0x1_0000_0000_0000_000c,
    }
}

/// Whether steps are in order, all of them after `low` and up to `high`.
#[verifier::opaque]
spec fn ranked(steps: Seq<BuildStep>, low: int, high: int) -> bool {
    &&& forall|i: int| 0 <= i < steps.len() ==> low < build_rank(#[trigger] steps[i]) <= high
    &&& forall|i: int, j: int|
        0 <= i < j < steps.len() ==> build_rank(#[trigger] steps[i]) < build_rank(
            #[trigger] steps[j],
        )
}

proof fn lemma_ranked_more(
    steps: Seq<BuildStep>,
    more: Seq<BuildStep>,
    low: int,
    middle: int,
    high: int,
)
    requires
        ranked(steps, low, middle),
        ranked(more, middle, high),
        low <= middle <= high,
    ensures
        ranked(steps + more, low, high),
        (steps + more).to_set() == steps.to_set().union(more.to_set()),
{
    reveal(ranked);
    let all = steps + more;
    assert forall|i: int, j: int| 0 <= i < j < all.len() implies build_rank(#[trigger] all[i])
        < build_rank(#[trigger] all[j]) by {
        if j < steps.len() {
            assert(all[i] == steps[i] && all[j] == steps[j]);
        } else if i < steps.len() {
            assert(all[i] == steps[i] && all[j] == more[j - steps.len()]);
        } else {
            assert(all[i] == more[i - steps.len()] && all[j] == more[j - steps.len()]);
        }
    }
    assert forall|i: int| 0 <= i < all.len() implies low < build_rank(#[trigger] all[i])
        <= high by {
        if i < steps.len() {
            assert(all[i] == steps[i]);
        } else {
            assert(all[i] == more[i - steps.len()]);
        }
    }
    assert forall|step: BuildStep| #[trigger] all.contains(step) <==> (steps.contains(step)
        || more.contains(step)) by {
        if all.contains(step) {
            let k = choose|k: int| 0 <= k < all.len() && all[k] == step;
            if k < steps.len() {
                assert(steps[k] == step);
            } else {
                assert(more[k - steps.len()] == step);
            }
        }
        if steps.contains(step) {
            let k = choose|k: int| 0 <= k < steps.len() && steps[k] == step;
            assert(all[k] == step);
        }
        if more.contains(step) {
            let k = choose|k: int| 0 <= k < more.len() && more[k] == step;
            assert(all[steps.len() + k] == step);
        }
    }
    assert(all.to_set() =~= steps.to_set().union(more.to_set()));
}

proof fn lemma_ranked_one(step: BuildStep, wanted: bool)
    ensures
        ranked(where_wanted(step, wanted), build_rank(step) - 1, build_rank(step)),
        ranked(seq![step], build_rank(step) - 1, build_rank(step)),
        where_wanted(step, wanted).to_set() == (if wanted {
            set![step]
        } else {
            set![]
        }),
        seq![step].to_set() == set![step],
{
    reveal(ranked);
    assert(seq![step][0] == step);
    if wanted {
        assert(where_wanted(step, wanted)[0] == step);
        assert(where_wanted(step, wanted).to_set() =~= set![step]);
    } else {
        assert(where_wanted(step, wanted).to_set() =~= set![]);
    }
    assert(seq![step].to_set() =~= set![step]);
}

proof fn lemma_ranked_dispatchers(agents: Seq<AgentEntry>, upto: nat)
    requires
        upto <= agents.len() <= usize::MAX,
    ensures
        ranked(dispatcher_steps(agents, upto), -1, upto - 1),
        forall|step: BuildStep| #[trigger]
            dispatcher_steps(agents, upto).to_set().contains(step) <==> (step matches
                BuildStep::Dispatcher(at) && at < upto && agents[at as int].declared.enabled
                && agents[at as int].declared.transport is Acp),
    decreases upto,
{
    if upto == 0 {
        reveal(ranked);
    } else {
        let rest = dispatcher_steps(agents, (upto - 1) as nat);
        lemma_ranked_dispatchers(agents, (upto - 1) as nat);
        let own = BuildStep::Dispatcher((upto - 1) as usize);
        if dispatched(agents[upto - 1]) {
            assert(rest.push(own) =~= rest + seq![own]);
            lemma_ranked_one(own, true);
            lemma_ranked_more(rest, seq![own], -1, upto - 2, upto - 1);
        } else {
            lemma_ranked_wider(rest, -1, upto - 2, upto - 1);
        }
    }
}

proof fn lemma_ranked_wider(steps: Seq<BuildStep>, low: int, high: int, more: int)
    requires
        ranked(steps, low, high),
        high <= more,
    ensures
        ranked(steps, low, more),
{
    reveal(ranked);
}

/// What a blocked bridge builds.
proof fn lemma_built_where_blocked(config: Config)
    ensures
        ranked(build_steps(config, true), -2, 0x1_0000_0000_0000_000c),
        forall|step: BuildStep| #[trigger]
            build_steps(config, true).to_set().contains(step) <==> (match step {
                BuildStep::TellRecovery { blocked: told } => told,
                BuildStep::OwnerRunning => true,
                BuildStep::Health => config.bridge.health_bind is Some,
                _ => false,
            }),
{
    let base: int = 0x1_0000_0000_0000_0000;
    let health = config.bridge.health_bind is Some;
    let told = seq![BuildStep::TellRecovery { blocked: true }];
    lemma_ranked_one(BuildStep::TellRecovery { blocked: true }, true);
    lemma_ranked_one(BuildStep::Health, health);
    lemma_ranked_one(BuildStep::OwnerRunning, true);
    lemma_ranked_wider(told, -2, -1, base + 4);
    let first = told + where_wanted(BuildStep::Health, health);
    lemma_ranked_more(told, where_wanted(BuildStep::Health, health), -2, base + 4, base + 5);
    lemma_ranked_wider(first, -2, base + 5, base + 11);
    lemma_ranked_more(first, seq![BuildStep::OwnerRunning], -2, base + 11, base + 12);
}

/// What a bridge builds up to its recovery.
proof fn lemma_built_first(config: Config) -> (steps: Seq<BuildStep>)
    requires
        config.agents@.len() <= usize::MAX,
    ensures
        steps == seq![BuildStep::TellRecovery { blocked: false }] + dispatcher_steps(
            config.agents@,
            config.agents@.len(),
        ) + where_wanted(BuildStep::A2aPeers, config.transports.a2a.enabled) + seq![
            BuildStep::Queue,
        ] + where_wanted(BuildStep::GatewayCheck, config.transports.gateway.enabled) + seq![
            BuildStep::Recover,
        ],
        ranked(steps, -2, 0x1_0000_0000_0000_0003),
        forall|step: BuildStep| #[trigger]
            steps.to_set().contains(step) <==> (match step {
                BuildStep::TellRecovery { blocked: told } => !told,
                BuildStep::Dispatcher(at) => at < config.agents@.len()
                    && config.agents@[at as int].declared.enabled
                    && config.agents@[at as int].declared.transport is Acp,
                BuildStep::A2aPeers => config.transports.a2a.enabled,
                BuildStep::Queue => true,
                BuildStep::GatewayCheck => config.transports.gateway.enabled,
                BuildStep::Recover => true,
                _ => false,
            }),
{
    let base: int = 0x1_0000_0000_0000_0000;
    let a2a = config.transports.a2a.enabled;
    let gateway = config.transports.gateway.enabled;
    let told = seq![BuildStep::TellRecovery { blocked: false }];
    let agents = config.agents@;
    let dispatchers = dispatcher_steps(agents, agents.len());
    lemma_ranked_one(BuildStep::TellRecovery { blocked: false }, true);
    lemma_ranked_dispatchers(agents, agents.len());
    lemma_ranked_wider(dispatchers, -1, agents.len() - 1, base - 1);
    lemma_ranked_more(told, dispatchers, -2, -1, base - 1);
    let s1 = told + dispatchers;
    lemma_ranked_one(BuildStep::A2aPeers, a2a);
    lemma_ranked_more(s1, where_wanted(BuildStep::A2aPeers, a2a), -2, base - 1, base);
    let s2 = s1 + where_wanted(BuildStep::A2aPeers, a2a);
    lemma_ranked_one(BuildStep::Queue, true);
    lemma_ranked_more(s2, seq![BuildStep::Queue], -2, base, base + 1);
    let s3 = s2 + seq![BuildStep::Queue];
    lemma_ranked_one(BuildStep::GatewayCheck, gateway);
    lemma_ranked_more(s3, where_wanted(BuildStep::GatewayCheck, gateway), -2, base + 1, base + 2);
    let s4 = s3 + where_wanted(BuildStep::GatewayCheck, gateway);
    lemma_ranked_one(BuildStep::Recover, true);
    lemma_ranked_more(s4, seq![BuildStep::Recover], -2, base + 2, base + 3);
    s4 + seq![BuildStep::Recover]
}

/// What a bridge builds from there up to its events.
proof fn lemma_built_next(s5: Seq<BuildStep>, matrix: bool, health: bool) -> (steps: Seq<
    BuildStep,
>)
    requires
        ranked(s5, -2, 0x1_0000_0000_0000_0003),
    ensures
        steps == s5 + where_wanted(BuildStep::MatrixRestore, matrix) + where_wanted(
            BuildStep::Health,
            health,
        ) + where_wanted(BuildStep::MatrixStart, matrix) + seq![BuildStep::Worker] + seq![
            BuildStep::Broadcaster,
        ],
        ranked(steps, -2, 0x1_0000_0000_0000_0008),
        forall|step: BuildStep| #[trigger]
            steps.to_set().contains(step) <==> (s5.to_set().contains(step) || (match step {
                BuildStep::MatrixRestore => matrix,
                BuildStep::Health => health,
                BuildStep::MatrixStart => matrix,
                BuildStep::Worker => true,
                BuildStep::Broadcaster => true,
                _ => false,
            })),
{
    let base: int = 0x1_0000_0000_0000_0000;
    lemma_ranked_one(BuildStep::MatrixRestore, matrix);
    lemma_ranked_more(s5, where_wanted(BuildStep::MatrixRestore, matrix), -2, base + 3, base + 4);
    let s6 = s5 + where_wanted(BuildStep::MatrixRestore, matrix);
    lemma_ranked_one(BuildStep::Health, health);
    lemma_ranked_more(s6, where_wanted(BuildStep::Health, health), -2, base + 4, base + 5);
    let s7 = s6 + where_wanted(BuildStep::Health, health);
    lemma_ranked_one(BuildStep::MatrixStart, matrix);
    lemma_ranked_more(s7, where_wanted(BuildStep::MatrixStart, matrix), -2, base + 5, base + 6);
    let s8 = s7 + where_wanted(BuildStep::MatrixStart, matrix);
    lemma_ranked_one(BuildStep::Worker, true);
    lemma_ranked_more(s8, seq![BuildStep::Worker], -2, base + 6, base + 7);
    let s9 = s8 + seq![BuildStep::Worker];
    lemma_ranked_one(BuildStep::Broadcaster, true);
    lemma_ranked_more(s9, seq![BuildStep::Broadcaster], -2, base + 7, base + 8);
    s9 + seq![BuildStep::Broadcaster]
}

/// What a bridge builds last.
proof fn lemma_built_last(s10: Seq<BuildStep>, a2a: bool) -> (steps: Seq<BuildStep>)
    requires
        ranked(s10, -2, 0x1_0000_0000_0000_0008),
    ensures
        steps == s10 + where_wanted(BuildStep::A2aCleanup, a2a) + where_wanted(
            BuildStep::A2aListen,
            a2a,
        ) + seq![BuildStep::AdapterReady] + seq![BuildStep::OwnerRunning],
        ranked(steps, -2, 0x1_0000_0000_0000_000c),
        forall|step: BuildStep| #[trigger]
            steps.to_set().contains(step) <==> (s10.to_set().contains(step) || (match step {
                BuildStep::A2aCleanup => a2a,
                BuildStep::A2aListen => a2a,
                BuildStep::AdapterReady => true,
                BuildStep::OwnerRunning => true,
                _ => false,
            })),
{
    let base: int = 0x1_0000_0000_0000_0000;
    lemma_ranked_one(BuildStep::A2aCleanup, a2a);
    lemma_ranked_more(s10, where_wanted(BuildStep::A2aCleanup, a2a), -2, base + 8, base + 9);
    let s11 = s10 + where_wanted(BuildStep::A2aCleanup, a2a);
    lemma_ranked_one(BuildStep::A2aListen, a2a);
    lemma_ranked_more(s11, where_wanted(BuildStep::A2aListen, a2a), -2, base + 9, base + 10);
    let s12 = s11 + where_wanted(BuildStep::A2aListen, a2a);
    lemma_ranked_one(BuildStep::AdapterReady, true);
    lemma_ranked_more(s12, seq![BuildStep::AdapterReady], -2, base + 10, base + 11);
    let s13 = s12 + seq![BuildStep::AdapterReady];
    lemma_ranked_one(BuildStep::OwnerRunning, true);
    lemma_ranked_more(s13, seq![BuildStep::OwnerRunning], -2, base + 11, base + 12);
    s13 + seq![BuildStep::OwnerRunning]
}

/// What is built, and in which order. A bridge that is not blocked builds a dispatcher for
/// every enabled agent that is a process, and every other part where its transport or its
/// listener is configured; one that is blocked builds only its health listener. Whatever
/// is built is built once, in the order of the parts.
pub proof fn law_each_part_is_built_where_it_is_wanted(config: Config, blocked: bool)
    requires
        config.agents@.len() <= usize::MAX,
    ensures
        forall|step: BuildStep| #[trigger]
            build_steps(config, blocked).contains(step) <==> (match step {
                BuildStep::TellRecovery { blocked: told } => told == blocked,
                BuildStep::OwnerRunning => true,
                BuildStep::Health => config.bridge.health_bind is Some,
                BuildStep::Dispatcher(at) => !blocked && at < config.agents@.len()
                    && config.agents@[at as int].declared.enabled
                    && config.agents@[at as int].declared.transport is Acp,
                BuildStep::A2aPeers => !blocked && config.transports.a2a.enabled,
                BuildStep::A2aCleanup => !blocked && config.transports.a2a.enabled,
                BuildStep::A2aListen => !blocked && config.transports.a2a.enabled,
                BuildStep::GatewayCheck => !blocked && config.transports.gateway.enabled,
                BuildStep::MatrixRestore => !blocked && config.transports.matrix.enabled,
                BuildStep::MatrixStart => !blocked && config.transports.matrix.enabled,
                _ => !blocked,
            }),
        forall|i: int, j: int|
            0 <= i < j < build_steps(config, blocked).len() ==> build_rank(
                #[trigger] build_steps(config, blocked)[i],
            ) < build_rank(#[trigger] build_steps(config, blocked)[j]),
{
    if blocked {
        lemma_built_where_blocked(config);
    } else {
        let first = lemma_built_first(config);
        let matrix = config.transports.matrix.enabled;
        let next = lemma_built_next(first, matrix, config.bridge.health_bind is Some);
        let all = lemma_built_last(next, config.transports.a2a.enabled);
        assert(all == build_steps(config, false));
    }
    assert forall|step: BuildStep| #[trigger] build_steps(config, blocked).contains(
        step,
    ) <==> build_steps(config, blocked).to_set().contains(step) by {}
    reveal(ranked);
}

/// A bridge may take tasks where it owns the runtime's record, the queue holds what was
/// stored, and nothing of an earlier run is open; and only there.
pub proof fn law_only_a_clean_restart_takes_tasks(facts: RecoveryFacts)
    ensures
        !facts.blocks() <==> {
            &&& facts.owns_runtime
            &&& !facts.admissions_blocked
            &&& facts.eligible <= facts.queue_capacity
            &&& facts.unfinished == 0
            &&& facts.ready_turns == 0
            &&& facts.ambiguous_turns == 0
            &&& facts.active_leases == 0
            &&& facts.recovery_needed_leases == 0
            &&& facts.recovery_backlog == 0
        },
{
}

/// The unfinished tasks that nothing covers are those whose ids are not among the covered
/// ones, in their order.
pub proof fn law_uncovered_tasks_are_the_others(unfinished: Seq<TaskId>, covered: Seq<Seq<char>>)
    ensures
        not_covered(unfinished, covered) == unfinished.filter(
            |id: TaskId| !covered.contains(hyphenated(id.bits())),
        ),
    decreases unfinished.len(),
{
    reveal(Seq::filter);
    if unfinished.len() > 0 {
        law_uncovered_tasks_are_the_others(unfinished.drop_last(), covered);
    }
}

/// A step that fails is reported as its own failure, where it has one, and with its reason
/// otherwise.
pub proof fn law_a_failed_step_is_reported_as_its_own(step: BuildStep, reason: AppErrorView)
    ensures
        step is A2aPeers ==> step_failure(step, reason) == AppErrorView::Assembly(
            "A2A peer startup failed"@,
        ),
        step is Queue ==> step_failure(step, reason) == AppErrorView::Assembly(
            "default timeout is out of range"@,
        ),
        step is GatewayCheck ==> step_failure(step, reason) == AppErrorView::Assembly(
            "gateway retained-byte validation failed"@,
        ),
        step is MatrixRestore ==> step_failure(step, reason) == AppErrorView::Matrix,
        step is Health ==> step_failure(step, reason) == AppErrorView::Health,
        step is A2aCleanup ==> step_failure(step, reason) == AppErrorView::Assembly(
            "A2A cleanup startup failed"@,
        ),
        step is A2aListen ==> step_failure(step, reason) == AppErrorView::Assembly(
            "A2A listener startup failed"@,
        ),
        step is TellRecovery || step is Dispatcher || step is Recover || step is MatrixStart || step
            is Worker || step is Broadcaster || step is AdapterReady || step is OwnerRunning
            ==> step_failure(step, reason) == reason,
{
}

/// The peers that are not checked are those that are configured so; and a byte count that
/// is stored is the configured one, as far as the store can hold it.
pub proof fn law_settings_are_taken_as_configured(peers: Seq<PeerEntry>, value: u64)
    ensures
        insecure(peers) == peers.filter(
            |entry: PeerEntry| entry.peer.danger_accept_invalid_certs,
        ).len(),
        value <= i64::MAX ==> wrapped(value) == value,
        i64::MIN <= wrapped(value) <= i64::MAX,
        (value - wrapped(value)) % 0x1_0000_0000_0000_0000 == 0,
    decreases peers.len(),
{
    reveal(Seq::filter);
    if peers.len() > 0 {
        law_settings_are_taken_as_configured(peers.drop_last(), value);
    }
}

/// How much is taken up, sent and cleaned at once, and how often.
pub proof fn law_the_bridges_own_bounds()
    ensures
        RECOVERY_LIMIT == 4096,
        CLEANUP_INTERVAL_SECS == 60,
        OUTBOX_INTERVAL_SECS == 1,
        OUTBOX_BATCH == 64,
{
}

} // verus!
