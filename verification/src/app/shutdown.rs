//! Stopping the bridge, part by part.
//!
//! Every part that runs is stopped, in a fixed order, whatever the others do. The
//! runtime's record is closed only after a stop without a failure, so that an
//! unclean stop is found at the next start.

use vstd::prelude::*;

use crate::app::error::AppError;
use crate::app::error::AppErrorView;

verus! {

/// What is stopped, in this order.
#[derive(Debug, Clone, Copy, PartialEq, Eq, Structural)]
pub enum Part {
    /// The runtime's record says that it is stopping.
    RuntimeStopping,
    /// No configuration is taken over any more.
    Reload,
    /// The messages from Matrix.
    Ingress,
    /// The bus.
    Bus,
    /// The worker.
    Worker,
    /// The events.
    Broadcaster,
    /// The agent processes.
    Acp,
    /// The A2A listener.
    A2aServer,
    /// The cleanup of exchanges.
    A2aCleanup,
    /// The cleanup of the gateway.
    GatewayCleanup,
    /// The outbox.
    Outbox,
    /// The gateway.
    Gateway,
    /// The synchronisation with Matrix.
    MatrixSync,
    /// The health listener.
    Health,
    /// The owner says that it has stopped.
    OwnerStopped,
    /// The runtime's record says that it has stopped.
    RuntimeStopped,
    /// The store.
    Pool,
}

/// How many parts there are.
pub const PARTS: usize = 17;

/// The part at a place in the order.
pub open spec fn nth_part(at: int) -> Part {
    if at == 0 {
        Part::RuntimeStopping
    } else if at == 1 {
        Part::Reload
    } else if at == 2 {
        Part::Ingress
    } else if at == 3 {
        Part::Bus
    } else if at == 4 {
        Part::Worker
    } else if at == 5 {
        Part::Broadcaster
    } else if at == 6 {
        Part::Acp
    } else if at == 7 {
        Part::A2aServer
    } else if at == 8 {
        Part::A2aCleanup
    } else if at == 9 {
        Part::GatewayCleanup
    } else if at == 10 {
        Part::Outbox
    } else if at == 11 {
        Part::Gateway
    } else if at == 12 {
        Part::MatrixSync
    } else if at == 13 {
        Part::Health
    } else if at == 14 {
        Part::OwnerStopped
    } else if at == 15 {
        Part::RuntimeStopped
    } else {
        Part::Pool
    }
}

/// The part at a place in the order.
fn part_at(at: usize) -> (part: Part)
    ensures
        part == nth_part(at as int),
{
    match at {
        0 => Part::RuntimeStopping,
        1 => Part::Reload,
        2 => Part::Ingress,
        3 => Part::Bus,
        4 => Part::Worker,
        5 => Part::Broadcaster,
        6 => Part::Acp,
        7 => Part::A2aServer,
        8 => Part::A2aCleanup,
        9 => Part::GatewayCleanup,
        10 => Part::Outbox,
        11 => Part::Gateway,
        12 => Part::MatrixSync,
        13 => Part::Health,
        14 => Part::OwnerStopped,
        15 => Part::RuntimeStopped,
        _ => Part::Pool,
    }
}

/// Which parts run.
#[derive(Debug, Clone, Copy, PartialEq, Eq, Structural)]
pub struct Running {
    /// Whether the runtime's record is this bridge's own.
    pub runtime: bool,
    pub ingress: bool,
    pub bus: bool,
    pub worker: bool,
    pub broadcaster: bool,
    pub acp: bool,
    pub a2a_server: bool,
    pub a2a_cleanup: bool,
    pub gateway_cleanup: bool,
    pub outbox: bool,
    pub gateway: bool,
    pub matrix_sync: bool,
    pub health: bool,
    pub pool: bool,
}

impl Running {
    /// Whether a part runs, or is told in any case.
    pub open spec fn has_part(self, part: Part) -> bool {
        match part {
            Part::RuntimeStopping => self.runtime,
            Part::Reload => true,
            Part::Ingress => self.ingress,
            Part::Bus => self.bus,
            Part::Worker => self.worker,
            Part::Broadcaster => self.broadcaster,
            Part::Acp => self.acp,
            Part::A2aServer => self.a2a_server,
            Part::A2aCleanup => self.a2a_cleanup,
            Part::GatewayCleanup => self.gateway_cleanup,
            Part::Outbox => self.outbox,
            Part::Gateway => self.gateway,
            Part::MatrixSync => self.matrix_sync,
            Part::Health => self.health,
            Part::OwnerStopped => true,
            Part::RuntimeStopped => self.runtime,
            Part::Pool => self.pool,
        }
    }

    /// Whether a part runs, or is told in any case.
    fn runs(&self, part: Part) -> (yes: bool)
        ensures
            yes == self.has_part(part),
    {
        match part {
            Part::RuntimeStopping => self.runtime,
            Part::Reload => true,
            Part::Ingress => self.ingress,
            Part::Bus => self.bus,
            Part::Worker => self.worker,
            Part::Broadcaster => self.broadcaster,
            Part::Acp => self.acp,
            Part::A2aServer => self.a2a_server,
            Part::A2aCleanup => self.a2a_cleanup,
            Part::GatewayCleanup => self.gateway_cleanup,
            Part::Outbox => self.outbox,
            Part::Gateway => self.gateway,
            Part::MatrixSync => self.matrix_sync,
            Part::Health => self.health,
            Part::OwnerStopped => true,
            Part::RuntimeStopped => self.runtime,
            Part::Pool => self.pool,
        }
    }
}

/// How a part stopped.
#[derive(Debug, Clone, Copy, PartialEq, Eq, Structural)]
pub enum Stopped {
    /// As it should.
    Cleanly,
    /// With a failure of its own.
    Failed,
    /// Nobody knows how: its task could not be joined.
    Lost,
    /// Not in time, and was ended.
    TimedOut,
}

/// The failure that is there, or else this one.
pub open spec fn or_blame(error: Option<AppErrorView>, own: AppErrorView) -> Option<AppErrorView> {
    match error {
        Some(error) => Some(error),
        None => Some(own),
    }
}

/// The failure to report after a part stopped. A worker that failed and events that
/// did not drain are reported before anything else, as is the runtime's record; the
/// first of the other failures is reported otherwise. Of some parts nothing is.
pub open spec fn blamed(error: Option<AppErrorView>, part: Part, how: Stopped) -> Option<
    AppErrorView,
> {
    if how is Cleanly {
        error
    } else {
        match part {
            Part::RuntimeStopping => Some(AppErrorView::Runtime),
            Part::Worker => Some(
                AppErrorView::Assembly(
                    match how {
                        Stopped::Lost => "worker join failed"@,
                        Stopped::TimedOut => "worker shutdown timed out"@,
                        _ => "worker failed"@,
                    },
                ),
            ),
            Part::Broadcaster => if how is TimedOut {
                Some(AppErrorView::Assembly("event drain timed out"@))
            } else {
                or_blame(error, AppErrorView::Assembly("event owner join failed"@))
            },
            Part::A2aServer => or_blame(error, AppErrorView::Assembly("A2A server join failed"@)),
            Part::A2aCleanup => or_blame(error, AppErrorView::Assembly("A2A cleanup join failed"@)),
            Part::GatewayCleanup => or_blame(
                error,
                AppErrorView::Assembly("gateway cleanup join failed"@),
            ),
            Part::Outbox => or_blame(error, AppErrorView::Assembly("outbox owner join failed"@)),
            Part::Health => or_blame(error, AppErrorView::Health),
            Part::RuntimeStopped => Some(AppErrorView::Runtime),
            _ => error,
        }
    }
}

/// Whether a part is stopped next: it runs, and the runtime's record is closed only
/// where nothing has failed.
pub open spec fn due(running: Running, error: Option<AppErrorView>, part: Part) -> bool {
    running.has_part(part) && (part is RuntimeStopped ==> error is None)
}

/// The next place in the order, from `at` on, whose part is stopped; [`PARTS`] where
/// there is none.
pub open spec fn next_due(running: Running, error: Option<AppErrorView>, at: int) -> int
    decreases PARTS - at,
{
    if at >= PARTS {
        PARTS as int
    } else if due(running, error, nth_part(at)) {
        at
    } else {
        next_due(running, error, at + 1)
    }
}

/// A failure as data.
pub open spec fn error_view(error: Option<AppError>) -> Option<AppErrorView> {
    match error {
        Some(error) => Some(error@),
        None => None,
    }
}

/// What to do next to stop the bridge.
#[derive(Debug, PartialEq, Eq)]
pub enum ShutdownAction {
    /// Stop this part.
    Stop(Part),
    /// The bridge has stopped.
    Finished(Result<(), AppError>),
}

/// What follows when the parts before `at` have stopped.
pub open spec fn shutdown_at(
    running: Running,
    error: Option<AppErrorView>,
    at: int,
    action: ShutdownAction,
) -> bool {
    if next_due(running, error, at) < PARTS {
        action == ShutdownAction::Stop(nth_part(next_due(running, error, at)))
    } else {
        action matches ShutdownAction::Finished(result) && match result {
            Ok(_) => error is None,
            Err(own) => error == Some(own@),
        }
    }
}

/// The bridge on its way to a stop.
#[derive(Debug)]
pub struct ShutdownRun {
    running: Running,
    error: Option<AppError>,
    at: usize,
}

/// The failure that is there, or else this one.
fn or_error(error: Option<AppError>, own: AppError) -> (blame: Option<AppError>)
    ensures
        error_view(blame) == or_blame(error_view(error), own@),
{
    match error {
        Some(error) => Some(error),
        None => Some(own),
    }
}

/// The failure to report after a part stopped.
fn blame(error: Option<AppError>, part: Part, how: Stopped) -> (blame: Option<AppError>)
    ensures
        error_view(blame) == blamed(error_view(error), part, how),
{
    if matches!(how, Stopped::Cleanly) {
        return error;
    }
    match part {
        Part::RuntimeStopping => Some(AppError::Runtime),
        Part::Worker => Some(
            AppError::Assembly(
                match how {
                    Stopped::Lost => "worker join failed",
                    Stopped::TimedOut => "worker shutdown timed out",
                    _ => "worker failed",
                },
            ),
        ),
        Part::Broadcaster => if matches!(how, Stopped::TimedOut) {
            Some(AppError::Assembly("event drain timed out"))
        } else {
            or_error(error, AppError::Assembly("event owner join failed"))
        },
        Part::A2aServer => or_error(error, AppError::Assembly("A2A server join failed")),
        Part::A2aCleanup => or_error(error, AppError::Assembly("A2A cleanup join failed")),
        Part::GatewayCleanup => or_error(error, AppError::Assembly("gateway cleanup join failed")),
        Part::Outbox => or_error(error, AppError::Assembly("outbox owner join failed")),
        Part::Health => or_error(error, AppError::Health),
        Part::RuntimeStopped => Some(AppError::Runtime),
        _ => error,
    }
}

/// The next place is one.
proof fn lemma_next_due(running: Running, error: Option<AppErrorView>, at: int)
    requires
        0 <= at,
    ensures
        next_due(running, error, at) <= PARTS,
        at <= PARTS ==> at <= next_due(running, error, at),
        next_due(running, error, at) < PARTS ==> due(
            running,
            error,
            nth_part(next_due(running, error, at)),
        ),
        forall|k: int| at <= k < next_due(running, error, at) ==> !due(running, error, #[trigger] nth_part(k)),
    decreases PARTS - at,
{
    if at < PARTS && !due(running, error, nth_part(at)) {
        lemma_next_due(running, error, at + 1);
    }
}

impl ShutdownRun {
    /// Which parts run.
    pub closed spec fn running(&self) -> Running {
        self.running
    }

    /// The failure to report so far.
    pub closed spec fn error(&self) -> Option<AppErrorView> {
        error_view(self.error)
    }

    /// The place of the part that is being stopped.
    pub closed spec fn place(&self) -> int {
        self.at as int
    }

    /// Begin to stop the parts that run.
    pub fn begin(running: Running) -> (run: (ShutdownRun, ShutdownAction))
        ensures
            run.0.running() == running,
            run.0.error() is None,
            run.0.place() == next_due(running, None, 0),
            shutdown_at(running, None, 0, run.1),
    {
        let mut run = ShutdownRun { running, error: None, at: 0 };
        let action = run.go_on();
        (run, action)
    }

    /// Go on to the next part from the current place on.
    fn go_on(&mut self) -> (action: ShutdownAction)
        requires
            old(self).place() <= PARTS,
        ensures
            final(self).running() == old(self).running(),
            final(self).error() == old(self).error(),
            final(self).place() == next_due(
                old(self).running(),
                old(self).error(),
                old(self).place(),
            ),
            shutdown_at(old(self).running(), old(self).error(), old(self).place(), action),
    {
        while self.at < PARTS
            invariant
                self.at <= PARTS,
                self.running() == old(self).running(),
                self.error == old(self).error,
                next_due(self.running(), self.error(), self.at as int) == next_due(
                    old(self).running(),
                    old(self).error(),
                    old(self).place(),
                ),
            decreases PARTS - self.at,
        {
            let part = part_at(self.at);
            let held_back = matches!(part, Part::RuntimeStopped) && self.error.is_some();
            if self.running.runs(part) && !held_back {
                return ShutdownAction::Stop(part);
            }
            self.at = self.at + 1;
        }
        match self.error {
            Some(error) => ShutdownAction::Finished(Err(error)),
            None => ShutdownAction::Finished(Ok(())),
        }
    }

    /// The part that was to stop has stopped.
    pub fn step(&mut self, how: Stopped) -> (action: ShutdownAction)
        requires
            old(self).place() < PARTS,
        ensures
            final(self).running() == old(self).running(),
            final(self).error() == blamed(old(self).error(), nth_part(old(self).place()), how),
            final(self).place() == next_due(
                old(self).running(),
                final(self).error(),
                old(self).place() + 1,
            ),
            shutdown_at(
                old(self).running(),
                final(self).error(),
                old(self).place() + 1,
                action,
            ),
    {
        self.error = blame(self.error, part_at(self.at), how);
        self.at = self.at + 1;
        self.go_on()
    }

    /// Whether the bridge has stopped.
    pub fn is_finished(&self) -> (finished: bool)
        ensures
            finished == (self.place() >= PARTS),
    {
        self.at >= PARTS
    }
}

/// The failure to report once the parts from `at` on have stopped as `how` says.
pub open spec fn error_at_end(
    running: Running,
    how: spec_fn(Part) -> Stopped,
    error: Option<AppErrorView>,
    at: int,
) -> Option<AppErrorView>
    decreases PARTS - at,
{
    if at >= PARTS {
        error
    } else if due(running, error, nth_part(at)) {
        error_at_end(running, how, blamed(error, nth_part(at), how(nth_part(at))), at + 1)
    } else {
        error_at_end(running, how, error, at + 1)
    }
}

/// Whether the runtime's record is closed, where the parts stop as `how` says.
pub open spec fn closes_record(
    running: Running,
    how: spec_fn(Part) -> Stopped,
    error: Option<AppErrorView>,
    at: int,
) -> bool
    decreases PARTS - at,
{
    if at >= PARTS {
        false
    } else if due(running, error, nth_part(at)) {
        nth_part(at) is RuntimeStopped || closes_record(
            running,
            how,
            blamed(error, nth_part(at), how(nth_part(at))),
            at + 1,
        )
    } else {
        closes_record(running, how, error, at + 1)
    }
}

/// A failure is never forgotten.
proof fn lemma_failures_stay(
    running: Running,
    how: spec_fn(Part) -> Stopped,
    error: Option<AppErrorView>,
    at: int,
)
    requires
        0 <= at,
        error is Some,
    ensures
        error_at_end(running, how, error, at) is Some,
        !closes_record(running, how, error, at),
    decreases PARTS - at,
{
    if at < PARTS {
        if due(running, error, nth_part(at)) {
            lemma_failures_stay(
                running,
                how,
                blamed(error, nth_part(at), how(nth_part(at))),
                at + 1,
            );
        } else {
            lemma_failures_stay(running, how, error, at + 1);
        }
    }
}

/// The runtime's record is closed exactly where it is this bridge's own and everything
/// that is stopped before it stopped without a failure to report; and a failure that
/// shows at any part is what the stop ends with, or another one is.
pub proof fn law_an_unclean_stop_keeps_the_record_open(
    running: Running,
    how: spec_fn(Part) -> Stopped,
    error: Option<AppErrorView>,
    at: int,
)
    requires
        0 <= at <= 15,
    ensures
        closes_record(running, how, error, at) ==> running.runtime && error is None,
        error_at_end(running, how, error, at) is None ==> (running.runtime ==> closes_record(
            running,
            how,
            error,
            at,
        )),
        error is Some ==> error_at_end(running, how, error, at) is Some,
    decreases PARTS - at,
{
    if error is Some {
        lemma_failures_stay(running, how, error, at);
    } else if at == 15 {
        assert(nth_part(15) is RuntimeStopped);
        assert(nth_part(16) is Pool);
        reveal_with_fuel(closes_record, 3);
        reveal_with_fuel(error_at_end, 3);
    } else {
        if due(running, error, nth_part(at)) {
            law_an_unclean_stop_keeps_the_record_open(
                running,
                how,
                blamed(error, nth_part(at), how(nth_part(at))),
                at + 1,
            );
        } else {
            law_an_unclean_stop_keeps_the_record_open(running, how, error, at + 1);
        }
    }
}

/// Every part that runs is stopped, whatever the others did: no part but the
/// runtime's record is held back.
pub proof fn law_every_running_part_is_stopped(
    running: Running,
    error: Option<AppErrorView>,
    at: int,
    skipped: int,
)
    requires
        0 <= at <= skipped < next_due(running, error, at),
    ensures
        !running.has_part(nth_part(skipped)) || nth_part(skipped) is RuntimeStopped,
{
    lemma_next_due(running, error, at);
}

/// The parts are stopped in this order: nothing is taken in any more before the bus goes,
/// the bus before the worker, the worker before its events and its agents, and the store
/// last of all.
pub proof fn law_parts_are_stopped_in_order(at: int)
    requires
        0 <= at < PARTS,
    ensures
        at == (match nth_part(at) {
            Part::RuntimeStopping => 0int,
            Part::Reload => 1,
            Part::Ingress => 2,
            Part::Bus => 3,
            Part::Worker => 4,
            Part::Broadcaster => 5,
            Part::Acp => 6,
            Part::A2aServer => 7,
            Part::A2aCleanup => 8,
            Part::GatewayCleanup => 9,
            Part::Outbox => 10,
            Part::Gateway => 11,
            Part::MatrixSync => 12,
            Part::Health => 13,
            Part::OwnerStopped => 14,
            Part::RuntimeStopped => 15,
            Part::Pool => 16,
        }),
{
}

/// A part is due where it runs. The record of the runtime is closed only where it is this
/// bridge's own and nothing went wrong before; that nothing is reloaded any more, and that
/// the owner has stopped, is always told.
pub proof fn law_what_runs_is_due(running: Running, error: Option<AppErrorView>)
    ensures
        due(running, error, Part::RuntimeStopping) == running.runtime,
        due(running, error, Part::Reload),
        due(running, error, Part::Ingress) == running.ingress,
        due(running, error, Part::Bus) == running.bus,
        due(running, error, Part::Worker) == running.worker,
        due(running, error, Part::Broadcaster) == running.broadcaster,
        due(running, error, Part::Acp) == running.acp,
        due(running, error, Part::A2aServer) == running.a2a_server,
        due(running, error, Part::A2aCleanup) == running.a2a_cleanup,
        due(running, error, Part::GatewayCleanup) == running.gateway_cleanup,
        due(running, error, Part::Outbox) == running.outbox,
        due(running, error, Part::Gateway) == running.gateway,
        due(running, error, Part::MatrixSync) == running.matrix_sync,
        due(running, error, Part::Health) == running.health,
        due(running, error, Part::OwnerStopped),
        due(running, error, Part::RuntimeStopped) == (running.runtime && error is None),
        due(running, error, Part::Pool) == running.pool,
{
}

/// What a stop is blamed on. A part that ends cleanly changes nothing, and neither does one
/// that nobody waits for; the worker, the record of the runtime and events that do not
/// drain in time are blamed whatever was blamed before; any other part only where nothing
/// was.
pub proof fn law_a_failed_part_is_blamed(
    error: Option<AppErrorView>,
    part: Part,
    how: Stopped,
)
    ensures
        how is Cleanly ==> blamed(error, part, how) == error,
        part is Reload || part is Ingress || part is Bus || part is Acp || part is Gateway || part
            is MatrixSync || part is OwnerStopped || part is Pool ==> blamed(error, part, how)
            == error,
        !(how is Cleanly) ==> {
            &&& part is RuntimeStopping || part is RuntimeStopped ==> blamed(error, part, how)
                == Some(AppErrorView::Runtime)
            &&& part is Worker ==> blamed(error, part, how) == Some(
                AppErrorView::Assembly(
                    if how is Lost {
                        "worker join failed"@
                    } else if how is TimedOut {
                        "worker shutdown timed out"@
                    } else {
                        "worker failed"@
                    },
                ),
            )
            &&& part is Broadcaster && how is TimedOut ==> blamed(error, part, how) == Some(
                AppErrorView::Assembly("event drain timed out"@),
            )
            &&& error is Some && (part is A2aServer || part is A2aCleanup || part is GatewayCleanup
                || part is Outbox || part is Health || (part is Broadcaster && !(how is TimedOut)))
                ==> blamed(error, part, how) == error
            &&& error is None ==> {
                &&& part is Broadcaster && !(how is TimedOut) ==> blamed(error, part, how) == Some(
                    AppErrorView::Assembly("event owner join failed"@),
                )
                &&& part is A2aServer ==> blamed(error, part, how) == Some(
                    AppErrorView::Assembly("A2A server join failed"@),
                )
                &&& part is A2aCleanup ==> blamed(error, part, how) == Some(
                    AppErrorView::Assembly("A2A cleanup join failed"@),
                )
                &&& part is GatewayCleanup ==> blamed(error, part, how) == Some(
                    AppErrorView::Assembly("gateway cleanup join failed"@),
                )
                &&& part is Outbox ==> blamed(error, part, how) == Some(
                    AppErrorView::Assembly("outbox owner join failed"@),
                )
                &&& part is Health ==> blamed(error, part, how) == Some(AppErrorView::Health)
            }
        },
{
}

/// A stop goes on to the next part that is due, and ends with what it is blamed on once
/// none is left.
pub proof fn law_a_stop_goes_to_the_next_part_due(
    running: Running,
    error: Option<AppErrorView>,
    at: int,
    action: ShutdownAction,
)
    requires
        0 <= at <= PARTS,
        shutdown_at(running, error, at, action),
    ensures
        match action {
            ShutdownAction::Stop(part) => exists|k: int|
                at <= k < PARTS && part == #[trigger] nth_part(k) && due(running, error, part)
                    && forall|j: int|
                    at <= j < k ==> !due(running, error, #[trigger] nth_part(j)),
            ShutdownAction::Finished(result) => {
                &&& forall|j: int| at <= j < PARTS ==> !due(running, error, #[trigger] nth_part(j))
                &&& result is Ok <==> error is None
                &&& result matches Err(own) ==> error == Some(own@)
            },
        },
{
    lemma_next_due(running, error, at);
}

} // verus!
