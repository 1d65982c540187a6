//! Taking up the admissions that an earlier run stored.
//!
//! Each is claimed for this run before it is enqueued, and its claim is released
//! where it cannot be. One that came through the gateway is handed over by it.

use vstd::prelude::*;
use vstd::string::*;

use crate::app::error::AppError;
use crate::app::error::AppErrorView;
use crate::ids::parsed_uuid;
use crate::ids::TaskId;
use crate::models::AgentTask;
use crate::text::same_text;

verus! {

/// A stored admission that can be taken up.
#[derive(Debug, Clone, PartialEq, Eq)]
pub struct EligibleAdmission {
    pub task_id: String,
    pub revision: i64,
}

/// Where taking up is.
pub ghost enum RecoveryStage {
    AwaitTask(nat),
    AwaitGateway(nat, AgentTask),
    AwaitHandoff(nat),
    AwaitState(nat, AgentTask),
    AwaitClaimed(nat, AgentTask),
    AwaitEnqueued(nat),
    AwaitReleased(nat),
    Done,
}

/// What came of an action.
pub enum RecoveryInput {
    /// The task, where it is still there.
    Task(Result<Option<AgentTask>, AppError>),
    /// Whether the task came through the gateway; nothing where the store failed.
    Gateway(Option<bool>),
    /// Whether the gateway handed the task over.
    HandedOver(bool),
    /// The state of the admission; nothing where the store failed.
    State(Option<Option<String>>),
    /// Whether the admission was claimed; nothing where the store failed.
    Claimed(Option<bool>),
    /// Whether the task was enqueued.
    Enqueued(bool),
    /// The claim was released, or could not be.
    Released,
}

/// What to do next. Whatever is asked of the store about an admission is asked under the
/// text that the store holds for its task.
pub enum RecoveryAction {
    /// Read the task.
    Read(TaskId),
    /// Ask whether the task came through the gateway.
    AskGateway(String),
    /// Let the gateway hand the task over.
    HandOver { task: AgentTask, revision: i64 },
    /// Read the state of the admission.
    ReadState(String),
    /// Claim an admission that is ready.
    Claim { task_id: String, revision: i64 },
    /// Claim an admission that a stopped run had claimed.
    Reclaim { task_id: String, revision: i64 },
    /// Enqueue the task.
    Enqueue(AgentTask),
    /// Release the claim.
    Release { task_id: String, revision: i64 },
    /// Everything was taken up.
    Recovered,
    /// Taking up failed.
    Failed(AppError),
}

/// The admission `at`, or the end. One whose task cannot be named is a failure.
pub open spec fn recovery_at(
    eligible: Seq<EligibleAdmission>,
    at: nat,
    after: RecoveryStage,
    action: RecoveryAction,
) -> bool {
    if at >= eligible.len() {
        after is Done && action is Recovered
    } else {
        match parsed_uuid(eligible[at as int].task_id@) {
            None => recovery_failed(after, action, AppErrorView::Runtime),
            Some(bits) => after == RecoveryStage::AwaitTask(at) && (action matches
                RecoveryAction::Read(task_id) && task_id.bits() == bits),
        }
    }
}

/// Taking up ends with a failure.
pub open spec fn recovery_failed(
    after: RecoveryStage,
    action: RecoveryAction,
    fault: AppErrorView,
) -> bool {
    after is Done && (action matches RecoveryAction::Failed(error) && error@ == fault)
}

/// Whether `input` answers what is waited for.
pub open spec fn recovery_expects(stage: RecoveryStage, input: RecoveryInput) -> bool {
    match stage {
        RecoveryStage::AwaitTask(_) => input is Task,
        RecoveryStage::AwaitGateway(_, _) => input is Gateway,
        RecoveryStage::AwaitHandoff(_) => input is HandedOver,
        RecoveryStage::AwaitState(_, _) => input is State,
        RecoveryStage::AwaitClaimed(_, _) => input is Claimed,
        RecoveryStage::AwaitEnqueued(_) => input is Enqueued,
        RecoveryStage::AwaitReleased(_) => input is Released,
        RecoveryStage::Done => false,
    }
}

/// Whether `task_id` is what the store holds for the task of the admission `at`.
pub open spec fn names(eligible: Seq<EligibleAdmission>, at: nat, task_id: String) -> bool {
    task_id@ == eligible[at as int].task_id@
}

/// How taking up goes on.
pub open spec fn recovery_next(
    eligible: Seq<EligibleAdmission>,
    stage: RecoveryStage,
    input: RecoveryInput,
    after: RecoveryStage,
    action: RecoveryAction,
) -> bool {
    match (stage, input) {
        (RecoveryStage::AwaitTask(at), RecoveryInput::Task(read)) => match read {
            Err(error) => recovery_failed(after, action, error@),
            Ok(None) => recovery_at(eligible, at + 1, after, action),
            Ok(Some(task)) => after == RecoveryStage::AwaitGateway(at, task) && (action matches
                RecoveryAction::AskGateway(task_id) && names(eligible, at, task_id)),
        },
        (RecoveryStage::AwaitGateway(at, task), RecoveryInput::Gateway(through)) => match through {
            None => recovery_failed(after, action, AppErrorView::Runtime),
            Some(true) => after == RecoveryStage::AwaitHandoff(at) && action == (
            RecoveryAction::HandOver { task, revision: eligible[at as int].revision }),
            Some(false) => after == RecoveryStage::AwaitState(at, task) && (action matches
                RecoveryAction::ReadState(task_id) && names(eligible, at, task_id)),
        },
        (RecoveryStage::AwaitHandoff(at), RecoveryInput::HandedOver(done)) => if done {
            recovery_at(eligible, at + 1, after, action)
        } else {
            recovery_failed(after, action, AppErrorView::Runtime)
        },
        (RecoveryStage::AwaitState(at, task), RecoveryInput::State(read)) => match read {
            None => recovery_failed(after, action, AppErrorView::Runtime),
            Some(state) => {
                &&& after == RecoveryStage::AwaitClaimed(at, task)
                &&& if crate::acp::result::optional(state) == Some("ready"@) {
                    action matches RecoveryAction::Claim { task_id, revision } && names(
                        eligible,
                        at,
                        task_id,
                    ) && revision == eligible[at as int].revision
                } else {
                    action matches RecoveryAction::Reclaim { task_id, revision } && names(
                        eligible,
                        at,
                        task_id,
                    ) && revision == eligible[at as int].revision
                }
            },
        },
        (RecoveryStage::AwaitClaimed(at, task), RecoveryInput::Claimed(claimed)) => match claimed {
            None => recovery_failed(after, action, AppErrorView::Runtime),
            Some(true) => after == RecoveryStage::AwaitEnqueued(at) && action
                == RecoveryAction::Enqueue(task),
            Some(false) => recovery_at(eligible, at + 1, after, action),
        },
        (RecoveryStage::AwaitEnqueued(at), RecoveryInput::Enqueued(done)) => if done {
            recovery_at(eligible, at + 1, after, action)
        } else {
            after == RecoveryStage::AwaitReleased(at) && (action matches RecoveryAction::Release {
                task_id,
                revision,
            } && names(eligible, at, task_id) && revision == eligible[at as int].revision + 1)
        },
        (RecoveryStage::AwaitReleased(at), RecoveryInput::Released) => recovery_at(
            eligible,
            at + 1,
            after,
            action,
        ),
        _ => false,
    }
}

/// Where taking up is.
enum Stage {
    AwaitTask,
    AwaitGateway(AgentTask),
    AwaitHandoff,
    AwaitState(AgentTask),
    AwaitClaimed(AgentTask),
    AwaitEnqueued,
    AwaitReleased,
    Done,
}

/// Taking up on its way.
pub struct AdmissionRecovery {
    eligible: Vec<EligibleAdmission>,
    at: usize,
    stage: Stage,
}

impl AdmissionRecovery {
    /// The admissions to take up.
    pub closed spec fn eligible(&self) -> Seq<EligibleAdmission> {
        self.eligible@
    }

    /// Where taking up is.
    pub closed spec fn stage(&self) -> RecoveryStage {
        match self.stage {
            Stage::AwaitTask => RecoveryStage::AwaitTask(self.at as nat),
            Stage::AwaitGateway(task) => RecoveryStage::AwaitGateway(self.at as nat, task),
            Stage::AwaitHandoff => RecoveryStage::AwaitHandoff(self.at as nat),
            Stage::AwaitState(task) => RecoveryStage::AwaitState(self.at as nat, task),
            Stage::AwaitClaimed(task) => RecoveryStage::AwaitClaimed(self.at as nat, task),
            Stage::AwaitEnqueued => RecoveryStage::AwaitEnqueued(self.at as nat),
            Stage::AwaitReleased => RecoveryStage::AwaitReleased(self.at as nat),
            Stage::Done => RecoveryStage::Done,
        }
    }

    /// The current admission is one of those to take up, and the next revision of each
    /// can be told.
    pub closed spec fn wf(&self) -> bool {
        &&& !(self.stage is Done) ==> self.at < self.eligible@.len()
        &&& forall|i: int|
            0 <= i < self.eligible@.len() ==> (#[trigger] self.eligible@[i]).revision < i64::MAX
    }

    /// Begin to take the admissions up.
    pub fn begin(eligible: Vec<EligibleAdmission>) -> (run: (AdmissionRecovery, RecoveryAction))
        requires
            forall|i: int|
                0 <= i < eligible@.len() ==> (#[trigger] eligible@[i]).revision < i64::MAX,
        ensures
            run.0.wf(),
            run.0.eligible() == eligible@,
            recovery_at(eligible@, 0, run.0.stage(), run.1),
    {
        let mut run = AdmissionRecovery { eligible, at: 0, stage: Stage::Done };
        let action = run.take_up(0);
        (run, action)
    }

    /// Go on to the admission `at`.
    fn take_up(&mut self, at: usize) -> (action: RecoveryAction)
        requires
            old(self).wf(),
            old(self).stage() is Done,
        ensures
            final(self).wf(),
            final(self).eligible() == old(self).eligible(),
            recovery_at(old(self).eligible(), at as nat, final(self).stage(), action),
    {
        if at >= self.eligible.len() {
            return RecoveryAction::Recovered;
        }
        match TaskId::parse(self.eligible[at].task_id.as_str()) {
            None => RecoveryAction::Failed(AppError::Runtime),
            Some(task_id) => {
                self.at = at;
                self.stage = Stage::AwaitTask;
                RecoveryAction::Read(task_id)
            },
        }
    }

    /// Whether `input` answers what is waited for.
    pub fn expects(&self, input: &RecoveryInput) -> (yes: bool)
        ensures
            yes == recovery_expects(self.stage(), *input),
    {
        match (&self.stage, input) {
            (Stage::AwaitTask, RecoveryInput::Task(_)) => true,
            (Stage::AwaitGateway(_), RecoveryInput::Gateway(_)) => true,
            (Stage::AwaitHandoff, RecoveryInput::HandedOver(_)) => true,
            (Stage::AwaitState(_), RecoveryInput::State(_)) => true,
            (Stage::AwaitClaimed(_), RecoveryInput::Claimed(_)) => true,
            (Stage::AwaitEnqueued, RecoveryInput::Enqueued(_)) => true,
            (Stage::AwaitReleased, RecoveryInput::Released) => true,
            _ => false,
        }
    }

    /// The state of the admission was read: claim it.
    fn claim(&mut self, task: AgentTask, state: Option<String>) -> (action: RecoveryAction)
        requires
            old(self).wf(),
            old(self).stage() is Done,
            old(self).at < old(self).eligible@.len(),
        ensures
            final(self).wf(),
            final(self).eligible() == old(self).eligible(),
            recovery_next(
                old(self).eligible(),
                RecoveryStage::AwaitState(old(self).at as nat, task),
                RecoveryInput::State(Some(state)),
                final(self).stage(),
                action,
            ),
    {
        let ready = match &state {
            Some(state) => same_text(state.as_str(), "ready"),
            None => false,
        };
        let revision: i64 = self.eligible[self.at].revision;
        self.stage = Stage::AwaitClaimed(task);
        let task_id = self.eligible[self.at].task_id.clone();
        if ready {
            RecoveryAction::Claim { task_id, revision }
        } else {
            RecoveryAction::Reclaim { task_id, revision }
        }
    }

    /// Go on with what came of the last action.
    pub fn step(&mut self, input: RecoveryInput) -> (action: RecoveryAction)
        requires
            old(self).wf(),
            recovery_expects(old(self).stage(), input),
        ensures
            final(self).wf(),
            final(self).eligible() == old(self).eligible(),
            recovery_next(
                old(self).eligible(),
                old(self).stage(),
                input,
                final(self).stage(),
                action,
            ),
    {
        let total: usize = self.eligible.len();
        let at: usize = self.at;
        let mut stage = Stage::Done;
        std::mem::swap(&mut stage, &mut self.stage);
        match (stage, input) {
            (Stage::AwaitTask, RecoveryInput::Task(read)) => match read {
                Err(error) => RecoveryAction::Failed(error),
                Ok(None) => self.take_up(at + 1),
                Ok(Some(task)) => {
                    self.stage = Stage::AwaitGateway(task);
                    RecoveryAction::AskGateway(self.eligible[at].task_id.clone())
                },
            },
            (Stage::AwaitGateway(task), RecoveryInput::Gateway(through)) => match through {
                None => RecoveryAction::Failed(AppError::Runtime),
                Some(true) => {
                    let revision: i64 = self.eligible[at].revision;
                    self.stage = Stage::AwaitHandoff;
                    RecoveryAction::HandOver { task, revision }
                },
                Some(false) => {
                    self.stage = Stage::AwaitState(task);
                    RecoveryAction::ReadState(self.eligible[at].task_id.clone())
                },
            },
            (Stage::AwaitHandoff, RecoveryInput::HandedOver(done)) => {
                if done {
                    self.take_up(at + 1)
                } else {
                    RecoveryAction::Failed(AppError::Runtime)
                }
            },
            (Stage::AwaitState(task), RecoveryInput::State(read)) => match read {
                None => RecoveryAction::Failed(AppError::Runtime),
                Some(state) => self.claim(task, state),
            },
            (Stage::AwaitClaimed(task), RecoveryInput::Claimed(claimed)) => match claimed {
                None => RecoveryAction::Failed(AppError::Runtime),
                Some(true) => {
                    self.stage = Stage::AwaitEnqueued;
                    RecoveryAction::Enqueue(task)
                },
                Some(false) => self.take_up(at + 1),
            },
            (Stage::AwaitEnqueued, RecoveryInput::Enqueued(done)) => {
                if done {
                    self.take_up(at + 1)
                } else {
                    let revision: i64 = self.eligible[at].revision;
                    let task_id = self.eligible[at].task_id.clone();
                    self.stage = Stage::AwaitReleased;
                    RecoveryAction::Release { task_id, revision: revision + 1 }
                }
            },
            (Stage::AwaitReleased, RecoveryInput::Released) => self.take_up(at + 1),
            _ => {
                assert(false);
                RecoveryAction::Failed(AppError::Runtime)
            },
        }
    }
}

/// A task is enqueued only once its admission was claimed for this run, and a claim on
/// a task that cannot be enqueued is released.
pub proof fn law_a_claim_precedes_the_queue(
    eligible: Seq<EligibleAdmission>,
    stage: RecoveryStage,
    input: RecoveryInput,
    after: RecoveryStage,
    action: RecoveryAction,
)
    requires
        recovery_next(eligible, stage, input, after, action),
    ensures
        action is Enqueue ==> input == RecoveryInput::Claimed(Some(true)),
        input == RecoveryInput::Enqueued(false) ==> action is Release,
{
}

/// One step of taking up: what came of the last action, and what to do next.
pub ghost struct RecoveryStep {
    pub stage: RecoveryStage,
    pub input: RecoveryInput,
    pub after: RecoveryStage,
    pub action: RecoveryAction,
}

/// Whether `steps` are those of taking the admissions up, after the first action.
pub open spec fn takes_up(
    eligible: Seq<EligibleAdmission>,
    first: RecoveryAction,
    steps: Seq<RecoveryStep>,
) -> bool {
    &&& steps.len() > 0 ==> recovery_at(eligible, 0, steps[0].stage, first)
    &&& forall|i: int|
        0 <= i < steps.len() ==> {
            let step = #[trigger] steps[i];
            recovery_next(eligible, step.stage, step.input, step.after, step.action)
        }
    &&& forall|i: int| 0 < i < steps.len() ==> (#[trigger] steps[i]).stage == steps[i - 1].after
}

/// The actions of taking up so far, in order.
pub open spec fn actions_taken(first: RecoveryAction, steps: Seq<RecoveryStep>) -> Seq<
    RecoveryAction,
> {
    seq![first] + steps.map_values(|step: RecoveryStep| step.action)
}

/// The tasks that were read, in order.
pub open spec fn reads_in(actions: Seq<RecoveryAction>) -> Seq<u128>
    decreases actions.len(),
{
    if actions.len() == 0 {
        Seq::empty()
    } else {
        match actions.last() {
            RecoveryAction::Read(task_id) => reads_in(actions.drop_last()).push(task_id.bits()),
            _ => reads_in(actions.drop_last()),
        }
    }
}

/// The admission that a stage is about.
spec fn admission_of(stage: RecoveryStage) -> Option<nat> {
    match stage {
        RecoveryStage::AwaitTask(at) => Some(at),
        RecoveryStage::AwaitGateway(at, _) => Some(at),
        RecoveryStage::AwaitHandoff(at) => Some(at),
        RecoveryStage::AwaitState(at, _) => Some(at),
        RecoveryStage::AwaitClaimed(at, _) => Some(at),
        RecoveryStage::AwaitEnqueued(at) => Some(at),
        RecoveryStage::AwaitReleased(at) => Some(at),
        RecoveryStage::Done => None,
    }
}

/// What was read so far: the tasks of the admissions up to the current one.
spec fn read_up_to(
    eligible: Seq<EligibleAdmission>,
    stage: RecoveryStage,
    action: RecoveryAction,
    read: Seq<u128>,
) -> bool {
    &&& read.len() <= eligible.len()
    &&& forall|k: int|
        0 <= k < read.len() ==> parsed_uuid((#[trigger] eligible[k]).task_id@) == Some(read[k])
    &&& match admission_of(stage) {
        Some(at) => read.len() == at + 1 && !(action is Recovered) && !(action is Failed),
        None => action is Failed || (action is Recovered && read.len() == eligible.len()),
    }
}

proof fn lemma_read_up_to(
    eligible: Seq<EligibleAdmission>,
    first: RecoveryAction,
    steps: Seq<RecoveryStep>,
)
    requires
        takes_up(eligible, first, steps),
        steps.len() > 0,
    ensures
        read_up_to(
            eligible,
            steps.last().after,
            steps.last().action,
            reads_in(actions_taken(first, steps)),
        ),
    decreases steps.len(),
{
    let earlier = steps.drop_last();
    let actions = actions_taken(first, steps);
    let before = actions_taken(first, earlier);
    let last = steps[steps.len() - 1];
    assert(actions.drop_last() =~= before);
    assert(actions.last() == last.action);
    assert(recovery_next(eligible, last.stage, last.input, last.after, last.action));
    if earlier.len() == 0 {
        reveal_with_fuel(reads_in, 3);
        assert(before =~= seq![first]);
        assert(before.drop_last() =~= Seq::<RecoveryAction>::empty());
        assert(recovery_at(eligible, 0, last.stage, first));
        assert(read_up_to(eligible, last.stage, first, reads_in(before)));
    } else {
        lemma_taken_up_before(eligible, first, steps);
        lemma_read_up_to(eligible, first, earlier);
        assert(last.stage == steps[steps.len() - 2].after);
        assert(earlier.last() == steps[steps.len() - 2]);
    }
}

/// Every admission is taken up, in order and once: the tasks that were read are those of
/// the first admissions, and all of them are read before everything counts as taken up.
pub proof fn law_every_admission_is_taken_up(
    eligible: Seq<EligibleAdmission>,
    first: RecoveryAction,
    steps: Seq<RecoveryStep>,
)
    requires
        takes_up(eligible, first, steps),
        steps.len() > 0,
    ensures
        ({
            let read = reads_in(actions_taken(first, steps));
            &&& read.len() <= eligible.len()
            &&& forall|k: int|
                0 <= k < read.len() ==> parsed_uuid((#[trigger] eligible[k]).task_id@) == Some(
                    read[k],
                )
            &&& steps.last().action is Recovered ==> read.len() == eligible.len()
        }),
{
    lemma_read_up_to(eligible, first, steps);
}

/// Where nothing is stored, nothing is taken up; otherwise the first task is read, unless
/// it cannot be named.
pub proof fn law_taking_up_begins_with_the_first(
    eligible: Seq<EligibleAdmission>,
    stage: RecoveryStage,
    first: RecoveryAction,
)
    requires
        recovery_at(eligible, 0, stage, first),
    ensures
        first is Recovered <==> eligible.len() == 0,
        eligible.len() > 0 ==> (match parsed_uuid(eligible[0].task_id@) {
            Some(bits) => first matches RecoveryAction::Read(task_id) && task_id.bits() == bits,
            None => first matches RecoveryAction::Failed(error) && error@ == AppErrorView::Runtime,
        }),
{
}

/// How one admission is taken up, input by input. It is the one whose task was read last.
/// One that is gone, or was not claimed, or was handed over, enqueued or released is done
/// with, and taking up goes on to the next one; one that the store or the gateway fails on
/// ends it.
pub proof fn law_an_admission_goes_step_by_step(
    eligible: Seq<EligibleAdmission>,
    first: RecoveryAction,
    steps: Seq<RecoveryStep>,
)
    requires
        takes_up(eligible, first, steps),
        steps.len() > 0,
    ensures
        ({
            let asked = actions_taken(first, steps.drop_last());
            let read = reads_in(asked).len();
            let own = eligible[read - 1];
            let action = steps.last().action;
            let goes_on = if read == eligible.len() {
                action is Recovered
            } else {
                match parsed_uuid(eligible[read as int].task_id@) {
                    Some(bits) => action matches RecoveryAction::Read(task_id) && task_id.bits()
                        == bits,
                    None => action matches RecoveryAction::Failed(error) && error@
                        == AppErrorView::Runtime,
                }
            };
            let fails = action matches RecoveryAction::Failed(error) && error@
                == AppErrorView::Runtime;
            &&& 0 < read <= eligible.len()
            &&& match steps.last().input {
                RecoveryInput::Task(Err(fault)) => action matches RecoveryAction::Failed(error)
                    && error@ == fault@,
                RecoveryInput::Task(Ok(None)) => goes_on,
                RecoveryInput::Task(Ok(Some(_))) => action matches RecoveryAction::AskGateway(id)
                    && id@ == own.task_id@,
                RecoveryInput::Gateway(None) => fails,
                RecoveryInput::Gateway(Some(true)) => action matches RecoveryAction::HandOver {
                    revision,
                    ..
                } && revision == own.revision,
                RecoveryInput::Gateway(Some(false)) => action matches RecoveryAction::ReadState(id)
                    && id@ == own.task_id@,
                RecoveryInput::HandedOver(done) => if done {
                    goes_on
                } else {
                    fails
                },
                RecoveryInput::State(None) => fails,
                RecoveryInput::State(Some(Some(state))) => if state@ == "ready"@ {
                    action matches RecoveryAction::Claim { task_id, revision } && task_id@
                        == own.task_id@ && revision == own.revision
                } else {
                    action matches RecoveryAction::Reclaim { task_id, revision } && task_id@
                        == own.task_id@ && revision == own.revision
                },
                RecoveryInput::State(Some(None)) => action matches RecoveryAction::Reclaim {
                    task_id,
                    revision,
                } && task_id@ == own.task_id@ && revision == own.revision,
                RecoveryInput::Claimed(None) => fails,
                RecoveryInput::Claimed(Some(true)) => action is Enqueue,
                RecoveryInput::Claimed(Some(false)) => goes_on,
                RecoveryInput::Enqueued(true) => goes_on,
                RecoveryInput::Enqueued(false) => action matches RecoveryAction::Release {
                    task_id,
                    revision,
                } && task_id@ == own.task_id@ && revision == own.revision + 1,
                RecoveryInput::Released => goes_on,
            }
        }),
{
    let earlier = steps.drop_last();
    let last = steps[steps.len() - 1];
    let asked = actions_taken(first, earlier);
    assert(recovery_next(eligible, last.stage, last.input, last.after, last.action));
    if earlier.len() == 0 {
        reveal_with_fuel(reads_in, 3);
        assert(asked =~= seq![first]);
        assert(asked.drop_last() =~= Seq::<RecoveryAction>::empty());
        assert(recovery_at(eligible, 0, last.stage, first));
    } else {
        lemma_taken_up_before(eligible, first, steps);
        lemma_read_up_to(eligible, first, earlier);
        assert(last.stage == steps[steps.len() - 2].after);
        assert(earlier.last() == steps[steps.len() - 2]);
    }
}

/// What was done before the last step is taking up, too.
proof fn lemma_taken_up_before(
    eligible: Seq<EligibleAdmission>,
    first: RecoveryAction,
    steps: Seq<RecoveryStep>,
)
    requires
        takes_up(eligible, first, steps),
        steps.len() > 0,
    ensures
        takes_up(eligible, first, steps.drop_last()),
{
    let earlier = steps.drop_last();
    assert forall|i: int| 0 <= i < earlier.len() implies {
        let step = #[trigger] earlier[i];
        recovery_next(eligible, step.stage, step.input, step.after, step.action)
    } by {
        assert(earlier[i] == steps[i]);
    }
    assert forall|i: int| 0 < i < earlier.len() implies (#[trigger] earlier[i]).stage
        == earlier[i - 1].after by {
        assert(earlier[i] == steps[i]);
    }
}

/// The task that is handed over or enqueued is the one that was read for the admission.
pub proof fn law_the_task_that_was_read_is_enqueued(
    eligible: Seq<EligibleAdmission>,
    first: RecoveryAction,
    steps: Seq<RecoveryStep>,
)
    requires
        takes_up(eligible, first, steps),
        steps.len() > 0,
    ensures
        steps.last().action matches RecoveryAction::HandOver { task, .. } ==> steps.len() >= 2
            && steps[steps.len() - 2].input == RecoveryInput::Task(Ok(Some(task))),
        steps.last().action matches RecoveryAction::Enqueue(task) ==> steps.len() >= 4
            && steps[steps.len() - 4].input == RecoveryInput::Task(Ok(Some(task))),
{
    let n = steps.len() as int;
    let last = steps[n - 1];
    if n >= 2 {
        assert(last.stage == steps[n - 2].after);
        let second = steps[n - 2];
        assert(recovery_next(eligible, second.stage, second.input, second.after, second.action));
        if n >= 3 {
            assert(second.stage == steps[n - 3].after);
            let third = steps[n - 3];
            assert(recovery_next(eligible, third.stage, third.input, third.after, third.action));
            if n >= 4 {
                assert(third.stage == steps[n - 4].after);
                let fourth = steps[n - 4];
                assert(recovery_next(
                    eligible,
                    fourth.stage,
                    fourth.input,
                    fourth.after,
                    fourth.action,
                ));
            }
        }
    }
    assert(recovery_next(eligible, last.stage, last.input, last.after, last.action));
    assert(recovery_at(eligible, 0, steps[0].stage, first));
}

/// Taking up waits for what answers its last action, and for nothing once it is over.
pub proof fn law_taking_up_waits_for_what_it_asked(
    eligible: Seq<EligibleAdmission>,
    first: RecoveryAction,
    steps: Seq<RecoveryStep>,
    next: RecoveryInput,
)
    requires
        takes_up(eligible, first, steps),
        steps.len() > 0,
    ensures
        recovery_expects(steps[0].stage, next) <==> next is Task,
        recovery_expects(steps.last().after, next) <==> (match steps.last().action {
            RecoveryAction::Read(_) => next is Task,
            RecoveryAction::AskGateway(_) => next is Gateway,
            RecoveryAction::HandOver { .. } => next is HandedOver,
            RecoveryAction::ReadState(_) => next is State,
            RecoveryAction::Claim { .. } => next is Claimed,
            RecoveryAction::Reclaim { .. } => next is Claimed,
            RecoveryAction::Enqueue(_) => next is Enqueued,
            RecoveryAction::Release { .. } => next is Released,
            RecoveryAction::Recovered => false,
            RecoveryAction::Failed(_) => false,
        }),
{
    let last = steps[steps.len() - 1];
    assert(recovery_next(eligible, last.stage, last.input, last.after, last.action));
    let begun = steps[0];
    assert(recovery_next(eligible, begun.stage, begun.input, begun.after, begun.action));
    assert(recovery_at(eligible, 0, begun.stage, first));
}

} // verus!
