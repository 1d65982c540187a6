//! A scriptable agent for tests and acceptance runs.
//!
//! A reply is chosen by what is known of a call: a rule for the task's id beats one for
//! its text, which beats one for the attempt; among rules of one kind the one registered
//! first wins; a call that no rule matches gets the default reply. Every call is
//! recorded, with the kind of rule that answered it.

use vstd::prelude::*;
use vstd::string::*;
use crate::bus::worker::{DispatchError, DispatchOutcome, DispatchRequest};
use crate::ids::{DeliveryId, TaskId};
use crate::text::{decimal, decimal_text, same_text};

verus! {

/// Output of a call that no rule matched.
pub const DEFAULT_OUTPUT: &'static str = "mock: completed";

/// The stage that a recorded call belongs to.
#[derive(Debug, Clone, Copy, PartialEq, Eq, Structural)]
pub enum MockStage {
    /// The acceptance decision.
    Deliver,
    /// The terminal outcome.
    Execute,
}

/// What a delivery is answered.
#[derive(Debug, Clone, PartialEq, Eq)]
pub enum DeliverBehavior {
    /// It is accepted.
    Accept,
    /// It is refused.
    Refuse {
        /// Why.
        reason: String,
    },
}

/// What an execution gives.
#[derive(Debug, Clone, PartialEq, Eq)]
pub enum ExecuteBehavior {
    /// It completes.
    Complete {
        /// The output.
        output: String,
    },
    /// It fails, as a verdict.
    ReportFailure {
        /// The error.
        error: String,
    },
    /// It fails without a result.
    Fail {
        /// Why.
        reason: String,
    },
}

/// What both stages of a call are answered.
#[derive(Debug, Clone, PartialEq, Eq)]
pub struct MockReply {
    /// The delivery.
    pub deliver: DeliverBehavior,
    /// The execution.
    pub execute: ExecuteBehavior,
}

impl MockReply {
    /// Accepts, then completes.
    pub fn completed(output: &str) -> (reply: MockReply)
        ensures
            reply.deliver == DeliverBehavior::Accept,
            reply.execute matches ExecuteBehavior::Complete { output: kept } && kept@ == output@,
    {
        MockReply {
            deliver: DeliverBehavior::Accept,
            execute: ExecuteBehavior::Complete { output: output.to_owned() },
        }
    }

    /// Refuses. The execution is never reached then.
    pub fn refused(reason: &str) -> (reply: MockReply)
        ensures
            reply.deliver matches DeliverBehavior::Refuse { reason: kept } && kept@ == reason@,
            reply.execute matches ExecuteBehavior::Complete { output } && output@
                == "mock: completed"@,
    {
        MockReply {
            deliver: DeliverBehavior::Refuse { reason: reason.to_owned() },
            execute: ExecuteBehavior::Complete { output: DEFAULT_OUTPUT.to_owned() },
        }
    }

    /// Accepts, then fails as a verdict.
    pub fn reporting_failure(error: &str) -> (reply: MockReply)
        ensures
            reply.deliver == DeliverBehavior::Accept,
            reply.execute matches ExecuteBehavior::ReportFailure { error: kept } && kept@ == error@,
    {
        MockReply {
            deliver: DeliverBehavior::Accept,
            execute: ExecuteBehavior::ReportFailure { error: error.to_owned() },
        }
    }

    /// Accepts, then fails without a result.
    pub fn failing_execution(reason: &str) -> (reply: MockReply)
        ensures
            reply.deliver == DeliverBehavior::Accept,
            reply.execute matches ExecuteBehavior::Fail { reason: kept } && kept@ == reason@,
    {
        MockReply {
            deliver: DeliverBehavior::Accept,
            execute: ExecuteBehavior::Fail { reason: reason.to_owned() },
        }
    }

    /// A copy of the reply.
    pub fn duplicate(&self) -> (copy: MockReply)
        ensures
            copy == *self,
    {
        MockReply {
            deliver: match &self.deliver {
                DeliverBehavior::Accept => DeliverBehavior::Accept,
                DeliverBehavior::Refuse { reason } => DeliverBehavior::Refuse {
                    reason: reason.clone(),
                },
            },
            execute: match &self.execute {
                ExecuteBehavior::Complete { output } => ExecuteBehavior::Complete {
                    output: output.clone(),
                },
                ExecuteBehavior::ReportFailure { error } => ExecuteBehavior::ReportFailure {
                    error: error.clone(),
                },
                ExecuteBehavior::Fail { reason } => ExecuteBehavior::Fail { reason: reason.clone() },
            },
        }
    }
}

/// What answered a call.
#[derive(Debug, Clone, Copy, PartialEq, Eq, Structural)]
pub enum ReplySource {
    /// No rule: the default reply.
    Default,
    /// A rule for the task's id.
    TaskId,
    /// A rule for the task's text.
    Text,
    /// A rule for the attempt.
    Attempt,
}

/// Which calls a reply is for.
#[derive(Debug, Clone, PartialEq, Eq)]
pub enum MockRule {
    /// Calls for the task with this identity.
    TaskId(TaskId),
    /// Calls for a task with this text.
    Text(String),
    /// Calls of this attempt.
    Attempt(u32),
}

/// One recorded call.
#[derive(Debug, Clone, PartialEq, Eq)]
pub struct MockCall {
    /// The stage.
    pub stage: MockStage,
    /// The task.
    pub task_id: TaskId,
    /// The attempt's identity.
    pub delivery_id: DeliveryId,
    /// The attempt's number.
    pub attempt: u32,
    /// The task's text.
    pub text: String,
    /// What answered.
    pub source: ReplySource,
}

impl MockCall {
    /// A copy of the record.
    pub fn duplicate(&self) -> (copy: MockCall)
        ensures
            copy == *self,
    {
        MockCall {
            stage: self.stage,
            task_id: self.task_id,
            delivery_id: self.delivery_id,
            attempt: self.attempt,
            text: self.text.clone(),
            source: self.source,
        }
    }
}

/// The first rule for a task id.
pub open spec fn for_task(rules: Seq<(TaskId, MockReply)>, task_id: TaskId) -> Option<MockReply>
    decreases rules.len(),
{
    if rules.len() == 0 {
        None
    } else if rules[0].0 == task_id {
        Some(rules[0].1)
    } else {
        for_task(rules.drop_first(), task_id)
    }
}

/// The first rule for a text.
pub open spec fn for_text(rules: Seq<(String, MockReply)>, text: Seq<char>) -> Option<MockReply>
    decreases rules.len(),
{
    if rules.len() == 0 {
        None
    } else if rules[0].0@ == text {
        Some(rules[0].1)
    } else {
        for_text(rules.drop_first(), text)
    }
}

/// The first rule for an attempt.
pub open spec fn for_attempt(rules: Seq<(u32, MockReply)>, attempt: u32) -> Option<MockReply>
    decreases rules.len(),
{
    if rules.len() == 0 {
        None
    } else if rules[0].0 == attempt {
        Some(rules[0].1)
    } else {
        for_attempt(rules.drop_first(), attempt)
    }
}

/// What a mock agent is scripted to do.
pub ghost struct Script {
    pub default: MockReply,
    pub by_task: Seq<(TaskId, MockReply)>,
    pub by_text: Seq<(String, MockReply)>,
    pub by_attempt: Seq<(u32, MockReply)>,
}

impl Script {
    /// The reply to a call, and what gives it.
    pub open spec fn selected(self, task_id: TaskId, text: Seq<char>, attempt: u32) -> (
        MockReply,
        ReplySource,
    ) {
        match for_task(self.by_task, task_id) {
            Some(reply) => (reply, ReplySource::TaskId),
            None => match for_text(self.by_text, text) {
                Some(reply) => (reply, ReplySource::Text),
                None => match for_attempt(self.by_attempt, attempt) {
                    Some(reply) => (reply, ReplySource::Attempt),
                    None => (self.default, ReplySource::Default),
                },
            },
        }
    }
}

/// Which kind of rule answers does not depend on the order of registration between
/// kinds: a rule for the id always wins, then one for the text, then one for the
/// attempt.
pub proof fn law_more_specific_rules_win(
    script: Script,
    task_id: TaskId,
    text: Seq<char>,
    attempt: u32,
)
    ensures
        ({
            let source = script.selected(task_id, text, attempt).1;
            let by_id = for_task(script.by_task, task_id) is Some;
            let by_text = for_text(script.by_text, text) is Some;
            let by_attempt = for_attempt(script.by_attempt, attempt) is Some;
            &&& source == ReplySource::TaskId <==> by_id
            &&& source == ReplySource::Text <==> by_text && !by_id
            &&& source == ReplySource::Attempt <==> by_attempt && !by_id && !by_text
            &&& source == ReplySource::Default <==> !by_id && !by_text && !by_attempt
        }),
{
}

/// Among rules of one kind the first one registered wins: one more rule never changes
/// an answer that an earlier rule of its kind gives.
pub proof fn law_the_first_rule_of_a_kind_wins(
    rules: Seq<(String, MockReply)>,
    later: (String, MockReply),
    text: Seq<char>,
)
    requires
        for_text(rules, text) is Some,
    ensures
        for_text(rules.push(later), text) == for_text(rules, text),
    decreases rules.len(),
{
    if rules[0].0@ != text {
        assert(rules.push(later).drop_first() =~= rules.drop_first().push(later));
        law_the_first_rule_of_a_kind_wins(rules.drop_first(), later, text);
    }
}

/// What a call records.
pub open spec fn call_of(
    stage: MockStage,
    request: DispatchRequest<'_>,
    source: ReplySource,
    call: MockCall,
) -> bool {
    &&& call.stage == stage
    &&& call.task_id == request.task.task_id
    &&& call.delivery_id == request.delivery_id
    &&& call.attempt == request.attempt
    &&& call.text@ == request.task.text@
    &&& call.source == source
}

/// A scriptable agent.
pub struct MockAgent {
    default: MockReply,
    by_task: Vec<(TaskId, MockReply)>,
    by_text: Vec<(String, MockReply)>,
    by_attempt: Vec<(u32, MockReply)>,
    calls: Vec<MockCall>,
}

impl MockAgent {
    /// What the agent is scripted to do.
    pub closed spec fn script(&self) -> Script {
        Script {
            default: self.default,
            by_task: self.by_task@,
            by_text: self.by_text@,
            by_attempt: self.by_attempt@,
        }
    }

    /// The calls so far, in order.
    pub closed spec fn recorded(&self) -> Seq<MockCall> {
        self.calls@
    }

    /// An agent that accepts every delivery and completes with [`DEFAULT_OUTPUT`].
    pub fn new() -> (agent: MockAgent)
        ensures
            agent.script().default.deliver == DeliverBehavior::Accept,
            agent.script().default.execute matches ExecuteBehavior::Complete { output } && output@
                == "mock: completed"@,
            agent.script().by_task.len() == 0,
            agent.script().by_text.len() == 0,
            agent.script().by_attempt.len() == 0,
            agent.recorded().len() == 0,
    {
        MockAgent {
            default: MockReply::completed(DEFAULT_OUTPUT),
            by_task: Vec::new(),
            by_text: Vec::new(),
            by_attempt: Vec::new(),
            calls: Vec::new(),
        }
    }

    /// Replaces the reply to calls that no rule matches.
    pub fn with_default(self, reply: MockReply) -> (agent: MockAgent)
        ensures
            agent.script() == (Script { default: reply, ..self.script() }),
            agent.recorded() == self.recorded(),
    {
        let mut agent = self;
        agent.default = reply;
        agent
    }

    /// Answers calls for a task.
    pub fn on_task(self, task_id: TaskId, reply: MockReply) -> (agent: MockAgent)
        ensures
            agent.script() == (Script {
                by_task: self.script().by_task.push((task_id, reply)),
                ..self.script()
            }),
            agent.recorded() == self.recorded(),
    {
        let mut agent = self;
        agent.by_task.push((task_id, reply));
        agent
    }

    /// Answers calls for tasks with a text.
    pub fn on_text(self, text: String, reply: MockReply) -> (agent: MockAgent)
        ensures
            agent.script() == (Script {
                by_text: self.script().by_text.push((text, reply)),
                ..self.script()
            }),
            agent.recorded() == self.recorded(),
    {
        let mut agent = self;
        agent.by_text.push((text, reply));
        agent
    }

    /// Answers calls of an attempt.
    pub fn on_attempt(self, attempt: u32, reply: MockReply) -> (agent: MockAgent)
        ensures
            agent.script() == (Script {
                by_attempt: self.script().by_attempt.push((attempt, reply)),
                ..self.script()
            }),
            agent.recorded() == self.recorded(),
    {
        let mut agent = self;
        agent.by_attempt.push((attempt, reply));
        agent
    }

    /// Answers the calls that a rule names.
    pub fn on(self, rule: MockRule, reply: MockReply) -> (agent: MockAgent)
        ensures
            agent.script() == match rule {
                MockRule::TaskId(task_id) => Script {
                    by_task: self.script().by_task.push((task_id, reply)),
                    ..self.script()
                },
                MockRule::Text(text) => Script {
                    by_text: self.script().by_text.push((text, reply)),
                    ..self.script()
                },
                MockRule::Attempt(attempt) => Script {
                    by_attempt: self.script().by_attempt.push((attempt, reply)),
                    ..self.script()
                },
            },
            agent.recorded() == self.recorded(),
    {
        match rule {
            MockRule::TaskId(task_id) => self.on_task(task_id, reply),
            MockRule::Text(text) => self.on_text(text, reply),
            MockRule::Attempt(attempt) => self.on_attempt(attempt, reply),
        }
    }

    /// An agent that completes every task with `output`.
    pub fn completing(output: &str) -> (agent: MockAgent)
        ensures
            agent.script().default.deliver == DeliverBehavior::Accept,
            agent.script().default.execute matches ExecuteBehavior::Complete { output: kept }
                && kept@ == output@,
            agent.script().by_task.len() == 0,
            agent.script().by_text.len() == 0,
            agent.script().by_attempt.len() == 0,
            agent.recorded().len() == 0,
    {
        MockAgent::new().with_default(MockReply::completed(output))
    }

    /// An agent that refuses every delivery.
    pub fn refusing(reason: &str) -> (agent: MockAgent)
        ensures
            agent.script().default.deliver matches DeliverBehavior::Refuse { reason: kept }
                && kept@ == reason@,
            agent.script().default.execute matches ExecuteBehavior::Complete { output } && output@
                == "mock: completed"@,
            agent.script().by_task.len() == 0,
            agent.script().by_text.len() == 0,
            agent.script().by_attempt.len() == 0,
            agent.recorded().len() == 0,
    {
        MockAgent::new().with_default(MockReply::refused(reason))
    }

    /// An agent that accepts every delivery and reports a failure.
    pub fn reporting_failure(error: &str) -> (agent: MockAgent)
        ensures
            agent.script().default.deliver == DeliverBehavior::Accept,
            agent.script().default.execute matches ExecuteBehavior::ReportFailure { error: kept }
                && kept@ == error@,
            agent.script().by_task.len() == 0,
            agent.script().by_text.len() == 0,
            agent.script().by_attempt.len() == 0,
            agent.recorded().len() == 0,
    {
        MockAgent::new().with_default(MockReply::reporting_failure(error))
    }

    /// An agent that accepts every delivery and fails without a result.
    pub fn failing_execution(reason: &str) -> (agent: MockAgent)
        ensures
            agent.script().default.deliver == DeliverBehavior::Accept,
            agent.script().default.execute matches ExecuteBehavior::Fail { reason: kept }
                && kept@ == reason@,
            agent.script().by_task.len() == 0,
            agent.script().by_text.len() == 0,
            agent.script().by_attempt.len() == 0,
            agent.recorded().len() == 0,
    {
        MockAgent::new().with_default(MockReply::failing_execution(reason))
    }

    /// The reply to calls that no rule matches.
    pub fn default_reply(&self) -> (reply: &MockReply)
        ensures
            *reply == self.script().default,
    {
        &self.default
    }

    /// Every recorded call, in order.
    pub fn calls(&self) -> (calls: Vec<MockCall>)
        ensures
            calls@ == self.recorded(),
    {
        let mut calls: Vec<MockCall> = Vec::new();
        let mut i: usize = 0;
        while i < self.calls.len()
            invariant
                i <= self.calls@.len(),
                calls@ == self.calls@.take(i as int),
            decreases self.calls@.len() - i,
        {
            calls.push(self.calls[i].duplicate());
            assert(calls@ =~= self.calls@.take(i + 1));
            i = i + 1;
        }
        assert(self.calls@.take(i as int) =~= self.calls@);
        calls
    }

    /// The recorded deliveries, in order.
    pub fn deliver_calls(&self) -> (calls: Vec<MockCall>)
        ensures
            calls@ == self.recorded().filter(|call: MockCall| call.stage == MockStage::Deliver),
    {
        self.stage_calls(MockStage::Deliver)
    }

    /// The recorded executions, in order.
    pub fn execute_calls(&self) -> (calls: Vec<MockCall>)
        ensures
            calls@ == self.recorded().filter(|call: MockCall| call.stage == MockStage::Execute),
    {
        self.stage_calls(MockStage::Execute)
    }

    /// Number of recorded calls.
    pub fn call_count(&self) -> (count: usize)
        ensures
            count == self.recorded().len(),
    {
        self.calls.len()
    }

    fn stage_calls(&self, stage: MockStage) -> (calls: Vec<MockCall>)
        ensures
            calls@ == self.recorded().filter(|call: MockCall| call.stage == stage),
    {
        let ghost wanted = |call: MockCall| call.stage == stage;
        let mut calls: Vec<MockCall> = Vec::new();
        let mut i: usize = 0;
        proof {
            reveal(Seq::filter);
            assert(self.calls@.take(0) =~= Seq::<MockCall>::empty());
        }
        while i < self.calls.len()
            invariant
                i <= self.calls@.len(),
                wanted == (|call: MockCall| call.stage == stage),
                calls@ == self.calls@.take(i as int).filter(wanted),
            decreases self.calls@.len() - i,
        {
            proof {
                reveal(Seq::filter);
                assert(self.calls@.take(i + 1).drop_last() =~= self.calls@.take(i as int));
                assert(self.calls@.take(i + 1).last() == self.calls@[i as int]);
            }
            if self.calls[i].stage == stage {
                calls.push(self.calls[i].duplicate());
            }
            i = i + 1;
        }
        assert(self.calls@.take(i as int) =~= self.calls@);
        calls
    }

    /// The reply to a call, and what gives it.
    pub fn select(&self, request: &DispatchRequest<'_>) -> (chosen: (MockReply, ReplySource))
        ensures
            chosen == self.script().selected(
                request.task.task_id,
                request.task.text@,
                request.attempt,
            ),
    {
        let mut i: usize = 0;
        assert(self.by_task@.skip(0) =~= self.by_task@);
        while i < self.by_task.len()
            invariant
                i <= self.by_task@.len(),
                for_task(self.by_task@, request.task.task_id) == for_task(
                    self.by_task@.skip(i as int),
                    request.task.task_id,
                ),
            decreases self.by_task@.len() - i,
        {
            if self.by_task[i].0 == request.task.task_id {
                return (self.by_task[i].1.duplicate(), ReplySource::TaskId);
            }
            assert(self.by_task@.skip(i as int).drop_first() =~= self.by_task@.skip(i + 1));
            i = i + 1;
        }
        let mut j: usize = 0;
        assert(self.by_text@.skip(0) =~= self.by_text@);
        while j < self.by_text.len()
            invariant
                j <= self.by_text@.len(),
                for_task(self.by_task@, request.task.task_id) is None,
                for_text(self.by_text@, request.task.text@) == for_text(
                    self.by_text@.skip(j as int),
                    request.task.text@,
                ),
            decreases self.by_text@.len() - j,
        {
            if same_text(self.by_text[j].0.as_str(), request.task.text.as_str()) {
                return (self.by_text[j].1.duplicate(), ReplySource::Text);
            }
            assert(self.by_text@.skip(j as int).drop_first() =~= self.by_text@.skip(j + 1));
            j = j + 1;
        }
        let mut k: usize = 0;
        assert(self.by_attempt@.skip(0) =~= self.by_attempt@);
        while k < self.by_attempt.len()
            invariant
                k <= self.by_attempt@.len(),
                for_task(self.by_task@, request.task.task_id) is None,
                for_text(self.by_text@, request.task.text@) is None,
                for_attempt(self.by_attempt@, request.attempt) == for_attempt(
                    self.by_attempt@.skip(k as int),
                    request.attempt,
                ),
            decreases self.by_attempt@.len() - k,
        {
            if self.by_attempt[k].0 == request.attempt {
                return (self.by_attempt[k].1.duplicate(), ReplySource::Attempt);
            }
            assert(self.by_attempt@.skip(k as int).drop_first() =~= self.by_attempt@.skip(k + 1));
            k = k + 1;
        }
        (self.default.duplicate(), ReplySource::Default)
    }

    /// Records one call.
    pub fn record(&mut self, stage: MockStage, request: &DispatchRequest<'_>, source: ReplySource)
        ensures
            final(self).script() == old(self).script(),
            final(self).recorded().len() == old(self).recorded().len() + 1,
            final(self).recorded().drop_last() == old(self).recorded(),
            call_of(stage, *request, source, final(self).recorded().last()),
    {
        self.calls.push(
            MockCall {
                stage,
                task_id: request.task.task_id,
                delivery_id: request.delivery_id,
                attempt: request.attempt,
                text: request.task.text.clone(),
                source,
            },
        );
        assert(self.recorded().drop_last() =~= old(self).recorded());
    }

    /// Records a delivery, and answers it.
    pub fn deliver(&mut self, request: &DispatchRequest<'_>) -> (answer: Result<(), DispatchError>)
        ensures
            final(self).script() == old(self).script(),
            ({
                let chosen = old(self).script().selected(
                    request.task.task_id,
                    request.task.text@,
                    request.attempt,
                );
                &&& answer == match chosen.0.deliver {
                    DeliverBehavior::Accept => Ok::<(), DispatchError>(()),
                    DeliverBehavior::Refuse { reason } => Err(
                        DispatchError::NotAccepted { reason },
                    ),
                }
                &&& final(self).recorded().len() == old(self).recorded().len() + 1
                &&& final(self).recorded().drop_last() == old(self).recorded()
                &&& call_of(
                    MockStage::Deliver,
                    *request,
                    chosen.1,
                    final(self).recorded().last(),
                )
            }),
    {
        let (reply, source) = self.select(request);
        self.record(MockStage::Deliver, request, source);
        match reply.deliver {
            DeliverBehavior::Accept => Ok(()),
            DeliverBehavior::Refuse { reason } => Err(DispatchError::NotAccepted { reason }),
        }
    }

    /// Records an execution, and answers it.
    pub fn execute(&mut self, request: &DispatchRequest<'_>) -> (answer: Result<
        DispatchOutcome,
        DispatchError,
    >)
        ensures
            final(self).script() == old(self).script(),
            ({
                let chosen = old(self).script().selected(
                    request.task.task_id,
                    request.task.text@,
                    request.attempt,
                );
                &&& answer == match chosen.0.execute {
                    ExecuteBehavior::Complete { output } => Ok::<DispatchOutcome, DispatchError>(
                        DispatchOutcome::Completed { output },
                    ),
                    ExecuteBehavior::ReportFailure { error } => Ok(
                        DispatchOutcome::Failed { error },
                    ),
                    ExecuteBehavior::Fail { reason } => Err(
                        DispatchError::ExecutionFailed { reason },
                    ),
                }
                &&& final(self).recorded().len() == old(self).recorded().len() + 1
                &&& final(self).recorded().drop_last() == old(self).recorded()
                &&& call_of(
                    MockStage::Execute,
                    *request,
                    chosen.1,
                    final(self).recorded().last(),
                )
            }),
    {
        let (reply, source) = self.select(request);
        self.record(MockStage::Execute, request, source);
        match reply.execute {
            ExecuteBehavior::Complete { output } => Ok(DispatchOutcome::Completed { output }),
            ExecuteBehavior::ReportFailure { error } => Ok(DispatchOutcome::Failed { error }),
            ExecuteBehavior::Fail { reason } => Err(DispatchError::ExecutionFailed { reason }),
        }
    }

    /// Describes the agent by counts alone.
    pub fn describe(&self) -> (text: String)
        ensures
            text@ == "MockAgent { by_task: "@ + decimal(self.script().by_task.len())
                + ", by_text: "@ + decimal(self.script().by_text.len()) + ", by_attempt: "@
                + decimal(self.script().by_attempt.len()) + ", calls: "@ + decimal(
                self.recorded().len(),
            ) + " }"@,
    {
        let mut text = "MockAgent { by_task: ".to_owned();
        text.append(decimal_text(self.by_task.len() as u64).as_str());
        text.append(", by_text: ");
        text.append(decimal_text(self.by_text.len() as u64).as_str());
        text.append(", by_attempt: ");
        text.append(decimal_text(self.by_attempt.len() as u64).as_str());
        text.append(", calls: ");
        text.append(decimal_text(self.calls.len() as u64).as_str());
        text.append(" }");
        text
    }
}

impl Default for MockAgent {
    fn default() -> (agent: MockAgent)
        ensures
            agent.script().default.deliver == DeliverBehavior::Accept,
            agent.script().default.execute matches ExecuteBehavior::Complete { output } && output@
                == "mock: completed"@,
            agent.script().by_task.len() == 0,
            agent.script().by_text.len() == 0,
            agent.script().by_attempt.len() == 0,
            agent.recorded().len() == 0,
    {
        MockAgent::new()
    }
}

/// The first rule that is for a task, a text or an attempt gives its reply, and where no
/// rule is, the default does.
pub proof fn law_the_first_rule_answers(
    script: Script,
    task_id: TaskId,
    text: Seq<char>,
    attempt: u32,
    i: int,
)
    ensures
        ({
            let tasks = script.by_task;
            let texts = script.by_text;
            let attempts = script.by_attempt;
            let chosen = script.selected(task_id, text, attempt);
            let no_task = forall|k: int| 0 <= k < tasks.len() ==> (#[trigger] tasks[k]).0 != task_id;
            let no_text = forall|k: int| 0 <= k < texts.len() ==> (#[trigger] texts[k]).0@ != text;
            let no_attempt = forall|k: int|
                0 <= k < attempts.len() ==> (#[trigger] attempts[k]).0 != attempt;
            &&& 0 <= i < tasks.len() && tasks[i].0 == task_id && (forall|k: int|
                0 <= k < i ==> (#[trigger] tasks[k]).0 != task_id) ==> chosen == (
                tasks[i].1,
                ReplySource::TaskId,
            )
            &&& no_task && 0 <= i < texts.len() && texts[i].0@ == text && (forall|k: int|
                0 <= k < i ==> (#[trigger] texts[k]).0@ != text) ==> chosen == (
                texts[i].1,
                ReplySource::Text,
            )
            &&& no_task && no_text && 0 <= i < attempts.len() && attempts[i].0 == attempt && (
            forall|k: int| 0 <= k < i ==> (#[trigger] attempts[k]).0 != attempt) ==> chosen == (
                attempts[i].1,
                ReplySource::Attempt,
            )
            &&& no_task && no_text && no_attempt ==> chosen == (
                script.default,
                ReplySource::Default,
            )
        }),
{
    lemma_first_for_task(script.by_task, task_id, i);
    lemma_first_for_text(script.by_text, text, i);
    lemma_first_for_attempt(script.by_attempt, attempt, i);
}

proof fn lemma_first_for_task(rules: Seq<(TaskId, MockReply)>, task_id: TaskId, i: int)
    ensures
        (forall|k: int| 0 <= k < rules.len() ==> (#[trigger] rules[k]).0 != task_id) ==> for_task(
            rules,
            task_id,
        ) is None,
        0 <= i < rules.len() && rules[i].0 == task_id && (forall|k: int|
            0 <= k < i ==> (#[trigger] rules[k]).0 != task_id) ==> for_task(rules, task_id) == Some(
            rules[i].1,
        ),
    decreases rules.len(),
{
    if rules.len() > 0 {
        let rest = rules.drop_first();
        lemma_first_for_task(rest, task_id, i - 1);
        assert(forall|k: int| 0 <= k < rest.len() ==> (#[trigger] rest[k]) == rules[k + 1]);
        if forall|k: int| 0 <= k < rules.len() ==> (#[trigger] rules[k]).0 != task_id {
            assert(rules[0].0 != task_id);
        }
        if 0 < i < rules.len() && (forall|k: int|
            0 <= k < i ==> (#[trigger] rules[k]).0 != task_id) {
            assert(rules[0].0 != task_id);
            assert(rest[i - 1] == rules[i]);
        }
    }
}

proof fn lemma_first_for_text(rules: Seq<(String, MockReply)>, text: Seq<char>, i: int)
    ensures
        (forall|k: int| 0 <= k < rules.len() ==> (#[trigger] rules[k]).0@ != text) ==> for_text(
            rules,
            text,
        ) is None,
        0 <= i < rules.len() && rules[i].0@ == text && (forall|k: int|
            0 <= k < i ==> (#[trigger] rules[k]).0@ != text) ==> for_text(rules, text) == Some(
            rules[i].1,
        ),
    decreases rules.len(),
{
    if rules.len() > 0 {
        let rest = rules.drop_first();
        lemma_first_for_text(rest, text, i - 1);
        assert(forall|k: int| 0 <= k < rest.len() ==> (#[trigger] rest[k]) == rules[k + 1]);
        if forall|k: int| 0 <= k < rules.len() ==> (#[trigger] rules[k]).0@ != text {
            assert(rules[0].0@ != text);
        }
        if 0 < i < rules.len() && (forall|k: int|
            0 <= k < i ==> (#[trigger] rules[k]).0@ != text) {
            assert(rules[0].0@ != text);
            assert(rest[i - 1] == rules[i]);
        }
    }
}

proof fn lemma_first_for_attempt(rules: Seq<(u32, MockReply)>, attempt: u32, i: int)
    ensures
        (forall|k: int| 0 <= k < rules.len() ==> (#[trigger] rules[k]).0 != attempt)
            ==> for_attempt(rules, attempt) is None,
        0 <= i < rules.len() && rules[i].0 == attempt && (forall|k: int|
            0 <= k < i ==> (#[trigger] rules[k]).0 != attempt) ==> for_attempt(rules, attempt)
            == Some(rules[i].1),
    decreases rules.len(),
{
    if rules.len() > 0 {
        let rest = rules.drop_first();
        lemma_first_for_attempt(rest, attempt, i - 1);
        assert(forall|k: int| 0 <= k < rest.len() ==> (#[trigger] rest[k]) == rules[k + 1]);
        if forall|k: int| 0 <= k < rules.len() ==> (#[trigger] rules[k]).0 != attempt {
            assert(rules[0].0 != attempt);
        }
        if 0 < i < rules.len() && (forall|k: int|
            0 <= k < i ==> (#[trigger] rules[k]).0 != attempt) {
            assert(rules[0].0 != attempt);
            assert(rest[i - 1] == rules[i]);
        }
    }
}

} // verus!
