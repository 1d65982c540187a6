//! The adapter's two stages: making a session ready, and running a turn on it.
//!
//! Stage one ends with an explicit answer of the agent and a durable record.
//! Whatever fails before that was not accepted. Stage two never starts a process
//! behind a task's back: a backend that is gone is restored, and the turn is
//! reported as needing recovery.

use vstd::prelude::*;
use vstd::string::*;

use crate::acp::bounded;
use crate::acp::bounded_text;
use crate::acp::client::strict_result;
use crate::acp::client::AcpLimits;
use crate::acp::client::PromptTurn;
use crate::acp::error::AcpError;
use crate::acp::error::AcpErrorView;
use crate::acp::error::Phase;
use crate::acp::result::TurnResult;
use crate::acp::schema::METHOD_SESSION_PROMPT;
use crate::acp::schema::PROTOCOL_VERSION;
use crate::acp::schema::texts_value;
use crate::acp::session::accepted_session;
use crate::acp::session::compatibility;
use crate::acp::session::MAX_SESSION_ID_BYTES;
use crate::acp::session::usable_session_id;
use crate::acp::session::SessionView;
use crate::acp::session::StoredSession;
use crate::bus::registry::copy_texts;
use crate::bus::registry::RegisteredEndpoint;
use crate::bus::worker::DispatchOutcome;
use crate::ids::ConversationId;
use crate::ids::EndpointId;
use crate::json::rendered_json;
use crate::models::EndpointAddress;
use crate::storage::StorageError;
use crate::storage::StorageErrorView;
use crate::text::concat2;
use crate::text::utf8_len;
use crate::text::views;
use crate::time::Timestamp;

verus! {

/// The address that the process of an endpoint is started from. An endpoint that is
/// declared without one cannot be started.
pub fn address_of(target: &RegisteredEndpoint) -> (address: Result<&EndpointAddress, AcpError>)
    ensures
        match address {
            Ok(address) => target@.address == Some(address@),
            Err(error) => target@.address is None && error@ == (AcpErrorView::UnsupportedAddress {
                phase: Phase::Spawn,
            }),
        },
{
    match target.address() {
        Some(address) => Ok(address),
        None => Err(AcpError::UnsupportedAddress { phase: Phase::Spawn }),
    }
}

/// What a finished turn means for its task, as data: the output it completed with,
/// or the error it failed with.
pub open spec fn turn_outcome(turn: PromptTurn, legacy_results: bool) -> Result<
    Seq<char>,
    Seq<char>,
> {
    match turn.task_result {
        Some(TurnResult::Completed { output }) => Ok(output@),
        Some(TurnResult::Failed { reason }) => Err(bounded_text(reason@)),
        Some(TurnResult::Blocked { reason }) => Err(bounded_text("blocked: "@ + reason@)),
        Some(TurnResult::Continue { reason, next_prompt: _ }) => Err(
            bounded_text("continue: "@ + reason@),
        ),
        None => if legacy_results && turn.stop_reason is EndTurn {
            Ok(turn.text@)
        } else {
            Err(bounded_text("legacy turn did not end"@))
        },
    }
}

/// An outcome as data.
pub open spec fn outcome_of(outcome: DispatchOutcome) -> Result<Seq<char>, Seq<char>> {
    match outcome {
        DispatchOutcome::Completed { output } => Ok(output@),
        DispatchOutcome::Failed { error } => Err(error@),
    }
}

/// Map a finished turn onto an outcome. A structured result decides; without one a
/// turn that ended completes only where legacy results are taken.
pub fn map_turn(turn: PromptTurn, legacy_results: bool) -> (outcome: DispatchOutcome)
    ensures
        outcome_of(outcome) == turn_outcome(turn, legacy_results),
{
    match turn.task_result {
        Some(TurnResult::Completed { output }) => DispatchOutcome::Completed { output },
        Some(TurnResult::Failed { reason }) => {
            DispatchOutcome::Failed { error: bounded(reason.as_str()) }
        },
        Some(TurnResult::Blocked { reason }) => {
            let text = concat2("blocked: ", reason.as_str());
            DispatchOutcome::Failed { error: bounded(text.as_str()) }
        },
        Some(TurnResult::Continue { reason, next_prompt: _ }) => {
            let text = concat2("continue: ", reason.as_str());
            DispatchOutcome::Failed { error: bounded(text.as_str()) }
        },
        None => {
            if legacy_results && turn.stop_reason.is_end_turn() {
                DispatchOutcome::Completed { output: turn.text }
            } else {
                DispatchOutcome::Failed { error: bounded("legacy turn did not end") }
            }
        },
    }
}

/// The outcome of a task whose turn ended as `turn`: a turn without a structured
/// result is a schema failure, unless legacy results are taken.
pub fn execute_result(turn: Result<PromptTurn, AcpError>, legacy_results: bool) -> (result: Result<
    DispatchOutcome,
    AcpError,
>)
    ensures
        match (turn, result) {
            (Err(error), Err(own)) => own == error,
            (Ok(turn), Ok(outcome)) => (turn.task_result is Some || legacy_results) && outcome_of(
                outcome,
            ) == turn_outcome(turn, legacy_results),
            (Ok(turn), Err(error)) => turn.task_result is None && !legacy_results && error@ == (
            AcpErrorView::Schema {
                method: METHOD_SESSION_PROMPT@,
                detail: "missing taskResult in strict mode"@,
            }),
            (Err(_), Ok(_)) => false,
        },
{
    match turn {
        Err(error) => Err(error),
        Ok(turn) => {
            if turn.task_result.is_none() && !legacy_results {
                return Err(
                    AcpError::Schema {
                        method: METHOD_SESSION_PROMPT.to_owned(),
                        detail: "missing taskResult in strict mode".to_owned(),
                    },
                );
            }
            Ok(map_turn(turn, legacy_results))
        },
    }
}

/// The structured result of a turn that must have one.
pub fn execute_turn_result(turn: Result<PromptTurn, AcpError>) -> (result: Result<
    TurnResult,
    AcpError,
>)
    ensures
        match (turn, result) {
            (Err(error), Err(own)) => own == error,
            (Ok(turn), Ok(own)) => turn.task_result == Some(own),
            (Ok(turn), Err(error)) => turn.task_result is None && error@ == (AcpErrorView::Schema {
                method: METHOD_SESSION_PROMPT@,
                detail: "missing taskResult in strict mode"@,
            }),
            (Err(_), Ok(_)) => false,
        },
{
    match turn {
        Err(error) => Err(error),
        Ok(turn) => strict_result(turn),
    }
}

/// The bounded reason of a failed stage.
pub fn reason_of(error: &AcpError) -> (reason: String)
    ensures
        reason@ == bounded_text(error@.rendered()),
{
    let text = error.to_string();
    bounded(text.as_str())
}

/// A reason never exceeds the bound on details, whatever went wrong.
pub proof fn law_a_reason_is_bounded(error: AcpErrorView)
    ensures
        crate::text::utf8_len(bounded_text(error.rendered())) <= crate::acp::MAX_DETAIL_BYTES,
{
    crate::text::lemma_fit_bounds(error.rendered(), crate::acp::MAX_DETAIL_BYTES as nat);
}

/// Builds an [`AcpDispatcher`].
#[derive(Debug, Clone, PartialEq, Eq)]
pub struct AcpDispatcherBuilder {
    /// The working directory: unset, set to something that is no text, or set.
    pub cwd: Option<Option<String>>,
    pub additional_directories: Vec<String>,
    pub limits: AcpLimits,
    pub sessions: bool,
    pub repository: bool,
    pub reliable: bool,
    pub legacy_results: bool,
}

impl AcpDispatcherBuilder {
    /// What is missing or unusable, where something is: the first of the required
    /// parts.
    pub open spec fn missing(self) -> Option<Seq<char>> {
        if self.cwd is None {
            Some("a working directory is required"@)
        } else if self.cwd->0 is None {
            Some("the working directory must be valid UTF-8"@)
        } else if !self.sessions {
            Some("a session store is required"@)
        } else if !self.repository {
            Some("a repository is required"@)
        } else {
            None
        }
    }

    /// Whether this is a builder with default limits and nothing else: no directory,
    /// no store, and only structured results.
    pub open spec fn is_bare(self) -> bool {
        &&& self.cwd is None
        &&& self.additional_directories@.len() == 0
        &&& self.limits.are_default()
        &&& !self.sessions
        &&& !self.repository
        &&& !self.reliable
        &&& !self.legacy_results
    }

    /// A builder with default limits and nothing else.
    pub fn new() -> (builder: AcpDispatcherBuilder)
        ensures
            builder.is_bare(),
    {
        AcpDispatcherBuilder {
            cwd: None,
            additional_directories: Vec::new(),
            limits: AcpLimits::default(),
            sessions: false,
            repository: false,
            reliable: false,
            legacy_results: false,
        }
    }

    /// The working directory of backend processes and sessions, where its path is a
    /// text.
    pub fn cwd(self, cwd: Option<String>) -> (builder: AcpDispatcherBuilder)
        ensures
            builder == (AcpDispatcherBuilder { cwd: Some(cwd), ..self }),
    {
        let mut builder = self;
        builder.cwd = Some(cwd);
        builder
    }

    /// Further directories of sessions.
    pub fn additional_directories(self, directories: Vec<String>) -> (builder: AcpDispatcherBuilder)
        ensures
            builder == (AcpDispatcherBuilder { additional_directories: directories, ..self }),
    {
        let mut builder = self;
        builder.additional_directories = directories;
        builder
    }

    /// Override the protocol bounds.
    pub fn limits(self, limits: AcpLimits) -> (builder: AcpDispatcherBuilder)
        ensures
            builder == (AcpDispatcherBuilder { limits, ..self }),
    {
        let mut builder = self;
        builder.limits = limits;
        builder
    }

    /// There is a durable session store.
    pub fn sessions(self) -> (builder: AcpDispatcherBuilder)
        ensures
            builder == (AcpDispatcherBuilder { sessions: true, ..self }),
    {
        let mut builder = self;
        builder.sessions = true;
        builder
    }

    /// There is a repository that records and acknowledges deliveries.
    pub fn repository(self) -> (builder: AcpDispatcherBuilder)
        ensures
            builder == (AcpDispatcherBuilder { repository: true, ..self }),
    {
        let mut builder = self;
        builder.repository = true;
        builder
    }

    /// There is a reliability store, which prepares and acknowledges deliveries in
    /// place of the repository.
    pub fn reliability(self) -> (builder: AcpDispatcherBuilder)
        ensures
            builder == (AcpDispatcherBuilder { reliable: true, ..self }),
    {
        let mut builder = self;
        builder.reliable = true;
        builder
    }

    /// Whether a turn without a structured result may complete a task.
    pub fn legacy_results(self, enabled: bool) -> (builder: AcpDispatcherBuilder)
        ensures
            builder == (AcpDispatcherBuilder { legacy_results: enabled, ..self }),
    {
        let mut builder = self;
        builder.legacy_results = enabled;
        builder
    }

    /// The configured dispatcher, or the first thing that is missing or unusable.
    pub fn build(self) -> (built: Result<AcpDispatcher, &'static str>)
        ensures
            match built {
                Ok(dispatcher) => {
                    &&& self.missing() is None
                    &&& dispatcher.directory() == self.cwd->0->0@
                    &&& dispatcher.directories() == views(self.additional_directories@)
                    &&& dispatcher.bounds() == self.limits
                    &&& dispatcher.keeps_dispositions() == self.reliable
                    &&& dispatcher.takes_legacy() == self.legacy_results
                },
                Err(message) => self.missing() == Some(message@),
            },
    {
        match self.cwd {
            None => Err("a working directory is required"),
            Some(None) => Err("the working directory must be valid UTF-8"),
            Some(Some(cwd)) => {
                if !self.sessions {
                    return Err("a session store is required");
                }
                if !self.repository {
                    return Err("a repository is required");
                }
                Ok(
                    AcpDispatcher {
                        cwd,
                        additional_directories: self.additional_directories,
                        limits: self.limits,
                        reliable: self.reliable,
                        legacy_results: self.legacy_results,
                    },
                )
            },
        }
    }
}

impl Default for AcpDispatcherBuilder {
    fn default() -> (builder: AcpDispatcherBuilder)
        ensures
            builder.is_bare(),
    {
        AcpDispatcherBuilder::new()
    }
}

/// The adapter: where its sessions live and how it decides.
#[derive(Debug, Clone, PartialEq, Eq)]
pub struct AcpDispatcher {
    cwd: String,
    additional_directories: Vec<String>,
    limits: AcpLimits,
    reliable: bool,
    legacy_results: bool,
}

impl AcpDispatcher {
    /// The working directory.
    pub closed spec fn directory(&self) -> Seq<char> {
        self.cwd@
    }

    /// The further directories.
    pub closed spec fn directories(&self) -> Seq<Seq<char>> {
        views(self.additional_directories@)
    }

    /// Whether a reliability store keeps the deliveries.
    pub closed spec fn keeps_dispositions(&self) -> bool {
        self.reliable
    }

    /// Start building an adapter.
    pub fn builder() -> (builder: AcpDispatcherBuilder)
        ensures
            builder.is_bare(),
    {
        AcpDispatcherBuilder::new()
    }

    /// The working directory.
    pub fn cwd(&self) -> (cwd: &String)
        ensures
            cwd@ == self.directory(),
    {
        &self.cwd
    }

    /// The further directories.
    pub fn additional_directories(&self) -> (directories: &Vec<String>)
        ensures
            views(directories@) == self.directories(),
    {
        &self.additional_directories
    }

    /// The protocol bounds.
    pub fn limits(&self) -> (limits: AcpLimits)
        ensures
            limits == self.bounds(),
    {
        self.limits
    }

    /// The protocol bounds.
    pub closed spec fn bounds(&self) -> AcpLimits {
        self.limits
    }

    /// Whether a turn without a structured result may complete a task.
    pub closed spec fn takes_legacy(&self) -> bool {
        self.legacy_results
    }

    /// Whether a turn without a structured result may complete a task.
    pub fn legacy_results(&self) -> (enabled: bool)
        ensures
            enabled == self.takes_legacy(),
    {
        self.legacy_results
    }

    /// Begin making a session ready for a delivery.
    pub fn deliver(&self, endpoint: EndpointId, conversation: ConversationId) -> (run: (
        Delivering,
        DeliverAction,
    ))
        ensures
            run.0.context() == (DeliverContext {
                endpoint,
                conversation,
                cwd: self.directory(),
                directories: self.directories(),
                reliable: self.keeps_dispositions(),
            }),
            run.0.stage() == first_stage(self.keeps_dispositions()).0,
            run.1@ == first_stage(self.keeps_dispositions()).1,
    {
        let stage = if self.reliable {
            DeliverStage::AwaitPrepared
        } else {
            DeliverStage::AwaitClient
        };
        let action = if self.reliable {
            DeliverAction::Prepare
        } else {
            DeliverAction::EnsureClient
        };
        let run = Delivering {
            endpoint,
            conversation,
            cwd: self.cwd.clone(),
            additional_directories: copy_texts(&self.additional_directories),
            reliable: self.reliable,
            stage,
        };
        (run, action)
    }
}

/// What a delivery is made for.
pub ghost struct DeliverContext {
    pub endpoint: EndpointId,
    pub conversation: ConversationId,
    pub cwd: Seq<char>,
    pub directories: Seq<Seq<char>>,
    pub reliable: bool,
}

/// Where a delivery is.
pub ghost enum DeliverStageView {
    AwaitPrepared,
    AwaitClient,
    AwaitSession { backend: Seq<char> },
    AwaitOpened { backend: Seq<char> },
    AwaitStored { session: Seq<char> },
    AwaitDisposed,
    AwaitRecorded,
    AwaitAcknowledged,
    Done,
}

/// What came of an action.
pub enum DeliverInput {
    /// Whether the delivery was prepared.
    Prepared(bool),
    /// The running backend's identity.
    Client(Result<String, AcpError>),
    /// The live session, where there is one.
    Session(Result<Option<String>, StorageError>),
    /// The session that the agent answered with, at this instant.
    Opened(Result<String, AcpError>, Timestamp),
    /// Whether the session was stored.
    Stored(Result<(), StorageError>),
    /// Whether the delivery was acknowledged and not fenced off.
    Disposed(Option<bool>),
    /// Whether the delivery was recorded or acknowledged.
    Recorded(Result<(), StorageError>),
}

/// What came of an action, as data.
pub ghost enum DeliverInputView {
    Prepared(bool),
    Client(Result<Seq<char>, AcpErrorView>),
    Session(Result<Option<Seq<char>>, StorageErrorView>),
    Opened(Result<Seq<char>, AcpErrorView>, Timestamp),
    Stored(Result<(), StorageErrorView>),
    Disposed(Option<bool>),
    Recorded(Result<(), StorageErrorView>),
}

/// A result with a text, as data.
pub open spec fn text_result(result: Result<String, AcpError>) -> Result<Seq<char>, AcpErrorView> {
    match result {
        Ok(text) => Ok(text@),
        Err(error) => Err(error@),
    }
}

/// A stored result, as data.
pub open spec fn stored_result(result: Result<(), StorageError>) -> Result<(), StorageErrorView> {
    match result {
        Ok(_) => Ok(()),
        Err(error) => Err(error@),
    }
}

/// A lookup, as data.
pub open spec fn found_result(result: Result<Option<String>, StorageError>) -> Result<
    Option<Seq<char>>,
    StorageErrorView,
> {
    match result {
        Ok(Some(text)) => Ok(Some(text@)),
        Ok(None) => Ok(None),
        Err(error) => Err(error@),
    }
}

impl View for DeliverInput {
    type V = DeliverInputView;

    open spec fn view(&self) -> DeliverInputView {
        match self {
            DeliverInput::Prepared(done) => DeliverInputView::Prepared(*done),
            DeliverInput::Client(backend) => DeliverInputView::Client(text_result(*backend)),
            DeliverInput::Session(found) => DeliverInputView::Session(found_result(*found)),
            DeliverInput::Opened(session, at) => DeliverInputView::Opened(
                text_result(*session),
                *at,
            ),
            DeliverInput::Stored(result) => DeliverInputView::Stored(stored_result(*result)),
            DeliverInput::Disposed(fate) => DeliverInputView::Disposed(*fate),
            DeliverInput::Recorded(result) => DeliverInputView::Recorded(stored_result(*result)),
        }
    }
}

/// What to do next for a delivery.
pub enum DeliverAction {
    /// Prepare the delivery in the reliability store.
    Prepare,
    /// Make sure that a backend runs and is negotiated.
    EnsureClient,
    /// Look the live session up.
    FindSession { backend_id: String },
    /// Ask the agent to resume the session.
    Resume { session_id: String },
    /// Ask the agent for a session.
    Open,
    /// Store the session.
    Store(StoredSession),
    /// Acknowledge the delivery in the reliability store.
    Dispose { session_id: String },
    /// Record the delivery in the repository.
    Record,
    /// Acknowledge the delivery in the repository.
    Acknowledge,
    /// The delivery was accepted.
    Accepted,
    /// The delivery was not accepted.
    Refused(AcpError),
}

/// What to do next for a delivery, as data.
pub ghost enum DeliverActionView {
    Prepare,
    EnsureClient,
    FindSession(Seq<char>),
    Resume(Seq<char>),
    Open,
    Store(SessionView),
    Dispose(Seq<char>),
    Record,
    Acknowledge,
    Accepted,
    Refused(AcpErrorView),
}

impl View for DeliverAction {
    type V = DeliverActionView;

    open spec fn view(&self) -> DeliverActionView {
        match self {
            DeliverAction::Prepare => DeliverActionView::Prepare,
            DeliverAction::EnsureClient => DeliverActionView::EnsureClient,
            DeliverAction::FindSession { backend_id } => DeliverActionView::FindSession(
                backend_id@,
            ),
            DeliverAction::Resume { session_id } => DeliverActionView::Resume(session_id@),
            DeliverAction::Open => DeliverActionView::Open,
            DeliverAction::Store(session) => DeliverActionView::Store(session@),
            DeliverAction::Dispose { session_id } => DeliverActionView::Dispose(session_id@),
            DeliverAction::Record => DeliverActionView::Record,
            DeliverAction::Acknowledge => DeliverActionView::Acknowledge,
            DeliverAction::Accepted => DeliverActionView::Accepted,
            DeliverAction::Refused(error) => DeliverActionView::Refused(error@),
        }
    }
}

/// A reliability store that did not do its part.
pub open spec fn disposition_fault(detail: Seq<char>) -> AcpErrorView {
    AcpErrorView::Storage(
        StorageErrorView::Malformed { field: "delivery_dispositions"@, detail },
    )
}

/// How a delivery starts.
pub open spec fn first_stage(reliable: bool) -> (DeliverStageView, DeliverActionView) {
    if reliable {
        (DeliverStageView::AwaitPrepared, DeliverActionView::Prepare)
    } else {
        (DeliverStageView::AwaitClient, DeliverActionView::EnsureClient)
    }
}

/// The end of a delivery that was not accepted.
pub open spec fn refused_delivery(error: AcpErrorView) -> (DeliverStageView, DeliverActionView) {
    (DeliverStageView::Done, DeliverActionView::Refused(error))
}

/// Whether `input` answers what a delivery in `stage` waits for.
pub open spec fn deliver_expects(stage: DeliverStageView, input: DeliverInputView) -> bool {
    match stage {
        DeliverStageView::AwaitPrepared => input is Prepared,
        DeliverStageView::AwaitClient => input is Client,
        DeliverStageView::AwaitSession { backend: _ } => input is Session,
        DeliverStageView::AwaitOpened { backend: _ } => input is Opened,
        DeliverStageView::AwaitStored { session: _ } => input is Stored,
        DeliverStageView::AwaitDisposed => input is Disposed,
        DeliverStageView::AwaitRecorded => input is Recorded,
        DeliverStageView::AwaitAcknowledged => input is Recorded,
        DeliverStageView::Done => false,
    }
}

/// How a delivery goes on.
pub open spec fn deliver_next(
    context: DeliverContext,
    stage: DeliverStageView,
    input: DeliverInputView,
) -> (DeliverStageView, DeliverActionView) {
    match (stage, input) {
        (DeliverStageView::AwaitPrepared, DeliverInputView::Prepared(done)) => if done {
            (DeliverStageView::AwaitClient, DeliverActionView::EnsureClient)
        } else {
            refused_delivery(disposition_fault("delivery preparation failed"@))
        },
        (DeliverStageView::AwaitClient, DeliverInputView::Client(Ok(backend))) => (
            DeliverStageView::AwaitSession { backend },
            DeliverActionView::FindSession(backend),
        ),
        (DeliverStageView::AwaitClient, DeliverInputView::Client(Err(error))) => refused_delivery(
            error,
        ),
        (
            DeliverStageView::AwaitSession { backend },
            DeliverInputView::Session(Ok(Some(session))),
        ) => (DeliverStageView::AwaitOpened { backend }, DeliverActionView::Resume(session)),
        (DeliverStageView::AwaitSession { backend }, DeliverInputView::Session(Ok(None))) => (
            DeliverStageView::AwaitOpened { backend },
            DeliverActionView::Open,
        ),
        (DeliverStageView::AwaitSession { backend: _ }, DeliverInputView::Session(Err(error))) =>
            refused_delivery(AcpErrorView::Storage(error)),
        (
            DeliverStageView::AwaitOpened { backend },
            DeliverInputView::Opened(Ok(session), at),
        ) => if usable_session_id(session) {
            (
                DeliverStageView::AwaitStored { session },
                DeliverActionView::Store(
                    accepted_session(
                        session,
                        context.endpoint,
                        context.conversation,
                        context.cwd,
                        context.directories,
                        backend,
                        at,
                    ),
                ),
            )
        } else {
            refused_delivery(
                AcpErrorView::Storage(
                    StorageErrorView::Malformed {
                        field: "sessions.session_id"@,
                        detail: "session id is empty or too long"@,
                    },
                ),
            )
        },
        (DeliverStageView::AwaitOpened { backend: _ }, DeliverInputView::Opened(Err(error), _)) =>
            refused_delivery(error),
        (DeliverStageView::AwaitStored { session }, DeliverInputView::Stored(Ok(_))) => if
        context.reliable {
            (DeliverStageView::AwaitDisposed, DeliverActionView::Dispose(session))
        } else {
            (DeliverStageView::AwaitRecorded, DeliverActionView::Record)
        },
        (DeliverStageView::AwaitStored { session: _ }, DeliverInputView::Stored(Err(error))) =>
            refused_delivery(AcpErrorView::Storage(error)),
        (DeliverStageView::AwaitRecorded, DeliverInputView::Recorded(Ok(_))) => (
            DeliverStageView::AwaitAcknowledged,
            DeliverActionView::Acknowledge,
        ),
        (DeliverStageView::AwaitAcknowledged, DeliverInputView::Recorded(Ok(_))) => (
            DeliverStageView::Done,
            DeliverActionView::Accepted,
        ),
        (DeliverStageView::AwaitDisposed, DeliverInputView::Disposed(Some(true))) => (
            DeliverStageView::Done,
            DeliverActionView::Accepted,
        ),
        (DeliverStageView::AwaitDisposed, DeliverInputView::Disposed(Some(false))) =>
            refused_delivery(disposition_fault("delivery acknowledgement was fenced"@)),
        (DeliverStageView::AwaitDisposed, DeliverInputView::Disposed(None)) => refused_delivery(
            disposition_fault("delivery acknowledgement failed"@),
        ),
        (_, DeliverInputView::Recorded(Err(error))) => refused_delivery(
            AcpErrorView::Storage(error),
        ),
        _ => (stage, DeliverActionView::Refused(AcpErrorView::TransportClosed)),
    }
}

/// Where a delivery is.
enum DeliverStage {
    AwaitPrepared,
    AwaitClient,
    AwaitSession { backend: String },
    AwaitOpened { backend: String },
    AwaitStored { session: String },
    AwaitDisposed,
    AwaitRecorded,
    AwaitAcknowledged,
    Done,
}

impl View for DeliverStage {
    type V = DeliverStageView;

    closed spec fn view(&self) -> DeliverStageView {
        match self {
            DeliverStage::AwaitPrepared => DeliverStageView::AwaitPrepared,
            DeliverStage::AwaitClient => DeliverStageView::AwaitClient,
            DeliverStage::AwaitSession { backend } => DeliverStageView::AwaitSession {
                backend: backend@,
            },
            DeliverStage::AwaitOpened { backend } => DeliverStageView::AwaitOpened {
                backend: backend@,
            },
            DeliverStage::AwaitStored { session } => DeliverStageView::AwaitStored {
                session: session@,
            },
            DeliverStage::AwaitDisposed => DeliverStageView::AwaitDisposed,
            DeliverStage::AwaitRecorded => DeliverStageView::AwaitRecorded,
            DeliverStage::AwaitAcknowledged => DeliverStageView::AwaitAcknowledged,
            DeliverStage::Done => DeliverStageView::Done,
        }
    }
}

/// A delivery on its way.
pub struct Delivering {
    endpoint: EndpointId,
    conversation: ConversationId,
    cwd: String,
    additional_directories: Vec<String>,
    reliable: bool,
    stage: DeliverStage,
}

impl Delivering {
    /// What the delivery is made for.
    pub closed spec fn context(&self) -> DeliverContext {
        DeliverContext {
            endpoint: self.endpoint,
            conversation: self.conversation,
            cwd: self.cwd@,
            directories: views(self.additional_directories@),
            reliable: self.reliable,
        }
    }

    /// Where the delivery is.
    pub closed spec fn stage(&self) -> DeliverStageView {
        self.stage@
    }

    /// Whether `input` answers what the delivery waits for.
    pub fn expects(&self, input: &DeliverInput) -> (yes: bool)
        ensures
            yes == deliver_expects(self.stage(), input@),
    {
        match (&self.stage, input) {
            (DeliverStage::AwaitPrepared, DeliverInput::Prepared(_)) => true,
            (DeliverStage::AwaitClient, DeliverInput::Client(_)) => true,
            (DeliverStage::AwaitSession { backend: _ }, DeliverInput::Session(_)) => true,
            (DeliverStage::AwaitOpened { backend: _ }, DeliverInput::Opened(_, _)) => true,
            (DeliverStage::AwaitStored { session: _ }, DeliverInput::Stored(_)) => true,
            (DeliverStage::AwaitDisposed, DeliverInput::Disposed(_)) => true,
            (DeliverStage::AwaitRecorded, DeliverInput::Recorded(_)) => true,
            (DeliverStage::AwaitAcknowledged, DeliverInput::Recorded(_)) => true,
            _ => false,
        }
    }

    /// The agent answered with a session: store it.
    fn opened(&mut self, backend: String, session: String, at: Timestamp) -> (action: DeliverAction)
        ensures
            final(self).context() == old(self).context(),
            (final(self).stage(), action@) == deliver_next(
                old(self).context(),
                DeliverStageView::AwaitOpened { backend: backend@ },
                DeliverInputView::Opened(Ok(session@), at),
            ),
    {
        match StoredSession::new_with_workspaces(
            session.clone(),
            self.endpoint,
            self.conversation,
            self.cwd.clone(),
            &self.additional_directories,
            backend,
            at,
        ) {
            Ok(stored) => {
                self.stage = DeliverStage::AwaitStored { session };
                DeliverAction::Store(stored)
            },
            Err(source) => {
                self.stage = DeliverStage::Done;
                DeliverAction::Refused(AcpError::Storage { source })
            },
        }
    }

    /// A reliability store did not do its part.
    fn undisposed(&mut self, detail: &str) -> (action: DeliverAction)
        ensures
            final(self).context() == old(self).context(),
            (final(self).stage(), action@) == refused_delivery(disposition_fault(detail@)),
    {
        self.stage = DeliverStage::Done;
        DeliverAction::Refused(
            AcpError::Storage { source: StorageError::malformed("delivery_dispositions", detail) },
        )
    }

    /// Go on with what came of the last action.
    pub fn step(&mut self, input: DeliverInput) -> (action: DeliverAction)
        requires
            deliver_expects(old(self).stage(), input@),
        ensures
            final(self).context() == old(self).context(),
            (final(self).stage(), action@) == deliver_next(
                old(self).context(),
                old(self).stage(),
                input@,
            ),
    {
        let mut stage = DeliverStage::Done;
        std::mem::swap(&mut stage, &mut self.stage);
        match (stage, input) {
            (DeliverStage::AwaitPrepared, DeliverInput::Prepared(done)) => {
                if done {
                    self.stage = DeliverStage::AwaitClient;
                    DeliverAction::EnsureClient
                } else {
                    self.undisposed("delivery preparation failed")
                }
            },
            (DeliverStage::AwaitClient, DeliverInput::Client(Ok(backend))) => {
                let backend_id = backend.clone();
                self.stage = DeliverStage::AwaitSession { backend };
                DeliverAction::FindSession { backend_id }
            },
            (DeliverStage::AwaitClient, DeliverInput::Client(Err(error))) => {
                DeliverAction::Refused(error)
            },
            (DeliverStage::AwaitSession { backend }, DeliverInput::Session(Ok(Some(session_id)))) => {
                self.stage = DeliverStage::AwaitOpened { backend };
                DeliverAction::Resume { session_id }
            },
            (DeliverStage::AwaitSession { backend }, DeliverInput::Session(Ok(None))) => {
                self.stage = DeliverStage::AwaitOpened { backend };
                DeliverAction::Open
            },
            (DeliverStage::AwaitSession { backend: _ }, DeliverInput::Session(Err(source))) => {
                DeliverAction::Refused(AcpError::Storage { source })
            },
            (DeliverStage::AwaitOpened { backend }, DeliverInput::Opened(Ok(session), at)) => {
                self.opened(backend, session, at)
            },
            (DeliverStage::AwaitOpened { backend: _ }, DeliverInput::Opened(Err(error), _)) => {
                DeliverAction::Refused(error)
            },
            (DeliverStage::AwaitStored { session }, DeliverInput::Stored(Ok(_))) => {
                if self.reliable {
                    self.stage = DeliverStage::AwaitDisposed;
                    DeliverAction::Dispose { session_id: session }
                } else {
                    self.stage = DeliverStage::AwaitRecorded;
                    DeliverAction::Record
                }
            },
            (DeliverStage::AwaitStored { session: _ }, DeliverInput::Stored(Err(source))) => {
                DeliverAction::Refused(AcpError::Storage { source })
            },
            (DeliverStage::AwaitRecorded, DeliverInput::Recorded(Ok(_))) => {
                self.stage = DeliverStage::AwaitAcknowledged;
                DeliverAction::Acknowledge
            },
            (DeliverStage::AwaitAcknowledged, DeliverInput::Recorded(Ok(_))) => {
                DeliverAction::Accepted
            },
            (_, DeliverInput::Recorded(Err(source))) => {
                DeliverAction::Refused(AcpError::Storage { source })
            },
            (DeliverStage::AwaitDisposed, DeliverInput::Disposed(Some(true))) => {
                DeliverAction::Accepted
            },
            (DeliverStage::AwaitDisposed, DeliverInput::Disposed(Some(false))) => {
                self.undisposed("delivery acknowledgement was fenced")
            },
            (DeliverStage::AwaitDisposed, DeliverInput::Disposed(None)) => {
                self.undisposed("delivery acknowledgement failed")
            },
            _ => {
                assert(false);
                DeliverAction::Refused(AcpError::TransportClosed)
            },
        }
    }
}

/// A run of a delivery: where it is after `inputs`, and what it does next.
pub open spec fn delivered(context: DeliverContext, inputs: Seq<DeliverInputView>) -> (
    DeliverStageView,
    DeliverActionView,
)
    decreases inputs.len(),
{
    if inputs.len() == 0 {
        first_stage(context.reliable)
    } else {
        deliver_next(context, delivered(context, inputs.drop_last()).0, inputs.last())
    }
}

/// Whether every input of a run answered what the run waited for.
pub open spec fn answers_deliver(context: DeliverContext, inputs: Seq<DeliverInputView>) -> bool
    decreases inputs.len(),
{
    inputs.len() == 0 || {
        &&& answers_deliver(context, inputs.drop_last())
        &&& deliver_expects(delivered(context, inputs.drop_last()).0, inputs.last())
    }
}

/// Whether the agent answered with a usable session in a run.
pub open spec fn agent_answered(inputs: Seq<DeliverInputView>) -> bool {
    exists|i: int|
        0 <= i < inputs.len() && (#[trigger] inputs[i] matches DeliverInputView::Opened(
            Ok(session),
            _,
        ) && usable_session_id(session))
}

/// Whether the session was stored in a run.
pub open spec fn session_stored(inputs: Seq<DeliverInputView>) -> bool {
    exists|i: int|
        0 <= i < inputs.len() && (#[trigger] inputs[i] matches DeliverInputView::Stored(Ok(_)))
}

/// Whether the delivery was made durable in a run.
pub open spec fn made_durable(inputs: Seq<DeliverInputView>) -> bool {
    exists|i: int|
        0 <= i < inputs.len() && match #[trigger] inputs[i] {
            DeliverInputView::Disposed(Some(unfenced)) => unfenced,
            DeliverInputView::Recorded(Ok(_)) => true,
            _ => false,
        }
}

/// What a run has behind it once a session was opened or stored.
proof fn lemma_delivery_progress(context: DeliverContext, inputs: Seq<DeliverInputView>)
    requires
        answers_deliver(context, inputs),
    ensures
        delivered(context, inputs).0 is AwaitStored ==> agent_answered(inputs),
        ({
            let stage = delivered(context, inputs).0;
            stage is AwaitDisposed || stage is AwaitRecorded || stage is AwaitAcknowledged
        }) ==> agent_answered(inputs) && session_stored(inputs),
        delivered(context, inputs).1 is Accepted ==> agent_answered(inputs) && session_stored(
            inputs,
        ) && made_durable(inputs),
    decreases inputs.len(),
{
    if inputs.len() > 0 {
        let before = inputs.drop_last();
        lemma_delivery_progress(context, before);
        let last = inputs.len() - 1;
        assert(inputs[last] == inputs.last());
        if agent_answered(before) {
            let i = choose|i: int|
                0 <= i < before.len() && (#[trigger] before[i] matches DeliverInputView::Opened(
                    Ok(session),
                    _,
                ) && usable_session_id(session));
            assert(inputs[i] == before[i]);
            assert(agent_answered(inputs));
        }
        if session_stored(before) {
            let i = choose|i: int|
                0 <= i < before.len() && (#[trigger] before[i] matches DeliverInputView::Stored(
                    Ok(_),
                ));
            assert(inputs[i] == before[i]);
            assert(session_stored(inputs));
        }
        assert(inputs[last] matches DeliverInputView::Stored(Ok(_)) ==> session_stored(inputs));
        if delivered(context, inputs).1 is Accepted {
            assert(made_durable(inputs));
        }
    }
}

/// A delivery counts as accepted only after the agent answered it with a usable
/// session, the session was stored, and the delivery itself was made durable.
pub proof fn law_acceptance_rests_on_an_answer_and_a_record(
    context: DeliverContext,
    inputs: Seq<DeliverInputView>,
)
    requires
        answers_deliver(context, inputs),
        delivered(context, inputs).1 is Accepted,
    ensures
        agent_answered(inputs),
        session_stored(inputs),
        made_durable(inputs),
{
    lemma_delivery_progress(context, inputs);
}

/// What a delivery on its way has behind it.
proof fn lemma_delivery_so_far(context: DeliverContext, inputs: Seq<DeliverInputView>)
    requires
        answers_deliver(context, inputs),
    ensures
        ({
            let first: int = if context.reliable {
                1
            } else {
                0
            };
            let n = inputs.len();
            match delivered(context, inputs).0 {
                DeliverStageView::AwaitPrepared => context.reliable && n == 0,
                DeliverStageView::AwaitClient => n == first,
                DeliverStageView::AwaitSession { backend } => n == first + 1 && inputs[first]
                    == DeliverInputView::Client(Ok(backend)),
                DeliverStageView::AwaitOpened { backend } => n == first + 2 && inputs[first]
                    == DeliverInputView::Client(Ok(backend)),
                DeliverStageView::AwaitStored { session } => n == first + 3 && (inputs[first + 2]
                    matches DeliverInputView::Opened(Ok(own), _) && own == session),
                DeliverStageView::AwaitDisposed => context.reliable && n == 5,
                DeliverStageView::AwaitRecorded => !context.reliable && n == 4,
                DeliverStageView::AwaitAcknowledged => !context.reliable && n == 5,
                DeliverStageView::Done => true,
            }
        }),
    decreases inputs.len(),
{
    if inputs.len() > 0 {
        lemma_delivery_so_far(context, inputs.drop_last());
    }
}

/// How a delivery goes, input by input. Where dispositions are kept, it is prepared first
/// and acknowledged there last; where they are not, it is recorded and acknowledged in the
/// repository. In between a backend is found, the conversation's session is resumed or a
/// new one opened, and the session that the agent answered with is stored. Whatever fails
/// on the way refuses the delivery with that failure.
pub proof fn law_a_delivery_goes_step_by_step(
    context: DeliverContext,
    inputs: Seq<DeliverInputView>,
)
    requires
        answers_deliver(context, inputs),
        inputs.len() > 0,
    ensures
        ({
            let action = delivered(context, inputs).1;
            let first: int = if context.reliable {
                1
            } else {
                0
            };
            match inputs.last() {
                DeliverInputView::Prepared(done) => inputs.len() == 1 && action == (if done {
                    DeliverActionView::EnsureClient
                } else {
                    DeliverActionView::Refused(
                        disposition_fault("delivery preparation failed"@),
                    )
                }),
                DeliverInputView::Client(Err(error)) => action == DeliverActionView::Refused(error),
                DeliverInputView::Client(Ok(backend)) => action == DeliverActionView::FindSession(
                    backend,
                ),
                DeliverInputView::Session(Err(error)) => action == DeliverActionView::Refused(
                    AcpErrorView::Storage(error),
                ),
                DeliverInputView::Session(Ok(Some(session))) => action
                    == DeliverActionView::Resume(session),
                DeliverInputView::Session(Ok(None)) => action == DeliverActionView::Open,
                DeliverInputView::Opened(Err(error), _) => action == DeliverActionView::Refused(
                    error,
                ),
                DeliverInputView::Opened(Ok(session), at) => if session.len() > 0 && utf8_len(
                    session,
                ) <= MAX_SESSION_ID_BYTES {
                    action matches DeliverActionView::Store(stored) && {
                        &&& stored.session_id == session
                        &&& stored.endpoint_id == context.endpoint
                        &&& stored.conversation_id == context.conversation
                        &&& stored.cwd == context.cwd
                        &&& stored.additional_directories == rendered_json(
                            texts_value(context.directories),
                        )
                        &&& inputs[first] == DeliverInputView::Client(Ok(stored.backend_id))
                        &&& stored.compatibility_version == 1
                        &&& stored.compatibility_hash == compatibility(
                            stored.backend_id,
                            PROTOCOL_VERSION,
                            context.cwd,
                            context.directories,
                        )
                        &&& stored.protocol_version == PROTOCOL_VERSION
                        &&& stored.state is Ready
                        &&& stored.created_at == at
                        &&& stored.updated_at == at
                    }
                } else {
                    action == DeliverActionView::Refused(
                        AcpErrorView::Storage(
                            StorageErrorView::Malformed {
                                field: "sessions.session_id"@,
                                detail: "session id is empty or too long"@,
                            },
                        ),
                    )
                },
                DeliverInputView::Stored(Err(error)) => action == DeliverActionView::Refused(
                    AcpErrorView::Storage(error),
                ),
                DeliverInputView::Stored(Ok(_)) => if context.reliable {
                    inputs[3] matches DeliverInputView::Opened(Ok(session), _) && action
                        == DeliverActionView::Dispose(session)
                } else {
                    action == DeliverActionView::Record
                },
                DeliverInputView::Recorded(Err(error)) => action == DeliverActionView::Refused(
                    AcpErrorView::Storage(error),
                ),
                DeliverInputView::Recorded(Ok(_)) => action == (if inputs.len() == 5 {
                    DeliverActionView::Acknowledge
                } else {
                    DeliverActionView::Accepted
                }),
                DeliverInputView::Disposed(Some(true)) => action == DeliverActionView::Accepted,
                DeliverInputView::Disposed(Some(false)) => action == DeliverActionView::Refused(
                    disposition_fault("delivery acknowledgement was fenced"@),
                ),
                DeliverInputView::Disposed(None) => action == DeliverActionView::Refused(
                    disposition_fault("delivery acknowledgement failed"@),
                ),
            }
        }),
{
    lemma_delivery_so_far(context, inputs);
    lemma_delivery_so_far(context, inputs.drop_last());
}

/// A delivery begins with its preparation where dispositions are kept, and with the backend
/// otherwise; it waits for what answers its last action, and for nothing once it is over.
pub proof fn law_a_delivery_waits_for_what_it_asked(
    context: DeliverContext,
    inputs: Seq<DeliverInputView>,
    next: DeliverInputView,
)
    requires
        answers_deliver(context, inputs),
    ensures
        inputs.len() == 0 ==> delivered(context, inputs).1 == (if context.reliable {
            DeliverActionView::Prepare
        } else {
            DeliverActionView::EnsureClient
        }),
        answers_deliver(context, inputs.push(next)) <==> (match delivered(context, inputs).1 {
            DeliverActionView::Prepare => next is Prepared,
            DeliverActionView::EnsureClient => next is Client,
            DeliverActionView::FindSession(_) => next is Session,
            DeliverActionView::Resume(_) => next is Opened,
            DeliverActionView::Open => next is Opened,
            DeliverActionView::Store(_) => next is Stored,
            DeliverActionView::Dispose(_) => next is Disposed,
            DeliverActionView::Record => next is Recorded,
            DeliverActionView::Acknowledge => next is Recorded,
            DeliverActionView::Accepted => false,
            DeliverActionView::Refused(_) => false,
        }),
{
    assert(inputs.push(next).drop_last() =~= inputs);
    lemma_delivery_so_far(context, inputs);
    if inputs.len() > 0 {
        lemma_delivery_so_far(context, inputs.drop_last());
    }
}

/// What a turn means for its task. A task is completed only where the turn says so, with
/// the output that it gives, or, where older results are taken, where the turn says nothing
/// and ended by itself, with what it streamed. Anything else fails the task, for the reason
/// that the turn gives.
pub proof fn law_a_task_is_completed_where_its_turn_says_so(
    turn: PromptTurn,
    legacy_results: bool,
)
    ensures
        match turn.task_result {
            Some(TurnResult::Completed { output }) => turn_outcome(turn, legacy_results) == Ok::<
                Seq<char>,
                Seq<char>,
            >(output@),
            Some(TurnResult::Failed { reason }) => turn_outcome(turn, legacy_results) == Err::<
                Seq<char>,
                Seq<char>,
            >(bounded_text(reason@)),
            Some(TurnResult::Blocked { reason }) => turn_outcome(turn, legacy_results) == Err::<
                Seq<char>,
                Seq<char>,
            >(bounded_text("blocked: "@ + reason@)),
            Some(TurnResult::Continue { reason, .. }) => turn_outcome(turn, legacy_results)
                == Err::<Seq<char>, Seq<char>>(bounded_text("continue: "@ + reason@)),
            None => if legacy_results && turn.stop_reason is EndTurn {
                turn_outcome(turn, legacy_results) == Ok::<Seq<char>, Seq<char>>(turn.text@)
            } else {
                turn_outcome(turn, legacy_results) is Err
            },
        },
{
}

/// What a delivery is told, and what it asks for, is seen as it is; and so is an outcome.
pub proof fn law_a_delivery_is_seen_as_it_is(
    input: DeliverInput,
    action: DeliverAction,
    outcome: DispatchOutcome,
)
    ensures
        match input {
            DeliverInput::Prepared(done) => input@ == DeliverInputView::Prepared(done),
            DeliverInput::Client(Ok(backend)) => input@ == DeliverInputView::Client(Ok(backend@)),
            DeliverInput::Client(Err(error)) => input@ == DeliverInputView::Client(Err(error@)),
            DeliverInput::Session(Ok(Some(session))) => input@ == DeliverInputView::Session(
                Ok(Some(session@)),
            ),
            DeliverInput::Session(Ok(None)) => input@ == DeliverInputView::Session(Ok(None)),
            DeliverInput::Session(Err(error)) => input@ == DeliverInputView::Session(Err(error@)),
            DeliverInput::Opened(Ok(session), at) => input@ == DeliverInputView::Opened(
                Ok(session@),
                at,
            ),
            DeliverInput::Opened(Err(error), at) => input@ == DeliverInputView::Opened(
                Err(error@),
                at,
            ),
            DeliverInput::Stored(Ok(_)) => input@ matches DeliverInputView::Stored(Ok(_)),
            DeliverInput::Stored(Err(error)) => input@ == DeliverInputView::Stored(Err(error@)),
            DeliverInput::Disposed(fate) => input@ == DeliverInputView::Disposed(fate),
            DeliverInput::Recorded(Ok(_)) => input@ matches DeliverInputView::Recorded(Ok(_)),
            DeliverInput::Recorded(Err(error)) => input@ == DeliverInputView::Recorded(
                Err(error@),
            ),
        },
        match action {
            DeliverAction::Prepare => action@ is Prepare,
            DeliverAction::EnsureClient => action@ is EnsureClient,
            DeliverAction::FindSession { backend_id } => action@ == DeliverActionView::FindSession(
                backend_id@,
            ),
            DeliverAction::Resume { session_id } => action@ == DeliverActionView::Resume(
                session_id@,
            ),
            DeliverAction::Open => action@ is Open,
            DeliverAction::Store(session) => action@ == DeliverActionView::Store(session@),
            DeliverAction::Dispose { session_id } => action@ == DeliverActionView::Dispose(
                session_id@,
            ),
            DeliverAction::Record => action@ is Record,
            DeliverAction::Acknowledge => action@ is Acknowledge,
            DeliverAction::Accepted => action@ is Accepted,
            DeliverAction::Refused(error) => action@ == DeliverActionView::Refused(error@),
        },
        match outcome {
            DispatchOutcome::Completed { output } => outcome_of(outcome) == Ok::<
                Seq<char>,
                Seq<char>,
            >(output@),
            DispatchOutcome::Failed { error } => outcome_of(outcome) == Err::<
                Seq<char>,
                Seq<char>,
            >(error@),
        },
{
}

} // verus!
