//! One turn on an accepted session.
//!
//! The session is looked up, marked as prompting, prompted and marked as ready
//! again. A backend that is gone, before or during the turn, is restored with its
//! session, and the turn then needs recovery: its prompt is not sent again.

use vstd::prelude::*;
use vstd::string::*;

use crate::acp::client::PromptTurn;
use crate::acp::dispatcher::found_result;
use crate::acp::dispatcher::stored_result;
use crate::acp::error::AcpError;
use crate::acp::error::AcpErrorView;
use crate::acp::session::SessionState;
use crate::storage::StorageError;
use crate::storage::StorageErrorView;

verus! {

/// How a turn ended, as data.
pub type TurnEnd = Result<PromptTurn, AcpErrorView>;

/// A turn's end as data.
pub open spec fn end_view(end: Result<PromptTurn, AcpError>) -> TurnEnd {
    match end {
        Ok(turn) => Ok(turn),
        Err(error) => Err(error@),
    }
}

/// Something that was done or failed, as data.
pub open spec fn done_view(done: Result<(), AcpError>) -> Result<(), AcpErrorView> {
    match done {
        Ok(_) => Ok(()),
        Err(error) => Err(error@),
    }
}

/// Where a turn is.
pub ghost enum TurnStageView {
    AwaitSession,
    AwaitClient { session: Seq<char> },
    AwaitResumed,
    AwaitPrompting { session: Seq<char> },
    AwaitStream { session: Seq<char> },
    AwaitTurn { session: Seq<char> },
    AwaitReady { session: Seq<char>, end: TurnEnd },
    Done,
}

/// What came of an action, as data.
pub ghost enum TurnInputView {
    Found { session: Result<Option<Seq<char>>, StorageErrorView>, alive: bool },
    Client(Result<(), AcpErrorView>),
    Resumed(Result<(), AcpErrorView>),
    Marked(Result<(), StorageErrorView>),
    Streaming(Result<(), AcpErrorView>),
    Turn(TurnEnd),
}

/// What to do next, as data.
pub ghost enum TurnActionView {
    FindSession(Seq<char>),
    EnsureClient,
    Resume(Seq<char>),
    Mark(Seq<char>, SessionState),
    Prompt(Seq<char>),
    Stream(Seq<char>),
    Running,
    Finished(TurnEnd),
}

/// The end of a turn that failed.
pub open spec fn failed_turn(error: AcpErrorView) -> (TurnStageView, TurnActionView) {
    (TurnStageView::Done, TurnActionView::Finished(Err(error)))
}

/// Whether `input` answers what a turn in `stage` waits for.
pub open spec fn turn_expects(stage: TurnStageView, input: TurnInputView) -> bool {
    match stage {
        TurnStageView::AwaitSession => input is Found,
        TurnStageView::AwaitClient { session: _ } => input is Client,
        TurnStageView::AwaitResumed => input is Resumed,
        TurnStageView::AwaitPrompting { session: _ } => input is Marked,
        TurnStageView::AwaitStream { session: _ } => input is Streaming,
        TurnStageView::AwaitTurn { session: _ } => input is Turn,
        TurnStageView::AwaitReady { session: _, end: _ } => input is Marked,
        TurnStageView::Done => false,
    }
}

/// How a turn goes on. Where it streams, its end comes after the stream was
/// started; where it does not, the prompt is answered with its end.
pub open spec fn turn_next(streams: bool, stage: TurnStageView, input: TurnInputView) -> (
    TurnStageView,
    TurnActionView,
) {
    match (stage, input) {
        (TurnStageView::AwaitSession, TurnInputView::Found { session: Err(error), alive: _ }) =>
            failed_turn(AcpErrorView::Storage(error)),
        (TurnStageView::AwaitSession, TurnInputView::Found { session: Ok(None), alive: _ }) =>
            failed_turn(AcpErrorView::SessionId("no live session for this delivery"@)),
        (TurnStageView::AwaitSession, TurnInputView::Found { session: Ok(Some(session)), alive }) =>
        if alive {
            (
                TurnStageView::AwaitPrompting { session },
                TurnActionView::Mark(session, SessionState::Prompting),
            )
        } else {
            (TurnStageView::AwaitClient { session }, TurnActionView::EnsureClient)
        },
        (TurnStageView::AwaitClient { session }, TurnInputView::Client(Ok(_))) => (
            TurnStageView::AwaitResumed,
            TurnActionView::Resume(session),
        ),
        (TurnStageView::AwaitClient { session: _ }, TurnInputView::Client(Err(error))) =>
            failed_turn(error),
        (TurnStageView::AwaitResumed, TurnInputView::Resumed(Ok(_))) => failed_turn(
            AcpErrorView::RecoveryNeeded,
        ),
        (TurnStageView::AwaitResumed, TurnInputView::Resumed(Err(error))) => failed_turn(error),
        (TurnStageView::AwaitPrompting { session: _ }, TurnInputView::Marked(Err(error))) =>
            failed_turn(AcpErrorView::Storage(error)),
        (TurnStageView::AwaitPrompting { session }, TurnInputView::Marked(Ok(_))) => if streams {
            (TurnStageView::AwaitStream { session }, TurnActionView::Stream(session))
        } else {
            (TurnStageView::AwaitTurn { session }, TurnActionView::Prompt(session))
        },
        (TurnStageView::AwaitStream { session }, TurnInputView::Streaming(Ok(_))) => (
            TurnStageView::AwaitTurn { session },
            TurnActionView::Running,
        ),
        (TurnStageView::AwaitStream { session: _ }, TurnInputView::Streaming(Err(error))) =>
            failed_turn(error),
        (TurnStageView::AwaitTurn { session }, TurnInputView::Turn(end)) => (
            TurnStageView::AwaitReady { session, end },
            TurnActionView::Mark(session, SessionState::Ready),
        ),
        (TurnStageView::AwaitReady { session, end }, TurnInputView::Marked(_)) => match end {
            Err(error) => if error.lost_backend() {
                (TurnStageView::AwaitClient { session }, TurnActionView::EnsureClient)
            } else {
                (TurnStageView::Done, TurnActionView::Finished(end))
            },
            Ok(_) => (TurnStageView::Done, TurnActionView::Finished(end)),
        },
        _ => failed_turn(AcpErrorView::TransportClosed),
    }
}

/// What came of an action.
pub enum TurnInput {
    /// The live session, where there is one, and whether a backend still runs.
    Found { session: Result<Option<String>, StorageError>, alive: bool },
    /// Whether a backend runs now.
    Client(Result<(), AcpError>),
    /// Whether the agent resumed the session.
    Resumed(Result<(), AcpError>),
    /// Whether the session's state was written.
    Marked(Result<(), StorageError>),
    /// Whether the streaming prompt was sent.
    Streaming(Result<(), AcpError>),
    /// How the turn ended.
    Turn(Result<PromptTurn, AcpError>),
}

impl View for TurnInput {
    type V = TurnInputView;

    open spec fn view(&self) -> TurnInputView {
        match self {
            TurnInput::Found { session, alive } => TurnInputView::Found {
                session: found_result(*session),
                alive: *alive,
            },
            TurnInput::Client(done) => TurnInputView::Client(done_view(*done)),
            TurnInput::Resumed(done) => TurnInputView::Resumed(done_view(*done)),
            TurnInput::Marked(done) => TurnInputView::Marked(stored_result(*done)),
            TurnInput::Streaming(done) => TurnInputView::Streaming(done_view(*done)),
            TurnInput::Turn(end) => TurnInputView::Turn(end_view(*end)),
        }
    }
}

/// What to do next for a turn.
pub enum TurnAction {
    /// Look the live session up, for this backend.
    FindSession { backend_id: String },
    /// Make sure that a backend runs and is negotiated.
    EnsureClient,
    /// Ask the agent to resume the session.
    Resume { session_id: String },
    /// Write the session's state.
    Mark { session_id: String, state: SessionState },
    /// Send the prompt and wait for the end of the turn.
    Prompt { session_id: String },
    /// Send the prompt and hand its updates on.
    Stream { session_id: String },
    /// The turn runs: read its updates, and wait for its end.
    Running,
    /// The turn is over.
    Finished(Result<PromptTurn, AcpError>),
}

impl View for TurnAction {
    type V = TurnActionView;

    open spec fn view(&self) -> TurnActionView {
        match self {
            TurnAction::FindSession { backend_id } => TurnActionView::FindSession(backend_id@),
            TurnAction::EnsureClient => TurnActionView::EnsureClient,
            TurnAction::Resume { session_id } => TurnActionView::Resume(session_id@),
            TurnAction::Mark { session_id, state } => TurnActionView::Mark(session_id@, *state),
            TurnAction::Prompt { session_id } => TurnActionView::Prompt(session_id@),
            TurnAction::Stream { session_id } => TurnActionView::Stream(session_id@),
            TurnAction::Running => TurnActionView::Running,
            TurnAction::Finished(end) => TurnActionView::Finished(end_view(*end)),
        }
    }
}

/// Where a turn is.
enum TurnStage {
    AwaitSession,
    AwaitClient { session: String },
    AwaitResumed,
    AwaitPrompting { session: String },
    AwaitStream { session: String },
    AwaitTurn { session: String },
    AwaitReady { session: String, end: Result<PromptTurn, AcpError> },
    Done,
}

impl View for TurnStage {
    type V = TurnStageView;

    closed spec fn view(&self) -> TurnStageView {
        match self {
            TurnStage::AwaitSession => TurnStageView::AwaitSession,
            TurnStage::AwaitClient { session } => TurnStageView::AwaitClient { session: session@ },
            TurnStage::AwaitResumed => TurnStageView::AwaitResumed,
            TurnStage::AwaitPrompting { session } => TurnStageView::AwaitPrompting {
                session: session@,
            },
            TurnStage::AwaitStream { session } => TurnStageView::AwaitStream { session: session@ },
            TurnStage::AwaitTurn { session } => TurnStageView::AwaitTurn { session: session@ },
            TurnStage::AwaitReady { session, end } => TurnStageView::AwaitReady {
                session: session@,
                end: end_view(*end),
            },
            TurnStage::Done => TurnStageView::Done,
        }
    }
}

/// A turn on its way.
pub struct TurnRun {
    streams: bool,
    stage: TurnStage,
}

impl TurnRun {
    /// Whether the turn's updates are handed on while it runs.
    pub closed spec fn streams(&self) -> bool {
        self.streams
    }

    /// Where the turn is.
    pub closed spec fn stage(&self) -> TurnStageView {
        self.stage@
    }

    /// Begin a turn. `backend_id` is that of the running backend, where one runs.
    pub fn begin(streams: bool, backend_id: Option<String>) -> (run: (TurnRun, TurnAction))
        ensures
            run.0.streams() == streams,
            run.0.stage() == TurnStageView::AwaitSession,
            run.1@ == TurnActionView::FindSession(
                match backend_id {
                    Some(id) => id@,
                    None => ""@,
                },
            ),
    {
        let backend_id = match backend_id {
            Some(id) => id,
            None => "".to_owned(),
        };
        (TurnRun { streams, stage: TurnStage::AwaitSession }, TurnAction::FindSession { backend_id })
    }

    /// Whether `input` answers what the turn waits for.
    pub fn expects(&self, input: &TurnInput) -> (yes: bool)
        ensures
            yes == turn_expects(self.stage(), input@),
    {
        match (&self.stage, input) {
            (TurnStage::AwaitSession, TurnInput::Found { session: _, alive: _ }) => true,
            (TurnStage::AwaitClient { session: _ }, TurnInput::Client(_)) => true,
            (TurnStage::AwaitResumed, TurnInput::Resumed(_)) => true,
            (TurnStage::AwaitPrompting { session: _ }, TurnInput::Marked(_)) => true,
            (TurnStage::AwaitStream { session: _ }, TurnInput::Streaming(_)) => true,
            (TurnStage::AwaitTurn { session: _ }, TurnInput::Turn(_)) => true,
            (TurnStage::AwaitReady { session: _, end: _ }, TurnInput::Marked(_)) => true,
            _ => false,
        }
    }

    /// The session was looked up.
    fn found(&mut self, session: Result<Option<String>, StorageError>, alive: bool) -> (action:
        TurnAction)
        requires
            old(self).stage() is Done,
        ensures
            final(self).streams() == old(self).streams(),
            (final(self).stage(), action@) == turn_next(
                old(self).streams(),
                TurnStageView::AwaitSession,
                TurnInputView::Found { session: found_result(session), alive },
            ),
    {
        match session {
            Err(source) => TurnAction::Finished(Err(AcpError::Storage { source })),
            Ok(None) => TurnAction::Finished(
                Err(
                    AcpError::SessionId { detail: "no live session for this delivery".to_owned() },
                ),
            ),
            Ok(Some(session)) => if alive {
                let session_id = session.clone();
                self.stage = TurnStage::AwaitPrompting { session };
                TurnAction::Mark { session_id, state: SessionState::Prompting }
            } else {
                self.stage = TurnStage::AwaitClient { session };
                TurnAction::EnsureClient
            },
        }
    }

    /// The session is marked as prompting, or could not be.
    fn prompting(&mut self, session: String, marked: Result<(), StorageError>) -> (action:
        TurnAction)
        requires
            old(self).stage() is Done,
        ensures
            final(self).streams() == old(self).streams(),
            (final(self).stage(), action@) == turn_next(
                old(self).streams(),
                TurnStageView::AwaitPrompting { session: session@ },
                TurnInputView::Marked(stored_result(marked)),
            ),
    {
        match marked {
            Err(source) => TurnAction::Finished(Err(AcpError::Storage { source })),
            Ok(_) => {
                let session_id = session.clone();
                if self.streams {
                    self.stage = TurnStage::AwaitStream { session };
                    TurnAction::Stream { session_id }
                } else {
                    self.stage = TurnStage::AwaitTurn { session };
                    TurnAction::Prompt { session_id }
                }
            },
        }
    }

    /// The turn ended, and its session is marked as ready or could not be.
    fn ready(&mut self, session: String, end: Result<PromptTurn, AcpError>) -> (action: TurnAction)
        requires
            old(self).stage() is Done,
        ensures
            final(self).streams() == old(self).streams(),
            forall|marked: Result<(), StorageErrorView>|
                (final(self).stage(), action@) == #[trigger] turn_next(
                    old(self).streams(),
                    TurnStageView::AwaitReady { session: session@, end: end_view(end) },
                    TurnInputView::Marked(marked),
                ),
    {
        let lost = match &end {
            Ok(_) => false,
            Err(error) => error.is_lost_backend(),
        };
        if lost {
            self.stage = TurnStage::AwaitClient { session };
            TurnAction::EnsureClient
        } else {
            TurnAction::Finished(end)
        }
    }

    /// Go on with what came of the last action.
    pub fn step(&mut self, input: TurnInput) -> (action: TurnAction)
        requires
            turn_expects(old(self).stage(), input@),
        ensures
            final(self).streams() == old(self).streams(),
            (final(self).stage(), action@) == turn_next(
                old(self).streams(),
                old(self).stage(),
                input@,
            ),
    {
        let mut stage = TurnStage::Done;
        std::mem::swap(&mut stage, &mut self.stage);
        match (stage, input) {
            (TurnStage::AwaitSession, TurnInput::Found { session, alive }) => {
                self.found(session, alive)
            },
            (TurnStage::AwaitClient { session }, TurnInput::Client(Ok(_))) => {
                self.stage = TurnStage::AwaitResumed;
                TurnAction::Resume { session_id: session }
            },
            (TurnStage::AwaitClient { session: _ }, TurnInput::Client(Err(error))) => {
                TurnAction::Finished(Err(error))
            },
            (TurnStage::AwaitResumed, TurnInput::Resumed(Ok(_))) => {
                TurnAction::Finished(Err(AcpError::RecoveryNeeded))
            },
            (TurnStage::AwaitResumed, TurnInput::Resumed(Err(error))) => {
                TurnAction::Finished(Err(error))
            },
            (TurnStage::AwaitPrompting { session }, TurnInput::Marked(marked)) => {
                self.prompting(session, marked)
            },
            (TurnStage::AwaitStream { session }, TurnInput::Streaming(Ok(_))) => {
                self.stage = TurnStage::AwaitTurn { session };
                TurnAction::Running
            },
            (TurnStage::AwaitStream { session: _ }, TurnInput::Streaming(Err(error))) => {
                TurnAction::Finished(Err(error))
            },
            (TurnStage::AwaitTurn { session }, TurnInput::Turn(end)) => {
                let session_id = session.clone();
                self.stage = TurnStage::AwaitReady { session, end };
                TurnAction::Mark { session_id, state: SessionState::Ready }
            },
            (TurnStage::AwaitReady { session, end }, TurnInput::Marked(marked)) => {
                let ghost fate = stored_result(marked);
                let action = self.ready(session, end);
                assert((self.stage(), action@) == turn_next(
                    old(self).streams(),
                    old(self).stage(),
                    TurnInputView::Marked(fate),
                ));
                action
            },
            _ => {
                assert(false);
                TurnAction::Finished(Err(AcpError::TransportClosed))
            },
        }
    }
}

/// Where a turn is after `inputs`, and what it does next, where a backend ran at
/// its beginning under `backend`.
pub open spec fn turn_after(streams: bool, backend: Seq<char>, inputs: Seq<TurnInputView>) -> (
    TurnStageView,
    TurnActionView,
)
    decreases inputs.len(),
{
    if inputs.len() == 0 {
        (TurnStageView::AwaitSession, TurnActionView::FindSession(backend))
    } else {
        turn_next(streams, turn_after(streams, backend, inputs.drop_last()).0, inputs.last())
    }
}

/// Whether every input of a turn answered what the turn waited for.
pub open spec fn answers_turn(streams: bool, backend: Seq<char>, inputs: Seq<TurnInputView>) -> bool
    decreases inputs.len(),
{
    inputs.len() == 0 || {
        &&& answers_turn(streams, backend, inputs.drop_last())
        &&& turn_expects(turn_after(streams, backend, inputs.drop_last()).0, inputs.last())
    }
}

/// Whether an action sends the prompt.
pub open spec fn sends_prompt(action: TurnActionView) -> bool {
    action is Prompt || action is Stream
}

/// Whether a stage comes before the prompt is sent.
pub open spec fn before_prompt(stage: TurnStageView) -> bool {
    stage is AwaitSession || stage is AwaitPrompting
}

/// How many prompts a turn has sent.
pub open spec fn prompts_sent(streams: bool, backend: Seq<char>, inputs: Seq<TurnInputView>) -> nat
    decreases inputs.len(),
{
    let own: nat = if sends_prompt(turn_after(streams, backend, inputs).1) {
        1
    } else {
        0
    };
    if inputs.len() == 0 {
        own
    } else {
        own + prompts_sent(streams, backend, inputs.drop_last())
    }
}

/// A prompt is sent at most once in a turn, whatever happens to the backend: a
/// turn that was interrupted is reported, and never replayed.
pub proof fn law_a_prompt_is_never_replayed(
    streams: bool,
    backend: Seq<char>,
    inputs: Seq<TurnInputView>,
)
    requires
        answers_turn(streams, backend, inputs),
    ensures
        prompts_sent(streams, backend, inputs) <= 1,
        before_prompt(turn_after(streams, backend, inputs).0) ==> prompts_sent(
            streams,
            backend,
            inputs,
        ) == 0,
    decreases inputs.len(),
{
    if inputs.len() > 0 {
        law_a_prompt_is_never_replayed(streams, backend, inputs.drop_last());
    } else {
        reveal_with_fuel(prompts_sent, 2);
    }
}

/// A backend that is gone before the turn begins is not prompted: it is restored,
/// and the turn needs recovery or fails.
pub proof fn law_a_dead_backend_is_not_prompted(
    streams: bool,
    session: Seq<char>,
    client: Result<(), AcpErrorView>,
    resumed: Result<(), AcpErrorView>,
)
    ensures
        ({
            let (asked, first) = turn_next(
                streams,
                TurnStageView::AwaitSession,
                TurnInputView::Found { session: Ok(Some(session)), alive: false },
            );
            let (waiting, second) = turn_next(streams, asked, TurnInputView::Client(client));
            let (ended, third) = turn_next(streams, waiting, TurnInputView::Resumed(resumed));
            &&& first == TurnActionView::EnsureClient
            &&& client is Err ==> second == TurnActionView::Finished(Err(client->Err_0))
            &&& client is Ok ==> second == TurnActionView::Resume(session)
            &&& client is Ok && resumed is Ok ==> third == TurnActionView::Finished(
                Err(AcpErrorView::RecoveryNeeded),
            )
            &&& client is Ok && resumed is Err ==> third == TurnActionView::Finished(
                Err(resumed->Err_0),
            )
        }),
{
}

/// The turn's own end decides: that its session could not be marked as ready
/// again changes nothing.
pub proof fn law_bookkeeping_does_not_change_a_turn(
    streams: bool,
    session: Seq<char>,
    end: TurnEnd,
    marked: Result<(), StorageErrorView>,
    other: Result<(), StorageErrorView>,
)
    ensures
        turn_next(
            streams,
            TurnStageView::AwaitReady { session, end },
            TurnInputView::Marked(marked),
        ) == turn_next(
            streams,
            TurnStageView::AwaitReady { session, end },
            TurnInputView::Marked(other),
        ),
{
}

/// The session of a turn that found one.
proof fn lemma_a_turn_keeps_its_session(
    streams: bool,
    backend: Seq<char>,
    inputs: Seq<TurnInputView>,
)
    requires
        answers_turn(streams, backend, inputs),
        inputs.len() > 0,
    ensures
        ({
            let stage = turn_after(streams, backend, inputs).0;
            &&& inputs[0] is Found
            &&& stage is AwaitSession ==> false
            &&& match stage {
                TurnStageView::AwaitClient { session } => inputs[0]->session == Ok::<
                    Option<Seq<char>>,
                    StorageErrorView,
                >(Some(session)),
                TurnStageView::AwaitPrompting { session } => inputs.len() == 1 && inputs[0]
                    == (TurnInputView::Found { session: Ok(Some(session)), alive: true }),
                TurnStageView::AwaitStream { session } => streams && inputs.len() == 2 && inputs[0]
                    == (TurnInputView::Found { session: Ok(Some(session)), alive: true }),
                TurnStageView::AwaitTurn { session } => inputs.len() == (if streams {
                    3int
                } else {
                    2int
                }) && inputs[0] == (TurnInputView::Found {
                    session: Ok(Some(session)),
                    alive: true,
                }),
                TurnStageView::AwaitReady { session, end } => inputs.last()
                    == TurnInputView::Turn(end) && inputs[0] == (TurnInputView::Found {
                    session: Ok(Some(session)),
                    alive: true,
                }),
                _ => true,
            }
        }),
    decreases inputs.len(),
{
    if inputs.len() == 1 {
        reveal_with_fuel(turn_after, 2);
        reveal_with_fuel(answers_turn, 2);
        assert(inputs.drop_last().len() == 0);
    } else {
        lemma_a_turn_keeps_its_session(streams, backend, inputs.drop_last());
        assert(inputs.drop_last()[0] == inputs[0]);
    }
}

/// What a turn came to is what it reports. Once the session was marked again, a turn that
/// ended well, streamed or not, is reported with its own result, and one that ended with
/// an error with that error, unless the backend was lost: only where the backend exited
/// or its pipes closed is it restored.
pub proof fn law_a_turn_reports_its_own_end(
    streams: bool,
    backend: Seq<char>,
    inputs: Seq<TurnInputView>,
    end: TurnEnd,
)
    requires
        answers_turn(streams, backend, inputs),
        inputs.len() >= 2,
        inputs[inputs.len() - 2] == TurnInputView::Turn(end),
    ensures
        inputs.last() is Marked,
        turn_after(streams, backend, inputs).1 == (match end {
            Err(AcpErrorView::Exited { .. }) => TurnActionView::EnsureClient,
            Err(AcpErrorView::TransportClosed) => TurnActionView::EnsureClient,
            _ => TurnActionView::Finished(end),
        }),
{
    lemma_a_turn_keeps_its_session(streams, backend, inputs);
    let earlier = inputs.drop_last();
    lemma_a_turn_keeps_its_session(streams, backend, earlier);
    assert(earlier.last() == TurnInputView::Turn(end));
    assert(turn_after(streams, backend, earlier).0 is AwaitReady);
}

/// A backend is restored only where it was gone when the turn began, or was lost in the
/// turn; and a restored backend resumes the turn's own session.
pub proof fn law_only_a_lost_backend_is_restored(
    streams: bool,
    backend: Seq<char>,
    inputs: Seq<TurnInputView>,
)
    requires
        answers_turn(streams, backend, inputs),
        inputs.len() > 0,
    ensures
        turn_after(streams, backend, inputs).1 == TurnActionView::EnsureClient ==> {
            ||| inputs.len() == 1 && inputs[0]->session is Ok && !inputs[0]->alive
            ||| inputs.len() >= 2 && inputs.last() is Marked && (inputs[inputs.len() - 2] matches
                TurnInputView::Turn(Err(error)) && (error is Exited || error is TransportClosed))
        },
        turn_after(streams, backend, inputs).1 matches TurnActionView::Resume(session) ==> {
            &&& inputs[0]->session == Ok::<Option<Seq<char>>, StorageErrorView>(Some(session))
            &&& inputs.last() matches TurnInputView::Client(Ok(_))
        },
{
    lemma_a_turn_keeps_its_session(streams, backend, inputs);
    let earlier = inputs.drop_last();
    if inputs.len() > 1 {
        lemma_a_turn_keeps_its_session(streams, backend, earlier);
        assert(earlier[0] == inputs[0]);
        assert(earlier.last() == inputs[inputs.len() - 2]);
    } else {
        reveal_with_fuel(turn_after, 2);
        assert(earlier.len() == 0);
    }
}

/// How a turn goes, input by input, on the one session that was found for it: the session
/// is marked as prompting, prompted, and marked as ready; whatever fails on the way is
/// what the turn reports.
pub proof fn law_a_turn_goes_step_by_step(
    streams: bool,
    backend: Seq<char>,
    inputs: Seq<TurnInputView>,
    session: Seq<char>,
)
    requires
        answers_turn(streams, backend, inputs),
        inputs.len() > 0,
        inputs[0] matches TurnInputView::Found { session: Ok(Some(found)), .. } ==> found
            == session,
    ensures
        ({
            let action = turn_after(streams, backend, inputs).1;
            match inputs.last() {
                TurnInputView::Found { session: Err(error), .. } => action
                    == TurnActionView::Finished(Err(AcpErrorView::Storage(error))),
                TurnInputView::Found { session: Ok(None), .. } => action
                    == TurnActionView::Finished(
                    Err(AcpErrorView::SessionId("no live session for this delivery"@)),
                ),
                TurnInputView::Found { session: Ok(Some(_)), alive } => action == (if alive {
                    TurnActionView::Mark(session, SessionState::Prompting)
                } else {
                    TurnActionView::EnsureClient
                }),
                TurnInputView::Marked(marked) => inputs.len() == 2 ==> action == (match marked {
                    Err(error) => TurnActionView::Finished(Err(AcpErrorView::Storage(error))),
                    Ok(_) => if streams {
                        TurnActionView::Stream(session)
                    } else {
                        TurnActionView::Prompt(session)
                    },
                }),
                TurnInputView::Streaming(Ok(_)) => action == TurnActionView::Running,
                TurnInputView::Streaming(Err(error)) => action == TurnActionView::Finished(
                    Err(error),
                ),
                TurnInputView::Turn(_) => action == TurnActionView::Mark(
                    session,
                    SessionState::Ready,
                ),
                TurnInputView::Client(Ok(_)) => action == TurnActionView::Resume(session),
                TurnInputView::Client(Err(error)) => action == TurnActionView::Finished(
                    Err(error),
                ),
                TurnInputView::Resumed(Ok(_)) => action == TurnActionView::Finished(
                    Err(AcpErrorView::RecoveryNeeded),
                ),
                TurnInputView::Resumed(Err(error)) => action == TurnActionView::Finished(
                    Err(error),
                ),
            }
        }),
{
    lemma_a_turn_keeps_its_session(streams, backend, inputs);
    let earlier = inputs.drop_last();
    if inputs.len() > 1 {
        lemma_a_turn_keeps_its_session(streams, backend, earlier);
        assert(earlier[0] == inputs[0]);
        assert(earlier.last() == inputs[inputs.len() - 2]);
    } else {
        reveal_with_fuel(turn_after, 2);
        assert(earlier.len() == 0);
    }
}

/// A turn waits for what answers its last action, and for nothing once it is over.
pub proof fn law_a_turn_waits_for_what_it_asked(
    streams: bool,
    backend: Seq<char>,
    inputs: Seq<TurnInputView>,
    next: TurnInputView,
)
    requires
        answers_turn(streams, backend, inputs),
    ensures
        answers_turn(streams, backend, inputs.push(next)) <==> (match turn_after(
            streams,
            backend,
            inputs,
        ).1 {
            TurnActionView::FindSession(_) => next is Found,
            TurnActionView::EnsureClient => next is Client,
            TurnActionView::Resume(_) => next is Resumed,
            TurnActionView::Mark(_, _) => next is Marked,
            TurnActionView::Prompt(_) => next is Turn,
            TurnActionView::Stream(_) => next is Streaming,
            TurnActionView::Running => next is Turn,
            TurnActionView::Finished(_) => false,
        }),
{
    assert(inputs.push(next).drop_last() =~= inputs);
    if inputs.len() > 0 {
        lemma_a_turn_keeps_its_session(streams, backend, inputs);
        if inputs.len() > 1 {
            lemma_a_turn_keeps_its_session(streams, backend, inputs.drop_last());
        } else {
            reveal_with_fuel(turn_after, 2);
        }
    }
}

/// What a turn is told, and what it asks for, is seen as it is.
pub proof fn law_a_turn_is_seen_as_it_is(input: TurnInput, action: TurnAction)
    ensures
        match input {
            TurnInput::Found { session: Ok(Some(id)), alive } => input@ == (TurnInputView::Found {
                session: Ok(Some(id@)),
                alive,
            }),
            TurnInput::Found { session: Ok(None), alive } => input@ == (TurnInputView::Found {
                session: Ok(None),
                alive,
            }),
            TurnInput::Found { session: Err(error), alive } => input@ == (TurnInputView::Found {
                session: Err(error@),
                alive,
            }),
            TurnInput::Client(Ok(_)) => input@ matches TurnInputView::Client(Ok(_)),
            TurnInput::Client(Err(error)) => input@ == TurnInputView::Client(Err(error@)),
            TurnInput::Resumed(Ok(_)) => input@ matches TurnInputView::Resumed(Ok(_)),
            TurnInput::Resumed(Err(error)) => input@ == TurnInputView::Resumed(Err(error@)),
            TurnInput::Marked(Ok(_)) => input@ matches TurnInputView::Marked(Ok(_)),
            TurnInput::Marked(Err(error)) => input@ == TurnInputView::Marked(Err(error@)),
            TurnInput::Streaming(Ok(_)) => input@ matches TurnInputView::Streaming(Ok(_)),
            TurnInput::Streaming(Err(error)) => input@ == TurnInputView::Streaming(Err(error@)),
            TurnInput::Turn(Ok(turn)) => input@ == TurnInputView::Turn(Ok(turn)),
            TurnInput::Turn(Err(error)) => input@ == TurnInputView::Turn(Err(error@)),
        },
        match action {
            TurnAction::FindSession { backend_id } => action@ == TurnActionView::FindSession(
                backend_id@,
            ),
            TurnAction::EnsureClient => action@ == TurnActionView::EnsureClient,
            TurnAction::Resume { session_id } => action@ == TurnActionView::Resume(session_id@),
            TurnAction::Mark { session_id, state } => action@ == TurnActionView::Mark(
                session_id@,
                state,
            ),
            TurnAction::Prompt { session_id } => action@ == TurnActionView::Prompt(session_id@),
            TurnAction::Stream { session_id } => action@ == TurnActionView::Stream(session_id@),
            TurnAction::Running => action@ == TurnActionView::Running,
            TurnAction::Finished(Ok(turn)) => action@ == TurnActionView::Finished(Ok(turn)),
            TurnAction::Finished(Err(error)) => action@ == TurnActionView::Finished(Err(error@)),
        },
{
}

} // verus!
