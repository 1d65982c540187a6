//! One child process: its frames, and which reply belongs to which request.
//!
//! [`Exchange`] is the state of the loop that owns the child. The loop reads and
//! writes; the exchange says what to write, which request is answered with what,
//! and when to stop. Request numbers are never used twice, so a late reply matches
//! nothing and is dropped.

use vstd::prelude::*;
use vstd::string::*;

use crate::acp::error::AcpError;
use crate::acp::error::AcpErrorView;
use crate::acp::error::Phase;
use crate::acp::framing::ascii_space;
use crate::acp::framing::frame_bytes;
use crate::acp::framing::next_value;
use crate::acp::framing::write_frame;
use crate::acp::framing::FrameError;
use crate::acp::framing::FrameErrorView;
use crate::acp::framing::FrameReader;
use crate::acp::framing::MAX_FRAME_BYTES;
use crate::acp::jsonrpc;
use crate::acp::jsonrpc::message_read;
use crate::acp::jsonrpc::notification_envelope;
use crate::acp::jsonrpc::request_envelope;
use crate::acp::jsonrpc::text_field;
use crate::acp::jsonrpc::ErrorObjectView;
use crate::acp::jsonrpc::IdView;
use crate::acp::jsonrpc::JsonRpcErrorObject;
use crate::acp::jsonrpc::JsonRpcMessage;
use crate::acp::jsonrpc::MessageView;
use crate::acp::schema::agent_answer;
use crate::acp::schema::agent_request_response;
use crate::acp::schema::notification_read;
use crate::acp::schema::SessionNotification;
use crate::acp::schema::SessionUpdate;
use crate::acp::schema::UpdateView;
use crate::acp::schema::METHOD_SESSION_PROMPT;
use crate::acp::schema::METHOD_SESSION_UPDATE;
use crate::acp::session::usable_session_id;
use crate::acp::session::MAX_SESSION_ID_BYTES;
use crate::bus::channel::SendOutcome;
use crate::json::Json;
use crate::json::JsonView;
use crate::models::EndpointAddress;
use crate::text::byte_len;
use crate::text::concat2;
use crate::text::same_text;
use crate::text::signed_decimal;
use crate::text::signed_decimal_text;
use crate::text::utf8_len;
use crate::time::Duration;

verus! {

/// How many outgoing requests may queue before a sender waits.
pub const OUTGOING_CAPACITY: usize = 8;

/// How much of the child's error stream is drained per read.
pub const STDERR_CHUNK: usize = 4096;

/// What replaces the tail of an output that is too long.
pub const TRUNCATION_MARKER: &'static str = "…[truncated]";

/// The default ceiling on the text accumulated for one turn, in bytes.
pub const DEFAULT_MAX_OUTPUT_BYTES: usize = 65_536;

/// The default bound on a graceful shutdown, in seconds.
pub const DEFAULT_SHUTDOWN_DEADLINE_SECS: u64 = 5;

/// Bounds the transport enforces while it runs.
#[derive(Debug, Clone, Copy, PartialEq, Eq, Structural)]
pub struct TransportLimits {
    /// Largest accepted frame.
    pub max_frame_bytes: usize,
    /// Largest amount of streamed text retained for one turn.
    pub max_output_bytes: usize,
    /// How long a graceful shutdown waits before the child is killed.
    pub shutdown_deadline: Duration,
}

impl Default for TransportLimits {
    fn default() -> (limits: TransportLimits)
        ensures
            limits.max_frame_bytes == MAX_FRAME_BYTES,
            limits.max_output_bytes == DEFAULT_MAX_OUTPUT_BYTES,
            limits.shutdown_deadline.total() == DEFAULT_SHUTDOWN_DEADLINE_SECS * 1_000_000_000,
    {
        TransportLimits {
            max_frame_bytes: MAX_FRAME_BYTES,
            max_output_bytes: DEFAULT_MAX_OUTPUT_BYTES,
            shutdown_deadline: Duration::from_secs(DEFAULT_SHUTDOWN_DEADLINE_SECS),
        }
    }
}

/// A completed request: its result, and the text its turn streamed.
#[derive(Debug, PartialEq)]
pub struct CompletedRequest {
    /// The result value.
    pub result: Json,
    /// Text accumulated for this request; empty for anything but a prompt.
    pub streamed_text: String,
}

/// What a turn reports while it runs.
#[derive(Debug, Clone, PartialEq, Eq)]
pub enum TurnUpdate {
    /// A chunk of the agent's answer.
    AgentMessageChunk(String),
}

/// What was handed to a reader through this end so far, in order, and what became of it.
pub uninterp spec fn update_offers(updates: tokio::sync::mpsc::Sender<TurnUpdate>) -> Seq<
    (TurnUpdate, SendOutcome),
>;

/// `tokio::sync::mpsc::Sender::try_send` for updates: hands an update to the channel of a
/// reader without waiting. Whether the channel takes it depends on the reader, so nothing
/// is claimed of the outcome but that it is what became of the update.
#[verifier::external_body]
fn try_send_update(
    updates: &mut tokio::sync::mpsc::Sender<TurnUpdate>,
    update: TurnUpdate,
) -> (outcome: SendOutcome)
    ensures
        update_offers(*final(updates)) == update_offers(*old(updates)).push((update, outcome)),
{
    match updates.try_send(update) {
        Ok(()) => SendOutcome::Sent,
        Err(tokio::sync::mpsc::error::TrySendError::Full(_)) => SendOutcome::Full,
        Err(tokio::sync::mpsc::error::TrySendError::Closed(_)) => SendOutcome::Closed,
    }
}

/// An outcome as data: the result and the streamed text, or the failure.
pub type OutcomeView = Result<(JsonView, Seq<char>), AcpErrorView>;

/// The answer to one request.
#[derive(Debug, PartialEq)]
pub struct Reply {
    /// The request it answers.
    pub id: i64,
    /// What came of the request.
    pub outcome: Result<CompletedRequest, AcpError>,
}

/// An answer as data.
pub ghost struct ReplyView {
    pub id: int,
    pub outcome: OutcomeView,
}

impl View for Reply {
    type V = ReplyView;

    open spec fn view(&self) -> ReplyView {
        ReplyView {
            id: self.id as int,
            outcome: match self.outcome {
                Ok(completed) => Ok((completed.result@, completed.streamed_text@)),
                Err(error) => Err(error@),
            },
        }
    }
}

/// Answers as data.
pub open spec fn reply_views(replies: Seq<Reply>) -> Seq<ReplyView> {
    replies.map_values(|reply: Reply| reply@)
}

/// A request in flight, as data.
pub ghost struct PendingView {
    pub id: int,
    pub phase: Phase,
    pub session: Option<Seq<char>>,
    pub output: Seq<char>,
    pub truncated: bool,
    /// What was handed to the reader of the output, where there is one, and what
    /// became of it.
    pub stream: Option<Seq<(Seq<char>, SendOutcome)>>,
}

/// What was handed to a reader, as data.
pub open spec fn chunks_told(offers: Seq<(TurnUpdate, SendOutcome)>) -> Seq<
    (Seq<char>, SendOutcome),
> {
    offers.map_values(
        |offer: (TurnUpdate, SendOutcome)|
            match offer.0 {
                TurnUpdate::AgentMessageChunk(text) => (text@, offer.1),
            },
    )
}

impl PendingView {
    /// The request whose reader, where there is one, was handed one more chunk, with
    /// this outcome.
    pub open spec fn handed(self, text: Seq<char>, outcome: SendOutcome) -> PendingView {
        PendingView {
            stream: match self.stream {
                Some(chunks) => Some(chunks.push((text, outcome))),
                None => None,
            },
            ..self
        }
    }

    /// The request with one more chunk of its answer: the chunk is kept where it
    /// fits; the first that does not is replaced by the marker.
    pub open spec fn absorbed(self, text: Seq<char>, limit: nat) -> PendingView {
        if utf8_len(self.output) + utf8_len(text) <= limit {
            PendingView { output: self.output + text, ..self }
        } else if !self.truncated {
            PendingView { output: self.output + TRUNCATION_MARKER@, truncated: true, ..self }
        } else {
            self
        }
    }

    /// How large the retained output may be.
    pub open spec fn within(self, limit: nat) -> bool {
        &&& !self.truncated ==> utf8_len(self.output) <= limit
        &&& utf8_len(self.output) <= limit + utf8_len(TRUNCATION_MARKER@)
    }
}

/// A request in flight.
#[derive(Debug)]
pub struct Pending {
    id: i64,
    phase: Phase,
    session: Option<String>,
    output: String,
    truncated: bool,
    updates: Option<tokio::sync::mpsc::Sender<TurnUpdate>>,
}

impl View for Pending {
    type V = PendingView;

    closed spec fn view(&self) -> PendingView {
        PendingView {
            id: self.id as int,
            phase: self.phase,
            session: crate::acp::result::optional(self.session),
            output: self.output@,
            truncated: self.truncated,
            stream: match self.updates {
                Some(updates) => Some(chunks_told(update_offers(updates))),
                None => None,
            },
        }
    }
}

impl Pending {
    /// Hand one more chunk of the answer to the reader, where there is one, and say
    /// what became of it.
    fn tell(self, text: &str) -> (told: (Pending, Option<SendOutcome>))
        ensures
            told.1 is Some <==> self@.stream is Some,
            told.0@ == match told.1 {
                Some(outcome) => self@.handed(text@, outcome),
                None => self@,
            },
    {
        let Pending { id, phase, session, output, truncated, updates } = self;
        let (updates, outcome) = match updates {
            Some(updates) => {
                let mut updates = updates;
                let ghost before = update_offers(updates);
                let update = TurnUpdate::AgentMessageChunk(text.to_owned());
                let outcome = try_send_update(&mut updates, update);
                assert(chunks_told(update_offers(updates)) =~= chunks_told(before).push(
                    (text@, outcome),
                ));
                (Some(updates), Some(outcome))
            },
            None => (None, None),
        };
        (Pending { id, phase, session, output, truncated, updates }, outcome)
    }

    /// Take one more chunk of the answer.
    fn absorb(&mut self, text: &str, limit: usize)
        ensures
            final(self)@ == old(self)@.absorbed(text@, limit as nat),
            final(self)@.id == old(self)@.id,
    {
        let held: usize = byte_len(self.output.as_str());
        if held <= limit && byte_len(text) <= limit - held {
            self.output.append(text);
        } else if !self.truncated {
            self.output.append(TRUNCATION_MARKER);
            self.truncated = true;
        }
    }
}

/// Requests as data.
pub open spec fn pending_views(pending: Seq<Pending>) -> Seq<PendingView> {
    pending.map_values(|entry: Pending| entry@)
}

/// Where the request `id` is.
pub open spec fn position(pending: Seq<PendingView>, id: int) -> Option<int>
    decreases pending.len(),
{
    if pending.len() == 0 {
        None
    } else if pending.last().id == id {
        Some(pending.len() - 1)
    } else {
        position(pending.drop_last(), id)
    }
}

/// The request `id`.
pub open spec fn lookup(pending: Seq<PendingView>, id: int) -> Option<PendingView> {
    match position(pending, id) {
        Some(at) => Some(pending[at]),
        None => None,
    }
}

/// The requests but for `id`.
pub open spec fn without(pending: Seq<PendingView>, id: int) -> Seq<PendingView>
    decreases pending.len(),
{
    if pending.len() == 0 {
        Seq::empty()
    } else if pending.last().id == id {
        without(pending.drop_last(), id)
    } else {
        without(pending.drop_last(), id).push(pending.last())
    }
}

/// The requests but for those in `ids`.
pub open spec fn without_all(pending: Seq<PendingView>, ids: Seq<int>) -> Seq<PendingView>
    decreases pending.len(),
{
    if pending.len() == 0 {
        Seq::empty()
    } else if ids.contains(pending.last().id) {
        without_all(pending.drop_last(), ids)
    } else {
        without_all(pending.drop_last(), ids).push(pending.last())
    }
}

/// No two requests have one number.
pub open spec fn numbered(pending: Seq<PendingView>) -> bool {
    forall|i: int, j: int| 0 <= i < j < pending.len() ==> pending[i].id != pending[j].id
}

/// What every request is answered with when `failure` ends them all.
pub open spec fn all_failed(
    pending: Seq<PendingView>,
    failure: spec_fn(Phase) -> AcpErrorView,
) -> Seq<ReplyView> {
    pending.map_values(
        |entry: PendingView| ReplyView { id: entry.id, outcome: Err(failure(entry.phase)) },
    )
}

/// Why all requests end at once.
pub ghost enum Ending {
    /// A framing failure.
    Frame(FrameErrorView),
    /// The transport closed.
    Closed,
    /// The child is gone, with a description.
    Exited(Seq<char>),
}

impl Ending {
    /// What a request in `phase` is answered with. A pipe failure has one owner,
    /// so the others learn only that the transport is closed.
    pub open spec fn failure(self, phase: Phase) -> AcpErrorView {
        match self {
            Ending::Frame(FrameErrorView::Io(_)) => AcpErrorView::TransportClosed,
            Ending::Frame(source) => AcpErrorView::Frame(source),
            Ending::Closed => AcpErrorView::TransportClosed,
            Ending::Exited(detail) => AcpErrorView::Exited { phase, detail },
        }
    }
}

/// What every request is answered with at an ending.
pub open spec fn ended(pending: Seq<PendingView>, ending: Ending) -> Seq<ReplyView> {
    all_failed(pending, |phase: Phase| ending.failure(phase))
}

/// The chunk of an answer that a notification carries: the session and the text.
pub open spec fn chunk_of(method: Seq<char>, params: JsonView) -> Option<(Seq<char>, Seq<char>)> {
    if method != METHOD_SESSION_UPDATE@ {
        None
    } else {
        match notification_read(params) {
            Some((session, UpdateView::AgentMessageChunk(Some(text)))) => Some((session, text)),
            _ => None,
        }
    }
}

/// The chunk of an answer that a notification carries.
fn chunk(method: &str, params: &Json) -> (found: Option<(String, String)>)
    ensures
        match found {
            Some(found) => chunk_of(method@, params@) == Some((found.0@, found.1@)),
            None => chunk_of(method@, params@) is None,
        },
{
    if !same_text(method, METHOD_SESSION_UPDATE) {
        return None;
    }
    match SessionNotification::from_json(params) {
        Some(update) => match update.update {
            SessionUpdate::AgentMessageChunk { content } => match content.as_text() {
                Some(text) => Some((update.session_id, text.clone())),
                None => None,
            },
            SessionUpdate::Other => None,
        },
        None => None,
    }
}

/// Whether a chunk of `session` is for this request.
pub open spec fn for_session(entry: PendingView, session: Seq<char>) -> bool {
    entry.session == Some(session)
}

/// Whether a chunk of `session` is to be handed to a reader of this request.
pub open spec fn reads(entry: PendingView, session: Seq<char>) -> bool {
    for_session(entry, session) && entry.stream is Some
}

/// Whether `outcomes` are those of handing a chunk of `session` to every reader that it is
/// for, and to no other.
pub open spec fn offered(
    pending: Seq<PendingView>,
    session: Seq<char>,
    outcomes: Seq<Option<SendOutcome>>,
) -> bool {
    &&& outcomes.len() == pending.len()
    &&& forall|k: int|
        0 <= k < pending.len() ==> ((#[trigger] outcomes[k]) is Some <==> reads(
            pending[k],
            session,
        ))
}

/// The requests after a chunk was handed to their readers, with these outcomes.
pub open spec fn told_all(
    pending: Seq<PendingView>,
    text: Seq<char>,
    outcomes: Seq<Option<SendOutcome>>,
) -> Seq<PendingView> {
    Seq::new(
        pending.len(),
        |k: int|
            match outcomes[k] {
                Some(outcome) => pending[k].handed(text, outcome),
                None => pending[k],
            },
    )
}

/// Whether a reader did not take what it was handed.
pub open spec fn turned_away(outcome: Option<SendOutcome>) -> bool {
    outcome matches Some(outcome) && outcome != SendOutcome::Sent
}

/// The requests that go on after a chunk of `session`: those whose readers did not take
/// it are gone, and the others of the session have the chunk.
pub open spec fn accumulated(
    pending: Seq<PendingView>,
    session: Seq<char>,
    text: Seq<char>,
    limit: nat,
    outcomes: Seq<Option<SendOutcome>>,
) -> Seq<PendingView>
    decreases pending.len(),
{
    if pending.len() == 0 {
        Seq::empty()
    } else {
        let earlier = accumulated(pending.drop_last(), session, text, limit, outcomes);
        if turned_away(outcomes[pending.len() - 1]) {
            earlier
        } else if for_session(pending.last(), session) {
            earlier.push(pending.last().absorbed(text, limit))
        } else {
            earlier.push(pending.last())
        }
    }
}

/// A request that ended because its reader did not take a chunk, as data.
pub ghost struct RefusalView {
    pub reply: ReplyView,
    pub request: PendingView,
}

/// The requests that end because their readers did not take a chunk, in order, each with
/// its answer.
pub open spec fn refusals_of(
    pending: Seq<PendingView>,
    outcomes: Seq<Option<SendOutcome>>,
) -> Seq<RefusalView>
    decreases pending.len(),
{
    if pending.len() == 0 {
        Seq::empty()
    } else {
        let earlier = refusals_of(pending.drop_last(), outcomes);
        if turned_away(outcomes[pending.len() - 1]) {
            earlier.push(
                RefusalView {
                    reply: ReplyView {
                        id: pending.last().id,
                        outcome: Err(AcpErrorView::StreamBackpressure),
                    },
                    request: pending.last(),
                },
            )
        } else {
            earlier
        }
    }
}

/// A request that ended because its reader did not take a chunk.
#[derive(Debug)]
pub struct Refusal {
    /// Its answer.
    pub reply: Reply,
    /// The request, which is no longer in flight. The reader's channel closes with it.
    pub request: Pending,
}

impl View for Refusal {
    type V = RefusalView;

    open spec fn view(&self) -> RefusalView {
        RefusalView { reply: self.reply@, request: self.request@ }
    }
}

/// Refusals as data.
pub open spec fn refusal_views(refusals: Seq<Refusal>) -> Seq<RefusalView> {
    refusals.map_values(|refusal: Refusal| refusal@)
}

/// What one look at the buffered bytes came to.
pub ghost enum RoutedView {
    Idle,
    Ignored,
    Reply(ReplyView),
    Write(Seq<u8>),
    Streamed { outcomes: Seq<Option<SendOutcome>>, refusals: Seq<RefusalView> },
    Stopped(Seq<ReplyView>),
}

/// What the loop does next.
#[derive(Debug)]
pub enum Routed {
    /// No complete frame is left: read on.
    Idle,
    /// A frame that asks for nothing.
    Ignored,
    /// A request is answered.
    Reply(Reply),
    /// An answer to the agent is to be written.
    Write(Vec<u8>),
    /// A chunk came. What became of it is told for each request that was in flight, in
    /// order; nothing, where it was not handed to a reader. The refusing requests end.
    Streamed {
        /// What became of the chunk.
        outcomes: Vec<Option<SendOutcome>>,
        /// The requests whose readers did not take it.
        refusals: Vec<Refusal>,
    },
    /// The stream is unusable: these requests end, and so does the loop.
    Stopped(Vec<Reply>),
}

impl View for Routed {
    type V = RoutedView;

    open spec fn view(&self) -> RoutedView {
        match self {
            Routed::Idle => RoutedView::Idle,
            Routed::Ignored => RoutedView::Ignored,
            Routed::Reply(reply) => RoutedView::Reply(reply@),
            Routed::Write(bytes) => RoutedView::Write(bytes@),
            Routed::Streamed { outcomes, refusals } => RoutedView::Streamed {
                outcomes: outcomes@,
                refusals: refusal_views(refusals@),
            },
            Routed::Stopped(replies) => RoutedView::Stopped(reply_views(replies@)),
        }
    }
}

/// What a chunk of an answer does to the requests in flight: it is handed to the
/// readers that it is for, and the requests whose readers do not take it end.
pub open spec fn chunk_routed(
    pending: Seq<PendingView>,
    limit: nat,
    session: Seq<char>,
    text: Seq<char>,
    outcomes: Seq<Option<SendOutcome>>,
    after: Seq<PendingView>,
    refusals: Seq<RefusalView>,
) -> bool {
    let told = told_all(pending, text, outcomes);
    &&& offered(pending, session, outcomes)
    &&& after == accumulated(told, session, text, limit, outcomes)
    &&& refusals == refusals_of(told, outcomes)
}

/// What a message does to the requests in flight.
pub open spec fn message_routed(
    pending: Seq<PendingView>,
    limit: nat,
    message: MessageView,
    after: Seq<PendingView>,
    routed: RoutedView,
) -> bool {
    match message {
        MessageView::Response { id: IdView::Number(id), outcome } => match lookup(pending, id) {
            Some(entry) => {
                &&& after == without(pending, id)
                &&& routed == RoutedView::Reply(
                    ReplyView {
                        id,
                        outcome: match outcome {
                            Ok(result) => Ok((result, entry.output)),
                            Err(source) => Err(AcpErrorView::Agent(source)),
                        },
                    },
                )
            },
            None => after == pending && routed == RoutedView::Ignored,
        },
        MessageView::Response { id: IdView::Text(_), outcome: _ } => after == pending && routed
            == RoutedView::Ignored,
        MessageView::Notification { method, params } => match chunk_of(method, params) {
            Some((session, text)) => (routed matches RoutedView::Streamed { outcomes, refusals }
                && chunk_routed(pending, limit, session, text, outcomes, after, refusals)),
            None => after == pending && routed == RoutedView::Ignored,
        },
        MessageView::Request { id, method, params } => after == pending && routed
            == RoutedView::Write(frame_bytes(agent_answer(id, method, params))),
    }
}

/// What one look at the buffered bytes does.
pub open spec fn step_taken(
    before: ExchangeView,
    limits: TransportLimits,
    after: ExchangeView,
    routed: RoutedView,
) -> bool {
    let (rest, read) = next_value(before.held, limits.max_frame_bytes as nat);
    &&& after.held == rest
    &&& match read {
        Ok(None) => after.pending == before.pending && routed == RoutedView::Idle,
        Err(source) => after.pending == Seq::<PendingView>::empty() && routed
            == RoutedView::Stopped(ended(before.pending, Ending::Frame(source))),
        Ok(Some(value)) => match message_read(value) {
            Ok(message) => message_routed(
                before.pending,
                limits.max_output_bytes as nat,
                message,
                after.pending,
                routed,
            ),
            Err(_) => after.pending == Seq::<PendingView>::empty() && routed
                == RoutedView::Stopped(ended(before.pending, Ending::Closed)),
        },
    }
}

/// Why all requests end at once.
enum Cause {
    Frame(FrameError),
    Closed,
    Exited(String),
}

impl View for Cause {
    type V = Ending;

    closed spec fn view(&self) -> Ending {
        match self {
            Cause::Frame(source) => Ending::Frame(source@),
            Cause::Closed => Ending::Closed,
            Cause::Exited(detail) => Ending::Exited(detail@),
        }
    }
}

impl Cause {
    /// What a request in `phase` is answered with.
    fn failure(&self, phase: Phase) -> (error: AcpError)
        ensures
            error@ == self@.failure(phase),
    {
        match self {
            Cause::Frame(source) => frame_failure(source),
            Cause::Closed => AcpError::TransportClosed,
            Cause::Exited(detail) => AcpError::Exited { phase, detail: detail.clone() },
        }
    }
}

/// A framing failure for the requests that were not told of it directly.
pub fn frame_failure(source: &FrameError) -> (error: AcpError)
    ensures
        error@ == Ending::Frame(source@).failure(Phase::Prompt),
        error@ == (match source@ {
            FrameErrorView::Io(_) => AcpErrorView::TransportClosed,
            other => AcpErrorView::Frame(other),
        }),
{
    match source {
        FrameError::Io(_) => AcpError::TransportClosed,
        _ => AcpError::Frame { source: source.duplicate() },
    }
}

/// How a child ended, in words.
pub open spec fn exit_text(code: Option<i32>) -> Seq<char> {
    match code {
        Some(code) => "status "@ + signed_decimal(code as int),
        None => "signal or unknown"@,
    }
}

/// How a child ended, in words.
pub fn describe_exit(code: Option<i32>) -> (text: String)
    ensures
        text@ == exit_text(code),
{
    match code {
        Some(code) => {
            let digits = signed_decimal_text(code as i64);
            concat2("status ", digits.as_str())
        },
        None => "signal or unknown".to_owned(),
    }
}

/// The session that a request prompts, where it is a prompt and its session id is
/// usable.
pub open spec fn prompted(method: Seq<char>, params: JsonView) -> Option<Seq<char>> {
    match text_field(params, "sessionId"@) {
        Some(session) => if method == METHOD_SESSION_PROMPT@ && usable_session_id(session) {
            Some(session)
        } else {
            None
        },
        None => None,
    }
}

/// The session that a request prompts.
pub fn prompt_session(method: &str, params: &Json) -> (session: Option<String>)
    ensures
        crate::acp::result::optional(session) == prompted(method@, params@),
{
    if !same_text(method, METHOD_SESSION_PROMPT) {
        return None;
    }
    match params.get("sessionId") {
        Some(member) => match member.as_text() {
            Some(session) => {
                if session.as_str().unicode_len() == 0 || byte_len(session.as_str())
                    > MAX_SESSION_ID_BYTES {
                    None
                } else {
                    Some(session.clone())
                }
            },
            None => None,
        },
        None => None,
    }
}

/// The program and arguments of an endpoint that is a process.
pub fn launch(address: &EndpointAddress) -> (command: Result<(String, Vec<String>), AcpError>)
    ensures
        match command {
            Ok(command) => address matches EndpointAddress::Acp { command: program, args }
                && command.0@ == program@ && crate::text::views(command.1@) == crate::text::views(
                args@,
            ),
            Err(error) => !(address is Acp) && error@ == (AcpErrorView::UnsupportedAddress {
                phase: Phase::Spawn,
            }),
        },
{
    match address {
        EndpointAddress::Acp { command, args } => {
            Ok((command.clone(), crate::bus::registry::copy_texts(args)))
        },
        _ => Err(AcpError::UnsupportedAddress { phase: Phase::Spawn }),
    }
}

/// The failure of a child that was started without one of its pipes.
pub fn missing_pipe(pipe: &str) -> (error: AcpError)
    ensures
        error@ == (AcpErrorView::Spawn {
            phase: Phase::Spawn,
            source: "the child's "@ + pipe@ + " pipe is unavailable"@,
        }),
{
    AcpError::Spawn {
        phase: Phase::Spawn,
        source: crate::text::concat3("the child's ", pipe, " pipe is unavailable"),
    }
}

/// How a caller's bounded wait for its reply ended.
#[derive(Debug, PartialEq)]
pub enum Waited {
    /// The reply came.
    Answered(Result<CompletedRequest, AcpError>),
    /// The loop dropped the request: the transport died meanwhile.
    Dropped,
    /// The deadline passed.
    Elapsed,
}

/// What a caller in `phase` gets for its wait, and whether the request is to be
/// abandoned, so that a late reply is dropped.
pub fn await_reply(waited: Waited, phase: Phase) -> (reply: (
    Result<CompletedRequest, AcpError>,
    bool,
))
    ensures
        match waited {
            Waited::Answered(outcome) => reply.0 == outcome && !reply.1,
            Waited::Dropped => !reply.1 && (reply.0 matches Err(error) && error@
                == AcpErrorView::TransportClosed),
            Waited::Elapsed => reply.1 && (reply.0 matches Err(error) && error@
                == (AcpErrorView::Timeout { phase })),
        },
{
    match waited {
        Waited::Answered(outcome) => (outcome, false),
        Waited::Dropped => (Err(AcpError::TransportClosed), false),
        Waited::Elapsed => (Err(AcpError::Timeout { phase }), true),
    }
}

/// The bytes of a request.
pub fn request_frame(id: i64, method: &str, params: Json) -> (bytes: Vec<u8>)
    ensures
        bytes@ == frame_bytes(request_envelope(id as int, method@, params@)),
{
    write_frame(&jsonrpc::request(id, method, params))
}

/// The bytes of a notification.
pub fn notification_frame(method: &str, params: Json) -> (bytes: Vec<u8>)
    ensures
        bytes@ == frame_bytes(notification_envelope(method@, params@)),
{
    write_frame(&jsonrpc::notification(method, params))
}

/// The state of the loop, as data.
pub ghost struct ExchangeView {
    pub held: Seq<u8>,
    pub pending: Seq<PendingView>,
}

impl ExchangeView {
    /// Whether the request `id` is in flight.
    pub open spec fn awaits(self, id: int) -> bool {
        position(self.pending, id) is Some
    }
}

/// The state of the loop that owns a child.
pub struct Exchange {
    frames: FrameReader,
    pending: Vec<Pending>,
    limits: TransportLimits,
}

impl View for Exchange {
    type V = ExchangeView;

    closed spec fn view(&self) -> ExchangeView {
        ExchangeView {
            held: self.frames.held(),
            pending: pending_views(self.pending@),
        }
    }
}

impl Exchange {
    /// The bounds this exchange keeps.
    pub closed spec fn limits(&self) -> TransportLimits {
        self.limits
    }

    /// No two requests have one number.
    pub closed spec fn wf(&self) -> bool {
        &&& numbered(self@.pending)
        &&& self.frames.limit() == self.limits.max_frame_bytes
    }

    /// What a well-formed exchange has in flight is numbered.
    pub proof fn lemma_numbered(&self)
        requires
            self.wf(),
        ensures
            numbered(self@.pending),
    {
    }

    /// An exchange without requests.
    pub fn new(limits: TransportLimits) -> (exchange: Exchange)
        ensures
            exchange.wf(),
            exchange.limits() == limits,
            exchange@ == (ExchangeView {
                held: Seq::empty(),
                pending: Seq::empty(),
            }),
    {
        let exchange = Exchange {
            frames: FrameReader::new(limits.max_frame_bytes),
            pending: Vec::new(),
            limits,
        };
        assert(exchange@.pending =~= Seq::empty());
        exchange
    }

    /// How many requests are in flight.
    pub fn len(&self) -> (len: usize)
        ensures
            len == self@.pending.len(),
    {
        self.pending.len()
    }

    /// Whether no request is in flight.
    pub fn is_empty(&self) -> (empty: bool)
        ensures
            empty == (self@.pending.len() == 0),
    {
        self.pending.len() == 0
    }

    /// Where the request `id` is.
    fn find(&self, id: i64) -> (at: Option<usize>)
        ensures
            match at {
                Some(at) => at < self.pending@.len() && position(self@.pending, id as int) == Some(
                    at as int,
                ) && self@.pending[at as int].id == id,
                None => position(self@.pending, id as int) is None,
            },
    {
        let mut left: usize = self.pending.len();
        assert(self@.pending.take(left as int) =~= self@.pending);
        while left > 0
            invariant
                left <= self.pending@.len(),
                self@.pending.len() == self.pending@.len(),
                position(self@.pending.take(left as int), id as int) == position(
                    self@.pending,
                    id as int,
                ),
            decreases left,
        {
            assert(self@.pending.take(left as int).drop_last() =~= self@.pending.take(left - 1));
            assert(self@.pending.take(left as int).last() == self.pending@[left - 1]@);
            left = left - 1;
            if self.pending[left].id == id {
                return Some(left);
            }
        }
        None
    }

    /// End every request.
    fn fail_all(&mut self, cause: &Cause) -> (replies: Vec<Reply>)
        ensures
            final(self)@ == (ExchangeView { pending: Seq::empty(), ..old(self)@ }),
            final(self).wf() == (final(self).frames.limit()
                == final(self).limits.max_frame_bytes),
            final(self).frames == old(self).frames,
            final(self).limits() == old(self).limits(),
            reply_views(replies@) == ended(old(self)@.pending, cause@),
    {
        let mut replies: Vec<Reply> = Vec::new();
        let mut i: usize = 0;
        while i < self.pending.len()
            invariant
                *self == *old(self),
                i <= self.pending@.len(),
                replies@.len() == i,
                forall|k: int|
                    0 <= k < i ==> (#[trigger] replies@[k])@ == (ReplyView {
                        id: self@.pending[k].id,
                        outcome: Err(cause@.failure(self@.pending[k].phase)),
                    }),
            decreases self.pending@.len() - i,
        {
            let id: i64 = self.pending[i].id;
            let failure = cause.failure(self.pending[i].phase);
            replies.push(Reply { id, outcome: Err(failure) });
            i = i + 1;
        }
        assert(reply_views(replies@) =~= ended(old(self)@.pending, cause@));
        self.pending = Vec::new();
        assert(self@.pending =~= Seq::empty());
        replies
    }

    /// A request was written: keep it until its answer comes. A request of the same
    /// number would be replaced; numbers are not used twice.
    pub fn sent(
        &mut self,
        id: i64,
        phase: Phase,
        session: Option<String>,
        updates: Option<tokio::sync::mpsc::Sender<TurnUpdate>>,
    )
        requires
            old(self).wf(),
        ensures
            final(self).wf(),
            final(self).limits() == old(self).limits(),
            final(self)@.held == old(self)@.held,
            final(self)@.pending == without(old(self)@.pending, id as int).push(
                PendingView {
                    id: id as int,
                    phase,
                    session: crate::acp::result::optional(session),
                    output: Seq::empty(),
                    truncated: false,
                    stream: match updates {
                        Some(updates) => Some(chunks_told(update_offers(updates))),
                        None => None,
                    },
                },
            ),
    {
        self.abandon(id);
        let ghost kept = self@.pending;
        proof {
            lemma_without(old(self)@.pending, id as int);
        }
        let output = String::new();
        proof {
            reveal_strlit("");
        }
        self.pending.push(Pending { id, phase, session, output, truncated: false, updates });
        assert(self@.pending =~= kept.push(self.pending@.last()@));
    }

    /// A request could not be written: it and every other one end. The first reply
    /// is that of the request itself, with the pipe's failure.
    pub fn write_failed(&mut self, id: i64, detail: String) -> (replies: Vec<Reply>)
        requires
            old(self).wf(),
        ensures
            final(self).wf(),
            final(self).limits() == old(self).limits(),
            final(self)@ == (ExchangeView { pending: Seq::empty(), ..old(self)@ }),
            reply_views(replies@) == seq![
                ReplyView {
                    id: id as int,
                    outcome: Err(AcpErrorView::Frame(FrameErrorView::Io(detail@))),
                },
            ] + ended(old(self)@.pending, Ending::Closed),
    {
        let mut replies: Vec<Reply> = Vec::new();
        let own = Reply { id, outcome: Err(AcpError::Frame { source: FrameError::Io(detail) }) };
        let mut others = self.fail_all(&Cause::Closed);
        let ghost rest = others@;
        replies.push(own);
        replies.append(&mut others);
        assert(reply_views(replies@) =~= seq![own@] + reply_views(rest));
        replies
    }

    /// The caller of `id` gave up. Says whether the request was in flight.
    pub fn abandon(&mut self, id: i64) -> (known: bool)
        requires
            old(self).wf(),
        ensures
            final(self).wf(),
            final(self).limits() == old(self).limits(),
            final(self)@ == (ExchangeView {
                pending: without(old(self)@.pending, id as int),
                ..old(self)@
            }),
            known == old(self)@.awaits(id as int),
    {
        match self.find(id) {
            Some(at) => {
                proof {
                    lemma_without_at(self@.pending, at as int);
                    lemma_without(self@.pending, id as int);
                }
                let ghost before = self.pending@;
                self.pending.remove(at);
                assert(self@.pending =~= pending_views(before).remove(at as int));
                true
            },
            None => {
                proof {
                    lemma_absent(self@.pending, id as int);
                }
                false
            },
        }
    }

    /// Remove the requests whose callers no longer wait for them.
    pub fn sweep_abandoned(&mut self, closed: &Vec<i64>)
        requires
            old(self).wf(),
        ensures
            final(self).wf(),
            final(self).limits() == old(self).limits(),
            final(self)@.held == old(self)@.held,
            final(self)@.pending == without_all(
                old(self)@.pending,
                closed@.map_values(|id: i64| id as int),
            ),
    {
        let ghost ids = closed@.map_values(|id: i64| id as int);
        let mut i: usize = 0;
        let ghost all = self@.pending;
        assert(ids.take(0) =~= Seq::empty());
        proof {
            lemma_without_none(all);
        }
        while i < closed.len()
            invariant
                self.wf(),
                i <= closed@.len(),
                ids == closed@.map_values(|id: i64| id as int),
                self.limits() == old(self).limits(),
                self@.held == old(self)@.held,
                all == old(self)@.pending,
                self@.pending == without_all(all, ids.take(i as int)),
            decreases closed@.len() - i,
        {
            self.abandon(closed[i]);
            proof {
                assert(ids.take(i + 1) =~= ids.take(i as int).push(closed@[i as int] as int));
                lemma_without_one_more(all, ids.take(i as int), closed@[i as int] as int);
            }
            i = i + 1;
        }
        assert(ids.take(i as int) =~= ids);
    }
}

/// A request that is not in flight leaves all in flight.
proof fn lemma_absent(pending: Seq<PendingView>, id: int)
    requires
        position(pending, id) is None,
    ensures
        without(pending, id) == pending,
    decreases pending.len(),
{
    if pending.len() > 0 {
        lemma_absent(pending.drop_last(), id);
        assert(pending.drop_last().push(pending.last()) =~= pending);
    } else {
        assert(without(pending, id) =~= pending);
    }
}

/// Where a request is, it is.
proof fn lemma_position(pending: Seq<PendingView>, id: int)
    ensures
        position(pending, id) matches Some(at) ==> 0 <= at < pending.len() && pending[at].id == id,
        position(pending, id) is None <==> forall|i: int|
            0 <= i < pending.len() ==> (#[trigger] pending[i]).id != id,
    decreases pending.len(),
{
    if pending.len() > 0 {
        lemma_position(pending.drop_last(), id);
        if pending.last().id == id {
            assert(pending[pending.len() - 1].id == id);
        } else {
            let rest = pending.drop_last();
            if position(pending, id) is None {
                assert forall|i: int| 0 <= i < pending.len() implies (
                #[trigger] pending[i]).id != id by {
                    if i < rest.len() {
                        assert(rest[i].id != id);
                    }
                }
            } else {
                let at = position(rest, id)->0;
                assert(pending[at] == rest[at]);
            }
        }
    }
}

/// Taking a request out of numbered ones removes it where it is.
proof fn lemma_without_at(pending: Seq<PendingView>, at: int)
    requires
        numbered(pending),
        0 <= at < pending.len(),
    ensures
        without(pending, pending[at].id) == pending.remove(at),
    decreases pending.len(),
{
    let id = pending[at].id;
    let rest = pending.drop_last();
    if at == pending.len() - 1 {
        lemma_position(rest, id);
        lemma_absent(rest, id);
        assert(pending.remove(at) =~= rest);
    } else {
        lemma_without_at(rest, at);
        assert(pending.remove(at) =~= rest.remove(at).push(pending.last()));
    }
}

/// What is left of numbered requests is numbered, holds no `id`, and loses no
/// other.
proof fn lemma_without(pending: Seq<PendingView>, id: int)
    requires
        numbered(pending),
    ensures
        numbered(without(pending, id)),
        forall|i: int|
            0 <= i < without(pending, id).len() ==> (#[trigger] without(pending, id)[i]).id != id,
        forall|other: int|
            other != id ==> lookup(without(pending, id), other) == #[trigger] lookup(
                pending,
                other,
            ),
        position(without(pending, id), id) is None,
    decreases pending.len(),
{
    let left = without(pending, id);
    if pending.len() > 0 {
        let rest = pending.drop_last();
        lemma_without(rest, id);
        let kept = without(rest, id);
        assert forall|other: int| other != id implies lookup(left, other) == #[trigger] lookup(
            pending,
            other,
        ) by {
            assert(lookup(kept, other) == lookup(rest, other));
            lemma_position(rest, other);
            lemma_position(kept, other);
            if pending.last().id != id {
                assert(left.drop_last() =~= kept);
                assert(left.last() == pending.last());
                if pending.last().id != other && position(kept, other) is Some {
                    assert(left[position(kept, other)->0] == kept[position(kept, other)->0]);
                }
            }
        }
        if pending.last().id != id {
            assert forall|i: int, j: int| 0 <= i < j < left.len() implies left[i].id
                != left[j].id by {
                if j == left.len() - 1 {
                    assert(left[i] == kept[i]);
                    lemma_kept(rest, id, i);
                } else {
                    assert(left[i] == kept[i] && left[j] == kept[j]);
                }
            }
        }
    }
    lemma_position(left, id);
}

/// Whatever is left was there.
proof fn lemma_kept(pending: Seq<PendingView>, id: int, i: int)
    requires
        0 <= i < without(pending, id).len(),
    ensures
        pending.contains(without(pending, id)[i]),
    decreases pending.len(),
{
    let rest = pending.drop_last();
    if pending.last().id == id {
        lemma_kept(rest, id, i);
        let at = choose|k: int| 0 <= k < rest.len() && rest[k] == without(pending, id)[i];
        assert(pending[at] == without(pending, id)[i]);
    } else if i < without(rest, id).len() {
        lemma_kept(rest, id, i);
        let at = choose|k: int| 0 <= k < rest.len() && rest[k] == without(rest, id)[i];
        assert(pending[at] == without(pending, id)[i]);
    } else {
        assert(pending[pending.len() - 1] == without(pending, id)[i]);
    }
}

/// Removing nothing keeps everything.
proof fn lemma_without_none(pending: Seq<PendingView>)
    ensures
        without_all(pending, Seq::empty()) == pending,
    decreases pending.len(),
{
    if pending.len() > 0 {
        lemma_without_none(pending.drop_last());
        assert(pending.drop_last().push(pending.last()) =~= pending);
    } else {
        assert(without_all(pending, Seq::empty()) =~= pending);
    }
}

/// Removing one more after the others is removing all of them.
proof fn lemma_without_one_more(pending: Seq<PendingView>, ids: Seq<int>, id: int)
    ensures
        without(without_all(pending, ids), id) == without_all(pending, ids.push(id)),
    decreases pending.len(),
{
    let more = ids.push(id);
    assert forall|x: int| more.contains(x) <==> (ids.contains(x) || x == id) by {
        if ids.contains(x) {
            let at = choose|k: int| 0 <= k < ids.len() && ids[k] == x;
            assert(more[at] == x);
        }
        if x == id {
            assert(more[ids.len() as int] == x);
        }
        if more.contains(x) {
            let at = choose|k: int| 0 <= k < more.len() && more[k] == x;
            if at < ids.len() {
                assert(ids[at] == x);
            }
        }
    }
    if pending.len() > 0 {
        let rest = pending.drop_last();
        lemma_without_one_more(rest, ids, id);
        if !ids.contains(pending.last().id) {
            let kept = without_all(pending, ids);
            assert(kept.drop_last() =~= without_all(rest, ids));
            assert(kept.last() == pending.last());
        }
    }
}

/// Handing chunks to readers changes no number.
proof fn lemma_told_stay_numbered(
    pending: Seq<PendingView>,
    text: Seq<char>,
    outcomes: Seq<Option<SendOutcome>>,
)
    requires
        numbered(pending),
    ensures
        numbered(told_all(pending, text, outcomes)),
{
    let told = told_all(pending, text, outcomes);
    assert forall|i: int, j: int| 0 <= i < j < told.len() implies told[i].id != told[j].id by {
        assert(told[i].id == pending[i].id && told[j].id == pending[j].id);
    }
}

/// A request that goes on after a chunk was in flight before.
proof fn lemma_kept_were_in_flight(
    pending: Seq<PendingView>,
    session: Seq<char>,
    text: Seq<char>,
    limit: nat,
    outcomes: Seq<Option<SendOutcome>>,
    i: int,
)
    requires
        0 <= i < accumulated(pending, session, text, limit, outcomes).len(),
    ensures
        exists|k: int|
            0 <= k < pending.len() && (#[trigger] pending[k]).id == accumulated(
                pending,
                session,
                text,
                limit,
                outcomes,
            )[i].id,
    decreases pending.len(),
{
    let rest = pending.drop_last();
    let kept = accumulated(pending, session, text, limit, outcomes);
    let earlier = accumulated(rest, session, text, limit, outcomes);
    if i < earlier.len() {
        assert(kept[i] == earlier[i]);
        lemma_kept_were_in_flight(rest, session, text, limit, outcomes, i);
        let k = choose|k: int| 0 <= k < rest.len() && (#[trigger] rest[k]).id == earlier[i].id;
        assert(pending[k].id == kept[i].id);
    } else {
        assert(pending[pending.len() - 1].id == kept[i].id);
    }
}

/// What goes on after a chunk is numbered.
proof fn lemma_kept_stay_numbered(
    pending: Seq<PendingView>,
    session: Seq<char>,
    text: Seq<char>,
    limit: nat,
    outcomes: Seq<Option<SendOutcome>>,
)
    requires
        numbered(pending),
    ensures
        numbered(accumulated(pending, session, text, limit, outcomes)),
    decreases pending.len(),
{
    if pending.len() > 0 {
        let rest = pending.drop_last();
        let kept = accumulated(pending, session, text, limit, outcomes);
        let earlier = accumulated(rest, session, text, limit, outcomes);
        lemma_kept_stay_numbered(rest, session, text, limit, outcomes);
        assert forall|i: int, j: int| 0 <= i < j < kept.len() implies kept[i].id != kept[j].id by {
            assert(kept[i] == earlier[i]);
            if j < earlier.len() {
                assert(kept[j] == earlier[j]);
            } else {
                lemma_kept_were_in_flight(rest, session, text, limit, outcomes, i);
                let k = choose|k: int|
                    0 <= k < rest.len() && (#[trigger] rest[k]).id == earlier[i].id;
                assert(pending[k].id != pending[pending.len() - 1].id);
            }
        }
    }
}

/// Whether the bytes end between frames.
pub open spec fn ends_cleanly(held: Seq<u8>) -> bool {
    forall|i: int| 0 <= i < held.len() ==> ascii_space(held[i])
}

/// Why the requests end when the output of the child ended: in the middle of a
/// frame, or because the child is gone.
pub open spec fn closing(held: Seq<u8>, detail: Seq<char>) -> Ending {
    if ends_cleanly(held) {
        Ending::Exited(detail)
    } else {
        Ending::Frame(FrameErrorView::Truncated)
    }
}

impl Exchange {
    /// Bytes arrived from the child.
    pub fn arrived(&mut self, bytes: &[u8])
        requires
            old(self).wf(),
        ensures
            final(self).wf(),
            final(self).limits() == old(self).limits(),
            final(self)@ == (ExchangeView { held: old(self)@.held + bytes@, ..old(self)@ }),
    {
        self.frames.push(bytes);
    }

    /// Hand a chunk of the answer of `session` to every reader that it is for, without
    /// waiting, and say what became of it.
    fn tell_all(&mut self, session: &str, text: &str) -> (outcomes: Vec<Option<SendOutcome>>)
        requires
            old(self).wf(),
        ensures
            final(self).wf(),
            final(self).limits() == old(self).limits(),
            final(self)@.held == old(self)@.held,
            offered(old(self)@.pending, session@, outcomes@),
            final(self)@.pending == told_all(old(self)@.pending, text@, outcomes@),
    {
        let ghost before = self@.pending;
        let mut outcomes: Vec<Option<SendOutcome>> = Vec::new();
        let mut i: usize = 0;
        while i < self.pending.len()
            invariant
                self.limits() == old(self).limits(),
                self.frames == old(self).frames,
                before == old(self)@.pending,
                self.pending@.len() == before.len(),
                i <= before.len(),
                outcomes@.len() == i,
                forall|k: int|
                    0 <= k < i ==> ((#[trigger] outcomes@[k]) is Some <==> reads(
                        before[k],
                        session@,
                    )),
                forall|k: int|
                    0 <= k < i ==> #[trigger] self@.pending[k] == match outcomes@[k] {
                        Some(outcome) => before[k].handed(text@, outcome),
                        None => before[k],
                    },
                forall|k: int| i <= k < before.len() ==> #[trigger] self@.pending[k] == before[k],
            decreases before.len() - i,
        {
            let ghost held = self.pending@;
            let ghost told = outcomes@;
            assert(self@.pending[i as int] == held[i as int]@);
            let matching = match &self.pending[i].session {
                Some(own) => same_text(own.as_str(), session),
                None => false,
            };
            assert(matching == for_session(before[i as int], session@));
            if matching {
                let (entry, outcome) = self.pending.remove(i).tell(text);
                self.pending.insert(i, entry);
                outcomes.push(outcome);
            } else {
                outcomes.push(None);
            }
            proof {
                assert forall|k: int| 0 <= k < i + 1 implies #[trigger] self@.pending[k]
                    == match outcomes@[k] {
                    Some(outcome) => before[k].handed(text@, outcome),
                    None => before[k],
                } by {
                    if k < i {
                        assert(self.pending@[k] == held[k]);
                        assert(pending_views(held)[k] == held[k]@);
                        assert(outcomes@[k] == told[k]);
                    }
                }
                assert forall|k: int| i + 1 <= k < before.len() implies #[trigger] self@.pending[k]
                    == before[k] by {
                    assert(self.pending@[k] == held[k]);
                    assert(pending_views(held)[k] == before[k]);
                }
            }
            i = i + 1;
        }
        proof {
            assert(self@.pending =~= told_all(before, text@, outcomes@));
            lemma_told_stay_numbered(before, text@, outcomes@);
        }
        outcomes
    }

    /// Go on after a chunk of the answer of `session` was handed to its readers, with these
    /// outcomes for the requests in flight, in order. A request whose reader did not take
    /// the chunk ends; the others of the session keep the chunk.
    pub fn settle(
        &mut self,
        session: &str,
        text: &str,
        outcomes: &Vec<Option<SendOutcome>>,
    ) -> (refusals: Vec<Refusal>)
        requires
            old(self).wf(),
            outcomes@.len() == old(self)@.pending.len(),
        ensures
            final(self).wf(),
            final(self).limits() == old(self).limits(),
            final(self)@.held == old(self)@.held,
            final(self)@.pending == accumulated(
                old(self)@.pending,
                session@,
                text@,
                old(self).limits().max_output_bytes as nat,
                outcomes@,
            ),
            refusal_views(refusals@) == refusals_of(old(self)@.pending, outcomes@),
    {
        let ghost before = self@.pending;
        let ghost limit = self.limits.max_output_bytes as nat;
        let mut refusals: Vec<Refusal> = Vec::new();
        let mut at: usize = 0;
        let mut k: usize = 0;
        assert(refusal_views(refusals@) =~= refusals_of(before.take(0), outcomes@));
        assert(self@.pending.take(0) =~= accumulated(
            before.take(0),
            session@,
            text@,
            limit,
            outcomes@,
        ));
        while k < outcomes.len()
            invariant
                self.limits() == old(self).limits(),
                self.limits.max_output_bytes == limit,
                self.frames == old(self).frames,
                before == old(self)@.pending,
                outcomes@.len() == before.len(),
                at <= k <= before.len(),
                self.pending@.len() == at + before.len() - k,
                self@.pending.take(at as int) == accumulated(
                    before.take(k as int),
                    session@,
                    text@,
                    limit,
                    outcomes@,
                ),
                forall|j: int|
                    k <= j < before.len() ==> #[trigger] before[j] == self@.pending[at + j - k],
                refusal_views(refusals@) == refusals_of(before.take(k as int), outcomes@),
            decreases outcomes@.len() - k,
        {
            let ghost held = self.pending@;
            let ghost view = self@.pending;
            let ghost kept = self@.pending.take(at as int);
            let ghost earlier = refusals@;
            proof {
                assert(before.take(k + 1).drop_last() =~= before.take(k as int));
                assert(before.take(k + 1).last() == before[k as int]);
                assert(before[k as int] == held[at as int]@);
            }
            let refused = match outcomes[k] {
                Some(outcome) => !matches!(outcome, SendOutcome::Sent),
                None => false,
            };
            assert(refused == turned_away(outcomes@[k as int]));
            let mut entry = self.pending.remove(at);
            if refused {
                let reply = Reply { id: entry.id, outcome: Err(AcpError::StreamBackpressure) };
                refusals.push(Refusal { reply, request: entry });
                proof {
                    assert(refusal_views(refusals@) =~= refusal_views(earlier).push(
                        refusals@.last()@,
                    ));
                    assert(self@.pending.take(at as int) =~= kept);
                    assert forall|j: int| k + 1 <= j < before.len() implies #[trigger] before[j]
                        == self@.pending[at + j - (k + 1)] by {
                        assert(before[j] == view[at + j - k]);
                        assert(self.pending@[at + j - (k + 1)] == held[at + j - k]);
                    }
                }
            } else {
                let matching = match &entry.session {
                    Some(own) => same_text(own.as_str(), session),
                    None => false,
                };
                if matching {
                    entry.absorb(text, self.limits.max_output_bytes);
                }
                let ghost fed = entry@;
                self.pending.insert(at, entry);
                proof {
                    assert(self@.pending.take(at + 1) =~= kept.push(fed));
                    assert forall|j: int| k + 1 <= j < before.len() implies #[trigger] before[j]
                        == self@.pending[at + 1 + j - (k + 1)] by {
                        assert(before[j] == view[at + j - k]);
                        assert(self.pending@[at + j - k] == held[at + j - k]);
                    }
                }
                at = at + 1;
            }
            k = k + 1;
        }
        proof {
            assert(before.take(k as int) =~= before);
            assert(self@.pending.take(at as int) =~= self@.pending);
            lemma_kept_stay_numbered(before, session@, text@, limit, outcomes@);
        }
        refusals
    }

    /// Take the next complete frame and route it.
    pub fn next(&mut self) -> (routed: Routed)
        requires
            old(self).wf(),
        ensures
            final(self).wf(),
            final(self).limits() == old(self).limits(),
            step_taken(old(self)@, old(self).limits(), final(self)@, routed@),
    {
        match self.frames.next_frame() {
            Ok(None) => Routed::Idle,
            Err(source) => Routed::Stopped(self.fail_all(&Cause::Frame(source))),
            Ok(Some(value)) => match jsonrpc::parse(&value) {
                Err(_) => Routed::Stopped(self.fail_all(&Cause::Closed)),
                Ok(message) => self.route(message),
            },
        }
    }

    /// Route one message.
    fn route(&mut self, message: JsonRpcMessage) -> (routed: Routed)
        requires
            old(self).wf(),
        ensures
            final(self).wf(),
            final(self).limits() == old(self).limits(),
            final(self)@.held == old(self)@.held,
            message_routed(
                old(self)@.pending,
                old(self).limits().max_output_bytes as nat,
                message@,
                final(self)@.pending,
                routed@,
            ),
    {
        match message {
            JsonRpcMessage::Response { id, outcome } => match id.as_number() {
                None => Routed::Ignored,
                Some(number) => self.answered(number, outcome),
            },
            JsonRpcMessage::Notification(notification) => {
                match chunk(notification.method.as_str(), &notification.params) {
                    Some((session, text)) => {
                        let outcomes = self.tell_all(session.as_str(), text.as_str());
                        let refusals = self.settle(session.as_str(), text.as_str(), &outcomes);
                        Routed::Streamed { outcomes, refusals }
                    },
                    None => Routed::Ignored,
                }
            },
            JsonRpcMessage::Request(request) => {
                let answer = agent_request_response(
                    request.id,
                    request.method.as_str(),
                    &request.params,
                );
                Routed::Write(write_frame(&answer))
            },
        }
    }

    /// The agent answered the request `id`.
    fn answered(&mut self, id: i64, outcome: Result<Json, JsonRpcErrorObject>) -> (routed: Routed)
        requires
            old(self).wf(),
        ensures
            final(self).wf(),
            final(self).limits() == old(self).limits(),
            final(self)@.held == old(self)@.held,
            message_routed(
                old(self)@.pending,
                old(self).limits().max_output_bytes as nat,
                MessageView::Response {
                    id: IdView::Number(id as int),
                    outcome: jsonrpc::outcome_view(outcome),
                },
                final(self)@.pending,
                routed@,
            ),
    {
        match self.find(id) {
            None => Routed::Ignored,
            Some(at) => {
                proof {
                    lemma_without_at(self@.pending, at as int);
                    lemma_without(self@.pending, id as int);
                }
                let ghost before = self.pending@;
                let entry = self.pending.remove(at);
                assert(self@.pending =~= pending_views(before).remove(at as int));
                let outcome = match outcome {
                    Ok(result) => Ok(CompletedRequest { result, streamed_text: entry.output }),
                    Err(source) => Err(AcpError::Agent { source }),
                };
                Routed::Reply(Reply { id, outcome })
            },
        }
    }

    /// The child closed its output. `code` is how it exited, where that is known.
    pub fn output_ended(&mut self, code: Option<i32>) -> (replies: Vec<Reply>)
        requires
            old(self).wf(),
        ensures
            final(self).wf(),
            final(self).limits() == old(self).limits(),
            final(self)@ == (ExchangeView { pending: Seq::empty(), ..old(self)@ }),
            reply_views(replies@) == ended(
                old(self)@.pending,
                closing(
                    old(self)@.held,
                    match code {
                        Some(code) => exit_text(Some(code)),
                        None => "the backend closed its output stream"@,
                    },
                ),
            ),
    {
        let detail = match code {
            Some(code) => describe_exit(Some(code)),
            None => "the backend closed its output stream".to_owned(),
        };
        self.drained(detail)
    }

    /// Everything the child wrote has been routed, and the child is gone.
    fn drained(&mut self, detail: String) -> (replies: Vec<Reply>)
        requires
            old(self).wf(),
        ensures
            final(self).wf(),
            final(self).limits() == old(self).limits(),
            final(self)@ == (ExchangeView { pending: Seq::empty(), ..old(self)@ }),
            reply_views(replies@) == ended(old(self)@.pending, closing(old(self)@.held, detail@)),
    {
        match self.frames.finish() {
            Ok(()) => self.fail_all(&Cause::Exited(detail)),
            Err(source) => self.fail_all(&Cause::Frame(source)),
        }
    }

    /// The child exited, and what it had written has been routed. `status` is its
    /// exit code, where it could be waited for.
    pub fn child_exited(&mut self, status: Option<Option<i32>>) -> (replies: Vec<Reply>)
        requires
            old(self).wf(),
        ensures
            final(self).wf(),
            final(self).limits() == old(self).limits(),
            final(self)@ == (ExchangeView { pending: Seq::empty(), ..old(self)@ }),
            reply_views(replies@) == ended(
                old(self)@.pending,
                closing(
                    old(self)@.held,
                    match status {
                        Some(code) => exit_text(code),
                        None => "unknown"@,
                    },
                ),
            ),
    {
        let detail = match status {
            Some(code) => describe_exit(code),
            None => "unknown".to_owned(),
        };
        self.drained(detail)
    }

    /// The pipes failed: reading from the child, or writing an answer to it.
    pub fn pipe_failed(&mut self) -> (replies: Vec<Reply>)
        requires
            old(self).wf(),
        ensures
            final(self).wf(),
            final(self).limits() == old(self).limits(),
            final(self)@ == (ExchangeView { pending: Seq::empty(), ..old(self)@ }),
            reply_views(replies@) == ended(old(self)@.pending, Ending::Closed),
    {
        self.fail_all(&Cause::Closed)
    }

    /// The transport is shut down, or every handle to it is gone.
    pub fn shut_down(&mut self) -> (replies: Vec<Reply>)
        requires
            old(self).wf(),
        ensures
            final(self).wf(),
            final(self).limits() == old(self).limits(),
            final(self)@ == (ExchangeView { pending: Seq::empty(), ..old(self)@ }),
            reply_views(replies@) == ended(
                old(self)@.pending,
                Ending::Exited("the transport was shut down"@),
            ),
    {
        self.fail_all(&Cause::Exited("the transport was shut down".to_owned()))
    }
}

/// Whether `routed` answers the request `id`.
pub open spec fn answers(routed: RoutedView, id: int) -> bool {
    match routed {
        RoutedView::Reply(reply) => reply.id == id,
        RoutedView::Streamed { outcomes: _, refusals } => refused(refusals, id),
        RoutedView::Stopped(replies) => replied(replies, id),
        _ => false,
    }
}

/// Whether one of `replies` is that of the request `id`.
pub open spec fn replied(replies: Seq<ReplyView>, id: int) -> bool {
    exists|i: int| 0 <= i < replies.len() && (#[trigger] replies[i]).id == id
}

/// Whether the request `id` is one of those whose readers did not take a chunk.
pub open spec fn refused(refusals: Seq<RefusalView>, id: int) -> bool {
    exists|i: int| 0 <= i < refusals.len() && (#[trigger] refusals[i]).reply.id == id
}

/// After a chunk, a request that was in flight either goes on or is refused, and not both.
proof fn lemma_kept_or_refused(
    pending: Seq<PendingView>,
    session: Seq<char>,
    text: Seq<char>,
    limit: nat,
    outcomes: Seq<Option<SendOutcome>>,
    id: int,
)
    requires
        numbered(pending),
    ensures
        position(pending, id) is Some <==> (position(
            accumulated(pending, session, text, limit, outcomes),
            id,
        ) is Some || refused(refusals_of(pending, outcomes), id)),
        !(position(accumulated(pending, session, text, limit, outcomes), id) is Some && refused(
            refusals_of(pending, outcomes),
            id,
        )),
    decreases pending.len(),
{
    if pending.len() > 0 {
        let rest = pending.drop_last();
        let kept = accumulated(pending, session, text, limit, outcomes);
        let refusals = refusals_of(pending, outcomes);
        let earlier = refusals_of(rest, outcomes);
        lemma_kept_or_refused(rest, session, text, limit, outcomes, id);
        lemma_position(rest, id);
        if turned_away(outcomes[pending.len() - 1]) {
            if refused(earlier, id) {
                let i = choose|i: int|
                    0 <= i < earlier.len() && (#[trigger] earlier[i]).reply.id == id;
                assert(refusals[i].reply.id == id);
            }
            if refused(refusals, id) && pending.last().id != id {
                let i = choose|i: int|
                    0 <= i < refusals.len() && (#[trigger] refusals[i]).reply.id == id;
                assert(earlier[i].reply.id == id);
            }
            if pending.last().id == id {
                assert(refusals[earlier.len() as int].reply.id == id);
            }
        } else {
            assert(kept.drop_last() =~= accumulated(rest, session, text, limit, outcomes));
        }
        if pending.last().id == id {
            assert(forall|i: int| 0 <= i < rest.len() ==> (#[trigger] rest[i]) == pending[i]);
            assert(position(rest, id) is None);
        }
    }
}

/// Requests that differ in anything but their numbers are in flight alike.
proof fn lemma_awaited_alike(a: Seq<PendingView>, b: Seq<PendingView>, id: int)
    requires
        a.len() == b.len(),
        forall|i: int| 0 <= i < a.len() ==> (#[trigger] a[i]).id == b[i].id,
    ensures
        position(a, id) == position(b, id),
    decreases a.len(),
{
    if a.len() > 0 {
        assert forall|i: int| 0 <= i < a.drop_last().len() implies (
        #[trigger] a.drop_last()[i]).id == b.drop_last()[i].id by {
            assert(a[i].id == b[i].id);
        }
        assert(a[a.len() - 1].id == b[a.len() - 1].id);
        lemma_awaited_alike(a.drop_last(), b.drop_last(), id);
    }
}

/// A reply ends every request that was in flight.
proof fn lemma_all_ended(pending: Seq<PendingView>, ending: Ending, id: int)
    ensures
        replied(ended(pending, ending), id) <==> position(pending, id) is Some,
{
    let replies = ended(pending, ending);
    lemma_position(pending, id);
    if position(pending, id) is Some {
        assert(replies[position(pending, id)->0].id == id);
    }
    if replied(replies, id) {
        let i = choose|i: int| 0 <= i < replies.len() && (#[trigger] replies[i]).id == id;
        assert(pending[i].id == id);
    }
}

/// No request is lost and none is answered twice: whatever a frame does, a request
/// that was in flight either is in flight still or was just answered, and not both;
/// and nothing else is answered.
pub proof fn law_every_request_is_answered_once(
    before: ExchangeView,
    limits: TransportLimits,
    after: ExchangeView,
    routed: RoutedView,
    id: int,
)
    requires
        numbered(before.pending),
        step_taken(before, limits, after, routed),
    ensures
        before.awaits(id) <==> (after.awaits(id) || answers(routed, id)),
        !(after.awaits(id) && answers(routed, id)),
{
    let (rest, read) = next_value(before.held, limits.max_frame_bytes as nat);
    match read {
        Ok(None) => {},
        Err(source) => {
            lemma_all_ended(before.pending, Ending::Frame(source), id);
        },
        Ok(Some(value)) => match message_read(value) {
            Err(_) => {
                lemma_all_ended(before.pending, Ending::Closed, id);
            },
            Ok(message) => match message {
                MessageView::Response { id: IdView::Number(own), outcome: _ } => {
                    lemma_without(before.pending, own);
                    if id != own {
                        assert(lookup(without(before.pending, own), id) == lookup(
                            before.pending,
                            id,
                        ));
                    }
                },
                MessageView::Notification { method, params } => {
                    if let Some((session, text)) = chunk_of(method, params) {
                        let limit = limits.max_output_bytes as nat;
                        let outcomes = routed->outcomes;
                        let told = told_all(before.pending, text, outcomes);
                        lemma_told_stay_numbered(before.pending, text, outcomes);
                        lemma_awaited_alike(told, before.pending, id);
                        lemma_kept_or_refused(told, session, text, limit, outcomes, id);
                    }
                },
                _ => {},
            },
        },
    }
}

/// A late reply to a request whose caller gave up changes nothing.
pub proof fn law_a_late_reply_is_dropped(
    pending: Seq<PendingView>,
    limit: nat,
    id: int,
    outcome: Result<JsonView, ErrorObjectView>,
    after: Seq<PendingView>,
    routed: RoutedView,
)
    requires
        numbered(pending),
        message_routed(
            without(pending, id),
            limit,
            MessageView::Response { id: IdView::Number(id), outcome },
            after,
            routed,
        ),
    ensures
        after == without(pending, id),
        routed == RoutedView::Ignored,
{
    lemma_without(pending, id);
}

/// Whether every output is within its bound.
pub open spec fn all_within(pending: Seq<PendingView>, limit: nat) -> bool {
    forall|i: int| 0 <= i < pending.len() ==> (#[trigger] pending[i]).within(limit)
}

/// However much an agent streams, the output kept for a turn never exceeds the
/// limit by more than the marker.
pub proof fn law_a_turns_output_is_bounded(
    pending: Seq<PendingView>,
    limit: nat,
    session: Seq<char>,
    text: Seq<char>,
    outcomes: Seq<Option<SendOutcome>>,
)
    requires
        all_within(pending, limit),
    ensures
        all_within(accumulated(pending, session, text, limit, outcomes), limit),
        all_within(
            accumulated(told_all(pending, text, outcomes), session, text, limit, outcomes),
            limit,
        ),
{
    let told = told_all(pending, text, outcomes);
    assert forall|i: int| 0 <= i < told.len() implies (#[trigger] told[i]).within(limit) by {
        assert(pending[i].within(limit));
    }
    lemma_kept_within(pending, limit, session, text, outcomes);
    lemma_kept_within(told, limit, session, text, outcomes);
}

/// What goes on after a chunk is within its bound.
proof fn lemma_kept_within(
    pending: Seq<PendingView>,
    limit: nat,
    session: Seq<char>,
    text: Seq<char>,
    outcomes: Seq<Option<SendOutcome>>,
)
    requires
        all_within(pending, limit),
    ensures
        all_within(accumulated(pending, session, text, limit, outcomes), limit),
    decreases pending.len(),
{
    if pending.len() > 0 {
        let rest = pending.drop_last();
        assert forall|i: int| 0 <= i < rest.len() implies (#[trigger] rest[i]).within(limit) by {
            assert(pending[i].within(limit));
        }
        lemma_kept_within(rest, limit, session, text, outcomes);
        assert(pending[pending.len() - 1].within(limit));
        crate::text::lemma_utf8_concat(pending.last().output, text);
        crate::text::lemma_utf8_concat(pending.last().output, TRUNCATION_MARKER@);
    }
}

/// A chunk ends a request only where the request has a reader, the reader was handed the
/// chunk, and the reader did not take it.
pub proof fn law_only_a_refusing_reader_ends_a_request(
    pending: Seq<PendingView>,
    limit: nat,
    session: Seq<char>,
    text: Seq<char>,
    outcomes: Seq<Option<SendOutcome>>,
    after: Seq<PendingView>,
    refusals: Seq<RefusalView>,
    i: int,
)
    requires
        chunk_routed(pending, limit, session, text, outcomes, after, refusals),
        0 <= i < refusals.len(),
    ensures
        refusals[i].reply.outcome == OutcomeView::Err(AcpErrorView::StreamBackpressure),
        exists|k: int, outcome: SendOutcome|
            0 <= k < pending.len() && reads(pending[k], session) && outcome != SendOutcome::Sent
                && refusals[i].reply.id == pending[k].id && refusals[i].request
                == #[trigger] pending[k].handed(text, outcome),
{
    let told = told_all(pending, text, outcomes);
    let k = lemma_refusal_of(told, outcomes, i);
    let outcome = outcomes[k]->0;
    assert(refusals[i].request == pending[k].handed(text, outcome));
}

/// The request that a refusal is of.
proof fn lemma_refusal_of(
    pending: Seq<PendingView>,
    outcomes: Seq<Option<SendOutcome>>,
    i: int,
) -> (k: int)
    requires
        0 <= i < refusals_of(pending, outcomes).len(),
    ensures
        0 <= k < pending.len(),
        turned_away(outcomes[k]),
        refusals_of(pending, outcomes)[i] == (RefusalView {
            reply: ReplyView {
                id: pending[k].id,
                outcome: Err(AcpErrorView::StreamBackpressure),
            },
            request: pending[k],
        }),
    decreases pending.len(),
{
    let rest = pending.drop_last();
    if i < refusals_of(rest, outcomes).len() {
        lemma_refusal_of(rest, outcomes, i)
    } else {
        pending.len() - 1
    }
}

/// An answer reaches the request that it names, with what was streamed for that request,
/// and no other; the request is then no longer in flight.
pub proof fn law_an_answer_reaches_its_own_request(
    pending: Seq<PendingView>,
    limit: nat,
    k: int,
    outcome: Result<JsonView, ErrorObjectView>,
    after: Seq<PendingView>,
    routed: RoutedView,
)
    requires
        numbered(pending),
        0 <= k < pending.len(),
        message_routed(
            pending,
            limit,
            MessageView::Response { id: IdView::Number(pending[k].id), outcome },
            after,
            routed,
        ),
    ensures
        after == pending.remove(k),
        routed == RoutedView::Reply(
            ReplyView {
                id: pending[k].id,
                outcome: match outcome {
                    Ok(result) => Ok((result, pending[k].output)),
                    Err(source) => Err(AcpErrorView::Agent(source)),
                },
            },
        ),
{
    let id = pending[k].id;
    lemma_position(pending, id);
    assert(position(pending, id) == Some(k)) by {
        assert(pending[k].id == id);
        let at = position(pending, id)->0;
        if at != k {
            assert(pending[at].id == id);
        }
    }
    lemma_without_at(pending, k);
}

/// A chunk of an answer reaches every request of its session that goes on: it is kept where
/// it fits, the first that does not is replaced by the marker, and nothing is kept after
/// that. Requests of other sessions are left as they are, and a reader of the session was
/// handed exactly this chunk.
pub proof fn law_a_chunk_reaches_every_request_of_its_session(
    pending: Seq<PendingView>,
    limit: nat,
    session: Seq<char>,
    text: Seq<char>,
    outcomes: Seq<Option<SendOutcome>>,
    after: Seq<PendingView>,
    refusals: Seq<RefusalView>,
    k: int,
)
    requires
        numbered(pending),
        chunk_routed(pending, limit, session, text, outcomes, after, refusals),
        0 <= k < pending.len(),
    ensures
        ({
            let entry = pending[k];
            let fits = utf8_len(entry.output) + utf8_len(text) <= limit;
            let refused_it = outcomes[k] == Some(SendOutcome::Full) || outcomes[k] == Some(
                SendOutcome::Closed,
            );
            &&& entry.session != Some(session) ==> lookup(after, entry.id) == Some(entry)
            &&& entry.session == Some(session) && refused_it ==> lookup(after, entry.id) is None
                && refused(refusals, entry.id)
            &&& entry.session == Some(session) && !refused_it ==> (lookup(after, entry.id) matches
                Some(kept) && {
                &&& kept.id == entry.id && kept.phase == entry.phase && kept.session
                    == entry.session
                &&& kept.output == (if fits {
                    entry.output + text
                } else if entry.truncated {
                    entry.output
                } else {
                    entry.output + TRUNCATION_MARKER@
                })
                &&& kept.truncated == (entry.truncated || !fits)
                &&& match entry.stream {
                    Some(chunks) => kept.stream == Some(chunks.push((text, SendOutcome::Sent))),
                    None => kept.stream is None,
                }
            })
        }),
{
    let told = told_all(pending, text, outcomes);
    lemma_told_stay_numbered(pending, text, outcomes);
    assert(outcomes[k] is Some <==> reads(pending[k], session));
    lemma_kept_at(told, session, text, limit, outcomes, k);
    lemma_kept_stay_numbered(told, session, text, limit, outcomes);
    lemma_kept_or_refused(told, session, text, limit, outcomes, told[k].id);
    lemma_position(told, told[k].id);
    lemma_position(after, told[k].id);
}

proof fn lemma_kept_at(
    pending: Seq<PendingView>,
    session: Seq<char>,
    text: Seq<char>,
    limit: nat,
    outcomes: Seq<Option<SendOutcome>>,
    k: int,
)
    requires
        numbered(pending),
        0 <= k < pending.len(),
    ensures
        lookup(accumulated(pending, session, text, limit, outcomes), pending[k].id) == (
        if turned_away(outcomes[k]) {
            None
        } else if for_session(pending[k], session) {
            Some(pending[k].absorbed(text, limit))
        } else {
            Some(pending[k])
        }),
        turned_away(outcomes[k]) ==> refused(refusals_of(pending, outcomes), pending[k].id),
    decreases pending.len(),
{
    let rest = pending.drop_last();
    let last = pending.len() - 1;
    let kept = accumulated(pending, session, text, limit, outcomes);
    let earlier = accumulated(rest, session, text, limit, outcomes);
    let refusals = refusals_of(pending, outcomes);
    let before = refusals_of(rest, outcomes);
    if !turned_away(outcomes[last]) {
        assert(kept.drop_last() =~= earlier);
    }
    if k < last {
        lemma_kept_at(rest, session, text, limit, outcomes, k);
        assert(pending[k].id != pending[last].id);
        lemma_position(earlier, pending[k].id);
        if let Some(at) = position(earlier, pending[k].id) {
            assert(kept[at] == earlier[at]);
        }
        if turned_away(outcomes[k]) {
            let i = choose|i: int|
                0 <= i < before.len() && (#[trigger] before[i]).reply.id == pending[k].id;
            assert(refusals[i].reply.id == pending[k].id);
        }
    } else {
        lemma_kept_or_refused(rest, session, text, limit, outcomes, pending[k].id);
        lemma_position(rest, pending[k].id);
        assert forall|i: int| 0 <= i < rest.len() implies (#[trigger] rest[i]).id
            != pending[k].id by {
            assert(pending[i].id != pending[k].id);
        }
        if turned_away(outcomes[k]) {
            assert(refusals[before.len() as int].reply.id == pending[k].id);
        }
    }
}

/// What ends all requests at once is told to each of them, in its own phase where that
/// matters; output that ends between frames ends them as an exit, and output that ends in a
/// frame as a frame that was cut off.
pub proof fn law_an_ending_is_told_to_every_request(
    pending: Seq<PendingView>,
    ending: Ending,
    i: int,
    held: Seq<u8>,
    detail: Seq<char>,
)
    ensures
        ended(pending, ending).len() == pending.len(),
        0 <= i < pending.len() ==> ended(pending, ending)[i] == (ReplyView {
            id: pending[i].id,
            outcome: Err(
                match ending {
                    Ending::Frame(FrameErrorView::Io(_)) => AcpErrorView::TransportClosed,
                    Ending::Frame(source) => AcpErrorView::Frame(source),
                    Ending::Closed => AcpErrorView::TransportClosed,
                    Ending::Exited(detail) => AcpErrorView::Exited {
                        phase: pending[i].phase,
                        detail,
                    },
                },
            ),
        }),
        (forall|k: int| 0 <= k < held.len() ==> ascii_space(#[trigger] held[k])) ==> closing(
            held,
            detail,
        ) == Ending::Exited(detail),
        (exists|k: int| 0 <= k < held.len() && !ascii_space(#[trigger] held[k])) ==> closing(
            held,
            detail,
        ) == Ending::Frame(FrameErrorView::Truncated),
{
}

/// What is routed, and what a reader was handed, is seen as it is.
pub proof fn law_what_is_routed_is_seen_as_it_is(
    reply: Reply,
    routed: Routed,
    refusal: Refusal,
    offers: Seq<(TurnUpdate, SendOutcome)>,
    i: int,
)
    ensures
        reply@.id == reply.id,
        match reply.outcome {
            Ok(done) => reply@.outcome == OutcomeView::Ok((done.result@, done.streamed_text@)),
            Err(error) => reply@.outcome == OutcomeView::Err(error@),
        },
        refusal@.reply == refusal.reply@ && refusal@.request == refusal.request@,
        match routed {
            Routed::Idle => routed@ is Idle,
            Routed::Ignored => routed@ is Ignored,
            Routed::Reply(own) => routed@ == RoutedView::Reply(own@),
            Routed::Write(bytes) => routed@ == RoutedView::Write(bytes@),
            Routed::Streamed { outcomes, refusals } => routed@ matches RoutedView::Streamed {
                outcomes: told,
                refusals: ended,
            } && told == outcomes@ && ended.len() == refusals@.len() && forall|k: int|
                0 <= k < ended.len() ==> (#[trigger] ended[k]) == refusals@[k]@,
            Routed::Stopped(replies) => routed@ matches RoutedView::Stopped(told) && told.len()
                == replies@.len() && forall|k: int|
                0 <= k < told.len() ==> (#[trigger] told[k]) == replies@[k]@,
        },
        0 <= i < offers.len() ==> (offers[i].0 matches TurnUpdate::AgentMessageChunk(text)
            && chunks_told(offers)[i] == (text@, offers[i].1)),
        chunks_told(offers).len() == offers.len(),
{
}

/// Which session a request prompts, which chunk a notification carries, and how an exit is
/// told.
pub proof fn law_sessions_and_chunks_are_told_by_their_messages(
    method: Seq<char>,
    params: JsonView,
    session: Seq<char>,
    text: Seq<char>,
    code: i32,
)
    ensures
        prompted(method, params) == Some(session) <==> {
            &&& method == "session/prompt"@
            &&& params.field("sessionId"@) == Some(JsonView::Text(session))
            &&& 0 < session.len()
            &&& utf8_len(session) <= 256
        },
        chunk_of(method, params) == Some((session, text)) <==> {
            &&& method == "session/update"@
            &&& notification_read(params) == Some(
                (session, UpdateView::AgentMessageChunk(Some(text))),
            )
        },
        exit_text(Some(code)) == "status "@ + signed_decimal(code as int),
        exit_text(None) == "signal or unknown"@,
        TRUNCATION_MARKER@ == "…[truncated]"@,
        DEFAULT_MAX_OUTPUT_BYTES == 65_536,
        DEFAULT_SHUTDOWN_DEADLINE_SECS == 5,
        OUTGOING_CAPACITY == 8,
        STDERR_CHUNK == 4096,
{
}

/// Requests that are given up are no longer in flight, and all others are, as they were and
/// in their order.
pub proof fn law_only_abandoned_requests_are_forgotten(
    pending: Seq<PendingView>,
    id: int,
    ids: Seq<int>,
)
    ensures
        without(pending, id) == pending.filter(|entry: PendingView| entry.id != id),
        without_all(pending, ids) == pending.filter(
            |entry: PendingView| !ids.contains(entry.id),
        ),
    decreases pending.len(),
{
    reveal(Seq::filter);
    if pending.len() > 0 {
        law_only_abandoned_requests_are_forgotten(pending.drop_last(), id, ids);
    }
}

} // verus!
