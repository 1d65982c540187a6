//! The protocol's method names and message payloads.
//!
//! `initialize` advertises no client capabilities, a permission request is always
//! denied, and any other request of the agent is answered with "method not found".

use vstd::prelude::*;
use vstd::string::*;

use crate::acp::bounded;
use crate::acp::bounded_text;
use crate::acp::jsonrpc;
use crate::acp::jsonrpc::failure_envelope;
use crate::acp::jsonrpc::success_envelope;
use crate::acp::jsonrpc::ErrorObjectView;
use crate::acp::jsonrpc::IdView;
use crate::acp::jsonrpc::JsonRpcErrorObject;
use crate::acp::jsonrpc::RequestId;
use crate::acp::jsonrpc::METHOD_NOT_FOUND;
use crate::acp::result::optional;
use crate::acp::result::WireTurnResult;
use crate::bus::registry::copy_texts;
use crate::json::integer_number;
use crate::json::items_view;
use crate::json::Json;
use crate::json::unsigned_value;
use crate::json::JsonView;
use crate::text::concat2;
use crate::text::same_text;

verus! {

/// The protocol version this adapter speaks, and the only one.
pub const PROTOCOL_VERSION: u16 = 1;

pub const METHOD_INITIALIZE: &'static str = "initialize";

pub const METHOD_AUTHENTICATE: &'static str = "authenticate";

pub const METHOD_SESSION_NEW: &'static str = "session/new";

pub const METHOD_SESSION_RESUME: &'static str = "session/resume";

pub const METHOD_SESSION_PROMPT: &'static str = "session/prompt";

pub const METHOD_SESSION_CANCEL: &'static str = "session/cancel";

pub const METHOD_SESSION_UPDATE: &'static str = "session/update";

pub const METHOD_REQUEST_PERMISSION: &'static str = "session/request_permission";

/// The client name advertised in `initialize`.
pub const CLIENT_NAME: &'static str = "guigu-agent-bridge";

/// The client version advertised in `initialize`.
pub const CLIENT_VERSION: &'static str = "0.2.0";

/// The object without members, as data.
pub open spec fn no_members() -> Map<Seq<char>, JsonView> {
    Map::empty()
}

/// A list of texts as a JSON value.
pub open spec fn texts_value(texts: Seq<Seq<char>>) -> JsonView {
    JsonView::List(texts.map_values(|text: Seq<char>| JsonView::Text(text)))
}

/// A list of texts as a JSON value.
pub fn texts_json(texts: &Vec<String>) -> (json: Json)
    ensures
        json@ == texts_value(crate::text::views(texts@)),
{
    let mut items: Vec<Json> = Vec::new();
    let mut i: usize = 0;
    while i < texts.len()
        invariant
            i <= texts@.len(),
            items@.len() == i,
            forall|k: int| 0 <= k < i ==> #[trigger] items@[k]@ == JsonView::Text(texts@[k]@),
        decreases texts@.len() - i,
    {
        items.push(Json::text(texts[i].as_str()));
        i = i + 1;
    }
    assert(items_view(items@) =~= crate::text::views(texts@).map_values(
        |text: Seq<char>| JsonView::Text(text),
    ));
    Json::list(items)
}

/// The values of a list, copied.
fn copy_items(items: &Vec<Json>) -> (copy: Vec<Json>)
    ensures
        items_view(copy@) == items_view(items@),
{
    let mut copy: Vec<Json> = Vec::new();
    let mut i: usize = 0;
    while i < items.len()
        invariant
            i <= items@.len(),
            copy@.len() == i,
            forall|k: int| 0 <= k < i ==> #[trigger] copy@[k]@ == items@[k]@,
        decreases items@.len() - i,
    {
        copy.push(items[i].duplicate());
        i = i + 1;
    }
    assert(items_view(copy@) =~= items_view(items@));
    copy
}

/// What an implementation says of itself.
#[derive(Debug, Clone, PartialEq, Eq)]
pub struct Implementation {
    /// Programmatic name.
    pub name: String,
    /// Version.
    pub version: String,
    /// Display title.
    pub title: Option<String>,
}

impl Implementation {
    /// The description as a JSON value.
    pub open spec fn value(self) -> JsonView {
        let members = no_members().insert("name"@, JsonView::Text(self.name@)).insert(
            "version"@,
            JsonView::Text(self.version@),
        );
        match self.title {
            Some(title) => JsonView::Object(members.insert("title"@, JsonView::Text(title@))),
            None => JsonView::Object(members),
        }
    }

    /// The description as a JSON value.
    pub fn to_json(&self) -> (json: Json)
        ensures
            json@ == self.value(),
    {
        let json = Json::empty_object().with("name", Json::text(self.name.as_str())).with(
            "version",
            Json::text(self.version.as_str()),
        );
        match &self.title {
            Some(title) => json.with("title", Json::text(title.as_str())),
            None => json,
        }
    }
}

/// The capabilities this adapter advertises: none.
#[derive(Debug, Clone, Copy, PartialEq, Eq)]
pub struct ClientCapabilities {}

/// Parameters of `initialize`.
#[derive(Debug, Clone, PartialEq, Eq)]
pub struct InitializeParams {
    pub protocol_version: u16,
    pub client_capabilities: ClientCapabilities,
    pub client_info: Implementation,
}

impl InitializeParams {
    /// The parameters as a JSON value.
    pub open spec fn value(self) -> JsonView {
        JsonView::Object(
            no_members().insert(
                "protocolVersion"@,
                JsonView::Number(integer_number(self.protocol_version as int)),
            ).insert("clientCapabilities"@, JsonView::Object(no_members())).insert(
                "clientInfo"@,
                self.client_info.value(),
            ),
        )
    }

    /// Parameters that advertise exactly what this adapter serves.
    pub fn new() -> (params: InitializeParams)
        ensures
            params.protocol_version == PROTOCOL_VERSION,
            params.client_info.name@ == CLIENT_NAME@,
            params.client_info.version@ == CLIENT_VERSION@,
            params.client_info.title is None,
    {
        InitializeParams {
            protocol_version: PROTOCOL_VERSION,
            client_capabilities: ClientCapabilities {  },
            client_info: Implementation {
                name: CLIENT_NAME.to_owned(),
                version: CLIENT_VERSION.to_owned(),
                title: None,
            },
        }
    }

    /// The parameters as a JSON value.
    pub fn to_json(&self) -> (json: Json)
        ensures
            json@ == self.value(),
    {
        Json::empty_object().with("protocolVersion", Json::integer(self.protocol_version as i64))
            .with("clientCapabilities", Json::empty_object()).with(
            "clientInfo",
            self.client_info.to_json(),
        )
    }
}

impl Default for InitializeParams {
    fn default() -> (params: InitializeParams)
        ensures
            params.protocol_version == PROTOCOL_VERSION,
            params.client_info.name@ == CLIENT_NAME@,
            params.client_info.version@ == CLIENT_VERSION@,
            params.client_info.title is None,
    {
        InitializeParams::new()
    }
}

/// An authentication method that an agent advertises.
#[derive(Debug, PartialEq)]
pub struct AuthMethod {
    pub kind: Option<String>,
    pub id: String,
    pub name: String,
    pub description: Option<String>,
    pub meta: Option<Json>,
}

impl AuthMethod {
    /// Whether the method needs a person at a terminal.
    pub open spec fn terminal(self) -> bool {
        optional(self.kind) == Some("terminal"@)
    }

    /// Whether the method needs a person at a terminal.
    pub fn is_terminal(&self) -> (yes: bool)
        ensures
            yes == self.terminal(),
    {
        match &self.kind {
            Some(kind) => same_text(kind.as_str(), "terminal"),
            None => false,
        }
    }
}

/// Result of `initialize`.
#[derive(Debug, PartialEq)]
pub struct InitializeResult {
    /// The version the agent negotiated.
    pub protocol_version: u16,
    /// The agent's identity, when it reports one.
    pub agent_info: Option<Implementation>,
    /// Authentication methods the agent advertises.
    pub auth_methods: Vec<AuthMethod>,
}

/// Parameters of `authenticate`.
#[derive(Debug, Clone, PartialEq, Eq)]
pub struct AuthenticateParams {
    pub method_id: String,
}

impl AuthenticateParams {
    /// The parameters as a JSON value.
    pub open spec fn value(self) -> JsonView {
        JsonView::Object(no_members().insert("methodId"@, JsonView::Text(self.method_id@)))
    }

    /// The parameters as a JSON value.
    pub fn to_json(&self) -> (json: Json)
        ensures
            json@ == self.value(),
    {
        Json::empty_object().with("methodId", Json::text(self.method_id.as_str()))
    }
}

/// Result of `authenticate`.
#[derive(Debug, Clone, Copy, PartialEq, Eq)]
pub struct AuthenticateResult {}

/// The working directory, servers and further directories of a session.
pub open spec fn workspace_members(
    cwd: Seq<char>,
    servers: Seq<JsonView>,
    directories: Seq<Seq<char>>,
) -> Map<Seq<char>, JsonView> {
    no_members().insert("cwd"@, JsonView::Text(cwd)).insert(
        "mcpServers"@,
        JsonView::List(servers),
    ).insert("additionalDirectories"@, texts_value(directories))
}

/// Parameters of `session/new`.
#[derive(Debug, PartialEq)]
pub struct NewSessionParams {
    /// Working directory of the session.
    pub cwd: String,
    /// Servers to attach.
    pub mcp_servers: Vec<Json>,
    /// Further directories of the session.
    pub additional_directories: Vec<String>,
}

impl NewSessionParams {
    /// The parameters as a JSON value.
    pub open spec fn value(self) -> JsonView {
        JsonView::Object(
            workspace_members(
                self.cwd@,
                items_view(self.mcp_servers@),
                crate::text::views(self.additional_directories@),
            ),
        )
    }

    /// Parameters for `cwd`, without servers.
    pub fn new(cwd: &str) -> (params: NewSessionParams)
        ensures
            params.cwd@ == cwd@,
            params.mcp_servers@.len() == 0,
            params.additional_directories@.len() == 0,
    {
        NewSessionParams {
            cwd: cwd.to_owned(),
            mcp_servers: Vec::new(),
            additional_directories: Vec::new(),
        }
    }

    /// Parameters for `cwd` and further directories, without servers.
    pub fn new_with_workspaces(cwd: &str, additional_directories: &Vec<String>) -> (params:
        NewSessionParams)
        ensures
            params.cwd@ == cwd@,
            params.mcp_servers@.len() == 0,
            crate::text::views(params.additional_directories@) == crate::text::views(
                additional_directories@,
            ),
    {
        NewSessionParams {
            cwd: cwd.to_owned(),
            mcp_servers: Vec::new(),
            additional_directories: copy_texts(additional_directories),
        }
    }

    /// The parameters as a JSON value.
    pub fn to_json(&self) -> (json: Json)
        ensures
            json@ == self.value(),
    {
        Json::empty_object().with("cwd", Json::text(self.cwd.as_str())).with(
            "mcpServers",
            Json::list(copy_items(&self.mcp_servers)),
        ).with("additionalDirectories", texts_json(&self.additional_directories))
    }
}

/// Parameters of `session/resume`.
#[derive(Debug, PartialEq)]
pub struct ResumeSessionParams {
    /// The session to resume.
    pub session_id: String,
    /// Working directory of the session.
    pub cwd: String,
    /// Servers to attach.
    pub mcp_servers: Vec<Json>,
    /// Further directories of the session.
    pub additional_directories: Vec<String>,
}

impl ResumeSessionParams {
    /// The parameters as a JSON value.
    pub open spec fn value(self) -> JsonView {
        JsonView::Object(
            workspace_members(
                self.cwd@,
                items_view(self.mcp_servers@),
                crate::text::views(self.additional_directories@),
            ).insert("sessionId"@, JsonView::Text(self.session_id@)),
        )
    }

    /// The parameters as a JSON value.
    pub fn to_json(&self) -> (json: Json)
        ensures
            json@ == self.value(),
    {
        Json::empty_object().with("cwd", Json::text(self.cwd.as_str())).with(
            "mcpServers",
            Json::list(copy_items(&self.mcp_servers)),
        ).with("additionalDirectories", texts_json(&self.additional_directories)).with(
            "sessionId",
            Json::text(self.session_id.as_str()),
        )
    }
}

/// Result of `session/new` and `session/resume`.
#[derive(Debug, Clone, PartialEq, Eq)]
pub struct SessionResult {
    /// The agent's name for the session.
    pub session_id: String,
}

/// A block of content as data: its text, or that it is none.
pub type BlockView = Option<Seq<char>>;

/// One block of content.
#[derive(Debug, Clone, PartialEq, Eq)]
pub enum ContentBlock {
    /// A text block.
    Text { text: String },
    /// Any other kind of block.
    Other,
}

impl ContentBlock {
    /// The text of a text block.
    pub open spec fn text(self) -> Option<Seq<char>> {
        match self {
            ContentBlock::Text { text } => Some(text@),
            ContentBlock::Other => None,
        }
    }

    /// The block as a JSON value.
    pub open spec fn value(self) -> JsonView {
        match self {
            ContentBlock::Text { text } => JsonView::Object(
                no_members().insert("type"@, JsonView::Text("text"@)).insert(
                    "text"@,
                    JsonView::Text(text@),
                ),
            ),
            ContentBlock::Other => JsonView::Object(
                no_members().insert("type"@, JsonView::Text("other"@)),
            ),
        }
    }

    /// The text of a text block.
    pub fn as_text(&self) -> (text: Option<&String>)
        ensures
            match text {
                Some(text) => self.text() == Some(text@),
                None => self.text() is None,
            },
    {
        match self {
            ContentBlock::Text { text } => Some(text),
            ContentBlock::Other => None,
        }
    }

    /// The block as a JSON value.
    pub fn to_json(&self) -> (json: Json)
        ensures
            json@ == self.value(),
    {
        match self {
            ContentBlock::Text { text } => {
                Json::empty_object().with("type", Json::text("text")).with(
                    "text",
                    Json::text(text.as_str()),
                )
            },
            ContentBlock::Other => Json::empty_object().with("type", Json::text("other")),
        }
    }

    /// The block that a JSON value is: a text block, or a block of another kind,
    /// which is tolerated.
    pub fn from_json(value: &Json) -> (block: Option<ContentBlock>)
        ensures
            match block {
                Some(block) => block_read(value@) == Some(block.text()),
                None => block_read(value@) is None,
            },
    {
        let is_text = match tag_of(value, "type") {
            Some(kind) => Some(same_text(kind.as_str(), "text")),
            None => None,
        };
        ContentBlock::of_kind(value, is_text)
    }

    /// The block that a JSON value inside an update is.
    fn from_nested(value: &Json) -> (block: Option<ContentBlock>)
        ensures
            match block {
                Some(block) => nested_block_read(value@) == Some(block.text()),
                None => nested_block_read(value@) is None,
            },
    {
        let is_text = match tag_member_of(value, "type") {
            Some(member) => match member {
                Json::Text(kind) => Some(same_text(kind.as_str(), "text")),
                Json::Number(_) => match member.as_unsigned() {
                    Some(kind) => Some(kind == 0),
                    None => None,
                },
                _ => None,
            },
            None => None,
        };
        ContentBlock::of_kind(value, is_text)
    }

    /// The block that a JSON value is, where `is_text` says whether it is a text block.
    fn of_kind(value: &Json, is_text: Option<bool>) -> (block: Option<ContentBlock>)
        ensures
            match block {
                Some(block) => block_of(value@, is_text) == Some(block.text()),
                None => block_of(value@, is_text) is None,
            },
    {
        match is_text {
            None => None,
            Some(true) => match slot_of(value, "text", 1, 2) {
                Some(member) => match member.as_text() {
                    Some(text) => Some(ContentBlock::Text { text: text.clone() }),
                    None => None,
                },
                None => None,
            },
            Some(false) => Some(ContentBlock::Other),
        }
    }
}

/// The member `key` of an object, or the item at `index` of a list of `len` items:
/// a payload may also be written as the list of its members.
pub open spec fn slot(value: JsonView, key: Seq<char>, index: int, len: int) -> Option<JsonView> {
    match value {
        JsonView::List(items) => if items.len() == len && 0 <= index < len {
            Some(items[index])
        } else {
            None
        },
        _ => value.field(key),
    }
}

/// What tells the variants of a payload apart: the member `key`, or the first item of
/// a list.
pub open spec fn tag_member(value: JsonView, key: Seq<char>) -> Option<JsonView> {
    match value {
        JsonView::List(items) => if items.len() > 0 {
            Some(items[0])
        } else {
            None
        },
        _ => value.field(key),
    }
}

/// The text that tells the variants of a payload apart.
pub open spec fn tag(value: JsonView, key: Seq<char>) -> Option<Seq<char>> {
    match tag_member(value, key) {
        Some(member) => member.text(),
        None => None,
    }
}

/// The block that a JSON value is, where `is_text` says whether it is a text block.
pub open spec fn block_of(value: JsonView, is_text: Option<bool>) -> Option<BlockView> {
    match is_text {
        None => None,
        Some(true) => match slot(value, "text"@, 1, 2) {
            Some(member) => match member.text() {
                Some(text) => Some(Some(text)),
                None => None,
            },
            None => None,
        },
        Some(false) => Some(None),
    }
}

/// The block that a JSON value is.
pub open spec fn block_read(value: JsonView) -> Option<BlockView> {
    block_of(
        value,
        match tag(value, "type"@) {
            Some(kind) => Some(kind == "text"@),
            None => None,
        },
    )
}

/// The block that a JSON value inside an update is. There a block's kind may also be
/// given by its number, which is 0 for text.
pub open spec fn nested_block_read(value: JsonView) -> Option<BlockView> {
    block_of(
        value,
        match tag_member(value, "type"@) {
            Some(JsonView::Text(kind)) => Some(kind == "text"@),
            Some(JsonView::Number(number)) => match unsigned_value(number) {
                Some(kind) => Some(kind == 0),
                None => None,
            },
            _ => None,
        },
    )
}

/// The member `key`, or the item at `index` of a list of `len` items.
fn slot_of<'a>(value: &'a Json, key: &str, index: usize, len: usize) -> (found: Option<&'a Json>)
    ensures
        match found {
            Some(member) => slot(value@, key@, index as int, len as int) == Some(member@),
            None => slot(value@, key@, index as int, len as int) is None,
        },
{
    match value {
        Json::List(items) => {
            proof {
                crate::json::lemma_list(*items);
            }
            if items.len() == len && index < len {
                Some(&items[index])
            } else {
                None
            }
        },
        _ => value.get(key),
    }
}

/// What tells the variants of a payload apart.
fn tag_member_of<'a>(value: &'a Json, key: &str) -> (found: Option<&'a Json>)
    ensures
        match found {
            Some(member) => tag_member(value@, key@) == Some(member@),
            None => tag_member(value@, key@) is None,
        },
{
    match value {
        Json::List(items) => {
            proof {
                crate::json::lemma_list(*items);
            }
            if items.len() > 0 {
                Some(&items[0])
            } else {
                None
            }
        },
        _ => value.get(key),
    }
}

/// The text that tells the variants of a payload apart.
fn tag_of(value: &Json, key: &str) -> (found: Option<String>)
    ensures
        match found {
            Some(text) => tag(value@, key@) == Some(text@),
            None => tag(value@, key@) is None,
        },
{
    match tag_member_of(value, key) {
        Some(member) => match member.as_text() {
            Some(text) => Some(text.clone()),
            None => None,
        },
        None => None,
    }
}

/// Parameters of `session/prompt`.
#[derive(Debug, Clone, PartialEq, Eq)]
pub struct PromptParams {
    /// The session to prompt.
    pub session_id: String,
    /// The content.
    pub prompt: Vec<ContentBlock>,
}

/// The parameters of a prompt of one text block, as a JSON value.
pub open spec fn prompt_value(session_id: Seq<char>, text: Seq<char>) -> JsonView {
    let block = no_members().insert("type"@, JsonView::Text("text"@)).insert(
        "text"@,
        JsonView::Text(text),
    );
    JsonView::Object(
        no_members().insert("sessionId"@, JsonView::Text(session_id)).insert(
            "prompt"@,
            JsonView::List(seq![JsonView::Object(block)]),
        ),
    )
}

impl PromptParams {
    /// The parameters as a JSON value.
    pub open spec fn value(self) -> JsonView {
        JsonView::Object(
            no_members().insert("sessionId"@, JsonView::Text(self.session_id@)).insert(
                "prompt"@,
                JsonView::List(self.prompt@.map_values(|block: ContentBlock| block.value())),
            ),
        )
    }

    /// A prompt of one text block for `session_id`.
    pub fn text(session_id: &str, text: &str) -> (params: PromptParams)
        ensures
            params.session_id@ == session_id@,
            params.prompt@.len() == 1,
            params.prompt@[0].text() == Some(text@),
            params.value() == prompt_value(session_id@, text@),
    {
        let mut prompt: Vec<ContentBlock> = Vec::new();
        prompt.push(ContentBlock::Text { text: text.to_owned() });
        let params = PromptParams { session_id: session_id.to_owned(), prompt };
        assert(params.prompt@.map_values(|block: ContentBlock| block.value()) =~= seq![
            params.prompt@[0].value(),
        ]);
        params
    }

    /// The parameters as a JSON value.
    pub fn to_json(&self) -> (json: Json)
        ensures
            json@ == self.value(),
    {
        let mut blocks: Vec<Json> = Vec::new();
        let mut i: usize = 0;
        while i < self.prompt.len()
            invariant
                i <= self.prompt@.len(),
                blocks@.len() == i,
                forall|k: int| 0 <= k < i ==> #[trigger] blocks@[k]@ == self.prompt@[k].value(),
            decreases self.prompt@.len() - i,
        {
            blocks.push(self.prompt[i].to_json());
            i = i + 1;
        }
        assert(items_view(blocks@) =~= self.prompt@.map_values(
            |block: ContentBlock| block.value(),
        ));
        Json::empty_object().with("sessionId", Json::text(self.session_id.as_str())).with(
            "prompt",
            Json::list(blocks),
        )
    }
}

/// Why the agent stopped processing a turn.
#[derive(Debug, Clone, PartialEq, Eq)]
pub enum StopReason {
    /// The turn ended successfully.
    EndTurn,
    /// The agent hit its token limit.
    MaxTokens,
    /// The agent hit its request limit.
    MaxTurnRequests,
    /// The agent refused to continue.
    Refusal,
    /// A reason this adapter does not know.
    Other(String),
}

impl StopReason {
    /// The wire value.
    pub open spec fn wire(self) -> Seq<char> {
        match self {
            StopReason::EndTurn => "end_turn"@,
            StopReason::MaxTokens => "max_tokens"@,
            StopReason::MaxTurnRequests => "max_turn_requests"@,
            StopReason::Refusal => "refusal"@,
            StopReason::Other(other) => other@,
        }
    }

    /// The wire value.
    pub fn as_str(&self) -> (text: &str)
        ensures
            text@ == self.wire(),
    {
        match self {
            StopReason::EndTurn => "end_turn",
            StopReason::MaxTokens => "max_tokens",
            StopReason::MaxTurnRequests => "max_turn_requests",
            StopReason::Refusal => "refusal",
            StopReason::Other(other) => other.as_str(),
        }
    }

    /// Whether the turn completed the work.
    pub fn is_end_turn(&self) -> (yes: bool)
        ensures
            yes == (self is EndTurn),
    {
        match self {
            StopReason::EndTurn => true,
            _ => false,
        }
    }

    /// The reason of a wire value. An unknown one is kept, bounded, and never
    /// rejected.
    pub fn from_wire(text: &str) -> (reason: StopReason)
        ensures
            reason is EndTurn <==> text@ == "end_turn"@,
            reason is MaxTokens <==> text@ == "max_tokens"@,
            reason is MaxTurnRequests <==> text@ == "max_turn_requests"@,
            reason is Refusal <==> text@ == "refusal"@,
            reason matches StopReason::Other(other) ==> other@ == bounded_text(text@),
    {
        proof {
            reveal_strlit("end_turn");
            reveal_strlit("max_tokens");
            reveal_strlit("max_turn_requests");
            reveal_strlit("refusal");
            assert("end_turn"@[0] == 'e');
            assert("max_tokens"@[0] == 'm');
            assert("max_tokens"@.len() == 10);
            assert("refusal"@[0] == 'r');
        }
        if same_text(text, "end_turn") {
            StopReason::EndTurn
        } else if same_text(text, "max_tokens") {
            StopReason::MaxTokens
        } else if same_text(text, "max_turn_requests") {
            StopReason::MaxTurnRequests
        } else if same_text(text, "refusal") {
            StopReason::Refusal
        } else {
            StopReason::Other(bounded(text))
        }
    }
}

/// Result of `session/prompt`.
#[derive(Debug, Clone, PartialEq, Eq)]
pub struct PromptResult {
    /// Why the turn stopped.
    pub stop_reason: StopReason,
    /// What the turn says of its task; absent where it only ended.
    pub task_result: Option<WireTurnResult>,
}

/// An update as data: a chunk of the answer, or anything else.
pub ghost enum UpdateView {
    AgentMessageChunk(BlockView),
    Other,
}

/// The payload of a `session/update`.
#[derive(Debug, Clone, PartialEq, Eq)]
pub enum SessionUpdate {
    /// A chunk of the agent's answer.
    AgentMessageChunk { content: ContentBlock },
    /// Any other kind of update.
    Other,
}

impl View for SessionUpdate {
    type V = UpdateView;

    open spec fn view(&self) -> UpdateView {
        match self {
            SessionUpdate::AgentMessageChunk { content } => UpdateView::AgentMessageChunk(
                content.text(),
            ),
            SessionUpdate::Other => UpdateView::Other,
        }
    }
}

/// The update that a JSON value is.
pub open spec fn update_read(value: JsonView) -> Option<UpdateView> {
    match tag(value, "sessionUpdate"@) {
        None => None,
        Some(kind) => if kind == "agent_message_chunk"@ {
            match slot(value, "content"@, 1, 2) {
                Some(member) => match nested_block_read(member) {
                    Some(block) => Some(UpdateView::AgentMessageChunk(block)),
                    None => None,
                },
                None => None,
            }
        } else {
            Some(UpdateView::Other)
        },
    }
}

/// A `session/update` notification.
#[derive(Debug, Clone, PartialEq, Eq)]
pub struct SessionNotification {
    /// The session this update belongs to.
    pub session_id: String,
    /// The update itself.
    pub update: SessionUpdate,
}

/// The session and the update of a notification's parameters.
pub open spec fn notification_read(value: JsonView) -> Option<(Seq<char>, UpdateView)> {
    match (slot(value, "sessionId"@, 0, 2), slot(value, "update"@, 1, 2)) {
        (Some(session), Some(update)) => match (session.text(), update_read(update)) {
            (Some(session), Some(update)) => Some((session, update)),
            _ => None,
        },
        _ => None,
    }
}

impl SessionUpdate {
    /// The update that a JSON value is. Unknown kinds are tolerated.
    pub fn from_json(value: &Json) -> (update: Option<SessionUpdate>)
        ensures
            match update {
                Some(update) => update_read(value@) == Some(update@),
                None => update_read(value@) is None,
            },
    {
        match tag_of(value, "sessionUpdate") {
            None => None,
            Some(kind) => if same_text(kind.as_str(), "agent_message_chunk") {
                match slot_of(value, "content", 1, 2) {
                    Some(member) => match ContentBlock::from_nested(member) {
                        Some(content) => Some(SessionUpdate::AgentMessageChunk { content }),
                        None => None,
                    },
                    None => None,
                }
            } else {
                Some(SessionUpdate::Other)
            },
        }
    }
}

impl SessionNotification {
    /// The notification that a JSON value is.
    pub fn from_json(value: &Json) -> (notification: Option<SessionNotification>)
        ensures
            match notification {
                Some(notification) => notification_read(value@) == Some(
                    (notification.session_id@, notification.update@),
                ),
                None => notification_read(value@) is None,
            },
    {
        match (slot_of(value, "sessionId", 0, 2), slot_of(value, "update", 1, 2)) {
            (Some(session), Some(update)) => {
                match (session.as_text(), SessionUpdate::from_json(update)) {
                    (Some(session), Some(update)) => Some(
                        SessionNotification { session_id: session.clone(), update },
                    ),
                    _ => None,
                }
            },
            _ => None,
        }
    }
}

/// One offered option as data.
pub ghost struct OptionView {
    pub option_id: Seq<char>,
    pub kind: Seq<char>,
    pub name: Option<Seq<char>>,
}

impl OptionView {
    /// Whether choosing this option denies the operation.
    pub open spec fn rejects(self) -> bool {
        "reject"@.is_prefix_of(self.kind)
    }
}

/// The member `key` of an object, or the item at `index` of a list.
pub open spec fn part(value: JsonView, key: Seq<char>, index: int) -> Option<JsonView> {
    match value {
        JsonView::List(items) => if 0 <= index < items.len() {
            Some(items[index])
        } else {
            None
        },
        _ => value.field(key),
    }
}

/// An object, or a list of at most `len` items.
pub open spec fn shaped(value: JsonView, len: int) -> bool {
    match value {
        JsonView::List(items) => items.len() <= len,
        _ => value is Object,
    }
}

/// A text, null or absent.
pub open spec fn optional_text(value: Option<JsonView>) -> bool {
    match value {
        Some(value) => value is Null || value is Text,
        None => true,
    }
}

/// The text, where there is one.
pub open spec fn text_given(value: Option<JsonView>) -> Option<Seq<char>> {
    match value {
        Some(value) => value.text(),
        None => None,
    }
}

/// The option that a JSON value is.
pub open spec fn option_read(value: JsonView) -> Option<OptionView> {
    if !shaped(value, 3) || !optional_text(part(value, "name"@, 2)) {
        None
    } else {
        match (part(value, "optionId"@, 0), part(value, "kind"@, 1)) {
            (Some(id), Some(kind)) => match (id.text(), kind.text()) {
                (Some(option_id), Some(kind)) => Some(
                    OptionView { option_id, kind, name: text_given(part(value, "name"@, 2)) },
                ),
                _ => None,
            },
            _ => None,
        }
    }
}

/// The options that the items of a list are, where all of them are.
pub open spec fn options_read(items: Seq<JsonView>) -> Option<Seq<OptionView>>
    decreases items.len(),
{
    if items.len() == 0 {
        Some(Seq::empty())
    } else {
        match (options_read(items.drop_last()), option_read(items.last())) {
            (Some(options), Some(option)) => Some(options.push(option)),
            _ => None,
        }
    }
}

/// The options of a permission request's parameters: none where they are absent.
pub open spec fn permission_read(value: JsonView) -> Option<Seq<OptionView>> {
    if !shaped(value, 2) || !optional_text(part(value, "sessionId"@, 0)) {
        None
    } else {
        match part(value, "options"@, 1) {
            Some(JsonView::List(items)) => options_read(items),
            Some(_) => None,
            None => Some(Seq::empty()),
        }
    }
}

/// The first option that denies the operation.
pub open spec fn first_reject(options: Seq<OptionView>) -> Option<OptionView>
    decreases options.len(),
{
    if options.len() == 0 {
        None
    } else if options[0].rejects() {
        Some(options[0])
    } else {
        first_reject(options.drop_first())
    }
}

/// The option that answers a permission request, or none. Parameters that cannot
/// be read offer nothing.
pub open spec fn denial(params: JsonView) -> Option<Seq<char>> {
    match permission_read(params) {
        Some(options) => match first_reject(options) {
            Some(option) => Some(option.option_id),
            None => None,
        },
        None => None,
    }
}

/// The answer to a permission request, as a JSON value.
pub open spec fn denial_value(chosen: Option<Seq<char>>) -> JsonView {
    match chosen {
        Some(option_id) => JsonView::Object(
            no_members().insert("outcome"@, JsonView::Text("selected"@)).insert(
                "optionId"@,
                JsonView::Text(option_id),
            ),
        ),
        None => JsonView::Object(no_members().insert("outcome"@, JsonView::Text("cancelled"@))),
    }
}

/// The answer to a request of the agent.
pub open spec fn agent_answer(id: IdView, method: Seq<char>, params: JsonView) -> JsonView {
    if method == METHOD_REQUEST_PERMISSION@ {
        success_envelope(id, denial_value(denial(params)))
    } else {
        failure_envelope(
            id,
            ErrorObjectView {
                code: METHOD_NOT_FOUND as int,
                message: bounded_text("unsupported agent request: "@ + method),
                data: None,
            },
        )
    }
}

/// The first denying option is one of those offered, and it denies.
proof fn lemma_first_reject(options: Seq<OptionView>)
    ensures
        first_reject(options) matches Some(option) ==> option.rejects() && options.contains(option),
        first_reject(options) is None ==> forall|i: int|
            0 <= i < options.len() ==> !(#[trigger] options[i]).rejects(),
    decreases options.len(),
{
    if options.len() > 0 {
        if options[0].rejects() {
            assert(options.contains(options[0]));
        } else {
            let rest = options.drop_first();
            lemma_first_reject(rest);
            if let Some(option) = first_reject(rest) {
                let at = choose|i: int| 0 <= i < rest.len() && rest[i] == option;
                assert(options[at + 1] == option);
            } else {
                assert forall|i: int| 0 <= i < options.len() implies !(
                #[trigger] options[i]).rejects() by {
                    if i > 0 {
                        assert(options[i] == rest[i - 1]);
                    }
                }
            }
        }
    }
}

/// A permission is never granted: an option that is chosen was offered and denies
/// the operation, and none is chosen only where nothing readable on offer denies.
pub proof fn law_permission_is_never_granted(params: JsonView)
    ensures
        denial(params) matches Some(chosen) ==> (permission_read(params) matches Some(options)
            && exists|i: int|
            0 <= i < options.len() && (#[trigger] options[i]).rejects() && options[i].option_id
                == chosen),
        denial(params) is None ==> (permission_read(params) matches Some(options) ==> forall|i: int|
            0 <= i < options.len() ==> !(#[trigger] options[i]).rejects()),
{
    if let Some(options) = permission_read(params) {
        lemma_first_reject(options);
    }
}

/// One option offered in a permission request.
#[derive(Debug, Clone, PartialEq, Eq)]
pub struct PermissionOption {
    /// The name to answer with.
    pub option_id: String,
    /// The kind of the option.
    pub kind: String,
    /// A name for people.
    pub name: Option<String>,
}

impl View for PermissionOption {
    type V = OptionView;

    open spec fn view(&self) -> OptionView {
        OptionView {
            option_id: self.option_id@,
            kind: self.kind@,
            name: crate::acp::result::optional(self.name),
        }
    }
}

/// Whether `text` starts with `start`.
fn starts_with(text: &str, start: &str) -> (yes: bool)
    ensures
        yes == start@.is_prefix_of(text@),
{
    let len: usize = start.unicode_len();
    if text.unicode_len() < len {
        return false;
    }
    assert(start@.is_prefix_of(text@) <==> text@.subrange(0, len as int) =~= start@);
    same_text(text.substring_char(0, len), start)
}

impl PermissionOption {
    /// Whether choosing this option denies the operation.
    pub fn is_reject(&self) -> (yes: bool)
        ensures
            yes == self@.rejects(),
    {
        starts_with(self.kind.as_str(), "reject")
    }

    /// The option that a JSON value is.
    pub fn from_json(value: &Json) -> (option: Option<PermissionOption>)
        ensures
            match option {
                Some(option) => option_read(value@) == Some(option@),
                None => option_read(value@) is None,
            },
    {
        if !has_shape(value, 3) {
            return None;
        }
        let name = match part_of(value, "name", 2) {
            None => None,
            Some(Json::Null) => None,
            Some(Json::Text(name)) => Some(name.clone()),
            Some(_) => {
                return None;
            },
        };
        match (part_of(value, "optionId", 0), part_of(value, "kind", 1)) {
            (Some(id), Some(kind)) => match (id.as_text(), kind.as_text()) {
                (Some(id), Some(kind)) => Some(
                    PermissionOption { option_id: id.clone(), kind: kind.clone(), name },
                ),
                _ => None,
            },
            _ => None,
        }
    }
}

/// Parameters of `session/request_permission`.
#[derive(Debug, Clone, PartialEq, Eq)]
pub struct PermissionRequestParams {
    /// The session asking.
    pub session_id: Option<String>,
    /// The options the agent offers.
    pub options: Vec<PermissionOption>,
}

/// The member `key` of an object, or the item at `index` of a list.
fn part_of<'a>(value: &'a Json, key: &str, index: usize) -> (found: Option<&'a Json>)
    ensures
        match found {
            Some(member) => part(value@, key@, index as int) == Some(member@),
            None => part(value@, key@, index as int) is None,
        },
{
    match value {
        Json::List(items) => {
            proof {
                crate::json::lemma_list(*items);
            }
            if index < items.len() {
                Some(&items[index])
            } else {
                None
            }
        },
        _ => value.get(key),
    }
}

/// Whether `value` is an object, or a list of at most `len` items.
fn has_shape(value: &Json, len: usize) -> (yes: bool)
    ensures
        yes == shaped(value@, len as int),
{
    match value {
        Json::List(items) => {
            proof {
                crate::json::lemma_list(*items);
            }
            items.len() <= len
        },
        _ => value.is_object(),
    }
}

impl PermissionRequestParams {
    /// The request that a JSON value is.
    pub fn from_json(value: &Json) -> (request: Option<PermissionRequestParams>)
        ensures
            match request {
                Some(request) => {
                    &&& permission_read(value@) == Some(
                        request.options@.map_values(|option: PermissionOption| option@),
                    )
                    &&& crate::acp::result::optional(request.session_id) == text_given(
                        part(value@, "sessionId"@, 0),
                    )
                },
                None => permission_read(value@) is None,
            },
    {
        if !has_shape(value, 2) {
            return None;
        }
        let session_id = match part_of(value, "sessionId", 0) {
            None => None,
            Some(Json::Null) => None,
            Some(Json::Text(id)) => Some(id.clone()),
            Some(_) => {
                return None;
            },
        };
        let mut options: Vec<PermissionOption> = Vec::new();
        match part_of(value, "options", 1) {
            None => {
                assert(options@.map_values(|option: PermissionOption| option@) =~= Seq::empty());
                Some(PermissionRequestParams { session_id, options })
            },
            Some(Json::List(items)) => {
                proof {
                    crate::json::lemma_list(*items);
                }
                let ghost all = items_view(items@);
                let mut i: usize = 0;
                assert(options@.map_values(|option: PermissionOption| option@) =~= Seq::empty());
                while i < items.len()
                    invariant
                        i <= items@.len(),
                        all == items_view(items@),
                        permission_read(value@) == options_read(all),
                        options_read(all.take(i as int)) == Some(
                            options@.map_values(|option: PermissionOption| option@),
                        ),
                    decreases items@.len() - i,
                {
                    let ghost before = options@;
                    assert(all.take(i + 1).drop_last() =~= all.take(i as int));
                    match PermissionOption::from_json(&items[i]) {
                        Some(option) => {
                            options.push(option);
                            assert(options@.map_values(|option: PermissionOption| option@)
                                =~= before.map_values(|option: PermissionOption| option@).push(
                                option@,
                            ));
                        },
                        None => {
                            proof {
                                lemma_unreadable(all, i + 1);
                            }
                            return None;
                        },
                    }
                    i = i + 1;
                }
                assert(all.take(i as int) =~= all);
                Some(PermissionRequestParams { session_id, options })
            },
            Some(_) => None,
        }
    }
}

/// A list whose first items cannot be read cannot be read.
proof fn lemma_unreadable(items: Seq<JsonView>, len: int)
    requires
        0 <= len <= items.len(),
        options_read(items.take(len)) is None,
    ensures
        options_read(items) is None,
    decreases items.len(),
{
    if len < items.len() {
        assert(items.drop_last().take(len) =~= items.take(len));
        lemma_unreadable(items.drop_last(), len);
    } else {
        assert(items.take(len) =~= items);
    }
}

/// The answer to a permission request.
#[derive(Debug, Clone, PartialEq, Eq)]
pub enum PermissionResponse {
    /// One of the offered options was chosen.
    Selected { option_id: String },
    /// The request was refused without choosing an option.
    Cancelled,
}

impl PermissionResponse {
    /// The chosen option.
    pub open spec fn chosen(self) -> Option<Seq<char>> {
        match self {
            PermissionResponse::Selected { option_id } => Some(option_id@),
            PermissionResponse::Cancelled => None,
        }
    }

    /// The answer as a JSON value.
    pub fn to_json(&self) -> (json: Json)
        ensures
            json@ == denial_value(self.chosen()),
    {
        match self {
            PermissionResponse::Selected { option_id } => {
                Json::empty_object().with("outcome", Json::text("selected")).with(
                    "optionId",
                    Json::text(option_id.as_str()),
                )
            },
            PermissionResponse::Cancelled => {
                Json::empty_object().with("outcome", Json::text("cancelled"))
            },
        }
    }
}

/// Deny a permission request, with the first option that denies where the agent
/// offers one. A request that cannot be read is refused without an option.
pub fn deny_permission(params: &Json) -> (response: PermissionResponse)
    ensures
        response.chosen() == denial(params@),
{
    match PermissionRequestParams::from_json(params) {
        None => PermissionResponse::Cancelled,
        Some(request) => {
            let ghost offered = request.options@.map_values(|option: PermissionOption| option@);
            let mut i: usize = 0;
            assert(offered.skip(0) =~= offered);
            while i < request.options.len()
                invariant
                    i <= request.options@.len(),
                    permission_read(params@) == Some(offered),
                    offered == request.options@.map_values(|option: PermissionOption| option@),
                    first_reject(offered.skip(i as int)) == first_reject(offered),
                decreases request.options@.len() - i,
            {
                assert(offered.skip(i as int)[0] == request.options@[i as int]@);
                assert(offered.skip(i as int).drop_first() =~= offered.skip(i + 1));
                if request.options[i].is_reject() {
                    return PermissionResponse::Selected {
                        option_id: request.options[i].option_id.clone(),
                    };
                }
                i = i + 1;
            }
            PermissionResponse::Cancelled
        },
    }
}

/// Answer a request of the agent. The envelope is to be written as it is.
pub fn agent_request_response(id: RequestId, method: &str, params: &Json) -> (json: Json)
    ensures
        json@ == agent_answer(id@, method@, params@),
{
    if same_text(method, METHOD_REQUEST_PERMISSION) {
        jsonrpc::success(id, deny_permission(params).to_json())
    } else {
        let message = concat2("unsupported agent request: ", method);
        let error = JsonRpcErrorObject::new(METHOD_NOT_FOUND, message.as_str());
        jsonrpc::failure(id, &error)
    }
}

/// The parameters of a prompt for a text task.
pub fn text_prompt(session_id: &str, text: &str) -> (json: Json)
    ensures
        json@ == prompt_value(session_id@, text@),
{
    PromptParams::text(session_id, text).to_json()
}

/// A chunk of an answer is read as it is sent: its session and its text; and an update or a
/// content of a kind that is not known is read as such, and fails nothing.
pub proof fn law_updates_are_read_as_they_are_sent(
    session: Seq<char>,
    text: Seq<char>,
    kind: Seq<char>,
    block: JsonView,
)
    requires
        kind != "agent_message_chunk"@,
        block is Object,
        block.field("type"@) matches Some(JsonView::Text(own)) && own != "text"@,
    ensures
        ({
            let content = JsonView::Object(
                Map::<Seq<char>, JsonView>::empty().insert(
                    "type"@,
                    JsonView::Text("text"@),
                ).insert("text"@, JsonView::Text(text)),
            );
            let sent = |update: JsonView| JsonView::Object(
                Map::<Seq<char>, JsonView>::empty().insert(
                    "sessionId"@,
                    JsonView::Text(session),
                ).insert("update"@, update),
            );
            let chunk = |content: JsonView| JsonView::Object(
                Map::<Seq<char>, JsonView>::empty().insert(
                    "sessionUpdate"@,
                    JsonView::Text("agent_message_chunk"@),
                ).insert("content"@, content),
            );
            let other = JsonView::Object(
                Map::<Seq<char>, JsonView>::empty().insert("sessionUpdate"@, JsonView::Text(kind)),
            );
            &&& notification_read(sent(chunk(content))) == Some(
                (session, UpdateView::AgentMessageChunk(Some(text))),
            )
            &&& notification_read(sent(chunk(block))) == Some(
                (session, UpdateView::AgentMessageChunk(None)),
            )
            &&& notification_read(sent(other)) == Some((session, UpdateView::Other))
            &&& block_read(content) == Some(Some(text))
            &&& block_read(block) == Some(None::<Seq<char>>)
        }),
{
    reveal_strlit("type");
    reveal_strlit("text");
    reveal_strlit("sessionId");
    reveal_strlit("update");
    reveal_strlit("sessionUpdate");
    reveal_strlit("content");
    assert("type"@[1] == 'y');
    assert("text"@[1] == 'e');
    assert("sessionId"@.len() == 9);
    assert("update"@.len() == 6);
    assert("sessionUpdate"@.len() == 13);
    assert("content"@.len() == 7);
}

/// An agent that asks for permission is answered with the first of its options that
/// denies, or is told that the request was cancelled; an agent that asks for anything else
/// is told that this is not supported.
pub proof fn law_an_agents_request_is_denied(
    id: IdView,
    method: Seq<char>,
    params: JsonView,
    options: Seq<OptionView>,
    i: int,
)
    ensures
        method != "session/request_permission"@ ==> agent_answer(id, method, params)
            == failure_envelope(
            id,
            ErrorObjectView {
                code: -32601,
                message: bounded_text("unsupported agent request: "@ + method),
                data: None,
            },
        ),
        method == "session/request_permission"@ && permission_read(params) == Some(options) && 0 <= i
            < options.len() && "reject"@.is_prefix_of(options[i].kind) && (forall|k: int|
            0 <= k < i ==> !"reject"@.is_prefix_of((#[trigger] options[k]).kind)) ==> agent_answer(
            id,
            method,
            params,
        ) == success_envelope(
            id,
            JsonView::Object(
                Map::<Seq<char>, JsonView>::empty().insert(
                    "outcome"@,
                    JsonView::Text("selected"@),
                ).insert("optionId"@, JsonView::Text(options[i].option_id)),
            ),
        ),
        method == "session/request_permission"@ && (permission_read(params) matches Some(own)
            ==> forall|k: int|
            0 <= k < own.len() ==> !"reject"@.is_prefix_of((#[trigger] own[k]).kind))
            ==> agent_answer(id, method, params) == success_envelope(
            id,
            JsonView::Object(
                Map::<Seq<char>, JsonView>::empty().insert(
                    "outcome"@,
                    JsonView::Text("cancelled"@),
                ),
            ),
        ),
{
    lemma_first_denying(options, i);
    if let Some(own) = permission_read(params) {
        lemma_first_reject(own);
        if let Some(option) = first_reject(own) {
            let k = choose|k: int| 0 <= k < own.len() && own[k] == option;
            assert(own[k].rejects());
        }
    }
}

proof fn lemma_first_denying(options: Seq<OptionView>, i: int)
    ensures
        0 <= i < options.len() && options[i].rejects() && (forall|k: int|
            0 <= k < i ==> !(#[trigger] options[k]).rejects()) ==> first_reject(options) == Some(
            options[i],
        ),
    decreases options.len(),
{
    if 0 < i < options.len() && options[i].rejects() && (forall|k: int|
        0 <= k < i ==> !(#[trigger] options[k]).rejects()) {
        let rest = options.drop_first();
        assert(!options[0].rejects());
        assert forall|k: int| 0 <= k < i - 1 implies !(#[trigger] rest[k]).rejects() by {
            assert(!options[k + 1].rejects());
        }
        assert(rest[i - 1] == options[i]);
        lemma_first_denying(rest, i - 1);
    }
}

/// An option is read with its name and its kind, and every option of a request is read, in
/// order, or none is.
pub proof fn law_options_are_read_as_they_are_offered(items: Seq<JsonView>, value: JsonView)
    ensures
        options_read(items) matches Some(options) ==> options.len() == items.len() && forall|k: int|
            0 <= k < items.len() ==> option_read(#[trigger] items[k]) == Some(options[k]),
        options_read(items) is None ==> exists|k: int|
            0 <= k < items.len() && option_read(#[trigger] items[k]) is None,
        value is Object ==> (option_read(value) matches Some(option) ==> {
            &&& value.field("optionId"@) == Some(JsonView::Text(option.option_id))
            &&& value.field("kind"@) == Some(JsonView::Text(option.kind))
            &&& option.name matches Some(name) ==> value.field("name"@) == Some(
                JsonView::Text(name),
            )
        }),
        value is Object && value.field("optionId"@) is Some && value.field("optionId"@)->0 is Text
            && value.field("kind"@) is Some && value.field("kind"@)->0 is Text && value.field(
            "name"@,
        ) is None ==> option_read(value) is Some,
    decreases items.len(),
{
    if items.len() > 0 {
        let rest = items.drop_last();
        law_options_are_read_as_they_are_offered(rest, value);
        if let Some(options) = options_read(items) {
            assert forall|k: int| 0 <= k < items.len() implies option_read(#[trigger] items[k])
                == Some(options[k]) by {
                if k < rest.len() {
                    assert(option_read(rest[k]) == Some(options[k]));
                }
            }
        } else if options_read(rest) is None {
            let k = choose|k: int| 0 <= k < rest.len() && option_read(#[trigger] rest[k]) is None;
            assert(option_read(items[k]) is None);
        } else {
            assert(option_read(items[items.len() - 1]) is None);
        }
    }
}

/// A session is opened and resumed in its own directories, and prompted with one text.
pub proof fn law_requests_say_what_they_ask(
    cwd: Seq<char>,
    servers: Seq<JsonView>,
    directories: Seq<Seq<char>>,
    session: Seq<char>,
    text: Seq<char>,
)
    ensures
        ({
            let members = workspace_members(cwd, servers, directories);
            &&& members["cwd"@] == JsonView::Text(cwd)
            &&& members["mcpServers"@] == JsonView::List(servers)
            &&& members["additionalDirectories"@] matches JsonView::List(items) && items.len()
                == directories.len() && forall|i: int|
                0 <= i < items.len() ==> (#[trigger] items[i]) == JsonView::Text(directories[i])
            &&& prompt_value(session, text).field("sessionId"@) == Some(JsonView::Text(session))
            &&& prompt_value(session, text).field("prompt"@) matches Some(JsonView::List(blocks))
                && blocks.len() == 1 && block_read(blocks[0]) == Some(Some(text))
        }),
{
    reveal_strlit("cwd");
    reveal_strlit("mcpServers");
    reveal_strlit("additionalDirectories");
    reveal_strlit("sessionId");
    reveal_strlit("prompt");
    reveal_strlit("type");
    reveal_strlit("text");
    assert("cwd"@.len() == 3);
    assert("mcpServers"@.len() == 10);
    assert("additionalDirectories"@.len() == 21);
    assert("sessionId"@.len() == 9);
    assert("prompt"@.len() == 6);
    assert("type"@[1] == 'y');
    assert("text"@[1] == 'e');
}

} // verus!
