//! JSON-RPC messages: envelopes, identities and error objects.
//!
//! A request has a method and an id, a notification a method and no id, a
//! response an id, no method, and exactly one of a result and an error.

use vstd::prelude::*;
use vstd::string::*;

use crate::acp::bounded;
use crate::acp::bounded_text;
use crate::json::integer_number;
use crate::json::integer_value;
use crate::json::Json;
use crate::json::JsonView;
use crate::text::concat2;
use crate::text::signed_decimal;
use crate::text::signed_decimal_text;

verus! {

/// The text was not JSON.
pub const PARSE_ERROR: i64 = -32700;

/// The value is not a request.
pub const INVALID_REQUEST: i64 = -32600;

/// The method does not exist.
pub const METHOD_NOT_FOUND: i64 = -32601;

/// The parameters do not fit the method.
pub const INVALID_PARAMS: i64 = -32602;

/// The peer failed.
pub const INTERNAL_ERROR: i64 = -32603;

/// A request identity as data.
pub ghost enum IdView {
    Number(int),
    Text(Seq<char>),
}

impl IdView {
    /// The identity in words.
    pub open spec fn rendered(self) -> Seq<char> {
        match self {
            IdView::Number(value) => signed_decimal(value),
            IdView::Text(text) => text,
        }
    }

    /// The identity as a JSON value.
    pub open spec fn value(self) -> JsonView {
        match self {
            IdView::Number(value) => JsonView::Number(integer_number(value)),
            IdView::Text(text) => JsonView::Text(text),
        }
    }
}

/// The identity that a JSON value is: an integer or a text. A null identity
/// cannot be correlated with anything.
pub open spec fn identity(value: JsonView) -> Option<IdView> {
    match value {
        JsonView::Number(number) => match integer_value(number) {
            Some(value) => Some(IdView::Number(value)),
            None => None,
        },
        JsonView::Text(text) => Some(IdView::Text(text)),
        _ => None,
    }
}

/// A request identity.
#[derive(Debug, PartialEq, Eq)]
pub enum RequestId {
    /// A numeric identity.
    Number(i64),
    /// A text identity.
    String(String),
}

impl View for RequestId {
    type V = IdView;

    open spec fn view(&self) -> IdView {
        match self {
            RequestId::Number(value) => IdView::Number(*value as int),
            RequestId::String(text) => IdView::Text(text@),
        }
    }
}

impl RequestId {
    /// The identity as a number, when it is one.
    pub fn as_number(&self) -> (value: Option<i64>)
        ensures
            match value {
                Some(value) => self@ == IdView::Number(value as int),
                None => self@ is Text,
            },
    {
        match self {
            RequestId::Number(value) => Some(*value),
            RequestId::String(_) => None,
        }
    }

    /// The identity that `value` is.
    fn from_value(value: &Json) -> (id: Option<RequestId>)
        ensures
            match id {
                Some(id) => identity(value@) == Some(id@),
                None => identity(value@) is None,
            },
    {
        match value.as_integer() {
            Some(number) => Some(RequestId::Number(number)),
            None => match value.as_text() {
                Some(text) => Some(RequestId::String(text.clone())),
                None => None,
            },
        }
    }

    /// The identity as a JSON value.
    fn to_value(&self) -> (value: Json)
        ensures
            value@ == self@.value(),
            identity(value@) == Some(self@),
    {
        match self {
            RequestId::Number(value) => Json::integer(*value),
            RequestId::String(text) => Json::text(text.as_str()),
        }
    }

    /// The same identity once more.
    pub fn duplicate(&self) -> (copy: RequestId)
        ensures
            copy@ == self@,
    {
        match self {
            RequestId::Number(value) => RequestId::Number(*value),
            RequestId::String(text) => RequestId::String(text.clone()),
        }
    }

    /// The identity in words.
    pub fn to_string(&self) -> (text: String)
        ensures
            text@ == self@.rendered(),
    {
        match self {
            RequestId::Number(value) => signed_decimal_text(*value),
            RequestId::String(text) => text.clone(),
        }
    }
}

/// A request: it expects a response.
#[derive(Debug, PartialEq)]
pub struct JsonRpcRequest {
    /// Correlation identity.
    pub id: RequestId,
    /// Method name.
    pub method: String,
    /// Method parameters, null when absent.
    pub params: Json,
}

/// A notification: it expects no response.
#[derive(Debug, PartialEq)]
pub struct JsonRpcNotification {
    /// Method name.
    pub method: String,
    /// Method parameters, null when absent.
    pub params: Json,
}

/// An error object as data.
pub ghost struct ErrorObjectView {
    pub code: int,
    pub message: Seq<char>,
    pub data: Option<JsonView>,
}

impl ErrorObjectView {
    /// The error in words, without its data.
    pub open spec fn rendered(self) -> Seq<char> {
        "code "@ + signed_decimal(self.code) + ": "@ + self.message
    }
}

/// An error object.
#[derive(Debug, PartialEq)]
pub struct JsonRpcErrorObject {
    /// Numeric error code.
    pub code: i64,
    /// Message for people.
    pub message: String,
    /// Structured detail, which is not rendered.
    pub data: Option<Json>,
}

impl View for JsonRpcErrorObject {
    type V = ErrorObjectView;

    open spec fn view(&self) -> ErrorObjectView {
        ErrorObjectView {
            code: self.code as int,
            message: self.message@,
            data: match self.data {
                Some(data) => Some(data@),
                None => None,
            },
        }
    }
}

impl JsonRpcErrorObject {
    /// An error object without data, its message bounded.
    pub fn new(code: i64, message: &str) -> (error: JsonRpcErrorObject)
        ensures
            error@ == (ErrorObjectView {
                code: code as int,
                message: bounded_text(message@),
                data: None,
            }),
    {
        JsonRpcErrorObject { code, message: bounded(message), data: None }
    }

    /// The error in words, without its data.
    pub fn to_string(&self) -> (text: String)
        ensures
            text@ == self@.rendered(),
    {
        let digits = signed_decimal_text(self.code);
        let mut text = concat2("code ", digits.as_str());
        text.append(": ");
        text.append(self.message.as_str());
        text
    }

    /// The same error once more.
    pub fn duplicate(&self) -> (copy: JsonRpcErrorObject)
        ensures
            copy@ == self@,
    {
        let data = match &self.data {
            Some(data) => Some(data.duplicate()),
            None => None,
        };
        JsonRpcErrorObject { code: self.code, message: self.message.clone(), data }
    }
}

/// A message as data.
pub ghost enum MessageView {
    Request { id: IdView, method: Seq<char>, params: JsonView },
    Notification { method: Seq<char>, params: JsonView },
    Response { id: IdView, outcome: Result<JsonView, ErrorObjectView> },
}

/// One parsed message.
#[derive(Debug, PartialEq)]
pub enum JsonRpcMessage {
    /// A request of the peer.
    Request(JsonRpcRequest),
    /// A notification of the peer.
    Notification(JsonRpcNotification),
    /// A response to a request of ours.
    Response {
        /// The identity that the request had.
        id: RequestId,
        /// The result, or the error object that the peer returned.
        outcome: Result<Json, JsonRpcErrorObject>,
    },
}

/// An outcome as data.
pub open spec fn outcome_view(outcome: Result<Json, JsonRpcErrorObject>) -> Result<
    JsonView,
    ErrorObjectView,
> {
    match outcome {
        Ok(value) => Ok(value@),
        Err(error) => Err(error@),
    }
}

impl View for JsonRpcMessage {
    type V = MessageView;

    open spec fn view(&self) -> MessageView {
        match self {
            JsonRpcMessage::Request(request) => MessageView::Request {
                id: request.id@,
                method: request.method@,
                params: request.params@,
            },
            JsonRpcMessage::Notification(notification) => MessageView::Notification {
                method: notification.method@,
                params: notification.params@,
            },
            JsonRpcMessage::Response { id, outcome } => MessageView::Response {
                id: id@,
                outcome: outcome_view(*outcome),
            },
        }
    }
}

/// A protocol failure as data.
pub ghost enum ProtocolErrorView {
    NotAnObject,
    UnrecognisedShape,
    UncorrelatableId,
    MissingOutcome,
    MalformedError(Seq<char>),
}

impl ProtocolErrorView {
    /// The failure in words.
    pub open spec fn rendered(self) -> Seq<char> {
        match self {
            ProtocolErrorView::NotAnObject => "message is not a JSON object"@,
            ProtocolErrorView::UnrecognisedShape => "message matches no JSON-RPC shape"@,
            ProtocolErrorView::UncorrelatableId => "response id cannot be correlated"@,
            ProtocolErrorView::MissingOutcome => "response carries neither result nor error"@,
            ProtocolErrorView::MalformedError(detail) => "error object is malformed: "@ + detail,
        }
    }
}

/// Why a JSON value is no usable message.
#[derive(Debug, Clone, PartialEq, Eq)]
pub enum ProtocolError {
    /// The value is not an object.
    NotAnObject,
    /// The object matches none of the three shapes.
    UnrecognisedShape,
    /// The identity is neither an integer nor a text.
    UncorrelatableId,
    /// A response did not carry exactly one of a result and an error.
    MissingOutcome,
    /// An error object was malformed.
    MalformedError { detail: String },
}

impl View for ProtocolError {
    type V = ProtocolErrorView;

    open spec fn view(&self) -> ProtocolErrorView {
        match self {
            ProtocolError::NotAnObject => ProtocolErrorView::NotAnObject,
            ProtocolError::UnrecognisedShape => ProtocolErrorView::UnrecognisedShape,
            ProtocolError::UncorrelatableId => ProtocolErrorView::UncorrelatableId,
            ProtocolError::MissingOutcome => ProtocolErrorView::MissingOutcome,
            ProtocolError::MalformedError { detail } => ProtocolErrorView::MalformedError(detail@),
        }
    }
}

impl ProtocolError {
    /// The failure in words.
    pub fn to_string(&self) -> (text: String)
        ensures
            text@ == self@.rendered(),
    {
        match self {
            ProtocolError::NotAnObject => "message is not a JSON object".to_owned(),
            ProtocolError::UnrecognisedShape => "message matches no JSON-RPC shape".to_owned(),
            ProtocolError::UncorrelatableId => "response id cannot be correlated".to_owned(),
            ProtocolError::MissingOutcome => {
                "response carries neither result nor error".to_owned()
            },
            ProtocolError::MalformedError { detail } => {
                concat2("error object is malformed: ", detail.as_str())
            },
        }
    }

    /// The same failure once more.
    pub fn duplicate(&self) -> (copy: ProtocolError)
        ensures
            copy@ == self@,
    {
        match self {
            ProtocolError::NotAnObject => ProtocolError::NotAnObject,
            ProtocolError::UnrecognisedShape => ProtocolError::UnrecognisedShape,
            ProtocolError::UncorrelatableId => ProtocolError::UncorrelatableId,
            ProtocolError::MissingOutcome => ProtocolError::MissingOutcome,
            ProtocolError::MalformedError { detail } => {
                ProtocolError::MalformedError { detail: detail.clone() }
            },
        }
    }
}

/// The text member `key`.
pub open spec fn text_field(value: JsonView, key: Seq<char>) -> Option<Seq<char>> {
    match value.field(key) {
        Some(member) => member.text(),
        None => None,
    }
}

/// The error object that a JSON value is.
pub open spec fn error_read(value: JsonView) -> Result<ErrorObjectView, ProtocolErrorView> {
    let code = match value.field("code"@) {
        Some(member) => member.integer(),
        None => None,
    };
    if !(value is Object) {
        Err(ProtocolErrorView::MalformedError("error is not an object"@))
    } else if code is None {
        Err(ProtocolErrorView::MalformedError("error has no numeric code"@))
    } else if text_field(value, "message"@) is None {
        Err(ProtocolErrorView::MalformedError("error has no string message"@))
    } else {
        Ok(
            ErrorObjectView {
                code: code->0,
                message: bounded_text(text_field(value, "message"@)->0),
                data: value.field("data"@),
            },
        )
    }
}

/// The parameters of a message: null when absent.
pub open spec fn params_of(value: JsonView) -> JsonView {
    match value.field("params"@) {
        Some(params) => params,
        None => JsonView::Null,
    }
}

/// The response `id` that an object without a method carries.
pub open spec fn response_read(id: IdView, value: JsonView) -> Result<
    MessageView,
    ProtocolErrorView,
> {
    match (value.field("result"@), value.field("error"@)) {
        (Some(result), None) => Ok(MessageView::Response { id, outcome: Ok(result) }),
        (None, Some(error)) => match error_read(error) {
            Ok(object) => Ok(MessageView::Response { id, outcome: Err(object) }),
            Err(fault) => Err(fault),
        },
        _ => Err(ProtocolErrorView::MissingOutcome),
    }
}

/// The message that a JSON value is.
pub open spec fn message_read(value: JsonView) -> Result<MessageView, ProtocolErrorView> {
    let method = text_field(value, "method"@);
    if !(value is Object) {
        Err(ProtocolErrorView::NotAnObject)
    } else {
        match value.field("id"@) {
            Some(member) => match identity(member) {
                None => Err(ProtocolErrorView::UncorrelatableId),
                Some(id) => match method {
                    Some(method) => Ok(
                        MessageView::Request { id, method, params: params_of(value) },
                    ),
                    None => response_read(id, value),
                },
            },
            None => match method {
                Some(method) => Ok(MessageView::Notification { method, params: params_of(value) }),
                None => Err(ProtocolErrorView::UnrecognisedShape),
            },
        }
    }
}

/// The text member `key` of an object.
fn text_member(value: &Json, key: &str) -> (text: Option<String>)
    ensures
        match text {
            Some(text) => text_field(value@, key@) == Some(text@),
            None => text_field(value@, key@) is None,
        },
{
    match value.get(key) {
        Some(member) => match member.as_text() {
            Some(text) => Some(text.clone()),
            None => None,
        },
        None => None,
    }
}

/// The parameters of a message: null when absent.
fn params_member(value: &Json) -> (params: Json)
    ensures
        params@ == params_of(value@),
{
    match value.get("params") {
        Some(params) => params.duplicate(),
        None => Json::Null,
    }
}

/// A malformed error object, in words.
fn malformed(detail: &str) -> (error: ProtocolError)
    ensures
        error@ == ProtocolErrorView::MalformedError(detail@),
{
    ProtocolError::MalformedError { detail: detail.to_owned() }
}

/// Interpret a JSON value as an error object.
fn read_error(value: &Json) -> (read: Result<JsonRpcErrorObject, ProtocolError>)
    ensures
        match read {
            Ok(object) => error_read(value@) == Ok::<ErrorObjectView, ProtocolErrorView>(object@),
            Err(fault) => error_read(value@) == Err::<ErrorObjectView, ProtocolErrorView>(fault@),
        },
{
    if !value.is_object() {
        return Err(malformed("error is not an object"));
    }
    let code = match value.get("code") {
        Some(member) => member.as_integer(),
        None => None,
    };
    match code {
        None => Err(malformed("error has no numeric code")),
        Some(code) => match text_member(value, "message") {
            None => Err(malformed("error has no string message")),
            Some(message) => {
                let data = match value.get("data") {
                    Some(data) => Some(data.duplicate()),
                    None => None,
                };
                Ok(JsonRpcErrorObject { code, message: bounded(message.as_str()), data })
            },
        },
    }
}

/// Interpret an object without a method as the response `id`.
fn read_response(id: RequestId, value: &Json) -> (read: Result<JsonRpcMessage, ProtocolError>)
    ensures
        match read {
            Ok(message) => response_read(id@, value@) == Ok::<MessageView, ProtocolErrorView>(
                message@,
            ),
            Err(fault) => response_read(id@, value@) == Err::<MessageView, ProtocolErrorView>(
                fault@,
            ),
        },
{
    match (value.get("result"), value.get("error")) {
        (Some(result), None) => {
            Ok(JsonRpcMessage::Response { id, outcome: Ok(result.duplicate()) })
        },
        (None, Some(error)) => match read_error(error) {
            Ok(object) => Ok(JsonRpcMessage::Response { id, outcome: Err(object) }),
            Err(fault) => Err(fault),
        },
        _ => Err(ProtocolError::MissingOutcome),
    }
}

/// Interpret a JSON value as a message.
pub fn parse(value: &Json) -> (read: Result<JsonRpcMessage, ProtocolError>)
    ensures
        match read {
            Ok(message) => message_read(value@) == Ok::<MessageView, ProtocolErrorView>(message@),
            Err(fault) => message_read(value@) == Err::<MessageView, ProtocolErrorView>(fault@),
        },
{
    if !value.is_object() {
        return Err(ProtocolError::NotAnObject);
    }
    let method = text_member(value, "method");
    match value.get("id") {
        Some(member) => match RequestId::from_value(member) {
            None => Err(ProtocolError::UncorrelatableId),
            Some(id) => match method {
                Some(method) => Ok(
                    JsonRpcMessage::Request(
                        JsonRpcRequest { id, method, params: params_member(value) },
                    ),
                ),
                None => read_response(id, value),
            },
        },
        None => match method {
            Some(method) => Ok(
                JsonRpcMessage::Notification(
                    JsonRpcNotification { method, params: params_member(value) },
                ),
            ),
            None => Err(ProtocolError::UnrecognisedShape),
        },
    }
}

/// What every envelope starts from.
pub open spec fn envelope() -> Map<Seq<char>, JsonView> {
    Map::empty().insert("jsonrpc"@, JsonView::Text("2.0"@))
}

/// The envelope of a request.
pub open spec fn request_envelope(id: int, method: Seq<char>, params: JsonView) -> JsonView {
    JsonView::Object(
        envelope().insert("id"@, JsonView::Number(integer_number(id))).insert(
            "method"@,
            JsonView::Text(method),
        ).insert("params"@, params),
    )
}

/// The envelope of a notification.
pub open spec fn notification_envelope(method: Seq<char>, params: JsonView) -> JsonView {
    JsonView::Object(
        envelope().insert("method"@, JsonView::Text(method)).insert("params"@, params),
    )
}

/// The envelope of a success.
pub open spec fn success_envelope(id: IdView, result: JsonView) -> JsonView {
    JsonView::Object(envelope().insert("id"@, id.value()).insert("result"@, result))
}

/// An error object as a JSON value.
pub open spec fn error_value(error: ErrorObjectView) -> JsonView {
    let object = Map::empty().insert("code"@, JsonView::Number(integer_number(error.code))).insert(
        "message"@,
        JsonView::Text(error.message),
    );
    match error.data {
        Some(data) => JsonView::Object(object.insert("data"@, data)),
        None => JsonView::Object(object),
    }
}

/// The envelope of a failure.
pub open spec fn failure_envelope(id: IdView, error: ErrorObjectView) -> JsonView {
    JsonView::Object(envelope().insert("id"@, id.value()).insert("error"@, error_value(error)))
}

/// The member names are different texts.
proof fn lemma_names_differ()
    ensures
        "jsonrpc"@ != "id"@,
        "jsonrpc"@ != "method"@,
        "jsonrpc"@ != "params"@,
        "jsonrpc"@ != "result"@,
        "jsonrpc"@ != "error"@,
        "id"@ != "method"@,
        "id"@ != "params"@,
        "id"@ != "result"@,
        "id"@ != "error"@,
        "method"@ != "params"@,
        "method"@ != "result"@,
        "method"@ != "error"@,
        "params"@ != "result"@,
        "params"@ != "error"@,
        "result"@ != "error"@,
        "code"@ != "message"@,
        "code"@ != "data"@,
        "message"@ != "data"@,
{
    reveal_strlit("jsonrpc");
    reveal_strlit("id");
    reveal_strlit("method");
    reveal_strlit("params");
    reveal_strlit("result");
    reveal_strlit("error");
    reveal_strlit("code");
    reveal_strlit("message");
    reveal_strlit("data");
    assert("jsonrpc"@[0] == 'j');
    assert("id"@[0] == 'i');
    assert("error"@[0] == 'e');
    assert("method"@[0] == 'm');
    assert("params"@[0] == 'p');
    assert("result"@[0] == 'r');
    assert("code"@[0] == 'c');
    assert("data"@[0] == 'd');
}

/// The envelope that every message starts from.
fn start() -> (json: Json)
    ensures
        json@ == JsonView::Object(envelope()),
{
    Json::empty_object().with("jsonrpc", Json::text("2.0"))
}

/// Build a request envelope. It is read back as that request.
pub fn request(id: i64, method: &str, params: Json) -> (json: Json)
    ensures
        json@ == request_envelope(id as int, method@, params@),
        message_read(json@) == Ok::<MessageView, ProtocolErrorView>(
            MessageView::Request { id: IdView::Number(id as int), method: method@, params: params@ },
        ),
{
    proof {
        lemma_names_differ();
    }
    start().with("id", Json::integer(id)).with("method", Json::text(method)).with("params", params)
}

/// Build a notification envelope. It is read back as that notification.
pub fn notification(method: &str, params: Json) -> (json: Json)
    ensures
        json@ == notification_envelope(method@, params@),
        message_read(json@) == Ok::<MessageView, ProtocolErrorView>(
            MessageView::Notification { method: method@, params: params@ },
        ),
{
    proof {
        lemma_names_differ();
    }
    start().with("method", Json::text(method)).with("params", params)
}

/// Build a success response envelope. It is read back as that response.
pub fn success(id: RequestId, result: Json) -> (json: Json)
    ensures
        json@ == success_envelope(id@, result@),
        message_read(json@) == Ok::<MessageView, ProtocolErrorView>(
            MessageView::Response { id: id@, outcome: Ok(result@) },
        ),
{
    proof {
        lemma_names_differ();
    }
    start().with("id", id.to_value()).with("result", result)
}

/// Build an error response envelope. It is read back as that response, the
/// message bounded.
pub fn failure(id: RequestId, error: &JsonRpcErrorObject) -> (json: Json)
    ensures
        json@ == failure_envelope(id@, error@),
        message_read(json@) == Ok::<MessageView, ProtocolErrorView>(
            MessageView::Response {
                id: id@,
                outcome: Err(
                    ErrorObjectView {
                        code: error@.code,
                        message: bounded_text(error@.message),
                        data: error@.data,
                    },
                ),
            },
        ),
{
    proof {
        lemma_names_differ();
    }
    let object = Json::empty_object().with("code", Json::integer(error.code)).with(
        "message",
        Json::text(error.message.as_str()),
    );
    let object = match &error.data {
        Some(data) => object.with("data", data.duplicate()),
        None => object,
    };
    start().with("id", id.to_value()).with("error", object)
}

/// How messages are told apart. An object with a method is a request where it has an
/// identity, and a notification where it has none; one with an identity and no method is a
/// response, with a result or an error and never with both or neither; and nothing else is
/// a message.
pub proof fn law_messages_are_told_apart(value: JsonView)
    ensures
        !(value is Object) ==> message_read(value) == Err::<MessageView, ProtocolErrorView>(
            ProtocolErrorView::NotAnObject,
        ),
        value is Object ==> ({
            let params = match value.field("params"@) {
                Some(params) => params,
                None => JsonView::Null,
            };
            let method = match value.field("method"@) {
                Some(JsonView::Text(method)) => Some(method),
                _ => None,
            };
            let id = match value.field("id"@) {
                Some(JsonView::Text(text)) => Some(IdView::Text(text)),
                Some(JsonView::Number(number)) => match integer_value(number) {
                    Some(id) => Some(IdView::Number(id)),
                    None => None,
                },
                _ => None,
            };
            match (value.field("id"@), id, method) {
                (Some(_), None, _) => message_read(value) == Err::<MessageView, ProtocolErrorView>(
                    ProtocolErrorView::UncorrelatableId,
                ),
                (Some(_), Some(id), Some(method)) => message_read(value) == Ok::<
                    MessageView,
                    ProtocolErrorView,
                >(MessageView::Request { id, method, params }),
                (Some(_), Some(id), None) => match (value.field("result"@), value.field("error"@)) {
                    (Some(result), None) => message_read(value) == Ok::<
                        MessageView,
                        ProtocolErrorView,
                    >(MessageView::Response { id, outcome: Ok(result) }),
                    (None, Some(error)) => (message_read(value) matches Ok(
                        MessageView::Response { id: own, outcome: Err(object) },
                    ) && own == id && error.field("code"@) is Some && error.field("code"@)->0.integer()
                        == Some(object.code) && (error.field("message"@) matches Some(
                        JsonView::Text(text),
                    ) && object.message == bounded_text(text)) && object.data == error.field(
                        "data"@,
                    )) || (message_read(value) matches Err(ProtocolErrorView::MalformedError(_))
                        && !(error is Object && error.field("code"@) is Some && error.field(
                        "code"@,
                    )->0.integer() is Some && error.field("message"@) is Some && error.field(
                        "message"@,
                    )->0 is Text)),
                    _ => message_read(value) == Err::<MessageView, ProtocolErrorView>(
                        ProtocolErrorView::MissingOutcome,
                    ),
                },
                (None, _, Some(method)) => message_read(value) == Ok::<
                    MessageView,
                    ProtocolErrorView,
                >(MessageView::Notification { method, params }),
                (None, _, None) => message_read(value) == Err::<MessageView, ProtocolErrorView>(
                    ProtocolErrorView::UnrecognisedShape,
                ),
            }
        }),
{
}

} // verus!
