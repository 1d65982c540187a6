use guigu_agent_bridge::acp::bounded;
use guigu_agent_bridge::acp::error::AcpError;
use guigu_agent_bridge::acp::error::Phase;
use guigu_agent_bridge::acp::framing::write_frame;
use guigu_agent_bridge::acp::framing::FrameError;
use guigu_agent_bridge::acp::framing::FrameReader;
use guigu_agent_bridge::acp::framing::MAX_FRAME_BYTES;
use guigu_agent_bridge::acp::jsonrpc::failure;
use guigu_agent_bridge::acp::jsonrpc::notification;
use guigu_agent_bridge::acp::jsonrpc::parse;
use guigu_agent_bridge::acp::jsonrpc::request;
use guigu_agent_bridge::acp::jsonrpc::success;
use guigu_agent_bridge::acp::jsonrpc::JsonRpcErrorObject;
use guigu_agent_bridge::acp::jsonrpc::JsonRpcMessage;
use guigu_agent_bridge::acp::jsonrpc::ProtocolError;
use guigu_agent_bridge::acp::jsonrpc::RequestId;
use guigu_agent_bridge::acp::jsonrpc::INTERNAL_ERROR;
use guigu_agent_bridge::acp::jsonrpc::INVALID_PARAMS;
use guigu_agent_bridge::acp::jsonrpc::INVALID_REQUEST;
use guigu_agent_bridge::acp::jsonrpc::METHOD_NOT_FOUND;
use guigu_agent_bridge::acp::jsonrpc::PARSE_ERROR;
use guigu_agent_bridge::acp::result::TurnResult;
use guigu_agent_bridge::acp::result::WireTurnResult;
use guigu_agent_bridge::acp::schema::agent_request_response;
use guigu_agent_bridge::acp::schema::text_prompt;
use guigu_agent_bridge::acp::schema::AuthMethod;
use guigu_agent_bridge::acp::schema::AuthenticateParams;
use guigu_agent_bridge::acp::schema::ContentBlock;
use guigu_agent_bridge::acp::schema::InitializeParams;
use guigu_agent_bridge::acp::schema::NewSessionParams;
use guigu_agent_bridge::acp::schema::PermissionOption;
use guigu_agent_bridge::acp::schema::PermissionRequestParams;
use guigu_agent_bridge::acp::schema::ResumeSessionParams;
use guigu_agent_bridge::acp::schema::SessionNotification;
use guigu_agent_bridge::acp::schema::SessionUpdate;
use guigu_agent_bridge::acp::schema::StopReason;
use guigu_agent_bridge::acp::schema::CLIENT_NAME;
use guigu_agent_bridge::acp::schema::CLIENT_VERSION;
use guigu_agent_bridge::acp::schema::METHOD_REQUEST_PERMISSION;
use guigu_agent_bridge::acp::schema::PROTOCOL_VERSION;
use guigu_agent_bridge::acp::MAX_DETAIL_BYTES;
use guigu_agent_bridge::json::Json;
use guigu_agent_bridge::storage::StorageError;

fn json(text: &str) -> Json {
    Json::parse(text).expect("valid JSON")
}

fn member<'a>(value: &'a Json, key: &str) -> &'a Json {
    value.get(key).expect("a member")
}

fn text_of(value: &Json, key: &str) -> String {
    member(value, key).as_text().expect("a text").clone()
}

fn item(value: &Json, at: usize) -> &Json {
    match value {
        Json::List(items) => &items[at],
        other => panic!("expected a list, got {other:?}"),
    }
}

/// Read every frame the reader can produce from `chunks`, fed in order.
fn read_all(chunks: &[&[u8]], limit: usize) -> Result<Vec<Json>, FrameError> {
    let mut reader = FrameReader::new(limit);
    let mut frames = Vec::new();
    for chunk in chunks {
        reader.push(chunk);
        while let Some(frame) = reader.next_frame()? {
            frames.push(frame);
        }
    }
    reader.finish()?;
    Ok(frames)
}

#[test]
fn a_long_detail_is_truncated_at_a_character_boundary() {
    assert_eq!(bounded("short"), "short");
    assert_eq!(bounded(&"x".repeat(4096)).len(), MAX_DETAIL_BYTES);
    // Three-byte characters: the cut must not split one.
    let multibyte = bounded(&"€".repeat(1000));
    assert!(multibyte.len() <= MAX_DETAIL_BYTES);
    assert!(multibyte.chars().all(|character| character == '€'));
}

#[test]
fn a_frame_split_across_reads_is_reassembled() {
    let frames = read_all(
        &[b"{\"id\":1,", b"\"method\":", b"\"initialize\"}", b"\n"],
        MAX_FRAME_BYTES,
    )
    .expect("frames");
    assert_eq!(frames.len(), 1);
    assert_eq!(text_of(&frames[0], "method"), "initialize");
}

#[test]
fn several_frames_in_one_read_are_all_yielded() {
    let frames =
        read_all(&[b"{\"id\":1}\n{\"id\":2}\n{\"id\":3}\n"], MAX_FRAME_BYTES).expect("frames");
    assert_eq!(
        frames
            .iter()
            .map(|frame| member(frame, "id").as_integer())
            .collect::<Vec<_>>(),
        vec![Some(1), Some(2), Some(3)]
    );
}

#[test]
fn crlf_whitespace_and_blank_lines_are_tolerated() {
    let frames = read_all(
        &[b" \r\n", b"{\"id\":1}\r\n", b"\n\t\n", b"{\"id\":2}\n"],
        MAX_FRAME_BYTES,
    )
    .expect("frames");
    assert_eq!(frames.len(), 2);
    assert_eq!(member(&frames[0], "id").as_integer(), Some(1));
    assert_eq!(member(&frames[1], "id").as_integer(), Some(2));
}

#[test]
fn an_empty_stream_is_a_clean_end() {
    assert!(read_all(&[], MAX_FRAME_BYTES).expect("clean").is_empty());
    assert!(read_all(&[b"\n\n"], MAX_FRAME_BYTES)
        .expect("clean")
        .is_empty());
}

#[test]
fn a_frame_truncated_by_eof_is_reported() {
    assert!(matches!(
        read_all(&[b"{\"id\":1}"], MAX_FRAME_BYTES),
        Err(FrameError::Truncated)
    ));
}

#[test]
fn an_oversized_frame_is_refused_before_it_is_buffered_in_full() {
    let mut reader = FrameReader::new(64);
    reader.push(&[b'x'; 65]);
    assert!(matches!(
        reader.next_frame(),
        Err(FrameError::TooLarge { limit: 64 })
    ));

    let mut reader = FrameReader::new(64);
    let mut line = vec![b'y'; 65];
    line.push(b'\n');
    reader.push(&line);
    assert!(matches!(
        reader.next_frame(),
        Err(FrameError::TooLarge { limit: 64 })
    ));
}

#[test]
fn invalid_utf8_and_malformed_json_are_classified() {
    let mut reader = FrameReader::new(MAX_FRAME_BYTES);
    reader.push(&[0xff, 0xfe, b'\n']);
    assert!(matches!(reader.next_frame(), Err(FrameError::NotUtf8)));

    let mut reader = FrameReader::new(MAX_FRAME_BYTES);
    reader.push(b"not json\n");
    match reader.next_frame() {
        Err(FrameError::Malformed { detail }) => {
            assert!(!detail.contains("not json"), "the frame must not be echoed");
        }
        other => panic!("expected a malformed frame, got {other:?}"),
    }
}

#[test]
fn a_frame_arriving_after_a_cancelled_poll_is_not_lost() {
    let mut reader = FrameReader::new(MAX_FRAME_BYTES);
    reader.push(b"{\"id\":");
    assert!(reader.next_frame().expect("incomplete").is_none());
    reader.push(b"7}");
    assert!(reader.next_frame().expect("still incomplete").is_none());
    reader.push(b"\n");
    let frame = reader.next_frame().expect("frame").expect("one frame");
    assert_eq!(member(&frame, "id").as_integer(), Some(7));
}

#[test]
fn a_written_frame_is_compact_and_newline_terminated() {
    let out = write_frame(&json("{\"a\": 1, \"b\": [2]}"));
    assert_eq!(
        String::from_utf8(out).expect("utf8"),
        "{\"a\":1,\"b\":[2]}\n"
    );
}

#[test]
fn a_written_frame_is_read_back() {
    let value = json("{\"text\":\"line\\nbreak \\u2028 €\",\"n\":-7,\"u\":18446744073709551615,\"list\":[null,true,{}]}");
    let bytes = write_frame(&value);
    let mut reader = FrameReader::new(MAX_FRAME_BYTES);
    assert_eq!(reader.max_frame_bytes(), MAX_FRAME_BYTES);
    reader.push(&bytes);
    reader.push(b"{\"next\":");
    let read = reader.next_frame().expect("frame").expect("one frame");
    assert_eq!(read.render(), value.render());
    assert!(reader.next_frame().expect("incomplete").is_none());
    assert_eq!(reader.finish(), Err(FrameError::Truncated));
}

#[test]
fn a_line_is_trimmed_of_unicode_white_space() {
    let frames = read_all(&["\u{3000}{\"id\":4}\u{a0}\n".as_bytes()], MAX_FRAME_BYTES);
    assert_eq!(member(&frames.expect("frames")[0], "id").as_integer(), Some(4));
}

#[test]
fn framing_failures_render_their_kind() {
    assert_eq!(FrameError::TooLarge { limit: 64 }.to_string(), "frame exceeds 64 bytes");
    assert_eq!(FrameError::NotUtf8.to_string(), "frame is not valid UTF-8");
    assert_eq!(FrameError::Truncated.to_string(), "stream ended inside a frame");
    assert_eq!(
        FrameError::Malformed { detail: "d".into() }.to_string(),
        "frame is not valid JSON: d"
    );
    assert_eq!(FrameError::Io("gone".into()).to_string(), "transport i/o failed: gone");
}

#[test]
fn a_request_is_recognised_by_method_and_id() {
    let message = parse(&json(
        "{\"jsonrpc\": \"2.0\", \"id\": 7, \"method\": \"m\", \"params\": {\"a\": 1}}",
    ))
    .expect("parse");
    match message {
        JsonRpcMessage::Request(request) => {
            assert_eq!(request.id, RequestId::Number(7));
            assert_eq!(request.method, "m");
            assert_eq!(member(&request.params, "a").as_integer(), Some(1));
        }
        other => panic!("expected a request, got {other:?}"),
    }
}

#[test]
fn a_notification_has_no_id_and_defaults_params_to_null() {
    let message = parse(&json("{\"jsonrpc\": \"2.0\", \"method\": \"n\"}")).expect("parse");
    match message {
        JsonRpcMessage::Notification(notification) => {
            assert_eq!(notification.method, "n");
            assert_eq!(notification.params, Json::Null);
        }
        other => panic!("expected a notification, got {other:?}"),
    }
}

#[test]
fn responses_carry_either_a_result_or_an_error() {
    let success = parse(&json(
        "{\"jsonrpc\": \"2.0\", \"id\": \"abc\", \"result\": {\"ok\": true}}",
    ))
    .expect("parse");
    match success {
        JsonRpcMessage::Response { id, outcome } => {
            assert_eq!(id, RequestId::String("abc".into()));
            assert_eq!(*member(&outcome.expect("result"), "ok"), Json::Bool(true));
        }
        other => panic!("expected a response, got {other:?}"),
    }

    let failure = parse(&json(
        "{\"jsonrpc\": \"2.0\", \"id\": 1, \"error\": {\"code\": -32601, \"message\": \"no such method\"}}",
    ))
    .expect("parse");
    match failure {
        JsonRpcMessage::Response { outcome, .. } => {
            let error = outcome.expect_err("error");
            assert_eq!(error.code, METHOD_NOT_FOUND);
            assert_eq!(error.message, "no such method");
        }
        other => panic!("expected a response, got {other:?}"),
    }
}

#[test]
fn unusable_messages_are_rejected_explicitly() {
    assert!(matches!(parse(&json("[1, 2]")), Err(ProtocolError::NotAnObject)));
    assert!(matches!(
        parse(&json("{\"jsonrpc\": \"2.0\"}")),
        Err(ProtocolError::UnrecognisedShape)
    ));
    assert!(matches!(
        parse(&json("{\"jsonrpc\": \"2.0\", \"id\": null, \"result\": 1}")),
        Err(ProtocolError::UncorrelatableId)
    ));
    assert!(matches!(
        parse(&json("{\"jsonrpc\": \"2.0\", \"id\": 1}")),
        Err(ProtocolError::MissingOutcome)
    ));
    assert!(matches!(
        parse(&json("{\"jsonrpc\": \"2.0\", \"id\": 1, \"error\": {\"message\": \"x\"}}")),
        Err(ProtocolError::MalformedError { .. })
    ));
}

#[test]
fn malformed_error_objects_say_what_is_missing() {
    let detail = |error: &str| match parse(&json(&format!("{{\"id\":1,\"error\":{error}}}"))) {
        Err(fault) => fault.to_string(),
        Ok(message) => panic!("expected a failure, got {message:?}"),
    };
    assert_eq!(detail("1"), "error object is malformed: error is not an object");
    assert_eq!(detail("{}"), "error object is malformed: error has no numeric code");
    assert_eq!(
        detail("{\"code\":1.5}"),
        "error object is malformed: error has no numeric code"
    );
    assert_eq!(
        detail("{\"code\":1}"),
        "error object is malformed: error has no string message"
    );
    assert_eq!(ProtocolError::NotAnObject.to_string(), "message is not a JSON object");
    assert_eq!(
        ProtocolError::UncorrelatableId.to_string(),
        "response id cannot be correlated"
    );
}

#[test]
fn an_error_message_is_bounded() {
    let long = "x".repeat(4096);
    let message = parse(&json(&format!(
        "{{\"jsonrpc\": \"2.0\", \"id\": 1, \"error\": {{\"code\": -32603, \"message\": \"{long}\"}}}}"
    )))
    .expect("parse");
    match message {
        JsonRpcMessage::Response { outcome, .. } => {
            let error = outcome.expect_err("error");
            assert!(error.message.len() <= MAX_DETAIL_BYTES);
        }
        other => panic!("expected a response, got {other:?}"),
    }
}

#[test]
fn envelopes_round_trip_through_parse() {
    let built = request(3, "session/prompt", json("{\"sessionId\": \"s\"}"));
    assert!(matches!(parse(&built), Ok(JsonRpcMessage::Request(_))));
    assert_eq!(
        built.render(),
        "{\"id\":3,\"jsonrpc\":\"2.0\",\"method\":\"session/prompt\",\"params\":{\"sessionId\":\"s\"}}"
    );

    let built = notification("session/cancel", json("{\"sessionId\": \"s\"}"));
    assert!(matches!(parse(&built), Ok(JsonRpcMessage::Notification(_))));

    let built = success(RequestId::Number(1), json("{\"ok\": true}"));
    assert!(matches!(
        parse(&built),
        Ok(JsonRpcMessage::Response { outcome: Ok(_), .. })
    ));

    let error = JsonRpcErrorObject::new(METHOD_NOT_FOUND, "unsupported");
    let built = failure(RequestId::String("agent-1".into()), &error);
    assert!(matches!(
        parse(&built),
        Ok(JsonRpcMessage::Response {
            outcome: Err(_),
            ..
        })
    ));
}

#[test]
fn an_error_objects_data_travels_along() {
    let error = JsonRpcErrorObject {
        code: PARSE_ERROR,
        message: "m".into(),
        data: Some(json("[1.5]")),
    };
    let built = failure(RequestId::Number(2), &error);
    match parse(&built) {
        Ok(JsonRpcMessage::Response { id, outcome: Err(read) }) => {
            assert_eq!(id.as_number(), Some(2));
            assert_eq!(read, error);
            assert_eq!(read.to_string(), "code -32700: m");
        }
        other => panic!("expected a failure, got {other:?}"),
    }
    assert_eq!(RequestId::Number(-3).to_string(), "-3");
    assert_eq!(RequestId::String("x".into()).to_string(), "x");
    assert_eq!(RequestId::String("x".into()).as_number(), None);
    assert_eq!((INVALID_REQUEST, INVALID_PARAMS, INTERNAL_ERROR), (-32600, -32602, -32603));
}

#[test]
fn initialize_params_advertise_no_capabilities() {
    let value = InitializeParams::new().to_json();
    assert_eq!(
        member(&value, "protocolVersion").as_integer(),
        Some(PROTOCOL_VERSION as i64)
    );
    assert_eq!(text_of(member(&value, "clientInfo"), "name"), CLIENT_NAME);
    assert_eq!(text_of(member(&value, "clientInfo"), "version"), CLIENT_VERSION);
    assert_eq!(
        member(&value, "clientCapabilities").render(),
        "{}",
        "advertising a capability we do not serve would invite those requests"
    );
    assert_eq!(InitializeParams::default(), InitializeParams::new());
}

#[test]
fn api_key_auth_method_has_the_frozen_wire_shape() {
    let method = AuthMethod {
        kind: None,
        id: "api-key".into(),
        name: "API Key".into(),
        description: Some("Use an API key to authenticate".into()),
        meta: Some(json("{\"api-key\": {\"provider\": \"openai\"}}")),
    };
    assert!(!method.is_terminal());
    assert!(AuthMethod { kind: Some("terminal".into()), ..method }.is_terminal());
    let params = AuthenticateParams {
        method_id: "api-key".to_owned(),
    };
    assert_eq!(params.to_json().render(), "{\"methodId\":\"api-key\"}");
}

#[test]
fn a_stop_reason_is_never_rejected() {
    assert!(StopReason::from_wire("end_turn").is_end_turn());

    let unknown = StopReason::from_wire("some_future_reason");
    assert_eq!(unknown, StopReason::Other("some_future_reason".into()));
    assert_eq!(unknown.as_str(), "some_future_reason");
    for wire in ["end_turn", "max_tokens", "max_turn_requests", "refusal"] {
        assert_eq!(StopReason::from_wire(wire).as_str(), wire);
    }
    assert_eq!(StopReason::from_wire("refusal"), StopReason::Refusal);
}

#[test]
fn an_unknown_stop_reason_is_bounded() {
    match StopReason::from_wire(&"y".repeat(4096)) {
        StopReason::Other(other) => assert!(other.len() <= MAX_DETAIL_BYTES),
        other => panic!("expected an unknown reason, got {other:?}"),
    }
}

#[test]
fn content_blocks_carry_text_and_tolerate_other_kinds() {
    let block = ContentBlock::from_json(&json("{\"type\": \"text\", \"text\": \"hi\"}"));
    assert_eq!(
        block.expect("decode").as_text().map(|text| text.as_str()),
        Some("hi")
    );

    let other = ContentBlock::from_json(&json("{\"type\": \"image\", \"data\": \"...\"}"));
    assert_eq!(other.expect("decode").as_text(), None);

    let encoded = ContentBlock::Text {
        text: "hi".to_owned(),
    }
    .to_json();
    assert_eq!(encoded.render(), json("{\"type\": \"text\", \"text\": \"hi\"}").render());
    assert_eq!(ContentBlock::from_json(&json("{\"text\": \"hi\"}")), None);
    assert_eq!(ContentBlock::from_json(&json("{\"type\": \"text\"}")), None);
}

#[test]
fn session_updates_are_discriminated_and_unknown_ones_are_tolerated() {
    let notification = SessionNotification::from_json(&json(
        "{\"sessionId\": \"s1\", \"update\": {\"sessionUpdate\": \"agent_message_chunk\", \
         \"content\": {\"type\": \"text\", \"text\": \"a\"}}}",
    ))
    .expect("decode");
    assert_eq!(notification.session_id, "s1");
    match notification.update {
        SessionUpdate::AgentMessageChunk { content } => {
            assert_eq!(content.as_text().map(|text| text.as_str()), Some("a"))
        }
        other => panic!("expected a message chunk, got {other:?}"),
    }

    let unknown = SessionNotification::from_json(&json(
        "{\"sessionId\": \"s1\", \"update\": {\"sessionUpdate\": \"plan\", \"entries\": []}}",
    ))
    .expect("decode");
    assert_eq!(unknown.update, SessionUpdate::Other);
    assert_eq!(SessionNotification::from_json(&json("{\"sessionId\": \"s1\"}")), None);
}

#[test]
fn a_block_inside_an_update_may_be_numbered() {
    let chunk = |block: &str| {
        SessionUpdate::from_json(&json(&format!(
            "{{\"sessionUpdate\":\"agent_message_chunk\",\"content\":{block}}}"
        )))
        .map(|update| match update {
            SessionUpdate::AgentMessageChunk { content } => {
                content.as_text().map(|text| text.clone())
            }
            SessionUpdate::Other => panic!("expected a chunk"),
        })
    };
    assert_eq!(chunk("{\"type\":0,\"text\":\"a\"}"), Some(Some("a".to_owned())));
    assert_eq!(chunk("[\"text\",\"a\"]"), Some(Some("a".to_owned())));
    assert_eq!(chunk("{\"type\":18446744073709551615}"), Some(None));
    assert_eq!(chunk("{\"type\":-1}"), None);
    assert_eq!(chunk("{\"type\":0.5}"), None);
    assert_eq!(chunk("{\"type\":true}"), None);
    assert_eq!(ContentBlock::from_json(&json("{\"type\":0,\"text\":\"a\"}")), None);
    assert_eq!(SessionUpdate::from_json(&json("{\"sessionUpdate\":0}")), None);
}

#[test]
fn a_permission_request_is_denied_with_an_offered_reject_option() {
    let params = json(
        "{\"sessionId\": \"s1\", \"options\": [\
         {\"optionId\": \"a\", \"kind\": \"allow_once\", \"name\": \"Allow\"},\
         {\"optionId\": \"b\", \"kind\": \"reject_once\", \"name\": \"Reject\"}]}",
    );
    let response = agent_request_response(RequestId::Number(1), METHOD_REQUEST_PERMISSION, &params);
    assert_eq!(text_of(member(&response, "result"), "outcome"), "selected");
    assert_eq!(text_of(member(&response, "result"), "optionId"), "b");
}

#[test]
fn a_permission_request_without_a_reject_option_is_cancelled() {
    let params = json("{\"options\": [{\"optionId\": \"a\", \"kind\": \"allow_always\"}]}");
    let response = agent_request_response(RequestId::Number(2), METHOD_REQUEST_PERMISSION, &params);
    assert_eq!(text_of(member(&response, "result"), "outcome"), "cancelled");
}

#[test]
fn a_permission_request_is_read_whole() {
    let request = PermissionRequestParams::from_json(&json(
        "{\"sessionId\":\"s\",\"options\":[{\"optionId\":\"o\",\"kind\":\"reject_once\",\"name\":\"No\"}]}",
    ))
    .expect("a request");
    assert_eq!(request.session_id, Some("s".to_owned()));
    assert_eq!(
        request.options,
        vec![PermissionOption {
            option_id: "o".into(),
            kind: "reject_once".into(),
            name: Some("No".into())
        }]
    );
    let bare = PermissionRequestParams::from_json(&json("{\"sessionId\":null}"));
    assert_eq!(bare, Some(PermissionRequestParams { session_id: None, options: Vec::new() }));
    assert_eq!(PermissionRequestParams::from_json(&json("{\"sessionId\":1}")), None);
}

#[test]
fn a_malformed_permission_request_is_still_denied() {
    let response = agent_request_response(
        RequestId::Number(3),
        METHOD_REQUEST_PERMISSION,
        &json("\"nonsense\""),
    );
    assert_eq!(
        text_of(member(&response, "result"), "outcome"),
        "cancelled",
        "an unreadable request must not become an implicit allow"
    );
    let half = json(
        "{\"options\": [{\"optionId\": \"b\", \"kind\": \"reject_once\"}, {\"kind\": \"x\"}]}",
    );
    let response = agent_request_response(RequestId::Number(4), METHOD_REQUEST_PERMISSION, &half);
    assert_eq!(text_of(member(&response, "result"), "outcome"), "cancelled");
}

#[test]
fn a_rejecting_option_is_told_by_the_start_of_its_kind() {
    let kind = |kind: &str| PermissionOption {
        option_id: "o".into(),
        kind: kind.into(),
        name: None,
    };
    assert!(kind("reject_once").is_reject());
    assert!(kind("reject").is_reject());
    assert!(!kind("rejec").is_reject());
    assert!(!kind("allow_reject").is_reject());
}

#[test]
fn an_unsupported_agent_request_is_method_not_found() {
    for method in [
        "fs/read_text_file",
        "fs/write_text_file",
        "terminal/create",
        "something/new",
    ] {
        let response =
            agent_request_response(RequestId::Number(9), method, &Json::empty_object());
        let error = member(&response, "error");
        assert_eq!(member(error, "code").as_integer(), Some(METHOD_NOT_FOUND));
        assert!(text_of(error, "message").contains(method));
    }
}

#[test]
fn a_prompt_is_a_single_text_block() {
    let params = text_prompt("s1", "do the thing");
    assert_eq!(text_of(&params, "sessionId"), "s1");
    let block = item(member(&params, "prompt"), 0);
    assert_eq!(text_of(block, "type"), "text");
    assert_eq!(text_of(block, "text"), "do the thing");
}

#[test]
fn session_params_carry_the_working_directory_and_no_mcp_servers() {
    let value = NewSessionParams::new("/tmp/work").to_json();
    assert_eq!(text_of(&value, "cwd"), "/tmp/work");
    assert_eq!(member(&value, "mcpServers").render(), "[]");

    let value = ResumeSessionParams {
        session_id: "s1".to_owned(),
        cwd: "/tmp/work".to_owned(),
        mcp_servers: Vec::new(),
        additional_directories: Vec::new(),
    }
    .to_json();
    assert_eq!(text_of(&value, "sessionId"), "s1");

    let dirs = vec!["/a".to_owned(), "/b".to_owned()];
    let value = NewSessionParams::new_with_workspaces("/tmp/work", &dirs).to_json();
    assert_eq!(member(&value, "additionalDirectories").render(), "[\"/a\",\"/b\"]");
}

fn wire(kind: &str, output: Option<&str>, reason: Option<&str>) -> WireTurnResult {
    WireTurnResult {
        kind: kind.into(),
        reason: reason.map(|text| text.to_owned()),
        output: output.map(|text| text.to_owned()),
        next_prompt: None,
    }
}

#[test]
fn only_explicit_kinds_are_accepted() {
    assert_eq!(
        wire("completed", Some("ok"), None).into_result(String::new()),
        Ok(TurnResult::Completed {
            output: "ok".into()
        })
    );
    assert!(wire("wat", None, None).into_result(String::new()).is_err());
}

#[test]
fn a_structured_result_falls_back_on_what_was_streamed() {
    assert_eq!(
        wire("completed", None, None).into_result("streamed".into()),
        Ok(TurnResult::Completed { output: "streamed".into() })
    );
    assert_eq!(
        wire("blocked", None, Some("why")).into_result(String::new()),
        Ok(TurnResult::Blocked { reason: "why".into() })
    );
    assert_eq!(
        wire("failed", None, None).into_result(String::new()),
        Ok(TurnResult::Failed { reason: String::new() })
    );
    assert_eq!(
        WireTurnResult { next_prompt: Some("go on".into()), ..wire("continue", None, Some("r")) }
            .into_result(String::new()),
        Ok(TurnResult::Continue { reason: "r".into(), next_prompt: Some("go on".into()) })
    );
    assert_eq!(
        wire("wat", None, None).into_result(String::new()),
        Err("unknown structured turn result kind".to_owned())
    );
}

#[test]
fn every_variant_renders_a_stable_bounded_shape() {
    let cases = vec![
        AcpError::UnsupportedAddress {
            phase: Phase::Spawn,
        }
        .to_string(),
        AcpError::Timeout {
            phase: Phase::Initialize,
        }
        .to_string(),
        AcpError::Exited {
            phase: Phase::Prompt,
            detail: "status 1".to_owned(),
        }
        .to_string(),
        AcpError::TransportClosed.to_string(),
        AcpError::UnsupportedProtocol {
            got: 9,
            supported: 1,
        }
        .to_string(),
        AcpError::Authentication { advertised: 2 }.to_string(),
        AcpError::Frame {
            source: FrameError::Truncated,
        }
        .to_string(),
        AcpError::Schema {
            method: "session/new".to_owned(),
            detail: bounded(&"x".repeat(4096)),
        }
        .to_string(),
        AcpError::Agent {
            source: JsonRpcErrorObject::new(-32601, "nope"),
        }
        .to_string(),
        AcpError::SessionId {
            detail: "empty".to_owned(),
        }
        .to_string(),
    ];
    for rendered in cases {
        assert!(!rendered.is_empty());
        assert!(rendered.len() <= 512, "unbounded reason: {rendered}");
    }
}

#[test]
fn adapter_failures_render_their_words() {
    assert_eq!(
        AcpError::Spawn { phase: Phase::Spawn, source: "no such file".into() }.to_string(),
        "process start failed: no such file"
    );
    assert_eq!(AcpError::StreamBackpressure.to_string(), "turn update stream is full");
    assert_eq!(
        AcpError::RecoveryNeeded.to_string(),
        "backend recovered; accepted delivery still needs an outcome"
    );
    assert_eq!(
        AcpError::Exited { phase: Phase::Prompt, detail: "status 1".into() }.to_string(),
        "prompt failed: the child process exited (status 1)"
    );
    assert_eq!(
        AcpError::UnsupportedProtocol { got: 9, supported: 1 }.to_string(),
        "the agent speaks protocol version 9, this adapter speaks 1"
    );
    assert_eq!(
        AcpError::Authentication { advertised: 2 }.to_string(),
        "the agent requires authentication (2 method(s) offered)"
    );
    assert_eq!(
        AcpError::Protocol { source: ProtocolError::UnrecognisedShape }.to_string(),
        "JSON-RPC failed: message matches no JSON-RPC shape"
    );
    assert_eq!(
        AcpError::Storage { source: StorageError::malformed("f", "d") }.to_string(),
        "session storage failed: f is malformed: d"
    );
    assert!(AcpError::TransportClosed.is_lost_backend());
    assert!(!AcpError::StreamBackpressure.is_lost_backend());
}

#[test]
fn a_phase_renders_its_step() {
    assert_eq!(Phase::Spawn.to_string(), "process start");
    assert_eq!(Phase::Prompt.to_string(), "prompt");
    assert_eq!(Phase::Initialize.as_str(), "initialize");
    assert_eq!(Phase::Authenticate.as_str(), "authenticate");
    assert_eq!(Phase::Session.as_str(), "session setup");
    assert_eq!(Phase::Shutdown.as_str(), "shutdown");
}

#[test]
fn the_adapter_error_is_send_and_sync() {
    fn assert_send_sync<T: Send + Sync>() {}
    assert_send_sync::<AcpError>();
}

#[test]
fn json_objects_keep_the_later_of_two_members() {
    let value = Json::empty_object()
        .with("k", Json::integer(1))
        .with("k", Json::integer(2));
    assert_eq!(member(&value, "k").as_integer(), Some(2));
    assert_eq!(value.render(), "{\"k\":2}");
    assert_eq!(value.duplicate(), value);
    assert_eq!(json("{\"k\":1,\"k\":2}").render(), "{\"k\":2}");
}

#[test]
fn json_numbers_are_integers_only_where_they_are() {
    assert_eq!(json("9223372036854775807").as_integer(), Some(i64::MAX));
    assert_eq!(json("9223372036854775808").as_integer(), None);
    assert_eq!(json("1.0").as_integer(), None);
    assert_eq!(json("1.5").render(), "1.5");
    assert_eq!(Json::integer(-4).render(), "-4");
    assert!(Json::parse("{").is_err());
    assert_eq!(
        Json::parse("{").unwrap_err(),
        "EOF while parsing an object at line 1 column 1"
    );
    assert_eq!(Json::parse(&"[".repeat(128)).is_err(), true);
    let deep = format!("{}{}", "[".repeat(127), "]".repeat(127));
    assert_eq!(json(&deep).render(), deep);
}
