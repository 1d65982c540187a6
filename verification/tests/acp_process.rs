use guigu_agent_bridge::acp::client::backend_id;
use guigu_agent_bridge::acp::client::cancel_params;
use guigu_agent_bridge::acp::client::finish_turn;
use guigu_agent_bridge::acp::client::negotiate;
use guigu_agent_bridge::acp::client::new_session_params;
use guigu_agent_bridge::acp::client::prompt_params;
use guigu_agent_bridge::acp::client::resume_session_params;
use guigu_agent_bridge::acp::client::resumed;
use guigu_agent_bridge::acp::client::schema_failure;
use guigu_agent_bridge::acp::client::strict_result;
use guigu_agent_bridge::acp::client::validate_session_id;
use guigu_agent_bridge::acp::client::AcpLimits;
use guigu_agent_bridge::acp::client::Negotiation;
use guigu_agent_bridge::acp::client::PromptTurn;
use guigu_agent_bridge::acp::connection::ConnectAction;
use guigu_agent_bridge::acp::connection::ConnectInput;
use guigu_agent_bridge::acp::connection::Connecting;
use guigu_agent_bridge::acp::dispatcher::execute_result;
use guigu_agent_bridge::acp::dispatcher::execute_turn_result;
use guigu_agent_bridge::acp::dispatcher::map_turn;
use guigu_agent_bridge::acp::dispatcher::reason_of;
use guigu_agent_bridge::acp::dispatcher::AcpDispatcher;
use guigu_agent_bridge::acp::dispatcher::AcpDispatcherBuilder;
use guigu_agent_bridge::acp::dispatcher::DeliverAction;
use guigu_agent_bridge::acp::dispatcher::DeliverInput;
use guigu_agent_bridge::acp::dispatcher::Delivering;
use guigu_agent_bridge::acp::error::AcpError;
use guigu_agent_bridge::acp::error::Phase;
use guigu_agent_bridge::acp::framing::FrameError;
use guigu_agent_bridge::acp::jsonrpc::request;
use guigu_agent_bridge::acp::result::TurnResult;
use guigu_agent_bridge::acp::result::WireTurnResult;
use guigu_agent_bridge::acp::schema::AuthMethod;
use guigu_agent_bridge::acp::schema::Implementation;
use guigu_agent_bridge::acp::schema::InitializeResult;
use guigu_agent_bridge::acp::schema::PromptResult;
use guigu_agent_bridge::acp::schema::StopReason;
use guigu_agent_bridge::acp::schema::PROTOCOL_VERSION;
use guigu_agent_bridge::acp::session::compatibility_hash;
use guigu_agent_bridge::acp::session::set_state_result;
use guigu_agent_bridge::acp::session::upsert_result;
use guigu_agent_bridge::acp::session::SessionRow;
use guigu_agent_bridge::acp::session::SessionState;
use guigu_agent_bridge::acp::session::StoredSession;
use guigu_agent_bridge::acp::session::MAX_SESSION_ID_BYTES;
use guigu_agent_bridge::acp::transport::await_reply;
use guigu_agent_bridge::acp::transport::describe_exit;
use guigu_agent_bridge::acp::transport::frame_failure;
use guigu_agent_bridge::acp::transport::launch;
use guigu_agent_bridge::acp::transport::missing_pipe;
use guigu_agent_bridge::acp::transport::notification_frame;
use guigu_agent_bridge::acp::transport::prompt_session;
use guigu_agent_bridge::acp::transport::request_frame;
use guigu_agent_bridge::acp::transport::CompletedRequest;
use guigu_agent_bridge::acp::transport::Exchange;
use guigu_agent_bridge::acp::transport::Reply;
use guigu_agent_bridge::acp::transport::Routed;
use guigu_agent_bridge::acp::transport::TransportLimits;
use guigu_agent_bridge::acp::transport::TurnUpdate;
use guigu_agent_bridge::acp::transport::Waited;
use guigu_agent_bridge::acp::turn::TurnAction;
use guigu_agent_bridge::acp::turn::TurnInput;
use guigu_agent_bridge::acp::turn::TurnRun;
use guigu_agent_bridge::acp::MAX_DETAIL_BYTES;
use guigu_agent_bridge::bus::channel::SendOutcome;
use guigu_agent_bridge::bus::worker::DispatchOutcome;
use guigu_agent_bridge::ids::ConversationId;
use guigu_agent_bridge::ids::EndpointId;
use guigu_agent_bridge::json::Json;
use guigu_agent_bridge::models::EndpointAddress;
use guigu_agent_bridge::storage::StorageError;
use guigu_agent_bridge::time::Duration;
use guigu_agent_bridge::time::Timestamp;
use tokio::sync::mpsc;

/// 2026-09-16T10:00:00Z.
fn morning() -> Timestamp {
    Timestamp::new(1_789_552_800, 0).expect("an instant")
}

fn json(text: &str) -> Json {
    Json::parse(text).expect("valid JSON")
}

fn limits(max_output_bytes: usize) -> TransportLimits {
    TransportLimits { max_output_bytes, ..TransportLimits::default() }
}

fn chunk(session: &str, text: &str) -> Vec<u8> {
    format!(
        "{{\"jsonrpc\":\"2.0\",\"method\":\"session/update\",\"params\":{{\"sessionId\":\"{session}\",\
         \"update\":{{\"sessionUpdate\":\"agent_message_chunk\",\
         \"content\":{{\"type\":\"text\",\"text\":\"{text}\"}}}}}}}}\n"
    )
    .into_bytes()
}

fn initialized(version: u16, methods: &[(&str, Option<&str>)]) -> InitializeResult {
    InitializeResult {
        protocol_version: version,
        agent_info: Some(Implementation {
            name: "codex-acp".into(),
            version: "1.2.3".into(),
            title: None,
        }),
        auth_methods: methods
            .iter()
            .map(|(id, kind)| AuthMethod {
                kind: kind.map(|text| text.to_owned()),
                id: (*id).to_owned(),
                name: "n".into(),
                description: None,
                meta: None,
            })
            .collect(),
    }
}

#[test]
fn a_backend_id_carries_the_agents_own_name_and_version() {
    let info = Implementation {
        name: "codex-acp".to_owned(),
        version: "1.2.3".to_owned(),
        title: None,
    };
    assert_eq!(
        backend_id("worker", Some(&info)),
        "worker/codex-acp@1.2.3",
        "a versioned compatibility identity is wanted"
    );
}

#[test]
fn an_agent_without_identity_still_yields_a_stable_backend_id() {
    assert_eq!(backend_id("worker", None), "worker/unknown@unknown");
}

#[test]
fn a_long_backend_id_is_bounded() {
    let info = Implementation {
        name: "n".repeat(4096),
        version: "v".repeat(4096),
        title: None,
    };
    assert!(backend_id("worker", Some(&info)).len() <= MAX_DETAIL_BYTES);
}

#[test]
fn session_ids_are_validated() {
    assert_eq!(
        validate_session_id("s1".to_owned()).expect("valid"),
        "s1".to_owned()
    );
    assert!(matches!(
        validate_session_id(String::new()),
        Err(AcpError::SessionId { .. })
    ));
    assert!(matches!(
        validate_session_id("x".repeat(MAX_SESSION_ID_BYTES + 1)),
        Err(AcpError::SessionId { .. })
    ));
    assert_eq!(
        validate_session_id("x".repeat(257)).unwrap_err().to_string(),
        "the agent returned an unusable session id: the session id exceeds 256 bytes"
    );
}

#[test]
fn a_backend_is_refused_for_another_version_or_for_authentication() {
    assert_eq!(
        negotiate("worker", &initialized(2, &[])),
        Negotiation::Refused { error: AcpError::UnsupportedProtocol { got: 2, supported: 1 } }
    );
    assert_eq!(
        negotiate("worker", &initialized(1, &[])),
        Negotiation::Connected { backend_id: "worker/codex-acp@1.2.3".into() }
    );
    assert_eq!(
        negotiate("worker", &initialized(1, &[("oauth", None)])),
        Negotiation::Refused { error: AcpError::Authentication { advertised: 1 } }
    );
    assert_eq!(
        negotiate("worker", &initialized(1, &[("api-key", Some("terminal"))])),
        Negotiation::Refused { error: AcpError::Authentication { advertised: 1 } }
    );
    assert_eq!(
        negotiate("worker", &initialized(1, &[("api-key", None), ("api-key", None)])),
        Negotiation::Refused { error: AcpError::Authentication { advertised: 2 } }
    );
    match negotiate("worker", &initialized(1, &[("oauth", None), ("api-key", None)])) {
        Negotiation::Authenticate { params, backend_id } => {
            assert_eq!(params.render(), "{\"methodId\":\"api-key\"}");
            assert_eq!(backend_id, "worker/codex-acp@1.2.3");
        }
        other => panic!("expected authentication, got {other:?}"),
    }
}

fn connect(run: &mut Connecting, input: ConnectInput) -> ConnectAction {
    assert!(run.expects(&input));
    run.step(input)
}

#[test]
fn a_backend_is_used_after_its_handshake() {
    let connected = || ConnectAction::Connected { backend_id: "worker/codex-acp@1.2.3".into() };
    let (mut run, first) = Connecting::begin("worker");
    match first {
        ConnectAction::Initialize(params) => assert_eq!(
            params.render(),
            "{\"clientCapabilities\":{},\"clientInfo\":{\"name\":\"guigu-agent-bridge\",\
             \"version\":\"0.2.0\"},\"protocolVersion\":1}"
        ),
        other => panic!("expected initialize, got {other:?}"),
    }
    assert_eq!(connect(&mut run, ConnectInput::Initialized(Ok(initialized(1, &[])))), connected());

    let (mut run, _) = Connecting::begin("worker");
    let asks = Ok(initialized(1, &[("api-key", None)]));
    match connect(&mut run, ConnectInput::Initialized(asks)) {
        ConnectAction::Authenticate(params) => {
            assert_eq!(params.render(), "{\"methodId\":\"api-key\"}")
        }
        other => panic!("expected authenticate, got {other:?}"),
    }
    assert!(!run.expects(&ConnectInput::Stopped));
    assert_eq!(connect(&mut run, ConnectInput::Authenticated(Ok(()))), connected());
}

#[test]
fn a_refused_backend_is_shut_down_first() {
    let (mut run, _) = Connecting::begin("worker");
    let answer = ConnectInput::Initialized(Ok(initialized(9, &[])));
    assert_eq!(connect(&mut run, answer), ConnectAction::ShutDown);
    assert_eq!(
        connect(&mut run, ConnectInput::Stopped),
        ConnectAction::Failed(AcpError::UnsupportedProtocol { got: 9, supported: 1 })
    );
    let (mut run, _) = Connecting::begin("worker");
    let lost = ConnectInput::Initialized(Err(AcpError::Timeout { phase: Phase::Initialize }));
    assert_eq!(
        connect(&mut run, lost),
        ConnectAction::Failed(AcpError::Timeout { phase: Phase::Initialize })
    );
}

#[test]
fn requests_of_a_client_carry_what_they_are_for() {
    let dirs = vec!["/more".to_owned()];
    assert_eq!(
        new_session_params("/w", &dirs).render(),
        "{\"additionalDirectories\":[\"/more\"],\"cwd\":\"/w\",\"mcpServers\":[]}"
    );
    assert_eq!(
        resume_session_params("s", "/w", &dirs).expect("valid").render(),
        "{\"additionalDirectories\":[\"/more\"],\"cwd\":\"/w\",\"mcpServers\":[],\"sessionId\":\"s\"}"
    );
    assert!(resume_session_params("", "/w", &dirs).is_err());
    assert_eq!(
        prompt_params("s", "go").expect("valid").render(),
        "{\"prompt\":[{\"text\":\"go\",\"type\":\"text\"}],\"sessionId\":\"s\"}"
    );
    assert_eq!(cancel_params("s").expect("valid").render(), "{\"sessionId\":\"s\"}");
    assert!(cancel_params("").is_err());
    assert_eq!(resumed("s", "s".into()), Ok("s".to_owned()));
    assert_eq!(
        resumed("s", "t".into()),
        Err(AcpError::SessionId {
            detail: "resume answered with a different session id".into()
        })
    );
    assert_eq!(
        schema_failure("session/new", &"d".repeat(300)),
        AcpError::Schema { method: "session/new".into(), detail: "d".repeat(256) }
    );
    let limits = AcpLimits::default();
    assert_eq!(limits.initialize_deadline, Duration::from_secs(10));
    assert_eq!(limits.request_deadline, Duration::from_secs(30));
    assert_eq!(limits.transport.shutdown_deadline, Duration::from_secs(5));
    assert_eq!(limits.transport.max_output_bytes, 65_536);
    assert_eq!(limits.transport.max_frame_bytes, 1_048_576);
}

#[test]
fn a_session_id_is_bounded() {
    let at = morning();
    let endpoint = EndpointId::generate();
    let conversation = ConversationId::generate();
    let new = |id: String| {
        StoredSession::new(id, endpoint, conversation, "/tmp".into(), "b/1".into(), at)
    };

    assert!(new("s1".into()).is_ok());
    assert!(new(String::new()).is_err());
    assert!(new("x".repeat(MAX_SESSION_ID_BYTES + 1)).is_err());
    assert!(new("x".repeat(MAX_SESSION_ID_BYTES)).is_ok());
}

#[test]
fn a_new_session_starts_ready() {
    let at = morning();
    let session = StoredSession::new(
        "s1".into(),
        EndpointId::generate(),
        ConversationId::generate(),
        "/tmp".into(),
        "b/1".into(),
        at,
    )
    .expect("session");
    assert_eq!(session.state(), SessionState::Ready);
    assert_eq!(session.protocol_version(), PROTOCOL_VERSION);
    assert_eq!(session.created_at(), at);
    assert_eq!(session.updated_at(), at);
    assert_eq!(session.additional_directories(), "[]");
    assert_eq!(session.compatibility_version(), 1);
    assert_eq!(session.session_id(), "s1");
    assert_eq!(session.cwd(), "/tmp");
    assert_eq!(session.backend_id(), "b/1");
}

#[test]
fn every_session_state_renders_its_stored_value() {
    for (state, text) in [
        (SessionState::Ready, "ready"),
        (SessionState::Prompting, "prompting"),
        (SessionState::Closed, "closed"),
    ] {
        assert_eq!(state.as_str(), text);
        assert_eq!(
            SessionState::from_text(text, "sessions.state").expect("state"),
            state
        );
    }
    assert!(SessionState::from_text("paused", "sessions.state").is_err());
}

#[test]
fn a_compatibility_hash_frames_what_it_covers() {
    let hash = compatibility_hash("b/1", 1, "/tmp", &Vec::new());
    assert_eq!(hash.len(), 64);
    let mut bytes: Vec<u8> = Vec::new();
    for value in [&b"b/1"[..], &[0, 1], b"/tmp"] {
        bytes.extend_from_slice(&(value.len() as u64).to_be_bytes());
        bytes.extend_from_slice(value);
    }
    let digest = <sha2::Sha256 as sha2::Digest>::digest(&bytes);
    let expected: String = digest.iter().map(|byte| format!("{byte:02x}")).collect();
    assert_eq!(hash, expected);

    let split = vec!["a".to_owned(), "b".to_owned()];
    let whole = vec!["ab".to_owned()];
    assert_ne!(
        compatibility_hash("b", 1, "/", &split),
        compatibility_hash("b", 1, "/", &whole),
        "parts are told apart"
    );
}

fn row() -> SessionRow {
    SessionRow {
        session_id: "s".into(),
        endpoint_id: EndpointId::from_u128(1),
        conversation_id: ConversationId::from_u128(2),
        cwd: "/w".into(),
        additional_directories: "[]".into(),
        compatibility_version: 0,
        compatibility_hash: "h".into(),
        backend_id: "b".into(),
        protocol_version: 1,
        state: "prompting".into(),
        created_at: morning(),
        updated_at: morning(),
    }
}

#[test]
fn a_stored_row_is_read_or_refused() {
    let session = StoredSession::from_row(row()).expect("a session");
    assert_eq!(session.state(), SessionState::Prompting);
    assert_eq!(session.endpoint_id(), EndpointId::from_u128(1));
    assert_eq!(session.conversation_id(), ConversationId::from_u128(2));
    assert_eq!(session.compatibility_hash(), "h");

    assert_eq!(
        StoredSession::from_row(SessionRow { protocol_version: 65_536, ..row() }),
        Err(StorageError::malformed("sessions.protocol_version", "value does not fit in u16"))
    );
    assert_eq!(
        StoredSession::from_row(SessionRow { compatibility_version: -1, ..row() }),
        Err(StorageError::malformed(
            "sessions.compatibility_version",
            "value does not fit in u16"
        ))
    );
    assert_eq!(
        StoredSession::from_row(SessionRow { state: "paused".into(), ..row() }),
        Err(StorageError::malformed("sessions.state", "unknown session state"))
    );
    assert_eq!(upsert_result(1), Ok(()));
    assert_eq!(
        upsert_result(0).unwrap_err().to_string(),
        "integrity violation: sessions.session_id is bound to another conversation or cwd"
    );
    assert_eq!(set_state_result(1, "s"), Ok(()));
    assert_eq!(set_state_result(0, "s").unwrap_err().to_string(), "session not found: s");
}

fn streamed(routed: Routed) -> (Vec<Option<SendOutcome>>, Vec<Reply>) {
    match routed {
        Routed::Streamed { outcomes, refusals } => {
            (outcomes, refusals.into_iter().map(|refusal| refusal.reply).collect())
        }
        other => panic!("expected a chunk, got {other:?}"),
    }
}

#[test]
fn sweep_removes_callers_that_dropped_their_reply_receiver() {
    let mut exchange = Exchange::new(TransportLimits::default());
    exchange.sent(7, Phase::Prompt, Some("session-1".to_owned()), None);
    exchange.sent(8, Phase::Session, None, None);

    exchange.sweep_abandoned(&vec![7]);

    assert_eq!(exchange.len(), 1);
    assert!(!exchange.abandon(7));
    assert!(exchange.abandon(8));
    assert!(exchange.is_empty());
}

#[test]
fn an_answer_reaches_its_request_and_a_late_one_nobody() {
    let mut exchange = Exchange::new(limits(64));
    exchange.sent(1, Phase::Initialize, None, None);
    exchange.arrived(b"{\"id\":1,\"result\":{\"ok\":true}}\n{\"id\":1,\"result\":2}\n");
    match exchange.next() {
        Routed::Reply(Reply { id: 1, outcome: Ok(completed) }) => {
            assert_eq!(completed.result.render(), "{\"ok\":true}");
            assert_eq!(completed.streamed_text, "");
        }
        other => panic!("expected a reply, got {other:?}"),
    }
    assert!(matches!(exchange.next(), Routed::Ignored));
    assert!(matches!(exchange.next(), Routed::Idle));
}

#[test]
fn an_error_answer_is_the_agents() {
    let mut exchange = Exchange::new(limits(64));
    exchange.sent(4, Phase::Session, None, None);
    exchange.arrived(b"{\"id\":4,\"error\":{\"code\":-1,\"message\":\"no\"}}\n");
    match exchange.next() {
        Routed::Reply(Reply { id: 4, outcome: Err(AcpError::Agent { source }) }) => {
            assert_eq!(source.to_string(), "code -1: no");
        }
        other => panic!("expected a reply, got {other:?}"),
    }
}

#[test]
fn chunks_accumulate_until_the_marker_replaces_the_rest() {
    let mut exchange = Exchange::new(limits(6));
    exchange.sent(1, Phase::Prompt, Some("s".into()), None);
    for text in ["abc", "defg", "hij", "xyz"] {
        exchange.arrived(&chunk("s", text));
        assert_eq!(streamed(exchange.next()), (vec![None], Vec::new()));
    }
    exchange.arrived(&chunk("other", "nothing"));
    assert_eq!(streamed(exchange.next()), (vec![None], Vec::new()));
    exchange.arrived(b"{\"id\":1,\"result\":null}\n");
    match exchange.next() {
        Routed::Reply(Reply { outcome: Ok(completed), .. }) => {
            assert_eq!(completed.streamed_text, "abc…[truncated]");
        }
        other => panic!("expected a reply, got {other:?}"),
    }
}

#[test]
fn a_full_stream_ends_its_request() {
    let (updates, mut reader) = mpsc::channel(1);
    let mut exchange = Exchange::new(limits(64));
    exchange.sent(1, Phase::Prompt, Some("s".into()), Some(updates));
    exchange.sent(2, Phase::Prompt, Some("s".into()), None);
    exchange.arrived(&chunk("s", "a"));
    assert_eq!(
        streamed(exchange.next()),
        (vec![Some(SendOutcome::Sent), None], Vec::new())
    );
    exchange.arrived(&chunk("s", "b"));
    assert_eq!(
        streamed(exchange.next()),
        (
            vec![Some(SendOutcome::Full), None],
            vec![Reply { id: 1, outcome: Err(AcpError::StreamBackpressure) }]
        )
    );
    assert_eq!(reader.try_recv(), Ok(TurnUpdate::AgentMessageChunk("a".into())));
    assert!(reader.is_closed(), "the stream closes with its request");
    assert_eq!(exchange.len(), 1);
    exchange.arrived(b"{\"id\":2,\"result\":null}\n");
    match exchange.next() {
        Routed::Reply(Reply { id: 2, outcome: Ok(completed) }) => {
            assert_eq!(completed.streamed_text, "ab");
        }
        other => panic!("expected a reply, got {other:?}"),
    }
}

#[test]
fn a_reader_that_is_gone_ends_its_request() {
    let (updates, reader) = mpsc::channel(1);
    drop(reader);
    let mut exchange = Exchange::new(limits(64));
    exchange.sent(1, Phase::Prompt, Some("s".into()), Some(updates));
    exchange.arrived(&chunk("s", "a"));
    assert_eq!(
        streamed(exchange.next()),
        (
            vec![Some(SendOutcome::Closed)],
            vec![Reply { id: 1, outcome: Err(AcpError::StreamBackpressure) }]
        )
    );
    assert!(exchange.is_empty());
}

#[test]
fn requests_go_on_as_their_readers_took_a_chunk() {
    let mut exchange = Exchange::new(limits(64));
    for id in 1..=4 {
        exchange.sent(id, Phase::Prompt, Some("s".into()), None);
    }
    exchange.sent(5, Phase::Prompt, Some("other".into()), None);
    let outcomes = vec![
        Some(SendOutcome::Sent),
        Some(SendOutcome::Full),
        None,
        Some(SendOutcome::Closed),
        None,
    ];
    let refusals = exchange.settle("s", "a", &outcomes);
    let replies: Vec<Reply> = refusals.into_iter().map(|refusal| refusal.reply).collect();
    assert_eq!(
        replies,
        vec![
            Reply { id: 2, outcome: Err(AcpError::StreamBackpressure) },
            Reply { id: 4, outcome: Err(AcpError::StreamBackpressure) },
        ]
    );
    for (id, text) in [(1, "a"), (3, "a"), (5, "")] {
        exchange.arrived(format!("{{\"id\":{id},\"result\":null}}\n").as_bytes());
        match exchange.next() {
            Routed::Reply(Reply { outcome: Ok(completed), .. }) => {
                assert_eq!(completed.streamed_text, text);
            }
            other => panic!("expected a reply, got {other:?}"),
        }
    }
    assert!(exchange.is_empty());
}

#[test]
fn a_request_of_the_agent_is_answered() {
    let mut exchange = Exchange::new(limits(64));
    exchange.arrived(b"{\"id\":\"q\",\"method\":\"fs/read_text_file\",\"params\":{}}\n");
    match exchange.next() {
        Routed::Write(bytes) => assert_eq!(
            String::from_utf8(bytes).expect("utf8"),
            "{\"error\":{\"code\":-32601,\"message\":\"unsupported agent request: \
             fs/read_text_file\"},\"id\":\"q\",\"jsonrpc\":\"2.0\"}\n"
        ),
        other => panic!("expected an answer, got {other:?}"),
    }
    exchange.arrived(b"{\"method\":\"something/else\"}\n{\"id\":\"q\",\"result\":1}\n");
    assert!(matches!(exchange.next(), Routed::Ignored));
    assert!(matches!(exchange.next(), Routed::Ignored));
}

#[test]
fn an_unusable_stream_ends_every_request() {
    let mut exchange = Exchange::new(limits(64));
    exchange.sent(1, Phase::Prompt, None, None);
    exchange.sent(2, Phase::Session, None, None);
    exchange.arrived(b"nonsense\n");
    match exchange.next() {
        Routed::Stopped(replies) => {
            assert_eq!(replies.len(), 2);
            assert!(matches!(
                replies[0].outcome,
                Err(AcpError::Frame { source: FrameError::Malformed { .. } })
            ));
        }
        other => panic!("expected a stop, got {other:?}"),
    }
    assert!(exchange.is_empty());

    exchange.sent(3, Phase::Prompt, None, None);
    exchange.arrived(b"[]\n");
    match exchange.next() {
        Routed::Stopped(replies) => assert_eq!(
            replies,
            vec![Reply { id: 3, outcome: Err(AcpError::TransportClosed) }]
        ),
        other => panic!("expected a stop, got {other:?}"),
    }
}

#[test]
fn an_exit_ends_every_request_in_its_own_phase() {
    let exited = |detail: &str| {
        vec![Reply {
            id: 1,
            outcome: Err(AcpError::Exited { phase: Phase::Prompt, detail: detail.into() }),
        }]
    };
    let pending = || {
        let mut exchange = Exchange::new(limits(64));
        exchange.sent(1, Phase::Prompt, None, None);
        exchange
    };
    assert_eq!(pending().output_ended(Some(3)), exited("status 3"));
    assert_eq!(pending().output_ended(None), exited("the backend closed its output stream"));
    assert_eq!(pending().child_exited(Some(None)), exited("signal or unknown"));
    assert_eq!(pending().child_exited(None), exited("unknown"));
    assert_eq!(pending().shut_down(), exited("the transport was shut down"));
    assert_eq!(
        pending().pipe_failed(),
        vec![Reply { id: 1, outcome: Err(AcpError::TransportClosed) }]
    );
    let mut cut = pending();
    cut.arrived(b"{\"id\":");
    assert!(matches!(cut.next(), Routed::Idle));
    assert_eq!(
        cut.child_exited(Some(Some(0))),
        vec![Reply {
            id: 1,
            outcome: Err(AcpError::Frame { source: FrameError::Truncated })
        }]
    );
    assert_eq!(
        pending().write_failed(9, "broken pipe".into()),
        vec![
            Reply {
                id: 9,
                outcome: Err(AcpError::Frame { source: FrameError::Io("broken pipe".into()) })
            },
            Reply { id: 1, outcome: Err(AcpError::TransportClosed) },
        ]
    );
}

#[test]
fn transport_helpers_say_what_they_know() {
    assert_eq!(describe_exit(Some(-1)), "status -1");
    assert_eq!(describe_exit(None), "signal or unknown");
    assert_eq!(frame_failure(&FrameError::Io("x".into())), AcpError::TransportClosed);
    assert_eq!(
        frame_failure(&FrameError::NotUtf8),
        AcpError::Frame { source: FrameError::NotUtf8 }
    );
    assert_eq!(
        missing_pipe("stdin").to_string(),
        "process start failed: the child's stdin pipe is unavailable"
    );
    let params = json("{\"sessionId\":\"s\"}");
    assert_eq!(prompt_session("session/prompt", &params), Some("s".to_owned()));
    assert_eq!(prompt_session("session/new", &params), None);
    assert_eq!(prompt_session("session/prompt", &json("{\"sessionId\":\"\"}")), None);
    assert_eq!(prompt_session("session/prompt", &json("[]")), None);
    let acp = EndpointAddress::Acp { command: "c".into(), args: vec!["a".into()] };
    assert_eq!(launch(&acp), Ok(("c".to_owned(), vec!["a".to_owned()])));
    let peer = EndpointAddress::A2a { peer: "p".into() };
    assert_eq!(launch(&peer), Err(AcpError::UnsupportedAddress { phase: Phase::Spawn }));
    assert_eq!(
        request_frame(5, "m", Json::Null),
        format!("{}\n", request(5, "m", Json::Null).render()).into_bytes()
    );
    assert_eq!(
        notification_frame("n", Json::Null),
        b"{\"jsonrpc\":\"2.0\",\"method\":\"n\",\"params\":null}\n".to_vec()
    );
}

#[test]
fn a_bounded_wait_ends_with_a_reply_or_without() {
    let (reply, abandon) = await_reply(
        Waited::Answered(Ok(CompletedRequest { result: Json::Null, streamed_text: "t".into() })),
        Phase::Prompt,
    );
    assert_eq!(reply.expect("answered").streamed_text, "t");
    assert!(!abandon);
    assert_eq!(
        await_reply(Waited::Dropped, Phase::Prompt),
        (Err(AcpError::TransportClosed), false)
    );
    assert_eq!(
        await_reply(Waited::Elapsed, Phase::Session),
        (Err(AcpError::Timeout { phase: Phase::Session }), true)
    );
}

fn turn(stop_reason: StopReason, text: &str, task_result: Option<TurnResult>) -> PromptTurn {
    PromptTurn { stop_reason, text: text.to_owned(), task_result }
}

#[test]
fn an_end_turn_becomes_a_completed_outcome_with_the_turn_text() {
    let outcome = map_turn(turn(StopReason::EndTurn, "the answer", None), true);
    assert_eq!(
        outcome,
        DispatchOutcome::Completed {
            output: "the answer".to_owned()
        }
    );
}

#[test]
fn every_other_stop_reason_is_a_terminal_failure() {
    for reason in [
        StopReason::Refusal,
        StopReason::MaxTokens,
        StopReason::MaxTurnRequests,
        StopReason::Other("something_new".to_owned()),
    ] {
        let outcome = map_turn(
            turn(
                reason.clone(),
                "partial",
                Some(TurnResult::Failed {
                    reason: format!("agent stopped: {}", reason.as_str()),
                }),
            ),
            false,
        );
        match outcome {
            DispatchOutcome::Failed { error } => {
                assert!(error.contains(reason.as_str()), "got: {error}");
                assert!(error.len() <= MAX_DETAIL_BYTES);
            }
            other => panic!("expected a failure for {reason:?}, got {other:?}"),
        }
    }
}

#[test]
fn a_turn_that_did_not_end_the_task_fails_it() {
    let failed = |error: &str| DispatchOutcome::Failed { error: error.to_owned() };
    let blocked = Some(TurnResult::Blocked { reason: "key".into() });
    assert_eq!(map_turn(turn(StopReason::EndTurn, "", blocked), false), failed("blocked: key"));
    let more = Some(TurnResult::Continue { reason: "more".into(), next_prompt: None });
    assert_eq!(map_turn(turn(StopReason::EndTurn, "", more), true), failed("continue: more"));
    assert_eq!(
        map_turn(turn(StopReason::Refusal, "", None), true),
        failed("legacy turn did not end")
    );
    let strict = execute_result(Ok(turn(StopReason::EndTurn, "t", None)), false);
    assert_eq!(
        strict,
        Err(AcpError::Schema {
            method: "session/prompt".into(),
            detail: "missing taskResult in strict mode".into()
        })
    );
    assert_eq!(
        execute_result(Ok(turn(StopReason::EndTurn, "t", None)), true),
        Ok(DispatchOutcome::Completed { output: "t".into() })
    );
    let done = TurnResult::Completed { output: "o".into() };
    assert_eq!(
        execute_turn_result(Ok(turn(StopReason::EndTurn, "t", Some(done.clone())))),
        Ok(done.clone())
    );
    assert_eq!(
        execute_turn_result(Err(AcpError::TransportClosed)),
        Err(AcpError::TransportClosed)
    );
    assert_eq!(strict_result(turn(StopReason::EndTurn, "t", Some(done.clone()))), Ok(done));
}

#[test]
fn a_finished_turn_reads_its_structured_result() {
    let result = |kind: &str| PromptResult {
        stop_reason: StopReason::EndTurn,
        task_result: Some(WireTurnResult {
            kind: kind.into(),
            reason: None,
            output: None,
            next_prompt: None,
        }),
    };
    assert_eq!(
        finish_turn(result("completed"), "s".into()),
        Ok(turn(
            StopReason::EndTurn,
            "s",
            Some(TurnResult::Completed { output: "s".into() })
        ))
    );
    assert_eq!(
        finish_turn(result("wat"), "s".into()).unwrap_err().to_string(),
        "session/prompt returned a malformed payload: unknown structured turn result kind"
    );
}

#[test]
fn a_reason_is_bounded_and_carries_no_task_body() {
    let secret = "SECRET-BODY-DO-NOT-LEAK";
    let long = "z".repeat(4096);
    let error = AcpError::Schema {
        method: "session/prompt".to_owned(),
        detail: format!("{long}{secret}"),
    };
    let reason = reason_of(&error);
    assert!(reason.len() <= MAX_DETAIL_BYTES);
    assert!(!reason.contains(secret));
}

#[test]
fn a_builder_reports_what_is_missing() {
    assert_eq!(
        AcpDispatcher::builder().build().err(),
        Some("a working directory is required")
    );
    let builder = AcpDispatcher::builder().cwd(None);
    assert_eq!(
        builder.clone().build().err(),
        Some("the working directory must be valid UTF-8")
    );
    let builder = builder.cwd(Some("/w".into()));
    assert_eq!(builder.clone().build().err(), Some("a session store is required"));
    let builder = builder.sessions();
    assert_eq!(builder.clone().build().err(), Some("a repository is required"));
    let built = builder.repository().legacy_results(true).build().expect("complete");
    assert_eq!(built.cwd(), "/w");
    assert!(built.legacy_results());
}

#[test]
fn a_builder_starts_with_strict_results_and_no_stores() {
    for builder in [AcpDispatcherBuilder::new(), AcpDispatcherBuilder::default()] {
        let builder = builder.cwd(Some("/w".into()));
        assert_eq!(builder.clone().build().err(), Some("a session store is required"));
        assert_eq!(builder.clone().repository().build().err(), Some("a session store is required"));
        assert_eq!(builder.clone().sessions().build().err(), Some("a repository is required"));
        let built = builder.sessions().repository().build().expect("complete");
        assert!(!built.legacy_results());
        assert!(built.additional_directories().is_empty());
        assert_eq!(built.limits(), AcpLimits::default());
        let (_, first) = built.deliver(EndpointId::from_u128(1), ConversationId::from_u128(2));
        assert!(matches!(first, DeliverAction::EnsureClient), "no disposition is looked for");
    }
}

#[test]
fn the_dispatcher_is_send_and_sync() {
    fn assert_send_sync<T: Send + Sync>() {}
    assert_send_sync::<AcpDispatcher>();
}

fn dispatcher(reliable: bool) -> AcpDispatcher {
    let builder = AcpDispatcher::builder()
        .cwd(Some("/w".into()))
        .additional_directories(vec!["/more".to_owned()])
        .sessions()
        .repository();
    let builder = if reliable { builder.reliability() } else { builder };
    builder.build().expect("complete")
}

fn step(run: &mut Delivering, input: DeliverInput) -> DeliverAction {
    assert!(run.expects(&input));
    run.step(input)
}

#[test]
fn a_delivery_is_accepted_once_the_agent_answered_and_it_is_recorded() {
    let endpoint = EndpointId::from_u128(1);
    let conversation = ConversationId::from_u128(2);
    let (mut run, first) = dispatcher(false).deliver(endpoint, conversation);
    assert!(matches!(first, DeliverAction::EnsureClient));
    match step(&mut run, DeliverInput::Client(Ok("b/1".into()))) {
        DeliverAction::FindSession { backend_id } => assert_eq!(backend_id, "b/1"),
        _ => panic!("expected a lookup"),
    }
    assert!(matches!(
        step(&mut run, DeliverInput::Session(Ok(None))),
        DeliverAction::Open
    ));
    match step(&mut run, DeliverInput::Opened(Ok("s".into()), morning())) {
        DeliverAction::Store(session) => {
            assert_eq!(session.session_id(), "s");
            assert_eq!(session.backend_id(), "b/1");
            assert_eq!(session.additional_directories(), "[\"/more\"]");
            assert_eq!(session.endpoint_id(), endpoint);
            assert_eq!(session.conversation_id(), conversation);
        }
        _ => panic!("expected a session"),
    }
    assert!(matches!(step(&mut run, DeliverInput::Stored(Ok(()))), DeliverAction::Record));
    assert!(matches!(
        step(&mut run, DeliverInput::Recorded(Ok(()))),
        DeliverAction::Acknowledge
    ));
    assert!(matches!(
        step(&mut run, DeliverInput::Recorded(Ok(()))),
        DeliverAction::Accepted
    ));
    assert!(!run.expects(&DeliverInput::Recorded(Ok(()))));
}

#[test]
fn a_fenced_delivery_is_not_accepted() {
    let (mut run, first) =
        dispatcher(true).deliver(EndpointId::from_u128(1), ConversationId::from_u128(2));
    assert!(matches!(first, DeliverAction::Prepare));
    assert!(matches!(
        step(&mut run, DeliverInput::Prepared(true)),
        DeliverAction::EnsureClient
    ));
    step(&mut run, DeliverInput::Client(Ok("b".into())));
    match step(&mut run, DeliverInput::Session(Ok(Some("s".into())))) {
        DeliverAction::Resume { session_id } => assert_eq!(session_id, "s"),
        _ => panic!("expected a resume"),
    }
    step(&mut run, DeliverInput::Opened(Ok("s".into()), morning()));
    match step(&mut run, DeliverInput::Stored(Ok(()))) {
        DeliverAction::Dispose { session_id } => assert_eq!(session_id, "s"),
        _ => panic!("expected a disposition"),
    }
    match step(&mut run, DeliverInput::Disposed(Some(false))) {
        DeliverAction::Refused(error) => assert_eq!(
            error.to_string(),
            "session storage failed: delivery_dispositions is malformed: \
             delivery acknowledgement was fenced"
        ),
        _ => panic!("expected a refusal"),
    }
}

#[test]
fn a_delivery_that_cannot_be_prepared_is_refused() {
    let (mut run, _) =
        dispatcher(true).deliver(EndpointId::from_u128(1), ConversationId::from_u128(2));
    match step(&mut run, DeliverInput::Prepared(false)) {
        DeliverAction::Refused(error) => {
            assert!(error.to_string().ends_with("delivery preparation failed"))
        }
        _ => panic!("expected a refusal"),
    }
    let (mut run, _) =
        dispatcher(false).deliver(EndpointId::from_u128(1), ConversationId::from_u128(2));
    match step(&mut run, DeliverInput::Client(Err(AcpError::Timeout { phase: Phase::Initialize }))) {
        DeliverAction::Refused(error) => assert_eq!(error.to_string(), "initialize timed out"),
        _ => panic!("expected a refusal"),
    }
}

fn go(run: &mut TurnRun, input: TurnInput) -> TurnAction {
    assert!(run.expects(&input));
    run.step(input)
}

#[test]
fn a_turn_marks_its_session_and_ends_as_the_agent_says() {
    let (mut run, first) = TurnRun::begin(false, Some("b".into()));
    assert!(matches!(first, TurnAction::FindSession { backend_id } if backend_id == "b"));
    match go(&mut run, TurnInput::Found { session: Ok(Some("s".into())), alive: true }) {
        TurnAction::Mark { session_id, state } => {
            assert_eq!((session_id.as_str(), state), ("s", SessionState::Prompting))
        }
        _ => panic!("expected a mark"),
    }
    assert!(matches!(
        go(&mut run, TurnInput::Marked(Ok(()))),
        TurnAction::Prompt { session_id } if session_id == "s"
    ));
    let ended = turn(StopReason::EndTurn, "t", None);
    match go(&mut run, TurnInput::Turn(Ok(ended.clone()))) {
        TurnAction::Mark { state, .. } => assert_eq!(state, SessionState::Ready),
        _ => panic!("expected a mark"),
    }
    let unmarked = Err(StorageError::Unavailable { detail: "gone".into() });
    match go(&mut run, TurnInput::Marked(unmarked)) {
        TurnAction::Finished(end) => assert_eq!(end, Ok(ended), "bookkeeping changes nothing"),
        _ => panic!("expected the end"),
    }
}

#[test]
fn a_lost_backend_is_restored_and_the_turn_needs_recovery() {
    let (mut run, first) = TurnRun::begin(true, None);
    assert!(matches!(first, TurnAction::FindSession { backend_id } if backend_id.is_empty()));
    go(&mut run, TurnInput::Found { session: Ok(Some("s".into())), alive: true });
    assert!(matches!(
        go(&mut run, TurnInput::Marked(Ok(()))),
        TurnAction::Stream { session_id } if session_id == "s"
    ));
    assert!(matches!(go(&mut run, TurnInput::Streaming(Ok(()))), TurnAction::Running));
    go(&mut run, TurnInput::Turn(Err(AcpError::TransportClosed)));
    assert!(matches!(go(&mut run, TurnInput::Marked(Ok(()))), TurnAction::EnsureClient));
    assert!(matches!(
        go(&mut run, TurnInput::Client(Ok(()))),
        TurnAction::Resume { session_id } if session_id == "s"
    ));
    match go(&mut run, TurnInput::Resumed(Ok(()))) {
        TurnAction::Finished(end) => assert_eq!(end, Err(AcpError::RecoveryNeeded)),
        _ => panic!("expected the end"),
    }
}

#[test]
fn a_turn_without_a_session_or_a_backend_is_not_prompted() {
    let (mut run, _) = TurnRun::begin(false, None);
    match go(&mut run, TurnInput::Found { session: Ok(None), alive: true }) {
        TurnAction::Finished(Err(error)) => assert_eq!(
            error.to_string(),
            "the agent returned an unusable session id: no live session for this delivery"
        ),
        _ => panic!("expected the end"),
    }
    let (mut run, _) = TurnRun::begin(false, None);
    assert!(matches!(
        go(&mut run, TurnInput::Found { session: Ok(Some("s".into())), alive: false }),
        TurnAction::EnsureClient
    ));
    match go(&mut run, TurnInput::Client(Err(AcpError::TransportClosed))) {
        TurnAction::Finished(end) => assert_eq!(end, Err(AcpError::TransportClosed)),
        _ => panic!("expected the end"),
    }
}
