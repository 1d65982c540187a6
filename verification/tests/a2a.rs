use guigu_agent_bridge::a2a::assembly::agent_card;
use guigu_agent_bridge::a2a::assembly::client_peer;
use guigu_agent_bridge::a2a::assembly::exposed_endpoints;
use guigu_agent_bridge::a2a::assembly::known_peers;
use guigu_agent_bridge::a2a::assembly::listen_fault;
use guigu_agent_bridge::a2a::assembly::listen_target;
use guigu_agent_bridge::a2a::assembly::Listen;
use guigu_agent_bridge::a2a::cleanup::cutoff;
use guigu_agent_bridge::a2a::cleanup::startup_step;
use guigu_agent_bridge::a2a::cleanup::startup_takes;
use guigu_agent_bridge::a2a::cleanup::under_pressure;
use guigu_agent_bridge::a2a::cleanup::CleanupPolicy;
use guigu_agent_bridge::a2a::cleanup::StartupAction;
use guigu_agent_bridge::a2a::cleanup::StartupInput;
use guigu_agent_bridge::a2a::cleanup::StartupStage;
use guigu_agent_bridge::a2a::client::envelope_result;
use guigu_agent_bridge::a2a::client::judge_card_status;
use guigu_agent_bridge::a2a::client::judge_length;
use guigu_agent_bridge::a2a::client::judge_private_ca;
use guigu_agent_bridge::a2a::client::judge_status;
use guigu_agent_bridge::a2a::client::rpc_request;
use guigu_agent_bridge::a2a::client::task_query;
use guigu_agent_bridge::a2a::client::task_result;
use guigu_agent_bridge::a2a::client::trust_policy;
use guigu_agent_bridge::a2a::client::TrustPolicy;
use guigu_agent_bridge::a2a::client::MAX_PRIVATE_CA_BYTES;
use guigu_agent_bridge::a2a::content::artifacts_content;
use guigu_agent_bridge::a2a::content::encode;
use guigu_agent_bridge::a2a::content::hash_of;
use guigu_agent_bridge::a2a::content::message_content;
use guigu_agent_bridge::a2a::dispatcher::render_artifacts;
use guigu_agent_bridge::a2a::dispatcher::route_peer;
use guigu_agent_bridge::a2a::dispatcher::Sending;
use guigu_agent_bridge::a2a::dispatcher::SendingAction;
use guigu_agent_bridge::a2a::dispatcher::SendingInput;
use guigu_agent_bridge::a2a::error::A2aError;
use guigu_agent_bridge::a2a::identity::derive_peer_endpoint_id;
use guigu_agent_bridge::a2a::ingress::dispatch;
use guigu_agent_bridge::a2a::ingress::find_endpoint;
use guigu_agent_bridge::a2a::ingress::parse_task;
use guigu_agent_bridge::a2a::ingress::require_version;
use guigu_agent_bridge::a2a::ingress::text_parts;
use guigu_agent_bridge::a2a::ingress::Call;
use guigu_agent_bridge::a2a::mapping::internal_status;
use guigu_agent_bridge::a2a::mapping::outbound_outcome;
use guigu_agent_bridge::a2a::mapping::project;
use guigu_agent_bridge::a2a::policy::peer_address;
use guigu_agent_bridge::a2a::policy::validate_listener;
use guigu_agent_bridge::a2a::policy::validate_peer_url;
use guigu_agent_bridge::a2a::policy::ListenPolicy;
use guigu_agent_bridge::a2a::polling::PollAction;
use guigu_agent_bridge::a2a::polling::PollInput;
use guigu_agent_bridge::a2a::polling::Polling;
use guigu_agent_bridge::a2a::polling::MAX_POLLS;
use guigu_agent_bridge::a2a::polling::POLL_INTERVAL_MILLIS;
use guigu_agent_bridge::a2a::projection::projection_result;
use guigu_agent_bridge::a2a::projection::projects;
use guigu_agent_bridge::a2a::server::authorize;
use guigu_agent_bridge::a2a::server::invalid_request;
use guigu_agent_bridge::a2a::server::respond;
use guigu_agent_bridge::a2a::server::unauthorized;
use guigu_agent_bridge::a2a::server::Verdict;
use guigu_agent_bridge::a2a::serving::A2aIngress;
use guigu_agent_bridge::a2a::serving::ServingAction;
use guigu_agent_bridge::a2a::serving::ServingInput;
use guigu_agent_bridge::a2a::store::acceptance_state;
use guigu_agent_bridge::a2a::store::claim;
use guigu_agent_bridge::a2a::store::cleanup_limit;
use guigu_agent_bridge::a2a::store::inbound_reservation;
use guigu_agent_bridge::a2a::store::outbound_reservation;
use guigu_agent_bridge::a2a::store::terminal_state;
use guigu_agent_bridge::a2a::store::ExchangeRecord;
use guigu_agent_bridge::a2a::store::InboundReservation;
use guigu_agent_bridge::a2a::wire::Artifact;
use guigu_agent_bridge::a2a::wire::JsonRpcError;
use guigu_agent_bridge::a2a::wire::JsonRpcResponse;
use guigu_agent_bridge::a2a::wire::Message;
use guigu_agent_bridge::a2a::wire::Part;
use guigu_agent_bridge::a2a::wire::Role;
use guigu_agent_bridge::a2a::wire::SendParams;
use guigu_agent_bridge::a2a::wire::TaskQuery;
use guigu_agent_bridge::a2a::wire::TaskSnapshot;
use guigu_agent_bridge::a2a::wire::TaskState;
use guigu_agent_bridge::a2a::wire::PROTOCOL_VERSION;
use guigu_agent_bridge::bus::fanout::ConsumerError;
use guigu_agent_bridge::bus::registry::derive_endpoint_id;
use guigu_agent_bridge::bus::registry::EndpointRegistry;
use guigu_agent_bridge::bus::worker::DispatchError;
use guigu_agent_bridge::bus::worker::DispatchOutcome;
use guigu_agent_bridge::config::A2aPeerConfig;
use guigu_agent_bridge::config::PeerEntry;
use guigu_agent_bridge::ids::ConversationId;
use guigu_agent_bridge::ids::EndpointId;
use guigu_agent_bridge::ids::TaskId;
use guigu_agent_bridge::json::Json;
use guigu_agent_bridge::models::EndpointAddress;
use guigu_agent_bridge::models::TaskStatus;
use guigu_agent_bridge::models::TransportType;
use guigu_agent_bridge::net::IpAddr;
use guigu_agent_bridge::net::SocketAddr;
use guigu_agent_bridge::time::Duration;
use guigu_agent_bridge::time::Timestamp;
use guigu_agent_bridge::config::A2aTransportConfig;
use guigu_agent_bridge::config::AgentEndpointConfig;
use guigu_agent_bridge::config::AgentEntry;
use guigu_agent_bridge::config::BridgeConfig;
use guigu_agent_bridge::config::Config;
use guigu_agent_bridge::config::GatewayTransportConfig;
use guigu_agent_bridge::config::MatrixRoutesConfig;
use guigu_agent_bridge::config::MatrixTransportConfig;
use guigu_agent_bridge::config::RuntimeConfig;
use guigu_agent_bridge::config::SecretString;
use guigu_agent_bridge::config::TransportsConfig;

fn declared(agent_id: &str, transport: TransportType, command: Option<&str>) -> AgentEntry {
    AgentEntry {
        agent_id: agent_id.to_owned(),
        declared: AgentEndpointConfig {
            transport,
            command: command.map(|text| text.to_owned()),
            args: Vec::new(),
            enabled: true,
            workspace: Some("/tmp".to_owned()),
            additional_workspaces: Vec::new(),
            peer: None,
        },
    }
}

fn config(agents: Vec<AgentEntry>) -> Config {
    Config {
        bridge: BridgeConfig {
            database: "/tmp/bridge.db".to_owned(),
            session_root: "/tmp/sessions".to_owned(),
            max_task_depth: 8,
            max_task_hops: 16,
            default_timeout_seconds: 300,
            queue_capacity: 1024,
            event_capacity: 1024,
            shutdown_timeout_seconds: 5,
            health_bind: None,
        },
        runtime: RuntimeConfig {
            allow_nonterminal_end_turn: false,
            max_turns: 8,
            max_wall_seconds: 900,
            max_inactivity_seconds: 120,
            max_no_progress: 2,
            max_output_bytes: 1024,
            lease_ttl_seconds: 30,
        },
        transports: TransportsConfig {
            matrix: MatrixTransportConfig {
                enabled: false,
                homeserver: String::new(),
                user_id: String::new(),
                device_id: String::new(),
                access_token: SecretString::new(String::new()),
                monitor_room: String::new(),
                sync_capacity: 4,
                allowed_users: Vec::new(),
                routes: MatrixRoutesConfig {
                    aliases: Vec::new(),
                    rooms: Vec::new(),
                    direct: Vec::new(),
                },
                admin_users: Vec::new(),
                admin_rooms: Vec::new(),
            },
            a2a: A2aTransportConfig {
                enabled: false,
                listen: String::new(),
                allow_private_plaintext: false,
                max_body_bytes: 1024,
                terminal_content_ttl_seconds: 60,
                retained_bytes_ceiling: 1024,
                retained_bytes_low_watermark: 512,
                cleanup_batch: 1,
                exposed_endpoints: Vec::new(),
                peers: Vec::new(),
            },
            gateway: GatewayTransportConfig { enabled: false },
        },
        agents,
    }
}

const TASK: &str = "01890a5d-ac96-774b-bcce-b302099a8057";

fn at(ip: IpAddr) -> SocketAddr {
    SocketAddr { ip, port: 80 }
}

fn v4(a: u32, b: u32, c: u32, d: u32) -> SocketAddr {
    at(IpAddr::V4((a << 24) | (b << 16) | (c << 8) | d))
}

fn record() -> ExchangeRecord {
    ExchangeRecord {
        exchange_id: "x".into(),
        peer_id: "p".into(),
        request_id: "r".into(),
        request_hash: "h".into(),
        external_task_id: Some("e".into()),
        internal_task_id: Some(TASK.into()),
        state: "submitted".into(),
        revision: 3,
        content_bytes: 0,
        content_cleaned: false,
    }
}

fn snapshot(status: TaskState) -> TaskSnapshot {
    TaskSnapshot {
        id: "remote".into(),
        context_id: "c".into(),
        status,
        artifacts: vec![artifact(vec![text("one")]), artifact(vec![data("1"), text("two")])],
        metadata: None,
    }
}

fn artifact(parts: Vec<Part>) -> Artifact {
    Artifact { artifact_id: "a".into(), name: None, description: None, parts }
}

fn text(text: &str) -> Part {
    Part::Text { text: text.into() }
}

fn data(json: &str) -> Part {
    Part::Data { data: Json::parse(json).expect("valid JSON") }
}

fn peer_entry(key: &str, id: &str, token: &str) -> PeerEntry {
    PeerEntry {
        key: key.into(),
        peer: A2aPeerConfig {
            url: "https://localhost/rpc".into(),
            expected_peer_id: id.into(),
            token: SecretString::new(token.into()),
            allowed_targets: vec!["worker".to_owned()],
            private_ca: None,
            danger_accept_invalid_certs: false,
        },
    }
}

#[test]
fn missing_private_ca_never_falls_back_to_dangerous_bypass() {
    let peer = A2aPeerConfig {
        url: "https://localhost/rpc".into(),
        expected_peer_id: "peer".into(),
        token: SecretString::new("test-token".into()),
        allowed_targets: Vec::new(),
        private_ca: Some("/definitely/missing/a2a-private-ca.pem".into()),
        danger_accept_invalid_certs: true,
    };
    // Nothing is found at that path.
    let loaded = peer
        .private_ca
        .as_ref()
        .map(|_| judge_private_ca(None, MAX_PRIVATE_CA_BYTES).map(|()| Vec::new()));
    assert!(matches!(
        trust_policy(loaded),
        Err(A2aError::Config("private CA unavailable"))
    ));
}

#[test]
fn a_private_ca_is_a_bounded_regular_file() {
    let refused = Err(A2aError::Config("private CA must be a bounded regular file"));
    assert_eq!(judge_private_ca(Some((true, 262_144)), MAX_PRIVATE_CA_BYTES), Ok(()));
    assert_eq!(judge_private_ca(Some((true, 262_145)), MAX_PRIVATE_CA_BYTES), refused);
    assert_eq!(judge_private_ca(Some((false, 1)), MAX_PRIVATE_CA_BYTES), refused);
    assert_eq!(trust_policy(None), Ok(TrustPolicy::WebPki));
    assert_eq!(trust_policy(Some(Ok(vec![1]))), Ok(TrustPolicy::PrivateCa(vec![1])));
}

#[test]
fn errors_render_their_words() {
    for (error, words) in [
        (A2aError::Config("d"), "invalid A2A configuration: d"),
        (A2aError::Unauthorized, "A2A authentication failed"),
        (A2aError::Unsupported, "unsupported A2A protocol or method"),
        (A2aError::Protocol("d"), "invalid A2A request: d"),
        (A2aError::TooLarge, "A2A request exceeds configured bounds"),
        (A2aError::Conflict, "A2A request conflicts with an existing idempotency key"),
        (A2aError::AcceptanceUnknown, "A2A remote acceptance is unknown"),
        (A2aError::RecoveryNeeded, "A2A recovery requires operator action"),
        (A2aError::Storage, "A2A storage operation failed"),
        (A2aError::Network, "A2A network operation failed"),
    ] {
        assert_eq!(error.to_string(), words);
    }
}

#[test]
fn states_map_both_ways() {
    let statuses = [
        (TaskStatus::Queued, TaskState::Submitted),
        (TaskStatus::Dispatched, TaskState::Working),
        (TaskStatus::Running, TaskState::Working),
        (TaskStatus::Completed, TaskState::Completed),
        (TaskStatus::Failed, TaskState::Failed),
        (TaskStatus::TimedOut, TaskState::Failed),
        (TaskStatus::Cancelled, TaskState::Canceled),
    ];
    for (status, state) in statuses {
        assert_eq!(project(status), state);
    }
    assert_eq!(internal_status(TaskState::Submitted), Ok(TaskStatus::Queued));
    assert_eq!(internal_status(TaskState::Completed), Ok(TaskStatus::Completed));
    assert_eq!(internal_status(TaskState::InputRequired), Err(A2aError::Unsupported));
    assert_eq!(outbound_outcome(TaskState::Working), Ok(None));
    assert_eq!(outbound_outcome(TaskState::AuthRequired), Err(A2aError::Unsupported));
}

#[test]
fn listeners_stay_on_this_machine_unless_a_private_network_is_allowed() {
    let closed = ListenPolicy { allow_private_plaintext: false };
    let open = ListenPolicy { allow_private_plaintext: true };
    let wild = Err(A2aError::Config("wildcard or multicast listener rejected"));
    let far = Err(A2aError::Config(
        "listener must be loopback or explicitly allowed private IP",
    ));
    assert_eq!(validate_listener(v4(0, 0, 0, 0), open), wild);
    assert_eq!(validate_listener(v4(224, 0, 0, 1), open), wild);
    assert_eq!(validate_listener(at(IpAddr::V6(0)), open), wild);
    assert_eq!(validate_listener(v4(127, 9, 9, 9), closed), Ok(()));
    assert_eq!(validate_listener(at(IpAddr::V6(1)), closed), Ok(()));
    assert_eq!(validate_listener(v4(192, 168, 0, 1), open), Ok(()));
    assert_eq!(validate_listener(v4(169, 254, 0, 1), open), Ok(()));
    assert_eq!(validate_listener(v4(192, 168, 0, 1), closed), far);
    assert_eq!(validate_listener(v4(8, 8, 8, 8), open), far);
    assert_eq!(validate_listener(at(IpAddr::V6(0xfd00 << 112)), open), Ok(()));
    assert_eq!(validate_listener(at(IpAddr::V6(0xfe80 << 112)), open), Ok(()));
    assert_eq!(validate_listener(at(IpAddr::V6(0x2001 << 112)), open), far);
}

#[test]
fn peers_are_reached_on_local_addresses_only() {
    let fault = |text: &str, resolved: Vec<SocketAddr>| {
        validate_peer_url(&peer_address(text).expect("an address"), &resolved)
    };
    let bare = Err(A2aError::Config("peer URL cannot contain credentials, query or fragment"));
    assert_eq!(fault("http://127.0.0.1:8080/rpc", vec![v4(127, 0, 0, 1)]), Ok(()));
    assert_eq!(fault("https://peer.lan/rpc", vec![v4(10, 0, 0, 1), v4(127, 0, 0, 1)]), Ok(()));
    assert_eq!(
        fault("http://peer.lan/rpc", vec![v4(10, 0, 0, 1)]),
        Err(A2aError::Config("plaintext peer must resolve only to loopback"))
    );
    assert_eq!(
        fault("https://peer.org/rpc", vec![v4(8, 8, 8, 8)]),
        Err(A2aError::Config("peer URL must use http or https"))
    );
    assert_eq!(
        fault("https://peer.lan/rpc", Vec::new()),
        Err(A2aError::Config("peer DNS returned no addresses"))
    );
    assert_eq!(fault("http://u@localhost/", vec![v4(127, 0, 0, 1)]), bare);
    assert_eq!(fault("http://:p@localhost/", vec![v4(127, 0, 0, 1)]), bare);
    assert_eq!(fault("http://localhost/?q", vec![v4(127, 0, 0, 1)]), bare);
    assert_eq!(fault("http://localhost/#f", vec![v4(127, 0, 0, 1)]), bare);
}

#[test]
fn a_peer_address_has_a_host_and_a_port() {
    let url = peer_address("HTTPS://Peer.Lan/rpc").expect("an address");
    assert_eq!(url.scheme, "https");
    assert_eq!(url.host, Some("peer.lan".to_owned()));
    assert_eq!(url.port, Some(443));
    assert_eq!(peer_address("nonsense"), Err(A2aError::Config("invalid peer URL")));
    assert_eq!(peer_address("mailto:me"), Err(A2aError::Config("peer URL missing host")));
    assert_eq!(peer_address("gopher://host/"), Err(A2aError::Config("peer URL missing port")));
}

#[test]
fn peer_ids_are_derived_from_their_names() {
    let namespace = uuid::Uuid::new_v5(&uuid::Uuid::NAMESPACE_URL, b"guigu-agent-bridge/a2a-peer/v1");
    assert_eq!(
        derive_peer_endpoint_id("peer").as_u128(),
        uuid::Uuid::new_v5(&namespace, b"peer").as_u128()
    );
    assert_ne!(derive_peer_endpoint_id("peer"), derive_endpoint_id("peer"));
}

#[test]
fn content_is_encoded_with_its_size_and_hash() {
    let row = encode(&text("é")).expect("a row");
    assert_eq!((row.kind, row.bytes), ("text", 2));
    assert_eq!(row.text, Some("é".to_owned()));
    assert_eq!(row.hash, hash_of("é".as_bytes()));
    assert_eq!(
        row.hash,
        uuid::Uuid::new_v5(&uuid::Uuid::NAMESPACE_OID, "é".as_bytes()).to_string()
    );
    let row = encode(&data("{ \"b\": 1, \"a\": [] }")).expect("a row");
    assert_eq!((row.kind, row.bytes), ("data", 14));
    assert_eq!(row.json, Some("{\"a\":[],\"b\":1}".to_owned()));
    let inline = |len: usize| Part::FileInline { mime_type: "m".into(), data: "x".repeat(len) };
    let row = encode(&inline(262_144)).expect("a row");
    assert_eq!((row.kind, row.bytes), ("file_inline", 262_144));
    assert_eq!(row.mime, Some("m".to_owned()));
    assert_eq!(row.blob, Some(vec![b'x'; 262_144]));
    assert_eq!(encode(&inline(262_145)), Err(A2aError::TooLarge));
    let uri = Part::FileUri { mime_type: "m".into(), uri: "u".into() };
    assert_eq!(encode(&uri), Err(A2aError::Unsupported));
}

#[test]
fn stored_content_is_bounded() {
    let message = |parts: Vec<Part>| Message { message_id: "m".into(), role: Role::User, parts };
    let (rows, total) = message_content(&message(vec![text("ab"), data("null")])).expect("rows");
    assert_eq!((rows.len(), total), (2, 6));
    let many = (0..65).map(|_| text("")).collect::<Vec<_>>();
    assert_eq!(message_content(&message(many)), Err(A2aError::TooLarge));
    let half = "x".repeat(524_288);
    let (_, total) = message_content(&message(vec![text(&half), text(&half)])).expect("rows");
    assert_eq!(total, 1_048_576);
    assert_eq!(
        message_content(&message(vec![text(&half), text(&half), text("x")])),
        Err(A2aError::TooLarge)
    );

    let (rows, total) = artifacts_content(&snapshot(TaskState::Completed).artifacts).expect("rows");
    assert_eq!((rows.len(), rows[1].len(), total), (2, 2, 7));
    let many = (0..17).map(|_| artifact(Vec::new())).collect::<Vec<_>>();
    assert_eq!(artifacts_content(&many), Err(A2aError::TooLarge));
    let wide = vec![artifact((0..65).map(|_| text("")).collect::<Vec<_>>())];
    assert_eq!(artifacts_content(&wide), Err(A2aError::TooLarge));
}

#[test]
fn reservations_are_replayed_only_for_the_same_request() {
    assert_eq!(inbound_reservation(None, "h"), Ok(None));
    assert_eq!(inbound_reservation(Some(record()), "h"), Ok(Some(record())));
    assert_eq!(inbound_reservation(Some(record()), "other"), Err(A2aError::Conflict));
    assert_eq!(outbound_reservation(None, TASK), Ok(None));
    assert_eq!(outbound_reservation(Some(record()), TASK), Ok(Some(record())));
    assert_eq!(outbound_reservation(Some(record()), "other"), Err(A2aError::Conflict));
}

#[test]
fn stored_states_are_checked() {
    assert_eq!(acceptance_state("working"), Ok(()));
    assert_eq!(
        acceptance_state("completed"),
        Err(A2aError::Protocol("invalid acceptance state"))
    );
    for state in ["completed", "failed", "canceled", "rejected"] {
        assert_eq!(terminal_state(state), Ok(()));
    }
    assert_eq!(terminal_state("working"), Err(A2aError::Protocol("invalid terminal state")));
    let refused = Err(A2aError::Config("cleanup batch must be 1..=256"));
    assert_eq!(cleanup_limit(0), refused);
    assert_eq!(cleanup_limit(256), Ok(()));
    assert_eq!(cleanup_limit(257), refused);
    assert_eq!(claim("x".into(), 4, 1).map(|claim| claim.revision), Some(5));
    assert_eq!(claim("x".into(), 4, 0), None);
}

fn sending() -> Sending {
    Sending::begin("t".into(), "c".into(), "do".into())
}

fn send(run: &mut Sending, input: SendingInput) -> SendingAction {
    assert!(run.expects(&input));
    run.step(input)
}

fn refusal(action: SendingAction) -> DispatchError {
    match action {
        SendingAction::Failed(error) => error,
        _ => panic!("expected a refusal"),
    }
}

fn reserved() -> SendingInput {
    SendingInput::Reserved(Ok(InboundReservation::New(record())))
}

#[test]
fn a_task_is_sent_once_and_acknowledged() {
    let mut run = sending();
    match send(&mut run, reserved()) {
        SendingAction::Send(params) => {
            assert_eq!(params.protocol_version, PROTOCOL_VERSION);
            assert_eq!(params.request_id, "t");
            assert_eq!(params.context_id, "c");
            assert_eq!(params.message.message_id, "t");
            assert_eq!(params.message.role, Role::User);
            assert_eq!(params.message.parts, vec![text("do")]);
        }
        _ => panic!("expected a message"),
    }
    match send(&mut run, SendingInput::Sent(Ok(snapshot(TaskState::Working)))) {
        SendingAction::Acknowledge { exchange_id, remote_task_id, state } => assert_eq!(
            (exchange_id.as_str(), remote_task_id.as_str(), state),
            ("x", "remote", "working")
        ),
        _ => panic!("expected an acknowledgement"),
    }
    assert!(matches!(
        send(&mut run, SendingInput::Acknowledged(true)),
        SendingAction::Accepted
    ));
    assert!(!run.expects(&reserved()));
}

#[test]
fn a_task_is_not_sent_a_second_time() {
    let replay = |external: Option<String>| {
        SendingInput::Reserved(Ok(InboundReservation::Replay(ExchangeRecord {
            external_task_id: external,
            ..record()
        })))
    };
    assert!(matches!(
        send(&mut sending(), replay(Some("e".into()))),
        SendingAction::Accepted
    ));
    assert_eq!(
        refusal(send(&mut sending(), replay(None))),
        DispatchError::AcceptanceUnknown
    );
    assert_eq!(
        refusal(send(&mut sending(), SendingInput::Reserved(Err(A2aError::Conflict)))),
        DispatchError::NotAccepted {
            reason: "A2A request conflicts with an existing idempotency key".into()
        }
    );
}

#[test]
fn a_lost_answer_leaves_the_task_in_doubt() {
    let mut run = sending();
    send(&mut run, reserved());
    match send(&mut run, SendingInput::Sent(Err(A2aError::Network))) {
        SendingAction::MarkUnknown { exchange_id, revision } => {
            assert_eq!((exchange_id.as_str(), revision), ("x", 3))
        }
        _ => panic!("expected a mark"),
    }
    assert_eq!(
        refusal(send(&mut run, SendingInput::Marked(true))),
        DispatchError::AcceptanceUnknown
    );

    let mut run = sending();
    send(&mut run, reserved());
    assert_eq!(
        refusal(send(&mut run, SendingInput::Sent(Err(A2aError::Unauthorized)))),
        DispatchError::NotAccepted { reason: "A2A authentication failed".into() }
    );

    let mut run = sending();
    send(&mut run, reserved());
    assert_eq!(
        refusal(send(&mut run, SendingInput::Sent(Ok(snapshot(TaskState::Completed))))),
        DispatchError::NotAccepted { reason: "remote did not accept task".into() }
    );

    let mut run = sending();
    send(&mut run, reserved());
    send(&mut run, SendingInput::Sent(Ok(snapshot(TaskState::Submitted))));
    assert_eq!(
        refusal(send(&mut run, SendingInput::Acknowledged(false))),
        DispatchError::AcceptanceUnknown
    );
}

#[test]
fn a_task_goes_to_its_peer() {
    let peers = vec!["p".to_owned(), "q".to_owned()];
    let reason = |reason: &str| Err(DispatchError::NotAccepted { reason: reason.into() });
    let to = |peer: &str| EndpointAddress::A2a { peer: peer.into() };
    assert_eq!(route_peer(Some(&to("q")), &peers), Ok(1));
    assert_eq!(route_peer(Some(&to("z")), &peers), reason("A2A peer unavailable"));
    assert_eq!(route_peer(None, &peers), reason("A2A endpoint address missing"));
    let acp = EndpointAddress::Acp { command: "c".into(), args: Vec::new() };
    assert_eq!(route_peer(Some(&acp), &peers), reason("A2A endpoint address missing"));
}

fn poll(run: &mut Polling, input: PollInput) -> PollAction {
    assert!(run.expects(&input));
    run.step(input)
}

fn ended(action: PollAction) -> Result<DispatchOutcome, DispatchError> {
    match action {
        PollAction::Ended(end) => end,
        _ => panic!("expected the end"),
    }
}

fn polling(max: u32) -> Polling {
    let (mut run, first) = Polling::begin(max);
    assert!(matches!(first, PollAction::Find));
    if max > 0 {
        match poll(&mut run, PollInput::Found(Ok(Some(record())))) {
            PollAction::Poll { remote_id } => assert_eq!(remote_id, "e"),
            _ => panic!("expected a poll"),
        }
    }
    run
}

#[test]
fn a_remote_task_is_polled_until_it_ends() {
    assert_eq!((MAX_POLLS, POLL_INTERVAL_MILLIS), (120, 250));
    let mut run = polling(3);
    assert!(matches!(
        poll(&mut run, PollInput::Polled(Ok(snapshot(TaskState::Submitted)))),
        PollAction::Sleep
    ));
    assert!(matches!(poll(&mut run, PollInput::Slept), PollAction::Poll { .. }));
    match poll(&mut run, PollInput::Polled(Ok(snapshot(TaskState::Completed)))) {
        PollAction::Store { exchange_id, artifacts } => {
            assert_eq!(exchange_id, "x");
            assert_eq!(artifacts, snapshot(TaskState::Completed).artifacts);
            assert_eq!(render_artifacts(&artifacts), "one\ntwo");
        }
        _ => panic!("expected the artifacts"),
    }
    assert_eq!(
        ended(poll(&mut run, PollInput::Stored(Ok(())))),
        Ok(DispatchOutcome::Completed { output: "one\ntwo".into() })
    );
}

#[test]
fn polling_ends_after_its_last_poll() {
    let mut run = polling(2);
    for _ in 0..2 {
        assert!(matches!(
            poll(&mut run, PollInput::Polled(Ok(snapshot(TaskState::Working)))),
            PollAction::Sleep
        ));
        let next = poll(&mut run, PollInput::Slept);
        if let PollAction::Ended(end) = next {
            assert_eq!(end, Err(DispatchError::RecoveryNeeded));
            assert!(!run.expects(&PollInput::Slept));
            return;
        }
    }
    panic!("polling went on");
}

#[test]
fn a_poll_ends_as_the_peer_says() {
    let polled = |status: TaskState| ended(poll(&mut polling(2), PollInput::Polled(Ok(snapshot(status)))));
    let failed = |error: &str| Ok(DispatchOutcome::Failed { error: error.into() });
    assert_eq!(polled(TaskState::Failed), failed("remote_failed"));
    assert_eq!(polled(TaskState::Canceled), failed("remote_cancelled"));
    assert_eq!(
        polled(TaskState::Rejected),
        Err(DispatchError::NotAccepted { reason: "remote rejected task".into() })
    );
    let unfinished = |reason: &str| Err(DispatchError::ExecutionFailed { reason: reason.into() });
    assert_eq!(polled(TaskState::AuthRequired), unfinished("unsupported remote task state"));
    assert_eq!(
        ended(poll(&mut polling(2), PollInput::Polled(Err(A2aError::Network)))),
        unfinished("A2A network operation failed")
    );
    let missing = unfinished("remote task binding missing");
    let (mut run, _) = Polling::begin(2);
    assert_eq!(ended(poll(&mut run, PollInput::Found(Ok(None)))), missing);
    let unbound = ExchangeRecord { external_task_id: None, ..record() };
    let (mut run, _) = Polling::begin(2);
    assert_eq!(ended(poll(&mut run, PollInput::Found(Ok(Some(unbound))))), missing);
    let (mut run, _) = Polling::begin(0);
    assert_eq!(
        ended(poll(&mut run, PollInput::Found(Ok(Some(record()))))),
        Err(DispatchError::RecoveryNeeded)
    );
}

#[test]
fn methods_and_versions_are_checked() {
    assert_eq!(dispatch("message/send"), Ok(Call::Send));
    assert_eq!(dispatch("tasks/get"), Ok(Call::Get));
    assert_eq!(dispatch("tasks/cancel"), Ok(Call::Cancel));
    assert_eq!(dispatch("message/stream"), Err(A2aError::Unsupported));
    assert_eq!(require_version(PROTOCOL_VERSION), Ok(()));
    assert_eq!(require_version("9"), Err(A2aError::Unsupported));
}

#[test]
fn a_record_names_its_task() {
    assert_eq!(parse_task(&record()), Ok(TaskId::parse(TASK).expect("an id")));
    let unbound = ExchangeRecord { internal_task_id: None, ..record() };
    assert_eq!(parse_task(&unbound), Err(A2aError::RecoveryNeeded));
    let odd = ExchangeRecord { internal_task_id: Some("t".into()), ..record() };
    assert_eq!(parse_task(&odd), Err(A2aError::RecoveryNeeded));
    let uri = Part::FileUri { mime_type: "m".into(), uri: "u".into() };
    assert_eq!(text_parts(&vec![text("a"), data("1"), text("b")]), Ok("a\nb".to_owned()));
    assert_eq!(text_parts(&vec![text("a"), uri]), Err(A2aError::Unsupported));
}

fn params(parts: Vec<Part>) -> SendParams {
    SendParams {
        protocol_version: PROTOCOL_VERSION.into(),
        request_id: "r".into(),
        context_id: "c".into(),
        message: Message { message_id: "m".into(), role: Role::User, parts },
    }
}

fn serve(run: &mut A2aIngress, input: ServingInput) -> ServingAction {
    assert!(run.expects(&input));
    run.step(input)
}

fn fault(action: ServingAction) -> A2aError {
    match action {
        ServingAction::Failed(error) => error,
        _ => panic!("expected a failure"),
    }
}

fn started() -> A2aIngress {
    let target = Some(EndpointId::from_u128(7));
    let (run, first) = A2aIngress::send("p", target, Some(params(vec![text("do")])), b"{}")
        .expect("a valid request");
    match first {
        ServingAction::Reserve { request_id, hash, context_id } => {
            assert_eq!((request_id.as_str(), context_id.as_str()), ("r", "c"));
            assert_eq!(hash, hash_of(b"{}"));
        }
        _ => panic!("expected a reservation"),
    }
    run
}

#[test]
fn a_new_message_becomes_a_task() {
    let mut run = started();
    match serve(&mut run, ServingInput::Reserved(Ok(InboundReservation::New(record())))) {
        ServingAction::Store { exchange_id, message } => {
            assert_eq!(exchange_id, "x");
            assert_eq!(message, params(vec![text("do")]).message);
        }
        _ => panic!("expected the message"),
    }
    let from = derive_peer_endpoint_id("p");
    match serve(&mut run, ServingInput::Stored(Ok(2))) {
        ServingAction::StorePeer { agent_id, endpoint } => {
            assert_eq!(agent_id, "a2a-peer-p");
            assert_eq!(endpoint.id, from);
            assert_eq!(endpoint.transport, TransportType::A2a);
            assert!(endpoint.enabled);
        }
        _ => panic!("expected the peer"),
    }
    match serve(&mut run, ServingInput::PeerStored(true)) {
        ServingAction::FindConversation { external_id } => assert_eq!(external_id, "p/c"),
        _ => panic!("expected a lookup"),
    }
    let conversation = match serve(&mut run, ServingInput::Conversation(Some(None))) {
        ServingAction::InsertConversation { conversation, external_id, from: own, to } => {
            assert_eq!(external_id, "p/c");
            assert_eq!((own, to), (from, EndpointId::from_u128(7)));
            conversation
        }
        _ => panic!("expected a conversation"),
    };
    let task_id = match serve(&mut run, ServingInput::Inserted(true)) {
        ServingAction::Submit { task, context } => {
            assert_eq!(task.text, "do");
            assert_eq!(task.conversation_id, conversation);
            assert_eq!(task.root_task_id, task.task_id);
            assert_eq!((task.from_agent, task.to_agent), (from, EndpointId::from_u128(7)));
            assert_eq!(context.transport, "a2a");
            assert_eq!(context.external_event_id, "r");
            assert_eq!(context.room_id, "c");
            assert_eq!(context.reply_event_id, "m");
            task.task_id
        }
        _ => panic!("expected a task"),
    };
    let external = match serve(&mut run, ServingInput::Submitted(true)) {
        ServingAction::Bind { exchange_id, task_id: bound, external_task_id, content_bytes } => {
            assert_eq!((exchange_id.as_str(), content_bytes), ("x", 2));
            assert_eq!(bound, task_id);
            external_task_id
        }
        _ => panic!("expected a binding"),
    };
    match serve(&mut run, ServingInput::Bound(Ok(true))) {
        ServingAction::Answer(answer) => {
            assert_eq!(answer.id, external);
            assert_eq!(answer.context_id, "c");
            assert_eq!(answer.status, TaskState::Submitted);
        }
        _ => panic!("expected an answer"),
    }
}

#[test]
fn a_repeated_message_is_only_read() {
    let mut run = started();
    let cleaned = ExchangeRecord { content_cleaned: true, ..record() };
    match serve(&mut run, ServingInput::Reserved(Ok(InboundReservation::Replay(cleaned)))) {
        ServingAction::ReadEvent { task_id, cancel } => {
            assert_eq!(task_id.to_string(), TASK);
            assert!(!cancel);
        }
        _ => panic!("expected a read"),
    }
    match serve(&mut run, ServingInput::Event(Some(Some(TaskStatus::Running)))) {
        ServingAction::Answer(answer) => {
            assert_eq!(answer.id, "e");
            assert_eq!(answer.context_id, "");
            assert_eq!(answer.status, TaskState::Working);
            assert_eq!(
                answer.metadata.expect("metadata").render(),
                "{\"contentExpired\":true}"
            );
        }
        _ => panic!("expected an answer"),
    }
}

/// A store of exchanges by peer and request id.
fn reserved_in(
    rows: &[(String, String, ExchangeRecord)],
    peer: &str,
    request: &str,
    hash: &str,
) -> ServingInput {
    let existing = rows
        .iter()
        .find(|(own, id, _)| own == peer && id == request)
        .map(|(_, _, row)| row.clone());
    ServingInput::Reserved(match inbound_reservation(existing, hash) {
        Ok(Some(row)) => Ok(InboundReservation::Replay(row)),
        Ok(None) => Ok(InboundReservation::New(ExchangeRecord {
            request_hash: hash.to_owned(),
            internal_task_id: None,
            external_task_id: None,
            ..record()
        })),
        Err(error) => Err(error),
    })
}

fn sent(peer: &str, canonical: &[u8]) -> (A2aIngress, String, String) {
    let target = Some(EndpointId::from_u128(7));
    match A2aIngress::send(peer, target, Some(params(vec![text("do")])), canonical) {
        Ok((run, ServingAction::Reserve { request_id, hash, .. })) => (run, request_id, hash),
        _ => panic!("expected a reservation"),
    }
}

#[test]
fn a_request_id_stands_for_one_message_of_a_peer() {
    let mut rows = Vec::new();
    let (mut run, request, hash) = sent("p", b"{}");
    let mut row = match reserved_in(&rows, "p", &request, &hash) {
        ServingInput::Reserved(Ok(InboundReservation::New(row))) => row,
        _ => panic!("expected a new exchange"),
    };
    serve(&mut run, ServingInput::Reserved(Ok(InboundReservation::New(row.clone()))));
    serve(&mut run, ServingInput::Stored(Ok(2)));
    serve(&mut run, ServingInput::PeerStored(true));
    serve(&mut run, ServingInput::Conversation(Some(None)));
    serve(&mut run, ServingInput::Inserted(true));
    match serve(&mut run, ServingInput::Submitted(true)) {
        ServingAction::Bind { task_id, external_task_id, .. } => {
            row.internal_task_id = Some(task_id.to_string());
            row.external_task_id = Some(external_task_id);
        }
        _ => panic!("expected a binding"),
    }
    let first = match serve(&mut run, ServingInput::Bound(Ok(true))) {
        ServingAction::Answer(answer) => answer.id,
        _ => panic!("expected an answer"),
    };
    rows.push(("p".to_owned(), request, row));

    let (mut run, request, hash) = sent("p", b"{}");
    assert!(matches!(
        serve(&mut run, reserved_in(&rows, "p", &request, &hash)),
        ServingAction::ReadEvent { cancel: false, .. }
    ));
    match serve(&mut run, ServingInput::Event(Some(Some(TaskStatus::Queued)))) {
        ServingAction::Answer(answer) => assert_eq!(answer.id, first),
        _ => panic!("expected an answer"),
    }

    let (mut run, request, hash) = sent("p", b"{\"other\":1}");
    assert_eq!(
        fault(serve(&mut run, reserved_in(&rows, "p", &request, &hash))),
        A2aError::Conflict
    );

    let (mut run, request, hash) = sent("q", b"{}");
    assert!(matches!(
        serve(&mut run, reserved_in(&rows, "q", &request, &hash)),
        ServingAction::Store { .. }
    ));
}

#[test]
fn conversations_get_identities_of_their_own() {
    let inserted = || {
        let mut run = started();
        serve(&mut run, ServingInput::Reserved(Ok(InboundReservation::New(record()))));
        serve(&mut run, ServingInput::Stored(Ok(2)));
        serve(&mut run, ServingInput::PeerStored(true));
        match serve(&mut run, ServingInput::Conversation(Some(None))) {
            ServingAction::InsertConversation { conversation, .. } => conversation,
            _ => panic!("expected a conversation"),
        }
    };
    let first = inserted();
    assert_eq!(first.to_string().as_bytes()[14], b'7');
    assert_ne!(first, inserted());
}

#[test]
fn a_message_is_refused_where_a_step_fails() {
    let target = Some(EndpointId::from_u128(7));
    let begun = |params: Option<SendParams>, canonical: &[u8]| {
        A2aIngress::send("p", target, params, canonical).err()
    };
    assert_eq!(begun(None, b""), Some(A2aError::Protocol("invalid message/send params")));
    let mut odd = params(Vec::new());
    odd.protocol_version = "9".into();
    assert_eq!(begun(Some(odd), b""), Some(A2aError::Unsupported));
    let long = vec![0u8; 1_048_577];
    assert_eq!(begun(Some(params(Vec::new())), &long), Some(A2aError::TooLarge));
    assert_eq!(begun(Some(params(Vec::new())), &long[1..]), None);
    let many = (0..65).map(|_| text("")).collect::<Vec<_>>();
    assert_eq!(begun(Some(params(many)), b""), Some(A2aError::TooLarge));

    let new = || ServingInput::Reserved(Ok(InboundReservation::New(record())));
    let refused = ServingInput::Reserved(Err(A2aError::Conflict));
    assert_eq!(fault(serve(&mut started(), refused)), A2aError::Conflict);
    let (mut run, _) = A2aIngress::send("p", None, Some(params(Vec::new())), b"").expect("valid");
    serve(&mut run, new());
    assert_eq!(
        fault(serve(&mut run, ServingInput::Stored(Ok(0)))),
        A2aError::Protocol("unknown endpoint")
    );
    let mut run = started();
    serve(&mut run, new());
    serve(&mut run, ServingInput::Stored(Ok(0)));
    assert_eq!(
        fault(serve(&mut run, ServingInput::PeerStored(false))),
        A2aError::Protocol("peer persistence failed")
    );
    let looked_up = || {
        let mut run = started();
        serve(&mut run, new());
        serve(&mut run, ServingInput::Stored(Ok(0)));
        serve(&mut run, ServingInput::PeerStored(true));
        run
    };
    assert_eq!(
        fault(serve(&mut looked_up(), ServingInput::Conversation(None))),
        A2aError::Protocol("conversation lookup failed")
    );
    let mut run = looked_up();
    serve(&mut run, ServingInput::Conversation(Some(None)));
    assert!(matches!(
        serve(&mut run, ServingInput::Inserted(false)),
        ServingAction::FindConversation { .. }
    ));
    assert_eq!(
        fault(serve(&mut run, ServingInput::Conversation(Some(None)))),
        A2aError::Protocol("conversation race failed")
    );
    let known = Some(Some(ConversationId::from_u128(5)));
    let mut run = looked_up();
    assert!(matches!(
        serve(&mut run, ServingInput::Conversation(known)),
        ServingAction::Submit { .. }
    ));
    assert_eq!(
        fault(serve(&mut run, ServingInput::Submitted(false))),
        A2aError::Protocol("task admission failed")
    );
    let mut run = looked_up();
    serve(&mut run, ServingInput::Conversation(known));
    serve(&mut run, ServingInput::Submitted(true));
    assert_eq!(
        fault(serve(&mut run, ServingInput::Bound(Ok(false)))),
        A2aError::RecoveryNeeded
    );
}

#[test]
fn a_query_reads_or_cancels_a_task() {
    let query = || Some(TaskQuery { protocol_version: PROTOCOL_VERSION.into(), task_id: "e".into() });
    let (mut run, first) = A2aIngress::query("p", query(), true).expect("valid");
    match first {
        ServingAction::FindTask { external_task_id } => assert_eq!(external_task_id, "e"),
        _ => panic!("expected a lookup"),
    }
    match serve(&mut run, ServingInput::Found(Ok(Some(record())))) {
        ServingAction::ReadEvent { cancel, .. } => assert!(cancel),
        _ => panic!("expected a read"),
    }
    match serve(&mut run, ServingInput::Event(Some(None))) {
        ServingAction::Answer(answer) => {
            assert_eq!(answer.status, TaskState::Submitted);
            assert_eq!(answer.metadata, None);
        }
        _ => panic!("expected an answer"),
    }
    let (mut run, _) = A2aIngress::query("p", query(), false).expect("valid");
    assert_eq!(
        fault(serve(&mut run, ServingInput::Found(Ok(None)))),
        A2aError::Protocol("unknown task")
    );
    let (mut run, _) = A2aIngress::query("p", query(), false).expect("valid");
    serve(&mut run, ServingInput::Found(Ok(Some(record()))));
    assert_eq!(
        fault(serve(&mut run, ServingInput::Event(None))),
        A2aError::Protocol("task lookup failed")
    );
    assert_eq!(
        A2aIngress::query("p", None, false).err(),
        Some(A2aError::Protocol("invalid task query"))
    );
}

#[test]
fn only_known_peers_are_served() {
    let peers = known_peers(&vec![
        peer_entry("k2", "q", "two"),
        peer_entry("k1", "p", "one"),
        peer_entry("k3", "q", "three"),
    ]);
    assert_eq!(
        peers.iter().map(|peer| peer.id.as_str()).collect::<Vec<_>>(),
        vec!["p", "q"]
    );
    let judge = |credential: Option<&str>, endpoint: &str, version: &str| {
        authorize(&peers, credential, endpoint, version)
    };
    assert_eq!(
        judge(Some("Bearer one"), "worker", "2.0"),
        Verdict::Serve { peer: "p".into() }
    );
    assert_eq!(
        judge(Some("Bearer three"), "worker", "2.0"),
        Verdict::Serve { peer: "q".into() }
    );
    assert_eq!(judge(Some("Bearer two"), "worker", "2.0"), Verdict::Unauthorized);
    assert_eq!(judge(Some("bearer one"), "worker", "2.0"), Verdict::Unauthorized);
    assert_eq!(judge(None, "worker", "2.0"), Verdict::Unauthorized);
    assert_eq!(judge(Some("Bearer one"), "other", "2.0"), Verdict::Unauthorized);
    assert_eq!(judge(Some("Bearer one"), "worker", "1.0"), Verdict::Invalid);
}

#[test]
fn answers_carry_their_status() {
    let code = |reply: (u16, JsonRpcResponse)| {
        let error = reply.1.error.expect("an error");
        (reply.0, error.code, error.message)
    };
    let id = || Json::integer(1);
    assert_eq!(code(unauthorized(id())), (401, -32001, "unauthorized".to_owned()));
    assert_eq!(code(invalid_request(id())), (400, -32600, "invalid request".to_owned()));
    assert_eq!(
        code(respond(id(), Err(A2aError::Unsupported))),
        (200, -32601, "method not supported".to_owned())
    );
    assert_eq!(
        code(respond(id(), Err(A2aError::TooLarge))),
        (413, -32002, "request too large".to_owned())
    );
    assert_eq!(
        code(respond(id(), Err(A2aError::Conflict))),
        (400, -32602, "invalid params".to_owned())
    );
    let (status, reply) = respond(id(), Ok(Json::Null));
    assert_eq!(status, 200);
    assert_eq!(reply.jsonrpc, "2.0");
    assert_eq!(reply.id, id());
    assert_eq!(reply.result, Some(Json::Null));
    assert_eq!(reply.error, None);
}

#[test]
fn a_peers_reply_is_judged() {
    assert_eq!(judge_status(200), Ok(()));
    assert_eq!(judge_status(299), Ok(()));
    assert_eq!(judge_status(401), Err(A2aError::Unauthorized));
    assert_eq!(judge_status(302), Err(A2aError::Protocol("remote HTTP status")));
    assert_eq!(
        judge_card_status(401),
        Err(A2aError::Protocol("remote Agent Card HTTP status"))
    );
    assert_eq!(judge_length(8, 8), Ok(()));
    assert_eq!(judge_length(9, 8), Err(A2aError::TooLarge));
    let envelope = |result: Option<Json>, error: Option<JsonRpcError>| {
        envelope_result(Some(JsonRpcResponse {
            jsonrpc: "2.0".into(),
            id: Json::Null,
            result,
            error,
        }))
    };
    let error = JsonRpcError { code: 1, message: "m".into() };
    assert_eq!(envelope(Some(Json::Null), None), Ok(Json::Null));
    assert_eq!(
        envelope(Some(Json::Null), Some(error)),
        Err(A2aError::Protocol("remote JSON-RPC error"))
    );
    assert_eq!(envelope(None, None), Err(A2aError::Protocol("missing result")));
    assert_eq!(
        envelope_result(None),
        Err(A2aError::Protocol("invalid JSON-RPC response"))
    );
    assert_eq!(task_result(None), Err(A2aError::Protocol("invalid task result")));
    let request = rpc_request("tasks/get", Json::Null);
    assert_eq!((request.jsonrpc.as_str(), request.method.as_str()), ("2.0", "tasks/get"));
    let id = request.id.as_text().expect("an id");
    assert!(uuid::Uuid::parse_str(id).is_ok());
    assert_eq!(task_query("e").task_id, "e");
    assert_eq!(task_query("e").protocol_version, PROTOCOL_VERSION);
}

fn cleanup() -> CleanupPolicy {
    CleanupPolicy {
        terminal_ttl: Duration::from_secs(60),
        byte_ceiling: 100,
        low_watermark: 50,
        batch: 1,
        interval: Duration::from_secs(60),
    }
}

#[test]
fn content_is_kept_for_its_time_unless_there_is_too_much() {
    let now = Timestamp::new(1_000, 5).expect("an instant");
    assert_eq!(cutoff(&cleanup(), now, true), Ok(now));
    assert_eq!(cutoff(&cleanup(), now, false), Ok(Timestamp::new(940, 5).expect("an instant")));
    let long = CleanupPolicy { terminal_ttl: Duration::from_secs(u64::MAX), ..cleanup() };
    assert_eq!(cutoff(&long, now, true), Err(A2aError::Config("cleanup TTL out of range")));
    assert!(!under_pressure(&cleanup(), 100));
    assert!(under_pressure(&cleanup(), 101));
}

#[test]
fn startup_cleans_down_to_the_low_watermark() {
    let step = |stage, input| {
        assert!(startup_takes(stage, &input));
        startup_step(&cleanup(), stage, input)
    };
    assert!(!startup_takes(StartupStage::Done, &StartupInput::Retained(Ok(0))));
    assert!(!startup_takes(StartupStage::Cleaning, &StartupInput::Retained(Ok(0))));
    let (stage, action) = step(StartupStage::Measuring, StartupInput::Retained(Ok(51)));
    assert!(matches!(action, StartupAction::Clean));
    let (stage, action) = step(stage, StartupInput::Cleaned(Ok(1)));
    assert!(matches!(action, StartupAction::Measure));
    let (stage, action) = step(stage, StartupInput::Retained(Ok(50)));
    assert!(matches!(action, StartupAction::Measure));
    let (stage, action) = step(stage, StartupInput::Retained(Ok(50)));
    assert!(matches!(action, StartupAction::Start));
    assert_eq!(stage, StartupStage::Done);
    let (stage, _) = step(StartupStage::Cleaning, StartupInput::Cleaned(Ok(0)));
    let (_, action) = step(stage, StartupInput::Retained(Ok(101)));
    assert!(matches!(action, StartupAction::Failed(A2aError::RecoveryNeeded)));
    let (_, action) = step(stage, StartupInput::Retained(Err(A2aError::Storage)));
    assert!(matches!(action, StartupAction::Failed(A2aError::Storage)));
}

#[test]
fn a_listener_is_a_socket_or_a_path() {
    assert_eq!(listen_target("unix:/run/a2a"), Listen::Unix("/run/a2a".into()));
    assert_eq!(listen_target("tcp:127.0.0.1:1"), Listen::Tcp("127.0.0.1:1".into()));
    assert_eq!(listen_target("127.0.0.1:1"), Listen::Tcp("127.0.0.1:1".into()));
    assert_eq!(
        listen_fault(),
        A2aError::Config("listen must be a literal TCP socket or unix:path")
    );
    let card = agent_card(Some("127.0.0.1:1"), &vec!["worker".to_owned()]);
    assert_eq!(card.url, "http://127.0.0.1:1");
    assert_eq!(card.name, "guigu-agent-bridge");
    assert_eq!(card.description, "trusted-LAN A2A bridge");
    assert_eq!(card.protocol_version, PROTOCOL_VERSION);
    assert!(!card.capabilities.streaming && !card.capabilities.push_notifications);
    assert_eq!(card.skills.len(), 1);
    assert_eq!(card.skills[0].id, "worker");
    assert_eq!(card.skills[0].description, "configured bridge endpoint");
    assert_eq!(agent_card(None, &Vec::new()).url, "http+unix://local");
}

#[test]
fn exposed_endpoints_are_declared_and_enabled() {
    let mut off = declared("off", TransportType::Acp, Some("c"));
    off.declared.enabled = false;
    let registry = EndpointRegistry::from_config(&config(vec![
        declared("worker", TransportType::Acp, Some("c")),
        off,
    ]));
    let names = |name: &str| exposed_endpoints(&vec!["worker".to_owned(), name.to_owned()], &registry);
    let found = names("worker").expect("exposed");
    assert_eq!(find_endpoint(&found, "worker"), Some(derive_endpoint_id("worker")));
    assert_eq!(find_endpoint(&found, "off"), None);
    assert_eq!(names("off"), Err(A2aError::Config("exposed endpoint disabled")));
    assert_eq!(names("none"), Err(A2aError::Config("exposed endpoint missing")));
}

#[test]
fn a_client_peer_is_bound_to_what_was_resolved() {
    let entry = peer_entry("k", "p", "t");
    let url = || peer_address(&entry.peer.url).expect("an address");
    let local = || Some(vec![v4(127, 0, 0, 1)]);
    let peer = client_peer(&entry, url(), local(), trust_policy(None), 8).ok().expect("a peer");
    assert_eq!(peer.id, "p");
    assert_eq!(peer.token.expose(), "t");
    assert_eq!(peer.timeout, Duration::from_secs(30));
    assert_eq!(peer.max_response_bytes, 8);
    assert_eq!(peer.resolved, vec![v4(127, 0, 0, 1)]);
    assert_eq!(
        client_peer(&entry, url(), None, trust_policy(None), 8).err(),
        Some(A2aError::Config("peer DNS resolution failed"))
    );
    let refused = Err(A2aError::Config("private CA unavailable"));
    assert_eq!(
        client_peer(&entry, url(), local(), refused, 8).err(),
        Some(A2aError::Config("private CA unavailable"))
    );
    assert_eq!(
        client_peer(&entry, url(), Some(Vec::new()), trust_policy(None), 8).err(),
        Some(A2aError::Config("peer DNS returned no addresses"))
    );
}

#[test]
fn terminal_events_are_projected() {
    assert!(projects(TaskStatus::Completed));
    assert!(!projects(TaskStatus::Running));
    assert_eq!(projection_result(true), Ok(()));
    assert_eq!(
        projection_result(false),
        Err(ConsumerError::Failed { reason: "A2A terminal projection failed".into() })
    );
}
