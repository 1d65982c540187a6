use guigu_agent_bridge::agents::mock::DeliverBehavior;
use guigu_agent_bridge::agents::mock::ExecuteBehavior;
use guigu_agent_bridge::agents::mock::MockAgent;
use guigu_agent_bridge::agents::mock::MockCall;
use guigu_agent_bridge::agents::mock::MockReply;
use guigu_agent_bridge::agents::mock::MockRule;
use guigu_agent_bridge::agents::mock::MockStage;
use guigu_agent_bridge::agents::mock::ReplySource;
use guigu_agent_bridge::agents::mock::DEFAULT_OUTPUT;
use guigu_agent_bridge::bus::registry::derive_endpoint_id;
use guigu_agent_bridge::bus::registry::EndpointRegistry;
use guigu_agent_bridge::bus::worker::DispatchError;
use guigu_agent_bridge::bus::worker::DispatchOutcome;
use guigu_agent_bridge::bus::worker::DispatchRequest;
use guigu_agent_bridge::config::A2aTransportConfig;
use guigu_agent_bridge::config::AgentEndpointConfig;
use guigu_agent_bridge::config::AgentEntry;
use guigu_agent_bridge::config::BridgeConfig;
use guigu_agent_bridge::config::Config;
use guigu_agent_bridge::config::GatewayTransportConfig;
use guigu_agent_bridge::config::MatrixRoutesConfig;
use guigu_agent_bridge::config::MatrixTransportConfig;
use guigu_agent_bridge::config::RuntimeConfig;
use guigu_agent_bridge::config::SecretString;
use guigu_agent_bridge::config::TransportsConfig;
use guigu_agent_bridge::ids::ConversationId;
use guigu_agent_bridge::ids::DeliveryId;
use guigu_agent_bridge::ids::EndpointId;
use guigu_agent_bridge::ids::TaskId;
use guigu_agent_bridge::models::AgentTask;
use guigu_agent_bridge::models::Priority;
use guigu_agent_bridge::models::TransportType;

fn declared(agent_id: &str, transport: TransportType, command: Option<&str>) -> AgentEntry {
    AgentEntry {
        agent_id: agent_id.to_owned(),
        declared: AgentEndpointConfig {
            transport,
            command: command.map(|text| text.to_owned()),
            args: Vec::new(),
            enabled: true,
            workspace: Some("/tmp".to_owned()),
            additional_workspaces: Vec::new(),
            peer: None,
        },
    }
}

fn config(agents: Vec<AgentEntry>) -> Config {
    Config {
        bridge: BridgeConfig {
            database: "/tmp/bridge.db".to_owned(),
            session_root: "/tmp/sessions".to_owned(),
            max_task_depth: 8,
            max_task_hops: 16,
            default_timeout_seconds: 300,
            queue_capacity: 1024,
            event_capacity: 1024,
            shutdown_timeout_seconds: 5,
            health_bind: None,
        },
        runtime: RuntimeConfig {
            allow_nonterminal_end_turn: false,
            max_turns: 8,
            max_wall_seconds: 900,
            max_inactivity_seconds: 120,
            max_no_progress: 2,
            max_output_bytes: 1024,
            lease_ttl_seconds: 30,
        },
        transports: TransportsConfig {
            matrix: MatrixTransportConfig {
                enabled: false,
                homeserver: String::new(),
                user_id: String::new(),
                device_id: String::new(),
                access_token: SecretString::new(String::new()),
                monitor_room: String::new(),
                sync_capacity: 4,
                allowed_users: Vec::new(),
                routes: MatrixRoutesConfig {
                    aliases: Vec::new(),
                    rooms: Vec::new(),
                    direct: Vec::new(),
                },
                admin_users: Vec::new(),
                admin_rooms: Vec::new(),
            },
            a2a: A2aTransportConfig {
                enabled: false,
                listen: String::new(),
                allow_private_plaintext: false,
                max_body_bytes: 1024,
                terminal_content_ttl_seconds: 60,
                retained_bytes_ceiling: 1024,
                retained_bytes_low_watermark: 512,
                cleanup_batch: 1,
                exposed_endpoints: Vec::new(),
                peers: Vec::new(),
            },
            gateway: GatewayTransportConfig { enabled: false },
        },
        agents,
    }
}

struct Harness {
    task: AgentTask,
    registry: EndpointRegistry,
}

impl Harness {
    fn new(text: &str) -> Self {
        let mut worker = declared("worker", TransportType::Acp, Some("worker-acp"));
        worker.declared.args = vec!["--stdio".to_owned(), "--token=super-secret".to_owned()];
        let task_id = TaskId::generate();
        Self {
            task: AgentTask {
                task_id,
                root_task_id: task_id,
                parent_task_id: None,
                from_agent: EndpointId::generate(),
                to_agent: derive_endpoint_id("worker"),
                conversation_id: ConversationId::generate(),
                reply_to: None,
                text: text.into(),
                priority: Priority::normal(),
                depth: 0,
                hops: 0,
                deadline: None,
                version: 0,
            },
            registry: EndpointRegistry::from_config(&config(vec![worker])),
        }
    }

    fn request_with(&self, attempt: u32) -> DispatchRequest<'_> {
        DispatchRequest {
            task: &self.task,
            target: self
                .registry
                .validate_target(self.task.to_agent)
                .expect("the target is declared, enabled and addressable"),
            delivery_id: DeliveryId::generate(),
            attempt,
        }
    }

    fn request(&self) -> DispatchRequest<'_> {
        self.request_with(1)
    }
}

fn complete(mock: &mut MockAgent, request: DispatchRequest<'_>) -> String {
    match mock.execute(&request).expect("execute must not fail") {
        DispatchOutcome::Completed { output } => output,
        other => panic!("expected a Completed outcome, got {other:?}"),
    }
}

#[test]
fn the_default_reply_accepts_and_completes() {
    let harness = Harness::new("do the thing");
    let mut mock = MockAgent::new();

    mock.deliver(&harness.request()).expect("accepted");
    let output = complete(&mut mock, harness.request());

    assert_eq!(output, DEFAULT_OUTPUT);
    assert_eq!(
        mock.calls()
            .iter()
            .map(|call| call.source)
            .collect::<Vec<_>>(),
        [ReplySource::Default, ReplySource::Default],
        "an unscripted call is recorded as such, never silently"
    );
    assert_eq!(
        mock.describe(),
        "MockAgent { by_task: 0, by_text: 0, by_attempt: 0, calls: 2 }"
    );
}

#[test]
fn default_and_new_agree() {
    let harness = Harness::new("do the thing");
    assert_eq!(
        complete(&mut MockAgent::default(), harness.request()),
        DEFAULT_OUTPUT
    );
}

#[test]
fn the_convenience_constructors_configure_the_expected_stages() {
    assert_eq!(
        *MockAgent::completing("done").default_reply(),
        MockReply::completed("done")
    );
    assert_eq!(
        *MockAgent::refusing("nope").default_reply(),
        MockReply {
            deliver: DeliverBehavior::Refuse {
                reason: "nope".into()
            },
            execute: ExecuteBehavior::Complete {
                output: DEFAULT_OUTPUT.into()
            },
        },
        "a refused delivery never reaches execute, so its half is inert"
    );
    assert_eq!(
        *MockAgent::reporting_failure("bad output").default_reply(),
        MockReply {
            deliver: DeliverBehavior::Accept,
            execute: ExecuteBehavior::ReportFailure {
                error: "bad output".into()
            },
        }
    );
    assert_eq!(
        *MockAgent::failing_execution("crashed").default_reply(),
        MockReply {
            deliver: DeliverBehavior::Accept,
            execute: ExecuteBehavior::Fail {
                reason: "crashed".into()
            },
        }
    );
}

#[test]
fn a_task_id_rule_beats_a_text_rule_beats_an_attempt_rule() {
    let harness = Harness::new("match-me");
    let mut mock = MockAgent::new()
        .on_attempt(1, MockReply::completed("by-attempt"))
        .on_text("match-me".to_owned(), MockReply::completed("by-text"))
        .on_task(harness.task.task_id, MockReply::completed("by-id"));

    assert_eq!(complete(&mut mock, harness.request()), "by-id");
    assert_eq!(mock.calls()[0].source, ReplySource::TaskId);

    let same_text = Harness::new("match-me");
    assert_eq!(complete(&mut mock, same_text.request()), "by-text");
    assert_eq!(mock.calls()[1].source, ReplySource::Text);

    let other = Harness::new("something else");
    assert_eq!(complete(&mut mock, other.request()), "by-attempt");
    assert_eq!(mock.calls()[2].source, ReplySource::Attempt);

    assert_eq!(complete(&mut mock, other.request_with(2)), DEFAULT_OUTPUT);
    assert_eq!(mock.calls()[3].source, ReplySource::Default);
}

#[test]
fn precedence_does_not_depend_on_registration_order() {
    let harness = Harness::new("match-me");
    let mut reversed = MockAgent::new()
        .on_task(harness.task.task_id, MockReply::completed("by-id"))
        .on_text("match-me".to_owned(), MockReply::completed("by-text"))
        .on_attempt(1, MockReply::completed("by-attempt"));

    assert_eq!(complete(&mut reversed, harness.request()), "by-id");
    assert_eq!(reversed.calls()[0].source, ReplySource::TaskId);
}

#[test]
fn rules_of_the_same_kind_use_registration_order() {
    let harness = Harness::new("match-me");
    let mut mock = MockAgent::new()
        .on_text("match-me".to_owned(), MockReply::completed("first"))
        .on_text("match-me".to_owned(), MockReply::completed("second"));

    assert_eq!(complete(&mut mock, harness.request()), "first");
}

#[test]
fn rules_can_also_be_scripted_as_data() {
    let harness = Harness::new("match-me");
    let mut mock = MockAgent::new()
        .on(MockRule::Attempt(1), MockReply::completed("by-attempt"))
        .on(
            MockRule::Text("match-me".into()),
            MockReply::completed("by-text"),
        );

    assert_eq!(complete(&mut mock, harness.request()), "by-text");
    assert_eq!(mock.calls()[0].source, ReplySource::Text);
}

#[test]
fn an_attempt_rule_drives_both_stages_of_that_attempt() {
    let harness = Harness::new("do the thing");
    let mut mock = MockAgent::new().on_attempt(1, MockReply::refused("handshake lost"));

    let error = mock
        .deliver(&harness.request())
        .expect_err("the attempt rule refuses");
    assert_eq!(
        error,
        DispatchError::NotAccepted {
            reason: "handshake lost".into()
        }
    );
    assert_eq!(
        mock.calls()[0].source,
        ReplySource::Attempt,
        "the refusal came from the attempt rule"
    );
}

#[test]
fn calls_are_recorded_in_order_with_their_identity() {
    let harness = Harness::new("do the thing");
    let mut mock = MockAgent::completing("done");

    let first = harness.request_with(1);
    let (delivery_id, attempt) = (first.delivery_id, first.attempt);
    mock.deliver(&first).expect("accepted");
    let second = harness.request_with(1);
    mock.execute(&second).expect("completed");

    let calls = mock.calls();
    assert_eq!(calls.len(), 2);
    assert_eq!(calls[0].stage, MockStage::Deliver);
    assert_eq!(calls[0].task_id, harness.task.task_id);
    assert_eq!(calls[0].delivery_id, delivery_id);
    assert_eq!(calls[0].attempt, attempt);
    assert_eq!(calls[0].text, "do the thing");
    assert_eq!(calls[1].stage, MockStage::Execute);

    assert_eq!(mock.deliver_calls().len(), 1);
    assert_eq!(mock.execute_calls().len(), 1);
    assert_eq!(mock.call_count(), 2);
}

#[test]
fn calls_is_a_snapshot_that_later_calls_do_not_mutate() {
    let harness = Harness::new("do the thing");
    let mut mock = MockAgent::new();

    mock.deliver(&harness.request()).expect("accepted");
    let snapshot = mock.calls();

    mock.execute(&harness.request()).expect("completed");

    assert_eq!(snapshot.len(), 1, "the snapshot is owned, not a view");
    assert_eq!(mock.calls().len(), 2);
}

#[test]
fn a_refusal_replays_its_reason_verbatim_without_the_target_address() {
    let harness = Harness::new("do the thing");
    let mut mock = MockAgent::refusing("mock refusal");

    let error = mock
        .deliver(&harness.request())
        .expect_err("the default reply refuses");
    let rendered = error.to_string();

    assert!(
        rendered.contains("mock refusal"),
        "the configured reason is replayed: {rendered}"
    );
    for leak in ["worker-acp", "--stdio", "super-secret", "token"] {
        assert!(
            !rendered.contains(leak),
            "the address must never be rendered, found {leak:?} in {rendered}"
        );
    }
}

#[test]
fn a_terminal_failure_replays_its_error_verbatim() {
    let harness = Harness::new("do the thing");
    let mut mock = MockAgent::reporting_failure("adapter said no");

    let outcome = mock.execute(&harness.request()).expect("executed");
    assert_eq!(
        outcome,
        DispatchOutcome::Failed {
            error: "adapter said no".into()
        }
    );
}

#[test]
fn an_execution_failure_replays_its_reason_verbatim() {
    let harness = Harness::new("do the thing");
    let mut mock = MockAgent::failing_execution("connection dropped");

    let error = mock
        .execute(&harness.request())
        .expect_err("execution failed");
    assert_eq!(
        error,
        DispatchError::ExecutionFailed {
            reason: "connection dropped".into()
        }
    );
    assert_eq!(
        error.to_string(),
        "execution failed after acceptance: connection dropped"
    );
}

#[test]
fn extreme_and_empty_inputs_do_not_panic() {
    let harness = Harness::new("");
    let mut mock = MockAgent::new().on_text(String::new(), MockReply::completed("empty text"));

    assert_eq!(complete(&mut mock, harness.request_with(0)), "empty text");
    assert_eq!(
        complete(&mut mock, harness.request_with(u32::MAX)),
        "empty text"
    );
    assert_eq!(mock.call_count(), 2);
}

#[test]
fn debug_reports_counts_and_never_the_configured_reason() {
    let mock =
        MockAgent::new().on_text("do the thing".to_owned(), MockReply::refused("token=secret"));

    let rendered = mock.describe();
    assert!(!rendered.contains("secret"), "got: {rendered}");
    assert!(rendered.contains("by_text: 1"), "got: {rendered}");
    assert!(rendered.contains("calls: 0"), "got: {rendered}");
}

#[test]
fn mock_handles_are_send_sync_and_object_safe() {
    fn assert_send_sync<T: Send + Sync>() {}
    assert_send_sync::<MockAgent>();
    assert_send_sync::<MockCall>();
}
