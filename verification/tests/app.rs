use guigu_agent_bridge::acp::dispatcher::address_of;
use guigu_agent_bridge::acp::error::AcpError;
use guigu_agent_bridge::acp::error::Phase;
use guigu_agent_bridge::app::admission::enqueue_persisted;
use guigu_agent_bridge::app::admission::winner;
use guigu_agent_bridge::app::admission::AdmissionAction;
use guigu_agent_bridge::app::admission::AdmissionInput;
use guigu_agent_bridge::app::admission::PersistingBus;
use guigu_agent_bridge::app::admission::ReceiptOutcome;
use guigu_agent_bridge::app::dispatcher::AcpDispatcherRouter;
use guigu_agent_bridge::app::error::AppError;
use guigu_agent_bridge::app::exposition::may_listen;
use guigu_agent_bridge::app::exposition::metric_name;
use guigu_agent_bridge::app::exposition::metrics_body;
use guigu_agent_bridge::app::exposition::response;
use guigu_agent_bridge::app::exposition::route;
use guigu_agent_bridge::app::exposition::serve;
use guigu_agent_bridge::app::exposition::Gauges;
use guigu_agent_bridge::app::exposition::HealthRoute;
use guigu_agent_bridge::app::exposition::Metric;
use guigu_agent_bridge::app::exposition::PolicyLimit;
use guigu_agent_bridge::app::gateway_handoff::GatewayHandoff;
use guigu_agent_bridge::app::gateway_handoff::HandoffAction;
use guigu_agent_bridge::app::gateway_handoff::HandoffInput;
use guigu_agent_bridge::app::health::legal_matrix_transition;
use guigu_agent_bridge::app::health::HealthSnapshot;
use guigu_agent_bridge::app::health::HealthState;
use guigu_agent_bridge::app::health::MatrixFailure;
use guigu_agent_bridge::app::health::MatrixPhase;
use guigu_agent_bridge::app::health::MatrixReadinessOwner;
use guigu_agent_bridge::app::health::OwnerState;
use guigu_agent_bridge::app::health::Readiness;
use guigu_agent_bridge::app::ingress::conclude_reply;
use guigu_agent_bridge::app::ingress::message_step;
use guigu_agent_bridge::app::ingress::message_takes;
use guigu_agent_bridge::app::ingress::reply_context;
use guigu_agent_bridge::app::ingress::InboundMatrixEvent;
use guigu_agent_bridge::app::ingress::MessageAction;
use guigu_agent_bridge::app::ingress::MessageInput;
use guigu_agent_bridge::app::ingress::MessageStage;
use guigu_agent_bridge::app::ingress::ReplyContext;
use guigu_agent_bridge::app::ingress::ReplyRegistry;
use guigu_agent_bridge::app::outbox::stale_before;
use guigu_agent_bridge::app::outbox::DrainAction;
use guigu_agent_bridge::app::outbox::DrainInput;
use guigu_agent_bridge::app::outbox::OutboxDrain;
use guigu_agent_bridge::app::projection::PersistenceFirstProjection;
use guigu_agent_bridge::app::projection::ProjectionAction;
use guigu_agent_bridge::app::projection::ProjectionMetrics;
use guigu_agent_bridge::app::recovery::AdmissionRecovery;
use guigu_agent_bridge::app::recovery::EligibleAdmission;
use guigu_agent_bridge::app::recovery::RecoveryAction;
use guigu_agent_bridge::app::recovery::RecoveryInput;
use guigu_agent_bridge::app::reload::same_assembly;
use guigu_agent_bridge::app::reload::HotConfig;
use guigu_agent_bridge::app::reload::ReloadController;
use guigu_agent_bridge::app::reload::ReloadError;
use guigu_agent_bridge::app::reload::ReloadOutcome;
use guigu_agent_bridge::app::retry::DurableRetryAdmission;
use guigu_agent_bridge::app::retry::RETRY_TXN_NAMESPACE;
use guigu_agent_bridge::app::retry::RetryAction;
use guigu_agent_bridge::app::retry::RetryEvent;
use guigu_agent_bridge::app::retry::RetryInput;
use guigu_agent_bridge::app::retry::RetryReply;
use guigu_agent_bridge::app::retry::RetryTaskInput;
use guigu_agent_bridge::app::runtime::assembly_plan;
use guigu_agent_bridge::app::runtime::cleanup_policy;
use guigu_agent_bridge::app::runtime::conclude;
use guigu_agent_bridge::app::runtime::continuation_policy;
use guigu_agent_bridge::app::runtime::default_timeout;
use guigu_agent_bridge::app::runtime::insecure_peers;
use guigu_agent_bridge::app::runtime::run_step;
use guigu_agent_bridge::app::runtime::uncovered;
use guigu_agent_bridge::app::runtime::workspace_of;
use guigu_agent_bridge::app::runtime::AppStartup;
use guigu_agent_bridge::app::runtime::BuildStep;
use guigu_agent_bridge::app::runtime::RecoveryFacts;
use guigu_agent_bridge::app::runtime::RunAction;
use guigu_agent_bridge::app::runtime::RunEvent;
use guigu_agent_bridge::app::runtime::StartupAction;
use guigu_agent_bridge::app::shutdown::Part;
use guigu_agent_bridge::app::shutdown::Running;
use guigu_agent_bridge::app::shutdown::ShutdownAction;
use guigu_agent_bridge::app::shutdown::ShutdownRun;
use guigu_agent_bridge::app::shutdown::Stopped;
use guigu_agent_bridge::bus::channel::SendOutcome;
use guigu_agent_bridge::bus::error::BusError;
use guigu_agent_bridge::bus::fanout::ConsumerError;
use guigu_agent_bridge::bus::registry::derive_endpoint_id;
use guigu_agent_bridge::bus::registry::EndpointRegistry;
use guigu_agent_bridge::bus::worker::DispatchError;
use guigu_agent_bridge::config::A2aPeerConfig;
use guigu_agent_bridge::config::A2aTransportConfig;
use guigu_agent_bridge::config::AgentEndpointConfig;
use guigu_agent_bridge::config::AgentEntry;
use guigu_agent_bridge::config::BridgeConfig;
use guigu_agent_bridge::config::Config;
use guigu_agent_bridge::config::DirectEntry;
use guigu_agent_bridge::config::GatewayTransportConfig;
use guigu_agent_bridge::config::MatrixRoutesConfig;
use guigu_agent_bridge::config::MatrixTransportConfig;
use guigu_agent_bridge::config::PeerEntry;
use guigu_agent_bridge::config::RouteEntry;
use guigu_agent_bridge::config::RuntimeConfig;
use guigu_agent_bridge::config::SecretString;
use guigu_agent_bridge::config::TransportsConfig;
use guigu_agent_bridge::ids::ConversationId;
use guigu_agent_bridge::ids::EndpointId;
use guigu_agent_bridge::ids::TaskId;
use guigu_agent_bridge::models::AgentTask;
use guigu_agent_bridge::models::EndpointAddress;
use guigu_agent_bridge::models::Priority;
use guigu_agent_bridge::models::TaskStatus;
use guigu_agent_bridge::models::TransportType;
use guigu_agent_bridge::net::IpAddr;
use guigu_agent_bridge::net::SocketAddr;
use guigu_agent_bridge::path::same_path;
use guigu_agent_bridge::time::Duration;
use guigu_agent_bridge::time::Timestamp;
use tokio::sync::mpsc;

fn declared(agent_id: &str, transport: TransportType, command: Option<&str>) -> AgentEntry {
    AgentEntry {
        agent_id: agent_id.to_owned(),
        declared: AgentEndpointConfig {
            transport,
            command: command.map(|text| text.to_owned()),
            args: Vec::new(),
            enabled: true,
            workspace: Some("/tmp".to_owned()),
            additional_workspaces: Vec::new(),
            peer: None,
        },
    }
}

fn config(agents: Vec<AgentEntry>) -> Config {
    Config {
        bridge: BridgeConfig {
            database: "/tmp/bridge.db".to_owned(),
            session_root: "/tmp/sessions".to_owned(),
            max_task_depth: 8,
            max_task_hops: 16,
            default_timeout_seconds: 300,
            queue_capacity: 1024,
            event_capacity: 1024,
            shutdown_timeout_seconds: 5,
            health_bind: None,
        },
        runtime: RuntimeConfig {
            allow_nonterminal_end_turn: false,
            max_turns: 8,
            max_wall_seconds: 900,
            max_inactivity_seconds: 120,
            max_no_progress: 2,
            max_output_bytes: 1024,
            lease_ttl_seconds: 30,
        },
        transports: TransportsConfig {
            matrix: MatrixTransportConfig {
                enabled: false,
                homeserver: String::new(),
                user_id: String::new(),
                device_id: String::new(),
                access_token: SecretString::new(String::new()),
                monitor_room: String::new(),
                sync_capacity: 4,
                allowed_users: Vec::new(),
                routes: MatrixRoutesConfig {
                    aliases: Vec::new(),
                    rooms: Vec::new(),
                    direct: Vec::new(),
                },
                admin_users: Vec::new(),
                admin_rooms: Vec::new(),
            },
            a2a: A2aTransportConfig {
                enabled: false,
                listen: String::new(),
                allow_private_plaintext: false,
                max_body_bytes: 1024,
                terminal_content_ttl_seconds: 60,
                retained_bytes_ceiling: 1024,
                retained_bytes_low_watermark: 512,
                cleanup_batch: 1,
                exposed_endpoints: Vec::new(),
                peers: Vec::new(),
            },
            gateway: GatewayTransportConfig { enabled: false },
        },
        agents,
    }
}

/// 2026-09-16T10:00:00Z.
fn morning() -> Timestamp {
    Timestamp::new(1_789_552_800, 0).expect("an instant")
}

fn later(secs: i64) -> Timestamp {
    Timestamp::new(1_789_552_800 + secs, 0).expect("an instant")
}

fn worker_config() -> Config {
    config(vec![declared("recipient", TransportType::Acp, Some("agent"))])
}

fn task() -> AgentTask {
    let task_id = TaskId::generate();
    AgentTask {
        task_id,
        root_task_id: task_id,
        parent_task_id: None,
        from_agent: derive_endpoint_id("sender"),
        to_agent: derive_endpoint_id("recipient"),
        conversation_id: ConversationId::generate(),
        reply_to: None,
        text: "work".into(),
        priority: Priority::normal(),
        depth: 0,
        hops: 0,
        deadline: None,
        version: 0,
    }
}

#[test]
fn old_generation_cannot_publish_ready_after_supersession() {
    let mut owner = MatrixReadinessOwner::new();
    let old = owner.begin();
    assert!(owner.transition(old, &[MatrixPhase::Preflight], MatrixPhase::IdentityMatched));
    owner.stop();
    let current = owner.begin();

    assert!(!owner.transition(old, &[MatrixPhase::IdentityMatched], MatrixPhase::Ready));
    assert_eq!(owner.phase(), MatrixPhase::Preflight);
    assert!(owner.transition(
        current,
        &[MatrixPhase::Preflight],
        MatrixPhase::Failed(MatrixFailure::Timeout)
    ));
    assert!(!owner.transition(
        current,
        &[MatrixPhase::Failed(MatrixFailure::Timeout)],
        MatrixPhase::Ready
    ));
}

#[test]
fn required_task_exit_and_shutdown_are_terminal_for_the_generation() {
    let mut owner = MatrixReadinessOwner::new();
    let generation = owner.begin();
    assert!(owner.transition(
        generation,
        &[MatrixPhase::Preflight],
        MatrixPhase::IdentityMatched
    ));
    assert!(owner.transition(
        generation,
        &[MatrixPhase::IdentityMatched],
        MatrixPhase::StoreBound
    ));
    assert!(owner.transition(
        generation,
        &[MatrixPhase::StoreBound],
        MatrixPhase::KeyProved
    ));
    assert!(owner.transition(
        generation,
        &[MatrixPhase::KeyProved],
        MatrixPhase::Registering
    ));
    owner.fail_required_task();
    assert_eq!(
        owner.phase(),
        MatrixPhase::Failed(MatrixFailure::RequiredTaskExited)
    );
    assert!(!owner.transition(generation, &[MatrixPhase::Registering], MatrixPhase::Ready));

    owner.stop();
    assert_eq!(owner.phase(), MatrixPhase::ShuttingDown);
    owner.stopped();
    assert_eq!(owner.phase(), MatrixPhase::Stopped);
}

#[test]
fn missing_room_key_does_not_change_transport_phase() {
    let mut owner = MatrixReadinessOwner::new();
    let generation = owner.begin();
    for (from, to) in [
        (MatrixPhase::Preflight, MatrixPhase::IdentityMatched),
        (MatrixPhase::IdentityMatched, MatrixPhase::StoreBound),
        (MatrixPhase::StoreBound, MatrixPhase::KeyProved),
        (MatrixPhase::KeyProved, MatrixPhase::Registering),
        (MatrixPhase::Registering, MatrixPhase::Ready),
    ] {
        assert!(owner.transition(generation, &[from], to));
    }
    owner.record_missing_room_key();
    assert_eq!(owner.missing_room_keys(), 1);
    assert_eq!(owner.phase(), MatrixPhase::Ready);
}

#[test]
fn readiness_is_not_reached_in_one_leap() {
    assert!(!legal_matrix_transition(MatrixPhase::Preflight, MatrixPhase::Ready));
    assert!(legal_matrix_transition(MatrixPhase::Registering, MatrixPhase::Ready));
    assert_eq!(MatrixFailure::Timeout.as_log_str(), "matrix-startup-timeout");
}

#[test]
fn an_unready_bridge_is_not_told_ready() {
    let base = HealthSnapshot { live: false, readiness: Readiness::Ready, diagnostic: None };
    let mut state = HealthState::new();
    state.set_owner(OwnerState::Running);
    let told = state.snapshot(base);
    assert!(told.live);
    assert_eq!(told.readiness, Readiness::Ready);

    state.set_recovery_blocked(true);
    let told = state.snapshot(base);
    assert_eq!(told.readiness, Readiness::RecoveryBlocked);
    assert_eq!(told.diagnostic, Some("recovery-blocked"));

    state.set_recovery_blocked(false);
    state.matrix_mut().begin();
    let told = state.snapshot(base);
    assert_eq!(told.readiness, Readiness::AdapterUnavailable);
    assert_eq!(told.diagnostic, Some("matrix-not-ready"));

    state.set_owner(OwnerState::Failed);
    assert!(!state.snapshot(base).live);
}

#[test]
fn a_required_task_that_ended_is_noticed() {
    let mut state = HealthState::new();
    state.set_owner(OwnerState::Running);
    let own = state.register_required();
    let matrix = state.register_matrix_required();
    let generation = state.matrix_mut().begin();
    for (from, to) in [
        (MatrixPhase::Preflight, MatrixPhase::IdentityMatched),
        (MatrixPhase::IdentityMatched, MatrixPhase::StoreBound),
        (MatrixPhase::StoreBound, MatrixPhase::KeyProved),
        (MatrixPhase::KeyProved, MatrixPhase::Registering),
        (MatrixPhase::Registering, MatrixPhase::Ready),
    ] {
        assert!(state.matrix_mut().transition(generation, &[from], to));
    }
    assert!(state.observe());
    assert_eq!(state.matrix().phase(), MatrixPhase::Ready);
    state.matrix_required_ended(matrix);
    assert!(state.observe());
    assert_eq!(
        state.matrix().phase(),
        MatrixPhase::Failed(MatrixFailure::RequiredTaskExited)
    );
    state.required_ended(own);
    assert!(!state.observe());
    state.set_adapter_ready(true);
    state.set_insecure_a2a_peers(2);
    assert!(state.adapter_ready());
    assert_eq!(state.insecure_a2a_peers(), 2);
    assert_eq!(state.owner(), OwnerState::Running);
}

#[test]
fn queue_full_restores_ready_then_recovery_enqueues_once() {
    let registry = EndpointRegistry::from_config(&worker_config());
    let (mut tasks, mut receiver) = mpsc::channel(1);
    let task = task();
    let task_id = task.task_id;
    // What the store holds of the admission.
    let mut state = ("ready".to_owned(), 0i64);
    enqueue_persisted(&registry, &mut tasks, task.clone()).unwrap();

    let mut handoff = |revision: i64, state: &mut (String, i64)| {
        let (mut run, mut action) = GatewayHandoff::handoff(revision);
        loop {
            let input = match action {
                HandoffAction::Take { revision } => {
                    let taken = *state == ("ready".to_owned(), revision);
                    if taken {
                        *state = ("claimed".to_owned(), revision + 1);
                    }
                    HandoffInput::Taken(Some(taken))
                }
                HandoffAction::Enqueue => {
                    HandoffInput::Enqueued(enqueue_persisted(&registry, &mut tasks, task.clone()))
                }
                HandoffAction::Restore { revision } => {
                    if *state == ("claimed".to_owned(), revision) {
                        *state = ("ready".to_owned(), revision + 1);
                    }
                    HandoffInput::Restored
                }
                HandoffAction::Finished(end) => return end,
            };
            assert!(run.expects(&input));
            action = run.step(input);
        }
    };
    assert!(matches!(handoff(0, &mut state), Err(BusError::QueueFull)));
    assert_eq!(state, ("ready".to_owned(), 2));
    assert_eq!(receiver.try_recv().unwrap().task_id, task_id);
    handoff(2, &mut state).unwrap();
    assert_eq!(receiver.try_recv().unwrap().task_id, task_id);
    assert!(receiver.try_recv().is_err());
    assert_eq!(handoff(2, &mut state), Err(BusError::TaskChannelClosed));
}

#[test]
fn a_persisted_task_needs_a_usable_target() {
    let registry = EndpointRegistry::from_config(&worker_config());
    let (mut tasks, receiver) = mpsc::channel(1);
    let mut stray = task();
    stray.to_agent = EndpointId::from_u128(1);
    assert_eq!(
        enqueue_persisted(&registry, &mut tasks, stray),
        Err(BusError::UnknownTarget { endpoint_id: EndpointId::from_u128(1) })
    );
    drop(receiver);
    assert_eq!(
        enqueue_persisted(&registry, &mut tasks, task()),
        Err(BusError::TaskChannelClosed)
    );
}

fn step(run: &mut PersistingBus, input: AdmissionInput) -> AdmissionAction {
    assert!(run.expects(&input));
    run.step(input)
}

#[test]
fn a_task_is_stored_before_it_is_enqueued() {
    let registry = EndpointRegistry::from_config(&worker_config());
    let own = task();
    let timeout = Some(Duration::from_secs(300));
    let (mut run, first) =
        PersistingBus::submit(&registry, own.clone(), false, morning(), timeout).expect("a target");
    assert!(matches!(first, AdmissionAction::Reserve));
    let (stored, event) =
        match step(&mut run, AdmissionInput::Reserved(SendOutcome::Sent, later(1))) {
            AdmissionAction::Store { task, event } => (task, event),
            _ => panic!("expected the task"),
        };
    assert_eq!(stored.deadline, Some(later(300)));
    assert_eq!(stored, AgentTask { deadline: stored.deadline, ..own });
    assert_eq!((event.task_id, event.seq), (stored.task_id, 1));
    assert_eq!((event.status, event.timestamp), (TaskStatus::Queued, later(1)));
    match step(&mut run, AdmissionInput::Stored(Some(ReceiptOutcome::Inserted))) {
        AdmissionAction::Enqueue { task, event: told } => {
            assert_eq!(task, stored);
            assert_eq!(told, event);
        }
        _ => panic!("expected the queue"),
    }
    match step(&mut run, AdmissionInput::Emitted(Ok(()))) {
        AdmissionAction::Admitted(task) => assert_eq!(task, stored),
        _ => panic!("expected the end"),
    }
}

#[test]
fn a_repeated_event_makes_no_task() {
    let registry = EndpointRegistry::from_config(&worker_config());
    let begun = || {
        let (run, first) =
            PersistingBus::submit(&registry, task(), true, morning(), None).expect("a target");
        assert!(matches!(first, AdmissionAction::FindReceipt));
        run
    };
    let before = task();
    let mut run = begun();
    let receipt = Some(Some(before.task_id.to_string()));
    match step(&mut run, AdmissionInput::Receipt(receipt)) {
        AdmissionAction::Read { task_id } => assert_eq!(task_id, before.task_id),
        _ => panic!("expected a read"),
    }
    match step(&mut run, AdmissionInput::Winner(Some(before.clone()))) {
        AdmissionAction::Admitted(task) => assert_eq!(task, before),
        _ => panic!("expected the end"),
    }
    let odd = AdmissionInput::Receipt(Some(Some("odd".into())));
    assert!(matches!(
        step(&mut begun(), odd),
        AdmissionAction::Failed(BusError::TaskChannelClosed)
    ));
    let mut run = begun();
    assert!(matches!(
        step(&mut run, AdmissionInput::Receipt(Some(None))),
        AdmissionAction::Reserve
    ));
    assert!(matches!(
        step(&mut run, AdmissionInput::Reserved(SendOutcome::Full, morning())),
        AdmissionAction::Failed(BusError::QueueFull)
    ));
    assert_eq!(winner(true, Some(Some(before.task_id.to_string()))), Ok(Some(before.task_id)));
    assert_eq!(winner(true, Some(None)), Ok(None));
    assert_eq!(winner(true, None), Err(BusError::TaskChannelClosed));
    assert_eq!(winner(false, Some(None)), Err(BusError::TaskChannelClosed));
}

#[test]
fn a_task_goes_to_the_dispatcher_of_its_endpoint() {
    let id = derive_endpoint_id("recipient");
    let router = AcpDispatcherRouter::new().with(id, 1).with(id, 2);
    assert_eq!(router.endpoint(id), Ok(&2));
    assert_eq!(
        router.endpoint(EndpointId::from_u128(1)),
        Err(DispatchError::NotAccepted { reason: "ACP endpoint dispatcher unavailable".into() })
    );
}

#[test]
fn failures_of_the_bridge_render_their_words() {
    for (error, words) in [
        (AppError::Config, "application configuration failed"),
        (AppError::Storage, "application storage failed"),
        (AppError::Runtime, "application runtime control failed"),
        (AppError::Matrix, "application Matrix adapter failed"),
        (AppError::Assembly("why"), "application assembly failed: why"),
        (AppError::Health, "application health listener failed"),
        (AppError::Reload(ReloadError::Policy), "application reload failed"),
        (AppError::Shutdown, "application shutdown signal failed"),
    ] {
        assert_eq!(error.to_string(), words);
    }
    assert_eq!(ReloadError::Config.to_string(), "configuration reload failed");
    assert_eq!(ReloadError::Policy.to_string(), "configuration policy is invalid");
    assert_eq!(ReloadError::Stopping.to_string(), "configuration reload is stopping");
}

#[test]
fn metrics_are_counts_and_gauges() {
    let gauges = Gauges {
        active_leases: 1,
        expired_leases: 2,
        recovery_needed_leases: 3,
        ready_turns: 4,
        in_flight_turns: 5,
        recovery_backlog: 6,
        projection_failures: 7,
        a2a_insecure_peers: 8,
        matrix_missing_room_keys: u64::MAX,
    };
    let counts = vec![
        (Metric::TurnStarted, 0),
        (Metric::PolicyExhausted(PolicyLimit::NoProgress), 12),
    ];
    assert_eq!(
        metrics_body(&counts, &gauges),
        "guigu_runtime_total{kind=\"turn_started\"} 0\n\
         guigu_runtime_total{kind=\"policy_no_progress\"} 12\n\
         guigu_runtime_active_leases 1\n\
         guigu_runtime_expired_leases 2\n\
         guigu_runtime_recovery_needed_leases 3\n\
         guigu_runtime_ready_turns 4\n\
         guigu_runtime_in_flight_turns 5\n\
         guigu_runtime_recovery_backlog 6\n\
         guigu_runtime_projection_failures 7\n\
         guigu_runtime_a2a_insecure_peers 8\n\
         guigu_runtime_matrix_missing_room_keys 18446744073709551615\n"
    );
    assert_eq!(metric_name(Metric::LeaseBusy), "lease_busy");
}

#[test]
fn health_requests_are_routed_by_their_first_line() {
    assert_eq!(route(b"GET /live HTTP/1.1\r\nHost: x\r\n\r\n"), HealthRoute::Live);
    assert_eq!(route(b"GET /ready HTTP/1.0"), HealthRoute::Ready);
    assert_eq!(route(b"GET /metrics HTTP/1.1\n"), HealthRoute::Metrics);
    assert_eq!(route(b"GET /live HTTP/2\r\n"), HealthRoute::NotFound);
    assert_eq!(route(b"POST /live HTTP/1.1\r\n"), HealthRoute::NotAllowed);
    assert_eq!(route(&[0xff, 0xfe]), HealthRoute::NotAllowed);
    assert_eq!(route(b""), HealthRoute::BadRequest);
    assert_eq!(route(&vec![b'x'; 4096]), HealthRoute::NotAllowed);
    assert_eq!(route(&vec![b'x'; 4097]), HealthRoute::BadRequest);
}

#[test]
fn health_answers_carry_their_length() {
    let ask = |route, live, readiness| serve(route, live, readiness, "m\n".into());
    assert_eq!(ask(HealthRoute::Live, true, Readiness::Ready), (200, "live=true\n".into()));
    assert_eq!(ask(HealthRoute::Live, false, Readiness::Ready), (503, "live=false\n".into()));
    assert_eq!(ask(HealthRoute::Ready, true, Readiness::Ready), (200, "ready=true\n".into()));
    assert_eq!(
        ask(HealthRoute::Ready, true, Readiness::StoreUnavailable),
        (503, "ready=false\n".into())
    );
    assert_eq!(ask(HealthRoute::Metrics, false, Readiness::Ready), (200, "m\n".into()));
    assert_eq!(ask(HealthRoute::NotFound, true, Readiness::Ready), (404, "not_found\n".into()));
    assert_eq!(
        ask(HealthRoute::NotAllowed, true, Readiness::Ready),
        (405, "method_not_allowed\n".into())
    );
    assert_eq!(
        response(400, "bad_request\n"),
        "HTTP/1.1 400 Bad Request\r\nContent-Type: text/plain\r\nContent-Length: 12\r\n\
         Connection: close\r\n\r\nbad_request\n"
    );
    assert!(response(503, "").starts_with("HTTP/1.1 503 Service Unavailable\r\n"));
    assert!(may_listen(&SocketAddr { ip: IpAddr::V4(0x7f00_0001), port: 1 }));
    assert!(!may_listen(&SocketAddr { ip: IpAddr::V4(0x0a00_0001), port: 1 }));
}

fn context(room: &str) -> ReplyContext {
    ReplyContext { room_id: room.into(), thread_root: None, event_id: "e".into() }
}

#[test]
fn the_oldest_reply_makes_room() {
    let ids: Vec<TaskId> = (1..5).map(TaskId::from_u128).collect();
    let mut replies = ReplyRegistry::new(2);
    replies.insert(ids[0], context("a"));
    replies.insert(ids[1], context("b"));
    replies.insert(ids[0], context("c"));
    assert_eq!(replies.get(ids[0]), Some(&context("c")));
    replies.insert(ids[2], context("d"));
    assert_eq!(replies.len(), 2);
    assert_eq!(replies.get(ids[0]), None, "entered first, replaced or not");
    assert_eq!(replies.take(ids[1]), Some(context("b")));
    assert_eq!(replies.take(ids[1]), None);
    assert_eq!(ReplyRegistry::default().len(), 0);
}

#[test]
fn an_answer_is_sent_once() {
    let id = TaskId::from_u128(1);
    let mut replies = ReplyRegistry::new(2);
    replies.insert(id, context("a"));
    assert_eq!(conclude_reply(&mut replies, id, Some(false)), Ok(()));
    assert_eq!(replies.len(), 1);
    assert_eq!(
        conclude_reply(&mut replies, id, None),
        Err(ConsumerError::Failed { reason: "terminal Matrix reply failed".into() })
    );
    assert_eq!(replies.len(), 0);
}

#[test]
fn a_message_is_answered_where_it_was_sent() {
    let event = InboundMatrixEvent {
        event_id: "e".into(),
        room_id: "r".into(),
        thread_root: Some("t".into()),
        sender: "s".into(),
        body: "b".into(),
    };
    assert_eq!(
        reply_context(&event),
        ReplyContext {
            room_id: "r".into(),
            thread_root: Some("t".into()),
            event_id: "e".into()
        }
    );
}

#[test]
fn a_message_becomes_a_task_or_is_dropped() {
    let id = TaskId::from_u128(1);
    let (stage, action) =
        message_step(MessageStage::AwaitAdmin, MessageInput::Admin { ordinary: true });
    assert_eq!(action, MessageAction::ResolveConversation);
    assert!(message_takes(stage, &MessageInput::Conversation(true)));
    assert!(!message_takes(stage, &MessageInput::Denied));
    assert!(!message_takes(MessageStage::Done, &MessageInput::Denied));
    let (stage, action) = message_step(stage, MessageInput::Conversation(true));
    assert_eq!(action, MessageAction::Route);
    assert_eq!(
        message_step(stage, MessageInput::Routed(id)),
        (MessageStage::Done, MessageAction::Remember(id))
    );
    assert_eq!(
        message_step(stage, MessageInput::Unrouted),
        (MessageStage::Done, MessageAction::Drop)
    );
    let (stage, action) = message_step(stage, MessageInput::Forbidden);
    assert_eq!(action, MessageAction::Deny);
    assert_eq!(
        message_step(stage, MessageInput::Denied),
        (MessageStage::Done, MessageAction::Drop)
    );
    assert_eq!(
        message_step(MessageStage::AwaitAdmin, MessageInput::Admin { ordinary: false }),
        (MessageStage::Done, MessageAction::Drop)
    );
    assert_eq!(
        message_step(MessageStage::AwaitConversation, MessageInput::Conversation(false)),
        (MessageStage::Done, MessageAction::Drop)
    );
}

#[test]
fn a_row_is_marked_after_it_was_sent() {
    let (mut run, first) = OutboxDrain::new(64);
    assert_eq!(first, DrainAction::Claim(64));
    let script = [
        (DrainInput::Claimed(Some(3)), DrainAction::Send(0)),
        (DrainInput::Sent(true), DrainAction::Mark(0)),
        (DrainInput::Marked(Some(true)), DrainAction::Send(1)),
        (DrainInput::Sent(false), DrainAction::Send(2)),
        (DrainInput::Sent(true), DrainAction::Mark(2)),
        (DrainInput::Marked(Some(false)), DrainAction::Drained(1)),
    ];
    for (input, expected) in script {
        assert!(run.expects(&input));
        assert_eq!(run.step(input), expected);
    }
    let (mut run, _) = OutboxDrain::new(1);
    assert_eq!(run.step(DrainInput::Claimed(None)), DrainAction::Failed);
    let (mut run, _) = OutboxDrain::new(1);
    assert_eq!(run.step(DrainInput::Claimed(Some(0))), DrainAction::Drained(0));
    assert_eq!(stale_before(later(300)), Some(morning()));
}

#[test]
fn every_consumer_gets_a_stored_event() {
    let mut metrics = ProjectionMetrics::new();
    let (mut run, first) = PersistenceFirstProjection::new(2);
    assert_eq!(first, ProjectionAction::Persist);
    assert_eq!(run.persisted(Ok(())), ProjectionAction::Consume(0));
    assert_eq!(run.consumed(false, &mut metrics), ProjectionAction::Consume(1));
    assert_eq!(
        run.consumed(true, &mut metrics),
        ProjectionAction::Report(Err(ConsumerError::Failed {
            reason: "one or more external projections failed".into()
        }))
    );
    assert_eq!(metrics.failures(), 1);
    let lost = || Err(ConsumerError::Failed { reason: "lost".into() });
    let (mut run, _) = PersistenceFirstProjection::new(2);
    assert_eq!(run.persisted(lost()), ProjectionAction::Report(lost()));
    let (mut run, _) = PersistenceFirstProjection::new(0);
    assert_eq!(run.persisted(Ok(())), ProjectionAction::Report(Ok(())));
    assert_eq!(ProjectionMetrics::default(), ProjectionMetrics::new());
}

fn recover(run: &mut AdmissionRecovery, input: RecoveryInput) -> RecoveryAction {
    assert!(run.expects(&input));
    run.step(input)
}

#[test]
fn stored_admissions_are_claimed_before_they_are_enqueued() {
    let own = task();
    let eligible = |revision: i64| EligibleAdmission {
        task_id: own.task_id.to_string(),
        revision,
    };
    let (mut run, first) = AdmissionRecovery::begin(vec![eligible(4), eligible(7)]);
    assert!(matches!(first, RecoveryAction::Read(id) if id == own.task_id));
    assert!(matches!(
        recover(&mut run, RecoveryInput::Task(Ok(Some(own.clone())))),
        RecoveryAction::AskGateway(id) if id == own.task_id.to_string()
    ));
    assert!(matches!(
        recover(&mut run, RecoveryInput::Gateway(Some(false))),
        RecoveryAction::ReadState(id) if id == own.task_id.to_string()
    ));
    assert!(matches!(
        recover(&mut run, RecoveryInput::State(Some(Some("ready".into())))),
        RecoveryAction::Claim { revision: 4, .. }
    ));
    match recover(&mut run, RecoveryInput::Claimed(Some(true))) {
        RecoveryAction::Enqueue(task) => assert_eq!(task, own),
        _ => panic!("expected the queue"),
    }
    assert!(matches!(
        recover(&mut run, RecoveryInput::Enqueued(false)),
        RecoveryAction::Release { revision: 5, .. }
    ));
    assert!(matches!(recover(&mut run, RecoveryInput::Released), RecoveryAction::Read(_)));
    recover(&mut run, RecoveryInput::Task(Ok(Some(own.clone()))));
    recover(&mut run, RecoveryInput::Gateway(Some(false)));
    assert!(matches!(
        recover(&mut run, RecoveryInput::State(Some(Some("claimed".into())))),
        RecoveryAction::Reclaim { revision: 7, .. }
    ));
    assert!(matches!(
        recover(&mut run, RecoveryInput::Claimed(Some(false))),
        RecoveryAction::Recovered
    ));
}

#[test]
fn admissions_are_asked_for_under_the_text_that_is_stored() {
    let own = task();
    let stored = own.task_id.to_string().to_uppercase();
    let admission = EligibleAdmission { task_id: stored.clone(), revision: 4 };
    let (mut run, first) = AdmissionRecovery::begin(vec![admission]);
    assert!(matches!(first, RecoveryAction::Read(id) if id == own.task_id));
    assert!(matches!(
        recover(&mut run, RecoveryInput::Task(Ok(Some(own.clone())))),
        RecoveryAction::AskGateway(id) if id == stored
    ));
    assert!(matches!(
        recover(&mut run, RecoveryInput::Gateway(Some(false))),
        RecoveryAction::ReadState(id) if id == stored
    ));
    assert!(matches!(
        recover(&mut run, RecoveryInput::State(Some(Some("ready".into())))),
        RecoveryAction::Claim { task_id, revision: 4 } if task_id == stored
    ));
    recover(&mut run, RecoveryInput::Claimed(Some(true)));
    assert!(matches!(
        recover(&mut run, RecoveryInput::Enqueued(false)),
        RecoveryAction::Release { task_id, revision: 5 } if task_id == stored
    ));
}

#[test]
fn recovery_goes_through_the_gateway_or_fails() {
    let own = task();
    let eligible =
        || vec![EligibleAdmission { task_id: own.task_id.to_string(), revision: 4 }];
    let (mut run, _) = AdmissionRecovery::begin(eligible());
    recover(&mut run, RecoveryInput::Task(Ok(Some(own.clone()))));
    match recover(&mut run, RecoveryInput::Gateway(Some(true))) {
        RecoveryAction::HandOver { task, revision } => {
            assert_eq!(task, own);
            assert_eq!(revision, 4);
        }
        _ => panic!("expected the gateway"),
    }
    assert!(matches!(
        recover(&mut run, RecoveryInput::HandedOver(false)),
        RecoveryAction::Failed(AppError::Runtime)
    ));
    let (mut run, _) = AdmissionRecovery::begin(eligible());
    assert!(matches!(
        recover(&mut run, RecoveryInput::Task(Err(AppError::Storage))),
        RecoveryAction::Failed(AppError::Storage)
    ));
    let (mut run, _) = AdmissionRecovery::begin(eligible());
    assert!(matches!(
        recover(&mut run, RecoveryInput::Task(Ok(None))),
        RecoveryAction::Recovered
    ));
    let odd = vec![EligibleAdmission { task_id: "odd".into(), revision: 0 }];
    assert!(matches!(
        AdmissionRecovery::begin(odd).1,
        RecoveryAction::Failed(AppError::Runtime)
    ));
}

#[test]
fn only_routing_and_permissions_change_under_way() {
    let mut controller = ReloadController::new(worker_config()).ok().expect("a controller");
    assert_eq!(controller.snapshot().generation, 1);
    assert_eq!(controller.snapshot().hot.monitor_room, None);

    let mut changed = worker_config();
    changed.transports.matrix.monitor_room = "!room".into();
    changed.transports.matrix.allowed_users = vec!["@u".to_owned()];
    changed.transports.matrix.routes.aliases =
        vec![RouteEntry { key: "a".into(), agent: "recipient".into() }];
    assert_eq!(
        controller.reload(Some(changed.clone())),
        Ok(ReloadOutcome::Applied { generation: 2 })
    );
    assert_eq!(controller.snapshot().hot.monitor_room, Some("!room".to_owned()));
    assert_eq!(controller.snapshot().hot.permissions.users, vec!["@u".to_owned()]);

    let mut other = changed.clone();
    other.bridge.queue_capacity = 7;
    assert!(!same_assembly(&changed, &other));
    assert_eq!(controller.reload(Some(other)), Ok(ReloadOutcome::RestartRequired));
    assert_eq!(controller.snapshot().generation, 2);

    let mut wrong = changed.clone();
    wrong.transports.matrix.routes.direct =
        vec![DirectEntry { room: "r".into(), agents: vec!["nobody".to_owned()] }];
    assert_eq!(controller.reload(Some(wrong)), Err(ReloadError::Policy));
    assert_eq!(controller.reload(None), Err(ReloadError::Config));
    controller.stop();
    assert_eq!(controller.reload(Some(changed)), Err(ReloadError::Stopping));
    assert_eq!(controller.snapshot().generation, 2);
}

#[test]
fn an_endpoint_without_an_address_cannot_be_started() {
    let registry = EndpointRegistry::from_config(&config(vec![
        declared("reached", TransportType::Acp, Some("agent")),
        declared("bare", TransportType::Acp, None),
    ]));
    let target = |name: &str| registry.get(derive_endpoint_id(name)).expect("declared");
    assert_eq!(
        address_of(target("reached")),
        Ok(&EndpointAddress::Acp { command: "agent".into(), args: Vec::new() })
    );
    assert_eq!(
        address_of(target("bare")),
        Err(AcpError::UnsupportedAddress { phase: Phase::Spawn })
    );
}

#[test]
fn paths_are_compared_by_their_components() {
    assert!(same_path("/a/b", "/a//b"));
    assert!(same_path("/a/b", "/a/b/"));
    assert!(same_path("/a/b", "/a/./b"));
    assert!(same_path("/a/b", "/./a/b/."));
    assert!(same_path("a/b", "a/./b"));
    assert!(same_path("/", "//"));
    assert!(same_path("", ""));
    assert!(!same_path("/a/b", "a/b"));
    assert!(!same_path("./a", "a"));
    assert!(same_path("./a", "././a"));
    assert!(!same_path("/a/b/../b", "/a/b"));
    assert!(!same_path("/a/b", "/a/bc"));
    assert!(!same_path("", "."));
    assert!(!same_path("/", ""));
    for (a, b) in [
        ("/a/b", "/a//b"),
        ("./a", "a"),
        ("a/.", "a"),
        ("a/..", "a"),
        ("/", "//."),
        ("", "."),
        (".", "./."),
        ("..", "../"),
    ] {
        assert_eq!(
            same_path(a, b),
            std::path::Path::new(a) == std::path::Path::new(b),
            "{a} and {b}"
        );
    }
}

#[test]
fn a_path_that_is_written_otherwise_needs_no_restart() {
    let mut before = worker_config();
    before.bridge.database = "/w/db".into();
    before.bridge.session_root = "/w/sessions".into();
    before.agents[0].declared.workspace = Some("/w/b".into());
    before.agents[0].declared.additional_workspaces = vec!["/w/c".into()];
    let mut after = before.clone();
    after.bridge.database = "/w//db".into();
    after.bridge.session_root = "/w/sessions/".into();
    after.agents[0].declared.workspace = Some("/w/./b".into());
    after.agents[0].declared.additional_workspaces = vec!["/w/c/.".into()];
    assert!(same_assembly(&before, &after));
    let mut controller = ReloadController::new(before.clone()).ok().expect("a controller");
    assert!(matches!(
        controller.reload(Some(after)),
        Ok(ReloadOutcome::Applied { generation: 2 })
    ));
    let mut moved = before.clone();
    moved.agents[0].declared.additional_workspaces = vec!["/w/c/..".into()];
    assert!(!same_assembly(&before, &moved));
    moved = before.clone();
    moved.bridge.database = "w/db".into();
    assert!(!same_assembly(&before, &moved));
}

#[test]
fn routes_go_to_usable_agents() {
    let mut off = declared("off", TransportType::Acp, Some("c"));
    off.declared.enabled = false;
    let with_room = |agent: &str| {
        let mut config = config(vec![
            declared("recipient", TransportType::Acp, Some("agent")),
            off.clone(),
            declared("bare", TransportType::Acp, None),
        ]);
        config.transports.matrix.routes.rooms =
            vec![RouteEntry { key: "r".into(), agent: agent.into() }];
        let registry = EndpointRegistry::from_config(&config);
        HotConfig::build(&config, &registry).err()
    };
    assert_eq!(with_room("recipient"), None);
    assert_eq!(with_room("off"), Some(ReloadError::Policy));
    assert_eq!(with_room("bare"), Some(ReloadError::Policy));
    assert_eq!(with_room("none"), Some(ReloadError::Policy));
}

fn retry() -> (DurableRetryAdmission, RetryTaskInput, AgentTask) {
    let source = AgentTask { depth: 3, hops: 4, version: 9, ..task() };
    let event = RetryEvent {
        event_id: "$e".into(),
        room_id: "!r".into(),
        thread_root: Some("$t".into()),
        sender: "@admin".into(),
    };
    let (run, first) =
        DurableRetryAdmission::admit_retry(&event, &source, morning(), Duration::from_secs(60))
            .expect("a deadline");
    match first {
        RetryAction::Store(input) => (run, input, source),
        _ => panic!("expected the request"),
    }
}

fn go(run: &mut DurableRetryAdmission, input: RetryInput) -> RetryAction {
    assert!(run.expects(&input));
    run.step(input)
}

#[test]
fn a_retry_is_a_new_task_of_its_own() {
    let (_, input, source) = retry();
    assert_ne!(input.task.task_id, source.task_id);
    assert_eq!(input.task.root_task_id, input.task.task_id);
    assert_eq!(input.task.text, source.text);
    assert_eq!(input.task.deadline, Some(later(60)));
    assert_eq!((input.task.depth, input.task.hops, input.task.version), (0, 0, 0));
    assert_eq!(input.source_task_id, source.task_id);
    assert_eq!(input.transport, "matrix");
    assert_eq!(input.admin_actor, "@admin");
    assert_eq!(input.body, format!("retry=admitted task_id={}", input.task.task_id.to_string()));
    assert_eq!(
        input.stable_txn_id,
        uuid::Uuid::new_v5(&uuid::Uuid::from_u128(RETRY_TXN_NAMESPACE), b"matrix\0!r\0$e")
            .to_string()
    );
}

#[test]
fn a_retry_is_claimed_enqueued_and_answered() {
    let (mut run, stored, _) = retry();
    assert!(matches!(
        go(&mut run, RetryInput::Stored(Some(ReceiptOutcome::Inserted))),
        RetryAction::Claim { revision: 0, .. }
    ));
    match go(&mut run, RetryInput::Claimed(Some(true))) {
        RetryAction::Enqueue(task) => assert_eq!(task, stored.task),
        _ => panic!("expected the queue"),
    }
    assert!(matches!(
        go(&mut run, RetryInput::Enqueued(false)),
        RetryAction::Release { task_id, revision: 1 } if task_id == stored.task.task_id
    ));
    assert!(matches!(go(&mut run, RetryInput::Released), RetryAction::Drain));
    assert!(matches!(
        go(&mut run, RetryInput::Drained),
        RetryAction::Reply(RetryReply::OutboxOwned)
    ));
    let replay = |task_id: Option<String>, result_code: &str| {
        go(
            &mut retry().0,
            RetryInput::Stored(Some(ReceiptOutcome::Replay {
                task_id,
                result_code: result_code.into(),
            })),
        )
    };
    assert!(matches!(replay(Some("t".into()), "admitted"), RetryAction::Drain));
    match replay(None, "admitted") {
        RetryAction::Reply(reply) => {
            assert_eq!(reply, RetryReply::Immediate("retry=admitted".into()))
        }
        _ => panic!("expected an answer"),
    }
    assert!(matches!(
        go(&mut retry().0, RetryInput::Stored(None)),
        RetryAction::Reply(RetryReply::Unavailable)
    ));
    let (mut run, _, _) = retry();
    go(&mut run, RetryInput::Stored(Some(ReceiptOutcome::Inserted)));
    assert!(matches!(go(&mut run, RetryInput::Claimed(Some(false))), RetryAction::Drain));
}

#[test]
fn a_retry_needs_a_deadline() {
    let event = RetryEvent {
        event_id: "$e".into(),
        room_id: "!r".into(),
        thread_root: None,
        sender: "@admin".into(),
    };
    let past = Duration::from_secs(u64::MAX);
    assert!(DurableRetryAdmission::admit_retry(&event, &task(), morning(), past).is_none());
}

fn facts() -> RecoveryFacts {
    RecoveryFacts {
        owns_runtime: true,
        admissions_blocked: false,
        eligible: 4,
        queue_capacity: 4,
        unfinished: 0,
        ready_turns: 0,
        ambiguous_turns: 0,
        active_leases: 0,
        recovery_needed_leases: 0,
        recovery_backlog: 0,
    }
}

#[test]
fn what_is_ambiguous_blocks_the_bridge() {
    assert!(!facts().is_blocked());
    assert!(RecoveryFacts { owns_runtime: false, ..facts() }.is_blocked());
    assert!(RecoveryFacts { admissions_blocked: true, ..facts() }.is_blocked());
    assert!(RecoveryFacts { eligible: 5, ..facts() }.is_blocked());
    assert!(RecoveryFacts { unfinished: 1, ..facts() }.is_blocked());
    assert!(RecoveryFacts { ready_turns: 1, ..facts() }.is_blocked());
    assert!(RecoveryFacts { ambiguous_turns: 1, ..facts() }.is_blocked());
    assert!(RecoveryFacts { active_leases: 1, ..facts() }.is_blocked());
    assert!(RecoveryFacts { recovery_needed_leases: 1, ..facts() }.is_blocked());
    assert!(RecoveryFacts { recovery_backlog: 1, ..facts() }.is_blocked());
    let ids: Vec<TaskId> = (1..4).map(TaskId::from_u128).collect();
    assert_eq!(uncovered(&ids, &vec![ids[1].to_string()]), vec![ids[0], ids[2]]);
}

#[test]
fn the_bridge_is_assembled_in_order() {
    let mut full = config(vec![
        declared("a", TransportType::Acp, Some("c")),
        declared("b", TransportType::A2a, None),
        declared("c", TransportType::Acp, Some("c")),
    ]);
    full.transports.a2a.enabled = true;
    full.transports.matrix.enabled = true;
    full.transports.gateway.enabled = true;
    full.bridge.health_bind = Some(SocketAddr { ip: IpAddr::V4(0x7f00_0001), port: 1 });
    assert_eq!(
        assembly_plan(&full, false),
        vec![
            BuildStep::TellRecovery { blocked: false },
            BuildStep::Dispatcher(0),
            BuildStep::Dispatcher(2),
            BuildStep::A2aPeers,
            BuildStep::Queue,
            BuildStep::GatewayCheck,
            BuildStep::Recover,
            BuildStep::MatrixRestore,
            BuildStep::Health,
            BuildStep::MatrixStart,
            BuildStep::Worker,
            BuildStep::Broadcaster,
            BuildStep::A2aCleanup,
            BuildStep::A2aListen,
            BuildStep::AdapterReady,
            BuildStep::OwnerRunning,
        ]
    );
    assert_eq!(
        assembly_plan(&full, true),
        vec![
            BuildStep::TellRecovery { blocked: true },
            BuildStep::Health,
            BuildStep::OwnerRunning,
        ]
    );
    assert_eq!(
        assembly_plan(&config(Vec::new()), false),
        vec![
            BuildStep::TellRecovery { blocked: false },
            BuildStep::Queue,
            BuildStep::Recover,
            BuildStep::Worker,
            BuildStep::Broadcaster,
            BuildStep::AdapterReady,
            BuildStep::OwnerRunning,
        ]
    );
}

#[test]
fn a_start_that_fails_is_rolled_back() {
    let (mut run, first) = AppStartup::begin(&config(Vec::new()), &facts());
    assert_eq!(first, StartupAction::Build(BuildStep::TellRecovery { blocked: false }));
    assert_eq!(run.step(Ok(())), StartupAction::Build(BuildStep::Queue));
    assert_eq!(run.step(Ok(())), StartupAction::Build(BuildStep::Recover));
    assert_eq!(
        run.step(Err(AppError::Runtime)),
        StartupAction::RollBack { error: AppError::Runtime, close_record: true }
    );
    let (mut run, _) = AppStartup::begin(&config(Vec::new()), &facts());
    run.step(Ok(()));
    assert_eq!(
        run.step(Err(AppError::Runtime)),
        StartupAction::RollBack {
            error: AppError::Assembly("default timeout is out of range"),
            close_record: true
        }
    );
    let blocked = RecoveryFacts { owns_runtime: false, ..facts() };
    let (mut run, first) = AppStartup::begin(&config(Vec::new()), &blocked);
    assert_eq!(first, StartupAction::Build(BuildStep::TellRecovery { blocked: true }));
    assert_eq!(run.step(Ok(())), StartupAction::Build(BuildStep::OwnerRunning));
    assert_eq!(run.step(Ok(())), StartupAction::Running);
}

#[test]
fn settings_are_read_from_the_configuration() {
    let mut config = worker_config();
    assert_eq!(workspace_of(&config.agents[0]), Ok(&"/tmp".to_owned()));
    config.agents[0].declared.workspace = None;
    assert_eq!(
        workspace_of(&config.agents[0]),
        Err(AppError::Assembly("enabled ACP workspace missing"))
    );
    assert_eq!(default_timeout(&config), Ok(Duration::from_secs(300)));
    config.bridge.default_timeout_seconds = u64::MAX;
    assert_eq!(
        default_timeout(&config),
        Err(AppError::Assembly("default timeout is out of range"))
    );
    let policy = cleanup_policy(&config);
    assert_eq!(policy.terminal_ttl, Duration::from_secs(60));
    assert_eq!((policy.byte_ceiling, policy.low_watermark, policy.batch), (1024, 512, 1));
    assert_eq!(policy.interval, Duration::from_secs(60));
    config.transports.a2a.retained_bytes_ceiling = u64::MAX;
    assert_eq!(cleanup_policy(&config).byte_ceiling, -1);
    let policy = continuation_policy(&config);
    assert_eq!(policy.max_turns, 8);
    assert_eq!(policy.max_wall_time, Duration::from_secs(900));
    assert_eq!(policy.max_inactivity, Duration::from_secs(120));
    assert_eq!(policy.lease_ttl, Duration::from_secs(30));
    config.transports.a2a.peers = vec![PeerEntry {
        key: "k".into(),
        peer: A2aPeerConfig {
            url: String::new(),
            expected_peer_id: String::new(),
            token: SecretString::new(String::new()),
            allowed_targets: Vec::new(),
            private_ca: None,
            danger_accept_invalid_certs: true,
        },
    }];
    assert_eq!(insecure_peers(&config), 0);
    config.transports.a2a.enabled = true;
    assert_eq!(insecure_peers(&config), 1);
}

#[test]
fn a_running_bridge_reloads_or_stops() {
    assert_eq!(run_step(RunEvent::HangUp), RunAction::Reload);
    assert_eq!(run_step(RunEvent::Shutdown { waited: true }), RunAction::Stop(Ok(())));
    assert_eq!(run_step(RunEvent::SignalsEnded), RunAction::Stop(Ok(())));
    let failed = || Err(AppError::Shutdown);
    assert_eq!(run_step(RunEvent::Shutdown { waited: false }), RunAction::Stop(failed()));
    assert_eq!(run_step(RunEvent::SignalsUnavailable), RunAction::Stop(failed()));
    assert_eq!(conclude(failed(), Err(AppError::Health)), failed());
    assert_eq!(conclude(Ok(()), Err(AppError::Health)), Err(AppError::Health));
    assert_eq!(conclude(Ok(()), Ok(())), Ok(()));
}

fn everything() -> Running {
    Running {
        runtime: true,
        ingress: true,
        bus: true,
        worker: true,
        broadcaster: true,
        acp: true,
        a2a_server: true,
        a2a_cleanup: true,
        gateway_cleanup: true,
        outbox: true,
        gateway: true,
        matrix_sync: true,
        health: true,
        pool: true,
    }
}

/// Stop the bridge, each part as `how` says, and return the parts in order.
fn stop_all(
    running: Running,
    how: impl Fn(Part) -> Stopped,
) -> (Vec<Part>, Result<(), AppError>) {
    let (mut run, mut action) = ShutdownRun::begin(running);
    let mut parts = Vec::new();
    loop {
        match action {
            ShutdownAction::Stop(part) => {
                parts.push(part);
                action = run.step(how(part));
            }
            ShutdownAction::Finished(end) => {
                assert!(run.is_finished());
                return (parts, end);
            }
        }
    }
}

#[test]
fn every_running_part_is_stopped_in_order() {
    let (parts, end) = stop_all(everything(), |_| Stopped::Cleanly);
    assert_eq!(end, Ok(()));
    assert_eq!(
        parts,
        vec![
            Part::RuntimeStopping,
            Part::Reload,
            Part::Ingress,
            Part::Bus,
            Part::Worker,
            Part::Broadcaster,
            Part::Acp,
            Part::A2aServer,
            Part::A2aCleanup,
            Part::GatewayCleanup,
            Part::Outbox,
            Part::Gateway,
            Part::MatrixSync,
            Part::Health,
            Part::OwnerStopped,
            Part::RuntimeStopped,
            Part::Pool,
        ]
    );
}

#[test]
fn an_unclean_stop_keeps_the_record_open() {
    let blamed = |failing: Part, how: Stopped| {
        let (parts, end) =
            stop_all(everything(), |part| if part == failing { how } else { Stopped::Cleanly });
        assert!(end.is_err());
        assert_eq!(parts.contains(&Part::RuntimeStopped), failing == Part::RuntimeStopped);
        assert_eq!(parts.last(), Some(&Part::Pool));
        end.unwrap_err()
    };
    assert_eq!(blamed(Part::Worker, Stopped::Failed), AppError::Assembly("worker failed"));
    assert_eq!(blamed(Part::Worker, Stopped::Lost), AppError::Assembly("worker join failed"));
    assert_eq!(
        blamed(Part::Worker, Stopped::TimedOut),
        AppError::Assembly("worker shutdown timed out")
    );
    assert_eq!(
        blamed(Part::Broadcaster, Stopped::TimedOut),
        AppError::Assembly("event drain timed out")
    );
    assert_eq!(blamed(Part::Health, Stopped::Failed), AppError::Health);
    assert_eq!(blamed(Part::RuntimeStopped, Stopped::Failed), AppError::Runtime);
    let (_, end) = stop_all(everything(), |_| Stopped::Failed);
    assert_eq!(end, Err(AppError::Assembly("worker failed")));
}
