use guigu_agent_bridge::bus::control::Cancellation;
use guigu_agent_bridge::bus::error::BusError;
use guigu_agent_bridge::bus::registry::derive_endpoint_id;
use guigu_agent_bridge::bus::registry::EndpointRegistry;
use guigu_agent_bridge::bus::transition::gate;
use guigu_agent_bridge::bus::transition::Gate;
use guigu_agent_bridge::bus::transition::Raced;
use guigu_agent_bridge::bus::transition::RunAction;
use guigu_agent_bridge::bus::transition::RunInput;
use guigu_agent_bridge::bus::transition::RunSettings;
use guigu_agent_bridge::bus::transition::TaskRun;
use guigu_agent_bridge::bus::worker::Backoff;
use guigu_agent_bridge::bus::worker::DispatchError;
use guigu_agent_bridge::bus::worker::DispatchOutcome;
use guigu_agent_bridge::bus::worker::DispatcherRegistry;
use guigu_agent_bridge::bus::worker::FinalizeResult;
use guigu_agent_bridge::bus::worker::LifecycleResult;
use guigu_agent_bridge::bus::worker::QueueLeaseContext;
use guigu_agent_bridge::bus::worker::RetryPolicy;
use guigu_agent_bridge::bus::worker::WorkerConfig;
use guigu_agent_bridge::bus::worker::WorkerError;
use guigu_agent_bridge::config::A2aTransportConfig;
use guigu_agent_bridge::config::AgentEndpointConfig;
use guigu_agent_bridge::config::AgentEntry;
use guigu_agent_bridge::config::BridgeConfig;
use guigu_agent_bridge::config::Config;
use guigu_agent_bridge::config::GatewayTransportConfig;
use guigu_agent_bridge::config::MatrixRoutesConfig;
use guigu_agent_bridge::config::MatrixTransportConfig;
use guigu_agent_bridge::config::RuntimeConfig;
use guigu_agent_bridge::config::SecretString;
use guigu_agent_bridge::config::TransportsConfig;
use guigu_agent_bridge::ids::ConversationId;
use guigu_agent_bridge::ids::DeliveryId;
use guigu_agent_bridge::ids::EndpointId;
use guigu_agent_bridge::ids::TaskId;
use guigu_agent_bridge::models::AgentTask;
use guigu_agent_bridge::models::Priority;
use guigu_agent_bridge::models::TaskEventPayload;
use guigu_agent_bridge::models::TransportType;
use guigu_agent_bridge::time::Duration;
use guigu_agent_bridge::time::Timestamp;

fn at(secs: i64) -> Timestamp {
    Timestamp::new(secs, 0).expect("an instant")
}

fn task(deadline: Option<i64>) -> AgentTask {
    let task_id = TaskId::generate();
    AgentTask {
        task_id,
        root_task_id: task_id,
        parent_task_id: None,
        from_agent: EndpointId::generate(),
        to_agent: EndpointId::generate(),
        conversation_id: ConversationId::generate(),
        reply_to: None,
        text: "work".to_owned(),
        priority: Priority::normal(),
        depth: 0,
        hops: 0,
        deadline: deadline.map(at),
        version: 0,
    }
}

fn settings(max_attempts: u32, backoff: Backoff) -> RunSettings {
    RunSettings {
        retry: RetryPolicy { max_attempts, backoff },
        cancellation: true,
        timer: true,
        lifecycle: false,
        prepared: false,
    }
}

fn take(run: &mut TaskRun, cancellation: &mut Cancellation, input: RunInput) -> RunAction {
    assert!(run.accepts(&input));
    run.step(cancellation, at(1), input)
}

fn emitted(action: RunAction) -> (u64, TaskEventPayload) {
    match action {
        RunAction::Emit(event) => (event.seq, event.payload),
        other => panic!("expected an event, got {other:?}"),
    }
}

fn refused() -> RunInput {
    RunInput::Delivered(Raced::Done(Err(DispatchError::NotAccepted { reason: "busy".into() })))
}

fn completed() -> RunInput {
    RunInput::Executed(Raced::Done(Ok(DispatchOutcome::Completed { output: "done".into() })))
}

fn config(agents: Vec<AgentEntry>) -> Config {
    Config {
        bridge: BridgeConfig {
            database: "/tmp/bridge.db".to_owned(),
            session_root: "/tmp/sessions".to_owned(),
            max_task_depth: 8,
            max_task_hops: 16,
            default_timeout_seconds: 300,
            queue_capacity: 1024,
            event_capacity: 1024,
            shutdown_timeout_seconds: 5,
            health_bind: None,
        },
        runtime: RuntimeConfig {
            allow_nonterminal_end_turn: false,
            max_turns: 8,
            max_wall_seconds: 900,
            max_inactivity_seconds: 120,
            max_no_progress: 2,
            max_output_bytes: 1024,
            lease_ttl_seconds: 30,
        },
        transports: TransportsConfig {
            matrix: MatrixTransportConfig {
                enabled: false,
                homeserver: String::new(),
                user_id: String::new(),
                device_id: String::new(),
                access_token: SecretString::new(String::new()),
                monitor_room: String::new(),
                sync_capacity: 4,
                allowed_users: Vec::new(),
                routes: MatrixRoutesConfig {
                    aliases: Vec::new(),
                    rooms: Vec::new(),
                    direct: Vec::new(),
                },
                admin_users: Vec::new(),
                admin_rooms: Vec::new(),
            },
            a2a: A2aTransportConfig {
                enabled: false,
                listen: String::new(),
                allow_private_plaintext: false,
                max_body_bytes: 1024,
                terminal_content_ttl_seconds: 60,
                retained_bytes_ceiling: 1024,
                retained_bytes_low_watermark: 512,
                cleanup_batch: 1,
                exposed_endpoints: Vec::new(),
                peers: Vec::new(),
            },
            gateway: GatewayTransportConfig { enabled: false },
        },
        agents,
    }
}

fn declared(agent_id: &str, transport: TransportType, command: Option<&str>) -> AgentEntry {
    AgentEntry {
        agent_id: agent_id.to_owned(),
        declared: AgentEndpointConfig {
            transport,
            command: command.map(|text| text.to_owned()),
            args: Vec::new(),
            enabled: true,
            workspace: None,
            additional_workspaces: Vec::new(),
            peer: None,
        },
    }
}

fn registry() -> EndpointRegistry {
    let agents = vec![
        declared("worker", TransportType::Acp, Some("worker-acp")),
        declared("peer", TransportType::A2a, None),
    ];
    EndpointRegistry::from_config(&config(agents))
}

#[test]
fn a_task_is_judged_before_it_is_dispatched() {
    let registry = registry();
    let dispatchers = DispatcherRegistry::new().with(TransportType::Acp, 7u8);
    let limits = WorkerConfig { cancellation: true, ..WorkerConfig::default() };
    let mut cancellation = Cancellation::new();
    let mut work = task(None);
    work.to_agent = derive_endpoint_id("worker");
    match gate(&work, &registry, &dispatchers, &limits, &cancellation, at(1)) {
        Gate::Open { target, dispatcher } => {
            assert_eq!((target.agent_id(), *dispatcher), ("worker", 7));
        }
        Gate::Blocked(payload) => panic!("blocked: {payload:?}"),
    }
    let blocked = |work: &AgentTask, dispatchers: &DispatcherRegistry<u8>, cancellation: &Cancellation| {
        match gate(work, &registry, dispatchers, &limits, cancellation, at(5)) {
            Gate::Blocked(payload) => payload,
            Gate::Open { .. } => panic!("expected a block"),
        }
    };
    let bare = DispatcherRegistry::new();
    assert_eq!(
        blocked(&work, &bare, &cancellation),
        TaskEventPayload::Failed { error: "no dispatcher registered for transport Acp".into() }
    );
    let mut lost = work.clone();
    lost.to_agent = EndpointId::from_u128(9);
    assert!(matches!(
        blocked(&lost, &dispatchers, &cancellation),
        TaskEventPayload::Failed { .. }
    ));
    let mut deep = lost.clone();
    deep.depth = 9;
    let complaint = limits.limits.violation(&deep).expect("too deep");
    assert_eq!(
        blocked(&deep, &dispatchers, &cancellation),
        TaskEventPayload::Failed { error: complaint },
        "limits come before the target"
    );
    let mut late = deep.clone();
    late.deadline = Some(at(5));
    assert_eq!(
        blocked(&late, &dispatchers, &cancellation),
        TaskEventPayload::TimedOut { deadline: at(5) },
        "the deadline comes before limits"
    );
    cancellation.cancel(late.task_id, "stop");
    assert_eq!(
        blocked(&late, &dispatchers, &cancellation),
        TaskEventPayload::Cancelled { reason: "stop".into() },
        "a cancellation comes before the deadline"
    );
}

#[test]
fn a_blocked_task_is_told_once() {
    let mut cancellation = Cancellation::new();
    let payload = TaskEventPayload::Failed { error: "no".into() };
    let plain = settings(3, Backoff::Immediate);
    let (mut run, action) = TaskRun::blocked(&task(None), plain, payload.clone(), at(1));
    assert_eq!(emitted(action), (2, payload));
    let input = RunInput::Emitted(Err(BusError::EventSinkClosed));
    let action = take(&mut run, &mut cancellation, input);
    assert!(matches!(
        action,
        RunAction::Return(Err(WorkerError::EventStreamClosed { seq: 2, .. }))
    ));
}

#[test]
fn a_task_that_succeeds_is_told_in_order() {
    let mut cancellation = Cancellation::new();
    let (mut run, action) =
        TaskRun::begin(&task(None), settings(1, Backoff::Immediate), &cancellation, at(1));
    let (seq, payload) = emitted(action);
    assert_eq!(seq, 2);
    let TaskEventPayload::Dispatched { delivery_id: told, attempt: 1 } = payload else {
        panic!("expected a first attempt, got {payload:?}");
    };
    let action = take(&mut run, &mut cancellation, RunInput::Emitted(Ok(())));
    let RunAction::Deliver { delivery_id, attempt: 1 } = action else {
        panic!("expected a delivery, got {action:?}");
    };
    assert_eq!(delivery_id, told);
    let action = take(&mut run, &mut cancellation, RunInput::Delivered(Raced::Done(Ok(()))));
    assert_eq!(emitted(action), (3, TaskEventPayload::Running { started_at: at(1) }));
    let action = take(&mut run, &mut cancellation, RunInput::Emitted(Ok(())));
    let RunAction::Execute { delivery_id, attempt: 1 } = action else {
        panic!("expected an execution, got {action:?}");
    };
    assert_eq!(delivery_id, told);
    let action = take(&mut run, &mut cancellation, completed());
    assert_eq!(emitted(action), (4, TaskEventPayload::Completed { output: "done".into() }));
    let action = take(&mut run, &mut cancellation, RunInput::Emitted(Ok(())));
    assert!(matches!(action, RunAction::Return(Ok(()))));
}

#[test]
fn every_attempt_carries_the_identity_drawn_for_it() {
    let ids: Vec<DeliveryId> = (1..9).map(DeliveryId::from_u128).collect();
    let mut cancellation = Cancellation::new();
    let work = task(None);
    let settings = settings(2, Backoff::Immediate);
    let (mut run, action) =
        TaskRun::begin_drawn(&work, settings, &cancellation, at(1), ids[0]);
    assert_eq!(
        emitted(action),
        (2, TaskEventPayload::Dispatched { delivery_id: ids[0], attempt: 1 })
    );
    let action = run.step_drawn(&mut cancellation, at(1), RunInput::Emitted(Ok(())), ids[1]);
    assert!(matches!(action, RunAction::Deliver { delivery_id, attempt: 1 } if delivery_id == ids[0]));
    let action = run.step_drawn(&mut cancellation, at(1), refused(), ids[2]);
    assert_eq!(
        emitted(action),
        (3, TaskEventPayload::Dispatched { delivery_id: ids[2], attempt: 2 })
    );
    let action = run.step_drawn(&mut cancellation, at(1), RunInput::Emitted(Ok(())), ids[3]);
    assert!(matches!(action, RunAction::Deliver { delivery_id, attempt: 2 } if delivery_id == ids[2]));
    let action = run.step_drawn(&mut cancellation, at(1), refused(), ids[4]);
    assert!(matches!(emitted(action), (4, TaskEventPayload::Failed { .. })), "no attempt is left");
}

#[test]
fn attempts_have_identities_of_their_own() {
    let mut cancellation = Cancellation::new();
    let (mut run, mut action) =
        TaskRun::begin(&task(None), settings(3, Backoff::Immediate), &cancellation, at(1));
    let mut told = Vec::new();
    for expected in 1..=3u32 {
        let (_, payload) = emitted(action);
        let TaskEventPayload::Dispatched { delivery_id, attempt } = payload else {
            panic!("expected an attempt, got {payload:?}");
        };
        assert_eq!(attempt, expected);
        assert!(!told.contains(&delivery_id), "each attempt carries a fresh delivery id");
        told.push(delivery_id);
        take(&mut run, &mut cancellation, RunInput::Emitted(Ok(())));
        action = take(&mut run, &mut cancellation, refused());
    }
    assert!(matches!(emitted(action), (5, TaskEventPayload::Failed { .. })));
}

#[test]
fn a_retry_waits_for_its_backoff() {
    let mut cancellation = Cancellation::new();
    let backoff = Backoff::Fixed(Duration::from_secs(5));
    let (mut run, _) = TaskRun::begin(&task(None), settings(2, backoff), &cancellation, at(1));
    take(&mut run, &mut cancellation, RunInput::Emitted(Ok(())));
    let action = take(&mut run, &mut cancellation, refused());
    assert!(matches!(action, RunAction::WaitUntil(until) if until == at(6)));
    let action = take(&mut run, &mut cancellation, RunInput::Waited(Raced::Done(())));
    assert!(matches!(emitted(action), (3, TaskEventPayload::Dispatched { attempt: 2, .. })));
}

#[test]
fn an_unknown_acceptance_is_not_tried_again() {
    let mut cancellation = Cancellation::new();
    let (mut run, _) =
        TaskRun::begin(&task(None), settings(3, Backoff::Immediate), &cancellation, at(1));
    take(&mut run, &mut cancellation, RunInput::Emitted(Ok(())));
    let unknown = RunInput::Delivered(Raced::Done(Err(DispatchError::AcceptanceUnknown)));
    let action = take(&mut run, &mut cancellation, unknown);
    let error = DispatchError::AcceptanceUnknown.to_string();
    assert_eq!(emitted(action), (3, TaskEventPayload::Failed { error }));
}

#[test]
fn a_cancelled_or_late_task_is_not_dispatched() {
    let work = task(None);
    let mut cancellation = Cancellation::new();
    cancellation.activate(work.task_id);
    cancellation.cancel(work.task_id, "not needed");
    let (mut run, action) =
        TaskRun::begin(&work, settings(1, Backoff::Immediate), &cancellation, at(1));
    assert_eq!(emitted(action), (2, TaskEventPayload::Cancelled { reason: "not needed".into() }));
    let action = take(&mut run, &mut cancellation, RunInput::Emitted(Ok(())));
    assert!(matches!(action, RunAction::Return(Ok(()))));
    assert!(cancellation.is_retired(work.task_id));

    let late = task(Some(1));
    let (_, action) = TaskRun::begin(
        &late,
        settings(1, Backoff::Immediate),
        &Cancellation::new(),
        at(1),
    );
    assert_eq!(emitted(action), (2, TaskEventPayload::TimedOut { deadline: at(1) }));
}

#[test]
fn a_durable_task_is_claimed_recorded_marked_and_renewed() {
    let mut cancellation = Cancellation::new();
    let durable = RunSettings { lifecycle: true, ..settings(1, Backoff::Immediate) };
    let (mut run, action) = TaskRun::begin(&task(None), durable, &cancellation, at(1));
    assert!(matches!(action, RunAction::ClaimQueue));
    let lease = QueueLeaseContext {
        resource_key: "task".into(),
        runtime_owner: "runtime".into(),
        owner_fence: 3,
        expires_at: "later".into(),
    };
    let action = take(&mut run, &mut cancellation, RunInput::Claimed(Ok(Some(lease.clone()))));
    let RunAction::Record(recorded) = action else {
        panic!("expected a record, got {action:?}");
    };
    assert_eq!(run.lease(), Some(&lease));
    let input = RunInput::Recorded(Ok(LifecycleResult::Committed));
    let action = take(&mut run, &mut cancellation, input);
    assert!(matches!(action, RunAction::Emit(event) if event == recorded));
    let action = take(&mut run, &mut cancellation, RunInput::Emitted(Ok(())));
    assert!(matches!(action, RunAction::MarkSendStarted));
    let action = take(&mut run, &mut cancellation, RunInput::SendMarked(Ok(())));
    assert!(matches!(action, RunAction::RenewLease));
    let action = take(&mut run, &mut cancellation, RunInput::Renewed(Ok(())));
    assert!(matches!(action, RunAction::Deliver { attempt: 1, .. }));
}

#[test]
fn a_superseded_record_stops_the_worker() {
    let mut cancellation = Cancellation::new();
    let durable = RunSettings { lifecycle: true, ..settings(1, Backoff::Immediate) };
    let (mut run, _) = TaskRun::begin(&task(None), durable, &cancellation, at(1));
    take(&mut run, &mut cancellation, RunInput::Claimed(Ok(None)));
    let input = RunInput::Recorded(Ok(LifecycleResult::Stale));
    let action = take(&mut run, &mut cancellation, input);
    assert!(matches!(
        action,
        RunAction::Return(Err(WorkerError::EventWrite {
            seq: 2,
            error: BusError::TaskChannelClosed,
            ..
        }))
    ));
}

#[test]
fn a_prepared_outcome_is_told_once_its_authority_confirms() {
    let mut cancellation = Cancellation::new();
    let prepared = RunSettings { prepared: true, ..settings(1, Backoff::Immediate) };
    let (mut run, _) = TaskRun::begin(&task(None), prepared, &cancellation, at(1));
    take(&mut run, &mut cancellation, RunInput::Emitted(Ok(())));
    take(&mut run, &mut cancellation, RunInput::Delivered(Raced::Done(Ok(()))));
    take(&mut run, &mut cancellation, RunInput::Emitted(Ok(())));
    let action = take(&mut run, &mut cancellation, completed());
    let RunAction::Finalize(event) = action else {
        panic!("expected the authority, got {action:?}");
    };
    assert_eq!(event.payload, TaskEventPayload::Completed { output: "done".into() });
    let input = RunInput::Finalized(Some(FinalizeResult::Committed));
    let action = take(&mut run, &mut cancellation, input);
    assert!(matches!(action, RunAction::Emit(told) if told == event));
}
