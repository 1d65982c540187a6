use std::sync::Arc;

use guigu_agent_bridge::bus::channel::SendOutcome;
use guigu_agent_bridge::bus::error::BusError;
use guigu_agent_bridge::bus::fanout::ConsumerError;
use guigu_agent_bridge::bus::fanout::EventBroadcaster;
use guigu_agent_bridge::bus::memory::emit_result;
use guigu_agent_bridge::bus::memory::enqueue_result;
use guigu_agent_bridge::bus::memory::BusReceivers;
use guigu_agent_bridge::bus::memory::MemoryBus;
use guigu_agent_bridge::bus::memory::MpscEventSink;
use guigu_agent_bridge::bus::memory::DEFAULT_QUEUE_CAPACITY;
use guigu_agent_bridge::bus::registry::derive_endpoint_id;
use guigu_agent_bridge::bus::registry::endpoint_namespace;
use guigu_agent_bridge::bus::registry::EndpointRegistry;
use guigu_agent_bridge::bus::registry::RegisteredEndpoint;
use guigu_agent_bridge::config::A2aTransportConfig;
use guigu_agent_bridge::config::AgentEndpointConfig;
use guigu_agent_bridge::config::AgentEntry;
use guigu_agent_bridge::config::BridgeConfig;
use guigu_agent_bridge::config::Config;
use guigu_agent_bridge::config::GatewayTransportConfig;
use guigu_agent_bridge::config::MatrixRoutesConfig;
use guigu_agent_bridge::config::MatrixTransportConfig;
use guigu_agent_bridge::config::RuntimeConfig;
use guigu_agent_bridge::config::SecretString;
use guigu_agent_bridge::config::TransportsConfig;
use guigu_agent_bridge::ids::ConversationId;
use guigu_agent_bridge::ids::EndpointId;
use guigu_agent_bridge::ids::EventId;
use guigu_agent_bridge::ids::TaskId;
use guigu_agent_bridge::models::AgentTask;
use guigu_agent_bridge::models::EndpointAddress;
use guigu_agent_bridge::models::Priority;
use guigu_agent_bridge::models::TaskEvent;
use guigu_agent_bridge::models::TaskEventPayload;
use guigu_agent_bridge::models::TaskStatus;
use guigu_agent_bridge::models::TransportType;
use guigu_agent_bridge::time::Timestamp;
use tokio::sync::mpsc;

fn declared(agent_id: &str, transport: TransportType, command: Option<&str>) -> AgentEntry {
    AgentEntry {
        agent_id: agent_id.to_owned(),
        declared: AgentEndpointConfig {
            transport,
            command: command.map(|text| text.to_owned()),
            args: Vec::new(),
            enabled: true,
            workspace: Some("/tmp".to_owned()),
            additional_workspaces: Vec::new(),
            peer: None,
        },
    }
}

fn config(agents: Vec<AgentEntry>) -> Config {
    Config {
        bridge: BridgeConfig {
            database: "/tmp/bridge.db".to_owned(),
            session_root: "/tmp/sessions".to_owned(),
            max_task_depth: 8,
            max_task_hops: 16,
            default_timeout_seconds: 300,
            queue_capacity: 1024,
            event_capacity: 1024,
            shutdown_timeout_seconds: 5,
            health_bind: None,
        },
        runtime: RuntimeConfig {
            allow_nonterminal_end_turn: false,
            max_turns: 8,
            max_wall_seconds: 900,
            max_inactivity_seconds: 120,
            max_no_progress: 2,
            max_output_bytes: 1024,
            lease_ttl_seconds: 30,
        },
        transports: TransportsConfig {
            matrix: MatrixTransportConfig {
                enabled: false,
                homeserver: String::new(),
                user_id: String::new(),
                device_id: String::new(),
                access_token: SecretString::new(String::new()),
                monitor_room: String::new(),
                sync_capacity: 4,
                allowed_users: Vec::new(),
                routes: MatrixRoutesConfig {
                    aliases: Vec::new(),
                    rooms: Vec::new(),
                    direct: Vec::new(),
                },
                admin_users: Vec::new(),
                admin_rooms: Vec::new(),
            },
            a2a: A2aTransportConfig {
                enabled: false,
                listen: String::new(),
                allow_private_plaintext: false,
                max_body_bytes: 1024,
                terminal_content_ttl_seconds: 60,
                retained_bytes_ceiling: 1024,
                retained_bytes_low_watermark: 512,
                cleanup_batch: 1,
                exposed_endpoints: Vec::new(),
                peers: Vec::new(),
            },
            gateway: GatewayTransportConfig { enabled: false },
        },
        agents,
    }
}

fn four_agents() -> Config {
    let mut alpha = declared("alpha", TransportType::Acp, Some("alpha-acp"));
    alpha.declared.args = vec!["--stdio".to_owned()];
    let mut beta = declared("beta", TransportType::Acp, Some("beta-acp"));
    beta.declared.enabled = false;
    let http = declared("http-svc", TransportType::Http, None);
    let matrix = declared("matrix-bot", TransportType::Matrix, None);
    config(vec![alpha, beta, http, matrix])
}

fn one_acp() -> Config {
    config(vec![declared("worker", TransportType::Acp, Some("worker-acp"))])
}

/// 2026-09-15T12:00:00Z.
fn noon() -> Timestamp {
    Timestamp::new(1_789_473_600, 0).expect("an instant")
}

fn task_for(target: EndpointId) -> AgentTask {
    let task_id = TaskId::generate();
    AgentTask {
        task_id,
        root_task_id: task_id,
        parent_task_id: None,
        from_agent: EndpointId::generate(),
        to_agent: target,
        conversation_id: ConversationId::generate(),
        reply_to: None,
        text: "work".to_owned(),
        priority: Priority::normal(),
        depth: 0,
        hops: 0,
        deadline: None,
        version: 0,
    }
}

fn sample_event(seq: u64) -> TaskEvent {
    TaskEvent {
        id: EventId::generate(),
        task_id: TaskId::generate(),
        seq,
        status: TaskStatus::Queued,
        timestamp: noon(),
        payload: TaskEventPayload::Queued,
    }
}

#[test]
fn derive_endpoint_id_is_stable_and_distinct() {
    assert_eq!(
        derive_endpoint_id("alpha"),
        derive_endpoint_id("alpha"),
        "the same agent id must always map to the same identity"
    );
    assert_ne!(derive_endpoint_id("alpha"), derive_endpoint_id("beta"));
    assert_ne!(derive_endpoint_id("alpha"), derive_endpoint_id("alpha2"));
}

#[test]
fn derive_endpoint_id_matches_the_frozen_namespace() {
    assert_eq!(
        EndpointId::from_u128(endpoint_namespace()).to_string(),
        "9e911d81-ff83-5639-bf2f-5451dbedb07b"
    );
    assert_eq!(
        derive_endpoint_id("alpha").to_string(),
        "c8521746-e5fc-551a-b96b-86f1cd310117"
    );
    assert_eq!(
        derive_endpoint_id("worker").to_string(),
        "2b2cde10-11a2-5889-8966-50d0c826e5e6"
    );
    assert_eq!(
        derive_endpoint_id("matrix-bot").to_string(),
        "bd2428ac-46c7-5775-96d2-05159351e03f"
    );
}

#[test]
fn registry_rebuilds_identically_from_the_same_config() {
    let config = four_agents();
    let first = EndpointRegistry::from_config(&config);
    let second = EndpointRegistry::from_config(&config);

    assert_eq!(first, second);
    assert_eq!(first.len(), 4);
    assert!(!first.is_empty());
    let first_ids: Vec<EndpointId> = first.iter().iter().map(RegisteredEndpoint::id).collect();
    let second_ids: Vec<EndpointId> = second.iter().iter().map(RegisteredEndpoint::id).collect();
    assert_eq!(first_ids, second_ids, "identity must survive a rebuild");
}

#[test]
fn registry_maps_agent_ids_and_endpoint_ids_both_ways() {
    let registry = EndpointRegistry::from_config(&four_agents());

    for record in registry.iter() {
        assert_eq!(
            registry.resolve_agent_id(record.agent_id()),
            Some(record.id()),
            "agent id must resolve to the record's identity"
        );
        assert_eq!(registry.get_by_agent_id(record.agent_id()), Some(record));
        assert_eq!(registry.get(record.id()), Some(record));
        assert!(registry.contains(record.id()));
    }

    let alpha = registry
        .get_by_agent_id("alpha")
        .expect("alpha is declared");
    assert_eq!(alpha.id(), derive_endpoint_id("alpha"));
    assert_eq!(alpha.agent_id(), "alpha");
    assert_eq!(alpha.transport(), TransportType::Acp);
    assert!(alpha.is_enabled());

    assert_eq!(registry.get_by_agent_id("missing"), None);
    assert_eq!(registry.resolve_agent_id("missing"), None);
    assert_eq!(registry.get(EndpointId::generate()), None);
    assert!(!registry.contains(EndpointId::generate()));
}

#[test]
fn iter_is_deterministic_config_agent_id_order_and_covers_every_transport() {
    let registry = EndpointRegistry::from_config(&four_agents());
    let agent_ids: Vec<&str> = registry.iter().iter().map(RegisteredEndpoint::agent_id).collect();
    assert_eq!(agent_ids, ["alpha", "beta", "http-svc", "matrix-bot"]);
}

#[test]
fn acp_endpoints_carry_the_derived_address() {
    let registry = EndpointRegistry::from_config(&four_agents());
    let alpha = registry.get_by_agent_id("alpha").expect("alpha");
    assert!(alpha.is_addressable());
    assert_eq!(
        alpha.address(),
        Some(&EndpointAddress::Acp {
            command: "alpha-acp".into(),
            args: vec!["--stdio".into()],
        })
    );

    let endpoint = alpha.agent_endpoint().expect("acp is addressable");
    assert_eq!(endpoint.id, derive_endpoint_id("alpha"));
    assert_eq!(endpoint.transport, TransportType::Acp);
    assert!(endpoint.enabled);
    assert!(
        endpoint.capabilities.is_empty(),
        "no capabilities are declared; the registry must not invent any"
    );
}

#[test]
fn matrix_and_http_declarations_are_registered_but_not_addressable() {
    let registry = EndpointRegistry::from_config(&four_agents());
    for agent_id in ["matrix-bot", "http-svc"] {
        let record = registry
            .get_by_agent_id(agent_id)
            .unwrap_or_else(|| panic!("{agent_id} must be registered"));
        assert!(record.is_enabled());
        assert!(!record.is_addressable());
        assert_eq!(record.address(), None);
        assert_eq!(record.agent_endpoint(), None);
        assert_eq!(registry.resolve_agent_id(agent_id), Some(record.id()));
    }

    assert_eq!(
        registry
            .get_by_agent_id("matrix-bot")
            .map(|r| r.transport()),
        Some(TransportType::Matrix)
    );
    assert_eq!(
        registry.get_by_agent_id("http-svc").map(|r| r.transport()),
        Some(TransportType::Http)
    );
}

#[test]
fn validate_target_classifies_unknown_disabled_and_unaddressable_in_order() {
    let registry = EndpointRegistry::from_config(&four_agents());

    let unknown = EndpointId::generate();
    assert_eq!(
        registry.validate_target(unknown).unwrap_err(),
        BusError::UnknownTarget {
            endpoint_id: unknown
        }
    );

    let beta = derive_endpoint_id("beta");
    assert_eq!(
        registry.validate_target(beta).unwrap_err(),
        BusError::TargetDisabled { endpoint_id: beta }
    );

    let matrix = derive_endpoint_id("matrix-bot");
    assert_eq!(
        registry.validate_target(matrix).unwrap_err(),
        BusError::AddressUnavailable {
            endpoint_id: matrix
        }
    );

    let alpha = derive_endpoint_id("alpha");
    let record = registry.validate_target(alpha).expect("alpha is usable");
    assert_eq!(record.id(), alpha);
}

#[test]
fn validate_target_reports_disabled_before_unaddressable() {
    let mut first = declared("disabled-matrix", TransportType::Matrix, None);
    first.declared.enabled = false;
    let second = declared("enabled-matrix", TransportType::Matrix, None);
    let registry = EndpointRegistry::from_config(&config(vec![first, second]));

    let disabled = derive_endpoint_id("disabled-matrix");
    assert_eq!(
        registry.validate_target(disabled).unwrap_err(),
        BusError::TargetDisabled {
            endpoint_id: disabled
        },
        "disabled must be reported before unaddressable"
    );

    let enabled = derive_endpoint_id("enabled-matrix");
    assert_eq!(
        registry.validate_target(enabled).unwrap_err(),
        BusError::AddressUnavailable {
            endpoint_id: enabled
        }
    );
}

#[test]
fn empty_configuration_yields_an_empty_registry() {
    let registry = EndpointRegistry::from_config(&config(Vec::new()));
    assert!(registry.is_empty());
    assert_eq!(registry.len(), 0);
    assert_eq!(registry.iter().iter().count(), 0);
}

#[test]
fn an_a2a_declaration_is_reached_through_its_peer() {
    let mut remote = declared("remote", TransportType::A2a, None);
    remote.declared.peer = Some("lan".to_owned());
    let registry = EndpointRegistry::from_config(&config(vec![remote]));
    assert_eq!(
        registry.get_by_agent_id("remote").expect("declared").address(),
        Some(&EndpointAddress::A2a { peer: "lan".into() })
    );
}

#[test]
fn default_queue_capacity_is_frozen() {
    assert_eq!(DEFAULT_QUEUE_CAPACITY, 1024);
}

#[test]
fn bus_handles_are_send_sync_and_cheaply_cloneable() {
    fn assert_send_sync<T: Send + Sync>() {}
    assert_send_sync::<MemoryBus>();
    assert_send_sync::<BusReceivers>();

    let (bus, _receivers) = MemoryBus::from_config(&one_acp(), 4);
    let bus = Arc::new(bus);
    let clone = Arc::clone(&bus);
    assert_eq!(clone.registry().len(), bus.registry().len());
}

#[test]
fn registry_is_built_from_config() {
    let (bus, _receivers) = MemoryBus::from_config(&one_acp(), 4);
    assert!(bus.registry().get_by_agent_id("worker").is_some());
    assert_eq!(
        bus.registry().resolve_agent_id("worker"),
        Some(derive_endpoint_id("worker"))
    );
    assert_eq!(bus.registry().get(EndpointId::generate()), None);
}

#[test]
fn a_submission_queues_the_task_and_tells_its_first_event() {
    let (mut bus, mut receivers) = MemoryBus::from_config(&one_acp(), 1);
    let task = task_for(derive_endpoint_id("worker"));
    let task_id = task.task_id;
    assert_eq!(bus.submit(task, noon()), Ok(()));

    let queued = receivers.tasks.try_recv().expect("queued");
    assert_eq!(queued.task_id, task_id);
    let event = receivers.events.try_recv().expect("told");
    assert_eq!(event.task_id, task_id);
    assert_eq!(event.seq, 1);
    assert_eq!(event.status, TaskStatus::Queued);
    assert_eq!(event.timestamp, noon());
}

#[test]
fn a_submission_reports_what_went_wrong() {
    let (mut bus, receivers) = MemoryBus::from_config(&one_acp(), 1);
    let target = derive_endpoint_id("worker");
    let unknown = EndpointId::generate();
    assert_eq!(
        bus.submit(task_for(unknown), noon()),
        Err(BusError::UnknownTarget { endpoint_id: unknown })
    );
    assert_eq!(bus.submit(task_for(target), noon()), Ok(()));
    assert_eq!(bus.submit(task_for(target), noon()), Err(BusError::QueueFull));

    let BusReceivers { mut tasks, events } = receivers;
    tasks.try_recv().expect("queued");
    assert_eq!(
        bus.submit(task_for(target), noon()),
        Err(BusError::EventBufferFull),
        "the task is queued and its event is not told"
    );
    tasks.try_recv().expect("queued nevertheless");
    drop(events);
    assert_eq!(
        bus.submit(task_for(target), noon()),
        Err(BusError::EventSinkClosed)
    );
    drop(tasks);
    assert_eq!(
        bus.submit(task_for(target), noon()),
        Err(BusError::TaskChannelClosed)
    );
}

#[test]
fn what_a_channel_answers_is_an_error_of_its_own() {
    assert_eq!(enqueue_result(SendOutcome::Sent), Ok(()));
    assert_eq!(enqueue_result(SendOutcome::Full), Err(BusError::QueueFull));
    assert_eq!(enqueue_result(SendOutcome::Closed), Err(BusError::TaskChannelClosed));
    assert_eq!(emit_result(SendOutcome::Sent), Ok(()));
    assert_eq!(emit_result(SendOutcome::Full), Err(BusError::EventBufferFull));
    assert_eq!(emit_result(SendOutcome::Closed), Err(BusError::EventSinkClosed));
}

#[test]
fn display_renders_only_fixed_text_and_the_endpoint_id() {
    let id = EndpointId::from_u128(
        uuid::Uuid::new_v5(&uuid::Uuid::NAMESPACE_URL, b"bus-error-display-test").as_u128(),
    );
    let cases: [(BusError, &str, bool); 7] = [
        (
            BusError::UnknownTarget { endpoint_id: id },
            "unknown target endpoint",
            true,
        ),
        (
            BusError::TargetDisabled { endpoint_id: id },
            "target endpoint is disabled",
            true,
        ),
        (
            BusError::AddressUnavailable { endpoint_id: id },
            "endpoint address is not available",
            true,
        ),
        (BusError::QueueFull, "task queue is full", false),
        (BusError::EventBufferFull, "event buffer is full", false),
        (BusError::TaskChannelClosed, "task channel is closed", false),
        (BusError::EventSinkClosed, "event sink is closed", false),
    ];

    for (err, prefix, names_endpoint) in cases {
        let rendered = err.to_string();
        assert!(rendered.starts_with(prefix), "got: {rendered}");
        assert!(
            !rendered.contains("command") && !rendered.contains("args"),
            "an address must never be rendered: {rendered}"
        );
        assert_eq!(
            rendered.contains(&id.to_string()),
            names_endpoint,
            "endpoint id rendering is part of the contract: {rendered}"
        );
    }
}

#[test]
fn closed_and_overflow_variants_are_distinguishable() {
    assert_ne!(BusError::QueueFull, BusError::TaskChannelClosed);
    assert_ne!(BusError::EventBufferFull, BusError::EventSinkClosed);
    assert_ne!(BusError::TaskChannelClosed, BusError::EventSinkClosed);
    assert_ne!(BusError::QueueFull, BusError::EventBufferFull);
}

#[test]
fn mpsc_sink_emits_events_in_order_through_dyn() {
    let (mut sink, mut rx) = MpscEventSink::new(4);

    let first = sample_event(1);
    let second = sample_event(2);
    sink.emit(first.clone()).expect("emit first");
    sink.emit(second.clone()).expect("emit second");

    assert_eq!(rx.try_recv(), Ok(first));
    assert_eq!(rx.try_recv(), Ok(second));
    assert_eq!(rx.try_recv(), Err(mpsc::error::TryRecvError::Empty));
}

#[test]
fn mpsc_sink_reports_full_without_blocking() {
    let (mut sink, mut rx) = MpscEventSink::new(1);
    sink.emit(sample_event(1)).expect("first fits");

    let err = sink.emit(sample_event(2)).expect_err("buffer is full");
    assert_eq!(err, BusError::EventBufferFull);

    assert!(rx.try_recv().is_ok());
    assert_eq!(rx.try_recv(), Err(mpsc::error::TryRecvError::Empty));
}

#[test]
fn mpsc_sink_reports_closed_when_consumer_is_gone() {
    let (mut sink, rx) = MpscEventSink::new(1);
    drop(rx);
    let err = sink.emit(sample_event(1)).expect_err("closed");
    assert_eq!(err, BusError::EventSinkClosed);
}

#[test]
fn consumer_trait_is_object_safe_and_send_sync() {
    fn assert_send_sync<T: Send + Sync>() {}
    assert_send_sync::<EventBroadcaster>();
    assert_send_sync::<ConsumerError>();
    assert_eq!(EventBroadcaster::new(1).consumer_count(), 1);
}

#[test]
fn consumer_error_display_is_fixed_and_carries_the_reason() {
    let rendered = ConsumerError::Failed {
        reason: "boom".into(),
    }
    .to_string();
    assert_eq!(rendered, "event consumer failed: boom");
    for leaked in ["command", "args", "token", "password", "user_id"] {
        assert!(!rendered.contains(leaked));
    }
}

#[test]
fn a_failing_consumer_is_isolated_and_the_broadcast_continues() {
    let fails = [false, true, true, false];
    let mut seen: Vec<Vec<u64>> = vec![Vec::new(); fails.len()];
    let mut failures = 0;
    for seq in 1..=3 {
        let mut broadcast = EventBroadcaster::new(fails.len());
        while let Some(consumer) = broadcast.next() {
            if fails[consumer] {
                failures += 1;
            } else {
                seen[consumer].push(seq);
            }
        }
    }
    assert_eq!(seen[0], [1, 2, 3]);
    assert_eq!(seen[3], [1, 2, 3]);
    assert_eq!(failures, 6);
}

#[test]
fn an_enqueued_task_comes_with_the_event_for_any_sink() {
    let target = derive_endpoint_id("alpha");
    let registry = Arc::new(EndpointRegistry::from_config(&four_agents()));
    let (mut bus, mut receivers) = MemoryBus::new(registry, 1);
    let unknown = EndpointId::from_u128(9);
    assert_eq!(
        bus.enqueue(task_for(unknown), noon()),
        Err(BusError::UnknownTarget { endpoint_id: unknown })
    );
    let task = task_for(target);
    let event = bus.enqueue(task.clone(), noon()).expect("queued");
    assert_eq!((event.task_id, event.seq), (task.task_id, 1));
    assert_eq!((event.status, event.timestamp), (TaskStatus::Queued, noon()));
    assert_eq!(event.payload, TaskEventPayload::Queued);
    assert_eq!(bus.enqueue(task_for(target), noon()), Err(BusError::QueueFull));
    assert_eq!(receivers.tasks.try_recv(), Ok(task));
    assert!(receivers.events.try_recv().is_err(), "the event is for the caller to write");
    drop(receivers);
    assert_eq!(bus.enqueue(task_for(target), noon()), Err(BusError::TaskChannelClosed));
}
