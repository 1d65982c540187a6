use std::sync::Arc;

use guigu_agent_bridge::bus::error::BusError;
use guigu_agent_bridge::bus::registry::derive_endpoint_id;
use guigu_agent_bridge::bus::registry::EndpointRegistry;
use guigu_agent_bridge::bus::worker::admit_ready;
use guigu_agent_bridge::bus::worker::Backoff;
use guigu_agent_bridge::bus::worker::DispatchError;
use guigu_agent_bridge::bus::worker::DispatchOutcome;
use guigu_agent_bridge::bus::worker::DispatchRequest;
use guigu_agent_bridge::bus::worker::DispatcherRegistry;
use guigu_agent_bridge::bus::worker::LoopLimits;
use guigu_agent_bridge::bus::worker::PriorityQueue;
use guigu_agent_bridge::bus::worker::RetryPolicy;
use guigu_agent_bridge::bus::worker::Turn;
use guigu_agent_bridge::bus::worker::Worker;
use guigu_agent_bridge::bus::worker::WorkerBuilder;
use guigu_agent_bridge::bus::worker::WorkerConfig;
use guigu_agent_bridge::bus::worker::WorkerError;
use guigu_agent_bridge::config::A2aTransportConfig;
use guigu_agent_bridge::config::AgentEndpointConfig;
use guigu_agent_bridge::config::AgentEntry;
use guigu_agent_bridge::config::BridgeConfig;
use guigu_agent_bridge::config::Config;
use guigu_agent_bridge::config::GatewayTransportConfig;
use guigu_agent_bridge::config::MatrixRoutesConfig;
use guigu_agent_bridge::config::MatrixTransportConfig;
use guigu_agent_bridge::config::RuntimeConfig;
use guigu_agent_bridge::config::SecretString;
use guigu_agent_bridge::config::TransportsConfig;
use guigu_agent_bridge::ids::ConversationId;
use guigu_agent_bridge::ids::DeliveryId;
use guigu_agent_bridge::ids::EndpointId;
use guigu_agent_bridge::ids::TaskId;
use guigu_agent_bridge::models::AgentTask;
use guigu_agent_bridge::models::Priority;
use guigu_agent_bridge::models::TransportType;
use guigu_agent_bridge::time::Duration;
use tokio::sync::mpsc;

fn declared(agent_id: &str, transport: TransportType, command: Option<&str>) -> AgentEntry {
    AgentEntry {
        agent_id: agent_id.to_owned(),
        declared: AgentEndpointConfig {
            transport,
            command: command.map(|text| text.to_owned()),
            args: Vec::new(),
            enabled: true,
            workspace: Some("/tmp".to_owned()),
            additional_workspaces: Vec::new(),
            peer: None,
        },
    }
}

fn config(agents: Vec<AgentEntry>) -> Config {
    Config {
        bridge: BridgeConfig {
            database: "/tmp/bridge.db".to_owned(),
            session_root: "/tmp/sessions".to_owned(),
            max_task_depth: 8,
            max_task_hops: 16,
            default_timeout_seconds: 300,
            queue_capacity: 1024,
            event_capacity: 1024,
            shutdown_timeout_seconds: 5,
            health_bind: None,
        },
        runtime: RuntimeConfig {
            allow_nonterminal_end_turn: false,
            max_turns: 8,
            max_wall_seconds: 900,
            max_inactivity_seconds: 120,
            max_no_progress: 2,
            max_output_bytes: 1024,
            lease_ttl_seconds: 30,
        },
        transports: TransportsConfig {
            matrix: MatrixTransportConfig {
                enabled: false,
                homeserver: String::new(),
                user_id: String::new(),
                device_id: String::new(),
                access_token: SecretString::new(String::new()),
                monitor_room: String::new(),
                sync_capacity: 4,
                allowed_users: Vec::new(),
                routes: MatrixRoutesConfig {
                    aliases: Vec::new(),
                    rooms: Vec::new(),
                    direct: Vec::new(),
                },
                admin_users: Vec::new(),
                admin_rooms: Vec::new(),
            },
            a2a: A2aTransportConfig {
                enabled: false,
                listen: String::new(),
                allow_private_plaintext: false,
                max_body_bytes: 1024,
                terminal_content_ttl_seconds: 60,
                retained_bytes_ceiling: 1024,
                retained_bytes_low_watermark: 512,
                cleanup_batch: 1,
                exposed_endpoints: Vec::new(),
                peers: Vec::new(),
            },
            gateway: GatewayTransportConfig { enabled: false },
        },
        agents,
    }
}

fn task(label: &str, priority: u8) -> AgentTask {
    let task_id = TaskId::generate();
    AgentTask {
        task_id,
        root_task_id: task_id,
        parent_task_id: None,
        from_agent: EndpointId::generate(),
        to_agent: EndpointId::generate(),
        conversation_id: ConversationId::generate(),
        reply_to: None,
        text: label.to_string(),
        priority: Priority::new(priority).expect("priority in range"),
        depth: 0,
        hops: 0,
        deadline: None,
        version: 0,
    }
}

fn worker_registry() -> Arc<EndpointRegistry> {
    Arc::new(EndpointRegistry::from_config(&config(vec![declared(
        "worker",
        TransportType::Acp,
        Some("worker-acp"),
    )])))
}

/// The labels of the queue, in the order in which they come out.
fn drain(queue: &mut PriorityQueue) -> Vec<String> {
    let mut order = Vec::new();
    while let Some(task) = queue.pop() {
        order.push(task.text);
    }
    order
}

#[test]
fn priority_queue_pops_highest_priority_first() {
    let mut queue = PriorityQueue::default();
    queue.push(task("low", 1), 0);
    queue.push(task("high", 9), 1);
    queue.push(task("mid", 5), 2);

    assert_eq!(drain(&mut queue), ["high", "mid", "low"]);
}

#[test]
fn priority_queue_is_fifo_within_one_priority() {
    let mut queue = PriorityQueue::default();
    for (label, arrival) in [("a", 0), ("b", 1), ("c", 2), ("d", 3)] {
        queue.push(task(label, 5), arrival);
    }

    assert_eq!(drain(&mut queue), ["a", "b", "c", "d"]);
}

#[test]
fn priority_queue_interleaves_priorities_with_stable_fifo() {
    let mut queue = PriorityQueue::default();
    queue.push(task("low1", 1), 0);
    queue.push(task("mid1", 5), 1);
    queue.push(task("low2", 1), 2);
    queue.push(task("high1", 9), 3);
    queue.push(task("mid2", 5), 4);
    queue.push(task("high2", 9), 5);

    assert_eq!(
        drain(&mut queue),
        ["high1", "high2", "mid1", "mid2", "low1", "low2"]
    );
}

#[test]
fn priority_queue_handles_boundary_priorities_and_alternating_push_pop() {
    let mut queue = PriorityQueue::default();
    assert_eq!(queue.pop(), None, "an empty queue yields nothing");

    queue.push(task("min", 0), 0);
    queue.push(task("max", 10), 1);
    assert_eq!(queue.pop().map(|t| t.text), Some("max".to_string()));
    assert_eq!(queue.pop().map(|t| t.text), Some("min".to_string()));
    assert_eq!(queue.pop(), None);

    queue.push(task("only", 5), 2);
    queue.push(task("default", 5), 3);
    assert_eq!(queue.pop().map(|t| t.text), Some("only".to_string()));
    assert_eq!(queue.pop().map(|t| t.text), Some("default".to_string()));
}

/// Fill every free slot of `channel`.
fn refill(channel: &mpsc::Sender<AgentTask>, label: &str, capacity: usize) {
    for index in 0..capacity {
        if channel
            .try_send(task(&format!("{label}-{index}"), 5))
            .is_err()
        {
            break;
        }
    }
}

#[test]
fn one_admission_step_reads_at_most_the_channel_capacity() {
    const CAPACITY: usize = 4;
    let (tx, mut rx) = mpsc::channel::<AgentTask>(CAPACITY);
    for index in 0..CAPACITY {
        tx.try_send(task(&format!("pre-{index}"), 5)).expect("fits");
    }
    let mut queue = PriorityQueue::default();
    let mut arrival = 0u64;

    assert!(!admit_ready(&mut rx, &mut queue, &mut arrival));
    assert_eq!(queue.len(), CAPACITY);
    assert_eq!(arrival, CAPACITY as u64);

    assert!(!admit_ready(&mut rx, &mut queue, &mut arrival));
    assert_eq!(queue.len(), CAPACITY, "a step with no budget admits nothing");
    assert_eq!(arrival, CAPACITY as u64);
}

#[test]
fn a_channel_refilled_at_every_step_cannot_grow_the_local_queue_past_capacity() {
    const CAPACITY: usize = 4;
    const ROUNDS: usize = 64;

    let (tx, mut rx) = mpsc::channel::<AgentTask>(CAPACITY);
    let mut queue = PriorityQueue::default();
    let mut arrival = 0u64;

    for round in 0..ROUNDS {
        let before = arrival;
        refill(&tx, &format!("round-{round}"), CAPACITY);
        admit_ready(&mut rx, &mut queue, &mut arrival);

        assert!(
            arrival - before <= CAPACITY as u64,
            "round {round}: one step admitted {} tasks, more than the channel capacity",
            arrival - before
        );
        assert!(
            queue.len() <= CAPACITY,
            "round {round}: local queue {} exceeded the channel capacity {CAPACITY}",
            queue.len()
        );
        queue
            .pop()
            .expect("every round has an admitted task to dispatch");
    }

    assert!(
        arrival >= ROUNDS as u64,
        "dispatch advanced every round instead of accumulating a backlog"
    );
}

#[test]
fn a_step_with_a_backlog_admits_only_the_slack_left_in_the_channel() {
    const CAPACITY: usize = 4;
    let (tx, mut rx) = mpsc::channel::<AgentTask>(CAPACITY);
    let mut queue = PriorityQueue::default();
    let mut arrival = 0u64;

    for _ in 1..CAPACITY {
        queue.push(task("already-admitted", 5), arrival);
        arrival += 1;
    }
    assert_eq!(queue.len(), CAPACITY - 1, "backlog before the step");
    refill(&tx, "refill", CAPACITY);

    admit_ready(&mut rx, &mut queue, &mut arrival);

    assert_eq!(
        queue.len(),
        CAPACITY,
        "the local queue can never hold more unprocessed tasks than the channel capacity"
    );
    assert_eq!(arrival, CAPACITY as u64, "exactly one slot was free");
    assert_eq!(
        std::iter::from_fn(|| rx.try_recv().ok()).count(),
        CAPACITY - 1,
        "the step left the rest of the refilled channel alone"
    );
}

#[test]
fn a_closed_channel_is_drained_before_the_close_is_reported() {
    let (tx, mut rx) = mpsc::channel::<AgentTask>(4);
    tx.try_send(task("buffered", 5)).expect("fits");
    drop(tx);

    let mut queue = PriorityQueue::default();
    let mut arrival = 0u64;

    assert!(admit_ready(&mut rx, &mut queue, &mut arrival));
    assert_eq!(
        queue.pop().map(|task| task.text),
        Some("buffered".to_string())
    );

    assert!(admit_ready(&mut rx, &mut queue, &mut arrival));
    assert!(queue.pop().is_none());
}

/// A dispatcher that is told apart by its identity alone.
#[derive(Debug)]
struct NoopDispatcher;

#[test]
fn dispatcher_registry_reports_hits_misses_and_replacements() {
    let dispatcher = Arc::new(NoopDispatcher);
    let other = Arc::new(NoopDispatcher);

    let registry: DispatcherRegistry<Arc<NoopDispatcher>> = DispatcherRegistry::new();
    assert!(registry.is_empty());
    assert_eq!(registry.len(), 0);
    assert!(registry.get(TransportType::Acp).is_none());

    let registry = registry.with(TransportType::Acp, Arc::clone(&dispatcher));
    assert_eq!(registry.len(), 1);
    assert!(!registry.is_empty());
    assert!(Arc::ptr_eq(
        registry.get(TransportType::Acp).expect("registered"),
        &dispatcher
    ));
    assert!(registry.get(TransportType::Matrix).is_none());

    let replaced = registry.with(TransportType::Acp, Arc::clone(&other));
    assert_eq!(replaced.len(), 1);
    assert!(Arc::ptr_eq(
        replaced.get(TransportType::Acp).expect("registered"),
        &other
    ));
}

#[test]
fn worker_handles_are_send_sync_and_object_safe() {
    fn assert_send_sync<T: Send + Sync>() {}
    assert_send_sync::<Worker<Arc<NoopDispatcher>>>();
    assert_send_sync::<DispatcherRegistry<Arc<NoopDispatcher>>>();
    assert_send_sync::<WorkerError>();
    assert_send_sync::<DispatchError>();
}

#[test]
fn worker_assembles_with_the_single_dispatcher_convenience_constructor() {
    let worker = Worker::with_dispatcher(
        worker_registry(),
        TransportType::Acp,
        Arc::new(NoopDispatcher),
    );

    assert!(worker.dispatchers().get(TransportType::Acp).is_some());
    assert!(worker.dispatchers().get(TransportType::Matrix).is_none());
    assert_eq!(
        worker.registry().resolve_agent_id("worker"),
        Some(derive_endpoint_id("worker"))
    );
}

#[test]
fn error_display_is_fixed_text_without_addresses_or_credentials() {
    let task_id = TaskId::generate();

    let cases: [(WorkerError, &str, bool); 3] = [
        (
            WorkerError::EventStreamClosed { task_id, seq: 2 },
            "event stream is closed",
            false,
        ),
        (
            WorkerError::EventBackpressure { task_id, seq: 3 },
            "event buffer is full",
            false,
        ),
        (
            WorkerError::EventWrite {
                task_id,
                seq: 4,
                error: BusError::QueueFull,
            },
            "event write failed",
            true,
        ),
    ];
    for (err, prefix, leaks_error_text) in cases {
        let rendered = err.to_string();
        assert!(rendered.starts_with(prefix), "got: {rendered}");
        assert!(rendered.contains(&task_id.to_string()), "got: {rendered}");
        for leaked in ["command", "args", "token", "password", "user_id", "http"] {
            assert!(
                !rendered.contains(leaked),
                "worker errors must not leak {leaked}: {rendered}"
            );
        }
        assert_eq!(
            rendered.contains(&BusError::QueueFull.to_string()),
            leaks_error_text
        );
    }

    assert_eq!(
        DispatchError::NotAccepted {
            reason: "no ack".into()
        }
        .to_string(),
        "delivery was not accepted: no ack"
    );
    assert_eq!(
        DispatchError::ExecutionFailed {
            reason: "boom".into()
        }
        .to_string(),
        "execution failed after acceptance: boom"
    );
}

#[test]
fn dispatch_outcome_and_request_are_value_types() {
    let task = task("payload", 5);
    let registry = worker_registry();
    let target = registry
        .get_by_agent_id("worker")
        .expect("worker is declared");
    let delivery_id = DeliveryId::generate();
    let request = DispatchRequest {
        task: &task,
        target,
        delivery_id,
        attempt: 1,
    };
    let clone = request.clone();
    assert_eq!(clone.delivery_id, delivery_id);
    assert_eq!(clone.attempt, 1);
    assert_eq!(clone.task.text, "payload");
    assert_eq!(clone.task.version, 0);
    assert_eq!(clone.target.transport(), TransportType::Acp);

    assert_ne!(
        DispatchOutcome::Completed { output: "a".into() },
        DispatchOutcome::Failed { error: "a".into() }
    );
}

#[test]
fn default_loop_limits_match_the_config_defaults() {
    let config = config(Vec::new());
    assert_eq!(
        LoopLimits::default(),
        LoopLimits::from_bridge(&config.bridge)
    );
    assert_eq!(LoopLimits::default().max_depth, 8);
    assert_eq!(LoopLimits::default().max_hops, 16);
}

#[test]
fn loop_limits_take_the_configured_values() {
    let mut config = config(Vec::new());
    config.bridge.max_task_depth = 3;
    config.bridge.max_task_hops = 7;
    assert_eq!(
        LoopLimits::from_bridge(&config.bridge),
        LoopLimits {
            max_depth: 3,
            max_hops: 7
        }
    );
}

#[test]
fn loop_limits_block_only_values_above_the_ceiling() {
    let limits = LoopLimits {
        max_depth: 2,
        max_hops: 3,
    };
    let at_the_limit = AgentTask {
        depth: 2,
        hops: 3,
        ..task("at the limit", 5)
    };
    assert_eq!(
        limits.violation(&at_the_limit),
        None,
        "the ceiling itself is allowed, so a root task passes at max_depth = 0"
    );

    let over_both = AgentTask {
        depth: 3,
        hops: 4,
        ..at_the_limit.clone()
    };
    let message = limits.violation(&over_both).expect("both limits exceeded");
    assert!(message.contains("hit: depth, hops"), "got: {message}");

    let over_depth = AgentTask {
        depth: 3,
        ..at_the_limit.clone()
    };
    assert!(limits
        .violation(&over_depth)
        .expect("depth exceeded")
        .contains("hit: depth"));

    let over_hops = AgentTask {
        hops: 4,
        ..at_the_limit
    };
    assert!(limits
        .violation(&over_hops)
        .expect("hops exceeded")
        .contains("hit: hops"));

    assert_eq!(
        LoopLimits {
            max_depth: 0,
            max_hops: 0
        }
        .violation(&task("root", 5)),
        None,
        "a root task (depth 0, hops 0) is within a zero ceiling"
    );
}

#[test]
fn a_cycle_limit_message_names_only_bounded_identifiers() {
    let limits = LoopLimits {
        max_depth: 0,
        max_hops: 0,
    };
    let over_limit = AgentTask {
        depth: 1,
        hops: 2,
        text: "token=secret run the thing".into(),
        ..task("sensitive", 5)
    };

    let message = limits.violation(&over_limit).expect("both limits exceeded");

    assert!(
        message.starts_with("cycle limit exceeded"),
        "got: {message}"
    );
    for named in [
        over_limit.task_id.to_string(),
        over_limit.root_task_id.to_string(),
        over_limit.from_agent.to_string(),
        over_limit.to_agent.to_string(),
    ] {
        assert!(message.contains(&named), "{message} must name {named}");
    }
    assert!(message.contains("parent_task_id=none"), "got: {message}");
    assert!(message.contains("depth=1 (max 0)"), "got: {message}");
    assert!(message.contains("hops=2 (max 0)"), "got: {message}");
    for leaked in [
        "secret",
        "token",
        "run the thing",
        "command",
        "args",
        "password",
        "user_id",
        "http",
    ] {
        assert!(
            !message.contains(leaked),
            "a cycle-limit message must not leak {leaked}: {message}"
        );
    }
}

#[test]
fn a_cycle_limit_message_names_the_parent_when_there_is_one() {
    let parent = TaskId::generate();
    let child = AgentTask {
        parent_task_id: Some(parent),
        depth: 9,
        ..task("child", 5)
    };

    let message = LoopLimits::default()
        .violation(&child)
        .expect("depth 9 exceeds the default 8");

    assert!(
        message.contains(&format!("parent_task_id={}", parent.to_string())),
        "got: {message}"
    );
    assert!(message.contains("hit: depth"), "got: {message}");
}

#[test]
fn retry_policy_defaults_to_a_single_attempt() {
    let policy = RetryPolicy::default();
    assert_eq!(policy.max_attempts, 1);
    assert_eq!(policy.backoff, Backoff::Immediate);
    assert!(
        !policy.allows_another_attempt_after(1),
        "the default must never retry"
    );
}

#[test]
fn the_attempt_ceiling_bounds_the_loop() {
    let three = RetryPolicy {
        max_attempts: 3,
        backoff: Backoff::Immediate,
    };
    assert!(three.allows_another_attempt_after(1));
    assert!(three.allows_another_attempt_after(2));
    assert!(!three.allows_another_attempt_after(3));

    let zero = RetryPolicy {
        max_attempts: 0,
        backoff: Backoff::Immediate,
    };
    assert!(!zero.allows_another_attempt_after(1));
}

#[test]
fn backoff_delays_are_deterministic_and_capped() {
    assert_eq!(Backoff::default(), Backoff::Immediate);
    assert_eq!(Backoff::Immediate.delay_for(1), Duration::zero());
    assert_eq!(
        Backoff::Fixed(Duration::from_millis(50)).delay_for(7),
        Duration::from_millis(50),
        "a fixed delay does not depend on the attempt"
    );

    let exponential = Backoff::Exponential {
        base: Duration::from_millis(10),
        max: Duration::from_millis(40),
    };
    assert_eq!(exponential.delay_for(1), Duration::from_millis(10));
    assert_eq!(exponential.delay_for(2), Duration::from_millis(20));
    assert_eq!(exponential.delay_for(3), Duration::from_millis(40));
    assert_eq!(
        exponential.delay_for(4),
        Duration::from_millis(40),
        "the curve is capped, not wrapped"
    );
    assert_eq!(
        exponential.delay_for(u32::MAX),
        Duration::from_millis(40),
        "an extreme attempt count must not overflow"
    );

    let saturated = Backoff::Exponential {
        base: Duration::longest(),
        max: Duration::from_secs(1),
    };
    assert_eq!(saturated.delay_for(u32::MAX), Duration::from_secs(1));
}

#[test]
fn a_backoff_keeps_doubling_until_its_cap() {
    let exponential = Backoff::Exponential {
        base: Duration::from_nanos(1),
        max: Duration::from_secs(10),
    };
    assert_eq!(exponential.delay_for(32), Duration::from_nanos(1 << 31));
    assert_eq!(exponential.delay_for(33), Duration::from_nanos(1 << 32));
    assert_eq!(exponential.delay_for(34), Duration::from_nanos(1 << 33));
    assert_eq!(exponential.delay_for(35), Duration::from_secs(10));
    assert_eq!(exponential.delay_for(40), Duration::from_secs(10));
    let unlimited = Backoff::Exponential {
        base: Duration::from_nanos(1),
        max: Duration::longest(),
    };
    assert_eq!(unlimited.delay_for(64), Duration::from_nanos(1 << 63));
    assert_eq!(unlimited.delay_for(u32::MAX), Duration::longest());
}

#[test]
fn worker_config_defaults_reproduce_the_t005_behaviour() {
    let config = WorkerConfig::default();
    assert_eq!(config.limits, LoopLimits::default());
    assert_eq!(config.retry, RetryPolicy::default());
    assert!(!config.cancellation);
    assert!(!config.timer, "preemption is opt-in");

    let rendered = format!("{config:?}");
    assert!(rendered.contains("cancellation: false"), "got: {rendered}");
    assert!(rendered.contains("timer: false"), "got: {rendered}");
}

#[test]
fn the_builder_applies_the_config_and_registers_a_dispatcher() {
    let plain: Worker<Arc<NoopDispatcher>> =
        Worker::builder(worker_registry(), DispatcherRegistry::new()).build();
    assert_eq!(plain.config().limits, LoopLimits::default());
    assert_eq!(plain.config().retry, RetryPolicy::default());
    assert!(!plain.config().cancellation);
    assert!(!plain.config().timer);

    let configured = WorkerConfig {
        limits: LoopLimits {
            max_depth: 1,
            max_hops: 2,
        },
        retry: RetryPolicy {
            max_attempts: 4,
            backoff: Backoff::Fixed(Duration::from_millis(5)),
        },
        cancellation: true,
        timer: true,
    };

    let worker = Worker::builder(worker_registry(), DispatcherRegistry::new())
        .config(configured)
        .with_dispatcher(TransportType::Acp, Arc::new(NoopDispatcher))
        .build();

    assert_eq!(worker.config().retry, configured.retry);
    assert_eq!(worker.config().limits, configured.limits);
    assert!(worker.config().cancellation);
    assert!(worker.config().timer);
    assert!(worker.dispatchers().get(TransportType::Acp).is_some());
    assert!(worker.dispatchers().get(TransportType::Matrix).is_none());
}

#[test]
fn control_configuration_is_send_sync() {
    fn assert_send_sync<T: Send + Sync>() {}
    assert_send_sync::<WorkerConfig>();
    assert_send_sync::<WorkerBuilder<Arc<NoopDispatcher>>>();
    assert_send_sync::<LoopLimits>();
    assert_send_sync::<RetryPolicy>();
    assert_send_sync::<Backoff>();
}

#[test]
fn a_worker_processes_what_it_admitted_and_stops_when_the_channel_closes() {
    let mut worker = Worker::with_dispatcher(
        worker_registry(),
        TransportType::Acp,
        Arc::new(NoopDispatcher),
    );
    let (tx, mut rx) = mpsc::channel::<AgentTask>(4);
    assert!(matches!(worker.next_turn(&mut rx), Turn::AwaitTask));
    assert!(worker.received(Some(task("waited for", 5))));
    tx.try_send(task("low", 1)).expect("fits");
    tx.try_send(task("high", 9)).expect("fits");

    let mut order = Vec::new();
    for _ in 0..3 {
        match worker.next_turn(&mut rx) {
            Turn::Process(task) => order.push(task.text),
            other => panic!("expected a task, got {other:?}"),
        }
    }
    assert_eq!(order, ["high", "waited for", "low"]);
    assert_eq!(worker.tasks_taken(), 3);

    drop(tx);
    assert!(matches!(worker.next_turn(&mut rx), Turn::Finish));
    assert!(!worker.received(None));
}

#[test]
fn a_task_dispatch_error_is_transient_unless_its_fate_is_unknown() {
    assert!(DispatchError::NotAccepted { reason: "no".into() }.is_transient());
    assert!(DispatchError::ExecutionFailed { reason: "no".into() }.is_transient());
    assert!(!DispatchError::AcceptanceUnknown.is_transient());
    assert!(!DispatchError::RecoveryNeeded.is_transient());
    assert!(!DispatchError::UnsupportedPrepared.is_transient());
    assert_eq!(
        DispatchError::AcceptanceUnknown.to_string(),
        "execution acceptance is unknown"
    );
}
