use std::sync::Arc;
use std::sync::Mutex;

use guigu_agent_bridge::bus::control::bounded_reason;
use guigu_agent_bridge::bus::control::Cancellation;
use guigu_agent_bridge::bus::control::MAX_PENDING_CANCELLATIONS;
use guigu_agent_bridge::bus::control::MAX_REASON_BYTES;
use guigu_agent_bridge::bus::control::MAX_RETIRED_TASKS;
use guigu_agent_bridge::ids::TaskId;

#[test]
fn nothing_is_cancelled_until_a_cancel_call() {
    let mut cancellation = Cancellation::new();
    let task_id = TaskId::generate();

    assert_eq!(cancellation.reason_for(task_id), None);
    assert_eq!(Cancellation::default().reason_for(task_id), None);

    cancellation.cancel_all("shutdown");
    assert_eq!(
        cancellation.reason_for(TaskId::generate()).as_deref(),
        Some("shutdown"),
        "a global cancellation applies to every task"
    );
}

#[test]
fn a_targeted_reason_takes_precedence_over_the_global_one() {
    let mut cancellation = Cancellation::new();
    let target = TaskId::generate();
    let other = TaskId::generate();

    cancellation.cancel_all("shutdown");
    cancellation.cancel(target, "operator stop");

    assert_eq!(cancellation.reason_for(target).as_deref(), Some("operator stop"));
    assert_eq!(cancellation.reason_for(other).as_deref(), Some("shutdown"));
}

#[test]
fn the_first_reason_wins_and_repeats_are_idempotent() {
    let mut cancellation = Cancellation::new();
    let task_id = TaskId::generate();

    cancellation.cancel(task_id, "first");
    cancellation.cancel(task_id, "second");
    cancellation.cancel_all("global-first");
    cancellation.cancel_all("global-second");

    assert_eq!(cancellation.reason_for(task_id).as_deref(), Some("first"));
    assert_eq!(
        cancellation.reason_for(TaskId::generate()).as_deref(),
        Some("global-first")
    );
}

#[test]
fn clones_share_one_recorded_state() {
    let cancellation = Arc::new(Mutex::new(Cancellation::new()));
    let clone = Arc::clone(&cancellation);
    let task_id = TaskId::generate();

    clone.lock().unwrap().cancel(task_id, "from the clone");

    assert_eq!(
        cancellation.lock().unwrap().reason_for(task_id).as_deref(),
        Some("from the clone")
    );
    assert_eq!(
        cancellation.lock().unwrap().describe(),
        "Cancellation { globally_cancelled: false, cancelled_tasks: 1 }"
    );
}

#[test]
fn cancellation_debug_never_renders_a_reason() {
    let mut cancellation = Cancellation::new();
    cancellation.cancel(TaskId::generate(), "token=secret");
    cancellation.cancel_all("password=secret");

    let rendered = cancellation.describe();
    assert!(!rendered.contains("secret"), "got: {rendered}");
    assert!(!rendered.contains("token"), "got: {rendered}");
    assert!(rendered.contains("globally_cancelled: true"), "got: {rendered}");
}

#[test]
fn an_unknown_id_is_retained_only_in_the_bounded_pre_arm_table() {
    let mut cancellation = Cancellation::new();
    let unknown = TaskId::generate();

    cancellation.cancel(unknown, "operator stop");

    assert_eq!(cancellation.reason_for(unknown).as_deref(), Some("operator stop"));
    assert_eq!(cancellation.tracked_tasks(), 1);
}

#[test]
fn the_pre_arm_table_displaces_the_oldest_entry_when_it_is_full() {
    let mut cancellation = Cancellation::new();
    let ids: Vec<TaskId> = (0..MAX_PENDING_CANCELLATIONS + 8)
        .map(|_| TaskId::generate())
        .collect();

    for (index, task_id) in ids.iter().enumerate() {
        cancellation.cancel(*task_id, &format!("reason {index}"));
    }

    assert_eq!(
        cancellation.tracked_tasks(),
        MAX_PENDING_CANCELLATIONS,
        "the pre-arm table cannot grow past its cap"
    );
    assert_eq!(
        cancellation.reason_for(ids[0]),
        None,
        "the oldest entry is the one displaced"
    );
    assert_eq!(
        cancellation.reason_for(*ids.last().expect("non-empty")),
        Some(format!("reason {}", ids.len() - 1)),
        "the newest entry is still observed"
    );
}

#[test]
fn ownership_keeps_a_reason_out_of_the_pre_arm_cap() {
    let mut cancellation = Cancellation::new();
    let owned = TaskId::generate();
    cancellation.activate(owned);
    cancellation.cancel(owned, "operator stop");

    for _ in 0..MAX_PENDING_CANCELLATIONS + 8 {
        cancellation.cancel(TaskId::generate(), "unrelated");
    }

    assert_eq!(
        cancellation.reason_for(owned).as_deref(),
        Some("operator stop"),
        "an owned task keeps its cancellation under pre-arm pressure"
    );
    assert_eq!(
        cancellation.tracked_tasks(),
        MAX_PENDING_CANCELLATIONS + 1,
        "one owned record plus the bounded pre-arm table"
    );
}

#[test]
fn activating_a_task_promotes_its_pre_arm_reason() {
    let mut cancellation = Cancellation::new();
    let task_id = TaskId::generate();

    cancellation.cancel(task_id, "cancelled while queued");
    assert_eq!(cancellation.tracked_tasks(), 1);

    cancellation.activate(task_id);

    assert_eq!(
        cancellation.reason_for(task_id).as_deref(),
        Some("cancelled while queued"),
        "a signal recorded before ownership survives it"
    );
    assert_eq!(cancellation.tracked_tasks(), 1, "promotion is not duplication");
}

#[test]
fn retiring_a_task_releases_its_record_and_drops_a_late_cancel() {
    let mut cancellation = Cancellation::new();
    let task_id = TaskId::generate();
    cancellation.activate(task_id);
    cancellation.cancel(task_id, "operator stop");

    assert!(cancellation.retire(task_id), "the record was released");
    assert_eq!(cancellation.reason_for(task_id), None);
    assert_eq!(cancellation.tracked_tasks(), 0);

    cancellation.cancel(task_id, "too late");

    assert_eq!(
        cancellation.reason_for(task_id),
        None,
        "a finished task's id is not retained again"
    );
    assert_eq!(cancellation.tracked_tasks(), 0, "nothing accumulates");
}

#[test]
fn retiring_also_releases_a_pre_arm_entry() {
    let mut cancellation = Cancellation::new();
    let queued = TaskId::generate();
    cancellation.cancel(queued, "cancelled while queued");

    assert!(cancellation.retire(queued));
    assert_eq!(cancellation.tracked_tasks(), 0);
    assert_eq!(cancellation.reason_for(queued), None);
}

#[test]
fn retire_reports_whether_it_released_anything_and_is_idempotent() {
    let mut cancellation = Cancellation::new();
    let known = TaskId::generate();

    assert!(
        !cancellation.retire(TaskId::generate()),
        "an unknown id releases nothing"
    );

    cancellation.cancel(known, "operator stop");
    assert!(cancellation.retire(known), "a recorded id is released");
    assert!(!cancellation.retire(known), "a second retire is a no-op");
}

#[test]
fn taking_ownership_again_makes_a_retired_id_cancellable() {
    let mut cancellation = Cancellation::new();
    let task_id = TaskId::generate();

    cancellation.activate(task_id);
    cancellation.retire(task_id);
    cancellation.cancel(task_id, "for the first run");
    assert_eq!(cancellation.reason_for(task_id), None);

    cancellation.activate(task_id);
    cancellation.cancel(task_id, "for the second run");

    assert_eq!(
        cancellation.reason_for(task_id).as_deref(),
        Some("for the second run")
    );
}

#[test]
fn the_retirement_memory_is_bounded() {
    let mut cancellation = Cancellation::new();

    for _ in 0..MAX_RETIRED_TASKS + 8 {
        let task_id = TaskId::generate();
        cancellation.activate(task_id);
        cancellation.retire(task_id);
    }

    assert_eq!(cancellation.tracked_tasks(), 0);
    assert!(
        cancellation.retired_len() <= MAX_RETIRED_TASKS,
        "the retirement memory cannot grow without bound"
    );
}

#[test]
fn a_long_reason_is_truncated_at_a_character_boundary() {
    let mut cancellation = Cancellation::new();
    let ascii = TaskId::generate();
    let multibyte = TaskId::generate();

    cancellation.cancel(ascii, &"a".repeat(MAX_REASON_BYTES * 4));
    // Three-byte characters, so `MAX_REASON_BYTES` is not a char boundary.
    cancellation.cancel(multibyte, &"€".repeat(MAX_REASON_BYTES));

    assert_eq!(
        cancellation.reason_for(ascii).expect("retained").len(),
        MAX_REASON_BYTES
    );
    let truncated = cancellation.reason_for(multibyte).expect("retained");
    assert_eq!(truncated.len(), MAX_REASON_BYTES - 2, "cut at a boundary");
    assert!(truncated.chars().all(|c| c == '€'));
}

#[test]
fn a_global_reason_is_bounded_too() {
    let mut cancellation = Cancellation::new();
    cancellation.cancel_all(&"x".repeat(MAX_REASON_BYTES * 4));

    assert_eq!(
        cancellation
            .reason_for(TaskId::generate())
            .expect("global")
            .len(),
        MAX_REASON_BYTES
    );
}

#[test]
fn a_version_bump_wakes_a_subscriber_even_for_an_identical_reason() {
    let mut cancellation = Cancellation::new();
    let task_id = TaskId::generate();
    let before = cancellation.version();

    cancellation.cancel(task_id, "stop");
    let first = cancellation.version();
    assert_ne!(before, first);

    cancellation.cancel(task_id, "stop");
    let second = cancellation.version();
    assert_ne!(first, second, "an identical reason still wakes waiters");

    cancellation.cancel_all("stop");
    assert_ne!(second, cancellation.version(), "a global cancel still wakes waiters");
}

#[test]
fn a_bump_that_happened_before_the_first_poll_is_not_lost() {
    let mut cancellation = Cancellation::new();
    let task_id = TaskId::generate();
    let subscribed = cancellation.version();

    cancellation.cancel(task_id, "stop");

    assert_ne!(subscribed, cancellation.version());
    assert_eq!(cancellation.reason_for(task_id).as_deref(), Some("stop"));
}

#[test]
fn a_waiter_is_woken_for_another_task_and_must_re_read_the_reason() {
    let mut cancellation = Cancellation::new();
    let watched = TaskId::generate();
    let other = TaskId::generate();
    let subscribed = cancellation.version();

    cancellation.cancel(other, "unrelated");

    assert_ne!(subscribed, cancellation.version(), "every bump wakes every waiter");
    assert_eq!(
        cancellation.reason_for(watched),
        None,
        "the watched value is a version, so the waiter must re-read the reason"
    );
    assert_eq!(cancellation.reason_for(other).as_deref(), Some("unrelated"));
}

#[test]
fn the_control_bounds_are_fixed() {
    assert_eq!(MAX_PENDING_CANCELLATIONS, 1024);
    assert_eq!(MAX_RETIRED_TASKS, 1024);
    assert_eq!(MAX_REASON_BYTES, 128);
    assert_eq!(bounded_reason("stop"), "stop");
    assert_eq!(bounded_reason(&"b".repeat(129)), "b".repeat(128));
}

#[test]
fn a_retired_task_is_remembered_until_it_is_owned_again() {
    let mut cancellation = Cancellation::new();
    let task_id = TaskId::generate();

    assert!(!cancellation.is_retired(task_id));
    cancellation.retire(task_id);
    assert!(cancellation.is_retired(task_id));
    cancellation.activate(task_id);
    assert!(!cancellation.is_retired(task_id));
}
