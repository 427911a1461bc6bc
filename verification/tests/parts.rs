//! The parts that the queue is made of.

use std::time::{Duration, Instant};
use task_queue::entry::{PendingTasks, QueueEntry};
use task_queue::slot::{outcome, TaskResultSlot};
use task_queue::stats::StatsCounters;
use task_queue::{Priority, TaskError, TaskQueueStats};

fn entry(priority: Priority, sequence: u64) -> QueueEntry<u64> {
    QueueEntry { priority, sequence, task: sequence, enqueued_at: Instant::now() }
}

fn stats(total_latency_nanos: u128, completed_latency_samples: u64) -> TaskQueueStats {
    TaskQueueStats {
        total_submitted: 0,
        completed: 0,
        failed: 0,
        in_flight: 0,
        total_latency_nanos,
        completed_latency_samples,
    }
}

#[test]
fn priorities_are_ordered() {
    assert!(Priority::Low < Priority::Normal);
    assert!(Priority::Normal < Priority::High);
    assert!(Priority::Low < Priority::High);
    assert_eq!(Priority::High.max(Priority::Low), Priority::High);
    assert_eq!(
        (Priority::Low.as_u8(), Priority::Normal.as_u8(), Priority::High.as_u8()),
        (0, 1, 2)
    );
    for a in [Priority::Low, Priority::Normal, Priority::High] {
        for b in [Priority::Low, Priority::Normal, Priority::High] {
            assert_eq!(a.partial_cmp(&b), Some(a.cmp(&b)));
            assert_eq!(a.cmp(&b), a.as_u8().cmp(&b.as_u8()));
        }
    }
}

#[test]
fn errors_describe_themselves() {
    assert_eq!(TaskError::Panicked.to_string(), "task panicked");
    assert_eq!(TaskError::Cancelled.to_string(), "task cancelled");
    assert_eq!(TaskError::QueueFull.to_string(), "task rejected: queue is full");
    assert_eq!(format!("{:?}", TaskError::Cancelled), "Cancelled");
}

#[test]
fn entries_compare_by_priority_then_age() {
    assert!(entry(Priority::High, 9) > entry(Priority::Normal, 1));
    assert!(entry(Priority::Low, 1) < entry(Priority::Normal, 2));
    assert!(entry(Priority::Normal, 1) > entry(Priority::Normal, 2));
    assert!(entry(Priority::Normal, 2) == entry(Priority::Normal, 2));
    assert!(entry(Priority::Normal, 2) != entry(Priority::High, 2));
    assert!(entry(Priority::Normal, 2) != entry(Priority::Normal, 3));
}

#[test]
fn pending_tasks_come_out_in_order() {
    let mut pending = PendingTasks::new();
    assert!(pending.is_empty());
    assert!(pending.pop().is_none());
    let priorities = [
        Priority::Low,
        Priority::High,
        Priority::Normal,
        Priority::Low,
        Priority::Normal,
        Priority::High,
        Priority::Normal,
    ];
    for (sequence, priority) in priorities.into_iter().enumerate() {
        pending.push(entry(priority, sequence as u64));
    }
    assert_eq!(pending.len(), 7);
    let mut order = Vec::new();
    while let Some(next) = pending.pop() {
        assert_eq!(next.task, next.sequence);
        order.push(next.sequence);
    }
    assert_eq!(order, vec![1, 5, 2, 4, 6, 0, 3]);
    assert!(pending.is_empty());
}

#[test]
fn average_latency_is_none_without_samples() {
    assert_eq!(stats(0, 0).average_latency(), None);
    assert_eq!(stats(1_000, 0).average_latency(), None);
}

#[test]
fn average_latency_is_rounded_down() {
    assert_eq!(stats(0, 1).average_latency(), Some(Duration::ZERO));
    assert_eq!(stats(10, 3).average_latency(), Some(Duration::from_nanos(3)));
    assert_eq!(stats(11, 4).average_latency(), Some(Duration::from_nanos(2)));
    assert_eq!(stats(3_000_000_000, 2).average_latency(), Some(Duration::from_millis(1_500)));
}

#[test]
fn average_latency_is_capped() {
    let cap = u64::MAX as u128;
    assert_eq!(stats(cap, 1).average_latency(), Some(Duration::from_nanos(u64::MAX)));
    assert_eq!(stats(cap + 1, 1).average_latency(), Some(Duration::from_nanos(u64::MAX)));
    assert_eq!(stats(u128::MAX, 1).average_latency(), Some(Duration::from_nanos(u64::MAX)));
    assert_eq!(stats(cap - 1, 1).average_latency(), Some(Duration::from_nanos(u64::MAX - 1)));
}

#[test]
fn recorded_latencies_add_up() {
    let mut counters = StatsCounters::new();
    assert_eq!(counters.snapshot_latency(), (0, 0));
    counters.record_latency(Duration::from_nanos(7));
    counters.record_latency(Duration::from_secs(2));
    assert_eq!(counters.snapshot_latency(), (2_000_000_007, 2));
    assert_eq!((counters.total_submitted, counters.completed, counters.failed), (0, 0, 0));
}

#[test]
fn recorded_latencies_saturate() {
    let mut counters = StatsCounters::new();
    counters.latency.total_nanos = u128::MAX - 3;
    counters.latency.samples = u64::MAX;
    counters.record_latency(Duration::from_nanos(5));
    assert_eq!(counters.snapshot_latency(), (u128::MAX, u64::MAX));
}

#[test]
fn a_slot_keeps_its_outcome_when_cancelled() {
    let mut slot: TaskResultSlot<u32> = TaskResultSlot::new();
    assert!(!slot.is_set());
    slot.cancel();
    assert!(slot.is_set());
    assert_eq!(slot.value, Some(Err(TaskError::Cancelled)));

    let mut slot = TaskResultSlot::new();
    slot.set(Ok(4));
    slot.cancel();
    assert_eq!(slot.value, Some(Ok(4)));
    slot.set(Err(TaskError::Panicked));
    assert_eq!(slot.value, Some(Err(TaskError::Panicked)));
}

#[test]
fn outcomes_tell_values_from_panics() {
    assert_eq!(outcome(Some(3)), Ok(3));
    assert_eq!(outcome::<u32>(None), Err(TaskError::Panicked));
}
