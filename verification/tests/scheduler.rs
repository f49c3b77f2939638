use pumpkin::scheduler::{TaskScheduler, TickTimeoutConfig};

#[test]
fn schedule_and_cancel() {
    let mut scheduler: TaskScheduler<&str> = TaskScheduler::new();
    assert_eq!(scheduler.len(), 0);
    let id = scheduler.schedule_delayed_task("plugin", 0, 1, 0);
    assert_eq!(id, 0);
    scheduler.cancel_task(id);
    let run = scheduler.tick(5, false);
    assert!(run.is_empty());
    assert_eq!(scheduler.len(), 0);
}

#[test]
fn shutdown_token_prevents_dispatch() {
    let mut scheduler: TaskScheduler<&str> = TaskScheduler::new();
    scheduler.schedule_delayed_task("plugin", 0, 0, 0);
    let run = scheduler.tick(10, true);
    assert!(run.is_empty());
    assert_eq!(scheduler.len(), 1);
    let run = scheduler.tick(10, false);
    assert_eq!(run.len(), 1);
}

#[test]
fn default_timeout_is_45_ms() {
    assert_eq!(TickTimeoutConfig::default().max_task_duration_ms, 45);
    let mut scheduler: TaskScheduler<u8> = TaskScheduler::new();
    assert_eq!(scheduler.timeout_config().max_task_duration_ms, 45);
    scheduler.set_timeout_config(TickTimeoutConfig { max_task_duration_ms: 10 });
    assert_eq!(scheduler.timeout_config().max_task_duration_ms, 10);
}

#[test]
fn ids_count_up() {
    let mut scheduler: TaskScheduler<u8> = TaskScheduler::new();
    assert_eq!(scheduler.schedule_delayed_task(1, 0, 5, 0), 0);
    assert_eq!(scheduler.schedule_repeating_task(1, 0, 5, 3, 0), 1);
    assert_eq!(scheduler.schedule_delayed_task(1, 0, 5, 0), 2);
}

#[test]
fn due_tasks_run_earliest_first() {
    let mut scheduler: TaskScheduler<u8> = TaskScheduler::new();
    scheduler.schedule_delayed_task(1, 100, 5, 0);
    scheduler.schedule_delayed_task(1, 101, 2, 1);
    scheduler.schedule_delayed_task(1, 102, 10, 0);
    scheduler.schedule_delayed_task(1, 103, 1, 0);
    let run = scheduler.tick(5, false);
    let handlers: Vec<u32> = run.iter().map(|t| t.handler_id).collect();
    assert_eq!(handlers, vec![103, 101, 100]);
    let ticks: Vec<u64> = run.iter().map(|t| t.next_tick).collect();
    assert_eq!(ticks, vec![1, 3, 5]);
    assert_eq!(scheduler.len(), 1);
    assert!(scheduler.tick(9, false).is_empty());
    let run = scheduler.tick(10, false);
    assert_eq!(run.len(), 1);
    assert_eq!(run[0].handler_id, 102);
}

#[test]
fn cancelled_task_is_dropped_once() {
    let mut scheduler: TaskScheduler<u8> = TaskScheduler::new();
    let a = scheduler.schedule_delayed_task(1, 1, 1, 0);
    let b = scheduler.schedule_delayed_task(1, 2, 1, 0);
    scheduler.cancel_task(a);
    let run = scheduler.tick(1, false);
    assert_eq!(run.len(), 1);
    assert_eq!(run[0].id, b);
}

#[test]
fn repeating_task_is_rescheduled_after_its_period() {
    let mut scheduler: TaskScheduler<u8> = TaskScheduler::new();
    scheduler.schedule_repeating_task(1, 7, 2, 3, 10);
    assert!(scheduler.tick(11, false).is_empty());
    let run = scheduler.tick(12, false);
    assert_eq!(run.len(), 1);
    assert_eq!(run[0].period, Some(3));
    // Queued again by the tick itself, due at 12 + 3.
    assert_eq!(scheduler.len(), 1);
    assert!(scheduler.tick(14, false).is_empty());
    let run = scheduler.tick(15, false);
    assert_eq!(run.len(), 1);
    assert_eq!(run[0].next_tick, 15);
    assert_eq!(run[0].handler_id, 7);
}

#[test]
fn one_shot_task_is_not_rescheduled() {
    let mut scheduler: TaskScheduler<u8> = TaskScheduler::new();
    scheduler.schedule_delayed_task(1, 7, 0, 4);
    let run = scheduler.tick(4, false);
    assert_eq!(run.len(), 1);
    assert_eq!(scheduler.len(), 0);
}

#[test]
fn zero_period_task_runs_once_per_tick() {
    let mut scheduler: TaskScheduler<u8> = TaskScheduler::new();
    scheduler.schedule_repeating_task(1, 7, 0, 0, 4);
    assert_eq!(scheduler.tick(4, false).len(), 1);
    assert_eq!(scheduler.len(), 1);
    assert_eq!(scheduler.tick(5, false).len(), 1);
}

#[test]
fn cancelled_repeating_task_is_not_requeued() {
    let mut scheduler: TaskScheduler<u8> = TaskScheduler::new();
    let id = scheduler.schedule_repeating_task(1, 7, 1, 2, 0);
    scheduler.cancel_task(id);
    assert!(scheduler.tick(1, false).is_empty());
    assert_eq!(scheduler.len(), 0);
}

#[test]
fn huge_period_is_accepted_and_wraps() {
    let mut scheduler: TaskScheduler<u8> = TaskScheduler::new();
    scheduler.schedule_repeating_task(1, 7, 5, u64::MAX, 0);
    // Not due, and under shutdown: nothing happens.
    assert!(scheduler.tick(1, true).is_empty());
    assert!(scheduler.tick(1, false).is_empty());
    assert_eq!(scheduler.len(), 1);
    // Due at 5: it runs and is due again at 5 + u64::MAX, wrapped to 4.
    assert_eq!(scheduler.tick(5, false).len(), 1);
    let run = scheduler.tick(5, false);
    assert_eq!(run.len(), 1);
    assert_eq!(run[0].next_tick, 4);
}

#[test]
fn cancel_all_tasks_of_one_plugin() {
    let mut scheduler: TaskScheduler<u8> = TaskScheduler::new();
    scheduler.schedule_delayed_task(1, 10, 1, 0);
    scheduler.schedule_delayed_task(2, 20, 1, 0);
    scheduler.schedule_repeating_task(1, 30, 1, 5, 0);
    scheduler.cancel_all_tasks(|p: &u8| *p == 1);
    let run = scheduler.tick(1, false);
    assert_eq!(run.len(), 1);
    assert_eq!(run[0].plugin, 2);
    assert_eq!(run[0].handler_id, 20);
}
