use sparko_embedded_std::task::{TaskError, TaskManager};

struct MockTask {}

impl MockTask {
    fn new() -> Box<Self> {
        Box::new(Self {})
    }
}

const NOW_MS: i64 = 1_700_000_000_000;

#[test]
fn test_new_task_manager() {
    let manager: TaskManager<Box<MockTask>> = TaskManager::builder().build();
    assert_eq!(manager.len(), 0);
}

#[test]
fn test_add_first_task() {
    let manager = TaskManager::builder()
        .with_task(MockTask::new(), "* * * * * *", NOW_MS)
        .unwrap()
        .build();

    assert_eq!(manager.len(), 1);
}

#[test]
fn add_task_refuses_an_invalid_schedule() {
    let r = TaskManager::builder().with_task(MockTask::new(), "not a schedule", NOW_MS);
    assert!(matches!(r, Err(TaskError::InvalidSchedule)));
}

#[test]
fn first_run_lies_after_now() {
    let manager = TaskManager::builder()
        .with_task(MockTask::new(), "* * * * * *", NOW_MS)
        .unwrap()
        .build();
    let next = manager.next_event(0);
    assert!(next > NOW_MS);
    assert!(next <= NOW_MS + 1000);
}

#[test]
fn refresh_of_no_tasks_fails() {
    let mut manager: TaskManager<u32> = TaskManager::builder().build();
    assert_eq!(manager.refresh(NOW_MS), Err(TaskError::NoTasks));
}

#[test]
fn next_due_is_the_first_earliest() {
    let mut manager = TaskManager::builder()
        .with_task(1u32, "0 0 * * * *", NOW_MS)
        .unwrap()
        .with_task(2u32, "* * * * * *", NOW_MS)
        .unwrap()
        .with_task(3u32, "* * * * * *", NOW_MS)
        .unwrap()
        .build();
    assert_eq!(manager.refresh(NOW_MS), Ok(()));
    assert_eq!(manager.next_due(), 1);
    assert_eq!(*manager.task_mut(1), 2);
}

#[test]
fn after_run_moves_the_next_run_forward() {
    let mut manager = TaskManager::builder()
        .with_task(7u32, "* * * * * *", NOW_MS)
        .unwrap()
        .build();
    let before = manager.next_event(0);
    assert_eq!(manager.after_run(0), Ok(()));
    assert_eq!(manager.next_event(0), before + 1000);
}

#[test]
fn reschedule_without_next_run_drops_the_task_in_order() {
    let mut manager = TaskManager::builder()
        .with_task(1u32, "* * * * * *", NOW_MS)
        .unwrap()
        .with_task(2u32, "* * * * * *", NOW_MS)
        .unwrap()
        .with_task(3u32, "* * * * * *", NOW_MS)
        .unwrap()
        .build();
    assert_eq!(manager.reschedule(0, None), Ok(()));
    assert_eq!(manager.len(), 2);
    assert_eq!(*manager.task_mut(0), 2);
    assert_eq!(*manager.task_mut(1), 3);
    assert_eq!(manager.reschedule(1, Some(NOW_MS + 5)), Ok(()));
    assert_eq!(manager.next_event(1), NOW_MS + 5);
}

#[test]
fn reschedule_of_the_last_task_fails() {
    let mut manager = TaskManager::builder()
        .with_task(1u32, "* * * * * *", NOW_MS)
        .unwrap()
        .build();
    assert_eq!(manager.reschedule(0, None), Err(TaskError::NoSchedulableTasks));
    assert_eq!(manager.len(), 0);
}

#[test]
fn apply_refresh_moves_the_last_task_into_a_dropped_place() {
    let mut manager = TaskManager::builder()
        .with_task(1u32, "* * * * * *", NOW_MS)
        .unwrap()
        .with_task(2u32, "* * * * * *", NOW_MS)
        .unwrap()
        .with_task(3u32, "* * * * * *", NOW_MS)
        .unwrap()
        .build();
    manager.apply_refresh(vec![None, Some(NOW_MS + 10), Some(NOW_MS + 20)]);
    assert_eq!(manager.len(), 2);
    assert_eq!(*manager.task_mut(0), 3);
    assert_eq!(manager.next_event(0), NOW_MS + 20);
    assert_eq!(*manager.task_mut(1), 2);
    assert_eq!(manager.next_event(1), NOW_MS + 10);
}

#[test]
fn refresh_puts_every_next_run_after_now() {
    let mut manager = TaskManager::builder()
        .with_task(1u32, "* * * * * *", NOW_MS)
        .unwrap()
        .with_task(2u32, "0 0 0 1 1 *", NOW_MS)
        .unwrap()
        .build();
    let later = NOW_MS + 3_600_000;
    assert_eq!(manager.refresh(later), Ok(()));
    assert_eq!(manager.len(), 2);
    assert!(manager.next_event(0) > later);
    assert!(manager.next_event(1) > later);
}
