use operoid::scheduler::{errored_to_reset, inbox_candidates, EmployeeStatus};
use operoid::scheduler::{scheduler_step, SchedulerEvent, SchedulerWork};
use operoid::scheduler::{commitment_wake_due, commitment_wake_due_at, CommitmentRetry, EmployeeState};

fn com(retry_count: u32, next_retry_at: Option<String>) -> CommitmentRetry {
    CommitmentRetry { retry_count, next_retry_at }
}

fn in_future() -> Option<String> {
    Some((chrono::Utc::now() + chrono::Duration::hours(1)).to_rfc3339())
}

fn in_past() -> Option<String> {
    Some((chrono::Utc::now() - chrono::Duration::hours(1)).to_rfc3339())
}

#[test]
fn commitment_wake_due_matrix() {
    let s = EmployeeState::Sleeping;
    assert!(commitment_wake_due(s, false, &vec![com(0, None)], true));
    assert!(!commitment_wake_due(s, false, &vec![com(0, None)], false));
    assert!(commitment_wake_due(s, false, &vec![com(1, in_past())], false));
    assert!(!commitment_wake_due(s, false, &vec![com(1, in_future())], false));
    assert!(!commitment_wake_due(s, false, &vec![com(3, in_past())], false));
    assert!(!commitment_wake_due(s, false, &vec![], true));
    assert!(!commitment_wake_due(s, true, &vec![com(0, None)], true));
    assert!(!commitment_wake_due(EmployeeState::Working, false, &vec![com(0, None)], true));
    assert!(commitment_wake_due(s, false, &vec![com(0, None), com(1, in_past())], false));
}

#[test]
fn wake_rule_at_fixed_time() {
    let now = (1_800_000_000i64, 0u32);
    let t = Some("2027-01-15T08:00:00Z".to_string()); // 1_800_000_000 s after the epoch
    assert!(commitment_wake_due_at(EmployeeState::Sleeping, false, &vec![com(1, t.clone())], false, now, 3));
    assert!(!commitment_wake_due_at(EmployeeState::Sleeping, false, &vec![com(1, t)], false, (1_799_999_999, 0), 3));
    let bad = Some("not a time".to_string());
    assert!(commitment_wake_due_at(EmployeeState::Sleeping, false, &vec![com(0, bad)], false, now, 3));
}

#[test]
fn scans_pick_the_right_employees() {
    let e = |id: &str, state: EmployeeState, archived: bool, tasks: usize, coms: usize| EmployeeStatus {
        id: id.into(),
        state,
        archived,
        assigned_tasks: tasks,
        active_commitments: coms,
    };
    let emps = vec![
        e("a", EmployeeState::Sleeping, false, 1, 0),
        e("b", EmployeeState::Sleeping, true, 1, 0),
        e("c", EmployeeState::Working, false, 2, 0),
        e("d", EmployeeState::Sleeping, false, 0, 1),
        e("x", EmployeeState::Error, false, 0, 1),
        e("y", EmployeeState::Error, true, 3, 0),
        e("z", EmployeeState::Error, false, 0, 0),
    ];
    assert_eq!(inbox_candidates(&emps), vec!["a".to_string()]);
    assert_eq!(errored_to_reset(&emps), vec!["x".to_string()]);
}

#[test]
fn only_the_first_tick_is_the_startup_scan() {
    let (started, work) = scheduler_step(false, SchedulerEvent::Wake);
    assert!(!started);
    assert!(work == vec![SchedulerWork::ScanInbox]);
    let (started, work) = scheduler_step(started, SchedulerEvent::Tick);
    assert!(started);
    assert!(work == vec![SchedulerWork::ScanCommitments(true), SchedulerWork::ResetErrored, SchedulerWork::ScanInbox]);
    let (started, work) = scheduler_step(started, SchedulerEvent::Tick);
    assert!(started);
    assert!(work[0] == SchedulerWork::ScanCommitments(false));
    let (_, work) = scheduler_step(started, SchedulerEvent::Inbound);
    assert!(work == vec![SchedulerWork::Dispatch]);
}
