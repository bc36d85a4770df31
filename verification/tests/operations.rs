use operoid::gbrain_cli::{CliLine, OpResult};
use operoid::l10n::AppError;
use operoid::operations::{OpRegistry, MAX_LINES, MAX_SESSIONS};

fn line(stream: &str, text: &str) -> CliLine {
    CliLine { stream: stream.into(), text: text.into() }
}

#[test]
fn ring_collects_lines_and_finishes() {
    let mut reg = OpRegistry::new();
    let id = reg.create();
    reg.push(&id, line("stdout", "a"));
    reg.push(&id, line("step", "b"));
    let snap = reg.snapshot(&id, 0).unwrap();
    assert_eq!(snap.lines.len(), 2);
    assert!(!snap.done);
    let snap = reg.snapshot(&id, 1).unwrap();
    assert_eq!(snap.lines.len(), 1);
    assert_eq!(snap.lines[0].text, "b");
    reg.finish(&id, OpResult { success: true, exit_code: Some(0), note: None });
    let snap = reg.snapshot(&id, 2).unwrap();
    assert!(snap.done);
    assert!(snap.result.unwrap().success);
    assert!(reg.snapshot("nope", 0).is_none());
}

#[test]
fn ring_drops_oldest_lines() {
    let mut reg = OpRegistry::new();
    let id = reg.create();
    for i in 0..(MAX_LINES + 5) {
        reg.push(&id, line("stdout", &i.to_string()));
    }
    let snap = reg.snapshot(&id, 0).unwrap();
    assert_eq!(snap.lines.len(), MAX_LINES);
    assert_eq!(snap.dropped, 5);
    assert_eq!(snap.lines[0].text, "5");
    assert_eq!(snap.lines[MAX_LINES - 1].text, (MAX_LINES + 4).to_string());
    assert!(reg.snapshot(&id, MAX_LINES + 10).unwrap().lines.is_empty());
}

#[test]
fn ids_are_fresh_and_log_is_bounded() {
    let mut reg = OpRegistry::new();
    let a = reg.create();
    let b = reg.create();
    assert_eq!(a, "op-1");
    assert_eq!(b, "op-2");
    reg.finish_err(&a, &AppError::new("x"));
    let r = reg.snapshot(&a, 0).unwrap().result.unwrap();
    assert!(!r.success);
    assert_eq!(r.exit_code, None);
    for _ in 0..(MAX_SESSIONS - 2) {
        reg.create();
    }
    assert!(reg.snapshot(&a, 0).is_some());
    let c = reg.create();
    assert!(reg.snapshot(&a, 0).is_none(), "the oldest finished operation makes room");
    assert!(reg.snapshot(&b, 0).is_some(), "running operations stay");
    assert!(reg.snapshot(&c, 0).is_some());
}

#[test]
fn a_full_log_keeps_every_running_operation() {
    let mut reg = OpRegistry::new();
    let mut ids = Vec::new();
    for _ in 0..MAX_SESSIONS {
        ids.push(reg.create());
    }
    // Only the third is finished: it alone makes room.
    reg.finish(&ids[2], OpResult { success: true, exit_code: Some(0), note: None });
    let n = reg.create();
    assert!(reg.snapshot(&ids[2], 0).is_none());
    for (k, id) in ids.iter().enumerate() {
        if k != 2 {
            assert!(reg.snapshot(id, 0).is_some(), "{id} is still running");
        }
    }
    assert!(reg.snapshot(&n, 0).is_some());
    // Nothing finished: nothing is removed, the log grows past its bound.
    let m = reg.create();
    assert!(reg.snapshot(&ids[0], 0).is_some());
    assert!(reg.snapshot(&m, 0).is_some());
}
