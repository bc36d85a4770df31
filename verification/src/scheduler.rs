//! The scheduler's wake rule for commitments: at start-up every sleeping, unarchived employee
//! with an active commitment wakes; on later ticks only one whose failed commitment has waited out
//! its back-off and still has retries left.
use vstd::prelude::*;

verus! {

/// The states of an employee that the scheduler distinguishes.
#[derive(Debug, Clone, Copy, PartialEq, Eq, Structural)]
pub enum EmployeeState {
    Sleeping,
    Working,
    Error,
}

/// The retry state of an active commitment.
#[derive(Debug, Clone)]
pub struct CommitmentRetry {
    pub retry_count: u32,
    /// When the commitment may run again after a failure (RFC 3339); `None` for a healthy one.
    pub next_retry_at: Option<String>,
}

/// Retries after which a commitment waits for a person.
pub const MAX_COMMITMENT_RETRIES: u32 = 3;

/// The instant that `chrono::DateTime::parse_from_rfc3339` reads in a timestamp, as seconds and
/// nanoseconds since the Unix epoch.
pub uninterp spec fn rfc3339_instant(t: Seq<char>) -> Option<(i64, u32)>;

/// `chrono::DateTime::parse_from_rfc3339`, as an instant.
#[verifier::external_body]
fn parse_rfc3339(t: &str) -> (r: Option<(i64, u32)>)
    ensures
        r == rfc3339_instant(t@),
{
    chrono::DateTime::parse_from_rfc3339(t).ok().map(|d| (d.timestamp(), d.timestamp_subsec_nanos()))
}

/// The current time (`chrono::Utc::now`), as seconds and nanoseconds since the Unix epoch.
#[verifier::external_body]
fn utc_now() -> (i64, u32) {
    let n = chrono::Utc::now();
    (n.timestamp(), n.timestamp_subsec_nanos())
}

pub open spec fn not_after(a: (i64, u32), b: (i64, u32)) -> bool {
    a.0 < b.0 || (a.0 == b.0 && a.1 <= b.1)
}

/// A commitment is due at `now` when it has retries left and its back-off has passed (an
/// unreadable timestamp counts as passed; a healthy commitment is never due).
pub open spec fn due_at(c: CommitmentRetry, now: (i64, u32), max_retries: u32) -> bool {
    c.retry_count < max_retries && match c.next_retry_at {
        None => false,
        Some(t) => match rfc3339_instant(t@) {
            Some(at) => not_after(at, now),
            None => true,
        },
    }
}

/// Whether an employee wakes for its commitments at `now`.
pub open spec fn wake_due_spec(
    state: EmployeeState,
    archived: bool,
    coms: Seq<CommitmentRetry>,
    startup: bool,
    now: (i64, u32),
    max_retries: u32,
) -> bool {
    state == EmployeeState::Sleeping && !archived && coms.len() > 0 && (startup || exists|i: int|
        0 <= i < coms.len() && due_at(#[trigger] coms[i], now, max_retries))
}

/// The wake rule at a given time.
pub fn commitment_wake_due_at(
    state: EmployeeState,
    archived: bool,
    coms: &Vec<CommitmentRetry>,
    startup: bool,
    now: (i64, u32),
    max_retries: u32,
) -> (r: bool)
    ensures
        r == wake_due_spec(state, archived, coms@, startup, now, max_retries),
{
    if state != EmployeeState::Sleeping || archived || coms.len() == 0 {
        return false;
    }
    if startup {
        return true;
    }
    let mut i: usize = 0;
    while i < coms.len()
        invariant
            i <= coms.len(),
            state == EmployeeState::Sleeping && !archived && coms@.len() > 0,
            forall|k: int| 0 <= k < i ==> !due_at(#[trigger] coms@[k], now, max_retries),
        decreases coms.len() - i,
    {
        let c = &coms[i];
        let due = if c.retry_count >= max_retries {
            false
        } else {
            match &c.next_retry_at {
                None => false,
                Some(t) => match parse_rfc3339(t.as_str()) {
                    Some(at) => at.0 < now.0 || (at.0 == now.0 && at.1 <= now.1),
                    None => true,
                },
            }
        };
        if due {
            assert(due_at(coms@[i as int], now, max_retries));
            return true;
        }
        i += 1;
    }
    false
}

/// The wake rule now (the clock is read once).
pub fn commitment_wake_due(state: EmployeeState, archived: bool, coms: &Vec<CommitmentRetry>, startup: bool) -> (r: bool)
    ensures
        exists|now: (i64, u32)| r == wake_due_spec(state, archived, coms@, startup, now, MAX_COMMITMENT_RETRIES),
        !(state == EmployeeState::Sleeping && !archived && coms@.len() > 0) ==> !r,
        (state == EmployeeState::Sleeping && !archived && coms@.len() > 0 && startup) ==> r,
{
    let now = utc_now();
    commitment_wake_due_at(state, archived, coms, startup, now, MAX_COMMITMENT_RETRIES)
}


/// What a scan needs to know of an employee.
#[derive(Debug, Clone)]
pub struct EmployeeStatus {
    pub id: String,
    pub state: EmployeeState,
    pub archived: bool,
    /// Tasks assigned to the employee and not yet done.
    pub assigned_tasks: usize,
    /// The employee's active commitments.
    pub active_commitments: usize,
}

/// The employees the inbox scan wakes: sleeping, not archived, with assigned work; in order.
pub open spec fn inbox_due(emps: Seq<EmployeeStatus>) -> Seq<Seq<char>>
    decreases emps.len(),
{
    if emps.len() == 0 {
        Seq::empty()
    } else {
        let e = emps.last();
        let rest = inbox_due(emps.drop_last());
        if e.state == EmployeeState::Sleeping && !e.archived && e.assigned_tasks > 0 {
            rest.push(e.id@)
        } else {
            rest
        }
    }
}

/// The employees stuck in the error state with work to do, which go back to sleeping (to be
/// retried); archived ones stay as they are.
pub open spec fn reset_due(emps: Seq<EmployeeStatus>) -> Seq<Seq<char>>
    decreases emps.len(),
{
    if emps.len() == 0 {
        Seq::empty()
    } else {
        let e = emps.last();
        let rest = reset_due(emps.drop_last());
        if e.state == EmployeeState::Error && !e.archived && (e.assigned_tasks > 0 || e.active_commitments > 0) {
            rest.push(e.id@)
        } else {
            rest
        }
    }
}

/// Employee `e` is stuck in the error state with work to do: not archived, with an assigned task
/// or an active commitment (either is enough).
pub open spec fn errored_with_work(e: EmployeeStatus) -> bool {
    e.state == EmployeeState::Error && !e.archived && (e.assigned_tasks > 0 || e.active_commitments > 0)
}

/// Some employee with this id is stuck in the error state with work to do.
pub open spec fn some_errored_with_work(emps: Seq<EmployeeStatus>, id: Seq<char>) -> bool {
    exists|i: int| 0 <= i < emps.len() && (#[trigger] emps[i]).id@ == id && errored_with_work(emps[i])
}

/// An errored employee comes back exactly when it has work: every unarchived employee in the
/// error state with an assigned task or an active commitment is reset, and every id reset is such
/// an employee's.
pub proof fn lemma_reset_has_work(emps: Seq<EmployeeStatus>)
    ensures
        forall|i: int|
            0 <= i < emps.len() && (#[trigger] emps[i]).state == EmployeeState::Error && !emps[i].archived
                && (emps[i].assigned_tasks > 0 || emps[i].active_commitments > 0) ==> reset_due(emps).contains(
                emps[i].id@,
            ),
        forall|k: int| 0 <= k < reset_due(emps).len() ==> some_errored_with_work(emps, #[trigger] reset_due(emps)[k]),
    decreases emps.len(),
{
    if emps.len() > 0 {
        let p = emps.drop_last();
        lemma_reset_has_work(p);
        let rp = reset_due(p);
        let r = reset_due(emps);
        let e = emps.last();
        assert forall|i: int|
            0 <= i < emps.len() && (#[trigger] emps[i]).state == EmployeeState::Error && !emps[i].archived
                && (emps[i].assigned_tasks > 0 || emps[i].active_commitments > 0) implies r.contains(emps[i].id@) by {
            if i < p.len() {
                assert(p[i] == emps[i]);
                assert(rp.contains(p[i].id@));
                let k = choose|k: int| 0 <= k < rp.len() && rp[k] == p[i].id@;
                if r != rp {
                    assert(r[k] == rp[k]);
                }
            } else {
                assert(emps[i] == e);
                assert(r[r.len() - 1] == e.id@);
            }
        }
        assert forall|k: int| 0 <= k < r.len() implies some_errored_with_work(emps, #[trigger] r[k]) by {
            if k < rp.len() {
                if r != rp {
                    assert(r[k] == rp[k]);
                }
                assert(some_errored_with_work(p, rp[k]));
                let i = choose|i: int| 0 <= i < p.len() && (#[trigger] p[i]).id@ == rp[k] && errored_with_work(p[i]);
                assert(emps[i] == p[i]);
            } else {
                assert(r == rp.push(e.id@));
                assert(r[k] == e.id@);
                assert(emps[emps.len() - 1] == e);
            }
        }
    }
}

/// The employees the inbox scan wakes.
pub fn inbox_candidates(emps: &Vec<EmployeeStatus>) -> (r: Vec<String>)
    ensures
        crate::text::views_of(r@) == inbox_due(emps@),
{
    let mut r: Vec<String> = Vec::new();
    let mut i: usize = 0;
    while i < emps.len()
        invariant
            i <= emps@.len(),
            crate::text::views_of(r@) == inbox_due(emps@.take(i as int)),
        decreases emps@.len() - i,
    {
        assert(emps@.take(i as int + 1).drop_last() =~= emps@.take(i as int));
        let e = &emps[i];
        if e.state == EmployeeState::Sleeping && !e.archived && e.assigned_tasks > 0 {
            let ghost before = crate::text::views_of(r@);
            r.push(crate::text::owned(e.id.as_str()));
            assert(crate::text::views_of(r@) =~= before.push(e.id@));
        }
        i += 1;
    }
    assert(emps@.take(i as int) =~= emps@);
    r
}

/// The employees that go from the error state back to sleeping.
pub fn errored_to_reset(emps: &Vec<EmployeeStatus>) -> (r: Vec<String>)
    ensures
        crate::text::views_of(r@) == reset_due(emps@),
        forall|i: int|
            0 <= i < emps@.len() && errored_with_work(#[trigger] emps@[i]) ==> crate::text::views_of(r@).contains(
                emps@[i].id@,
            ),
        forall|k: int| 0 <= k < r@.len() ==> some_errored_with_work(emps@, (#[trigger] r@[k])@),
{
    proof {
        lemma_reset_has_work(emps@);
    }
    let mut r: Vec<String> = Vec::new();
    let mut i: usize = 0;
    while i < emps.len()
        invariant
            i <= emps@.len(),
            crate::text::views_of(r@) == reset_due(emps@.take(i as int)),
        decreases emps@.len() - i,
    {
        assert(emps@.take(i as int + 1).drop_last() =~= emps@.take(i as int));
        let e = &emps[i];
        if e.state == EmployeeState::Error && !e.archived && (e.assigned_tasks > 0 || e.active_commitments > 0) {
            let ghost before = crate::text::views_of(r@);
            r.push(crate::text::owned(e.id.as_str()));
            assert(crate::text::views_of(r@) =~= before.push(e.id@));
        }
        i += 1;
    }
    assert(emps@.take(i as int) =~= emps@);
    proof {
        assert forall|k: int| 0 <= k < r@.len() implies some_errored_with_work(emps@, (#[trigger] r@[k])@) by {
            assert(crate::text::views_of(r@)[k] == r@[k]@);
        }
    }
    r
}

/// What wakes the scheduler.
#[derive(Debug, Clone, Copy, PartialEq, Eq, Structural)]
pub enum SchedulerEvent {
    /// The 30-second tick.
    Tick,
    /// A wake signal (a message arrived, or a manual trigger).
    Wake,
    /// An inbound event to route.
    Inbound,
}

/// One piece of work of the scheduler.
#[derive(Debug, Clone, Copy, PartialEq, Eq, Structural)]
pub enum SchedulerWork {
    /// Wake the employees due for their commitments (`true`: the start-up scan).
    ScanCommitments(bool),
    /// Put employees stuck in the error state with work back to sleep.
    ResetErrored,
    /// Wake the sleeping employees with assigned tasks.
    ScanInbox,
    /// Route the inbound event.
    Dispatch,
}

/// The scheduler's loop: the first tick scans commitments as the start-up scan, every tick then
/// resets errored employees and scans the inbox; a wake signal scans the inbox; an inbound event is
/// routed. Returns whether a tick has happened, and the work in order.
pub fn scheduler_step(started: bool, ev: SchedulerEvent) -> (r: (bool, Vec<SchedulerWork>))
    ensures
        ev == SchedulerEvent::Tick ==> r.0 && r.1@ == seq![
            SchedulerWork::ScanCommitments(!started),
            SchedulerWork::ResetErrored,
            SchedulerWork::ScanInbox,
        ],
        ev == SchedulerEvent::Wake ==> r.0 == started && r.1@ == seq![SchedulerWork::ScanInbox],
        ev == SchedulerEvent::Inbound ==> r.0 == started && r.1@ == seq![SchedulerWork::Dispatch],
{
    match ev {
        SchedulerEvent::Tick => {
            let v = vec![SchedulerWork::ScanCommitments(!started), SchedulerWork::ResetErrored, SchedulerWork::ScanInbox];
            (true, v)
        },
        SchedulerEvent::Wake => (started, vec![SchedulerWork::ScanInbox]),
        SchedulerEvent::Inbound => (started, vec![SchedulerWork::Dispatch]),
    }
}

} // verus!
