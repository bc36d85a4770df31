//! Routing of inbound events: an event names an employee (who gets it) or a brain (every
//! employee that shares the brain gets it); archived employees get nothing. Each target receives
//! the event's review text as an incoming message and as a `Human message` task, which the
//! existing conversation turn picks up. Looking employees up, storing and waking happen outside.
use vstd::prelude::*;
use crate::contract::{review_prompt_spec, InboundEvent};
use crate::text::owned;

verus! {

/// Where an event is routed.
#[derive(Debug, Clone)]
pub enum Route {
    /// To this employee (the event named one).
    Employee(String),
    /// To every employee of this brain.
    Brain(String),
    /// Nowhere: the event names neither; it is dropped.
    Unrouted,
}

/// The route of an event: its employee when it names one, else its brain, else none.
pub fn route_of(ev: &InboundEvent) -> (r: Route)
    ensures
        match ev.employee_id {
            Some(id) => r matches Route::Employee(x) && x@ == id@,
            None => match ev.brain_id {
                Some(b) => r matches Route::Brain(x) && x@ == b@,
                None => r is Unrouted,
            },
        },
{
    match &ev.employee_id {
        Some(id) => Route::Employee(owned(id.as_str())),
        None => match &ev.brain_id {
            Some(b) => Route::Brain(owned(b.as_str())),
            None => Route::Unrouted,
        },
    }
}

/// An employee found for a route: what the delivery needs of it.
#[derive(Debug, Clone)]
pub struct EmployeeRef {
    pub id: String,
    pub workspace_id: String,
    pub archived: bool,
}

/// What one target employee receives: the review text as an incoming message and as an assigned
/// task with the objective `Human message`, carrying the event's reply anchor and source.
#[derive(Debug, Clone)]
pub struct Delivery {
    pub employee_id: String,
    pub workspace_id: String,
    pub text: String,
    pub objective: String,
    pub external_reply_to: Option<String>,
    pub external_source: String,
}

/// What dispatching an event does: the deliveries, in the order the employees were found, and the
/// brain to sync first (when the event names a brain and someone receives it).
#[derive(Debug)]
pub struct DispatchPlan {
    pub deliveries: Vec<Delivery>,
    pub sync_brain: Option<String>,
}

pub open spec fn opt_seq(o: Option<String>) -> Option<Seq<char>> {
    match o {
        Some(s) => Some(s@),
        None => None,
    }
}

/// The employees that receive the event: those found, archived ones left out, in order.
pub open spec fn live(found: Seq<EmployeeRef>) -> Seq<EmployeeRef>
    decreases found.len(),
{
    if found.len() == 0 {
        found
    } else if found.last().archived {
        live(found.drop_last())
    } else {
        live(found.drop_last()).push(found.last())
    }
}

pub open spec fn is_delivery(d: Delivery, ev: InboundEvent, e: EmployeeRef) -> bool {
    &&& d.employee_id@ == e.id@
    &&& d.workspace_id@ == e.workspace_id@
    &&& d.text@ == review_prompt_spec(ev)
    &&& d.objective@ == "Human message"@
    &&& opt_seq(d.external_reply_to) == opt_seq(ev.reply_to)
    &&& d.external_source@ == ev.source@
}

/// The brain to sync before the employees read the event: the event's brain, when it names one
/// and someone receives the event.
pub fn brain_sync_gate(brain_id: &Option<String>, has_targets: bool) -> (r: Option<String>)
    ensures
        match brain_id {
            Some(b) => if has_targets {
                r matches Some(x) && x@ == b@
            } else {
                r is None
            },
            None => r is None,
        },
{
    match brain_id {
        Some(b) => if has_targets {
            Some(owned(b.as_str()))
        } else {
            None
        },
        None => None,
    }
}

fn copy_opt(o: &Option<String>) -> (r: Option<String>)
    ensures
        opt_seq(r) == opt_seq(*o),
{
    match o {
        Some(s) => Some(owned(s.as_str())),
        None => None,
    }
}

/// What dispatching `ev` does, given whether the Agent OS is on and the employees found for its
/// route: nothing while it is off; else one delivery per employee that is not archived, and the
/// brain sync gate.
pub fn dispatch_event(agent_os_enabled: bool, ev: &InboundEvent, found: &Vec<EmployeeRef>) -> (r: DispatchPlan)
    ensures
        !agent_os_enabled ==> r.deliveries@.len() == 0 && r.sync_brain is None,
        agent_os_enabled ==> r.deliveries@.len() == live(found@).len(),
        agent_os_enabled ==> forall|i: int|
            0 <= i < r.deliveries@.len() ==> is_delivery(#[trigger] r.deliveries@[i], *ev, live(found@)[i]),
        agent_os_enabled ==> match ev.brain_id {
            Some(b) => if live(found@).len() > 0 {
                r.sync_brain matches Some(x) && x@ == b@
            } else {
                r.sync_brain is None
            },
            None => r.sync_brain is None,
        },
{
    if !agent_os_enabled {
        return DispatchPlan { deliveries: Vec::new(), sync_brain: None };
    }
    let prompt = ev.review_prompt();
    let mut ds: Vec<Delivery> = Vec::new();
    let mut i: usize = 0;
    while i < found.len()
        invariant
            i <= found@.len(),
            prompt@ == review_prompt_spec(*ev),
            ds@.len() == live(found@.take(i as int)).len(),
            forall|k: int|
                0 <= k < ds@.len() ==> is_delivery(#[trigger] ds@[k], *ev, live(found@.take(i as int))[k]),
        decreases found@.len() - i,
    {
        let ghost t = found@.take(i as int + 1);
        assert(t.drop_last() =~= found@.take(i as int));
        assert(t.last() == found@[i as int]);
        let e = &found[i];
        if !e.archived {
            ds.push(
                Delivery {
                    employee_id: owned(e.id.as_str()),
                    workspace_id: owned(e.workspace_id.as_str()),
                    text: owned(prompt.as_str()),
                    objective: owned("Human message"),
                    external_reply_to: copy_opt(&ev.reply_to),
                    external_source: owned(ev.source.as_str()),
                },
            );
        }
        i += 1;
    }
    assert(found@.take(i as int) =~= found@);
    let sync_brain = brain_sync_gate(&ev.brain_id, ds.len() > 0);
    DispatchPlan { deliveries: ds, sync_brain }
}


/// Archived employees never receive an event: everyone who receives one was found for its route
/// and is not archived.
pub proof fn lemma_live_unarchived(found: Seq<EmployeeRef>)
    ensures
        forall|i: int| 0 <= i < live(found).len() ==> !(#[trigger] live(found)[i]).archived,
        forall|i: int| 0 <= i < live(found).len() ==> found.contains(#[trigger] live(found)[i]),
    decreases found.len(),
{
    if found.len() > 0 {
        let p = found.drop_last();
        lemma_live_unarchived(p);
        let l = live(found);
        let lp = live(p);
        assert forall|i: int| 0 <= i < l.len() implies found.contains(#[trigger] l[i]) by {
            if i < lp.len() {
                assert(l[i] == lp[i]);
                assert(p.contains(lp[i]));
                let k = choose|k: int| 0 <= k < p.len() && p[k] == lp[i];
                assert(found[k] == p[k]);
            } else {
                assert(l[i] == found.last());
                assert(found[found.len() - 1] == found.last());
            }
        }
        assert forall|i: int| 0 <= i < l.len() implies !(#[trigger] l[i]).archived by {
            if i < lp.len() {
                assert(l[i] == lp[i]);
            }
        }
    }
}

} // verus!
