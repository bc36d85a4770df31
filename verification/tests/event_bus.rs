use operoid::contract::{EventKind, InboundEvent};
use operoid::event_bus::{brain_sync_gate, dispatch_event, route_of, EmployeeRef, Route};

fn event(employee: Option<&str>, brain: Option<&str>) -> InboundEvent {
    InboundEvent {
        kind: EventKind::ExternalMessage,
        source: "email".into(),
        brain_id: brain.map(|s| s.to_string()),
        employee_id: employee.map(|s| s.to_string()),
        title: "測試".into(),
        content: "本體".into(),
        external_ref: None,
        occurred_at: None,
        reply_to: Some("email:msg:%3Ca%40b%3E".into()),
        category: None,
    }
}

fn emp(id: &str, archived: bool) -> EmployeeRef {
    EmployeeRef { id: id.into(), workspace_id: "ws".into(), archived }
}

#[test]
fn brain_sync_gate_requires_brain_and_targets() {
    assert!(brain_sync_gate(&None, true).is_none(), "缺 brain_id 不觸發");
    assert!(brain_sync_gate(&Some("no-such-brain".into()), false).is_none(), "0 路由目標不觸發");
    assert_eq!(brain_sync_gate(&Some("no-such-brain".into()), true).as_deref(), Some("no-such-brain"), "兩者皆備觸發");
}

#[test]
fn dispatch_skips_archived_employee() {
    let ev = event(None, Some("b1"));
    let plan = dispatch_event(true, &ev, &vec![emp("emp-arch", true)]);
    assert!(plan.deliveries.is_empty(), "封存員工不應收到 Message");
    assert!(plan.sync_brain.is_none());
}

#[test]
fn employee_route_takes_precedence() {
    assert!(matches!(route_of(&event(Some("e1"), Some("b1"))), Route::Employee(ref x) if x == "e1"));
    assert!(matches!(route_of(&event(None, Some("b1"))), Route::Brain(ref x) if x == "b1"));
    assert!(matches!(route_of(&event(None, None)), Route::Unrouted));
}

#[test]
fn every_live_employee_of_the_brain_gets_the_review() {
    let ev = event(None, Some("b1"));
    let plan = dispatch_event(true, &ev, &vec![emp("a", false), emp("b", true), emp("c", false)]);
    assert_eq!(plan.deliveries.len(), 2);
    assert_eq!(plan.deliveries[0].employee_id, "a");
    assert_eq!(plan.deliveries[1].employee_id, "c");
    let d = &plan.deliveries[1];
    assert_eq!(d.objective, "Human message");
    assert_eq!(d.text, ev.review_prompt());
    assert!(d.text.starts_with("📨 外部訊息（email）：〈測試〉\n"));
    assert_eq!(d.external_reply_to.as_deref(), Some("email:msg:%3Ca%40b%3E"));
    assert_eq!(d.external_source, "email");
    assert_eq!(plan.sync_brain.as_deref(), Some("b1"));
}

#[test]
fn nothing_is_dispatched_while_the_agent_os_is_off() {
    let ev = event(None, Some("b1"));
    let plan = dispatch_event(false, &ev, &vec![emp("a", false), emp("c", false)]);
    assert!(plan.deliveries.is_empty());
    assert!(plan.sync_brain.is_none());
}
