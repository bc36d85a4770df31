use operoid::server::{default_dirs, parse_u16, resolve_dirs, server_args, server_token, shutdown_step, ShutdownStep};
use operoid::app_config::{AppConfig, BrainEntry, DEFAULT_BRAIN_ID};
use operoid::server::{
    check_enabled, dispatched, err_status, health_status, ingress, remove_brain, set_active_brain, set_active_source,
    IngressAnswer, SeenRefs,
};

fn cfg_with(ids: &[&str], active: &str) -> AppConfig {
    let mut c = AppConfig::default();
    c.brains = ids
        .iter()
        .map(|id| BrainEntry { id: id.to_string(), name: id.to_string(), gbrain_home: Some(format!("/b/{id}")) })
        .collect();
    c.active_brain_id = Some(active.to_string());
    c.active_source_id = Some("src".to_string());
    c
}

#[test]
fn error_statuses() {
    assert_eq!(err_status("agent_os.taskNotFound"), 404);
    assert_eq!(err_status("agent_os.employeeBusy"), 409);
    assert_eq!(err_status("agent_os.invalidTransition"), 409);
    assert_eq!(err_status("server.notReady"), 503);
    assert_eq!(err_status("brain.notFound"), 500);
    assert_eq!(health_status(true), "ready");
    assert_eq!(health_status(false), "warming");
    assert!(check_enabled(true).is_ok());
    assert_eq!(check_enabled(false).unwrap_err().code(), "agent_os.disabled");
}

#[test]
fn removing_the_active_brain_falls_back_to_default() {
    let mut c = cfg_with(&[DEFAULT_BRAIN_ID, "demo", "work"], "demo");
    remove_brain(&mut c, "demo").unwrap();
    let ids: Vec<&str> = c.brains.iter().map(|b| b.id.as_str()).collect();
    assert_eq!(ids, vec![DEFAULT_BRAIN_ID, "work"]);
    assert_eq!(c.active_brain_id.as_deref(), Some(DEFAULT_BRAIN_ID));
    assert!(c.active_source_id.is_none());
    // Removing another brain keeps the active one and its source.
    let mut c = cfg_with(&[DEFAULT_BRAIN_ID, "demo", "work"], "work");
    remove_brain(&mut c, "demo").unwrap();
    assert_eq!(c.active_brain_id.as_deref(), Some("work"));
    assert_eq!(c.active_source_id.as_deref(), Some("src"));
}

#[test]
fn default_and_unknown_brains_are_refused() {
    let mut c = cfg_with(&[DEFAULT_BRAIN_ID, "demo"], "demo");
    assert_eq!(remove_brain(&mut c, DEFAULT_BRAIN_ID).unwrap_err().code(), "brain.cannotRemoveDefault");
    let e = remove_brain(&mut c, "nope").unwrap_err();
    assert_eq!(e.code(), "brain.notFound");
    assert_eq!(e.msg.params, vec![("id".to_string(), "nope".to_string())]);
    assert_eq!(c.brains.len(), 2);
    assert_eq!(set_active_brain(&mut c, "nope").unwrap_err().code(), "brain.notFound");
    assert_eq!(c.active_brain_id.as_deref(), Some("demo"));
    set_active_brain(&mut c, DEFAULT_BRAIN_ID).unwrap();
    assert_eq!(c.active_brain_id.as_deref(), Some(DEFAULT_BRAIN_ID));
    assert!(c.active_source_id.is_none());
    set_active_source(&mut c, Some("notes".into()));
    assert_eq!(c.active_source_id.as_deref(), Some("notes"));
}

#[test]
fn repeated_external_reference_is_ignored() {
    let mut seen = SeenRefs::new();
    let ev = || Ok(("email".to_string(), Some("email:msg:%3Ca%40b%3E".to_string())));
    assert_eq!(ingress(true, ev(), true, &mut seen), IngressAnswer::Dispatch);
    assert_eq!(ingress(true, ev(), true, &mut seen), IngressAnswer::Done(200, "duplicate; ignored".into()));
    // Another source with the same reference is new.
    assert_eq!(
        ingress(true, Ok(("webhook".to_string(), Some("email:msg:%3Ca%40b%3E".to_string()))), true, &mut seen),
        IngressAnswer::Dispatch
    );
    // Without a reference nothing is deduplicated.
    assert_eq!(ingress(true, Ok(("email".to_string(), None)), true, &mut seen), IngressAnswer::Dispatch);
    assert_eq!(ingress(true, Ok(("email".to_string(), None)), true, &mut seen), IngressAnswer::Dispatch);
}

#[test]
fn ingress_refusals() {
    let mut seen = SeenRefs::new();
    assert_eq!(
        ingress(false, Ok(("email".into(), None)), true, &mut seen),
        IngressAnswer::Refused(401, "auth.unauthorized".into(), None)
    );
    assert_eq!(
        ingress(true, Err("expected value".into()), true, &mut seen),
        IngressAnswer::Refused(400, "ingress.badRequest".into(), Some("expected value".into()))
    );
    assert_eq!(
        ingress(true, Ok(("email".into(), Some("r".into()))), false, &mut seen),
        IngressAnswer::Refused(503, "server.notReady".into(), None)
    );
    // The refused event was not remembered.
    assert_eq!(ingress(true, Ok(("email".into(), Some("r".into()))), true, &mut seen), IngressAnswer::Dispatch);
    assert_eq!(dispatched(Ok(())), IngressAnswer::Done(202, "accepted".into()));
    assert_eq!(
        dispatched(Err("db".into())),
        IngressAnswer::Refused(500, "ingress.dispatchFail".into(), Some("db".into()))
    );
}

#[test]
fn port_numbers_parse_like_std() {
    assert_eq!(parse_u16("7340"), Some(7340));
    assert_eq!(parse_u16("+80"), Some(80));
    assert_eq!(parse_u16("65535"), Some(65535));
    assert_eq!(parse_u16("65536"), None);
    assert_eq!(parse_u16("99999999999"), None);
    assert_eq!(parse_u16(""), None);
    assert_eq!(parse_u16("+"), None);
    assert_eq!(parse_u16("-1"), None);
    assert_eq!(parse_u16(" 80"), None);
    for s in ["0", "+0", "007", "123", "x1", "1x"] {
        assert_eq!(parse_u16(s), s.parse::<u16>().ok(), "{s}");
    }
}

#[test]
fn command_line_and_environment() {
    let a = |v: &[&str]| v.iter().map(|x| x.to_string()).collect::<Vec<_>>();
    assert_eq!(server_args(&a(&["oserver"]), None), (None, 7340));
    assert_eq!(server_args(&a(&["oserver"]), Some("8000".into())), (None, 8000));
    assert_eq!(server_args(&a(&["oserver"]), Some("nope".into())), (None, 7340));
    assert_eq!(
        server_args(&a(&["oserver", "--data-dir", "/d", "--port", "9000"]), Some("8000".into())),
        (Some("/d".to_string()), 9000)
    );
    assert_eq!(server_args(&a(&["oserver", "--port", "bad"]), Some("8000".into())), (None, 8000));
    assert_eq!(server_args(&a(&["oserver", "--data-dir"]), None), (None, 7340));
    assert_eq!(server_args(&a(&["--port", "1", "--port", "2"]), None), (None, 2));
    assert_eq!(server_token(Some("s3cret".into())).unwrap(), "s3cret");
    assert!(server_token(Some("   ".into())).unwrap_err().starts_with("未設 OSERVER_TOKEN"));
    assert!(server_token(None).is_err());
}

#[test]
fn shutdown_waits_for_busy_employees_at_most_two_minutes() {
    assert!(shutdown_step(0, 0) == ShutdownStep::Exit);
    assert!(shutdown_step(2, 5) == ShutdownStep::Wait);
    assert!(shutdown_step(2, 120) == ShutdownStep::ForceExit);
    let d = resolve_dirs(Some("/tmp/x")).unwrap();
    assert_eq!(d.settings_dir, "/tmp/x");
    assert_eq!(d.db_dir, "/tmp/x");
}

#[test]
fn default_dirs_end_with_the_app_directory() {
    match default_dirs() {
        Ok(d) => {
            assert!(d.settings_dir.ends_with("com.operoid.studio"));
            assert!(d.db_dir.ends_with("com.operoid.studio"));
        }
        Err(m) => assert!(m == "無法解析 Roaming AppData 目錄" || m == "無法解析 Local AppData 目錄"),
    }
}
