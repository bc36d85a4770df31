use operoid::brains::{
    add_source_args, bind_args, bind_done, bind_step_line, exe_path, list_sources_args, refresh_commands,
    remove_source_args, source_repo_check, sync_done, SourceAdd, SourceRef,
    };
use operoid::app_config::{AppConfig, BrainEntry};
use operoid::brains::{
    add_brain_home, cli_failed, default_models, extract_json, init_args, init_models, init_outcome,
    model_sync_keys, not_a_brain, register_brain, sources_json, step_line, sync_args,
    sync_targets, unique_id, AddBrainReq, ConfiguredModels, GbrainSource,
};

#[test]
fn extracts_json_object() {
    let s = "banner\n{\"sources\":[]}\ntail";
    assert_eq!(extract_json(s).unwrap(), "{\"sources\":[]}");
}

#[test]
fn extract_json_needs_braces_in_order() {
    assert_eq!(extract_json("} then {"), None);
    assert_eq!(extract_json("no json"), None);
    assert_eq!(extract_json("{a}{b}"), Some("{a}{b}".to_string()));
    assert_eq!(sources_json("oops").unwrap_err(), "無法解析 sources JSON：oops");
}

#[test]
fn unique_id_avoids_collision() {
    let c = AppConfig::default();
    let a = unique_id(&c, "demo");
    assert_eq!(a, "demo");
    let mut c2 = c.clone();
    c2.brains.push(BrainEntry {
        id: "demo".into(),
        name: "demo".into(),
        gbrain_home: Some("/x".into()),
    });
    assert_eq!(unique_id(&c2, "demo"), "demo-2");
    c2.brains.push(BrainEntry { id: "demo-2".into(), name: "d".into(), gbrain_home: None });
    c2.brains.push(BrainEntry { id: "demo-3".into(), name: "d".into(), gbrain_home: None });
    assert_eq!(unique_id(&c2, "demo"), "demo-4");
}

fn req(home: Option<&str>) -> AddBrainReq {
    AddBrainReq {
        name: "Mine".into(),
        gbrain_home: home.map(|h| h.to_string()),
        create: true,
        embedding_model: Some(String::new()),
        embedding_dimensions: Some(0),
        chat_model: Some("gpt-x".into()),
    }
}

#[test]
fn add_brain_validates_home() {
    let mut c = AppConfig::default();
    assert_eq!(add_brain_home(&c, &req(None)).unwrap_err().code(), "brain.needPath");
    assert_eq!(add_brain_home(&c, &req(Some("   "))).unwrap_err().code(), "brain.needPath");
    assert_eq!(add_brain_home(&c, &req(Some(" /b "))).unwrap(), "/b");
    c.brains.push(BrainEntry { id: "b".into(), name: "b".into(), gbrain_home: Some("/b".into()) });
    let e = add_brain_home(&c, &req(Some(" /b "))).unwrap_err();
    assert_eq!(e.code(), "brain.alreadyRegistered");
    assert_eq!(e.msg.params, vec![("path".to_string(), "/b".to_string())]);
}

#[test]
fn init_uses_requested_or_default_models() {
    let d = default_models(None, "chat-default");
    assert_eq!(d, ("ollama:embeddinggemma".to_string(), 768, "chat-default".to_string()));
    let loaded = ConfiguredModels { embedding_model: Some("e".into()), embedding_dimensions: None, chat_model: None };
    assert_eq!(default_models(Some(loaded), "c").1, 768);
    let (em, dim, cm) = init_models(&req(Some("/n")), d);
    assert_eq!((em.as_str(), dim, cm.as_str()), ("ollama:embeddinggemma", 768, "gpt-x"));
    let args = init_args(&em, dim, &cm);
    assert_eq!(args[0], "init");
    assert_eq!(args[6], "768");
    assert_eq!(args.len(), 10);
    assert_eq!(init_args("e", -5, "c")[6], "-5");
}

#[test]
fn init_outcome_requires_code_zero_and_config() {
    assert!(init_outcome(0, true, "").is_ok());
    let e = init_outcome(0, false, "no config").unwrap_err();
    assert_eq!(e.code(), "brain.initFailed");
    assert_eq!(e.msg.params[0], ("code".to_string(), "0".to_string()));
    let e = init_outcome(3, true, "boom").unwrap_err();
    assert_eq!(e.msg.params[1], ("detail".to_string(), "boom".to_string()));
    assert_eq!(not_a_brain("/x/.gbrain/config.json", "/x").code(), "brain.notABrain");
    assert_eq!(cli_failed("source.addFailed", -1, "e").msg.params[0].1, "-1");
    assert_eq!(model_sync_keys().len(), 7);
}

#[test]
fn register_brain_appends_unique_entry() {
    let c = AppConfig::default();
    let (c2, e) = register_brain(c, "Work", "/w/brain", Some("brain".into()));
    assert_eq!(e.id, "brain");
    let (c3, e3) = register_brain(c2, "Work2", "/w2/brain", Some("brain".into()));
    assert_eq!(e3.id, "brain-2");
    assert_eq!(c3.brains.len(), 3);
    assert_eq!(c3.brains[2].gbrain_home.as_deref(), Some("/w2/brain"));
}

fn src(id: &str, path: Option<&str>) -> GbrainSource {
    GbrainSource {
        id: id.into(),
        name: id.into(),
        local_path: path.map(|p| p.to_string()),
        federated: false,
        page_count: 0,
        last_sync_at: None,
    }
}

#[test]
fn sync_plans_follow_scope() {
    let srcs = vec![src("a", Some("/a")), src("b", None), src("c", Some("/c"))];
    assert_eq!(sync_targets(&srcs, "all", None), vec!["/a", "/c"]);
    assert_eq!(sync_targets(&srcs, "one", Some("c")), vec!["/c"]);
    assert!(sync_targets(&srcs, "one", None).is_empty());
    assert_eq!(sync_args("all", None, true).unwrap(), vec!["sync", "--all", "--yes"]);
    assert_eq!(
        sync_args("one", Some("s"), true).unwrap(),
        vec!["sync", "--source", "s", "--no-pull", "--yes"]
    );
    assert_eq!(sync_args("one", Some("s"), false).unwrap(), vec!["sync", "--source", "s", "--yes"]);
    assert_eq!(sync_args("one", None, false).unwrap_err().code(), "source.needId");
    assert_eq!(sync_args("x", None, false).unwrap_err().code(), "source.unknownScope");
    let a = sync_args("all", None, false).unwrap();
    assert_eq!(step_line(&a), "▶ gbrain sync --all --yes");
}

#[test]
fn source_commands_and_results() {
    let mut c = operoid::app_config::AppConfig::default();
    c.gbrain_exe_path = "/bin/gbrain".into();
    assert_eq!(exe_path(&c, true).unwrap(), "/bin/gbrain");
    let e = exe_path(&c, false).unwrap_err();
    assert_eq!(e.code(), "gbrain.exeNotFound");
    assert_eq!(e.msg.params[0].1, "/bin/gbrain");
    assert_eq!(list_sources_args(), vec!["sources", "list", "--json"]);
    let add = SourceAdd { brain_id: "b".into(), source_id: "notes".into(), path: "/n".into() };
    assert_eq!(add_source_args(&add), vec!["sources", "add", "notes", "--path", "/n"]);
    assert_eq!(source_repo_check(&add, false).unwrap_err().code(), "source.notGitRepo");
    assert!(source_repo_check(&add, true).is_ok());
    let rm = SourceRef { brain_id: "b".into(), source_id: "notes".into() };
    assert_eq!(remove_source_args(&rm), vec!["sources", "remove", "notes"]);
    assert_eq!(bind_args("/n"), vec!["sync", "--repo", "/n", "--no-pull", "--yes"]);
    assert_eq!(bind_step_line("/n"), "▶ gbrain sync --repo /n --no-pull");
    let rc = refresh_commands();
    assert_eq!(rc[0], vec!["embed", "--stale"]);
    assert_eq!(rc[1], vec!["extract", "--stale"]);
    let r = sync_done(0, "all");
    assert!(r.success && r.exit_code == Some(0));
    assert_eq!(r.note.unwrap().params[0].1, "all");
    let r = bind_done(2, "/n");
    assert!(!r.success && r.exit_code == Some(2));
    assert_eq!(r.note.unwrap().key, "source.bindDone");
}
