use operoid::gbrain_cli::{commit_note, exit_code_or, git_init_steps, notes_not_found, notes_sync_done, stdout_line, sync_commit_args};
use operoid::gbrain_cli::{
    citation_line, config_set_outcome, config_unset_outcome, decode_buf, decode_line, env_for_brain,
    noop_sink, op_plan, parse_config_get, render_think, repo_sync_args, think_args, CliLine,
    LineSink, OpPlan, OpResult, ThinkCitation, ThinkJson,
};

#[test]
fn noop_sink_is_a_line_sink() {
    let sink = noop_sink();
    sink.send(CliLine { stream: "step".into(), text: "x".into() });
    fn takes_sink<S: LineSink>(_s: &S) {}
    takes_sink(&sink);
}

#[test]
fn citation_line_matches_link_segment_format() {
    let page = ThinkCitation { page_slug: "people/林家豪".into(), row_num: None };
    assert_eq!(citation_line(&page), "[[people/林家豪]]");
    let bare = ThinkCitation { page_slug: "林家豪".into(), row_num: None };
    assert_eq!(citation_line(&bare), "[[林家豪]]");
    let take = ThinkCitation { page_slug: "meetings/2026-06-15".into(), row_num: Some(3) };
    assert_eq!(citation_line(&take), "[[meetings/2026-06-15]]（take #3）");
}

#[test]
fn op_result_from_code() {
    let ok = OpResult::from_code(0);
    assert!(ok.success);
    assert_eq!(ok.exit_code, Some(0));
    assert!(ok.note.is_none());
    assert!(!OpResult::from_code(2).success);
}

#[test]
fn decoding_prefers_utf8_then_big5() {
    assert_eq!(decode_buf("中文".as_bytes()), "中文");
    // "中" in Big5 is 0xA4 0xA4.
    assert_eq!(decode_buf(&[0xA4, 0xA4]), "中");
    assert_eq!(decode_line(b"hello\r\n"), "hello");
    assert_eq!(decode_line(b"\n\n"), "");
}

#[test]
fn env_sets_home_only_when_given() {
    let e = env_for_brain(None);
    assert_eq!(e, vec![("PYTHONUTF8".to_string(), "1".to_string())]);
    assert_eq!(env_for_brain(Some("  ")).len(), 1);
    let e = env_for_brain(Some(" /b "));
    assert_eq!(e[1], ("GBRAIN_HOME".to_string(), "/b".to_string()));
}

#[test]
fn config_get_reads_value_and_source() {
    assert_eq!(parse_config_get(1, "x\n"), None);
    assert_eq!(parse_config_get(0, "  \n"), None);
    assert_eq!(
        parse_config_get(0, " glm-4 \n(source: db)\n"),
        Some(("glm-4".to_string(), "db)".to_string()))
    );
    assert_eq!(parse_config_get(0, "v"), Some(("v".to_string(), String::new())));
    assert_eq!(
        parse_config_get(0, "v\nsource: a source: b"),
        Some(("v".to_string(), "a".to_string()))
    );
}

#[test]
fn config_outcomes() {
    assert!(config_set_outcome(0, "k", "").is_ok());
    assert_eq!(config_set_outcome(1, "k", "bad").unwrap_err().code(), "gbrain.configSetFail");
    assert!(config_unset_outcome(1, "k", "key not found", false).is_ok());
    assert!(config_unset_outcome(1, "k", "key not found", true).is_err());
    assert_eq!(config_unset_outcome(2, "k", "boom", false).unwrap_err().code(), "gbrain.configUnsetFail");
}

fn run_args(p: OpPlan) -> Vec<String> {
    match p {
        OpPlan::Run(v) => v,
        _ => panic!("expected a command"),
    }
}

#[test]
fn op_plans() {
    assert_eq!(run_args(op_plan("stats", None, None).unwrap()), vec!["stats"]);
    assert_eq!(run_args(op_plan("doctor", None, None).unwrap()), vec!["doctor", "--fast"]);
    assert_eq!(run_args(op_plan("ask", Some("why?"), None).unwrap()), vec!["ask", "why?"]);
    assert_eq!(op_plan("query", None, None).unwrap_err().code(), "op.needArg");
    assert_eq!(op_plan("nope", None, None).unwrap_err().code(), "op.unknown");
    assert!(matches!(op_plan("sync", None, None).unwrap(), OpPlan::Sync));
    let u = run_args(op_plan("unify-types", None, None).unwrap());
    assert_eq!(u[4], r#"{"target_pack":"gbrain-base-v2","apply":true}"#);
    match op_plan("think", Some("anchor:people/a\nWho?"), Some("glm")).unwrap() {
        OpPlan::Think(v) => assert_eq!(
            v,
            vec!["think", "Who?", "--model", "glm", "--anchor", "people/a", "--json"]
        ),
        _ => panic!("expected think"),
    }
    assert_eq!(think_args("anchor:only", None), vec!["think", "only", "--json"]);
    assert_eq!(repo_sync_args("/n", true), vec!["sync", "--repo", "/n", "--no-pull", "--yes"]);
    assert_eq!(repo_sync_args("/n", false), vec!["sync", "--repo", "/n", "--yes"]);
}

fn texts(v: &[CliLine]) -> Vec<(String, String)> {
    v.iter().map(|l| (l.stream.clone(), l.text.clone())).collect()
}

#[test]
fn think_output_rendering() {
    let parsed = ThinkJson {
        question: "Q?".into(),
        answer: "A [slug#2] line\n\nB [slug]  \n".into(),
        citations: vec![ThinkCitation { page_slug: "p/x".into(), row_num: Some(1) }],
        gaps: vec!["g1".into()],
        warnings: vec!["CITATIONS_STRUCTURED_NOT_INLINE: x".into(), "other".into()],
        model_used: Some("m".into()),
        pages_gathered: Some(3),
        takes_gathered: None,
        graph_hits: Some(1),
    };
    let out = render_think(0, "", "progress\n\n", Ok(parsed));
    let t = texts(&out);
    assert_eq!(t[0], ("stderr".to_string(), "progress".to_string()));
    assert_eq!(t[1].1, "# Q?");
    assert_eq!(t[2].1, "A  line");
    assert_eq!(t[3].1, "");
    assert_eq!(t[4].1, "B");
    assert_eq!(t[5].1, "## Gaps");
    assert_eq!(t[6].1, "- g1");
    assert_eq!(t[7].1, "---");
    assert_eq!(t[8].1, "Model: m | Pages: 3 | Takes: 0 | Graph: 1 | Citations: 1");
    assert_eq!(t[10].1, "- [[p/x]]（take #1）");
    assert_eq!(t[11], ("stderr".to_string(), "Warnings: other".to_string()));
    let failed = render_think(2, "raw\n", "", Err("x".into()));
    assert_eq!(texts(&failed), vec![("stdout".to_string(), "raw".to_string())]);
    let bad = render_think(0, "not json\n", "", Err("eof".into()));
    assert_eq!(bad[0].text, "think: --json 輸出解析失敗（eof），改以純文字顯示");
    assert_eq!(bad[1].text, "not json");
}

#[test]
fn child_output_and_git_steps() {
    assert!(stdout_line(b"\r\n").is_none());
    let l = stdout_line(b"hello\r\n").unwrap();
    assert_eq!(l.stream, "stdout");
    assert_eq!(l.text, "hello");
    assert_eq!(exit_code_or(Some(3)), 3);
    assert_eq!(exit_code_or(None), -1);
    let steps = git_init_steps();
    assert_eq!(steps.len(), 3);
    assert_eq!(steps[0].line, "▶ git init");
    assert_eq!(steps[2].args, vec!["-c", "user.email=operoid@local", "-c", "user.name=Operoid", "commit", "--allow-empty", "-m", "init"]);
    assert_eq!(sync_commit_args("2026-01-02 03:04:05"), vec!["commit", "-m", "Operoid sync 2026-01-02 03:04:05"]);
    assert!(commit_note(0).is_none());
    assert_eq!(commit_note(1).unwrap().text, "（無新變更可 commit；仍繼續 sync 已 commit 的差異）");
    assert_eq!(notes_not_found("/n").code(), "op.notesNotFound");
    let r = notes_sync_done(0);
    assert!(r.success);
    assert_eq!(r.note.unwrap().key, "op.syncDone");
}
