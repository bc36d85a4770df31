use operoid::tools::{object_span, parse_json_value};
use operoid::write_note::{check_note_name, failure_text, file_body, written_text, WriteNoteTool, TOOL_WRITE_NOTE};

fn tool() -> WriteNoteTool {
    WriteNoteTool::new("/tmp/operoid-notes", "emp-1")
}

#[test]
fn writes_note_with_frontmatter() {
    let d = tool().draft("report.md", "週報", "# 本週重點\n- A").unwrap();
    assert_eq!(d.title_line, "週報");
    assert!(d.path.ends_with("report.md"));
    let body = file_body("emp-1", &d.title_line, "# 本週重點\n- A", "2026-01-02T03:04:05Z");
    assert!(body.contains("origin: operoid-employee"), "{body}");
    assert!(body.contains("produced_by: emp-1"), "{body}");
    assert!(body.contains("title: 週報"), "{body}");
    assert!(body.contains("# 本週重點"), "{body}");
    assert_eq!(
        body,
        "---\norigin: operoid-employee\nproduced_by: emp-1\ncreated_at: 2026-01-02T03:04:05Z\ntitle: 週報\n---\n\n# 本週重點\n- A\n"
    );
}

#[test]
fn rejects_path_escapes_and_bad_names() {
    let t = tool();
    for bad in ["../evil.md", "sub/dir.md", "notes.txt", ".hidden.md"] {
        assert!(t.draft(bad, "t", "c").is_err(), "{bad} 應被拒");
    }
    for bad in ["/etc/evil.md", "C:\\tmp\\evil.md"] {
        assert!(t.draft(bad, "t", "c").is_err(), "{bad} 應被拒");
    }
    assert_eq!(
        t.draft("C:\\tmp\\evil.md", "t", "c").unwrap_err(),
        "filename 僅接受單一檔名（不可含路徑分隔）：C:\\tmp\\evil.md"
    );
    assert_eq!(t.draft("..\\evil.md", "t", "c").unwrap_err(), "filename 僅接受單一檔名（不可含路徑分隔）：..\\evil.md");
    assert_eq!(t.draft("sub/dir.md", "t", "c").unwrap_err(), "filename 僅接受單一檔名（不可含路徑分隔）：sub/dir.md");
    assert_eq!(t.draft("notes.txt", "t", "c").unwrap_err(), "僅接受 .md 檔（收到：notes.txt）");
    assert_eq!(t.draft(".hidden.md", "t", "c").unwrap_err(), "檔名不可以 . 開頭");
}

#[test]
fn missing_params_fail_cleanly() {
    let t = tool();
    assert_eq!(t.draft("", "t", "c").unwrap_err(), "缺少 filename");
    assert_eq!(t.draft("  ", "t", "c").unwrap_err(), "缺少 filename");
    assert_eq!(t.draft("b.md", "t", "  ").unwrap_err(), "缺少 content");
}

#[test]
fn blank_title_falls_back_to_file_name() {
    let d = tool().draft("  Weekly.MD.md ", "  ", "x").unwrap();
    assert_eq!(d.title_line, "Weekly.MD");
    let d = tool().draft("a.md.md", "", "x").unwrap();
    assert_eq!(d.title_line, "a");
    assert_eq!(file_body("e", "two\nlines", "c", "t"), "---\norigin: operoid-employee\nproduced_by: e\ncreated_at: t\ntitle: two lines\n---\n\nc\n");
}

#[test]
fn name_checks_follow_the_platform_answers() {
    assert_eq!(
        check_note_name("C:\\tmp\\evil.md", false, true, Some("evil.md".into())).unwrap_err(),
        "filename 僅接受單一檔名（不可含路徑分隔）：C:\\tmp\\evil.md"
    );
    assert_eq!(check_note_name("x.md", true, true, Some("x.md".into())).unwrap_err(), "filename 不可為絕對路徑：x.md");
    assert_eq!(check_note_name("..", false, false, None).unwrap_err(), "filename 僅接受單一檔名（不可含路徑／..）：..");
    assert_eq!(check_note_name("", false, true, None).unwrap_err(), "無效檔名：");
    assert_eq!(check_note_name("A.MD", false, true, Some("A.MD".into())).unwrap(), "A.MD");
}

#[test]
fn tool_identity_and_texts() {
    let t = tool();
    assert_eq!(t.spec().id, TOOL_WRITE_NOTE);
    assert_eq!(t.root(), "/tmp/operoid-notes");
    assert_eq!(t.employee_id(), "emp-1");
    assert_eq!(failure_text("缺少 filename"), "寫入失敗：缺少 filename");
    assert_eq!(written_text("/x/a.md"), "已寫入筆記：/x/a.md");
}

#[test]
fn json_object_is_found_in_prose_and_fences() {
    assert_eq!(object_span("  here: ```json\n{\"a\": {\"b\": 1}}\n``` done ").unwrap(), "{\"a\": {\"b\": 1}}");
    assert_eq!(object_span("no object").unwrap_err(), "reasoner 回應中找不到 JSON 物件");
    assert_eq!(object_span("{ open").unwrap_err(), "reasoner 回應中找不到 JSON 物件結尾");
    let v = parse_json_value("answer: {\"done\": true} thanks").unwrap();
    assert_eq!(v["done"], serde_json::Value::Bool(true));
    assert!(parse_json_value("{not json}").unwrap_err().starts_with("reasoner JSON 解析失敗："));
}
