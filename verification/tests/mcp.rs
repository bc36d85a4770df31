use operoid::mcp::{call_failed, tool_text, GbrainMcpClient};

#[test]
fn debug_format_contains_exe() {
    let c = GbrainMcpClient::new("gbrain".into(), None);
    let s = format!("{c:?}");
    assert!(s.contains("gbrain"));
}

#[test]
fn server_process_and_answers() {
    let c = GbrainMcpClient::new("/bin/gbrain".into(), Some(" /b ".into()));
    assert_eq!(c.serve_args(), vec!["serve"]);
    let env = c.serve_env();
    assert_eq!(env[0], ("PYTHONUTF8".to_string(), "1".to_string()));
    assert_eq!(env[1], ("GBRAIN_HOME".to_string(), "/b".to_string()));
    assert_eq!(GbrainMcpClient::new("g".into(), None).serve_env().len(), 1);
    let blocks = vec![Some("a".to_string()), None, Some("b".to_string())];
    assert_eq!(tool_text("think", None, &blocks).unwrap(), "a\nb");
    assert_eq!(tool_text("think", Some(false), &vec![]).unwrap(), "");
    assert_eq!(tool_text("think", Some(true), &blocks).unwrap_err(), "MCP tool think 回報錯誤");
    assert_eq!(call_failed("query", "broken pipe"), "MCP call query 失敗：broken pipe");
}
