use operoid::auth::check_auth;
use operoid::bridge::plugin_poll_secs;
use operoid::bridge::{
    channel_kind, config_path, ingress_outcome, send_gate, send_reply, unknown_channel_note, ChannelKind, Registry,
};

fn s(v: &[&str]) -> Vec<String> {
    v.iter().map(|x| x.to_string()).collect()
}

#[test]
fn config_file_is_found_in_order() {
    let cands = vec![("/cwd/obridge.toml".to_string(), false), ("/exe/obridge.toml".to_string(), true)];
    assert_eq!(config_path(&s(&["obridge", "--config", "/etc/b.toml"]), &cands), "/etc/b.toml");
    assert_eq!(config_path(&s(&["obridge"]), &cands), "/exe/obridge.toml");
    assert_eq!(config_path(&s(&["obridge", "--config"]), &cands), "/exe/obridge.toml");
    assert_eq!(config_path(&s(&["obridge"]), &vec![("/cwd/obridge.toml".to_string(), false)]), "obridge.toml");
}

#[test]
fn registry_refuses_duplicate_sources() {
    let mut r: Registry<u32> = Registry::new();
    assert!(r.register("email", 1).is_ok());
    assert!(r.register("chat", 2).is_ok());
    assert_eq!(r.register("email", 3).unwrap_err(), "通道 source 標籤重複：email");
    assert_eq!(r.get("email"), Some(&1));
    assert_eq!(r.get("chat"), Some(&2));
    assert_eq!(r.get("nope"), None);
    assert_eq!(r.sources(), s(&["email", "chat"]));
}

#[test]
fn channel_types_and_notes() {
    assert!(channel_kind("email-imap") == Some(ChannelKind::EmailImap));
    assert!(channel_kind("slack").is_none());
    assert_eq!(unknown_channel_note("slack", "s1"), "[obridge] 未知通道類型 slack（source=s1）——跳過");
}

#[test]
fn send_endpoint_answers() {
    assert_eq!(send_gate(false, true, "email"), Some((401, "bad credentials".to_string())));
    assert_eq!(send_gate(true, false, "nope"), Some((404, "unknown source: nope".to_string())));
    assert_eq!(send_gate(true, true, "email"), None);
    assert_eq!(send_reply(Ok(())), (200, "sent".to_string()));
    assert_eq!(send_reply(Err("smtp down".into())), (500, "send failed: smtp down".to_string()));
    assert!(ingress_outcome(202, "202 Accepted").is_ok());
    assert_eq!(ingress_outcome(401, "401 Unauthorized").unwrap_err(), "Operoid ingress 回 HTTP 401 Unauthorized");
}

#[test]
fn plugin_poll_interval_from_file_name() {
    assert_eq!(plugin_poll_secs("slack-30"), 30);
    assert_eq!(plugin_poll_secs("my-chat-3600"), 3600);
    assert_eq!(plugin_poll_secs("echo"), 60);
    assert_eq!(plugin_poll_secs("x-0"), 60);
    assert_eq!(plugin_poll_secs("x-3601"), 60);
    assert_eq!(plugin_poll_secs("x-99999999999999999999999"), 60);
    assert_eq!(plugin_poll_secs("x-+15"), 15);
    assert_eq!(plugin_poll_secs("x-"), 60);
    assert_eq!(plugin_poll_secs("x-1a"), 60);
}

#[test]
fn send_endpoint_dispatches_by_source() {
    // The endpoint: bearer check, then the channel of the payload's source, then its answer.
    let mut reg: Registry<Vec<(String, String, String)>> = Registry::new();
    reg.register("email", Vec::new()).unwrap();
    let answer = |auth: Option<&str>, source: &str, reg: &Registry<Vec<(String, String, String)>>| {
        match send_gate(check_auth(auth, "s3cret"), reg.get(source).is_some(), source) {
            Some(refused) => refused,
            None => send_reply(Ok(())),
        }
    };
    assert_eq!(answer(Some("Bearer s3cret"), "email", &reg).0, 200);
    assert_eq!(answer(Some("Bearer s3cret"), "nope", &reg).0, 404);
    assert_eq!(answer(Some("Bearer wrong"), "email", &reg).0, 401, "401 不應分派");
    assert_eq!(answer(None, "email", &reg).0, 401);
}
