use operoid::llm::{
    bearer, completions_url, first_content, rejected, retry_backoff, Attempt, LlmRetry, RetryAction, Usage,
};

#[test]
fn retries_5xx_then_succeeds_with_usage() {
    // 500, 500, 200: two waits, then the body is read on the third attempt.
    let mut st = LlmRetry::new();
    let mut actions = Vec::new();
    for status in [500u16, 500, 200] {
        assert!(st.may_try());
        let a = st.step(Attempt::Answered(status));
        actions.push(a.clone());
        if a == RetryAction::ReadBody {
            break;
        }
    }
    assert_eq!(actions, vec![RetryAction::Wait(5), RetryAction::Wait(10), RetryAction::ReadBody]);
    assert_eq!(st.attempt, 2, "三次嘗試全消耗");
    let usage = Usage { prompt_tokens: Some(10), completion_tokens: Some(5), total_tokens: Some(15) };
    let c = first_content(vec![Some("{\"done\": true}".to_string())], Some(usage)).unwrap();
    assert_eq!(c.content, "{\"done\": true}");
    assert_eq!(c.usage.unwrap().total_tokens, Some(15), "usage 應帶回");
}

#[test]
fn permanent_4xx_fails_fast() {
    let mut st = LlmRetry::new();
    assert_eq!(st.step(Attempt::Answered(401)), RetryAction::Reject);
    assert_eq!(st.attempt, 0, "預留的 200 未消耗＝沒有重試");
    assert_eq!(rejected("401 Unauthorized", "bad key"), "LLM 回應非 2xx（401 Unauthorized）：bad key");
}

#[test]
fn third_server_error_is_final() {
    let mut st = LlmRetry::new();
    assert_eq!(st.step(Attempt::Answered(429)), RetryAction::Wait(5));
    assert_eq!(st.step(Attempt::Answered(503)), RetryAction::Wait(10));
    assert_eq!(st.step(Attempt::Answered(503)), RetryAction::Reject);
}

#[test]
fn network_errors_exhaust_the_attempts() {
    let mut st = LlmRetry::new();
    assert_eq!(st.exhausted(), "LLM 重試耗盡");
    for expected in [5u64, 10, 20] {
        assert!(st.may_try());
        assert_eq!(st.step(Attempt::NotSent("connection refused".into())), RetryAction::Wait(expected));
    }
    assert!(!st.may_try());
    assert_eq!(st.last_err.as_deref(), Some("connection refused"));
    assert_eq!(st.exhausted(), "LLM 請求失敗");
}

#[test]
fn request_shape() {
    assert_eq!(completions_url("https://api.x.ai/v1//"), "https://api.x.ai/v1/chat/completions");
    assert_eq!(completions_url("http://localhost:11434/v1"), "http://localhost:11434/v1/chat/completions");
    assert_eq!(bearer("sk-1"), "Bearer sk-1");
    assert_eq!(retry_backoff(0), 5);
    assert_eq!(retry_backoff(1), 10);
    assert_eq!(retry_backoff(2), 20);
    assert_eq!(retry_backoff(7), 20);
    assert_eq!(first_content(vec![None], None).unwrap_err(), "LLM 回應沒有 content");
    assert_eq!(first_content(vec![], None).unwrap_err(), "LLM 回應沒有 content");
}
