//! Calls of an OpenAI-compatible chat completion endpoint: the request's URL and authorisation,
//! and the retry policy. Network errors, `429` and `5xx` answers are retried with an exponential
//! backoff (5, 10, 20 seconds), three attempts in all; any other answer that is not `2xx` fails at
//! once. Sending the requests and sleeping happen outside, driven by [`LlmRetry::step`].
use vstd::prelude::*;
use crate::text::{owned, push_str, trail_of};

verus! {

/// Token counts of one completion (each may be missing).
#[derive(Debug, Clone, Copy)]
pub struct Usage {
    pub prompt_tokens: Option<u64>,
    pub completion_tokens: Option<u64>,
    pub total_tokens: Option<u64>,
}

/// The result of one chat completion: the content and the token counts.
#[derive(Debug, Clone)]
pub struct ChatCompletion {
    pub content: String,
    pub usage: Option<Usage>,
}

/// The endpoint of a base URL: trailing slashes cut, `/chat/completions` added.
pub open spec fn completions_url_spec(base: Seq<char>) -> Seq<char> {
    base.take(base.len() - trail_of(base, '/')) + "/chat/completions"@
}

/// The endpoint of a base URL.
pub fn completions_url(base_url: &str) -> (r: String)
    ensures
        r@ == completions_url_spec(base_url@),
{
    let v = crate::text::chars_of(base_url);
    let mut j: usize = v.len();
    assert(v@.take(v.len() as int) =~= v@);
    while j > 0 && v[j - 1] == '/'
        invariant
            j <= v@.len(),
            v@ == base_url@,
            trail_of(v@, '/') == (v@.len() - j) + trail_of(v@.take(j as int), '/'),
        decreases j,
    {
        assert(v@.take(j as int).drop_last() =~= v@.take(j as int - 1));
        j -= 1;
    }
    assert(trail_of(v@.take(j as int), '/') == 0) by {
        if j > 0 {
            assert(v@.take(j as int).last() == v@[j as int - 1]);
        }
    }
    let cut = crate::text::slice_chars(&v, 0, j);
    let mut r = crate::text::string_of(&cut);
    push_str(&mut r, "/chat/completions");
    assert(r@ =~= completions_url_spec(base_url@));
    r
}

/// The `Authorization` value for an API key.
pub fn bearer(key: &str) -> (r: String)
    ensures
        r@ == "Bearer "@ + key@,
{
    let mut r = owned("Bearer ");
    push_str(&mut r, key);
    r
}

/// The backoff after a failed attempt, in seconds: `5·2^attempt`, at most 20.
pub open spec fn backoff_spec(attempt: nat) -> nat {
    if attempt == 0 {
        5
    } else if attempt == 1 {
        10
    } else {
        20
    }
}

/// The backoff after a failed attempt, in seconds.
pub fn retry_backoff(attempt: u32) -> (r: u64)
    requires
        attempt < 64,
    ensures
        r == backoff_spec(attempt as nat),
{
    if attempt == 0 {
        5
    } else if attempt == 1 {
        10
    } else {
        20
    }
}

/// The number of attempts in all.
pub const MAX_ATTEMPTS: u32 = 3;

/// Whether an answer's status is worth another attempt: `429` or a server error.
pub open spec fn retryable(status: u16) -> bool {
    status == 429 || (500 <= status && status <= 599)
}

/// What one attempt gave.
#[derive(Debug, Clone)]
pub enum Attempt {
    /// The request could not be sent or answered: why.
    NotSent(String),
    /// The server answered with this status.
    Answered(u16),
}

/// What to do after an attempt.
#[derive(Debug, Clone, PartialEq, Eq)]
pub enum RetryAction {
    /// The answer succeeded: read its body.
    ReadBody,
    /// Wait this many seconds, then try again (or give up when no attempt is left).
    Wait(u64),
    /// The answer failed for good: read its text for the error.
    Reject,
}

/// The state of the retry loop: the attempts made and the last network error.
#[derive(Debug, Clone)]
pub struct LlmRetry {
    pub attempt: u32,
    pub last_err: Option<String>,
}

impl LlmRetry {
    /// Before the first attempt.
    pub fn new() -> (r: LlmRetry)
        ensures
            r.attempt == 0,
            r.last_err is None,
    {
        LlmRetry { attempt: 0, last_err: None }
    }

    /// Whether another attempt may be made.
    pub fn may_try(&self) -> (r: bool)
        ensures
            r == (self.attempt < MAX_ATTEMPTS),
    {
        self.attempt < MAX_ATTEMPTS
    }

    /// The step after an attempt: a success is read; a network error waits and counts the attempt;
    /// a `429` or `5xx` waits and counts it while attempts are left after it; any other status is
    /// rejected.
    pub fn step(&mut self, outcome: Attempt) -> (r: RetryAction)
        requires
            old(self).attempt < MAX_ATTEMPTS,
        ensures
            match outcome {
                Attempt::NotSent(e) => r == RetryAction::Wait(backoff_spec(old(self).attempt as nat) as u64)
                    && final(self).attempt == old(self).attempt + 1 && (final(self).last_err matches Some(x)
                    && x@ == e@),
                Attempt::Answered(s) => if 200 <= s && s <= 299 {
                    r == RetryAction::ReadBody && final(self).attempt == old(self).attempt
                } else if retryable(s) && old(self).attempt < 2 {
                    r == RetryAction::Wait(backoff_spec(old(self).attempt as nat) as u64) && final(self).attempt
                        == old(self).attempt + 1
                } else {
                    r == RetryAction::Reject && final(self).attempt == old(self).attempt
                },
            },
            outcome is Answered ==> crate::event_bus::opt_seq(final(self).last_err) == crate::event_bus::opt_seq(
                old(self).last_err,
            ),
    {
        match outcome {
            Attempt::NotSent(e) => {
                let b = retry_backoff(self.attempt);
                self.last_err = Some(e);
                self.attempt = self.attempt + 1;
                RetryAction::Wait(b)
            },
            Attempt::Answered(s) => {
                if 200 <= s && s <= 299 {
                    RetryAction::ReadBody
                } else if (s == 429 || (500 <= s && s <= 599)) && self.attempt < 2 {
                    let b = retry_backoff(self.attempt);
                    self.attempt = self.attempt + 1;
                    RetryAction::Wait(b)
                } else {
                    RetryAction::Reject
                }
            },
        }
    }

    /// The error when no attempt is left: that the request failed (after a network error; the
    /// last one stays in `last_err`), else that the retries ran out.
    pub fn exhausted(&self) -> (r: String)
        ensures
            match self.last_err {
                Some(_) => r@ == "LLM 請求失敗"@,
                None => r@ == "LLM 重試耗盡"@,
            },
    {
        match &self.last_err {
            Some(_) => owned("LLM 請求失敗"),
            None => owned("LLM 重試耗盡"),
        }
    }
}

/// The error of an answer that failed for good: its status and its text.
pub fn rejected(status: &str, body: &str) -> (r: String)
    ensures
        r@ == "LLM 回應非 2xx（"@ + status@ + "）："@ + body@,
{
    let mut m = owned("LLM 回應非 2xx（");
    push_str(&mut m, status);
    push_str(&mut m, "）：");
    push_str(&mut m, body);
    m
}

/// The content of a successful answer: that of its first choice; an error when it has none.
pub fn first_content(choices: Vec<Option<String>>, usage: Option<Usage>) -> (r: Result<ChatCompletion, String>)
    ensures
        match (if choices@.len() > 0 { choices@[0] } else { None }) {
            Some(c) => r matches Ok(x) && x.content@ == c@ && x.usage == usage,
            None => r matches Err(m) && m@ == "LLM 回應沒有 content"@,
        },
{
    let mut choices = choices;
    if choices.len() > 0 {
        let c = choices.remove(0);
        match c {
            Some(content) => return Ok(ChatCompletion { content, usage }),
            None => {},
        }
    }
    Err(owned("LLM 回應沒有 content"))
}

} // verus!
