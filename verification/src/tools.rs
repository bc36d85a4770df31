//! What an employee's tools share: a tool's specification, the context a tool call runs in, and
//! reading the JSON object out of a model's answer.
use vstd::prelude::*;
use crate::text::{chars_of, string_of, trim, trim_spec};

verus! {

/// A tool's specification: its id (the key of the allow-lists) and what it does.
#[derive(Debug, Clone)]
pub struct ToolSpec {
    pub id: String,
    pub description: String,
}

/// The context of a tool call.
#[derive(Debug, Clone)]
pub struct ToolCtx {
    pub gbrain_exe: String,
    /// The `GBRAIN_HOME` value; `None` for the default brain.
    pub gbrain_home: Option<String>,
    /// The brain's chat model, handed to `think` explicitly when set.
    pub chat_model: Option<String>,
}

/// The first `{` of `s`, if any.
pub open spec fn first_brace(s: Seq<char>) -> Option<int> {
    if exists|i: int| 0 <= i < s.len() && s[i] == '{' {
        Some(choose|i: int| 0 <= i < s.len() && s[i] == '{' && forall|k: int| 0 <= k < i ==> s[k] != '{')
    } else {
        None
    }
}

/// The last `}` of `s`, if any.
pub open spec fn last_brace(s: Seq<char>) -> Option<int> {
    if exists|i: int| 0 <= i < s.len() && s[i] == '}' {
        Some(choose|i: int| 0 <= i < s.len() && s[i] == '}' && forall|k: int| i < k < s.len() ==> s[k] != '}')
    } else {
        None
    }
}

/// The span of a model's answer that holds its JSON object: from the first `{` to the last `}`
/// of the trimmed answer; the error when either is missing.
#[verifier::opaque]
pub open spec fn object_span_spec(raw: Seq<char>) -> Result<Seq<char>, Seq<char>> {
    let t = trim_spec(raw);
    match first_brace(t) {
        None => Err("reasoner 回應中找不到 JSON 物件"@),
        Some(a) => match last_brace(t) {
            None => Err("reasoner 回應中找不到 JSON 物件結尾"@),
            Some(b) => Ok(t.subrange(a, b + 1)),
        },
    }
}

/// Whether slicing the answer from its first `{` to its last `}` is possible: the last `}` does
/// not come before the first `{` with something in between.
pub open spec fn span_ordered(raw: Seq<char>) -> bool {
    let t = trim_spec(raw);
    match (first_brace(t), last_brace(t)) {
        (Some(a), Some(b)) => a <= b + 1,
        _ => true,
    }
}

/// The span of a model's answer that holds its JSON object.
pub fn object_span(raw: &str) -> (r: Result<String, String>)
    requires
        span_ordered(raw@),
    ensures
        match object_span_spec(raw@) {
            Ok(s) => r matches Ok(x) && x@ == s,
            Err(m) => r matches Err(x) && x@ == m,
        },
{
    reveal(object_span_spec);
    let t = trim(raw);
    let v = chars_of(t.as_str());
    let mut a: usize = 0;
    while a < v.len() && v[a] != '{'
        invariant
            a <= v.len(),
            v@ == t@,
            forall|k: int| 0 <= k < a ==> v@[k] != '{',
        decreases v.len() - a,
    {
        a += 1;
    }
    if a == v.len() {
        return Err(crate::text::owned("reasoner 回應中找不到 JSON 物件"));
    }
    proof {
        let c = choose|i: int| 0 <= i < v@.len() && v@[i] == '{' && forall|k: int| 0 <= k < i ==> v@[k] != '{';
        assert(v@[a as int] == '{');
        if c < a { } else if c > a { assert(v@[a as int] != '{'); }
    }
    let mut b: usize = v.len();
    while b > 0 && v[b - 1] != '}'
        invariant
            b <= v.len(),
            v@ == t@,
            forall|k: int| b <= k < v@.len() ==> v@[k] != '}',
        decreases b,
    {
        b -= 1;
    }
    if b == 0 {
        return Err(crate::text::owned("reasoner 回應中找不到 JSON 物件結尾"));
    }
    proof {
        let c = choose|i: int| 0 <= i < v@.len() && v@[i] == '}' && forall|k: int| i < k < v@.len() ==> v@[k] != '}';
        assert(v@[b - 1] == '}');
        if c < b - 1 { assert(v@[b - 1] != '}'); } else if c > b - 1 { }
    }
    let s = crate::text::slice_chars(&v, a, b);
    Ok(string_of(&s))
}

/// A JSON value (`serde_json::Value`), carried through unread.
#[verifier::external_type_specification]
#[verifier::external_body]
pub struct ExJsonValue(serde_json::Value);

/// Whether `serde_json` reads a JSON value from the text.
pub uninterp spec fn json_accepts(s: Seq<char>) -> bool;

/// `serde_json::from_str::<Value>`, its error as text; the contract claims only that it succeeds
/// exactly when `json_accepts` holds of the text (the value is carried unread).
#[verifier::external_body]
fn json_value(s: &str) -> (r: Result<serde_json::Value, String>)
    ensures
        r is Ok == json_accepts(s@),
{
    serde_json::from_str::<serde_json::Value>(s).map_err(|e| e.to_string())
}

/// The JSON object in a model's answer (fenced or surrounded by prose): the span from the first
/// `{` to the last `}`, read as JSON; the error names what went wrong.
pub fn parse_json_value(raw: &str) -> (r: Result<serde_json::Value, String>)
    requires
        span_ordered(raw@),
    ensures
        match object_span_spec(raw@) {
            Ok(s) => (r is Ok == json_accepts(s)) && (r matches Err(m) ==> has_json_prefix(m@)),
            Err(m) => r matches Err(x) && x@ == m,
        },
{
    match object_span(raw) {
        Ok(s) => match json_value(s.as_str()) {
            Ok(v) => Ok(v),
            Err(e) => {
                let mut m = crate::text::owned("reasoner JSON 解析失敗：");
                crate::text::push_str(&mut m, e.as_str());
                assert(m@.subrange(0, "reasoner JSON 解析失敗："@.len() as int) =~= "reasoner JSON 解析失敗："@);
                Err(m)
            },
        },
        Err(m) => Err(m),
    }
}

/// The start of the message of an answer whose span is not JSON.
pub open spec fn has_json_prefix(m: Seq<char>) -> bool {
    crate::text::has_prefix(m, "reasoner JSON 解析失敗："@)
}

} // verus!
