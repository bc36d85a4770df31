//! The gbrain command line: what to run for each operation, how child output is decoded, and
//! how `gbrain think --json` is rendered for people. Spawning processes happens outside; the
//! output lines that this module produces are handed to a [`LineSink`].
use vstd::prelude::*;
use crate::l10n::{AppError, L10n};
use crate::text::{
    contains_str, dec_seq, has_sub, join, join_spec, lines, lines_spec, owned, push_dec, push_str,
    str_eq, trim, trim_end, trim_end_spec, trim_spec, views_of,
};

verus! {

// ---------------------------------------------------------------------------
// Output lines
// ---------------------------------------------------------------------------

/// One line of a running operation: `stdout`, `stderr` or a `step` marker.
#[derive(Debug, Clone)]
pub struct CliLine {
    pub stream: String,
    pub text: String,
}

impl View for CliLine {
    type V = (Seq<char>, Seq<char>);

    open spec fn view(&self) -> (Seq<char>, Seq<char>) {
        (self.stream@, self.text@)
    }
}

pub open spec fn lines_view(v: Seq<CliLine>) -> Seq<(Seq<char>, Seq<char>)> {
    v.map_values(|l: CliLine| l@)
}

impl CliLine {
    /// A copy of this line.
    pub fn copy(&self) -> (r: CliLine)
        ensures
            r@ == self@,
    {
        CliLine { stream: self.stream.clone(), text: self.text.clone() }
    }
}

pub fn cli_line(stream: &str, text: &str) -> (r: CliLine)
    ensures
        r@ == (stream@, text@),
{
    CliLine { stream: owned(stream), text: owned(text) }
}

/// Where the lines of an operation go (the desktop shell forwards them to its window, the server
/// to its operation log).
pub trait LineSink {
    fn send(&self, line: CliLine);
}

/// A sink that drops every line (for operations run in the background).
pub struct NoopSink;

impl LineSink for NoopSink {
    fn send(&self, line: CliLine) {
    }
}

pub fn noop_sink() -> (r: NoopSink) {
    NoopSink
}

/// The final result of an operation.
#[derive(Debug, Clone)]
pub struct OpResult {
    pub success: bool,
    pub exit_code: Option<i32>,
    pub note: Option<L10n>,
}

pub open spec fn note_view(n: Option<L10n>) -> Option<(Seq<char>, Seq<(Seq<char>, Seq<char>)>)> {
    match n {
        Some(l) => Some(l@),
        None => None,
    }
}

impl View for OpResult {
    type V = (bool, Option<i32>, Option<(Seq<char>, Seq<(Seq<char>, Seq<char>)>)>);

    open spec fn view(&self) -> Self::V {
        (self.success, self.exit_code, note_view(self.note))
    }
}

impl OpResult {
    /// A copy of this result.
    pub fn copy(&self) -> (r: OpResult)
        ensures
            r@ == self@,
    {
        let note = match &self.note {
            Some(n) => Some(n.copy()),
            None => None,
        };
        OpResult { success: self.success, exit_code: self.exit_code, note }
    }

    /// The result of a finished command: success is exit code 0.
    pub fn from_code(code: i32) -> (r: OpResult)
        ensures
            r.success == (code == 0),
            r.exit_code == Some(code),
            r.note is None,
    {
        OpResult { success: code == 0, exit_code: Some(code), note: None }
    }

    /// The result of a finished command with a note for the user.
    pub fn with_note(code: i32, note: L10n) -> (r: OpResult)
        ensures
            r.success == (code == 0),
            r.exit_code == Some(code),
            r.note == Some(note),
    {
        OpResult { success: code == 0, exit_code: Some(code), note: Some(note) }
    }
}

// ---------------------------------------------------------------------------
// Decoding child output
// ---------------------------------------------------------------------------

/// What `encoding_rs::BIG5.decode` gives for these bytes.
pub uninterp spec fn big5_decoded(bytes: Seq<u8>) -> Seq<char>;

/// `std::str::from_utf8`: `Some` exactly for valid UTF-8, holding the decoded characters.
#[verifier::external_body]
fn utf8_decode(bytes: &[u8]) -> (r: Option<String>)
    ensures
        r is Some <==> vstd::utf8::valid_utf8(bytes@),
        r matches Some(s) ==> s@ == vstd::utf8::decode_utf8(bytes@),
{
    match std::str::from_utf8(bytes) {
        Ok(s) => Some(s.to_string()),
        Err(_) => None,
    }
}

/// `encoding_rs::BIG5.decode` (which replaces malformed sequences and panics only when the
/// output size overflows `usize`).
#[verifier::external_body]
fn big5_decode(bytes: &[u8]) -> (r: String)
    requires
        bytes@.len() < usize::MAX / 8,
    ensures
        r@ == big5_decoded(bytes@),
{
    let (cow, _, _) = encoding_rs::BIG5.decode(bytes);
    cow.into_owned()
}

/// Child output decoded leniently: UTF-8 when valid, else Big5 (code page 950).
pub open spec fn decoded(bytes: Seq<u8>) -> Seq<char> {
    if vstd::utf8::valid_utf8(bytes) {
        vstd::utf8::decode_utf8(bytes)
    } else {
        big5_decoded(bytes)
    }
}

pub fn decode_buf(bytes: &[u8]) -> (r: String)
    requires
        bytes@.len() < usize::MAX / 8,
    ensures
        r@ == decoded(bytes@),
{
    match utf8_decode(bytes) {
        Some(s) => s,
        None => big5_decode(bytes),
    }
}

pub open spec fn is_eol(c: char) -> bool {
    c == '\r' || c == '\n'
}

/// Trailing carriage returns and line feeds removed.
pub open spec fn strip_eol(s: Seq<char>) -> Seq<char>
    decreases s.len(),
{
    if s.len() > 0 && is_eol(s.last()) {
        strip_eol(s.drop_last())
    } else {
        s
    }
}

/// One line of child output, decoded, without its line ending.
pub fn decode_line(bytes: &[u8]) -> (r: String)
    requires
        bytes@.len() < usize::MAX / 8,
    ensures
        r@ == strip_eol(decoded(bytes@)),
{
    let s = decode_buf(bytes);
    let v = crate::text::chars_of(s.as_str());
    let mut j: usize = v.len();
    assert(v@.take(v.len() as int) =~= v@);
    while j > 0 && (v[j - 1] == '\r' || v[j - 1] == '\n')
        invariant
            j <= v.len(),
            strip_eol(v@) == strip_eol(v@.take(j as int)),
        decreases j,
    {
        assert(v@.take(j as int).drop_last() =~= v@.take(j as int - 1));
        j -= 1;
    }
    let t = crate::text::slice_chars(&v, 0, j);
    assert(t@ =~= v@.take(j as int));
    crate::text::string_of(&t)
}

/// The environment of a child process for a brain: `PYTHONUTF8=1`, and `GBRAIN_HOME` set to the
/// trimmed home when one is given and not blank.
pub fn env_for_brain(home: Option<&str>) -> (r: Vec<(String, String)>)
    ensures
        r@.len() >= 1,
        r@[0].0@ == "PYTHONUTF8"@ && r@[0].1@ == "1"@,
        r@.len() == (match home {
            Some(h) => if trim_spec(h@).len() > 0 { 2int } else { 1 },
            None => 1,
        }),
        r@.len() == 2 ==> r@[1].0@ == "GBRAIN_HOME"@ && r@[1].1@ == trim_spec(home->0@),
{
    let mut env: Vec<(String, String)> = Vec::new();
    env.push((owned("PYTHONUTF8"), owned("1")));
    match home {
        Some(h) => {
            let t = trim(h);
            if !t.as_str().is_empty() {
                env.push((owned("GBRAIN_HOME"), t));
            }
        },
        None => {},
    }
    env
}

// ---------------------------------------------------------------------------
// `gbrain config`
// ---------------------------------------------------------------------------

/// What `gbrain config get` printed: the value (first line, trimmed) and the plane it came from
/// (what follows `source:` on the second line, trimmed); nothing for a non-zero exit or a blank
/// value.
pub fn parse_config_get(code: i32, stdout: &str) -> (r: Option<(String, String)>)
    ensures
        code != 0 ==> r is None,
        code == 0 ==> {
            let ls = lines_spec(stdout@);
            let value = if ls.len() > 0 { trim_spec(ls[0]) } else { Seq::empty() };
            &&& (value.len() == 0 ==> r is None)
            &&& (value.len() > 0 ==> (r matches Some(p) && p.0@ == value && p.1@ == (if ls.len() > 1 {
                source_part(ls[1])
            } else {
                Seq::empty()
            })))
        },
{
    if code != 0 {
        return None;
    }
    let ls = lines(stdout);
    let value = if ls.len() > 0 {
        trim(ls[0].as_str())
    } else {
        String::new()
    };
    let source = if ls.len() > 1 {
        source_of(ls[1].as_str())
    } else {
        String::new()
    };
    if value.as_str().is_empty() {
        None
    } else {
        Some((value, source))
    }
}

/// `i` is where `p` first occurs in `s`.
pub open spec fn first_occ(s: Seq<char>, p: Seq<char>, i: int) -> bool {
    crate::text::occurs_at(s, p, i) && forall|j: int| 0 <= j < i ==> !crate::text::occurs_at(s, p, j)
}

/// `s` before the first `p` (all of it when there is none).
pub open spec fn before_first(s: Seq<char>, p: Seq<char>) -> Seq<char> {
    if exists|i: int| first_occ(s, p, i) {
        s.take(choose|i: int| first_occ(s, p, i))
    } else {
        s
    }
}

/// `s` after the first `p` (nothing when there is none).
pub open spec fn after_first(s: Seq<char>, p: Seq<char>) -> Option<Seq<char>> {
    if exists|i: int| first_occ(s, p, i) {
        Some(s.skip((choose|i: int| first_occ(s, p, i)) + p.len()))
    } else {
        None
    }
}

/// The text between the first `source:` of a line and the next one (or the end), trimmed; empty
/// when the line has none (`split("source:").nth(1)`).
pub open spec fn source_part(line: Seq<char>) -> Seq<char> {
    match after_first(line, "source:"@) {
        Some(rest) => trim_spec(before_first(rest, "source:"@)),
        None => Seq::empty(),
    }
}

pub proof fn lemma_first_occ_unique(s: Seq<char>, p: Seq<char>, i: int)
    requires
        first_occ(s, p, i),
    ensures
        (choose|k: int| first_occ(s, p, k)) == i,
{
    let k = choose|k: int| first_occ(s, p, k);
    assert(first_occ(s, p, k));
    if i < k {
        assert(!crate::text::occurs_at(s, p, i));
    } else if k < i {
        assert(!crate::text::occurs_at(s, p, k));
    }
}

pub proof fn lemma_no_occ(s: Seq<char>, p: Seq<char>)
    requires
        forall|j: int| 0 <= j ==> !crate::text::occurs_at(s, p, j),
    ensures
        !exists|i: int| first_occ(s, p, i),
{
}

/// Where `key` first occurs in `v`, if it does.
pub fn find_first(v: &Vec<char>, key: &Vec<char>) -> (r: Option<usize>)
    ensures
        match r {
            Some(i) => first_occ(v@, key@, i as int) && (choose|k: int| first_occ(v@, key@, k)) == i
                && i + key@.len() <= v@.len(),
            None => !exists|i: int| first_occ(v@, key@, i),
        },
{
    match crate::text::find_from(v, key, 0) {
        Some(i) => {
            proof { lemma_first_occ_unique(v@, key@, i as int); }
            Some(i)
        },
        None => {
            proof { lemma_no_occ(v@, key@); }
            None
        },
    }
}

fn source_of(line: &str) -> (r: String)
    ensures
        r@ == source_part(line@),
{
    let v = crate::text::chars_of(line);
    let key = crate::text::chars_of("source:");
    match find_first(&v, &key) {
        None => String::new(),
        Some(i) => {
            let kl = key.len();
            assert(kl == key@.len());
            let vl = v.len();
            assert(i + kl <= vl);
            let rest = crate::text::slice_chars(&v, i + kl, vl);
            assert(rest@ =~= line@.skip(i + "source:"@.len()));
            let piece = match find_first(&rest, &key) {
                None => rest,
                Some(k) => crate::text::slice_chars(&rest, 0, k),
            };
            assert(piece@ =~= before_first(rest@, "source:"@));
            let s = crate::text::string_of(&piece);
            trim(s.as_str())
        },
    }
}

/// The error of a `gbrain config` command that could not be run.
pub fn config_cli_fail(detail: &str) -> (r: AppError)
    ensures
        r@ == ("gbrain.configCliFail"@, seq![("detail"@, detail@)]),
{
    let e = AppError::new("gbrain.configCliFail").p("detail", detail);
    assert(e@.1 =~= seq![("detail"@, detail@)]);
    e
}

/// The outcome of `gbrain config set`: a non-zero exit is `gbrain.configSetFail`.
pub fn config_set_outcome(code: i32, key: &str, stderr: &str) -> (r: Result<(), AppError>)
    ensures
        code == 0 <==> r is Ok,
        r matches Err(e) ==> e@ == ("gbrain.configSetFail"@, seq![("key"@, key@), ("detail"@, stderr@)]),
{
    if code != 0 {
        let e = AppError::new("gbrain.configSetFail").p("key", key).p("detail", stderr);
        assert(e@.1 =~= seq![("key"@, key@), ("detail"@, stderr@)]);
        return Err(e);
    }
    Ok(())
}

/// The outcome of `gbrain config unset`: removing a missing key succeeds (the error output says
/// `not found`); any other non-zero exit is `gbrain.configUnsetFail`. With `pattern`, every
/// non-zero exit fails.
pub fn config_unset_outcome(code: i32, key: &str, stderr: &str, pattern: bool) -> (r: Result<(), AppError>)
    ensures
        r is Ok <==> (code == 0 || (!pattern && has_sub(stderr@, "not found"@))),
        r matches Err(e) ==> e@ == ("gbrain.configUnsetFail"@, seq![("key"@, key@), ("detail"@, stderr@)]),
{
    if code != 0 && (pattern || !contains_str(stderr, "not found")) {
        let e = AppError::new("gbrain.configUnsetFail").p("key", key).p("detail", stderr);
        assert(e@.1 =~= seq![("key"@, key@), ("detail"@, stderr@)]);
        return Err(e);
    }
    Ok(())
}


// ---------------------------------------------------------------------------
// Operations
// ---------------------------------------------------------------------------

/// What an operation runs.
#[derive(Debug, Clone)]
pub enum OpPlan {
    /// `gbrain` with these arguments, output streamed.
    Run(Vec<String>),
    /// `gbrain` with these `think --json` arguments, output rendered by [`render_think`].
    Think(Vec<String>),
    /// The full sync of the notes repository.
    Sync,
}

pub enum PlanView {
    Run(Seq<Seq<char>>),
    Think(Seq<Seq<char>>),
    Sync,
}

pub type ErrView = (Seq<char>, Seq<(Seq<char>, Seq<char>)>);

pub open spec fn plan_res_view(r: Result<OpPlan, AppError>) -> Result<PlanView, ErrView> {
    match r {
        Ok(OpPlan::Run(v)) => Ok(PlanView::Run(views_of(v@))),
        Ok(OpPlan::Think(v)) => Ok(PlanView::Think(views_of(v@))),
        Ok(OpPlan::Sync) => Ok(PlanView::Sync),
        Err(e) => Err(e@),
    }
}

/// A `think` argument `anchor:<slug>\n<question>` split into the anchor and the question;
/// anything else is the question alone (so is `anchor:<text>` without a line feed).
pub open spec fn think_parts(raw: Seq<char>) -> (Option<Seq<char>>, Seq<char>) {
    if crate::text::has_prefix(raw, "anchor:"@) {
        let rest = raw.skip("anchor:"@.len() as int);
        if crate::text::has_nl(rest) {
            (Some(crate::text::until_nl(rest)), crate::text::after_nl(rest))
        } else {
            (None, rest)
        }
    } else {
        (None, raw)
    }
}

/// The `think --json` arguments: the question, `--model` when a think model is configured,
/// `--anchor` when one was given.
pub open spec fn think_args_spec(raw: Seq<char>, model: Option<Seq<char>>) -> Seq<Seq<char>> {
    let (anchor, q) = think_parts(raw);
    let a = seq!["think"@, q];
    let b = match model {
        Some(m) => a + seq!["--model"@, m],
        None => a,
    };
    let c = match anchor {
        Some(x) => b + seq!["--anchor"@, x],
        None => b,
    };
    c.push("--json"@)
}

pub open spec fn need_arg(op: Seq<char>) -> ErrView {
    ("op.needArg"@, seq![("op"@, op)])
}

/// The plan of an operation: the fixed commands, the ones that need an argument (a missing one is
/// `op.needArg`), `think`, `sync`; any other name is `op.unknown`.
pub open spec fn op_plan_spec(op: Seq<char>, arg: Option<Seq<char>>, model: Option<Seq<char>>) -> Result<PlanView, ErrView> {
    if op == "stats"@ {
        Ok(PlanView::Run(seq!["stats"@]))
    } else if op == "extract"@ {
        Ok(PlanView::Run(seq!["extract"@, "--stale"@]))
    } else if op == "embed"@ {
        Ok(PlanView::Run(seq!["embed"@, "--stale"@]))
    } else if op == "doctor"@ {
        Ok(PlanView::Run(seq!["doctor"@, "--fast"@]))
    } else if op == "orphans"@ {
        Ok(PlanView::Run(seq!["orphans"@]))
    } else if op == "storage"@ {
        Ok(PlanView::Run(seq!["storage"@, "status"@]))
    } else if op == "graph-query"@ || op == "ask"@ || op == "query"@ {
        match arg {
            Some(a) => Ok(PlanView::Run(seq![op, a])),
            None => Err(need_arg(op)),
        }
    } else if op == "unify-types"@ {
        Ok(PlanView::Run(seq![
            "jobs"@,
            "submit"@,
            "unify-types"@,
            "--params"@,
            "{\"target_pack\":\"gbrain-base-v2\",\"apply\":true}"@,
            "--follow"@,
        ]))
    } else if op == "think"@ {
        match arg {
            Some(a) => Ok(PlanView::Think(think_args_spec(a, model))),
            None => Err(need_arg(op)),
        }
    } else if op == "sync"@ {
        Ok(PlanView::Sync)
    } else {
        Err(("op.unknown"@, seq![("op"@, op)]))
    }
}

pub open spec fn opt_str(o: Option<&str>) -> Option<Seq<char>> {
    match o {
        Some(s) => Some(s@),
        None => None,
    }
}

fn strs(v: Vec<&str>) -> (r: Vec<String>)
    ensures
        views_of(r@) == crate::text::strs_view(v@),
{
    let mut r: Vec<String> = Vec::new();
    let mut i: usize = 0;
    while i < v.len()
        invariant
            i <= v.len(),
            views_of(r@) == crate::text::strs_view(v@.take(i as int)),
        decreases v.len() - i,
    {
        let ghost before = r@;
        r.push(owned(v[i]));
        assert(views_of(r@) =~= views_of(before).push(v@[i as int]@));
        assert(crate::text::strs_view(v@.take(i as int + 1)) =~= crate::text::strs_view(v@.take(i as int)).push(v@[i as int]@));
        i += 1;
    }
    assert(v@.take(v.len() as int) =~= v@);
    r
}

fn need_arg_err(op: &str) -> (r: AppError)
    ensures
        r@ == need_arg(op@),
{
    let e = AppError::new("op.needArg").p("op", op);
    assert(e@.1 =~= seq![("op"@, op@)]);
    e
}

/// The `think` arguments for a raw argument and an optional think model.
pub fn think_args(raw: &str, model: Option<&str>) -> (r: Vec<String>)
    ensures
        views_of(r@) == think_args_spec(raw@, opt_str(model)),
{
    let v = crate::text::chars_of(raw);
    let tag = crate::text::chars_of("anchor:");
    let mut anchor: Option<String> = None;
    let mut question: String;
    if crate::text::occurs_at_exec(&v, &tag, 0) {
        let rest = crate::text::slice_chars(&v, tag.len(), v.len());
        let ghost rs = raw@.skip("anchor:"@.len() as int);
        assert(rest@ =~= rs);
        let k = crate::text::next_nl(&rest, 0);
        assert(rest@.skip(0) =~= rest@);
        proof { crate::text::lemma_until_nl(rs); }
        if k < rest.len() {
            assert(crate::text::has_nl(rs)) by {
                assert(rs[k as int] == '\n');
            }
            let slug = crate::text::slice_chars(&rest, 0, k);
            let q = crate::text::slice_chars(&rest, k + 1, rest.len());
            assert(q@ =~= crate::text::after_nl(rs));
            anchor = Some(crate::text::string_of(&slug));
            question = crate::text::string_of(&q);
        } else {
            assert(!crate::text::has_nl(rs));
            question = crate::text::string_of(&rest);
        }
    } else {
        question = owned(raw);
    }
    let ghost parts = think_parts(raw@);
    assert(opt_str_string(anchor) == parts.0 && question@ == parts.1);
    let mut args: Vec<String> = Vec::new();
    args.push(owned("think"));
    args.push(question);
    match model {
        Some(m) => {
            args.push(owned("--model"));
            args.push(owned(m));
        },
        None => {},
    }
    match anchor {
        Some(a) => {
            args.push(owned("--anchor"));
            args.push(a);
        },
        None => {},
    }
    args.push(owned("--json"));
    assert(views_of(args@) =~= think_args_spec(raw@, opt_str(model)));
    args
}

pub open spec fn opt_str_string(o: Option<String>) -> Option<Seq<char>> {
    match o {
        Some(s) => Some(s@),
        None => None,
    }
}

/// What an operation runs (`think_model`: the brain's configured think model, if any).
pub fn op_plan(op: &str, arg: Option<&str>, think_model: Option<&str>) -> (r: Result<OpPlan, AppError>)
    ensures
        plan_res_view(r) == op_plan_spec(op@, opt_str(arg), opt_str(think_model)),
{
    if str_eq(op, "stats") {
        let v = strs(vec!["stats"]);
        assert(views_of(v@) =~= seq!["stats"@]);
        Ok(OpPlan::Run(v))
    } else if str_eq(op, "extract") {
        let v = strs(vec!["extract", "--stale"]);
        assert(views_of(v@) =~= seq!["extract"@, "--stale"@]);
        Ok(OpPlan::Run(v))
    } else if str_eq(op, "embed") {
        let v = strs(vec!["embed", "--stale"]);
        assert(views_of(v@) =~= seq!["embed"@, "--stale"@]);
        Ok(OpPlan::Run(v))
    } else if str_eq(op, "doctor") {
        let v = strs(vec!["doctor", "--fast"]);
        assert(views_of(v@) =~= seq!["doctor"@, "--fast"@]);
        Ok(OpPlan::Run(v))
    } else if str_eq(op, "orphans") {
        let v = strs(vec!["orphans"]);
        assert(views_of(v@) =~= seq!["orphans"@]);
        Ok(OpPlan::Run(v))
    } else if str_eq(op, "storage") {
        let v = strs(vec!["storage", "status"]);
        assert(views_of(v@) =~= seq!["storage"@, "status"@]);
        Ok(OpPlan::Run(v))
    } else if str_eq(op, "graph-query") || str_eq(op, "ask") || str_eq(op, "query") {
        match arg {
            Some(a) => {
                let v = strs(vec![op, a]);
                assert(views_of(v@) =~= seq![op@, a@]);
                Ok(OpPlan::Run(v))
            },
            None => Err(need_arg_err(op)),
        }
    } else if str_eq(op, "unify-types") {
        let v = strs(
            vec![
                "jobs",
                "submit",
                "unify-types",
                "--params",
                "{\"target_pack\":\"gbrain-base-v2\",\"apply\":true}",
                "--follow",
            ],
        );
        assert(views_of(v@) =~= seq![
            "jobs"@,
            "submit"@,
            "unify-types"@,
            "--params"@,
            "{\"target_pack\":\"gbrain-base-v2\",\"apply\":true}"@,
            "--follow"@,
        ]);
        Ok(OpPlan::Run(v))
    } else if str_eq(op, "think") {
        match arg {
            Some(a) => Ok(OpPlan::Think(think_args(a, think_model))),
            None => Err(need_arg_err(op)),
        }
    } else if str_eq(op, "sync") {
        Ok(OpPlan::Sync)
    } else {
        let e = AppError::new("op.unknown").p("op", op);
        assert(e@.1 =~= seq![("op"@, op@)]);
        Err(e)
    }
}

/// The `gbrain sync` arguments for the notes repository (`--no-pull` before `--yes` when set).
pub fn repo_sync_args(notes: &str, no_pull: bool) -> (r: Vec<String>)
    ensures
        views_of(r@) == (if no_pull {
            seq!["sync"@, "--repo"@, notes@, "--no-pull"@, "--yes"@]
        } else {
            seq!["sync"@, "--repo"@, notes@, "--yes"@]
        }),
{
    let mut v = vec![owned("sync"), owned("--repo"), owned(notes)];
    if no_pull {
        v.push(owned("--no-pull"));
    }
    v.push(owned("--yes"));
    proof {
        if no_pull {
            assert(views_of(v@) =~= seq!["sync"@, "--repo"@, notes@, "--no-pull"@, "--yes"@]);
        } else {
            assert(views_of(v@) =~= seq!["sync"@, "--repo"@, notes@, "--yes"@]);
        }
    }
    v
}


// ---------------------------------------------------------------------------
// `gbrain think --json`
// ---------------------------------------------------------------------------

/// A citation of `gbrain think --json`.
#[derive(Debug, Clone)]
pub struct ThinkCitation {
    pub page_slug: String,
    pub row_num: Option<u64>,
}

/// The fields of `gbrain think --json` that are shown.
#[derive(Debug, Clone)]
pub struct ThinkJson {
    pub question: String,
    pub answer: String,
    pub citations: Vec<ThinkCitation>,
    pub gaps: Vec<String>,
    pub warnings: Vec<String>,
    pub model_used: Option<String>,
    pub pages_gathered: Option<u64>,
    pub takes_gathered: Option<u64>,
    pub graph_hits: Option<u64>,
}

/// A citation as a wikilink `[[slug]]`, with `（take #n）` for a take-level one.
pub open spec fn citation_spec(c: ThinkCitation) -> Seq<char> {
    "[["@ + c.page_slug@ + "]]"@ + match c.row_num {
        Some(n) => "（take #"@ + dec_seq(n as nat) + "）"@,
        None => Seq::empty(),
    }
}

pub fn citation_line(c: &ThinkCitation) -> (r: String)
    ensures
        r@ == citation_spec(*c),
{
    let mut s = owned("[[");
    push_str(&mut s, c.page_slug.as_str());
    push_str(&mut s, "]]");
    match c.row_num {
        Some(n) => {
            push_str(&mut s, "（take #");
            push_dec(&mut s, n as u128);
            push_str(&mut s, "）");
        },
        None => {},
    }
    assert(s@ =~= citation_spec(*c));
    s
}

/// What `regex` `\[slug(?:#\d+)?\]` replaced by nothing leaves of a text.
pub uninterp spec fn without_slug_markers(s: Seq<char>) -> Seq<char>;

/// The answer without the `[slug]` / `[slug#N]` placeholders that some models leave
/// (`regex::Regex::replace_all` with an empty replacement).
#[verifier::external_body]
fn strip_slug_markers(s: &str) -> (r: String)
    ensures
        r@ == without_slug_markers(s@),
{
    regex::Regex::new(r"\[slug(?:#\d+)?\]").unwrap().replace_all(s, "").into_owned()
}

/// The lines that are not empty, in order.
pub open spec fn nonempty_lines(ls: Seq<Seq<char>>) -> Seq<Seq<char>>
    decreases ls.len(),
{
    if ls.len() == 0 {
        ls
    } else if ls.last().len() > 0 {
        nonempty_lines(ls.drop_last()).push(ls.last())
    } else {
        nonempty_lines(ls.drop_last())
    }
}

/// A warning that is shown: not one of the two citation-matching warnings.
pub open spec fn shown_warning(w: Seq<char>) -> bool {
    !has_sub(w, "CITATIONS_STRUCTURED_NOT_INLINE"@) && !has_sub(w, "CITATIONS_INLINE_NOT_IN_STRUCTURED"@)
}

pub open spec fn shown_warnings(ws: Seq<Seq<char>>) -> Seq<Seq<char>>
    decreases ws.len(),
{
    if ws.len() == 0 {
        ws
    } else if shown_warning(ws.last()) {
        shown_warnings(ws.drop_last()).push(ws.last())
    } else {
        shown_warnings(ws.drop_last())
    }
}

pub open spec fn as_lines(stream: Seq<char>, ls: Seq<Seq<char>>) -> Seq<(Seq<char>, Seq<char>)> {
    ls.map_values(|l: Seq<char>| (stream, l))
}

pub open spec fn prefixed(p: Seq<char>, ls: Seq<Seq<char>>) -> Seq<Seq<char>> {
    ls.map_values(|l: Seq<char>| p + l)
}

/// The non-empty lines of a text as output lines.
pub open spec fn raw_output(stream: Seq<char>, text: Seq<char>) -> Seq<(Seq<char>, Seq<char>)> {
    as_lines(stream, nonempty_lines(lines_spec(text)))
}

pub open spec fn or_zero(o: Option<u64>) -> nat {
    match o {
        Some(n) => n as nat,
        None => 0,
    }
}

/// The summary line of a think answer.
pub open spec fn summary_spec(p: ThinkJson) -> Seq<char> {
    "Model: "@ + match p.model_used {
        Some(m) => m@,
        None => Seq::empty(),
    } + " | Pages: "@ + dec_seq(or_zero(p.pages_gathered)) + " | Takes: "@ + dec_seq(
        or_zero(p.takes_gathered),
    ) + " | Graph: "@ + dec_seq(or_zero(p.graph_hits)) + " | Citations: "@ + dec_seq(
        p.citations@.len(),
    )
}

/// A parsed think answer for people: the question as a heading, the answer without placeholder
/// citations, the gaps, a rule and a summary, the citation list, and the warnings that matter.
pub open spec fn think_body_spec(p: ThinkJson) -> Seq<(Seq<char>, Seq<char>)> {
    let out = "stdout"@;
    let answer = if p.answer@.len() > 0 {
        as_lines(out, lines_spec(trim_end_spec(without_slug_markers(p.answer@))))
    } else {
        Seq::empty()
    };
    let gaps = if p.gaps@.len() > 0 {
        seq![(out, "## Gaps"@)] + as_lines(out, prefixed("- "@, views_of(p.gaps@)))
    } else {
        Seq::empty()
    };
    let cites = if p.citations@.len() > 0 {
        seq![(out, "## 引註（Citations）"@)] + as_lines(
            out,
            prefixed("- "@, p.citations@.map_values(|c: ThinkCitation| citation_spec(c))),
        )
    } else {
        Seq::empty()
    };
    let ws = shown_warnings(views_of(p.warnings@));
    let warn = if ws.len() > 0 {
        seq![("stderr"@, "Warnings: "@ + join_spec(ws, ", "@))]
    } else {
        Seq::empty()
    };
    seq![(out, "# "@ + p.question@)] + answer + gaps + seq![(out, "---"@), (out, summary_spec(p))] + cites
        + warn
}

/// The output of `gbrain think --json`: its error output first; for a non-zero exit the raw
/// output; for output that is not the expected JSON a note and the raw output; else the answer
/// rendered for people.
pub open spec fn think_render_spec(code: i32, stdout: Seq<char>, stderr: Seq<char>, parsed: Result<ThinkJson, String>) -> Seq<(Seq<char>, Seq<char>)> {
    raw_output("stderr"@, stderr) + if code != 0 {
        raw_output("stdout"@, stdout)
    } else {
        match parsed {
            Err(e) => seq![("stderr"@, "think: --json 輸出解析失敗（"@ + e@ + "），改以純文字顯示"@)] + raw_output(
                "stdout"@,
                stdout,
            ),
            Ok(p) => think_body_spec(p),
        }
    }
}

fn push_line(out: &mut Vec<CliLine>, stream: &str, text: &str)
    ensures
        lines_view(final(out)@) == lines_view(old(out)@).push((stream@, text@)),
{
    let ghost before = out@;
    out.push(cli_line(stream, text));
    assert(lines_view(out@) =~= lines_view(before).push((stream@, text@)));
}

/// Appends every line of `ls`, with prefix `p`, on `stream`.
fn push_all(out: &mut Vec<CliLine>, stream: &str, p: &str, ls: &Vec<String>)
    ensures
        lines_view(final(out)@) == lines_view(old(out)@) + as_lines(stream@, prefixed(p@, views_of(ls@))),
{
    let mut i: usize = 0;
    while i < ls.len()
        invariant
            i <= ls.len(),
            lines_view(out@) == lines_view(old(out)@) + as_lines(stream@, prefixed(p@, views_of(ls@.take(i as int)))),
        decreases ls.len() - i,
    {
        let mut t = owned(p);
        push_str(&mut t, ls[i].as_str());
        push_line(out, stream, t.as_str());
        assert(views_of(ls@.take(i as int + 1)) =~= views_of(ls@.take(i as int)).push(ls@[i as int]@));
        assert(as_lines(stream@, prefixed(p@, views_of(ls@.take(i as int + 1)))) =~= as_lines(
            stream@,
            prefixed(p@, views_of(ls@.take(i as int))),
        ).push((stream@, p@ + ls@[i as int]@)));
        i += 1;
    }
    assert(ls@.take(ls.len() as int) =~= ls@);
}

/// Appends the non-empty lines of a text on `stream`.
fn push_raw(out: &mut Vec<CliLine>, stream: &str, text: &str)
    ensures
        lines_view(final(out)@) == lines_view(old(out)@) + raw_output(stream@, text@),
{
    let ls = lines(text);
    let ghost ms = views_of(ls@);
    let mut i: usize = 0;
    while i < ls.len()
        invariant
            i <= ls.len(),
            ms == views_of(ls@),
            ms == lines_spec(text@),
            lines_view(out@) == lines_view(old(out)@) + as_lines(stream@, nonempty_lines(ms.take(i as int))),
        decreases ls.len() - i,
    {
        assert(ms.take(i as int + 1).drop_last() =~= ms.take(i as int));
        assert(ms.take(i as int + 1).last() == ls@[i as int]@);
        if !ls[i].as_str().is_empty() {
            push_line(out, stream, ls[i].as_str());
            assert(as_lines(stream@, nonempty_lines(ms.take(i as int + 1))) =~= as_lines(
                stream@,
                nonempty_lines(ms.take(i as int)),
            ).push((stream@, ls@[i as int]@)));
        }
        i += 1;
    }
    assert(ms.take(ls.len() as int) =~= ms);
}

fn kept_warnings(ws: &Vec<String>) -> (r: Vec<String>)
    ensures
        views_of(r@) == shown_warnings(views_of(ws@)),
{
    let ghost ms = views_of(ws@);
    let mut r: Vec<String> = Vec::new();
    let mut i: usize = 0;
    while i < ws.len()
        invariant
            i <= ws.len(),
            ms == views_of(ws@),
            views_of(r@) == shown_warnings(ms.take(i as int)),
        decreases ws.len() - i,
    {
        assert(ms.take(i as int + 1).drop_last() =~= ms.take(i as int));
        assert(ms.take(i as int + 1).last() == ws@[i as int]@);
        let w = ws[i].as_str();
        if !contains_str(w, "CITATIONS_STRUCTURED_NOT_INLINE") && !contains_str(w, "CITATIONS_INLINE_NOT_IN_STRUCTURED") {
            let ghost before = r@;
            r.push(owned(w));
            assert(views_of(r@) =~= views_of(before).push(w@));
        }
        i += 1;
    }
    assert(ms.take(ws.len() as int) =~= ms);
    r
}

fn or_zero_exec(o: Option<u64>) -> (r: u64)
    ensures
        r as nat == or_zero(o),
{
    match o {
        Some(n) => n,
        None => 0,
    }
}

fn summary(p: &ThinkJson) -> (r: String)
    ensures
        r@ == summary_spec(*p),
{
    let mut s = owned("Model: ");
    match &p.model_used {
        Some(m) => push_str(&mut s, m.as_str()),
        None => {},
    }
    push_str(&mut s, " | Pages: ");
    push_dec(&mut s, or_zero_exec(p.pages_gathered) as u128);
    push_str(&mut s, " | Takes: ");
    push_dec(&mut s, or_zero_exec(p.takes_gathered) as u128);
    push_str(&mut s, " | Graph: ");
    push_dec(&mut s, or_zero_exec(p.graph_hits) as u128);
    push_str(&mut s, " | Citations: ");
    push_dec(&mut s, p.citations.len() as u128);
    assert(s@ =~= summary_spec(*p));
    s
}

fn think_body(p: &ThinkJson) -> (r: Vec<CliLine>)
    ensures
        lines_view(r@) == think_body_spec(*p),
{
    let mut out: Vec<CliLine> = Vec::new();
    let mut q = owned("# ");
    push_str(&mut q, p.question.as_str());
    push_line(&mut out, "stdout", q.as_str());
    let ghost l0 = lines_view(out@);
    if !p.answer.as_str().is_empty() {
        let cleaned = strip_slug_markers(p.answer.as_str());
        let t = trim_end(cleaned.as_str());
        let ls = lines(t.as_str());
        push_all(&mut out, "stdout", "", &ls);
        proof {
            reveal_strlit("");
            assert forall|k: int| 0 <= k < views_of(ls@).len() implies ""@ + views_of(ls@)[k] == views_of(ls@)[k] by {
                assert(""@ + views_of(ls@)[k] =~= views_of(ls@)[k]);
            }
        }
        assert(prefixed(""@, views_of(ls@)) =~= views_of(ls@));
    }
    let ghost l1 = lines_view(out@);
    if p.gaps.len() > 0 {
        push_line(&mut out, "stdout", "## Gaps");
        push_all(&mut out, "stdout", "- ", &p.gaps);
    }
    let ghost l2 = lines_view(out@);
    push_line(&mut out, "stdout", "---");
    let sm = summary(p);
    push_line(&mut out, "stdout", sm.as_str());
    let ghost l3 = lines_view(out@);
    if p.citations.len() > 0 {
        push_line(&mut out, "stdout", "## 引註（Citations）");
        let mut cs: Vec<String> = Vec::new();
        let mut i: usize = 0;
        while i < p.citations.len()
            invariant
                i <= p.citations.len(),
                views_of(cs@) == p.citations@.take(i as int).map_values(|c: ThinkCitation| citation_spec(c)),
            decreases p.citations.len() - i,
        {
            let ghost before = cs@;
            cs.push(citation_line(&p.citations[i]));
            assert(views_of(cs@) =~= views_of(before).push(citation_spec(p.citations@[i as int])));
            assert(p.citations@.take(i as int + 1).map_values(|c: ThinkCitation| citation_spec(c)) =~= p.citations@.take(
                i as int,
            ).map_values(|c: ThinkCitation| citation_spec(c)).push(citation_spec(p.citations@[i as int])));
            i += 1;
        }
        assert(p.citations@.take(p.citations.len() as int) =~= p.citations@);
        push_all(&mut out, "stdout", "- ", &cs);
    }
    let ghost l4 = lines_view(out@);
    let ws = kept_warnings(&p.warnings);
    if ws.len() > 0 {
        let mut w = owned("Warnings: ");
        let j = join(&ws, ", ");
        push_str(&mut w, j.as_str());
        push_line(&mut out, "stderr", w.as_str());
    }
    assert(lines_view(out@) =~= think_body_spec(*p));
    out
}

/// The lines to show for a finished `gbrain think --json`: `parsed` is its output read as JSON
/// (or why it could not be), consulted only after a zero exit.
pub fn render_think(code: i32, stdout: &str, stderr: &str, parsed: Result<ThinkJson, String>) -> (r: Vec<CliLine>)
    ensures
        lines_view(r@) == think_render_spec(code, stdout@, stderr@, parsed),
{
    let mut out: Vec<CliLine> = Vec::new();
    push_raw(&mut out, "stderr", stderr);
    assert(lines_view(out@) =~= raw_output("stderr"@, stderr@));
    if code != 0 {
        push_raw(&mut out, "stdout", stdout);
        return out;
    }
    match parsed {
        Err(e) => {
            let mut m = owned("think: --json 輸出解析失敗（");
            push_str(&mut m, e.as_str());
            push_str(&mut m, "），改以純文字顯示");
            push_line(&mut out, "stderr", m.as_str());
            push_raw(&mut out, "stdout", stdout);
            out
        },
        Ok(p) => {
            let body = think_body(&p);
            let ghost before = out@;
            let mut b = body;
            out.append(&mut b);
            assert(lines_view(out@) =~= lines_view(before) + think_body_spec(p));
            out
        },
    }
}

/// The step shown while `think` runs.
pub fn think_start() -> (r: CliLine)
    ensures
        r@ == ("step"@, "think：合成中…"@),
{
    cli_line("step", "think：合成中…")
}

/// The line shown when `think` could not be started.
pub fn think_spawn_failed(err: &str) -> (r: CliLine)
    ensures
        r@ == ("stderr"@, "think: spawn 失敗："@ + err@),
{
    let mut m = owned("think: spawn 失敗：");
    push_str(&mut m, err);
    cli_line("stderr", m.as_str())
}


// ---------------------------------------------------------------------------
// Child processes and git steps
// ---------------------------------------------------------------------------

/// One line of a child's standard output, decoded and without its line ending; `None` when
/// nothing is left (such lines are not shown).
pub fn stdout_line(bytes: &[u8]) -> (r: Option<CliLine>)
    requires
        bytes@.len() < usize::MAX / 8,
    ensures
        strip_eol(decoded(bytes@)).len() == 0 ==> r is None,
        strip_eol(decoded(bytes@)).len() > 0 ==> (r matches Some(l) && l.stream@ == "stdout"@ && l.text@
            == strip_eol(decoded(bytes@))),
{
    let text = decode_line(bytes);
    if text.as_str().is_empty() {
        None
    } else {
        Some(CliLine { stream: owned("stdout"), text })
    }
}

/// A child's exit code; `-1` when it ended without one (killed by a signal).
pub fn exit_code_or(code: Option<i32>) -> (r: i32)
    ensures
        r == match code {
            Some(c) => c,
            None => -1i32,
        },
{
    match code {
        Some(c) => c,
        None => -1,
    }
}

/// A step line and the `git` arguments it announces.
pub struct GitStep {
    pub line: String,
    pub args: Vec<String>,
}

fn git_step(line: &str, args: Vec<&str>) -> (r: GitStep)
    ensures
        r.line@ == line@,
        views_of(r.args@) == crate::text::strs_view(args@),
{
    GitStep { line: owned(line), args: strs(args) }
}

/// What makes a directory a git repository with a commit (when it is not one): `init`, `add -A`,
/// and an empty initial commit with a fixed identity (the machine may have none).
pub fn git_init_steps() -> (r: Vec<GitStep>)
    ensures
        r@.len() == 3,
        r@[0].line@ == "▶ git init"@ && views_of(r@[0].args@) == seq!["init"@],
        r@[1].line@ == "▶ git add -A"@ && views_of(r@[1].args@) == seq!["add"@, "-A"@],
        r@[2].line@ == "▶ git commit (initial)"@ && views_of(r@[2].args@) == seq![
            "-c"@,
            "user.email=operoid@local"@,
            "-c"@,
            "user.name=Operoid"@,
            "commit"@,
            "--allow-empty"@,
            "-m"@,
            "init"@,
        ],
{
    let a = git_step("▶ git init", vec!["init"]);
    let b = git_step("▶ git add -A", vec!["add", "-A"]);
    let c = git_step(
        "▶ git commit (initial)",
        vec!["-c", "user.email=operoid@local", "-c", "user.name=Operoid", "commit", "--allow-empty", "-m", "init"],
    );
    assert(views_of(a.args@) =~= seq!["init"@]);
    assert(views_of(b.args@) =~= seq!["add"@, "-A"@]);
    assert(views_of(c.args@) =~= seq![
        "-c"@,
        "user.email=operoid@local"@,
        "-c"@,
        "user.name=Operoid"@,
        "commit"@,
        "--allow-empty"@,
        "-m"@,
        "init"@,
    ]);
    vec![a, b, c]
}

/// The commit before a sync, with its time stamp in the message.
pub fn sync_commit_args(stamp: &str) -> (r: Vec<String>)
    ensures
        views_of(r@) == seq!["commit"@, "-m"@, "Operoid sync "@ + stamp@],
{
    let mut m = owned("Operoid sync ");
    push_str(&mut m, stamp);
    let v = vec![owned("commit"), owned("-m"), m];
    assert(views_of(v@) =~= seq!["commit"@, "-m"@, "Operoid sync "@ + stamp@]);
    v
}

/// The note after a commit that found nothing new (the sync goes on with what is committed).
pub fn commit_note(commit_code: i32) -> (r: Option<CliLine>)
    ensures
        commit_code == 0 ==> r is None,
        commit_code != 0 ==> (r matches Some(l) && l.stream@ == "step"@ && l.text@
            == "（無新變更可 commit；仍繼續 sync 已 commit 的差異）"@),
{
    if commit_code != 0 {
        Some(cli_line("step", "（無新變更可 commit；仍繼續 sync 已 commit 的差異）"))
    } else {
        None
    }
}

/// The refusal of a sync whose notes directory does not exist.
pub fn notes_not_found(path: &str) -> (r: AppError)
    ensures
        r@ == ("op.notesNotFound"@, seq![("path"@, path@)]),
{
    let e = AppError::new("op.notesNotFound").p("path", path);
    assert(e@.1 =~= seq![("path"@, path@)]);
    e
}

/// The result of a notes sync: success is exit code 0, noted `op.syncDone`.
pub fn notes_sync_done(code: i32) -> (r: OpResult)
    ensures
        r@ == (code == 0, Some(code), Some(("op.syncDone"@, Seq::<(Seq<char>, Seq<char>)>::empty()))),
{
    OpResult::with_note(code, L10n::new("op.syncDone"))
}

} // verus!
