//! File classification: which factory a file belongs to.
//!
//! Three tiers: (1) the extension and a CSV header, (2) keyword rules, (3) the LLM. Only the
//! deterministic tiers answer `High`/`Medium` (the front end runs those at once); the LLM answers
//! `High` or `Low`, so an LLM guess never writes silently. An empty factory means an unsupported
//! extension. Reading the file and calling the LLM happen outside; this module decides.
use vstd::prelude::*;
use crate::factory_types::{
    first_kind, kind_id_spec, normalize_spec, norm_key, prompt_line, prompt_lines_of, FactoryTypeSpec,
    Pack,
};
use crate::text::{
    chars_of, contains_any, contains_str, first_line, first_line_spec, has_any, has_sub, join, join_spec,
    lower_seq, owned, push_chars, push_str, str_eq, strs_view, take_chars, to_ascii_lower, trim,
    trim_spec, views_of,
};

verus! {

/// Characters of text that the classifier samples.
pub const SAMPLE_CHARS: usize = 3000;

#[derive(Debug, Clone, Copy, PartialEq, Eq, Structural)]
pub enum Confidence {
    High,
    Medium,
    Low,
}

#[derive(Debug, Clone, Copy, PartialEq, Eq, Structural)]
pub enum ClassifySource {
    Extension,
    Heuristic,
    Llm,
}

/// The classification of one file.
#[derive(Debug, Clone)]
pub struct FileClassification {
    pub path: String,
    /// The factory id; empty for an unsupported extension.
    pub factory: String,
    pub confidence: Confidence,
    /// One sentence for the user interface.
    pub reason: String,
    pub source: ClassifySource,
}

pub struct ClsView {
    pub path: Seq<char>,
    pub factory: Seq<char>,
    pub confidence: Confidence,
    pub reason: Seq<char>,
    pub source: ClassifySource,
}

impl View for FileClassification {
    type V = ClsView;

    open spec fn view(&self) -> ClsView {
        ClsView {
            path: self.path@,
            factory: self.factory@,
            confidence: self.confidence,
            reason: self.reason@,
            source: self.source,
        }
    }
}

pub open spec fn cls(
    path: Seq<char>,
    factory: Seq<char>,
    confidence: Confidence,
    reason: Seq<char>,
    source: ClassifySource,
) -> ClsView {
    ClsView { path, factory, confidence, reason, source }
}

fn mk(
    path: &str,
    factory: String,
    confidence: Confidence,
    reason: String,
    source: ClassifySource,
) -> (r: FileClassification)
    ensures
        r@ == cls(path@, factory@, confidence, reason@, source),
{
    FileClassification { path: owned(path), factory, confidence, reason, source }
}

/// The outcome of the offline tiers: decided, or handed to the LLM with the sampled text.
#[derive(Debug, Clone)]
pub enum Verdict {
    Done(FileClassification),
    Llm(String),
}

pub enum VerdictView {
    Done(ClsView),
    Llm(Seq<char>),
}

impl View for Verdict {
    type V = VerdictView;

    open spec fn view(&self) -> VerdictView {
        match self {
            Verdict::Done(c) => VerdictView::Done(c@),
            Verdict::Llm(s) => VerdictView::Llm(s@),
        }
    }
}

/// A keyword-rule hit: the factory id and the reason shown.
pub struct Hit {
    pub factory: &'static str,
    pub reason: &'static str,
}

// ---------------------------------------------------------------------------
// Sampling
// ---------------------------------------------------------------------------

/// The classifier's sample of a text: at most `SAMPLE_CHARS` characters, marked when cut.
pub open spec fn sample_spec(s: Seq<char>) -> Seq<char> {
    if s.len() <= SAMPLE_CHARS {
        s
    } else {
        s.take(SAMPLE_CHARS as int) + "\n[…]"@
    }
}

/// The trimmed text, cut to `n` characters with an ellipsis.
pub open spec fn cap_spec(s: Seq<char>, n: nat) -> Seq<char> {
    let t = trim_spec(s);
    if t.len() <= n {
        t
    } else {
        t.take(n as int) + "…"@
    }
}

pub fn sample(s: &str) -> (r: String)
    ensures
        r@ == sample_spec(s@),
{
    let all = chars_of(s);
    let v = take_chars(s, SAMPLE_CHARS);
    let mut out = String::new();
    push_chars(&mut out, &v);
    if all.len() > SAMPLE_CHARS {
        push_str(&mut out, "\n[…]");
    }
    assert(out@ =~= sample_spec(s@));
    out
}

pub fn cap(s: &str, n: usize) -> (r: String)
    ensures
        r@ == cap_spec(s@, n as nat),
{
    let t = trim(s);
    let all = chars_of(t.as_str());
    let v = take_chars(t.as_str(), n);
    let mut out = String::new();
    push_chars(&mut out, &v);
    if all.len() > n {
        push_str(&mut out, "…");
    }
    assert(out@ =~= cap_spec(s@, n as nat));
    out
}

// ---------------------------------------------------------------------------
// Keyword rules
// ---------------------------------------------------------------------------

pub open spec fn company_keys() -> Seq<Seq<char>> {
    seq!["公司簡介"@, "公司介紹"@, "統一編號"@, "資本額"@, "營業額"@, "成立於"@, "創辦人"@]
}

pub open spec fn company_keys_en() -> Seq<Seq<char>> {
    seq!["company profile"@, "founded in"@, "headquarters"@, "revenue"@]
}

pub open spec fn meeting_keys() -> Seq<Seq<char>> {
    seq!["會議記錄"@, "會議逐字稿"@, "會議議程"@, "出席者"@, "出席人員"@, "議程"@]
}

pub open spec fn meeting_keys_en() -> Seq<Seq<char>> {
    seq!["meeting minutes"@, "attendees"@, "agenda"@]
}

pub open spec fn project_keys() -> Seq<Seq<char>> {
    seq!["專案"@, "專項"@, "里程碑"@, "交付項目"@, "工作包"@, "甘特圖"@]
}

pub open spec fn project_keys_en() -> Seq<Seq<char>> {
    seq!["deliverable"@, "milestone"@, "sprint"@, "wbs"@, "gantt"@]
}

/// Contact features: a vCard, or phone + mail + name words.
pub open spec fn people_sig(c: Seq<char>) -> bool {
    let low = lower_seq(c);
    ||| has_sub(c, "BEGIN:VCARD"@)
    ||| has_sub(low, "vcard"@)
    ||| (has_sub(c, "電話"@) || has_sub(c, "手機"@) || has_sub(low, "phone"@)) && (has_sub(c, "信箱"@)
        || has_sub(low, "email"@) || has_sub(c, "@"@)) && (has_sub(c, "姓名"@) || has_sub(c, "聯絡"@)
        || has_sub(low, "name"@))
}

pub open spec fn company_sig(c: Seq<char>) -> bool {
    has_any(c, company_keys()) || has_any(lower_seq(c), company_keys_en())
}

pub open spec fn meeting_sig(c: Seq<char>) -> bool {
    has_any(c, meeting_keys()) || has_any(lower_seq(c), meeting_keys_en())
}

pub open spec fn project_sig(c: Seq<char>) -> bool {
    has_any(c, project_keys()) || has_any(lower_seq(c), project_keys_en())
}

pub open spec fn b2i(b: bool) -> int {
    if b {
        1
    } else {
        0
    }
}

/// How many of the four categories the text shows.
pub open spec fn hit_count(c: Seq<char>) -> int {
    b2i(people_sig(c)) + b2i(company_sig(c)) + b2i(meeting_sig(c)) + b2i(project_sig(c))
}

/// The canonical kind of the (single) category hit.
pub open spec fn hit_kind(c: Seq<char>) -> Seq<char> {
    if people_sig(c) {
        "people"@
    } else if company_sig(c) {
        "company"@
    } else if meeting_sig(c) {
        "meeting"@
    } else {
        "projects"@
    }
}

pub open spec fn kind_reason(kind: Seq<char>) -> Seq<char> {
    if kind == "people"@ {
        "偵測到聯絡人特徵"@
    } else if kind == "company"@ {
        "偵測到公司/組織特徵"@
    } else if kind == "meeting"@ {
        "偵測到會議特徵"@
    } else {
        "偵測到專案特徵"@
    }
}

/// The keyword rules: exactly one category must hit, and the pack must have a type of its kind;
/// the result is that type's id and the reason.
pub open spec fn heuristic_spec(types: Seq<FactoryTypeSpec>, c: Seq<char>) -> Option<(Seq<char>, Seq<char>)> {
    if hit_count(c) != 1 {
        None
    } else {
        match kind_id_spec(types, hit_kind(c)) {
            Some(id) => Some((id, kind_reason(hit_kind(c)))),
            None => None,
        }
    }
}

/// A contact text is a contact: a text with a phone word (`電話`, `手機`, `phone`), a mail word
/// (`信箱`, `email`, or an `@`) and a name word (`姓名`, `聯絡`, `name`), and no company, meeting or
/// project keyword, goes by the keyword rules to the pack's people type, with the contact reason.
/// (English words are matched without regard to ASCII case.)
pub proof fn lemma_contact_text_is_people(types: Seq<FactoryTypeSpec>, c: Seq<char>, id: Seq<char>)
    requires
        has_sub(c, "電話"@) || has_sub(c, "手機"@) || has_sub(lower_seq(c), "phone"@),
        has_sub(c, "信箱"@) || has_sub(lower_seq(c), "email"@) || has_sub(c, "@"@),
        has_sub(c, "姓名"@) || has_sub(c, "聯絡"@) || has_sub(lower_seq(c), "name"@),
        !has_any(c, company_keys()) && !has_any(lower_seq(c), company_keys_en()),
        !has_any(c, meeting_keys()) && !has_any(lower_seq(c), meeting_keys_en()),
        !has_any(c, project_keys()) && !has_any(lower_seq(c), project_keys_en()),
        kind_id_spec(types, "people"@) == Some(id),
    ensures
        heuristic_spec(types, c) == Some((id, "偵測到聯絡人特徵"@)),
{
}

/// A vCard is a contact whatever else it mentions of people: with no company, meeting or project
/// keyword it goes to the pack's people type.
pub proof fn lemma_vcard_is_people(types: Seq<FactoryTypeSpec>, c: Seq<char>, id: Seq<char>)
    requires
        has_sub(c, "BEGIN:VCARD"@),
        !has_any(c, company_keys()) && !has_any(lower_seq(c), company_keys_en()),
        !has_any(c, meeting_keys()) && !has_any(lower_seq(c), meeting_keys_en()),
        !has_any(c, project_keys()) && !has_any(lower_seq(c), project_keys_en()),
        kind_id_spec(types, "people"@) == Some(id),
    ensures
        heuristic_spec(types, c) == Some((id, "偵測到聯絡人特徵"@)),
{
}

fn any_of(s: &str, keys: Vec<&str>, spec_keys: Ghost<Seq<Seq<char>>>) -> (r: bool)
    requires
        strs_view(keys@) == spec_keys@,
    ensures
        r == has_any(s@, spec_keys@),
{
    contains_any(s, &keys)
}

/// The keyword rules on a text.
pub fn heuristic(pack: &Pack, content: &str) -> (r: Option<Hit>)
    ensures
        match r {
            Some(h) => heuristic_spec(pack.types@, content@) == Some((h.factory@, h.reason@)),
            None => heuristic_spec(pack.types@, content@) is None,
        },
{
    let low = to_ascii_lower(content);
    let l = low.as_str();
    let people = contains_str(content, "BEGIN:VCARD") || contains_str(l, "vcard") || (
    (contains_str(content, "電話") || contains_str(content, "手機") || contains_str(l, "phone")) && (
    contains_str(content, "信箱") || contains_str(l, "email") || contains_str(content, "@")) && (
    contains_str(content, "姓名") || contains_str(content, "聯絡") || contains_str(l, "name")));
    let k1 = vec!["公司簡介", "公司介紹", "統一編號", "資本額", "營業額", "成立於", "創辦人"];
    assert(strs_view(k1@) =~= company_keys());
    let k2 = vec!["company profile", "founded in", "headquarters", "revenue"];
    assert(strs_view(k2@) =~= company_keys_en());
    let companies = any_of(content, k1, Ghost(company_keys())) || any_of(l, k2, Ghost(company_keys_en()));
    let k3 = vec!["會議記錄", "會議逐字稿", "會議議程", "出席者", "出席人員", "議程"];
    assert(strs_view(k3@) =~= meeting_keys());
    let k4 = vec!["meeting minutes", "attendees", "agenda"];
    assert(strs_view(k4@) =~= meeting_keys_en());
    let meeting = any_of(content, k3, Ghost(meeting_keys())) || any_of(l, k4, Ghost(meeting_keys_en()));
    let k5 = vec!["專案", "專項", "里程碑", "交付項目", "工作包", "甘特圖"];
    assert(strs_view(k5@) =~= project_keys());
    let k6 = vec!["deliverable", "milestone", "sprint", "wbs", "gantt"];
    assert(strs_view(k6@) =~= project_keys_en());
    let projects = any_of(content, k5, Ghost(project_keys())) || any_of(l, k6, Ghost(project_keys_en()));
    assert(people == people_sig(content@));
    let n: u8 = (if people { 1u8 } else { 0 }) + (if companies { 1u8 } else { 0 }) + (if meeting {
        1u8
    } else {
        0
    }) + (if projects { 1u8 } else { 0 });
    if n != 1 {
        return None;
    }
    proof {
        reveal_strlit("people");
        reveal_strlit("company");
        reveal_strlit("meeting");
        reveal_strlit("projects");
    }
    let (kind, reason): (&str, &'static str) = if people {
        assert(kind_reason("people"@) == "偵測到聯絡人特徵"@);
        ("people", "偵測到聯絡人特徵")
    } else if companies {
        assert("company"@[0] != "people"@[0]);
        assert(kind_reason("company"@) == "偵測到公司/組織特徵"@);
        ("company", "偵測到公司/組織特徵")
    } else if meeting {
        assert("meeting"@[0] != "people"@[0]);
        assert("meeting"@[0] != "company"@[0]);
        assert(kind_reason("meeting"@) == "偵測到會議特徵"@);
        ("meeting", "偵測到會議特徵")
    } else {
        assert("projects"@[1] != "people"@[1]);
        assert("projects"@[0] != "company"@[0]);
        assert("projects"@[0] != "meeting"@[0]);
        assert(kind_reason("projects"@) == "偵測到專案特徵"@);
        ("projects", "偵測到專案特徵")
    };
    assert(kind@ == hit_kind(content@));
    assert(reason@ == kind_reason(kind@));
    match pack.id_of_kind(kind) {
        Some(id) => Some(Hit { factory: id, reason }),
        None => None,
    }
}

// ---------------------------------------------------------------------------
// Offline verdicts
// ---------------------------------------------------------------------------

/// Text files: empty or unreadable text gives the catch-all at `Low`; a keyword hit decides
/// (`High` with an LLM endpoint, else `Low` with a note); anything else goes to the LLM.
pub open spec fn text_verdict_spec(
    types: Seq<FactoryTypeSpec>,
    p: Seq<char>,
    content: Option<Seq<char>>,
    has_ep: bool,
) -> VerdictView {
    match content {
        Some(c) if trim_spec(c).len() > 0 => {
            let smp = sample_spec(c);
            match heuristic_spec(types, smp) {
                Some((f, why)) => VerdictView::Done(
                    cls(
                        p,
                        f,
                        if has_ep { Confidence::High } else { Confidence::Low },
                        if has_ep { why } else { why + "（執行需 LLM，未設 API key）"@ },
                        ClassifySource::Heuristic,
                    ),
                ),
                None => VerdictView::Llm(smp),
            }
        },
        _ => VerdictView::Done(
            cls(p, types.last().id@, Confidence::Low, "檔案為空或無法讀取文字"@, ClassifySource::Extension),
        ),
    }
}

pub open spec fn opt_string(o: Option<String>) -> Option<Seq<char>> {
    match o {
        Some(s) => Some(s@),
        None => None,
    }
}

pub fn text_verdict(pack: &Pack, p: &str, content: Option<String>, has_ep: bool) -> (r: Verdict)
    requires
        pack.types.len() > 0,
    ensures
        r@ == text_verdict_spec(pack.types@, p@, opt_string(content), has_ep),
{
    let ghost cv = opt_string(content);
    let c = match content {
        Some(c) => {
            let t = trim(c.as_str());
            if t.as_str().is_empty() {
                None
            } else {
                Some(c)
            }
        },
        None => None,
    };
    match c {
        None => {
            let f = mk(
                p,
                owned(pack.catchall_id()),
                Confidence::Low,
                owned("檔案為空或無法讀取文字"),
                ClassifySource::Extension,
            );
            Verdict::Done(f)
        },
        Some(c) => {
            let smp = sample(c.as_str());
            match heuristic(pack, smp.as_str()) {
                Some(hit) => {
                    let (confidence, reason) = if has_ep {
                        (Confidence::High, owned(hit.reason))
                    } else {
                        let mut why = owned(hit.reason);
                        push_str(&mut why, "（執行需 LLM，未設 API key）");
                        (Confidence::Low, why)
                    };
                    Verdict::Done(mk(p, owned(hit.factory), confidence, reason, ClassifySource::Heuristic))
                },
                None => Verdict::Llm(smp),
            }
        },
    }
}

pub open spec fn csv_contact_keys() -> Seq<Seq<char>> {
    seq!["phone"@, "e-mail"@, "email"@, "organization"@, "given name"@, "family name"@, "address"@]
}

/// A CSV is a contact list by its lower-cased first line: a name column and a contact column
/// give `High`, one of them `Medium`, neither `Low`; the factory is the pack's people type.
pub open spec fn csv_spec(types: Seq<FactoryTypeSpec>, p: Seq<char>, text: Option<Seq<char>>) -> ClsView {
    let header = match text {
        Some(t) => lower_seq(first_line_spec(t)),
        None => Seq::empty(),
    };
    let has_name = has_sub(header, "name"@);
    let contact = has_any(header, csv_contact_keys());
    let factory = match kind_id_spec(types, "people"@) {
        Some(id) => id,
        None => types.last().id@,
    };
    if has_name && contact {
        cls(p, factory, Confidence::High, "CSV 表頭為聯絡人格式（Google Contacts）"@, ClassifySource::Extension)
    } else if has_name || contact {
        cls(p, factory, Confidence::Medium, "CSV 表頭部分像聯絡人"@, ClassifySource::Extension)
    } else {
        cls(p, factory, Confidence::Low, "CSV 表頭不像聯絡人，預設 people（請確認）"@, ClassifySource::Extension)
    }
}

pub open spec fn opt_str(o: Option<&str>) -> Option<Seq<char>> {
    match o {
        Some(s) => Some(s@),
        None => None,
    }
}

pub fn classify_csv(pack: &Pack, p: &str, text: Option<&str>) -> (r: FileClassification)
    requires
        pack.types.len() > 0,
    ensures
        r@ == csv_spec(pack.types@, p@, opt_str(text)),
{
    let header = match text {
        Some(t) => {
            let l = first_line(t);
            to_ascii_lower(l.as_str())
        },
        None => String::new(),
    };
    let h = header.as_str();
    let has_name = contains_str(h, "name");
    let keys = vec!["phone", "e-mail", "email", "organization", "given name", "family name", "address"];
    assert(strs_view(keys@) =~= csv_contact_keys());
    let contact = contains_any(h, &keys);
    let factory = match pack.id_of_kind("people") {
        Some(id) => owned(id),
        None => owned(pack.catchall_id()),
    };
    if has_name && contact {
        mk(p, factory, Confidence::High, owned("CSV 表頭為聯絡人格式（Google Contacts）"), ClassifySource::Extension)
    } else if has_name || contact {
        mk(p, factory, Confidence::Medium, owned("CSV 表頭部分像聯絡人"), ClassifySource::Extension)
    } else {
        mk(p, factory, Confidence::Low, owned("CSV 表頭不像聯絡人，預設 people（請確認）"), ClassifySource::Extension)
    }
}

/// The fallback when the rules cannot decide and no LLM endpoint is set: the catch-all at `Low`.
pub fn no_llm_fallback(pack: &Pack, p: &str) -> (r: FileClassification)
    requires
        pack.types.len() > 0,
    ensures
        r@ == cls(
            p@,
            pack.catchall_spec(),
            Confidence::Low,
            "規則無法判斷，且未設 API key（無法用 LLM 判讀）"@,
            ClassifySource::Extension,
        ),
{
    mk(p, owned(pack.catchall_id()), Confidence::Low, owned("規則無法判斷，且未設 API key（無法用 LLM 判讀）"), ClassifySource::Extension)
}

/// How the caller obtains a file's text for `verdict`.
#[derive(Debug, Clone, Copy, PartialEq, Eq, Structural)]
pub enum Reader {
    /// Read the file as UTF-8 text (BOM removed).
    Text,
    /// Extract the text of a PDF.
    Pdf,
    /// No text is needed.
    Nothing,
}

pub open spec fn ext_key(ext: Option<Seq<char>>) -> Seq<char> {
    match ext {
        Some(e) => lower_seq(e),
        None => Seq::empty(),
    }
}

pub open spec fn reader_spec(ext: Option<Seq<char>>) -> Reader {
    let e = ext_key(ext);
    if e == "csv"@ || e == "txt"@ || e == "md"@ || e == "markdown"@ {
        Reader::Text
    } else if e == "pdf"@ {
        Reader::Pdf
    } else {
        Reader::Nothing
    }
}

fn lower_ext(ext: Option<&str>) -> (r: String)
    ensures
        r@ == ext_key(opt_str(ext)),
{
    match ext {
        Some(e) => to_ascii_lower(e),
        None => String::new(),
    }
}

/// Which text `verdict` needs for a file with this extension.
pub fn reader_for(ext: Option<&str>) -> (r: Reader)
    ensures
        r == reader_spec(opt_str(ext)),
{
    let e = lower_ext(ext);
    let s = e.as_str();
    if str_eq(s, "csv") || str_eq(s, "txt") || str_eq(s, "md") || str_eq(s, "markdown") {
        Reader::Text
    } else if str_eq(s, "pdf") {
        Reader::Pdf
    } else {
        Reader::Nothing
    }
}

/// The offline verdict for a file: by its lower-cased extension, a CSV by its header, a text or
/// PDF by the keyword rules, any other extension skipped (empty factory).
pub open spec fn verdict_spec(
    types: Seq<FactoryTypeSpec>,
    p: Seq<char>,
    ext: Option<Seq<char>>,
    content: Option<Seq<char>>,
    has_ep: bool,
) -> VerdictView {
    let e = ext_key(ext);
    if e == "csv"@ {
        VerdictView::Done(csv_spec(types, p, content))
    } else if e == "txt"@ || e == "md"@ || e == "markdown"@ || e == "pdf"@ {
        text_verdict_spec(types, p, content, has_ep)
    } else {
        VerdictView::Done(
            cls(p, Seq::empty(), Confidence::Low, "不支援的副檔名："@ + e, ClassifySource::Extension),
        )
    }
}

/// `content` is the file's text as `reader_for` asks (`None` when unreadable).
pub fn verdict(pack: &Pack, p: &str, ext: Option<&str>, content: Option<String>, has_ep: bool) -> (r: Verdict)
    requires
        pack.types.len() > 0,
    ensures
        r@ == verdict_spec(pack.types@, p@, opt_str(ext), opt_string(content), has_ep),
{
    let e = lower_ext(ext);
    let s = e.as_str();
    if str_eq(s, "csv") {
        let f = match &content {
            Some(t) => classify_csv(pack, p, Some(t.as_str())),
            None => classify_csv(pack, p, None),
        };
        Verdict::Done(f)
    } else if str_eq(s, "txt") || str_eq(s, "md") || str_eq(s, "markdown") || str_eq(s, "pdf") {
        text_verdict(pack, p, content, has_ep)
    } else {
        let mut why = owned("不支援的副檔名：");
        push_str(&mut why, s);
        Verdict::Done(mk(p, String::new(), Confidence::Low, why, ClassifySource::Extension))
    }
}

// ---------------------------------------------------------------------------
// The LLM tier
// ---------------------------------------------------------------------------

/// The LLM's answer, parsed.
#[derive(Debug, Clone)]
pub struct LlmVerdict {
    pub factory: String,
    pub confidence: String,
    pub reason: String,
}

/// What came back from the LLM call.
#[derive(Debug, Clone)]
pub enum LlmOutcome {
    /// The reply parsed as the expected JSON object.
    Parsed(LlmVerdict),
    /// The reply, which did not parse.
    Unparsable(String),
    /// The call failed, with its error message.
    Failed(String),
}

pub open spec fn system_prompt_spec(types: Seq<FactoryTypeSpec>) -> Seq<char> {
    "你是檔案分類器。判斷這份文件最適合歸入哪個知識庫分類：\n"@ + join_spec(prompt_lines_of(types), "\n"@)
        + "\n只回傳一個 JSON 物件：{\"factory\":\""@ + join_spec(
        types.map_values(|t: FactoryTypeSpec| t.id@),
        "|"@,
    ) + "\",\"confidence\":\"high|low\",\"reason\":\"一句話理由\"}。\n規則：非常有把握才回 confidence=high，否則給 low。不要任何說明文字。"@
}

pub open spec fn user_prompt_spec(content: Seq<char>) -> Seq<char> {
    "文件內容：\n"@ + content + "\n\n請只回傳 JSON 物件。"@
}

/// The system and user prompts of the LLM tier.
pub fn classify_prompt(pack: &Pack, content: &str) -> (r: (String, String))
    ensures
        r.0@ == system_prompt_spec(pack.types@),
        r.1@ == user_prompt_spec(content@),
{
    let mut ids: Vec<String> = Vec::new();
    let mut i: usize = 0;
    while i < pack.types.len()
        invariant
            i <= pack.types.len(),
            views_of(ids@) == pack.types@.take(i as int).map_values(|t: FactoryTypeSpec| t.id@),
        decreases pack.types.len() - i,
    {
        let ghost before = ids@;
        ids.push(owned(pack.types[i].id));
        assert(views_of(ids@) =~= views_of(before).push(pack.types@[i as int].id@));
        assert(pack.types@.take(i as int + 1) =~= pack.types@.take(i as int).push(pack.types@[i as int]));
        assert(pack.types@.take(i as int + 1).map_values(|t: FactoryTypeSpec| t.id@) =~= pack.types@.take(
            i as int,
        ).map_values(|t: FactoryTypeSpec| t.id@).push(pack.types@[i as int].id@));
        i += 1;
    }
    assert(pack.types@.take(pack.types.len() as int) =~= pack.types@);
    let mut system = owned("你是檔案分類器。判斷這份文件最適合歸入哪個知識庫分類：\n");
    let lines = pack.prompt_lines();
    push_str(&mut system, lines.as_str());
    push_str(&mut system, "\n只回傳一個 JSON 物件：{\"factory\":\"");
    let idj = join(&ids, "|");
    push_str(&mut system, idj.as_str());
    push_str(
        &mut system,
        "\",\"confidence\":\"high|low\",\"reason\":\"一句話理由\"}。\n規則：非常有把握才回 confidence=high，否則給 low。不要任何說明文字。",
    );
    assert(system@ =~= system_prompt_spec(pack.types@));
    let mut user = owned("文件內容：\n");
    push_str(&mut user, content);
    push_str(&mut user, "\n\n請只回傳 JSON 物件。");
    assert(user@ =~= user_prompt_spec(content@));
    (system, user)
}

pub open spec fn llm_cls_spec(types: Seq<FactoryTypeSpec>, p: Seq<char>, outcome: LlmOutcome) -> ClsView {
    let catchall = types.last().id@;
    match outcome {
        LlmOutcome::Parsed(v) => cls(
            p,
            normalize_spec(types, norm_key(v.factory@)),
            if lower_seq(v.confidence@) == "high"@ { Confidence::High } else { Confidence::Low },
            if trim_spec(v.reason@).len() == 0 { "LLM 判斷（未附理由）"@ } else { v.reason@ },
            ClassifySource::Llm,
        ),
        LlmOutcome::Unparsable(resp) => cls(
            p,
            catchall,
            Confidence::Low,
            "LLM 回應無法解析，預設 "@ + catchall + "："@ + cap_spec(resp@, 80),
            ClassifySource::Llm,
        ),
        LlmOutcome::Failed(e) => cls(
            p,
            catchall,
            Confidence::Low,
            "LLM 分類失敗，預設 "@ + catchall + "："@ + e@,
            ClassifySource::Llm,
        ),
    }
}

/// The classification from the LLM tier's outcome: a parsed answer is normalised to a factory id
/// and is `High` only when it says so; a reply that does not parse, or a failed call, gives the
/// catch-all at `Low`.
pub fn llm_classification(pack: &Pack, p: &str, outcome: LlmOutcome) -> (r: FileClassification)
    requires
        pack.types.len() > 0,
    ensures
        r@ == llm_cls_spec(pack.types@, p@, outcome),
{
    match outcome {
        LlmOutcome::Parsed(v) => {
            let factory = owned(pack.normalize(v.factory.as_str()));
            let c = to_ascii_lower(v.confidence.as_str());
            let confidence = if str_eq(c.as_str(), "high") {
                Confidence::High
            } else {
                Confidence::Low
            };
            let t = trim(v.reason.as_str());
            let reason = if t.as_str().is_empty() {
                owned("LLM 判斷（未附理由）")
            } else {
                v.reason
            };
            mk(p, factory, confidence, reason, ClassifySource::Llm)
        },
        LlmOutcome::Unparsable(resp) => {
            let mut why = owned("LLM 回應無法解析，預設 ");
            push_str(&mut why, pack.catchall_id());
            push_str(&mut why, "：");
            let c = cap(resp.as_str(), 80);
            push_str(&mut why, c.as_str());
            assert(why@ =~= "LLM 回應無法解析，預設 "@ + pack.catchall_spec() + "："@ + cap_spec(resp@, 80));
            mk(p, owned(pack.catchall_id()), Confidence::Low, why, ClassifySource::Llm)
        },
        LlmOutcome::Failed(e) => {
            let mut why = owned("LLM 分類失敗，預設 ");
            push_str(&mut why, pack.catchall_id());
            push_str(&mut why, "：");
            push_str(&mut why, e.as_str());
            assert(why@ =~= "LLM 分類失敗，預設 "@ + pack.catchall_spec() + "："@ + e@);
            mk(p, owned(pack.catchall_id()), Confidence::Low, why, ClassifySource::Llm)
        },
    }
}

} // verus!
