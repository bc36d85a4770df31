//! The factory types of a schema pack: for each factory id, the notes directory, the page type,
//! the conversion pipeline and the synonyms by which a classifier answer is mapped back to it.
//!
//! Two packs are known: `gbrain-base-v2` (fifteen types, the default) and the legacy
//! `gbrain-base` (six types with plural directories). An unknown pack name falls back to v2.
use vstd::prelude::*;
use crate::l10n::{AppError, L10n};
use crate::text::{strs_view, contains_str, has_sub, join, join_spec, lower_seq, owned, push_str, str_eq, to_ascii_lower, trim, trim_spec, views_of};

verus! {

/// The conversion pipeline of a factory type.
#[derive(Debug, Clone, Copy, PartialEq, Eq, Structural)]
pub enum Pipeline {
    /// CSV parsed offline, text files structured by the LLM.
    People,
    /// txt/md/pdf structured by the LLM.
    Textual,
    /// `gbrain capture`, nothing written to the notes repository.
    Capture,
}

pub open spec fn extensions_spec(p: Pipeline) -> Seq<Seq<char>> {
    match p {
        Pipeline::People => seq!["csv"@, "txt"@, "md"@],
        Pipeline::Textual => seq!["txt"@, "md"@, "pdf"@],
        Pipeline::Capture => seq!["txt"@, "md"@],
    }
}

impl Pipeline {
    /// The file extensions that the pipeline accepts.
    pub fn extensions(&self) -> (r: Vec<&'static str>)
        ensures
            strs_view(r@) == extensions_spec(*self),
    {
        let r = match self {
            Pipeline::People => vec!["csv", "txt", "md"],
            Pipeline::Textual => vec!["txt", "md", "pdf"],
            Pipeline::Capture => vec!["txt", "md"],
        };
        assert(strs_view(r@) =~= extensions_spec(*self));
        r
    }
}

/// One factory type of a pack.
#[derive(Debug, Clone)]
pub struct FactoryTypeSpec {
    /// The factory id used by the classifier and the front end.
    pub id: &'static str,
    /// The notes directory written to.
    pub dir: &'static str,
    /// The default frontmatter `type`.
    pub page_type: &'static str,
    /// The default frontmatter `tags`.
    pub default_tags: Vec<&'static str>,
    pub pipeline: Pipeline,
    /// Lower-case synonyms by which a classifier answer maps to this id.
    pub synonyms: Vec<&'static str>,
    /// The canonical kind of the heuristic classifier that maps here (empty for none).
    pub heuristic_kind: &'static str,
    /// Short description for the LLM prompt.
    pub zh: &'static str,
}

impl FactoryTypeSpec {
    /// Whether the type uses the capture pipeline (nothing written to the notes repository).
    pub fn is_capture(&self) -> (r: bool)
        ensures
            r == (self.pipeline == Pipeline::Capture),
    {
        self.pipeline == Pipeline::Capture
    }
}

/// `low` is this type's id or one of its synonyms.
pub open spec fn names_type(t: FactoryTypeSpec, low: Seq<char>) -> bool {
    t.id@ == low || exists|k: int| 0 <= k < t.synonyms@.len() && (#[trigger] t.synonyms@[k])@ == low
}

/// `i` is the first type that `key` names.
pub open spec fn first_named(types: Seq<FactoryTypeSpec>, key: Seq<char>, i: int) -> bool {
    &&& 0 <= i < types.len()
    &&& names_type(types[i], key)
    &&& forall|j: int| 0 <= j < i ==> !names_type(types[j], key)
}

/// The id that a normalised classifier answer maps to: the first type that it names, or the
/// catch-all (last) type.
pub open spec fn normalize_spec(types: Seq<FactoryTypeSpec>, key: Seq<char>) -> Seq<char> {
    if exists|i: int| first_named(types, key, i) {
        types[choose|i: int| first_named(types, key, i)].id@
    } else {
        types.last().id@
    }
}

pub proof fn lemma_first_named_unique(types: Seq<FactoryTypeSpec>, key: Seq<char>, i: int)
    requires
        first_named(types, key, i),
    ensures
        normalize_spec(types, key) == types[i].id@,
{
    let c = choose|c: int| first_named(types, key, c);
    assert(first_named(types, key, c));
    if c < i {
        assert(!names_type(types[c], key));
    } else if i < c {
        assert(!names_type(types[i], key));
    }
}

/// A classifier answer as `Pack::normalize` compares it: trimmed and ASCII-lowered.
pub open spec fn norm_key(s: Seq<char>) -> Seq<char> {
    lower_seq(trim_spec(s))
}

/// `i` is the first type whose heuristic kind is `kind`.
pub open spec fn first_kind(types: Seq<FactoryTypeSpec>, kind: Seq<char>, i: int) -> bool {
    &&& 0 <= i < types.len()
    &&& types[i].heuristic_kind@ == kind
    &&& forall|j: int| 0 <= j < i ==> types[j].heuristic_kind@ != kind
}

/// The kinds that the heuristic classifier answers (an empty kind marks a type without a rule).
pub open spec fn canonical_kind(kind: Seq<char>) -> bool {
    kind == "people"@ || kind == "company"@ || kind == "meeting"@ || kind == "projects"@
}

/// The id of the first type whose heuristic kind is `kind`, for a canonical kind; none for any
/// other kind.
pub open spec fn kind_id_spec(types: Seq<FactoryTypeSpec>, kind: Seq<char>) -> Option<Seq<char>> {
    if canonical_kind(kind) && exists|i: int| first_kind(types, kind, i) {
        Some(types[choose|i: int| first_kind(types, kind, i)].id@)
    } else {
        None
    }
}

pub proof fn lemma_first_kind_unique(types: Seq<FactoryTypeSpec>, kind: Seq<char>, i: int)
    requires
        canonical_kind(kind),
        first_kind(types, kind, i),
    ensures
        kind_id_spec(types, kind) == Some(types[i].id@),
{
    let c = choose|c: int| first_kind(types, kind, c);
    assert(first_kind(types, kind, c));
    if c < i {
        assert(types[c].heuristic_kind@ != kind);
    } else if i < c {
        assert(types[i].heuristic_kind@ != kind);
    }
}

/// One line of the classification prompt: `- id：description`.
pub open spec fn prompt_line(t: FactoryTypeSpec) -> Seq<char> {
    "- "@ + t.id@ + "："@ + t.zh@
}

/// The prompt lines of a type list, in order.
pub open spec fn prompt_lines_of(types: Seq<FactoryTypeSpec>) -> Seq<Seq<char>> {
    types.map_values(|t: FactoryTypeSpec| prompt_line(t))
}

/// The type list of a schema pack; the last type is the capture (catch-all) type.
#[derive(Debug, Clone)]
pub struct Pack {
    pub name: &'static str,
    pub types: Vec<FactoryTypeSpec>,
}

impl Pack {
    pub open spec fn ids(self) -> Seq<Seq<char>> {
        self.types@.map_values(|t: FactoryTypeSpec| t.id@)
    }

    pub open spec fn dirs(self) -> Seq<Seq<char>> {
        self.types@.map_values(|t: FactoryTypeSpec| t.dir@)
    }

    pub open spec fn pipelines(self) -> Seq<Pipeline> {
        self.types@.map_values(|t: FactoryTypeSpec| t.pipeline)
    }

    pub open spec fn catchall_spec(self) -> Seq<char> {
        self.types@.last().id@
    }

    /// The type with this id; an unknown id is the error `factory.unknown`.
    pub fn spec(&self, id: &str) -> (r: Result<&FactoryTypeSpec, AppError>)
        ensures
            match r {
                Ok(t) => exists|i: int|
                    0 <= i < self.types@.len() && self.types@[i].id@ == id@ && *t == self.types@[i]
                        && forall|j: int| 0 <= j < i ==> self.types@[j].id@ != id@,
                Err(e) => (forall|i: int| 0 <= i < self.types@.len() ==> self.types@[i].id@ != id@)
                    && e@ == ("factory.unknown"@, seq![("factory"@, id@)]),
            },
    {
        let mut i: usize = 0;
        while i < self.types.len()
            invariant
                i <= self.types.len(),
                forall|j: int| 0 <= j < i ==> self.types@[j].id@ != id@,
            decreases self.types.len() - i,
        {
            if str_eq(self.types[i].id, id) {
                return Ok(&self.types[i]);
            }
            i += 1;
        }
        let e = AppError::new("factory.unknown").p("factory", id);
        assert(e@.1 =~= seq![("factory"@, id@)]);
        Err(e)
    }

    /// Maps a classifier answer to a factory id: trimmed and ASCII-lowered, the first type whose
    /// id or a synonym equals it; otherwise the catch-all id.
    pub fn normalize(&self, s: &str) -> (r: &'static str)
        requires
            self.types.len() > 0,
        ensures
            r@ == normalize_spec(self.types@, norm_key(s@)),
    {
        let t = trim(s);
        let low = to_ascii_lower(t.as_str());
        let ghost key = norm_key(s@);
        assert(low@ == key);
        let mut i: usize = 0;
        while i < self.types.len()
            invariant
                i <= self.types.len(),
                low@ == key,
                key == norm_key(s@),
                forall|j: int| 0 <= j < i ==> !names_type(self.types@[j], key),
            decreases self.types.len() - i,
        {
            let t = &self.types[i];
            if str_eq(t.id, low.as_str()) {
                proof { lemma_first_named_unique(self.types@, key, i as int); }
                return t.id;
            }
            let mut k: usize = 0;
            while k < t.synonyms.len()
                invariant
                    i < self.types@.len(),
                    *t == self.types@[i as int],
                    forall|j: int| 0 <= j < i ==> !names_type(self.types@[j], key),
                    k <= t.synonyms.len(),
                    t.id@ != key,
                    low@ == key,
                    key == norm_key(s@),
                    forall|m: int| 0 <= m < k ==> (#[trigger] t.synonyms@[m])@ != key,
                decreases t.synonyms.len() - k,
            {
                if str_eq(t.synonyms[k], low.as_str()) {
                    assert(t.synonyms@[k as int]@ == key);
                    assert(first_named(self.types@, key, i as int));
                    proof { lemma_first_named_unique(self.types@, key, i as int); }
                    return t.id;
                }
                k += 1;
            }
            assert(!names_type(*t, key));
            i += 1;
        }
        self.catchall_id()
    }

    /// The catch-all (capture) id: the last type of the pack.
    pub fn catchall_id(&self) -> (r: &'static str)
        requires
            self.types.len() > 0,
        ensures
            r@ == self.catchall_spec(),
    {
        self.types[self.types.len() - 1].id
    }

    /// The id of the first type whose heuristic kind is `kind`, for a canonical kind (`people`,
    /// `company`, `meeting`, `projects`); none for any other kind.
    pub fn id_of_kind(&self, kind: &str) -> (r: Option<&'static str>)
        ensures
            opt_view(r) == kind_id_spec(self.types@, kind@),
    {
        if !(str_eq(kind, "people") || str_eq(kind, "company") || str_eq(kind, "meeting") || str_eq(kind, "projects")) {
            return None;
        }
        let mut i: usize = 0;
        while i < self.types.len()
            invariant
                i <= self.types.len(),
                canonical_kind(kind@),
                forall|j: int| 0 <= j < i ==> self.types@[j].heuristic_kind@ != kind@,
            decreases self.types.len() - i,
        {
            if str_eq(self.types[i].heuristic_kind, kind) {
                proof { lemma_first_kind_unique(self.types@, kind@, i as int); }
                return Some(self.types[i].id);
            }
            i += 1;
        }
        None
    }

    /// The type list of the classification prompt: one `- id：description` line per type.
    pub fn prompt_lines(&self) -> (r: String)
        ensures
            r@ == join_spec(prompt_lines_of(self.types@), "\n"@),
    {
        let mut lines: Vec<String> = Vec::new();
        let mut i: usize = 0;
        while i < self.types.len()
            invariant
                i <= self.types.len(),
                views_of(lines@) == prompt_lines_of(self.types@.take(i as int)),
            decreases self.types.len() - i,
        {
            let t = &self.types[i];
            let mut line = String::new();
            push_str(&mut line, "- ");
            push_str(&mut line, t.id);
            push_str(&mut line, "：");
            push_str(&mut line, t.zh);
            assert(line@ =~= prompt_line(*t));
            let ghost before = lines@;
            lines.push(line);
            assert(views_of(lines@) =~= views_of(before).push(line@));
            assert(prompt_lines_of(self.types@.take(i as int + 1)) =~= prompt_lines_of(self.types@.take(i as int)).push(prompt_line(self.types@[i as int])));
            assert(self.types@.take(i as int + 1) =~= self.types@.take(i as int).push(self.types@[i as int]));
            assert(views_of(lines@) =~= prompt_lines_of(self.types@.take(i as int + 1)));
            i += 1;
        }
        assert(self.types@.take(self.types.len() as int) =~= self.types@);
        join(&lines, "\n")
    }
}

/// Builds one factory type.
fn spec(
    id: &'static str,
    dir: &'static str,
    page_type: &'static str,
    default_tags: Vec<&'static str>,
    pipeline: Pipeline,
    synonyms: Vec<&'static str>,
    heuristic_kind: &'static str,
    zh: &'static str,
) -> (r: FactoryTypeSpec)
    ensures
        r.id == id && r.dir == dir && r.page_type == page_type && r.default_tags == default_tags
            && r.pipeline == pipeline && r.synonyms == synonyms && r.heuristic_kind
            == heuristic_kind && r.zh == zh,
{
    FactoryTypeSpec { id, dir, page_type, default_tags, pipeline, synonyms, heuristic_kind, zh }
}

/// Every field of a factory type, by its view.
pub open spec fn type_is(
    t: FactoryTypeSpec,
    id: Seq<char>,
    dir: Seq<char>,
    page_type: Seq<char>,
    default_tags: Seq<Seq<char>>,
    pipeline: Pipeline,
    synonyms: Seq<Seq<char>>,
    heuristic_kind: Seq<char>,
    zh: Seq<char>,
) -> bool {
    &&& t.id@ == id
    &&& t.dir@ == dir
    &&& t.page_type@ == page_type
    &&& strs_view(t.default_tags@) == default_tags
    &&& t.pipeline == pipeline
    &&& strs_view(t.synonyms@) == synonyms
    &&& t.heuristic_kind@ == heuristic_kind
    &&& t.zh@ == zh
}

/// The whole table of `gbrain-base-v2`, type by type.
pub open spec fn v2_table(types: Seq<FactoryTypeSpec>) -> bool {
    &&& types.len() == 15
    &&& type_is(
        types[0],
        "person"@,
        "person"@,
        "person"@,
        seq!["person"@, "contact"@],
        Pipeline::People,
        seq!["people"@, "person"@, "contact"@, "聯絡人"@, "联络人"@, "人物"@],
        "people"@,
        "聯絡人/通訊錄/名片/個人資料"@,
    )
    &&& type_is(
        types[1],
        "company"@,
        "company"@,
        "company"@,
        seq!["company"@, "contact"@],
        Pipeline::Textual,
        seq!["companies"@, "company"@, "公司"@],
        "company"@,
        "公司或組織的介紹/背景"@,
    )
    &&& type_is(
        types[2],
        "media"@,
        "media"@,
        "media"@,
        seq!["media"@],
        Pipeline::Textual,
        seq!["media"@, "媒體"@, "媒体"@],
        ""@,
        "媒體報導/報導文章/新聞剪報"@,
    )
    &&& type_is(
        types[3],
        "tweet"@,
        "tweet"@,
        "tweet"@,
        seq!["tweet"@],
        Pipeline::Textual,
        seq!["tweet"@, "tweets"@, "推文"@],
        ""@,
        "單則推文/X 貼文"@,
    )
    &&& type_is(
        types[4],
        "social-digest"@,
        "social-digest"@,
        "social-digest"@,
        seq!["social-digest"@],
        Pipeline::Textual,
        seq!["social-digest"@, "social_digest"@, "socialdigest"@, "社群摘要"@],
        ""@,
        "社群動態摘要（多則貼文彙整）"@,
    )
    &&& type_is(
        types[5],
        "analysis"@,
        "analysis"@,
        "analysis"@,
        seq!["analysis"@],
        Pipeline::Textual,
        seq!["analysis"@, "分析"@],
        ""@,
        "分析報告/研究筆記"@,
    )
    &&& type_is(
        types[6],
        "atom"@,
        "atom"@,
        "atom"@,
        seq!["atom"@],
        Pipeline::Textual,
        seq!["atom"@, "atoms"@, "知識原子"@],
        ""@,
        "知識原子（最小可引用單位）"@,
    )
    &&& type_is(
        types[7],
        "concept"@,
        "concept"@,
        "concept"@,
        seq!["concept"@],
        Pipeline::Textual,
        seq!["concepts"@, "concept"@, "概念"@, "主題"@, "主题"@],
        ""@,
        "主題/概念/知識wiki（技術原理、名詞解釋、主題整理）"@,
    )
    &&& type_is(
        types[8],
        "source"@,
        "source"@,
        "source"@,
        seq!["source"@],
        Pipeline::Textual,
        seq!["source"@, "sources"@, "來源"@, "来源"@],
        ""@,
        "資料來源/出處說明"@,
    )
    &&& type_is(
        types[9],
        "deal"@,
        "deal"@,
        "deal"@,
        seq!["deal"@],
        Pipeline::Textual,
        seq!["deal"@, "deals"@, "交易"@, "商機"@],
        ""@,
        "交易/商機/合作案"@,
    )
    &&& type_is(
        types[10],
        "email"@,
        "email"@,
        "email"@,
        seq!["email"@],
        Pipeline::Textual,
        seq!["email"@, "emails"@, "郵件"@, "邮件"@],
        ""@,
        "電子郵件內容"@,
    )
    &&& type_is(
        types[11],
        "slack"@,
        "slack"@,
        "slack"@,
        seq!["slack"@],
        Pipeline::Textual,
        seq!["slack"@],
        ""@,
        "Slack 對話/頻道訊息"@,
    )
    &&& type_is(
        types[12],
        "writing"@,
        "writing"@,
        "writing"@,
        seq!["writing"@],
        Pipeline::Textual,
        seq!["writing"@, "寫作"@, "写作"@],
        ""@,
        "寫作草稿/文章"@,
    )
    &&& type_is(
        types[13],
        "project"@,
        "project"@,
        "project"@,
        seq!["project"@],
        Pipeline::Textual,
        seq!["projects"@, "project"@, "專案"@, "项目"@],
        "projects"@,
        "專案/計畫（有里程碑、交付項目、時程、工作包）"@,
    )
    &&& type_is(
        types[14],
        "note"@,
        "note"@,
        "note"@,
        seq!["note"@],
        Pipeline::Capture,
        seq!["note"@, "notes"@, "inbox"@, "筆記"@, "笔记"@],
        ""@,
        "其他一般筆記"@,
    )
}

/// The whole table of `gbrain-base`, type by type.
pub open spec fn legacy_table(types: Seq<FactoryTypeSpec>) -> bool {
    &&& types.len() == 6
    &&& type_is(
        types[0],
        "people"@,
        "people"@,
        "person"@,
        seq!["people"@, "contact"@],
        Pipeline::People,
        seq!["people"@, "person"@, "contact"@, "聯絡人"@, "联络人"@],
        "people"@,
        "聯絡人/通訊錄/名片/個人資料"@,
    )
    &&& type_is(
        types[1],
        "companies"@,
        "companies"@,
        "company"@,
        seq!["companies"@, "contact"@],
        Pipeline::Textual,
        seq!["companies"@, "company"@, "公司"@],
        "company"@,
        "公司或組織的介紹/背景"@,
    )
    &&& type_is(
        types[2],
        "meeting"@,
        "meetings"@,
        "meeting"@,
        seq!["meeting"@],
        Pipeline::Textual,
        seq!["meeting"@, "meetings"@, "會議"@, "会议"@],
        "meeting"@,
        "會議記錄/逐字稿/議程/開會筆記"@,
    )
    &&& type_is(
        types[3],
        "concepts"@,
        "concepts"@,
        "concept"@,
        seq!["concept"@],
        Pipeline::Textual,
        seq!["concepts"@, "concept"@, "概念"@, "主題"@, "主题"@],
        ""@,
        "主題/概念/知識wiki"@,
    )
    &&& type_is(
        types[4],
        "projects"@,
        "projects"@,
        "project"@,
        seq!["project"@],
        Pipeline::Textual,
        seq!["projects"@, "project"@, "專案"@, "项目"@],
        "projects"@,
        "專案/計畫"@,
    )
    &&& type_is(
        types[5],
        "inbox"@,
        "inbox"@,
        "note"@,
        seq!["note"@],
        Pipeline::Capture,
        seq!["note"@, "notes"@, "inbox"@, "筆記"@, "笔记"@],
        ""@,
        "其他一般筆記"@,
    )
}

pub open spec fn v2_ids() -> Seq<Seq<char>> {
    seq!["person"@, "company"@, "media"@, "tweet"@, "social-digest"@, "analysis"@, "atom"@, "concept"@, "source"@, "deal"@, "email"@, "slack"@, "writing"@, "project"@, "note"@]
}

pub open spec fn v2_dirs() -> Seq<Seq<char>> {
    seq!["person"@, "company"@, "media"@, "tweet"@, "social-digest"@, "analysis"@, "atom"@, "concept"@, "source"@, "deal"@, "email"@, "slack"@, "writing"@, "project"@, "note"@]
}

pub open spec fn legacy_ids() -> Seq<Seq<char>> {
    seq!["people"@, "companies"@, "meeting"@, "concepts"@, "projects"@, "inbox"@]
}

pub open spec fn legacy_dirs() -> Seq<Seq<char>> {
    seq!["people"@, "companies"@, "meetings"@, "concepts"@, "projects"@, "inbox"@]
}

/// `gbrain-base-v2`: fifteen types, directory named as the type; `note` is the catch-all.
pub fn v2_pack() -> (r: Pack)
    ensures
        r.name@ == "gbrain-base-v2"@,
        v2_table(r.types@),
        r.ids() == v2_ids(),
        r.dirs() == v2_dirs(),
        r.types@.len() == 15,
        r.pipelines() == Seq::new(14, |i: int| Pipeline::Textual).update(0, Pipeline::People).push(
            Pipeline::Capture,
        ),
{
    let mut types: Vec<FactoryTypeSpec> = Vec::new();
    let t0 = spec("person", "person", "person", vec!["person", "contact"], Pipeline::People, vec!["people", "person", "contact", "聯絡人", "联络人", "人物"], "people", "聯絡人/通訊錄/名片/個人資料");
    assert(strs_view(t0.default_tags@) =~= seq!["person"@, "contact"@]);
    assert(strs_view(t0.synonyms@) =~= seq!["people"@, "person"@, "contact"@, "聯絡人"@, "联络人"@, "人物"@]);
    types.push(t0);
    let t1 = spec("company", "company", "company", vec!["company", "contact"], Pipeline::Textual, vec!["companies", "company", "公司"], "company", "公司或組織的介紹/背景");
    assert(strs_view(t1.default_tags@) =~= seq!["company"@, "contact"@]);
    assert(strs_view(t1.synonyms@) =~= seq!["companies"@, "company"@, "公司"@]);
    types.push(t1);
    let t2 = spec("media", "media", "media", vec!["media"], Pipeline::Textual, vec!["media", "媒體", "媒体"], "", "媒體報導/報導文章/新聞剪報");
    assert(strs_view(t2.default_tags@) =~= seq!["media"@]);
    assert(strs_view(t2.synonyms@) =~= seq!["media"@, "媒體"@, "媒体"@]);
    types.push(t2);
    let t3 = spec("tweet", "tweet", "tweet", vec!["tweet"], Pipeline::Textual, vec!["tweet", "tweets", "推文"], "", "單則推文/X 貼文");
    assert(strs_view(t3.default_tags@) =~= seq!["tweet"@]);
    assert(strs_view(t3.synonyms@) =~= seq!["tweet"@, "tweets"@, "推文"@]);
    types.push(t3);
    let t4 = spec("social-digest", "social-digest", "social-digest", vec!["social-digest"], Pipeline::Textual, vec!["social-digest", "social_digest", "socialdigest", "社群摘要"], "", "社群動態摘要（多則貼文彙整）");
    assert(strs_view(t4.default_tags@) =~= seq!["social-digest"@]);
    assert(strs_view(t4.synonyms@) =~= seq!["social-digest"@, "social_digest"@, "socialdigest"@, "社群摘要"@]);
    types.push(t4);
    let t5 = spec("analysis", "analysis", "analysis", vec!["analysis"], Pipeline::Textual, vec!["analysis", "分析"], "", "分析報告/研究筆記");
    assert(strs_view(t5.default_tags@) =~= seq!["analysis"@]);
    assert(strs_view(t5.synonyms@) =~= seq!["analysis"@, "分析"@]);
    types.push(t5);
    let t6 = spec("atom", "atom", "atom", vec!["atom"], Pipeline::Textual, vec!["atom", "atoms", "知識原子"], "", "知識原子（最小可引用單位）");
    assert(strs_view(t6.default_tags@) =~= seq!["atom"@]);
    assert(strs_view(t6.synonyms@) =~= seq!["atom"@, "atoms"@, "知識原子"@]);
    types.push(t6);
    let t7 = spec("concept", "concept", "concept", vec!["concept"], Pipeline::Textual, vec!["concepts", "concept", "概念", "主題", "主题"], "", "主題/概念/知識wiki（技術原理、名詞解釋、主題整理）");
    assert(strs_view(t7.default_tags@) =~= seq!["concept"@]);
    assert(strs_view(t7.synonyms@) =~= seq!["concepts"@, "concept"@, "概念"@, "主題"@, "主题"@]);
    types.push(t7);
    let t8 = spec("source", "source", "source", vec!["source"], Pipeline::Textual, vec!["source", "sources", "來源", "来源"], "", "資料來源/出處說明");
    assert(strs_view(t8.default_tags@) =~= seq!["source"@]);
    assert(strs_view(t8.synonyms@) =~= seq!["source"@, "sources"@, "來源"@, "来源"@]);
    types.push(t8);
    let t9 = spec("deal", "deal", "deal", vec!["deal"], Pipeline::Textual, vec!["deal", "deals", "交易", "商機"], "", "交易/商機/合作案");
    assert(strs_view(t9.default_tags@) =~= seq!["deal"@]);
    assert(strs_view(t9.synonyms@) =~= seq!["deal"@, "deals"@, "交易"@, "商機"@]);
    types.push(t9);
    let t10 = spec("email", "email", "email", vec!["email"], Pipeline::Textual, vec!["email", "emails", "郵件", "邮件"], "", "電子郵件內容");
    assert(strs_view(t10.default_tags@) =~= seq!["email"@]);
    assert(strs_view(t10.synonyms@) =~= seq!["email"@, "emails"@, "郵件"@, "邮件"@]);
    types.push(t10);
    let t11 = spec("slack", "slack", "slack", vec!["slack"], Pipeline::Textual, vec!["slack"], "", "Slack 對話/頻道訊息");
    assert(strs_view(t11.default_tags@) =~= seq!["slack"@]);
    assert(strs_view(t11.synonyms@) =~= seq!["slack"@]);
    types.push(t11);
    let t12 = spec("writing", "writing", "writing", vec!["writing"], Pipeline::Textual, vec!["writing", "寫作", "写作"], "", "寫作草稿/文章");
    assert(strs_view(t12.default_tags@) =~= seq!["writing"@]);
    assert(strs_view(t12.synonyms@) =~= seq!["writing"@, "寫作"@, "写作"@]);
    types.push(t12);
    let t13 = spec("project", "project", "project", vec!["project"], Pipeline::Textual, vec!["projects", "project", "專案", "项目"], "projects", "專案/計畫（有里程碑、交付項目、時程、工作包）");
    assert(strs_view(t13.default_tags@) =~= seq!["project"@]);
    assert(strs_view(t13.synonyms@) =~= seq!["projects"@, "project"@, "專案"@, "项目"@]);
    types.push(t13);
    let t14 = spec("note", "note", "note", vec!["note"], Pipeline::Capture, vec!["note", "notes", "inbox", "筆記", "笔记"], "", "其他一般筆記");
    assert(strs_view(t14.default_tags@) =~= seq!["note"@]);
    assert(strs_view(t14.synonyms@) =~= seq!["note"@, "notes"@, "inbox"@, "筆記"@, "笔记"@]);
    types.push(t14);
    let r = Pack { name: "gbrain-base-v2", types };
    assert(r.ids() =~= v2_ids());
    assert(r.dirs() =~= v2_dirs());
    assert(r.pipelines() =~= Seq::new(14, |i: int| Pipeline::Textual).update(0, Pipeline::People).push(
        Pipeline::Capture,
    ));
    r
}

/// `gbrain-base` (legacy): six types with plural directories; `inbox` is the catch-all.
pub fn legacy_pack() -> (r: Pack)
    ensures
        r.name@ == "gbrain-base"@,
        legacy_table(r.types@),
        r.ids() == legacy_ids(),
        r.dirs() == legacy_dirs(),
        r.types@.len() == 6,
        r.pipelines() == seq![
            Pipeline::People,
            Pipeline::Textual,
            Pipeline::Textual,
            Pipeline::Textual,
            Pipeline::Textual,
            Pipeline::Capture,
        ],
{
    let mut types: Vec<FactoryTypeSpec> = Vec::new();
    let t0 = spec("people", "people", "person", vec!["people", "contact"], Pipeline::People, vec!["people", "person", "contact", "聯絡人", "联络人"], "people", "聯絡人/通訊錄/名片/個人資料");
    assert(strs_view(t0.default_tags@) =~= seq!["people"@, "contact"@]);
    assert(strs_view(t0.synonyms@) =~= seq!["people"@, "person"@, "contact"@, "聯絡人"@, "联络人"@]);
    types.push(t0);
    let t1 = spec("companies", "companies", "company", vec!["companies", "contact"], Pipeline::Textual, vec!["companies", "company", "公司"], "company", "公司或組織的介紹/背景");
    assert(strs_view(t1.default_tags@) =~= seq!["companies"@, "contact"@]);
    assert(strs_view(t1.synonyms@) =~= seq!["companies"@, "company"@, "公司"@]);
    types.push(t1);
    let t2 = spec("meeting", "meetings", "meeting", vec!["meeting"], Pipeline::Textual, vec!["meeting", "meetings", "會議", "会议"], "meeting", "會議記錄/逐字稿/議程/開會筆記");
    assert(strs_view(t2.default_tags@) =~= seq!["meeting"@]);
    assert(strs_view(t2.synonyms@) =~= seq!["meeting"@, "meetings"@, "會議"@, "会议"@]);
    types.push(t2);
    let t3 = spec("concepts", "concepts", "concept", vec!["concept"], Pipeline::Textual, vec!["concepts", "concept", "概念", "主題", "主题"], "", "主題/概念/知識wiki");
    assert(strs_view(t3.default_tags@) =~= seq!["concept"@]);
    assert(strs_view(t3.synonyms@) =~= seq!["concepts"@, "concept"@, "概念"@, "主題"@, "主题"@]);
    types.push(t3);
    let t4 = spec("projects", "projects", "project", vec!["project"], Pipeline::Textual, vec!["projects", "project", "專案", "项目"], "projects", "專案/計畫");
    assert(strs_view(t4.default_tags@) =~= seq!["project"@]);
    assert(strs_view(t4.synonyms@) =~= seq!["projects"@, "project"@, "專案"@, "项目"@]);
    types.push(t4);
    let t5 = spec("inbox", "inbox", "note", vec!["note"], Pipeline::Capture, vec!["note", "notes", "inbox", "筆記", "笔记"], "", "其他一般筆記");
    assert(strs_view(t5.default_tags@) =~= seq!["note"@]);
    assert(strs_view(t5.synonyms@) =~= seq!["note"@, "notes"@, "inbox"@, "筆記"@, "笔记"@]);
    types.push(t5);
    let r = Pack { name: "gbrain-base", types };
    assert(r.ids() =~= legacy_ids());
    assert(r.dirs() =~= legacy_dirs());
    assert(r.pipelines() =~= seq![
        Pipeline::People,
        Pipeline::Textual,
        Pipeline::Textual,
        Pipeline::Textual,
        Pipeline::Textual,
        Pipeline::Capture,
    ]);
    r
}

/// The pack that `pack_for` picks: a name containing `v2`, or none, or an unknown one, gives v2;
/// exactly `gbrain-base` gives the legacy pack.
pub open spec fn picks_legacy(name: Option<Seq<char>>) -> bool {
    match name {
        Some(n) => !has_sub(n, "v2"@) && n == "gbrain-base"@,
        None => false,
    }
}

pub open spec fn opt_view(o: Option<&str>) -> Option<Seq<char>> {
    match o {
        Some(s) => Some(s@),
        None => None,
    }
}

/// The pack for a `schema_pack` name.
pub fn pack_for(name: Option<&str>) -> (r: Pack)
    ensures
        picks_legacy(opt_view(name)) ==> r.name@ == "gbrain-base"@ && legacy_table(r.types@) && r.ids()
            == legacy_ids() && r.dirs() == legacy_dirs(),
        !picks_legacy(opt_view(name)) ==> r.name@ == "gbrain-base-v2"@ && v2_table(r.types@) && r.ids()
            == v2_ids() && r.dirs() == v2_dirs(),
        r.types@.len() > 0,
{
    match name {
        Some(n) => {
            if contains_str(n, "v2") {
                v2_pack()
            } else if str_eq(n, "gbrain-base") {
                legacy_pack()
            } else {
                v2_pack()
            }
        },
        None => v2_pack(),
    }
}

/// The active brain's pack, from the `schema_pack` its configuration names (the v2 pack when it
/// names none), and that name.
pub fn active_pack(schema_pack: Option<String>) -> (r: (Pack, Option<String>))
    ensures
        picks_legacy(crate::factories::opt_str(schema_pack)) ==> r.0.name@ == "gbrain-base"@ && legacy_table(
            r.0.types@,
        ) && r.0.ids() == legacy_ids(),
        !picks_legacy(crate::factories::opt_str(schema_pack)) ==> r.0.name@ == "gbrain-base-v2"@ && v2_table(
            r.0.types@,
        ) && r.0.ids() == v2_ids(),
        crate::factories::opt_str(r.1) == crate::factories::opt_str(schema_pack),
{
    let p = match &schema_pack {
        Some(n) => pack_for(Some(n.as_str())),
        None => pack_for(None),
    };
    (p, schema_pack)
}

/// One factory type as the front end lists it.
#[derive(Debug, Clone)]
pub struct FactoryTypeInfo {
    pub id: String,
    pub dir: String,
    pub pipeline: Pipeline,
    pub extensions: Vec<&'static str>,
}

pub open spec fn info_of(t: FactoryTypeSpec, f: FactoryTypeInfo) -> bool {
    &&& f.id@ == t.id@
    &&& f.dir@ == t.dir@
    &&& f.pipeline == t.pipeline
    &&& strs_view(f.extensions@) == extensions_spec(t.pipeline)
}

/// The type list of a pack for the front end, in pack order.
pub fn type_infos(pack: &Pack) -> (r: Vec<FactoryTypeInfo>)
    ensures
        r@.len() == pack.types@.len(),
        forall|i: int| 0 <= i < r@.len() ==> info_of(pack.types@[i], #[trigger] r@[i]),
{
    let mut r: Vec<FactoryTypeInfo> = Vec::new();
    let mut i: usize = 0;
    while i < pack.types.len()
        invariant
            i <= pack.types.len(),
            r@.len() == i,
            forall|j: int| 0 <= j < i ==> info_of(pack.types@[j], #[trigger] r@[j]),
        decreases pack.types.len() - i,
    {
        let t = &pack.types[i];
        let info = FactoryTypeInfo {
            id: owned(t.id),
            dir: owned(t.dir),
            pipeline: t.pipeline,
            extensions: t.pipeline.extensions(),
        };
        r.push(info);
        i += 1;
    }
    r
}

/// `page_type` is the page type of some type of the pack.
pub open spec fn pack_has_page_type(types: Seq<FactoryTypeSpec>, page_type: Seq<char>) -> bool {
    exists|i: int| 0 <= i < types.len() && (#[trigger] types[i]).page_type@ == page_type
}

/// The page type after LLM extraction: the trimmed answer when it is a page type of the active
/// pack; the type's default when the answer is blank or names no type of the pack.
pub fn normalize_page_type(pack: &Pack, spec: &FactoryTypeSpec, raw: &str) -> (r: String)
    ensures
        r@ == (if trim_spec(raw@).len() > 0 && pack_has_page_type(pack.types@, trim_spec(raw@)) {
            trim_spec(raw@)
        } else {
            spec.page_type@
        }),
{
    let t = trim(raw);
    if t.as_str().is_empty() {
        return owned(spec.page_type);
    }
    let mut i: usize = 0;
    while i < pack.types.len()
        invariant
            i <= pack.types.len(),
            t@ == trim_spec(raw@),
            t@.len() > 0,
            forall|j: int| 0 <= j < i ==> (#[trigger] pack.types@[j]).page_type@ != t@,
        decreases pack.types.len() - i,
    {
        if str_eq(pack.types[i].page_type, t.as_str()) {
            assert(pack.types@[i as int].page_type@ == t@);
            return t;
        }
        i += 1;
    }
    owned(spec.page_type)
}

/// The upgrade hint for a pack whose name is not of the v2 family.
pub fn v2_hint(pack_name: Option<&str>) -> (r: Option<L10n>)
    ensures
        match pack_name {
            Some(n) => if has_sub(n@, "v2"@) {
                r is None
            } else {
                r is Some && r->0@ == ("factories.v2Hint"@, seq![("pack"@, n@)])
            },
            None => r is None,
        },
{
    match pack_name {
        Some(n) => {
            if contains_str(n, "v2") {
                None
            } else {
                let m = L10n::new("factories.v2Hint").p("pack", n);
                assert(m@.1 =~= seq![("pack"@, n@)]);
                Some(m)
            }
        },
        None => None,
    }
}

} // verus!
