//! The factory run: dropped files are converted into pages, written at once under
//! `notes/<directory>/<slug>.md`, and previewed. Which directory a factory writes to, how each
//! input file is routed, and how the per-file outcomes become the run's result are decided here;
//! reading, converting (parsers, the language model) and writing the files happen outside.
use vstd::prelude::*;
use crate::app_config::AppConfig;
use crate::companies::{enriched_spec, is_enriched, CompaniesImport, CompanyPage};
use crate::contract::{EventKind, InboundEvent};
use crate::l10n::{AppError, L10n};
use crate::text::{after_last, dec_seq, dec_string, lower_seq, owned, push_str, str_eq, trail_of, trim, trim_spec};

verus! {

// ---------------------------------------------------------------------------
// Pages and results
// ---------------------------------------------------------------------------

/// A page to write again, after the user edited its preview.
#[derive(Debug, Clone)]
pub struct WritePage {
    pub slug: String,
    pub target_dir: String,
    pub markdown: String,
}

/// A page as previewed after a run.
#[derive(Debug, Clone)]
pub struct PreviewPage {
    pub slug: String,
    pub target_dir: String,
    pub name: String,
    pub markdown: String,
}

impl View for PreviewPage {
    type V = (Seq<char>, Seq<char>, Seq<char>, Seq<char>);

    open spec fn view(&self) -> Self::V {
        (self.slug@, self.target_dir@, self.name@, self.markdown@)
    }
}

impl PreviewPage {
    /// A copy of this page.
    pub fn copy(&self) -> (r: PreviewPage)
        ensures
            r@ == self@,
    {
        PreviewPage {
            slug: owned(self.slug.as_str()),
            target_dir: owned(self.target_dir.as_str()),
            name: owned(self.name.as_str()),
            markdown: owned(self.markdown.as_str()),
        }
    }
}

/// What became of one input file (shown as a list when several were dropped).
#[derive(Debug)]
pub struct ProcessedFile {
    pub path: String,
    pub ok: bool,
    pub message: Option<L10n>,
    pub pages: Vec<PreviewPage>,
}

/// The result of a factory run.
#[derive(Debug)]
pub struct PreviewResult {
    pub factory: String,
    pub summary: L10n,
    /// The first pages (at most ten).
    pub sample: Vec<PreviewPage>,
    pub total: usize,
    /// The files written.
    pub written: Vec<String>,
    pub errors: Vec<L10n>,
    /// One entry per input file; empty for the inbox.
    pub files: Vec<ProcessedFile>,
}

/// The result of writing edited pages, or of rebuilding the company pages.
#[derive(Debug)]
pub struct WriteResult {
    pub written: Vec<String>,
    pub errors: Vec<L10n>,
    pub note: Option<L10n>,
}

/// The result of saving a hand-written page.
#[derive(Debug)]
pub struct AuthoredResult {
    pub slug: String,
    pub target_dir: String,
    pub path: String,
    pub used_fallback: bool,
    /// What was written (with wikilinks filled in when that ran).
    pub enriched_markdown: String,
    /// How many person and company names the model found.
    pub names_count: usize,
    /// Whether the wikilink pass ran.
    pub enriched: bool,
}

pub type L10nV = (Seq<char>, Seq<(Seq<char>, Seq<char>)>);

pub open spec fn pages_view(s: Seq<PreviewPage>) -> Seq<(Seq<char>, Seq<char>, Seq<char>, Seq<char>)> {
    s.map_values(|p: PreviewPage| p@)
}

pub open spec fn msgs_view(s: Seq<L10n>) -> Seq<L10nV> {
    s.map_values(|m: L10n| m@)
}

pub open spec fn opt_msg(o: Option<L10n>) -> Option<L10nV> {
    match o {
        Some(m) => Some(m@),
        None => None,
    }
}

/// The message of a file that could not be converted or written.
pub open spec fn file_err_spec(file: Seq<char>, detail: Seq<char>) -> L10nV {
    ("factory.fileError"@, seq![("file"@, file), ("detail"@, detail)])
}

/// The message of a file that could not be converted or written.
pub fn file_err(file: &str, detail: &str) -> (r: L10n)
    ensures
        r@ == file_err_spec(file@, detail@),
{
    let r = L10n::new("factory.fileError").p("file", file).p("detail", detail);
    assert(r@.1 =~= seq![("file"@, file@), ("detail"@, detail@)]);
    r
}

// ---------------------------------------------------------------------------
// Directories and routes
// ---------------------------------------------------------------------------

/// The directory that a factory writes to, if the factory is known.
pub open spec fn target_dir_spec(factory: Seq<char>) -> Option<Seq<char>> {
    if factory == "people"@ {
        Some("people"@)
    } else if factory == "companies"@ {
        Some("companies"@)
    } else if factory == "meeting"@ {
        Some("meetings"@)
    } else if factory == "inbox"@ {
        Some("inbox"@)
    } else if factory == "concepts"@ {
        Some("concepts"@)
    } else if factory == "projects"@ {
        Some("projects"@)
    } else {
        None
    }
}

/// The error for a factory name that is not known.
pub open spec fn unknown_factory(factory: Seq<char>) -> L10nV {
    ("factory.unknown"@, seq![("factory"@, factory)])
}

/// The directory that a factory writes to; `factory.unknown` for any other name.
pub fn target_dir_of(factory: &str) -> (r: Result<String, AppError>)
    ensures
        match target_dir_spec(factory@) {
            Some(d) => r matches Ok(s) && s@ == d,
            None => r matches Err(e) && e@ == unknown_factory(factory@),
        },
{
    if str_eq(factory, "people") {
        Ok(owned("people"))
    } else if str_eq(factory, "companies") {
        Ok(owned("companies"))
    } else if str_eq(factory, "meeting") {
        Ok(owned("meetings"))
    } else if str_eq(factory, "inbox") {
        Ok(owned("inbox"))
    } else if str_eq(factory, "concepts") {
        Ok(owned("concepts"))
    } else if str_eq(factory, "projects") {
        Ok(owned("projects"))
    } else {
        let e = AppError::new("factory.unknown").p("factory", factory);
        assert(e@.1 =~= seq![("factory"@, factory@)]);
        Err(e)
    }
}

/// How a factory run proceeds.
#[derive(Debug, Clone, Copy, PartialEq, Eq, Structural)]
pub enum RunKind {
    /// Contacts: CSV parsed, text through the model; one file may give many pages.
    People,
    /// Companies, meetings, concepts and projects: each file through the model into one page.
    Textual,
    /// Captured into the inbox by gbrain itself.
    Inbox,
}

pub open spec fn run_kind_spec(factory: Seq<char>) -> Option<RunKind> {
    if factory == "people"@ {
        Some(RunKind::People)
    } else if factory == "companies"@ || factory == "meeting"@ || factory == "concepts"@ || factory
        == "projects"@ {
        Some(RunKind::Textual)
    } else if factory == "inbox"@ {
        Some(RunKind::Inbox)
    } else {
        None
    }
}

/// How a run of `factory` proceeds; `factory.unknown` for any other name.
pub fn run_kind(factory: &str) -> (r: Result<RunKind, AppError>)
    ensures
        match run_kind_spec(factory@) {
            Some(k) => r == Ok::<RunKind, AppError>(k),
            None => r matches Err(e) && e@ == unknown_factory(factory@),
        },
{
    if str_eq(factory, "people") {
        Ok(RunKind::People)
    } else if str_eq(factory, "companies") || str_eq(factory, "meeting") || str_eq(factory, "concepts")
        || str_eq(factory, "projects") {
        Ok(RunKind::Textual)
    } else if str_eq(factory, "inbox") {
        Ok(RunKind::Inbox)
    } else {
        let e = AppError::new("factory.unknown").p("factory", factory);
        assert(e@.1 =~= seq![("factory"@, factory@)]);
        Err(e)
    }
}

pub open spec fn textual_dir_spec(factory: Seq<char>) -> Seq<char> {
    if factory == "companies"@ {
        "companies"@
    } else if factory == "meeting"@ {
        "meetings"@
    } else if factory == "projects"@ {
        "projects"@
    } else {
        "concepts"@
    }
}

/// The directory of a textual factory (concepts for any name it does not know).
pub fn textual_dir(factory: &str) -> (r: String)
    ensures
        r@ == textual_dir_spec(factory@),
{
    if str_eq(factory, "companies") {
        owned("companies")
    } else if str_eq(factory, "meeting") {
        owned("meetings")
    } else if str_eq(factory, "projects") {
        owned("projects")
    } else {
        owned("concepts")
    }
}

pub open spec fn own_dir_spec(factory: Seq<char>) -> Seq<char> {
    if factory == "people"@ {
        "people"@
    } else if factory == "companies"@ {
        "companies"@
    } else if factory == "meeting"@ {
        "meetings"@
    } else if factory == "concepts"@ {
        "concepts"@
    } else if factory == "projects"@ {
        "projects"@
    } else {
        ""@
    }
}

/// The directory whose pages a hand-written page of `factory` must not link to itself in (empty
/// for the inbox and unknown names).
pub fn own_dir(factory: &str) -> (r: &'static str)
    ensures
        r@ == own_dir_spec(factory@),
{
    if str_eq(factory, "people") {
        "people"
    } else if str_eq(factory, "companies") {
        "companies"
    } else if str_eq(factory, "meeting") {
        "meetings"
    } else if str_eq(factory, "concepts") {
        "concepts"
    } else if str_eq(factory, "projects") {
        "projects"
    } else {
        ""
    }
}

/// The part of a path after its last `/` or `\`.
pub open spec fn path_tail(p: Seq<char>) -> Seq<char>
    decreases p.len(),
{
    if p.len() == 0 {
        p
    } else if p.last() == '/' || p.last() == '\\' {
        Seq::empty()
    } else {
        path_tail(p.drop_last()).push(p.last())
    }
}

/// The extension of a file name as `Path::extension` documents it: what follows the last `.`,
/// when the name has a `.` past its first character; none otherwise (no `.`, or a dot-file).
pub open spec fn name_extension(n: Seq<char>) -> Option<Seq<char>> {
    if exists|i: int| 0 < i < n.len() && n[i] == '.' {
        Some(after_last(n, '.'))
    } else {
        None
    }
}

/// A path whose file name every platform reads alike: its last part is not empty, `.` or `..` and
/// has no drive colon, and either the path has no separator at all or its last part has a `.` past
/// its first character (so the last `.` of the file name lies in it wherever the platform splits).
pub open spec fn extension_known(p: Seq<char>) -> bool {
    let t = path_tail(p);
    &&& t.len() > 0
    &&& !(t.len() == 1 && t[0] == '.')
    &&& !(t.len() == 2 && t[0] == '.' && t[1] == '.')
    &&& !t.contains(':')
    &&& (!(p.contains('/') || p.contains('\\')) || exists|i: int| 0 < i < t.len() && t[i] == '.')
}

/// The file extension of a path (`Path::extension`): never holding a `.`; for a path whose file
/// name every platform reads alike, the extension of that name as the documentation gives it. Of
/// other paths, whose file name depends on the platform's separators and prefixes, nothing more
/// is promised.
#[verifier::external_body]
fn path_extension(p: &str) -> (r: Option<String>)
    ensures
        r matches Some(e) ==> !e@.contains('.'),
        extension_known(p@) ==> opt_str(r) == name_extension(path_tail(p@)),
{
    std::path::Path::new(p).extension().and_then(|e| e.to_str()).map(|e| e.to_string())
}

/// How a contacts input is read.
#[derive(Debug, Clone, Copy, PartialEq, Eq, Structural)]
pub enum PeopleInput {
    /// Parsed as a CSV export (many people per file).
    Csv,
    /// A text or markdown file given to the model (one person).
    Text,
    /// Any other file: refused with `factory.csvOnly`.
    Unsupported,
}

pub open spec fn people_input_spec(ext: Option<Seq<char>>) -> PeopleInput {
    match ext {
        Some(e) => if lower_seq(e) == "csv"@ {
            PeopleInput::Csv
        } else if lower_seq(e) == "txt"@ || lower_seq(e) == "md"@ {
            PeopleInput::Text
        } else {
            PeopleInput::Unsupported
        },
        None => PeopleInput::Unsupported,
    }
}

pub open spec fn opt_str(o: Option<String>) -> Option<Seq<char>> {
    match o {
        Some(s) => Some(s@),
        None => None,
    }
}

/// The route of a contacts input with extension `ext` (compared without regard to ASCII case).
pub fn people_input_of(ext: Option<String>) -> (r: PeopleInput)
    ensures
        r == people_input_spec(opt_str(ext)),
{
    match ext {
        Some(e) => {
            let l = crate::text::to_ascii_lower(e.as_str());
            if str_eq(l.as_str(), "csv") {
                PeopleInput::Csv
            } else if str_eq(l.as_str(), "txt") || str_eq(l.as_str(), "md") {
                PeopleInput::Text
            } else {
                PeopleInput::Unsupported
            }
        },
        None => PeopleInput::Unsupported,
    }
}

pub open spec fn no_dot(o: Option<String>) -> bool {
    o matches Some(e) ==> !e@.contains('.')
}

/// The extension of each path (`Path::extension`), in order.
pub fn extensions(paths: &Vec<String>) -> (r: Vec<Option<String>>)
    ensures
        r@.len() == paths@.len(),
        forall|i: int| 0 <= i < r@.len() ==> no_dot(#[trigger] r@[i]),
        forall|i: int|
            0 <= i < r@.len() && extension_known(paths@[i]@) ==> opt_str(#[trigger] r@[i]) == name_extension(
                path_tail(paths@[i]@),
            ),
{
    let mut r: Vec<Option<String>> = Vec::new();
    let mut i: usize = 0;
    while i < paths.len()
        invariant
            i <= paths.len(),
            r@.len() == i,
            forall|k: int| 0 <= k < r@.len() ==> no_dot(#[trigger] r@[k]),
            forall|k: int|
                0 <= k < r@.len() && extension_known(paths@[k]@) ==> opt_str(#[trigger] r@[k]) == name_extension(
                    path_tail(paths@[k]@),
                ),
        decreases paths.len() - i,
    {
        r.push(path_extension(paths[i].as_str()));
        i += 1;
    }
    r
}

pub open spec fn is_text_input(ext: Option<String>) -> bool {
    people_input_spec(opt_str(ext)) == PeopleInput::Text
}

/// Whether a contacts run needs the model: some input is a text or markdown file (by the
/// inputs' extensions).
pub fn has_text_input(exts: &Vec<Option<String>>) -> (r: bool)
    ensures
        r == exists|i: int| 0 <= i < exts@.len() && #[trigger] is_text_input(exts@[i]),
{
    let mut i: usize = 0;
    while i < exts.len()
        invariant
            i <= exts.len(),
            forall|k: int| 0 <= k < i ==> !#[trigger] is_text_input(exts@[k]),
        decreases exts.len() - i,
    {
        let e = match &exts[i] {
            Some(x) => Some(owned(x.as_str())),
            None => None,
        };
        if people_input_of(e) == PeopleInput::Text {
            assert(is_text_input(exts@[i as int]));
            return true;
        }
        i += 1;
    }
    false
}


/// Where the text of a textual input comes from.
#[derive(Debug, Clone, Copy, PartialEq, Eq, Structural)]
pub enum RawSource {
    /// Read as text (`txt`, `md`, `markdown`).
    Text,
    /// Extracted from a PDF.
    Pdf,
}

/// The refusal of an input whose (lower-cased) extension is `ext`.
pub open spec fn unsupported_ext(ext: Seq<char>) -> Seq<char> {
    "不支援的副檔名："@ + ext + "（people=csv；companies/meeting/projects/concepts=txt,md,pdf）"@
}

pub open spec fn raw_source_spec(ext: Option<Seq<char>>) -> Result<RawSource, Seq<char>> {
    let e = match ext {
        Some(e) => lower_seq(e),
        None => Seq::<char>::empty(),
    };
    if e == "txt"@ || e == "md"@ || e == "markdown"@ {
        Ok(RawSource::Text)
    } else if e == "pdf"@ {
        Ok(RawSource::Pdf)
    } else {
        Err(unsupported_ext(e))
    }
}

/// How the text of a textual input with extension `ext` is obtained (extensions compared in
/// lower case); the refusal for any other extension.
pub fn raw_source(ext: Option<String>) -> (r: Result<RawSource, String>)
    ensures
        match raw_source_spec(opt_str(ext)) {
            Ok(k) => r matches Ok(x) && x == k,
            Err(m) => r matches Err(x) && x@ == m,
        },
{
    let e = match ext {
        Some(x) => crate::text::to_ascii_lower(x.as_str()),
        None => String::new(),
    };
    if str_eq(e.as_str(), "txt") || str_eq(e.as_str(), "md") || str_eq(e.as_str(), "markdown") {
        Ok(RawSource::Text)
    } else if str_eq(e.as_str(), "pdf") {
        Ok(RawSource::Pdf)
    } else {
        let mut m = owned("不支援的副檔名：");
        push_str(&mut m, e.as_str());
        push_str(&mut m, "（people=csv；companies/meeting/projects/concepts=txt,md,pdf）");
        Err(m)
    }
}

/// The refusal of a run that needs the model when no API key is set (a local `ollama` needs
/// none): `llm.noApiKey` with the provider and the variable that should hold the key (`?` when
/// not known).
pub open spec fn no_api_key_spec(has_api_key: bool, provider: Seq<char>, env_key: Option<Seq<char>>) -> Option<
    L10nV,
> {
    if !has_api_key && provider != "ollama"@ {
        Some(
            (
                "llm.noApiKey"@,
                seq![
                    ("provider"@, provider),
                    ("envKey"@, match env_key {
                        Some(k) => k,
                        None => "?"@,
                    }),
                ],
            ),
        )
    } else {
        None
    }
}

/// The refusal of a run that needs the model, when the endpoint has no API key.
pub fn no_api_key(has_api_key: bool, provider: &str, env_key: Option<&str>) -> (r: Option<AppError>)
    ensures
        match no_api_key_spec(has_api_key, provider@, match env_key {
            Some(k) => Some(k@),
            None => None,
        }) {
            Some(m) => r matches Some(e) && e@ == m,
            None => r is None,
        },
{
    if !has_api_key && !str_eq(provider, "ollama") {
        let k = match env_key {
            Some(k) => k,
            None => "?",
        };
        let e = AppError::new("llm.noApiKey").p("provider", provider).p("envKey", k);
        assert(e@.1 =~= seq![("provider"@, provider@), ("envKey"@, k@)]);
        Some(e)
    } else {
        None
    }
}

// ---------------------------------------------------------------------------
// Assembling a run
// ---------------------------------------------------------------------------

/// What converting one input file gave.
#[derive(Debug)]
pub enum Conversion {
    /// The pages it gave.
    Pages(Vec<PreviewPage>),
    /// Reading or converting it failed: the detail.
    Failed(String),
    /// The factory does not take files of its kind.
    Unsupported,
}

/// One input file of a run: its path, what its conversion gave, and for each page where it was
/// written or why it was not.
#[derive(Debug)]
pub struct FileRun {
    pub path: String,
    pub conversion: Conversion,
    pub writes: Vec<Result<String, String>>,
}

pub open spec fn page_ref(p: (Seq<char>, Seq<char>, Seq<char>, Seq<char>)) -> Seq<char> {
    p.1 + "/"@ + p.0
}

/// The files written, in order.
pub open spec fn ok_paths(ws: Seq<Result<String, String>>) -> Seq<Seq<char>>
    decreases ws.len(),
{
    if ws.len() == 0 {
        Seq::empty()
    } else {
        let rest = ok_paths(ws.drop_last());
        match ws.last() {
            Ok(p) => rest.push(p@),
            Err(_) => rest,
        }
    }
}

/// The message of each page that could not be written, in order.
pub open spec fn write_errs(ps: Seq<(Seq<char>, Seq<char>, Seq<char>, Seq<char>)>, ws: Seq<Result<String, String>>) -> Seq<
    L10nV,
>
    decreases ws.len(),
{
    if ws.len() == 0 {
        Seq::empty()
    } else {
        let rest = write_errs(ps, ws.drop_last());
        match ws.last() {
            Ok(_) => rest,
            Err(e) => rest.push(file_err_spec(page_ref(ps[ws.len() - 1]), e@)),
        }
    }
}

pub open spec fn file_pages(f: FileRun) -> Seq<(Seq<char>, Seq<char>, Seq<char>, Seq<char>)> {
    match f.conversion {
        Conversion::Pages(v) => pages_view(v@),
        _ => Seq::empty(),
    }
}

pub open spec fn file_written(f: FileRun) -> Seq<Seq<char>> {
    match f.conversion {
        Conversion::Pages(_) => ok_paths(f.writes@),
        _ => Seq::empty(),
    }
}

pub open spec fn writes_match(f: FileRun) -> bool {
    match f.conversion {
        Conversion::Pages(v) => v@.len() == f.writes@.len(),
        _ => true,
    }
}

pub open spec fn csv_only_spec(file: Seq<char>) -> L10nV {
    ("factory.csvOnly"@, seq![("file"@, file)])
}

/// The message of a contacts input that gave no pages.
pub open spec fn people_msg(f: FileRun) -> Option<L10nV> {
    match f.conversion {
        Conversion::Pages(_) => None,
        Conversion::Failed(d) => Some(file_err_spec(f.path@, d@)),
        Conversion::Unsupported => Some(csv_only_spec(f.path@)),
    }
}

/// The errors of a contacts input: its message, or the pages it could not write.
pub open spec fn people_errs(f: FileRun) -> Seq<L10nV> {
    match f.conversion {
        Conversion::Pages(v) => write_errs(pages_view(v@), f.writes@),
        _ => seq![people_msg(f).unwrap()],
    }
}

pub open spec fn all_pages(files: Seq<FileRun>) -> Seq<(Seq<char>, Seq<char>, Seq<char>, Seq<char>)> {
    files.map_values(|f: FileRun| file_pages(f)).flatten_alt()
}

pub open spec fn first_ten<A>(s: Seq<A>) -> Seq<A> {
    if s.len() <= 10 {
        s
    } else {
        s.take(10)
    }
}

pub open spec fn people_summary_spec(rows: nat, merged: nat, written: nat) -> L10nV {
    if rows > 0 {
        (
            "factory.peopleSummary"@,
            seq![("rows"@, dec_seq(rows)), ("merged"@, dec_seq(merged)), ("written"@, dec_seq(written))],
        )
    } else {
        ("factory.writtenN"@, seq![("factory"@, "people"@), ("n"@, dec_seq(written))])
    }
}

proof fn lemma_flat_step<A>(s: Seq<Seq<A>>, i: int)
    requires
        0 <= i < s.len(),
    ensures
        s.take(i + 1).flatten_alt() == s.take(i).flatten_alt() + s[i],
{
    assert(s.take(i + 1).drop_last() =~= s.take(i));
}

fn copy_pages(v: &Vec<PreviewPage>) -> (r: Vec<PreviewPage>)
    ensures
        pages_view(r@) == pages_view(v@),
{
    let mut r: Vec<PreviewPage> = Vec::new();
    let mut i: usize = 0;
    while i < v.len()
        invariant
            i <= v.len(),
            pages_view(r@) == pages_view(v@).take(i as int),
        decreases v.len() - i,
    {
        let ghost before = pages_view(r@);
        r.push(v[i].copy());
        assert(pages_view(r@) =~= before.push(v@[i as int]@));
        assert(pages_view(v@).take(i as int + 1) =~= pages_view(v@).take(i as int).push(v@[i as int]@));
        i += 1;
    }
    assert(pages_view(v@).take(i as int) =~= pages_view(v@));
    r
}

/// The first ten pages (or all of them).
fn sample_of(all: &Vec<PreviewPage>) -> (r: Vec<PreviewPage>)
    ensures
        pages_view(r@) == first_ten(pages_view(all@)),
{
    let n: usize = if all.len() <= 10 { all.len() } else { 10 };
    let mut r: Vec<PreviewPage> = Vec::new();
    let mut i: usize = 0;
    while i < n
        invariant
            i <= n,
            n <= all.len(),
            n == (if all.len() <= 10 { all.len() } else { 10 }),
            pages_view(r@) == pages_view(all@).take(i as int),
        decreases n - i,
    {
        let ghost before = pages_view(r@);
        r.push(all[i].copy());
        assert(pages_view(r@) =~= before.push(all@[i as int]@));
        assert(pages_view(all@).take(i as int + 1) =~= pages_view(all@).take(i as int).push(all@[i as int]@));
        i += 1;
    }
    assert(pages_view(r@) =~= first_ten(pages_view(all@)));
    r
}

/// The written files and the write errors of one file's pages, appended.
fn record_writes(
    pages: &Vec<PreviewPage>,
    writes: &Vec<Result<String, String>>,
    written: &mut Vec<String>,
    errors: &mut Vec<L10n>,
) -> (last_err: Option<L10n>)
    requires
        pages@.len() == writes@.len(),
    ensures
        crate::text::views_of(final(written)@) == crate::text::views_of(old(written)@) + ok_paths(writes@),
        msgs_view(final(errors)@) == msgs_view(old(errors)@) + write_errs(pages_view(pages@), writes@),
        opt_msg(last_err) == last_write_err(pages_view(pages@), writes@),
{
    let ghost w0 = crate::text::views_of(written@);
    let ghost e0 = msgs_view(errors@);
    let ghost pv = pages_view(pages@);
    let mut last: Option<L10n> = None;
    let mut j: usize = 0;
    while j < writes.len()
        invariant
            j <= writes@.len(),
            pages@.len() == writes@.len(),
            pv == pages_view(pages@),
            crate::text::views_of(written@) == w0 + ok_paths(writes@.take(j as int)),
            msgs_view(errors@) == e0 + write_errs(pv, writes@.take(j as int)),
            opt_msg(last) == last_write_err(pv, writes@.take(j as int)),
        decreases writes@.len() - j,
    {
        let ghost t = writes@.take(j as int + 1);
        assert(t.drop_last() =~= writes@.take(j as int));
        assert(t.last() == writes@[j as int]);
        match &writes[j] {
            Ok(p) => {
                let ghost before = crate::text::views_of(written@);
                written.push(owned(p.as_str()));
                assert(crate::text::views_of(written@) =~= before.push(p@));
                assert(crate::text::views_of(written@) =~= w0 + ok_paths(t));
            },
            Err(e) => {
                let pg = &pages[j];
                let mut r = owned(pg.target_dir.as_str());
                push_str(&mut r, "/");
                push_str(&mut r, pg.slug.as_str());
                assert(r@ == page_ref(pv[j as int]));
                let m = file_err(r.as_str(), e.as_str());
                let ghost before = msgs_view(errors@);
                errors.push(m.copy());
                assert(msgs_view(errors@) =~= before.push(m@));
                assert(msgs_view(errors@) =~= e0 + write_errs(pv, t));
                last = Some(m);
            },
        }
        j += 1;
    }
    assert(writes@.take(j as int) =~= writes@);
    last
}

/// The message of the last page of a file that could not be written.
pub open spec fn last_write_err(ps: Seq<(Seq<char>, Seq<char>, Seq<char>, Seq<char>)>, ws: Seq<Result<String, String>>) -> Option<
    L10nV,
>
    decreases ws.len(),
{
    if ws.len() == 0 {
        None
    } else {
        match ws.last() {
            Err(e) => Some(file_err_spec(page_ref(ps[ws.len() - 1]), e@)),
            Ok(_) => last_write_err(ps, ws.drop_last()),
        }
    }
}


pub open spec fn processed_matches(pf: ProcessedFile, f: FileRun, ok: bool, msg: Option<L10nV>) -> bool {
    &&& pf.path@ == f.path@
    &&& pf.ok == ok
    &&& opt_msg(pf.message) == msg
    &&& pages_view(pf.pages@) == file_pages(f)
}

/// The result of a contacts run, from each input's conversion and writes, with the rows read and
/// the duplicate groups merged by the CSV parser: every file listed (failed when it gave no
/// pages), the written files and the errors in input order, the first ten pages, and the summary
/// (rows, merged and written when a CSV was read, else the count written).
pub fn people_result(files: &Vec<FileRun>, rows: usize, merged: usize) -> (r: PreviewResult)
    requires
        forall|i: int| 0 <= i < files@.len() ==> writes_match(#[trigger] files@[i]),
    ensures
        r.factory@ == "people"@,
        r.files@.len() == files@.len(),
        forall|i: int|
            0 <= i < files@.len() ==> processed_matches(
                #[trigger] r.files@[i],
                files@[i],
                files@[i].conversion is Pages,
                people_msg(files@[i]),
            ),
        crate::text::views_of(r.written@) == files@.map_values(|f: FileRun| file_written(f)).flatten_alt(),
        msgs_view(r.errors@) == files@.map_values(|f: FileRun| people_errs(f)).flatten_alt(),
        r.total == all_pages(files@).len(),
        pages_view(r.sample@) == first_ten(all_pages(files@)),
        r.summary@ == people_summary_spec(rows as nat, merged as nat, r.written@.len()),
{
    let ghost fw = files@.map_values(|f: FileRun| file_written(f));
    let ghost fe = files@.map_values(|f: FileRun| people_errs(f));
    let ghost fp = files@.map_values(|f: FileRun| file_pages(f));
    let mut out: Vec<ProcessedFile> = Vec::new();
    let mut all: Vec<PreviewPage> = Vec::new();
    let mut written: Vec<String> = Vec::new();
    let mut errors: Vec<L10n> = Vec::new();
    let mut i: usize = 0;
    while i < files.len()
        invariant
            i <= files@.len(),
            forall|k: int| 0 <= k < files@.len() ==> writes_match(#[trigger] files@[k]),
            fw == files@.map_values(|f: FileRun| file_written(f)),
            fe == files@.map_values(|f: FileRun| people_errs(f)),
            fp == files@.map_values(|f: FileRun| file_pages(f)),
            out@.len() == i,
            forall|k: int|
                0 <= k < i ==> processed_matches(
                    #[trigger] out@[k],
                    files@[k],
                    files@[k].conversion is Pages,
                    people_msg(files@[k]),
                ),
            crate::text::views_of(written@) == fw.take(i as int).flatten_alt(),
            msgs_view(errors@) == fe.take(i as int).flatten_alt(),
            pages_view(all@) == fp.take(i as int).flatten_alt(),
        decreases files@.len() - i,
    {
        proof {
            lemma_flat_step(fw, i as int);
            lemma_flat_step(fe, i as int);
            lemma_flat_step(fp, i as int);
        }
        let f = &files[i];
        assert(writes_match(files@[i as int]));
        match &f.conversion {
            Conversion::Pages(pages) => {
                let _ = record_writes(pages, &f.writes, &mut written, &mut errors);
                let ghost a0 = pages_view(all@);
                let mut j: usize = 0;
                while j < pages.len()
                    invariant
                        j <= pages@.len(),
                        pages_view(all@) == a0 + pages_view(pages@).take(j as int),
                    decreases pages@.len() - j,
                {
                    let ghost before = pages_view(all@);
                    all.push(pages[j].copy());
                    assert(pages_view(all@) =~= before.push(pages@[j as int]@));
                    assert(pages_view(pages@).take(j as int + 1) =~= pages_view(pages@).take(j as int).push(
                        pages@[j as int]@,
                    ));
                    j += 1;
                }
                assert(pages_view(pages@).take(j as int) =~= pages_view(pages@));
                out.push(
                    ProcessedFile { path: owned(f.path.as_str()), ok: true, message: None, pages: copy_pages(pages) },
                );
            },
            Conversion::Failed(d) => {
                let m = file_err(f.path.as_str(), d.as_str());
                let ghost before = msgs_view(errors@);
                errors.push(m.copy());
                assert(msgs_view(errors@) =~= before + seq![m@]);
                let none: Vec<PreviewPage> = Vec::new();
                assert(pages_view(none@) =~= Seq::empty());
                out.push(ProcessedFile { path: owned(f.path.as_str()), ok: false, message: Some(m), pages: none });
            },
            Conversion::Unsupported => {
                let m = L10n::new("factory.csvOnly").p("file", f.path.as_str());
                assert(m@.1 =~= seq![("file"@, f.path@)]);
                let ghost before = msgs_view(errors@);
                errors.push(m.copy());
                assert(msgs_view(errors@) =~= before + seq![m@]);
                let none: Vec<PreviewPage> = Vec::new();
                assert(pages_view(none@) =~= Seq::empty());
                out.push(ProcessedFile { path: owned(f.path.as_str()), ok: false, message: Some(m), pages: none });
            },
        }
        assert(crate::text::views_of(written@) =~= fw.take(i as int + 1).flatten_alt());
        assert(msgs_view(errors@) =~= fe.take(i as int + 1).flatten_alt());
        assert(pages_view(all@) =~= fp.take(i as int + 1).flatten_alt());
        i += 1;
    }
    assert(fw.take(i as int) =~= fw);
    assert(fe.take(i as int) =~= fe);
    assert(fp.take(i as int) =~= fp);
    let summary = if rows > 0 {
        let m = L10n::new("factory.peopleSummary").p("rows", dec_string(rows as u64).as_str()).p(
            "merged",
            dec_string(merged as u64).as_str(),
        ).p("written", dec_string(written.len() as u64).as_str());
        assert(m@.1 =~= seq![
            ("rows"@, dec_seq(rows as nat)),
            ("merged"@, dec_seq(merged as nat)),
            ("written"@, dec_seq(written@.len())),
        ]);
        m
    } else {
        let m = L10n::new("factory.writtenN").p("factory", "people").p("n", dec_string(written.len() as u64).as_str());
        assert(m@.1 =~= seq![("factory"@, "people"@), ("n"@, dec_seq(written@.len()))]);
        m
    };
    let sample = sample_of(&all);
    PreviewResult {
        factory: owned("people"),
        summary,
        sample,
        total: all.len(),
        written,
        errors,
        files: out,
    }
}


/// The message of a textual input: why it gave no page, or why its page was not written.
pub open spec fn textual_msg(f: FileRun) -> Option<L10nV> {
    match f.conversion {
        Conversion::Pages(v) => last_write_err(pages_view(v@), f.writes@),
        Conversion::Failed(d) => Some(file_err_spec(f.path@, d@)),
        Conversion::Unsupported => None,
    }
}

/// The errors of a textual input: its conversion failure, or the pages it could not write.
pub open spec fn textual_errs(f: FileRun) -> Seq<L10nV> {
    match f.conversion {
        Conversion::Pages(v) => write_errs(pages_view(v@), f.writes@),
        Conversion::Failed(d) => seq![file_err_spec(f.path@, d@)],
        Conversion::Unsupported => Seq::empty(),
    }
}

pub open spec fn written_n_spec(factory: Seq<char>, n: nat) -> L10nV {
    ("factory.writtenN"@, seq![("factory"@, factory), ("n"@, dec_seq(n))])
}

/// The result of a run of a textual factory (companies, meeting, concepts, projects), from each
/// input's conversion and writes: every file listed with its pages (failed when its conversion
/// failed or its page was not written), the written files and the errors in input order, the
/// first ten pages, and the count written.
pub fn textual_result(factory: &str, files: &Vec<FileRun>) -> (r: PreviewResult)
    requires
        forall|i: int|
            0 <= i < files@.len() ==> writes_match(#[trigger] files@[i]) && !(files@[i].conversion is Unsupported),
    ensures
        r.factory@ == factory@,
        r.files@.len() == files@.len(),
        forall|i: int|
            0 <= i < files@.len() ==> processed_matches(
                #[trigger] r.files@[i],
                files@[i],
                textual_msg(files@[i]) is None,
                textual_msg(files@[i]),
            ),
        crate::text::views_of(r.written@) == files@.map_values(|f: FileRun| file_written(f)).flatten_alt(),
        msgs_view(r.errors@) == files@.map_values(|f: FileRun| textual_errs(f)).flatten_alt(),
        r.total == all_pages(files@).len(),
        pages_view(r.sample@) == first_ten(all_pages(files@)),
        r.summary@ == written_n_spec(factory@, r.written@.len()),
{
    let ghost fw = files@.map_values(|f: FileRun| file_written(f));
    let ghost fe = files@.map_values(|f: FileRun| textual_errs(f));
    let ghost fp = files@.map_values(|f: FileRun| file_pages(f));
    let mut out: Vec<ProcessedFile> = Vec::new();
    let mut all: Vec<PreviewPage> = Vec::new();
    let mut written: Vec<String> = Vec::new();
    let mut errors: Vec<L10n> = Vec::new();
    let mut i: usize = 0;
    while i < files.len()
        invariant
            i <= files@.len(),
            forall|k: int|
                0 <= k < files@.len() ==> writes_match(#[trigger] files@[k]) && !(files@[k].conversion is Unsupported),
            fw == files@.map_values(|f: FileRun| file_written(f)),
            fe == files@.map_values(|f: FileRun| textual_errs(f)),
            fp == files@.map_values(|f: FileRun| file_pages(f)),
            out@.len() == i,
            forall|k: int|
                0 <= k < i ==> processed_matches(
                    #[trigger] out@[k],
                    files@[k],
                    textual_msg(files@[k]) is None,
                    textual_msg(files@[k]),
                ),
            crate::text::views_of(written@) == fw.take(i as int).flatten_alt(),
            msgs_view(errors@) == fe.take(i as int).flatten_alt(),
            pages_view(all@) == fp.take(i as int).flatten_alt(),
        decreases files@.len() - i,
    {
        proof {
            lemma_flat_step(fw, i as int);
            lemma_flat_step(fe, i as int);
            lemma_flat_step(fp, i as int);
        }
        let f = &files[i];
        assert(writes_match(files@[i as int]) && !(files@[i as int].conversion is Unsupported));
        match &f.conversion {
            Conversion::Pages(pages) => {
                let last = record_writes(pages, &f.writes, &mut written, &mut errors);
                let ghost a0 = pages_view(all@);
                let mut j: usize = 0;
                while j < pages.len()
                    invariant
                        j <= pages@.len(),
                        pages_view(all@) == a0 + pages_view(pages@).take(j as int),
                    decreases pages@.len() - j,
                {
                    let ghost before = pages_view(all@);
                    all.push(pages[j].copy());
                    assert(pages_view(all@) =~= before.push(pages@[j as int]@));
                    assert(pages_view(pages@).take(j as int + 1) =~= pages_view(pages@).take(j as int).push(
                        pages@[j as int]@,
                    ));
                    j += 1;
                }
                assert(pages_view(pages@).take(j as int) =~= pages_view(pages@));
                let ok = last.is_none();
                out.push(ProcessedFile { path: owned(f.path.as_str()), ok, message: last, pages: copy_pages(pages) });
            },
            Conversion::Failed(d) => {
                let m = file_err(f.path.as_str(), d.as_str());
                let ghost before = msgs_view(errors@);
                errors.push(m.copy());
                assert(msgs_view(errors@) =~= before + seq![m@]);
                let none: Vec<PreviewPage> = Vec::new();
                assert(pages_view(none@) =~= Seq::empty());
                out.push(ProcessedFile { path: owned(f.path.as_str()), ok: false, message: Some(m), pages: none });
            },
            Conversion::Unsupported => {},
        }
        assert(crate::text::views_of(written@) =~= fw.take(i as int + 1).flatten_alt());
        assert(msgs_view(errors@) =~= fe.take(i as int + 1).flatten_alt());
        assert(pages_view(all@) =~= fp.take(i as int + 1).flatten_alt());
        i += 1;
    }
    assert(fw.take(i as int) =~= fw);
    assert(fe.take(i as int) =~= fe);
    assert(fp.take(i as int) =~= fp);
    let summary = L10n::new("factory.writtenN").p("factory", factory).p("n", dec_string(written.len() as u64).as_str());
    assert(summary@.1 =~= seq![("factory"@, factory@), ("n"@, dec_seq(written@.len()))]);
    let sample = sample_of(&all);
    PreviewResult { factory: owned(factory), summary, sample, total: all.len(), written, errors, files: out }
}


/// What capturing one file into the inbox gave.
#[derive(Debug)]
pub enum Capture {
    /// gbrain succeeded: what it printed (the new page's slug).
    Captured(String),
    /// gbrain failed: what it printed on standard error.
    Refused(String),
    /// gbrain could not be started: why.
    NotStarted(String),
}

/// One file captured into the inbox.
#[derive(Debug)]
pub struct InboxRun {
    pub path: String,
    pub capture: Capture,
}

/// The last component of each path (`Path::file_name`), in order.
pub fn file_names(paths: &Vec<String>) -> (r: Vec<Option<String>>)
    ensures
        r@.len() == paths@.len(),
{
    let mut r: Vec<Option<String>> = Vec::new();
    let mut i: usize = 0;
    while i < paths.len()
        invariant
            i <= paths.len(),
            r@.len() == i,
        decreases paths.len() - i,
    {
        r.push(crate::app_config::file_name_of(paths[i].as_str()));
        i += 1;
    }
    r
}

/// The written entry of a captured file: the slug gbrain printed, or the path when it printed none.
pub open spec fn inbox_written(run: InboxRun) -> Seq<Seq<char>> {
    match run.capture {
        Capture::Captured(out) => if trim_spec(out@).len() == 0 {
            seq![run.path@]
        } else {
            seq![trim_spec(out@)]
        },
        _ => Seq::empty(),
    }
}

/// The preview of a captured file: its slug under `inbox/`, named after the file (`note` when the
/// path has no file name), with no markdown.
pub open spec fn inbox_page(run: InboxRun, name: Option<String>) -> Seq<(Seq<char>, Seq<char>, Seq<char>, Seq<char>)> {
    match run.capture {
        Capture::Captured(out) => seq![
            (trim_spec(out@), "inbox/"@, match name {
                Some(n) => n@,
                None => "note"@,
            }, Seq::<char>::empty()),
        ],
        _ => Seq::empty(),
    }
}

/// The error of a file that gbrain did not capture.
pub open spec fn inbox_err(run: InboxRun) -> Seq<L10nV> {
    match run.capture {
        Capture::Captured(_) => Seq::empty(),
        Capture::Refused(e) => seq![file_err_spec(run.path@, trim_spec(e@))],
        Capture::NotStarted(e) => seq![file_err_spec(run.path@, e@)],
    }
}

pub open spec fn inbox_pages(runs: Seq<InboxRun>, names: Seq<Option<String>>) -> Seq<(Seq<char>, Seq<char>, Seq<char>, Seq<char>)>
    decreases runs.len(),
{
    if runs.len() == 0 {
        Seq::empty()
    } else {
        inbox_pages(runs.drop_last(), names) + inbox_page(runs.last(), names[runs.len() - 1])
    }
}

/// The result of capturing files into the inbox; `names[i]` is the file name of the `i`-th path.
pub fn inbox_result(runs: &Vec<InboxRun>, names: &Vec<Option<String>>) -> (r: PreviewResult)
    requires
        names@.len() == runs@.len(),
    ensures
        r.factory@ == "inbox"@,
        crate::text::views_of(r.written@) == runs@.map_values(|x: InboxRun| inbox_written(x)).flatten_alt(),
        pages_view(r.sample@) == inbox_pages(runs@, names@),
        msgs_view(r.errors@) == runs@.map_values(|x: InboxRun| inbox_err(x)).flatten_alt(),
        r.total == r.written@.len(),
        r.summary@ == ("factory.inboxCaptured"@, seq![("n"@, dec_seq(r.written@.len()))]),
        r.files@.len() == 0,
{
    let ghost fw = runs@.map_values(|x: InboxRun| inbox_written(x));
    let ghost fe = runs@.map_values(|x: InboxRun| inbox_err(x));
    let mut sample: Vec<PreviewPage> = Vec::new();
    let mut written: Vec<String> = Vec::new();
    let mut errors: Vec<L10n> = Vec::new();
    let mut i: usize = 0;
    while i < runs.len()
        invariant
            i <= runs@.len(),
            names@.len() == runs@.len(),
            fw == runs@.map_values(|x: InboxRun| inbox_written(x)),
            fe == runs@.map_values(|x: InboxRun| inbox_err(x)),
            crate::text::views_of(written@) == fw.take(i as int).flatten_alt(),
            msgs_view(errors@) == fe.take(i as int).flatten_alt(),
            pages_view(sample@) == inbox_pages(runs@.take(i as int), names@),
        decreases runs@.len() - i,
    {
        proof {
            lemma_flat_step(fw, i as int);
            lemma_flat_step(fe, i as int);
            assert(runs@.take(i as int + 1).drop_last() =~= runs@.take(i as int));
        }
        let run = &runs[i];
        match &run.capture {
            Capture::Captured(out) => {
                let slug = trim(out.as_str());
                let w = if slug.as_str().is_empty() { owned(run.path.as_str()) } else { owned(slug.as_str()) };
                let ghost wb = crate::text::views_of(written@);
                written.push(w);
                assert(crate::text::views_of(written@) =~= wb + inbox_written(*run));
                let name = match &names[i] {
                    Some(n) => owned(n.as_str()),
                    None => owned("note"),
                };
                let ghost sb = pages_view(sample@);
                sample.push(PreviewPage { slug, target_dir: owned("inbox/"), name, markdown: String::new() });
                assert(pages_view(sample@) =~= sb + inbox_page(*run, names@[i as int]));
            },
            Capture::Refused(e) => {
                let t = trim(e.as_str());
                let m = file_err(run.path.as_str(), t.as_str());
                let ghost eb = msgs_view(errors@);
                errors.push(m);
                assert(msgs_view(errors@) =~= eb + inbox_err(*run));
                assert(pages_view(sample@) =~= pages_view(sample@) + inbox_page(*run, names@[i as int]));
            },
            Capture::NotStarted(e) => {
                let m = file_err(run.path.as_str(), e.as_str());
                let ghost eb = msgs_view(errors@);
                errors.push(m);
                assert(msgs_view(errors@) =~= eb + inbox_err(*run));
                assert(pages_view(sample@) =~= pages_view(sample@) + inbox_page(*run, names@[i as int]));
            },
        }
        assert(crate::text::views_of(written@) =~= fw.take(i as int + 1).flatten_alt());
        assert(msgs_view(errors@) =~= fe.take(i as int + 1).flatten_alt());
        i += 1;
    }
    assert(fw.take(i as int) =~= fw);
    assert(fe.take(i as int) =~= fe);
    assert(runs@.take(i as int) =~= runs@);
    let total = written.len();
    let summary = L10n::new("factory.inboxCaptured").p("n", dec_string(total as u64).as_str());
    assert(summary@.1 =~= seq![("n"@, dec_seq(total as nat))]);
    PreviewResult { factory: owned("inbox"), summary, sample, total, written, errors, files: Vec::new() }
}

pub open spec fn write_pages_view(s: Seq<WritePage>) -> Seq<(Seq<char>, Seq<char>, Seq<char>, Seq<char>)> {
    s.map_values(|p: WritePage| (p.slug@, p.target_dir@, Seq::<char>::empty(), p.markdown@))
}

/// The result of writing edited pages again: `writes[i]` is where page `i` was written, or why
/// not; the files written and one `factory.fileError` per page not written, in order.
pub fn write_pages_core(pages: &Vec<WritePage>, writes: &Vec<Result<String, String>>) -> (r: WriteResult)
    requires
        writes@.len() == pages@.len(),
    ensures
        crate::text::views_of(r.written@) == ok_paths(writes@),
        msgs_view(r.errors@) == write_errs(write_pages_view(pages@), writes@),
        r.note is None,
        r.written@.len() + r.errors@.len() == pages@.len(),
{
    let mut pv: Vec<PreviewPage> = Vec::new();
    let mut i: usize = 0;
    while i < pages.len()
        invariant
            i <= pages@.len(),
            pages_view(pv@) == write_pages_view(pages@).take(i as int),
        decreases pages@.len() - i,
    {
        let ghost before = pages_view(pv@);
        let p = &pages[i];
        let name = String::new();
        assert(name@ =~= Seq::<char>::empty());
        pv.push(
            PreviewPage {
                slug: owned(p.slug.as_str()),
                target_dir: owned(p.target_dir.as_str()),
                name,
                markdown: owned(p.markdown.as_str()),
            },
        );
        assert(pages_view(pv@) =~= before.push((p.slug@, p.target_dir@, Seq::<char>::empty(), p.markdown@)));
        assert(write_pages_view(pages@).take(i as int + 1) =~= write_pages_view(pages@).take(i as int).push(
            (p.slug@, p.target_dir@, Seq::<char>::empty(), p.markdown@),
        ));
        i += 1;
    }
    assert(write_pages_view(pages@).take(i as int) =~= write_pages_view(pages@));
    let mut written: Vec<String> = Vec::new();
    let mut errors: Vec<L10n> = Vec::new();
    assert(crate::text::views_of(written@) =~= Seq::empty());
    assert(msgs_view(errors@) =~= Seq::empty());
    let _ = record_writes(&pv, writes, &mut written, &mut errors);
    assert(crate::text::views_of(written@) =~= ok_paths(writes@));
    assert(msgs_view(errors@) =~= write_errs(write_pages_view(pages@), writes@));
    proof {
        lemma_pages_accounted(write_pages_view(pages@), writes@);
        assert(crate::text::views_of(written@).len() == written@.len());
        assert(msgs_view(errors@).len() == errors@.len());
    }
    WriteResult { written, errors, note: None }
}

// ---------------------------------------------------------------------------
// Review events
// ---------------------------------------------------------------------------

pub open spec fn opt_view_str(o: Option<String>) -> Option<Seq<char>> {
    match o {
        Some(s) => Some(s@),
        None => None,
    }
}

/// The first 800 characters of a page (or all of it).
pub open spec fn preview_of(markdown: Seq<char>) -> Seq<char> {
    if markdown.len() <= 800 {
        markdown
    } else {
        markdown.take(800)
    }
}

/// The review event of a written page: routed to the brain `brain`, titled by its slug, with the
/// first 800 characters and the page's directory as category.
pub open spec fn is_factory_event(
    e: InboundEvent,
    brain: Option<Seq<char>>,
    slug: Seq<char>,
    dir: Seq<char>,
    markdown: Seq<char>,
) -> bool {
    &&& e.kind == EventKind::FactoryWritten
    &&& e.source@ == "factory"@
    &&& opt_view_str(e.brain_id) == brain
    &&& e.employee_id is None
    &&& e.title@ == slug
    &&& e.content@ == preview_of(markdown)
    &&& e.external_ref is None
    &&& e.occurred_at is None
    &&& e.reply_to is None
    &&& opt_view_str(e.category) == Some(dir)
}

/// The review event of a written page.
pub fn factory_event(brain_id: &Option<String>, slug: &str, target_dir: &str, markdown: &str) -> (r: InboundEvent)
    ensures
        is_factory_event(r, opt_view_str(*brain_id), slug@, target_dir@, markdown@),
{
    let content = crate::text::take_chars(markdown, 800);
    InboundEvent {
        kind: EventKind::FactoryWritten,
        source: owned("factory"),
        brain_id: match brain_id {
            Some(b) => Some(owned(b.as_str())),
            None => None,
        },
        employee_id: None,
        title: owned(slug),
        content: crate::text::string_of(&content),
        external_ref: None,
        occurred_at: None,
        reply_to: None,
        category: Some(owned(target_dir)),
    }
}

/// The review events of written pages, routed to the active brain; none when reviews are off.
pub fn emit_factory_events(cfg: &AppConfig, pages: &Vec<WritePage>) -> (r: Vec<InboundEvent>)
    ensures
        !cfg.event_review_enabled ==> r@.len() == 0,
        cfg.event_review_enabled ==> r@.len() == pages@.len(),
        cfg.event_review_enabled ==> forall|i: int|
            0 <= i < r@.len() ==> is_factory_event(
                #[trigger] r@[i],
                opt_view_str(cfg.active_brain_id),
                pages@[i].slug@,
                pages@[i].target_dir@,
                pages@[i].markdown@,
            ),
{
    let mut r: Vec<InboundEvent> = Vec::new();
    if !cfg.event_review_enabled {
        return r;
    }
    let mut i: usize = 0;
    while i < pages.len()
        invariant
            i <= pages@.len(),
            r@.len() == i,
            forall|k: int|
                0 <= k < i ==> is_factory_event(
                    #[trigger] r@[k],
                    opt_view_str(cfg.active_brain_id),
                    pages@[k].slug@,
                    pages@[k].target_dir@,
                    pages@[k].markdown@,
                ),
        decreases pages@.len() - i,
    {
        let p = &pages[i];
        r.push(factory_event(&cfg.active_brain_id, p.slug.as_str(), p.target_dir.as_str(), p.markdown.as_str()));
        i += 1;
    }
    r
}


// ---------------------------------------------------------------------------
// Rebuilding the company pages
// ---------------------------------------------------------------------------

/// Whether the company page already on disk (its text, when it exists and could be read) is
/// frozen: enriched by hand, so not overwritten.
pub fn is_frozen(existing: &Option<String>) -> (r: bool)
    ensures
        r == (existing matches Some(t) && enriched_spec(t@)),
{
    match existing {
        Some(t) => is_enriched(t.as_str()),
        None => false,
    }
}

/// Whether a markdown file of the companies directory, with stem `stem` and text `existing` (when
/// it could be read), is removed by a clean rebuild: no page of this build has its slug and it
/// was not enriched by hand.
pub fn removable(stem: &str, pages: &Vec<CompanyPage>, existing: &Option<String>) -> (r: bool)
    ensures
        r == (!(exists|i: int| 0 <= i < pages@.len() && #[trigger] pages@[i].slug@ == stem@) && !(existing matches Some(
            t,
        ) && enriched_spec(t@))),
{
    let mut i: usize = 0;
    while i < pages.len()
        invariant
            i <= pages@.len(),
            forall|k: int| 0 <= k < i ==> #[trigger] pages@[k].slug@ != stem@,
        decreases pages@.len() - i,
    {
        if str_eq(pages[i].slug.as_str(), stem) {
            return false;
        }
        i += 1;
    }
    !is_frozen(existing)
}

/// What became of one company page in a rebuild.
#[derive(Debug)]
pub enum PageWrite {
    /// Left alone: enriched by hand.
    Frozen,
    /// Written.
    Written,
    /// Not written: why.
    Failed(String),
}

pub open spec fn frozen_count(ws: Seq<PageWrite>) -> nat
    decreases ws.len(),
{
    if ws.len() == 0 {
        0
    } else {
        frozen_count(ws.drop_last()) + if ws.last() is Frozen { 1nat } else { 0 }
    }
}

pub open spec fn rebuilt_written(files: Seq<String>, ws: Seq<PageWrite>) -> Seq<Seq<char>>
    decreases ws.len(),
{
    if ws.len() == 0 {
        Seq::empty()
    } else {
        let rest = rebuilt_written(files, ws.drop_last());
        if ws.last() is Written {
            rest.push(files[ws.len() - 1]@)
        } else {
            rest
        }
    }
}

pub open spec fn rebuilt_errs(files: Seq<String>, ws: Seq<PageWrite>) -> Seq<L10nV>
    decreases ws.len(),
{
    if ws.len() == 0 {
        Seq::empty()
    } else {
        let rest = rebuilt_errs(files, ws.drop_last());
        match ws.last() {
            PageWrite::Failed(e) => rest.push(file_err_spec(files[ws.len() - 1]@, e@)),
            _ => rest,
        }
    }
}

/// The note of a company rebuild: people read, companies, links and frozen pages, and with a clean
/// rebuild the stale pages removed.
pub open spec fn rebuilt_note(people: nat, distinct: nat, links: nat, frozen: nat, clean: bool, removed: nat) -> L10nV {
    if clean {
        (
            "factory.companiesRebuiltClean"@,
            seq![
                ("people"@, dec_seq(people)),
                ("distinct"@, dec_seq(distinct)),
                ("links"@, dec_seq(links)),
                ("frozen"@, dec_seq(frozen)),
                ("removed"@, dec_seq(removed)),
            ],
        )
    } else {
        (
            "factory.companiesRebuilt"@,
            seq![
                ("people"@, dec_seq(people)),
                ("distinct"@, dec_seq(distinct)),
                ("links"@, dec_seq(links)),
                ("frozen"@, dec_seq(frozen)),
            ],
        )
    }
}

/// The result of rebuilding the company pages: `files[i]` is the file of page `i` and `writes[i]`
/// what became of it; `removed` counts the stale pages a clean rebuild removed.
pub fn extract_companies_core(
    imp: &CompaniesImport,
    files: &Vec<String>,
    writes: &Vec<PageWrite>,
    clean: bool,
    removed: usize,
) -> (r: WriteResult)
    requires
        files@.len() == writes@.len(),
    ensures
        crate::text::views_of(r.written@) == rebuilt_written(files@, writes@),
        msgs_view(r.errors@) == rebuilt_errs(files@, writes@),
        r.note matches Some(n) && n@ == rebuilt_note(
            imp.people_read as nat,
            imp.distinct as nat,
            imp.total_links as nat,
            frozen_count(writes@),
            clean,
            removed as nat,
        ),
{
    let mut written: Vec<String> = Vec::new();
    let mut errors: Vec<L10n> = Vec::new();
    let mut frozen: usize = 0;
    let mut i: usize = 0;
    while i < writes.len()
        invariant
            i <= writes@.len(),
            files@.len() == writes@.len(),
            frozen as nat == frozen_count(writes@.take(i as int)),
            frozen <= i,
            crate::text::views_of(written@) == rebuilt_written(files@, writes@.take(i as int)),
            msgs_view(errors@) == rebuilt_errs(files@, writes@.take(i as int)),
        decreases writes@.len() - i,
    {
        let ghost t = writes@.take(i as int + 1);
        assert(t.drop_last() =~= writes@.take(i as int));
        assert(t.last() == writes@[i as int]);
        match &writes[i] {
            PageWrite::Frozen => {
                frozen += 1;
            },
            PageWrite::Written => {
                let ghost before = crate::text::views_of(written@);
                written.push(owned(files[i].as_str()));
                assert(crate::text::views_of(written@) =~= before.push(files@[i as int]@));
            },
            PageWrite::Failed(e) => {
                let ghost before = msgs_view(errors@);
                errors.push(file_err(files[i].as_str(), e.as_str()));
                assert(msgs_view(errors@) =~= before.push(file_err_spec(files@[i as int]@, e@)));
            },
        }
        i += 1;
    }
    assert(writes@.take(i as int) =~= writes@);
    let n = L10n::new(if clean { "factory.companiesRebuiltClean" } else { "factory.companiesRebuilt" }).p(
        "people",
        dec_string(imp.people_read as u64).as_str(),
    ).p("distinct", dec_string(imp.distinct as u64).as_str()).p(
        "links",
        dec_string(imp.total_links as u64).as_str(),
    ).p("frozen", dec_string(frozen as u64).as_str());
    let note = if clean {
        n.p("removed", dec_string(removed as u64).as_str())
    } else {
        n
    };
    assert(note@.1 =~= rebuilt_note(
        imp.people_read as nat,
        imp.distinct as nat,
        imp.total_links as nat,
        frozen as nat,
        clean,
        removed as nat,
    ).1);
    WriteResult { written, errors, note: Some(note) }
}

// ---------------------------------------------------------------------------
// Hand-written pages
// ---------------------------------------------------------------------------

/// The fallback slug of an untitled page of a directory: `untitled-` and the directory without
/// trailing slashes.
pub open spec fn untitled_spec(dir: Seq<char>) -> Seq<char> {
    "untitled-"@ + dir.take(dir.len() - trail_of(dir, '/'))
}

/// The fallback slug of an untitled page of a directory.
pub fn untitled_fallback(target_dir: &str) -> (r: String)
    ensures
        r@ == untitled_spec(target_dir@),
{
    let v = crate::text::chars_of(target_dir);
    let mut j: usize = v.len();
    assert(v@.take(v.len() as int) =~= v@);
    while j > 0 && v[j - 1] == '/'
        invariant
            j <= v@.len(),
            v@ == target_dir@,
            trail_of(v@, '/') == (v@.len() - j) + trail_of(v@.take(j as int), '/'),
        decreases j,
    {
        assert(v@.take(j as int).drop_last() =~= v@.take(j as int - 1));
        j -= 1;
    }
    assert(trail_of(v@.take(j as int), '/') == 0) by {
        if j > 0 {
            assert(v@.take(j as int).last() == v@[j as int - 1]);
        }
    }
    let mut r = owned("untitled-");
    let cut = crate::text::slice_chars(&v, 0, j);
    crate::text::push_chars(&mut r, &cut);
    assert(r@ =~= untitled_spec(target_dir@));
    r
}

/// The slug of a saved hand-written page and whether the fallback name was used: a page that has
/// a name keeps it; a new one takes `slugged` (its title made into a slug, or the fallback), and
/// used the fallback when its title is blank.
pub fn authored_slug(existing: Option<&str>, title: &str, slugged: &str) -> (r: (String, bool))
    ensures
        match existing {
            Some(s) if s@.len() > 0 => r.0@ == s@ && !r.1,
            _ => r.0@ == slugged@ && r.1 == (trim_spec(title@).len() == 0),
        },
{
    match existing {
        Some(s) if !s.is_empty() => (owned(s), false),
        _ => {
            let t = trim(title);
            (owned(slugged), t.as_str().is_empty())
        },
    }
}

/// The review event of a saved hand-written page, when reviews are on.
pub fn authored_event(cfg: &AppConfig, slug: &str, target_dir: &str, written: &str) -> (r: Option<InboundEvent>)
    ensures
        cfg.event_review_enabled ==> (r matches Some(e) && is_factory_event(
            e,
            opt_view_str(cfg.active_brain_id),
            slug@,
            target_dir@,
            written@,
        )),
        !cfg.event_review_enabled ==> r is None,
{
    if cfg.event_review_enabled {
        Some(factory_event(&cfg.active_brain_id, slug, target_dir, written))
    } else {
        None
    }
}


/// Every page of a run is accounted for: it is either among the files written or reported by one
/// error, never both and never neither.
pub proof fn lemma_pages_accounted(ps: Seq<(Seq<char>, Seq<char>, Seq<char>, Seq<char>)>, ws: Seq<Result<String, String>>)
    ensures
        ok_paths(ws).len() + write_errs(ps, ws).len() == ws.len(),
    decreases ws.len(),
{
    if ws.len() > 0 {
        lemma_pages_accounted(ps, ws.drop_last());
    }
}

} // verus!
