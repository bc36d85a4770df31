//! The `write-note` tool: an employee writes a finished piece as a markdown note into its own
//! output directory (outside the notes repository). Only a single `.md` file name directly under
//! that directory is accepted, nothing is overwritten, and every note carries a frontmatter that
//! names the employee. Failures come back as text for the employee to read. Creating the
//! directory, the containment check on disk and the write happen outside.
use vstd::prelude::*;
use crate::email::{to_lowercase, unicode_lowered};
use crate::text::{chars_of, has_sub, owned, push_chars, push_str, str_eq, string_of, trim, trim_spec};
use crate::tools::ToolSpec;
use crate::app_config::{joined_under, plain_component};
use crate::text::has_suffix;

verus! {

/// The id of the tool (the key of the allow-lists).
pub const TOOL_WRITE_NOTE: &'static str = "write-note";

/// One component of a path, as far as the tool cares.
#[derive(Debug, Clone)]
pub enum PathPart {
    /// A plain name.
    Normal(String),
    /// A prefix, a root, `.` or `..`.
    Other,
}

/// The components of a path (`Path::components`), each told apart as a plain name or not. A path
/// that is one plain component (no separator, no drive colon, not `.` or `..`) is that single
/// normal component; of other paths, which follow the platform's separators and prefixes, nothing
/// is promised.
#[verifier::external_body]
fn path_parts(p: &str) -> (r: Vec<PathPart>)
    ensures
        plain_component(p@) ==> r@.len() == 1 && r@[0] is Normal && r@[0]->Normal_0@ == p@,
{
    std::path::Path::new(p).components().map(|c| match c {
        std::path::Component::Normal(s) => PathPart::Normal(s.to_string_lossy().into_owned()),
        std::path::Component::Prefix(_) => PathPart::Other,
        std::path::Component::RootDir => PathPart::Other,
        std::path::Component::CurDir => PathPart::Other,
        std::path::Component::ParentDir => PathPart::Other,
    }).collect()
}

/// Whether a path is absolute on this platform (`Path::is_absolute`). An absolute path starts
/// with a root (and on Windows also has a prefix), so one plain component never is; of other
/// paths, which depend on the platform, nothing is promised.
#[verifier::external_body]
fn path_is_absolute(p: &str) -> (r: bool)
    ensures
        plain_component(p@) ==> !r,
{
    std::path::Path::new(p).is_absolute()
}

pub open spec fn all_normal(parts: Seq<PathPart>) -> bool {
    forall|i: int| 0 <= i < parts.len() ==> #[trigger] parts[i] is Normal
}

/// `s` holds a path separator of some platform (`/` or `\`).
pub open spec fn has_separator(s: Seq<char>) -> bool {
    s.contains('/') || s.contains('\\')
}

/// The check of a note's file name: no path separator (`/` or `\`, on every platform), not
/// absolute, only plain components, a file name whose lower case ends in `.md` and that does not
/// start with `.`; the name, or why it is refused.
pub open spec fn note_name_spec(
    filename: Seq<char>,
    absolute: bool,
    plain: bool,
    name: Option<Seq<char>>,
) -> Result<Seq<char>, Seq<char>> {
    if has_separator(filename) {
        Err("filename 僅接受單一檔名（不可含路徑分隔）："@ + filename)
    } else if absolute {
        Err("filename 不可為絕對路徑："@ + filename)
    } else if !plain {
        Err("filename 僅接受單一檔名（不可含路徑／..）："@ + filename)
    } else {
        match name {
            None => Err("無效檔名："@ + filename),
            Some(n) => if !crate::text::has_suffix(unicode_lowered(n), ".md"@) {
                Err("僅接受 .md 檔（收到："@ + n + "）"@)
            } else if n.len() > 0 && n[0] == '.' {
                Err("檔名不可以 . 開頭"@)
            } else {
                Ok(n)
            },
        }
    }
}

fn contains_char(s: &str, c: char) -> (r: bool)
    ensures
        r == s@.contains(c),
{
    let v = chars_of(s);
    let mut i: usize = 0;
    while i < v.len()
        invariant
            i <= v.len(),
            v@ == s@,
            forall|k: int| 0 <= k < i ==> v@[k] != c,
        decreases v.len() - i,
    {
        if v[i] == c {
            assert(s@[i as int] == c);
            return true;
        }
        i += 1;
    }
    false
}

/// The check of a note's file name, given the platform's answers: whether the name is absolute,
/// whether all its components are plain names, and its file name.
pub fn check_note_name(
    filename: &str,
    absolute: bool,
    plain: bool,
    name: Option<String>,
) -> (r: Result<String, String>)
    ensures
        match note_name_spec(filename@, absolute, plain, crate::factories::opt_str(name)) {
            Ok(n) => r matches Ok(x) && x@ == n,
            Err(m) => r matches Err(x) && x@ == m,
        },
{
    if contains_char(filename, '/') || contains_char(filename, '\\') {
        let mut m = owned("filename 僅接受單一檔名（不可含路徑分隔）：");
        push_str(&mut m, filename);
        return Err(m);
    }
    if absolute {
        let mut m = owned("filename 不可為絕對路徑：");
        push_str(&mut m, filename);
        return Err(m);
    }
    if !plain {
        let mut m = owned("filename 僅接受單一檔名（不可含路徑／..）：");
        push_str(&mut m, filename);
        return Err(m);
    }
    match name {
        None => {
            let mut m = owned("無效檔名：");
            push_str(&mut m, filename);
            Err(m)
        },
        Some(n) => {
            let low = to_lowercase(n.as_str());
            if !crate::text::ends_with_str(low.as_str(), ".md") {
                let mut m = owned("僅接受 .md 檔（收到：");
                push_str(&mut m, n.as_str());
                push_str(&mut m, "）");
                Err(m)
            } else {
                let v = chars_of(n.as_str());
                if v.len() > 0 && v[0] == '.' {
                    Err(owned("檔名不可以 . 開頭"))
                } else {
                    Ok(n)
                }
            }
        },
    }
}

/// The path of a note: the checked file name joined to the output directory, or why the file name
/// is refused. A name with a separator is refused on every platform; a single plain component is
/// checked by its name alone; of other names (drive prefixes) the platform decides.
fn resolve_path(root: &str, filename: &str) -> (r: Result<String, String>)
    ensures
        has_separator(filename@) ==> (r matches Err(m) && m@ == "filename 僅接受單一檔名（不可含路徑分隔）："@
            + filename@),
        plain_component(filename@) ==> match note_name_spec(filename@, false, true, Some(filename@)) {
            Ok(n) => r matches Ok(p) && joined_under(root@, n, p@),
            Err(m) => r matches Err(x) && x@ == m,
        },
        r matches Ok(p) ==> exists|absolute: bool, plain: bool, n: Seq<char>|
            #[trigger] note_name_spec(filename@, absolute, plain, Some(n)) == Ok::<Seq<char>, Seq<char>>(n)
                && has_suffix(p@, n),
{
    let parts = path_parts(filename);
    let mut plain = true;
    let mut i: usize = 0;
    while i < parts.len()
        invariant
            i <= parts@.len(),
            plain == all_normal(parts@.take(i as int)),
        decreases parts@.len() - i,
    {
        assert(parts@.take(i as int + 1).last() == parts@[i as int]);
        match &parts[i] {
            PathPart::Normal(_) => {},
            PathPart::Other => {
                plain = false;
            },
        }
        assert(all_normal(parts@.take(i as int + 1)) == (all_normal(parts@.take(i as int)) && parts@[i as int] is Normal))
            by {
            let t = parts@.take(i as int + 1);
            if all_normal(parts@.take(i as int)) && parts@[i as int] is Normal {
                assert forall|k: int| 0 <= k < t.len() implies #[trigger] t[k] is Normal by {
                    if k < i as int {
                        assert(t[k] == parts@.take(i as int)[k]);
                    }
                }
            }
            if all_normal(t) {
                assert(t[i as int] is Normal);
                assert forall|k: int| 0 <= k < i as int implies #[trigger] parts@.take(i as int)[k] is Normal by {
                    assert(t[k] == parts@.take(i as int)[k]);
                }
            }
        }
        i += 1;
    }
    assert(parts@.take(parts@.len() as int) =~= parts@);
    let absolute = path_is_absolute(filename);
    let name = crate::app_config::file_name_of(filename);
    let ghost name_v = crate::factories::opt_str(name);
    let checked = check_note_name(filename, absolute, plain, name);
    match checked {
        Ok(n) => {
            let p = crate::app_config::path_join(root, n.as_str());
            proof {
                assert(note_name_spec(filename@, absolute, plain, Some(n@)) == Ok::<Seq<char>, Seq<char>>(n@));
            }
            Ok(p)
        },
        Err(m) => Err(m),
    }
}

/// A file name without all its trailing `.md` (`trim_end_matches(".md")`).
pub open spec fn strip_md(s: Seq<char>) -> Seq<char>
    decreases s.len(),
{
    if s.len() >= 3 && s[s.len() - 3] == '.' && s[s.len() - 2] == 'm' && s[s.len() - 1] == 'd' {
        strip_md(s.take(s.len() - 3))
    } else {
        s
    }
}

fn strip_md_exec(s: &str) -> (r: String)
    ensures
        r@ == strip_md(s@),
{
    let v = chars_of(s);
    let mut j: usize = v.len();
    assert(v@.take(j as int) =~= v@);
    while j >= 3 && v[j - 3] == '.' && v[j - 2] == 'm' && v[j - 1] == 'd'
        invariant
            j <= v@.len(),
            strip_md(s@) == strip_md(v@.take(j as int)),
            v@ == s@,
        decreases j,
    {
        assert(v@.take(j as int).take(j - 3) =~= v@.take(j - 3));
        j -= 3;
    }
    let t = crate::text::slice_chars(&v, 0, j);
    assert(t@ =~= v@.take(j as int));
    string_of(&t)
}

/// A note's title line: the title, or the file name without `.md` when the title is blank.
pub open spec fn title_line_spec(filename: Seq<char>, title: Seq<char>) -> Seq<char> {
    if title.len() == 0 {
        strip_md(filename)
    } else {
        title
    }
}

/// A line break turned into a space.
pub open spec fn one_line(s: Seq<char>) -> Seq<char> {
    s.map_values(|c: char| if c == '\n' { ' ' } else { c })
}

/// The file of a note: a frontmatter naming the employee, the creation time and the title (on one
/// line), then the content.
pub open spec fn file_body_spec(employee_id: Seq<char>, title: Seq<char>, content: Seq<char>, created_at: Seq<char>) -> Seq<
    char,
> {
    "---\norigin: operoid-employee\nproduced_by: "@ + employee_id + "\ncreated_at: "@ + created_at + "\ntitle: "@
        + one_line(title) + "\n---\n\n"@ + content + "\n"@
}

/// The file of a note.
pub fn file_body(employee_id: &str, title: &str, content: &str, created_at: &str) -> (r: String)
    ensures
        r@ == file_body_spec(employee_id@, title@, content@, created_at@),
{
    let mut s = owned("---\norigin: operoid-employee\nproduced_by: ");
    push_str(&mut s, employee_id);
    push_str(&mut s, "\ncreated_at: ");
    push_str(&mut s, created_at);
    push_str(&mut s, "\ntitle: ");
    let v = chars_of(title);
    let mut w: Vec<char> = Vec::new();
    let mut i: usize = 0;
    while i < v.len()
        invariant
            i <= v.len(),
            v@ == title@,
            w@ == one_line(title@).take(i as int),
        decreases v.len() - i,
    {
        w.push(if v[i] == '\n' { ' ' } else { v[i] });
        assert(w@ =~= one_line(title@).take(i as int + 1));
        i += 1;
    }
    assert(w@ =~= one_line(title@));
    push_chars(&mut s, &w);
    push_str(&mut s, "\n---\n\n");
    push_str(&mut s, content);
    push_str(&mut s, "\n");
    s
}

/// A note ready to be written: where, and its title line.
#[derive(Debug, Clone)]
pub struct NoteDraft {
    pub path: String,
    pub title_line: String,
}

/// The `write-note` tool of one employee.
#[derive(Debug, Clone)]
pub struct WriteNoteTool {
    spec: ToolSpec,
    root: String,
    employee_id: String,
}

impl WriteNoteTool {
    pub closed spec fn root_spec(&self) -> Seq<char> {
        self.root@
    }

    pub closed spec fn employee_spec(&self) -> Seq<char> {
        self.employee_id@
    }

    pub closed spec fn tool_spec(&self) -> ToolSpec {
        self.spec
    }

    /// The tool of employee `employee_id`, writing under `root`.
    pub fn new(root: &str, employee_id: &str) -> (r: WriteNoteTool)
        ensures
            r.root_spec() == root@,
            r.employee_spec() == employee_id@,
            r.tool_spec().id@ == TOOL_WRITE_NOTE@,
    {
        WriteNoteTool {
            spec: ToolSpec {
                id: owned(TOOL_WRITE_NOTE),
                description: owned(
                    "把一份完整產出寫成 markdown 筆記檔（沙箱：員工專屬產出目錄；不可覆寫既有檔）。params: {\"filename\":\"report.md\",\"title\":\"標題\",\"content\":\"全文（markdown）\"}",
                ),
            },
            root: owned(root),
            employee_id: owned(employee_id),
        }
    }

    /// The tool's specification.
    pub fn spec(&self) -> (r: &ToolSpec)
        ensures
            *r == self.tool_spec(),
    {
        &self.spec
    }

    /// The output directory.
    pub fn root(&self) -> (r: &str)
        ensures
            r@ == self.root_spec(),
    {
        self.root.as_str()
    }

    /// The employee.
    pub fn employee_id(&self) -> (r: &str)
        ensures
            r@ == self.employee_spec(),
    {
        self.employee_id.as_str()
    }

    /// The checks of a call before anything touches the disk: the file name and title trimmed, a
    /// file name and a content that is not blank, a file name that the platform accepts; the draft
    /// (with the title, or the file name without `.md` when the title is blank), or why the call
    /// fails.
    pub fn draft(&self, filename: &str, title: &str, content: &str) -> (r: Result<NoteDraft, String>)
        ensures
            trim_spec(filename@).len() == 0 ==> (r matches Err(m) && m@ == "缺少 filename"@),
            trim_spec(filename@).len() > 0 && trim_spec(content@).len() == 0 ==> (r matches Err(m) && m@
                == "缺少 content"@),
            trim_spec(filename@).len() > 0 && trim_spec(content@).len() > 0 && has_separator(trim_spec(filename@))
                ==> (r matches Err(m) && m@ == "filename 僅接受單一檔名（不可含路徑分隔）："@ + trim_spec(filename@)),
            trim_spec(filename@).len() > 0 && trim_spec(content@).len() > 0 && plain_component(trim_spec(filename@))
                ==> match note_name_spec(trim_spec(filename@), false, true, Some(trim_spec(filename@))) {
                Ok(n) => r matches Ok(d) && joined_under(self.root_spec(), n, d.path@),
                Err(m) => r matches Err(x) && x@ == m,
            },
            r matches Ok(d) ==> exists|absolute: bool, plain: bool, n: Seq<char>|
                #[trigger] note_name_spec(trim_spec(filename@), absolute, plain, Some(n)) == Ok::<Seq<char>, Seq<
                    char,
                >>(n) && has_suffix(d.path@, n),
            r matches Ok(d) ==> trim_spec(filename@).len() > 0 && trim_spec(content@).len() > 0 && d.title_line@
                == title_line_spec(trim_spec(filename@), trim_spec(title@)),
    {
        let f = trim(filename);
        let t = trim(title);
        if f.as_str().is_empty() {
            return Err(owned("缺少 filename"));
        }
        let c = trim(content);
        if c.as_str().is_empty() {
            return Err(owned("缺少 content"));
        }
        let path = match resolve_path(self.root.as_str(), f.as_str()) {
            Ok(p) => p,
            Err(e) => return Err(e),
        };
        let title_line = if t.as_str().is_empty() { strip_md_exec(f.as_str()) } else { t };
        Ok(NoteDraft { path, title_line })
    }
}

/// What the tool answers when the note was not written.
pub fn failure_text(msg: &str) -> (r: String)
    ensures
        r@ == "寫入失敗："@ + msg@,
{
    let mut s = owned("寫入失敗：");
    push_str(&mut s, msg);
    s
}

/// What the tool answers when the note was written.
pub fn written_text(path: &str) -> (r: String)
    ensures
        r@ == "已寫入筆記："@ + path@,
{
    let mut s = owned("已寫入筆記：");
    push_str(&mut s, path);
    s
}

} // verus!
