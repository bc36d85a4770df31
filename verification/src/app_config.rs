//! The studio's own settings (`AppConfig`): the brain registry, the active brain and the
//! idempotent migration that seeds the default brain and absorbs the retired single-home
//! override. Loading and saving the settings file happen outside.
use vstd::prelude::*;
use crate::l10n::AppError;
use crate::prereq::PrereqCache;
use crate::text::{
    has_prefix, has_suffix, after_last, after_last_exec, chars_of, lower_char, owned, push_str, str_eq, string_of, trim,
    trim_char, trim_char_spec, trim_spec,
};

verus! {

/// The fixed id of the default brain (`~/.gbrain`).
pub const DEFAULT_BRAIN_ID: &'static str = "__default__";

/// The interface languages that `locale` may pin.
pub open spec fn locale_supported(l: Seq<char>) -> bool {
    l == "zh-TW"@ || l == "zh-CN"@ || l == "en"@
}

pub fn supported_locales() -> (r: Vec<&'static str>)
    ensures
        r@.len() == 3 && r@[0]@ == "zh-TW"@ && r@[1]@ == "zh-CN"@ && r@[2]@ == "en"@,
{
    vec!["zh-TW", "zh-CN", "en"]
}

fn is_supported_locale(l: &str) -> (r: bool)
    ensures
        r == locale_supported(l@),
{
    str_eq(l, "zh-TW") || str_eq(l, "zh-CN") || str_eq(l, "en")
}

/// A registered brain: `gbrain_home` `None` is the default brain, `Some(parent)` an isolated
/// brain whose `.gbrain` lives in `parent`.
#[derive(Debug, Clone)]
pub struct BrainEntry {
    pub id: String,
    pub name: String,
    pub gbrain_home: Option<String>,
}

pub struct BrainView {
    pub id: Seq<char>,
    pub name: Seq<char>,
    pub home: Option<Seq<char>>,
}

pub open spec fn opt_view(o: Option<String>) -> Option<Seq<char>> {
    match o {
        Some(s) => Some(s@),
        None => None,
    }
}

impl View for BrainEntry {
    type V = BrainView;

    open spec fn view(&self) -> BrainView {
        BrainView { id: self.id@, name: self.name@, home: opt_view(self.gbrain_home) }
    }
}

pub open spec fn default_brain_view() -> BrainView {
    BrainView { id: DEFAULT_BRAIN_ID@, name: "預設腦"@, home: None }
}

pub open spec fn brains_view(v: Seq<BrainEntry>) -> Seq<BrainView> {
    v.map_values(|b: BrainEntry| b@)
}

/// A single path component on every platform: not empty, not `.` or `..`, and without a
/// separator (`/` or `\`).
pub open spec fn single_component(s: Seq<char>) -> bool {
    &&& s.len() > 0
    &&& !(s.len() == 1 && s[0] == '.')
    &&& !(s.len() == 2 && s[0] == '.' && s[1] == '.')
    &&& forall|i: int| 0 <= i < s.len() ==> s[i] != '/' && s[i] != '\\'
}

/// A single plain path component: a single component without a drive colon either.
pub open spec fn plain_component(s: Seq<char>) -> bool {
    &&& single_component(s)
    &&& forall|i: int| 0 <= i < s.len() ==> s[i] != ':'
}

/// The start of a Windows verbatim path (`\\?\`), which `PathBuf::push` normalizes.
pub open spec fn verbatim_start() -> Seq<char> {
    seq!['\\', '\\', '?', '\\']
}

/// `path` is `name` joined under `root`: it ends with the name and, unless `root` is a Windows
/// verbatim path, starts with `root`.
pub open spec fn joined_under(root: Seq<char>, name: Seq<char>, path: Seq<char>) -> bool {
    &&& has_suffix(path, name)
    &&& !has_prefix(root, verbatim_start()) ==> has_prefix(path, root)
}

/// `Path::new(a).join(b)` as a string (`Path::join`, `PathBuf::push`). Its documentation says
/// that a relative path extends the base and that a path with a prefix (a drive such as `C:`)
/// replaces it, the base's verbatim form being normalized of `.` and `..` only: so a single
/// component `b` ends the result either way, and a plain one (no prefix) extends `a`, so the
/// result starts with `a` unless `a` is a Windows verbatim path. The separator put between them
/// is the platform's and is left unsaid.
#[verifier::external_body]
pub(crate) fn path_join(a: &str, b: &str) -> (r: String)
    ensures
        single_component(b@) ==> has_suffix(r@, b@),
        plain_component(b@) && !has_prefix(a@, verbatim_start()) ==> has_prefix(r@, a@),
{
    std::path::Path::new(a).join(b).to_string_lossy().into_owned()
}

/// The user's home directory (`dirs::home_dir`); depends on the environment, so nothing is
/// promised of it.
#[verifier::external_body]
fn home_dir_string() -> Option<String> {
    dirs::home_dir().map(|h| h.to_string_lossy().into_owned())
}

/// Whether `a/.gbrain` and `b/.gbrain` are the same path (`Path` equality, which follows the
/// platform's separators); equal strings always are.
#[verifier::external_body]
fn same_dot_gbrain(a: &str, b: &str) -> (r: bool)
    ensures
        a@ == b@ ==> r,
{
    std::path::Path::new(a).join(".gbrain") == std::path::Path::new(b).join(".gbrain")
}

/// The last component of a path (`Path::file_name`). A component is a non-empty piece of the path
/// between separators, so a path without a separator has a file name without one; a path that is one
/// plain component is its own file name. Of other paths, which follow the platform's separators
/// and prefixes, nothing more is promised.
#[verifier::external_body]
pub(crate) fn file_name_of(p: &str) -> (r: Option<String>)
    ensures
        plain_component(p@) ==> r is Some && r->0@ == p@,
        r is Some ==> r->0@.len() > 0,
        r is Some && !p@.contains('/') && !p@.contains('\\') ==> !r->0@.contains('/') && !r->0@.contains('\\'),
{
    std::path::Path::new(p).file_name().map(|s| s.to_string_lossy().into_owned())
}

/// The platform's path separator (`std::path::MAIN_SEPARATOR`); nothing is promised of it.
#[verifier::external_body]
pub(crate) fn main_separator() -> char {
    std::path::MAIN_SEPARATOR
}

impl BrainEntry {
    /// The default brain (`~/.gbrain`).
    pub fn default_brain() -> (r: BrainEntry)
        ensures
            r@ == default_brain_view(),
    {
        BrainEntry { id: owned(DEFAULT_BRAIN_ID), name: owned("預設腦"), gbrain_home: None }
    }

    /// The `GBRAIN_HOME` value for child processes; `None` leaves it unset.
    pub fn env_home(&self) -> (r: Option<&str>)
        ensures
            match r {
                Some(h) => self.gbrain_home matches Some(g) && h@ == g@,
                None => self.gbrain_home is None,
            },
    {
        match &self.gbrain_home {
            Some(h) => Some(h.as_str()),
            None => None,
        }
    }

    /// The brain's `.gbrain` directory: `<home>/.gbrain`, or `~/.gbrain` for the default brain
    /// (empty when the home directory is unknown).
    pub fn dot_gbrain_path(&self) -> (r: String)
        ensures
            self.gbrain_home matches Some(h) ==> has_suffix(r@, ".gbrain"@) && (!has_prefix(
                h@,
                verbatim_start(),
            ) ==> has_prefix(r@, h@)),
            self.gbrain_home is None ==> r@.len() == 0 || has_suffix(r@, ".gbrain"@),
    {
        proof {
            reveal_strlit(".gbrain");
        }
        match &self.gbrain_home {
            Some(h) => path_join(h.as_str(), ".gbrain"),
            None => match home_dir_string() {
                Some(home) => path_join(home.as_str(), ".gbrain"),
                None => String::new(),
            },
        }
    }

    pub fn is_default(&self) -> (r: bool)
        ensures
            r == (self.id@ == DEFAULT_BRAIN_ID@),
    {
        str_eq(self.id.as_str(), DEFAULT_BRAIN_ID)
    }
}

// ---------------------------------------------------------------------------
// Brain ids
// ---------------------------------------------------------------------------

pub open spec fn is_ascii_alnum(c: char) -> bool {
    ('a' <= c <= 'z') || ('A' <= c <= 'Z') || ('0' <= c <= '9')
}

/// A home-path character in an id: ASCII letters and digits lowered, `_` and `-` kept, anything
/// else `-`.
pub open spec fn id_char(c: char) -> char {
    let lc = lower_char(c);
    if is_ascii_alnum(lc) || lc == '_' || lc == '-' {
        lc
    } else {
        '-'
    }
}

/// The id derived from a home path: the last `-`-separated segment of its sanitised form, or
/// `brain` when nothing is left.
pub open spec fn brain_id_spec(home: Seq<char>) -> Seq<char> {
    let s = trim_spec(home).map_values(|c: char| id_char(c));
    let seg = after_last(trim_char_spec(s, '-'), '-');
    if seg.len() == 0 {
        "brain"@
    } else {
        seg
    }
}

fn id_char_exec(c: char) -> (r: char)
    ensures
        r == id_char(c),
{
    let lc = crate::text::to_lower_char(c);
    if ('a' <= lc && lc <= 'z') || ('A' <= lc && lc <= 'Z') || ('0' <= lc && lc <= '9') || lc == '_'
        || lc == '-' {
        lc
    } else {
        '-'
    }
}

/// A stable id for a brain from its home path.
pub fn brain_id_from_home(home: &str) -> (r: String)
    ensures
        r@ == brain_id_spec(home@),
{
    let t = trim(home);
    let v = chars_of(t.as_str());
    let mut m: Vec<char> = Vec::new();
    let mut i: usize = 0;
    while i < v.len()
        invariant
            i <= v.len(),
            m@ == v@.take(i as int).map_values(|c: char| id_char(c)),
        decreases v.len() - i,
    {
        m.push(id_char_exec(v[i]));
        assert(v@.take(i as int + 1).map_values(|c: char| id_char(c)) =~= v@.take(i as int).map_values(
            |c: char| id_char(c),
        ).push(id_char(v@[i as int])));
        i += 1;
    }
    assert(v@.take(v.len() as int) =~= v@);
    let tm = trim_char(&m, '-');
    let seg = after_last_exec(&tm, '-');
    if seg.len() == 0 {
        owned("brain")
    } else {
        string_of(&seg)
    }
}

// ---------------------------------------------------------------------------
// The settings
// ---------------------------------------------------------------------------

/// LLM sampling settings; the temperature is carried as the bits of an `f64`.
#[derive(Debug, Clone, Copy, PartialEq, Eq)]
pub struct SamplingParams {
    pub temperature_bits: u64,
    pub max_tokens: u32,
}

/// The settings of the studio.
#[derive(Debug, Clone)]
pub struct AppConfig {
    pub notes_repo_path: String,
    pub gbrain_exe_path: String,
    /// Retired single-home override; read only by the migration.
    pub gbrain_home_override: Option<String>,
    pub brains: Vec<BrainEntry>,
    pub active_brain_id: Option<String>,
    pub active_source_id: Option<String>,
    pub auto_sync: bool,
    pub sync_no_pull: bool,
    /// The bits of the `f64` sampling temperature.
    pub llm_temperature_bits: u64,
    pub llm_max_tokens: u32,
    pub locale: Option<String>,
    pub recent_claude_cwds: Vec<String>,
    pub claude_terminal: Option<String>,
    pub claude_terminal_template: Option<String>,
    pub agent_os_enabled: bool,
    pub llm_concurrency: usize,
    pub event_review_enabled: bool,
    pub event_ingress_port: Option<u16>,
    pub event_ingress_secret: Option<String>,
    pub event_outbound_url: Option<String>,
    pub event_outbound_secret: Option<String>,
    pub obridge_config_path: Option<String>,
    pub obridge_autostart: bool,
    pub obridge_executable: Option<String>,
    pub server_autostart: bool,
    pub server_port: u16,
    pub server_token: Option<String>,
    pub server_executable: Option<String>,
    pub prereq_cache: Option<PrereqCache>,
    /// Snapshot of LLM provider key variables, ordered by name.
    pub llm_env: Vec<(String, String)>,
}

pub fn default_true() -> (r: bool)
    ensures
        r,
{
    true
}

/// The bits of the default temperature, `0.2_f64`.
pub const DEFAULT_TEMPERATURE_BITS: u64 = 0x3FC999999999999A;

pub fn default_temp_bits() -> (r: u64)
    ensures
        r == DEFAULT_TEMPERATURE_BITS,
{
    DEFAULT_TEMPERATURE_BITS
}

pub fn default_llm_concurrency() -> (r: usize)
    ensures
        r == 4,
{
    4
}

pub fn default_server_port() -> (r: u16)
    ensures
        r == 7340,
{
    7340
}

pub fn default_max_tokens() -> (r: u32)
    ensures
        r == 4096,
{
    4096
}

/// The part of the settings that the migration reads and writes.
pub struct CfgCore {
    pub locale: Option<Seq<char>>,
    pub brains: Seq<BrainView>,
    pub override_home: Option<Seq<char>>,
    pub active: Option<Seq<char>>,
}

/// `i` is the first brain with this id.
pub open spec fn first_id(bs: Seq<BrainEntry>, id: Seq<char>, i: int) -> bool {
    &&& 0 <= i < bs.len()
    &&& bs[i].id@ == id
    &&& forall|j: int| 0 <= j < i ==> bs[j].id@ != id
}

pub open spec fn opt_str(o: Option<&str>) -> Option<Seq<char>> {
    match o {
        Some(s) => Some(s@),
        None => None,
    }
}

pub open spec fn has_id(bs: Seq<BrainView>, id: Seq<char>) -> bool {
    exists|i: int| 0 <= i < bs.len() && (#[trigger] bs[i]).id == id
}

pub open spec fn has_home(bs: Seq<BrainView>, h: Seq<char>) -> bool {
    exists|i: int| 0 <= i < bs.len() && (#[trigger] bs[i]).home == Some(h)
}

/// Migration step one: an unsupported locale is cleared.
pub open spec fn step_locale(c: CfgCore) -> CfgCore {
    CfgCore {
        locale: match c.locale {
            Some(l) => if locale_supported(l) { Some(l) } else { None },
            None => None,
        },
        ..c
    }
}

/// Migration step two: an empty registry gets the default brain.
pub open spec fn step_seed(c: CfgCore) -> CfgCore {
    CfgCore { brains: if c.brains.len() == 0 { seq![default_brain_view()] } else { c.brains }, ..c }
}

/// Migration step three: a non-blank override (trimmed) that is not the default home becomes a
/// registered brain, named `name`, unless its home is registered already, and the active brain;
/// the override is cleared. `home_is_default` and `name` are what the platform's path rules say
/// of the override.
pub open spec fn step_absorb(c: CfgCore, home_is_default: bool, name: Seq<char>) -> CfgCore {
    let h = match c.override_home {
        Some(o) => trim_spec(o),
        None => Seq::empty(),
    };
    let absorb = c.override_home is Some && h.len() > 0 && !home_is_default;
    CfgCore {
        brains: if absorb && !has_home(c.brains, h) {
            c.brains.push(BrainView { id: brain_id_spec(h), name, home: Some(h) })
        } else {
            c.brains
        },
        active: if absorb { Some(brain_id_spec(h)) } else { c.active },
        override_home: None,
        ..c
    }
}

/// Migration step four: an active id that names no brain falls back to the default brain, which
/// is added when missing.
pub open spec fn step_active(c: CfgCore) -> CfgCore {
    let ok = match c.active {
        Some(id) => has_id(c.brains, id),
        None => false,
    };
    if ok {
        c
    } else {
        CfgCore {
            brains: if has_id(c.brains, DEFAULT_BRAIN_ID@) { c.brains } else { c.brains.push(default_brain_view()) },
            active: Some(DEFAULT_BRAIN_ID@),
            ..c
        }
    }
}

/// The migration of the settings, its four steps in order.
pub open spec fn normalized(c: CfgCore, home_is_default: bool, name: Seq<char>) -> CfgCore {
    step_active(step_absorb(step_seed(step_locale(c)), home_is_default, name))
}

/// Running the migration twice is running it once, whatever the platform answers the second time.
pub proof fn lemma_normalize_idempotent(c: CfgCore, d1: bool, n1: Seq<char>, d2: bool, n2: Seq<char>)
    ensures
        normalized(normalized(c, d1, n1), d2, n2) == normalized(c, d1, n1),
{
    let once = normalized(c, d1, n1);
    let twice = normalized(once, d2, n2);
    match once.active {
        Some(id) => {
            if !has_id(normalized(c, d1, n1).brains, id) {
                let b = once.brains;
                assert(b.last().id == DEFAULT_BRAIN_ID@ || has_id(b, DEFAULT_BRAIN_ID@));
                if b.last().id == DEFAULT_BRAIN_ID@ {
                    assert(b[b.len() - 1].id == DEFAULT_BRAIN_ID@);
                }
            }
            assert(has_id(once.brains, id));
        },
        None => {},
    }
    assert(once.brains.len() > 0);
    assert(twice.locale == once.locale);
    assert(twice =~= once);
}

impl AppConfig {
    pub open spec fn cfg_core(&self) -> CfgCore {
        CfgCore {
            locale: opt_view(self.locale),
            brains: brains_view(self.brains@),
            override_home: opt_view(self.gbrain_home_override),
            active: opt_view(self.active_brain_id),
        }
    }

    /// Every setting but the four that the migration touches is the same.
    pub open spec fn same_settings(&self, o: &AppConfig) -> bool {
        &&& self.notes_repo_path == o.notes_repo_path
        &&& self.gbrain_exe_path == o.gbrain_exe_path
        &&& self.active_source_id == o.active_source_id
        &&& self.auto_sync == o.auto_sync
        &&& self.sync_no_pull == o.sync_no_pull
        &&& self.llm_temperature_bits == o.llm_temperature_bits
        &&& self.llm_max_tokens == o.llm_max_tokens
        &&& self.recent_claude_cwds == o.recent_claude_cwds
        &&& self.claude_terminal == o.claude_terminal
        &&& self.claude_terminal_template == o.claude_terminal_template
        &&& self.agent_os_enabled == o.agent_os_enabled
        &&& self.llm_concurrency == o.llm_concurrency
        &&& self.event_review_enabled == o.event_review_enabled
        &&& self.event_ingress_port == o.event_ingress_port
        &&& self.event_ingress_secret == o.event_ingress_secret
        &&& self.event_outbound_url == o.event_outbound_url
        &&& self.event_outbound_secret == o.event_outbound_secret
        &&& self.obridge_config_path == o.obridge_config_path
        &&& self.obridge_autostart == o.obridge_autostart
        &&& self.obridge_executable == o.obridge_executable
        &&& self.server_autostart == o.server_autostart
        &&& self.server_port == o.server_port
        &&& self.server_token == o.server_token
        &&& self.server_executable == o.server_executable
        &&& self.prereq_cache == o.prereq_cache
        &&& self.llm_env == o.llm_env
    }

    /// The LLM sampling settings.
    pub fn llm_sampling(&self) -> (r: SamplingParams)
        ensures
            r.temperature_bits == self.llm_temperature_bits && r.max_tokens == self.llm_max_tokens,
    {
        SamplingParams { temperature_bits: self.llm_temperature_bits, max_tokens: self.llm_max_tokens }
    }

    /// The active brain: the first registered brain whose id is the active id.
    pub fn active_brain(&self) -> (r: Option<&BrainEntry>)
        ensures
            match r {
                Some(b) => self.active_brain_id matches Some(a) && exists|i: int|
                    0 <= i < self.brains@.len() && self.brains@[i] == *b && b.id@ == a@
                        && forall|j: int| 0 <= j < i ==> self.brains@[j].id@ != a@,
                None => match self.active_brain_id {
                    Some(a) => forall|i: int| 0 <= i < self.brains@.len() ==> self.brains@[i].id@ != a@,
                    None => true,
                },
            },
    {
        let id = match &self.active_brain_id {
            Some(id) => id,
            None => return None,
        };
        let mut i: usize = 0;
        while i < self.brains.len()
            invariant
                i <= self.brains.len(),
                self.active_brain_id == Some(*id),
                forall|j: int| 0 <= j < i ==> self.brains@[j].id@ != id@,
            decreases self.brains.len() - i,
        {
            if str_eq(self.brains[i].id.as_str(), id.as_str()) {
                return Some(&self.brains[i]);
            }
            i += 1;
        }
        None
    }

    /// The active brain's `GBRAIN_HOME` value (`None` for the default brain or none active).
    pub fn active_env_home(&self) -> (r: Option<&str>)
        ensures
            match self.active_brain_id {
                Some(a) => forall|i: int|
                    #[trigger] first_id(self.brains@, a@, i) ==> opt_str(r) == opt_view(self.brains@[i].gbrain_home),
                None => r is None,
            },
            r is Some ==> self.active_brain_id is Some && exists|i: int|
                #[trigger] first_id(self.brains@, self.active_brain_id->0@, i),
    {
        match self.active_brain() {
            Some(b) => {
                let r = b.env_home();
                proof {
                    let a = self.active_brain_id->0;
                    let i = choose|i: int|
                        0 <= i < self.brains@.len() && self.brains@[i] == *b && b.id@ == a@ && forall|j: int|
                            0 <= j < i ==> self.brains@[j].id@ != a@;
                    assert(first_id(self.brains@, a@, i));
                    assert forall|k: int| #[trigger] first_id(self.brains@, a@, k) implies opt_str(r)
                        == opt_view(self.brains@[k].gbrain_home) by {
                        if k < i {
                            assert(self.brains@[k].id@ != a@);
                        } else if i < k {
                            assert(self.brains@[i].id@ != a@);
                        }
                    }
                }
                r
            },
            None => None,
        }
    }

    fn fix_locale(&mut self)
        ensures
            final(self).cfg_core() == step_locale(old(self).cfg_core()),
            final(self).same_settings(&*old(self)),
            final(self).brains == old(self).brains,
    {
        let unsupported = match &self.locale {
            Some(l) => !is_supported_locale(l.as_str()),
            None => false,
        };
        if unsupported {
            self.locale = None;
        }
        assert(self.cfg_core() =~= step_locale(old(self).cfg_core()));
    }

    fn seed_default(&mut self)
        ensures
            final(self).cfg_core() == step_seed(old(self).cfg_core()),
            final(self).same_settings(&*old(self)),
    {
        if self.brains.len() == 0 {
            self.brains.push(BrainEntry::default_brain());
            assert(brains_view(self.brains@) =~= seq![default_brain_view()]);
        }
        assert(self.cfg_core() =~= step_seed(old(self).cfg_core()));
    }

    /// Whether a brain with this home is registered.
    fn has_home_exec(&self, h: &str) -> (r: bool)
        ensures
            r == has_home(brains_view(self.brains@), h@),
    {
        let mut i: usize = 0;
        while i < self.brains.len()
            invariant
                i <= self.brains.len(),
                forall|j: int| 0 <= j < i ==> (#[trigger] brains_view(self.brains@)[j]).home != Some(h@),
            decreases self.brains.len() - i,
        {
            let same = match &self.brains[i].gbrain_home {
                Some(g) => str_eq(g.as_str(), h),
                None => false,
            };
            if same {
                assert(brains_view(self.brains@)[i as int].home == Some(h@));
                return true;
            }
            i += 1;
        }
        false
    }

    /// Whether a brain with this id is registered.
    fn has_id_exec(&self, id: &str) -> (r: bool)
        ensures
            r == has_id(brains_view(self.brains@), id@),
    {
        let mut i: usize = 0;
        while i < self.brains.len()
            invariant
                i <= self.brains.len(),
                forall|j: int| 0 <= j < i ==> (#[trigger] brains_view(self.brains@)[j]).id != id@,
            decreases self.brains.len() - i,
        {
            if str_eq(self.brains[i].id.as_str(), id) {
                assert(brains_view(self.brains@)[i as int].id == id@);
                return true;
            }
            i += 1;
        }
        false
    }

    /// Migration step three, given the user's home directory (`None` when it is unknown): a
    /// non-blank override is registered and made active unless it is the default home, that is
    /// unless `<override>/.gbrain` and `<home>/.gbrain` are the same path; the override is
    /// cleared. Without a home directory nothing is the default home, so the override is always
    /// absorbed; an override equal to the home is the default home. The brain's name is the
    /// override's last component, which follows the platform's path rules.
    pub fn absorb_override_for(&mut self, home: Option<String>)
        ensures
            exists|d: bool, n: Seq<char>|
                {
                    &&& #[trigger] step_absorb(old(self).cfg_core(), d, n) == final(self).cfg_core()
                    &&& home is None ==> !d
                    &&& (home matches Some(x) && old(self).gbrain_home_override matches Some(o) && x@ == trim_spec(o@))
                        ==> d
                },
            final(self).same_settings(&*old(self)),
    {
        let ghost c0 = self.cfg_core();
        let h = match &self.gbrain_home_override {
            Some(o) => trim(o.as_str()),
            None => String::new(),
        };
        let had = self.gbrain_home_override.is_some();
        self.gbrain_home_override = None;
        let mut home_is_default = false;
        let mut name = h.clone();
        if had && !h.as_str().is_empty() {
            home_is_default = match &home {
                Some(d) => same_dot_gbrain(h.as_str(), d.as_str()),
                None => false,
            };
            if !home_is_default {
                let id = brain_id_from_home(h.as_str());
                if !self.has_home_exec(h.as_str()) {
                    name = match file_name_of(h.as_str()) {
                        Some(f) => f,
                        None => h.clone(),
                    };
                    let e = BrainEntry { id: id.clone(), name: name.clone(), gbrain_home: Some(h.clone()) };
                    let ghost before = self.brains@;
                    self.brains.push(e);
                    assert(brains_view(self.brains@) =~= brains_view(before).push(e@));
                }
                self.active_brain_id = Some(id);
            }
        }
        assert(self.cfg_core() =~= step_absorb(c0, home_is_default, name@));
        proof {
            if home is Some && old(self).gbrain_home_override is Some && home->0@ == trim_spec(
                old(self).gbrain_home_override->0@,
            ) && had && h@.len() > 0 {
                assert(home_is_default);
            }
            // With a blank or no override nothing is absorbed whatever the answer, so the answer
            // may be taken as the one the home directory gives.
            if !(had && h@.len() > 0) {
                let dd = home is Some;
                assert(step_absorb(c0, dd, name@) =~= step_absorb(c0, home_is_default, name@));
                assert(step_absorb(c0, dd, name@) == self.cfg_core());
            } else {
                assert(step_absorb(c0, home_is_default, name@) == self.cfg_core());
            }
        }
    }

    fn fix_active(&mut self)
        ensures
            final(self).cfg_core() == step_active(old(self).cfg_core()),
            final(self).same_settings(&*old(self)),
    {
        let ok = match &self.active_brain_id {
            Some(id) => self.has_id_exec(id.as_str()),
            None => false,
        };
        if !ok {
            self.active_brain_id = Some(owned(DEFAULT_BRAIN_ID));
            if !self.has_id_exec(DEFAULT_BRAIN_ID) {
                let ghost before = self.brains@;
                self.brains.push(BrainEntry::default_brain());
                assert(brains_view(self.brains@) =~= brains_view(before).push(default_brain_view()));
            }
        }
        assert(self.cfg_core() =~= step_active(old(self).cfg_core()));
    }

    /// The idempotent migration (see [`normalized`]).
    pub fn normalize(&mut self)
        ensures
            exists|d: bool, n: Seq<char>| #[trigger] normalized(old(self).cfg_core(), d, n) == final(self).cfg_core(),
            final(self).same_settings(&*old(self)),
    {
        self.fix_locale();
        self.seed_default();
        let ghost c2 = self.cfg_core();
        self.absorb_override_for(home_dir_string());
        let ghost c3 = self.cfg_core();
        let ghost (d, n) = choose|d: bool, n: Seq<char>| #[trigger] step_absorb(c2, d, n) == c3;
        self.fix_active();
        assert(normalized(old(self).cfg_core(), d, n) == self.cfg_core());
    }
}

/// The settings of a fresh install whatever the platform and home: the default brain registered
/// and active, automatic sync on, the default sampling and server settings.
pub open spec fn fresh_settings(c: AppConfig) -> bool {
    &&& c.cfg_core().brains == seq![default_brain_view()]
    &&& c.cfg_core().active == Some(DEFAULT_BRAIN_ID@)
    &&& c.gbrain_home_override is None
    &&& c.locale is None
    &&& c.active_source_id is None
    &&& c.auto_sync && c.sync_no_pull && c.event_review_enabled && c.server_autostart
    &&& !c.agent_os_enabled && !c.obridge_autostart
    &&& c.llm_temperature_bits == DEFAULT_TEMPERATURE_BITS
    &&& c.llm_max_tokens == 4096
    &&& c.llm_concurrency == 4
    &&& c.server_port == 7340
    &&& c.event_ingress_port is None && c.event_ingress_secret is None
    &&& c.event_outbound_url is None && c.event_outbound_secret is None
    &&& c.obridge_config_path is None && c.obridge_executable is None
    &&& c.server_token is None && c.server_executable is None
    &&& c.claude_terminal is None && c.claude_terminal_template is None
    &&& c.recent_claude_cwds@.len() == 0
    &&& c.prereq_cache is None
    &&& c.llm_env@.len() == 0
}

impl AppConfig {
    /// The settings of a fresh install for this home directory and platform.
    pub fn defaults_for(home: &str, windows: bool) -> (r: AppConfig)
        ensures
            fresh_settings(r),
            r.notes_repo_path@ == home@ + "/notes"@,
            r.gbrain_exe_path@ == (if windows {
                home@ + "\\.bun\\bin\\gbrain.exe"@
            } else {
                home@ + "/.bun/bin/gbrain"@
            }),
    {
        let mut notes = owned(home);
        push_str(&mut notes, "/notes");
        let mut exe = owned(home);
        if windows {
            push_str(&mut exe, "\\.bun\\bin\\gbrain.exe");
        } else {
            push_str(&mut exe, "/.bun/bin/gbrain");
        }
        let mut brains: Vec<BrainEntry> = Vec::new();
        brains.push(BrainEntry::default_brain());
        let r = AppConfig {
            notes_repo_path: notes,
            gbrain_exe_path: exe,
            gbrain_home_override: None,
            brains,
            active_brain_id: Some(owned(DEFAULT_BRAIN_ID)),
            active_source_id: None,
            auto_sync: true,
            sync_no_pull: default_true(),
            llm_temperature_bits: default_temp_bits(),
            llm_max_tokens: default_max_tokens(),
            locale: None,
            recent_claude_cwds: Vec::new(),
            claude_terminal: None,
            claude_terminal_template: None,
            agent_os_enabled: false,
            llm_concurrency: default_llm_concurrency(),
            event_review_enabled: default_true(),
            event_ingress_port: None,
            event_ingress_secret: None,
            event_outbound_url: None,
            event_outbound_secret: None,
            obridge_config_path: None,
            obridge_autostart: false,
            obridge_executable: None,
            server_autostart: default_true(),
            server_port: default_server_port(),
            server_token: None,
            server_executable: None,
            prereq_cache: None,
            llm_env: Vec::new(),
        };
        assert(r.cfg_core().brains =~= seq![default_brain_view()]);
        r
    }
}

impl Default for AppConfig {
    /// The settings of a fresh install in the user's home directory (empty when unknown); the
    /// executable path follows the platform's separator.
    fn default() -> (r: AppConfig)
        ensures
            fresh_settings(r),
    {
        let home = match home_dir_string() {
            Some(h) => h,
            None => String::new(),
        };
        let windows = main_separator() == '\\';
        AppConfig::defaults_for(home.as_str(), windows)
    }
}

/// The registered brain with this id, or the error `brain.notFound`.
pub fn brain_entry<'a>(c: &'a AppConfig, brain_id: &str) -> (r: Result<&'a BrainEntry, AppError>)
    ensures
        match r {
            Ok(b) => exists|i: int|
                0 <= i < c.brains@.len() && c.brains@[i] == *b && b.id@ == brain_id@ && forall|j: int|
                    0 <= j < i ==> c.brains@[j].id@ != brain_id@,
            Err(e) => (forall|i: int| 0 <= i < c.brains@.len() ==> c.brains@[i].id@ != brain_id@)
                && e@ == ("brain.notFound"@, seq![("id"@, brain_id@)]),
        },
{
    let mut i: usize = 0;
    while i < c.brains.len()
        invariant
            i <= c.brains.len(),
            forall|j: int| 0 <= j < i ==> c.brains@[j].id@ != brain_id@,
        decreases c.brains.len() - i,
    {
        if str_eq(c.brains[i].id.as_str(), brain_id) {
            return Ok(&c.brains[i]);
        }
        i += 1;
    }
    let e = AppError::new("brain.notFound").p("id", brain_id);
    assert(e@.1 =~= seq![("id"@, brain_id@)]);
    Err(e)
}

} // verus!
