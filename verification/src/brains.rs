//! Brain management: the registry of brains (each its own `GBRAIN_HOME`) and their sources.
//!
//! gbrain keeps no list of brains, so the studio keeps one in its settings. Running gbrain and
//! touching the disk happen outside; this module validates requests, picks ids, builds the
//! argument lists and reads the answers.
use vstd::prelude::*;
use vstd::set_lib::{lemma_int_range, lemma_len_subset, lemma_map_size, set_int_range};
use crate::app_config::{AppConfig, BrainEntry, BrainView, brains_view, has_home, opt_view};
use crate::gbrain_cli::OpResult;
use crate::l10n::{AppError, L10n};
use crate::text::{chars_of, dec_seq, digit_char, int_dec_seq, int_string, join, join_spec, owned, push_dec, push_str, slice_chars, str_eq, string_of, trim, trim_spec, views_of};

verus! {

// ---------------------------------------------------------------------------
// Decimal numerals are injective
// ---------------------------------------------------------------------------

proof fn lemma_dec_len(n: nat)
    ensures
        n < 10 ==> dec_seq(n).len() == 1,
        n >= 10 ==> dec_seq(n).len() >= 2,
    decreases n,
{
    if n >= 10 {
        lemma_dec_len(n / 10);
    }
}

proof fn lemma_digit_injective(a: nat, b: nat)
    requires
        a < 10,
        b < 10,
        digit_char(a) == digit_char(b),
    ensures
        a == b,
{
    assert(digit_char(a) as u32 == a + 48);
    assert(digit_char(b) as u32 == b + 48);
}

/// Different numbers have different decimal forms.
pub proof fn lemma_dec_injective(n: nat, m: nat)
    requires
        dec_seq(n) == dec_seq(m),
    ensures
        n == m,
    decreases n,
{
    lemma_dec_len(n);
    lemma_dec_len(m);
    if n < 10 {
        assert(m < 10);
        assert(dec_seq(n)[0] == digit_char(n));
        assert(dec_seq(m)[0] == digit_char(m));
        lemma_digit_injective(n, m);
    } else {
        assert(m >= 10);
        let dn = dec_seq(n);
        let dm = dec_seq(m);
        assert(dn.last() == dm.last());
        lemma_digit_injective(n % 10, m % 10);
        assert(dn.drop_last() =~= dec_seq(n / 10));
        assert(dm.drop_last() =~= dec_seq(m / 10));
        lemma_dec_injective(n / 10, m / 10);
    }
}

// ---------------------------------------------------------------------------
// Unique ids
// ---------------------------------------------------------------------------

/// The ids of the registered brains.
pub open spec fn brain_ids(c: AppConfig) -> Seq<Seq<char>> {
    c.brains@.map_values(|b: BrainEntry| b.id@)
}

/// The `n`-th candidate id for `base`: `base-n`.
pub open spec fn candidate(base: Seq<char>, n: nat) -> Seq<char> {
    base + "-"@ + dec_seq(n)
}

proof fn lemma_candidate_injective(base: Seq<char>, n: nat, m: nat)
    requires
        candidate(base, n) == candidate(base, m),
    ensures
        n == m,
{
    let k = base.len() + "-"@.len();
    assert(candidate(base, n).skip(k as int) =~= dec_seq(n));
    assert(candidate(base, m).skip(k as int) =~= dec_seq(m));
    lemma_dec_injective(n, m);
}

/// Among `base-2 ..= base-(L+2)` one is free, `L` being the number of brains.
proof fn lemma_free_candidate(ids: Seq<Seq<char>>, base: Seq<char>)
    ensures
        exists|n: nat| 2 <= n <= ids.len() + 2 && !ids.contains(#[trigger] candidate(base, n)),
{
    if forall|n: nat| 2 <= n <= ids.len() + 2 ==> ids.contains(#[trigger] candidate(base, n)) {
        let lo: int = 2;
        let hi: int = ids.len() as int + 3;
        lemma_int_range(lo, hi);
        let r = set_int_range(lo, hi);
        let f = |i: int| candidate(base, i as nat);
        assert(vstd::relations::injective_on(f, r)) by {
            assert forall|a: int, b: int| r.contains(a) && r.contains(b) && #[trigger] f(a) == #[trigger] f(b) implies a == b by {
                lemma_candidate_injective(base, a as nat, b as nat);
            }
        }
        let img = r.map(f);
        lemma_map_size(r, img, f);
        let s = ids.to_set();
        ids.lemma_cardinality_of_set();
        assert(img.subset_of(s)) by {
            assert forall|x: Seq<char>| img.contains(x) implies s.contains(x) by {
                let i = choose|i: int| r.contains(i) && f(i) == x;
                assert(ids.contains(candidate(base, i as nat)));
            }
        }
        lemma_len_subset(img, s);
        assert(false);
    }
}

/// `id` is the id that a registry with `ids` gives `base`: `base` when free, else the first free
/// `base-n` from `n = 2`; in either case an id not yet registered.
pub open spec fn fresh_id_for(ids: Seq<Seq<char>>, base: Seq<char>, id: Seq<char>) -> bool {
    &&& !ids.contains(id)
    &&& !ids.contains(base) ==> id == base
    &&& ids.contains(base) ==> exists|n: nat|
        2 <= n && id == candidate(base, n) && forall|m: nat|
            2 <= m < n ==> ids.contains(#[trigger] candidate(base, m))
}

/// A registry id for `base`: `base` itself when free, else the first free `base-n` from `n = 2`.
pub fn unique_id(c: &AppConfig, base: &str) -> (r: String)
    ensures
        fresh_id_for(brain_ids(*c), base@, r@),
{
    let ghost ids = brain_ids(*c);
    if !has_brain_id(c, base) {
        return owned(base);
    }
    proof { lemma_free_candidate(ids, base@); }
    let len = c.brains.len();
    let mut n: u128 = 2;
    loop
        invariant
            ids == brain_ids(*c),
            2 <= n <= ids.len() + 2,
            ids.len() == c.brains@.len(),
            ids.contains(base@),
            ids.len() == len as int,
            forall|m: nat| 2 <= m < n ==> ids.contains(#[trigger] candidate(base@, m)),
            exists|k: nat| 2 <= k <= ids.len() + 2 && !ids.contains(#[trigger] candidate(base@, k)),
        decreases ids.len() + 2 - n,
    {
        let mut cand = owned(base);
        push_str(&mut cand, "-");
        push_dec(&mut cand, n);
        assert(cand@ =~= candidate(base@, n as nat));
        if !has_brain_id(c, cand.as_str()) {
            return cand;
        }
        proof {
            let k = choose|k: nat| 2 <= k <= ids.len() + 2 && !ids.contains(#[trigger] candidate(base@, k));
            if k == n {
                assert(false);
            }
            assert(k > n);
        }
        n += 1;
    }
}

/// Whether a brain with this id is registered.
fn has_brain_id(c: &AppConfig, id: &str) -> (r: bool)
    ensures
        r == brain_ids(*c).contains(id@),
{
    let mut i: usize = 0;
    while i < c.brains.len()
        invariant
            i <= c.brains.len(),
            forall|j: int| 0 <= j < i ==> c.brains@[j].id@ != id@,
        decreases c.brains.len() - i,
    {
        if str_eq(c.brains[i].id.as_str(), id) {
            assert(brain_ids(*c)[i as int] == id@);
            return true;
        }
        i += 1;
    }
    assert(!brain_ids(*c).contains(id@)) by {
        if brain_ids(*c).contains(id@) {
            let j = choose|j: int| 0 <= j < brain_ids(*c).len() && brain_ids(*c)[j] == id@;
            assert(c.brains@[j].id@ == id@);
        }
    }
    false
}


// ---------------------------------------------------------------------------
// Requests and answers
// ---------------------------------------------------------------------------

/// A source of a brain, as `gbrain sources list --json` lists it (`local_path` is `None` for a
/// federated source or one not yet bound to a directory).
#[derive(Debug, Clone)]
pub struct GbrainSource {
    pub id: String,
    pub name: String,
    pub local_path: Option<String>,
    pub federated: bool,
    pub page_count: i64,
    pub last_sync_at: Option<String>,
}

/// The brain list for the front end.
#[derive(Debug, Clone)]
pub struct BrainsList {
    pub brains: Vec<BrainEntry>,
    pub active_id: Option<String>,
    /// The active brain's `.gbrain` directory.
    pub active_dot_gbrain: Option<String>,
}

/// A request to register a brain (`create`: run `gbrain init` first).
#[derive(Debug, Clone)]
pub struct AddBrainReq {
    pub name: String,
    /// The parent of the brain's `.gbrain` directory.
    pub gbrain_home: Option<String>,
    pub create: bool,
    pub embedding_model: Option<String>,
    pub embedding_dimensions: Option<i64>,
    pub chat_model: Option<String>,
}

#[derive(Debug, Clone)]
pub struct SourceAdd {
    pub brain_id: String,
    pub source_id: String,
    pub path: String,
}

#[derive(Debug, Clone)]
pub struct SourceRef {
    pub brain_id: String,
    pub source_id: String,
}

/// A result seen through the views of its value and error.
pub open spec fn res_view(r: Result<String, AppError>) -> Result<Seq<char>, (Seq<char>, Seq<(Seq<char>, Seq<char>)>)> {
    match r {
        Ok(s) => Ok(s@),
        Err(e) => Err(e@),
    }
}

/// The home of a brain to add: the trimmed `gbrain_home`; blank or missing is `brain.needPath`,
/// a home already registered is `brain.alreadyRegistered`.
pub open spec fn add_home_spec(c: AppConfig, req: AddBrainReq) -> Result<Seq<char>, (Seq<char>, Seq<(Seq<char>, Seq<char>)>)> {
    let h = match req.gbrain_home {
        Some(g) => trim_spec(g@),
        None => Seq::empty(),
    };
    if req.gbrain_home is None || h.len() == 0 {
        Err(("brain.needPath"@, Seq::empty()))
    } else if has_home(brains_view(c.brains@), h) {
        Err(("brain.alreadyRegistered"@, seq![("path"@, h)]))
    } else {
        Ok(h)
    }
}

/// The first step of adding a brain: its validated home.
pub fn add_brain_home(c: &AppConfig, req: &AddBrainReq) -> (r: Result<String, AppError>)
    ensures
        res_view(r) == add_home_spec(*c, *req),
{
    let h = match &req.gbrain_home {
        Some(g) => trim(g.as_str()),
        None => return Err(AppError::new("brain.needPath")),
    };
    if h.as_str().is_empty() {
        return Err(AppError::new("brain.needPath"));
    }
    let mut i: usize = 0;
    while i < c.brains.len()
        invariant
            i <= c.brains.len(),
            req.gbrain_home is Some,
            h@ == trim_spec(req.gbrain_home->0@),
            h@.len() > 0,
            forall|j: int| 0 <= j < i ==> (#[trigger] brains_view(c.brains@)[j]).home != Some(h@),
        decreases c.brains.len() - i,
    {
        let same = match &c.brains[i].gbrain_home {
            Some(g) => str_eq(g.as_str(), h.as_str()),
            None => false,
        };
        if same {
            assert(brains_view(c.brains@)[i as int].home == Some(h@));
            let e = AppError::new("brain.alreadyRegistered").p("path", h.as_str());
            assert(e@.1 =~= seq![("path"@, h@)]);
            return Err(e);
        }
        i += 1;
    }
    Ok(h)
}

/// The models of a brain to create: each requested one, or the default when missing or empty
/// (a dimension of 0 counts as missing).
pub fn init_models(req: &AddBrainReq, defaults: (String, i64, String)) -> (r: (String, i64, String))
    ensures
        r.0@ == (match req.embedding_model {
            Some(m) => if m@.len() == 0 { defaults.0@ } else { m@ },
            None => defaults.0@,
        }),
        r.1 == (match req.embedding_dimensions {
            Some(d) => if d == 0 { defaults.1 } else { d },
            None => defaults.1,
        }),
        r.2@ == (match req.chat_model {
            Some(m) => if m@.len() == 0 { defaults.2@ } else { m@ },
            None => defaults.2@,
        }),
{
    let (dem, dd, dcm) = defaults;
    let em = match &req.embedding_model {
        Some(m) => if m.as_str().is_empty() { dem } else { owned(m.as_str()) },
        None => dem,
    };
    let dim = match req.embedding_dimensions {
        Some(d) => if d == 0 { dd } else { d },
        None => dd,
    };
    let cm = match &req.chat_model {
        Some(m) => if m.as_str().is_empty() { dcm } else { owned(m.as_str()) },
        None => dcm,
    };
    (em, dim, cm)
}

/// The models a brain's gbrain configuration names, as far as it was read.
#[derive(Debug, Clone)]
pub struct ConfiguredModels {
    pub embedding_model: Option<String>,
    pub embedding_dimensions: Option<i64>,
    pub chat_model: Option<String>,
}

/// The default models for a new brain: those of the active brain's configuration when it exists,
/// else `ollama:embeddinggemma` at 768 dimensions and `default_chat_model`.
pub fn default_models(loaded: Option<ConfiguredModels>, default_chat_model: &str) -> (r: (String, i64, String))
    ensures
        r.0@ == (match loaded {
            Some(l) => match l.embedding_model {
                Some(m) => m@,
                None => "ollama:embeddinggemma"@,
            },
            None => "ollama:embeddinggemma"@,
        }),
        r.1 == (match loaded {
            Some(l) => match l.embedding_dimensions {
                Some(d) => d,
                None => 768,
            },
            None => 768,
        }),
        r.2@ == (match loaded {
            Some(l) => match l.chat_model {
                Some(m) => m@,
                None => default_chat_model@,
            },
            None => default_chat_model@,
        }),
{
    match loaded {
        Some(l) => (
            match l.embedding_model {
                Some(m) => m,
                None => owned("ollama:embeddinggemma"),
            },
            match l.embedding_dimensions {
                Some(d) => d,
                None => 768,
            },
            match l.chat_model {
                Some(m) => m,
                None => owned(default_chat_model),
            },
        ),
        None => (owned("ollama:embeddinggemma"), 768, owned(default_chat_model)),
    }
}

pub open spec fn init_args_spec(em: Seq<char>, dim: int, cm: Seq<char>) -> Seq<Seq<char>> {
    seq![
        "init"@,
        "--pglite"@,
        "--non-interactive"@,
        "--embedding-model"@,
        em,
        "--embedding-dimensions"@,
        int_dec_seq(dim),
        "--chat-model"@,
        cm,
        "--skip-embed-check"@,
    ]
}

/// The `gbrain init` arguments for a new brain.
pub fn init_args(em: &str, dim: i64, cm: &str) -> (r: Vec<String>)
    ensures
        views_of(r@) == init_args_spec(em@, dim as int, cm@),
{
    let r = vec![
        owned("init"),
        owned("--pglite"),
        owned("--non-interactive"),
        owned("--embedding-model"),
        owned(em),
        owned("--embedding-dimensions"),
        int_string(dim),
        owned("--chat-model"),
        owned(cm),
        owned("--skip-embed-check"),
    ];
    assert(views_of(r@) =~= init_args_spec(em@, dim as int, cm@));
    r
}

/// The outcome of `gbrain init`: success needs exit code 0 and the brain's `config.json`.
pub fn init_outcome(code: i32, config_exists: bool, err: &str) -> (r: Result<(), AppError>)
    ensures
        code == 0 && config_exists ==> r is Ok,
        !(code == 0 && config_exists) ==> (r matches Err(e) && e@ == (
            "brain.initFailed"@,
            seq![("code"@, int_dec_seq(code as int)), ("detail"@, err@)],
        )),
{
    if code != 0 || !config_exists {
        let c = int_string(code as i64);
        let e = AppError::new("brain.initFailed").p("code", c.as_str()).p("detail", err);
        assert(e@.1 =~= seq![("code"@, int_dec_seq(code as int)), ("detail"@, err@)]);
        return Err(e);
    }
    Ok(())
}

/// The error for registering a directory that holds no brain.
pub fn not_a_brain(config_json: &str, home: &str) -> (r: AppError)
    ensures
        r@ == ("brain.notABrain"@, seq![("path"@, config_json@), ("home"@, home@)]),
{
    let e = AppError::new("brain.notABrain").p("path", config_json).p("home", home);
    assert(e@.1 =~= seq![("path"@, config_json@), ("home"@, home@)]);
    e
}

/// The configuration keys that a new brain's chat model is written to.
pub fn model_sync_keys() -> (r: Vec<&'static str>)
    ensures
        crate::text::strs_view(r@) == seq![
            "chat_model"@,
            "models.default"@,
            "models.think"@,
            "models.tier.utility"@,
            "models.tier.reasoning"@,
            "models.tier.deep"@,
            "models.tier.subagent"@,
        ],
{
    let r = vec![
        "chat_model",
        "models.default",
        "models.think",
        "models.tier.utility",
        "models.tier.reasoning",
        "models.tier.deep",
        "models.tier.subagent",
    ];
    assert(crate::text::strs_view(r@) =~= seq![
        "chat_model"@,
        "models.default"@,
        "models.think"@,
        "models.tier.utility"@,
        "models.tier.reasoning"@,
        "models.tier.deep"@,
        "models.tier.subagent"@,
    ]);
    r
}

/// The last step of adding a brain: register it under a unique id derived from the home's last
/// path component (`brain` when there is none).
pub fn register_brain(c: AppConfig, name: &str, home: &str, file_name: Option<String>) -> (r: (AppConfig, BrainEntry))
    ensures
        fresh_id_for(brain_ids(c), match file_name {
            Some(f) => f@,
            None => "brain"@,
        }, r.1.id@),
        r.1.name@ == name@,
        opt_view(r.1.gbrain_home) == Some(home@),
        brains_view(r.0.brains@) == brains_view(c.brains@).push(r.1@),
        r.0.same_settings(&c),
        r.0.active_brain_id == c.active_brain_id,
        r.0.locale == c.locale,
        r.0.gbrain_home_override == c.gbrain_home_override,
{
    let base = match file_name {
        Some(f) => f,
        None => owned("brain"),
    };
    let id = unique_id(&c, base.as_str());
    let entry = BrainEntry { id: id.clone(), name: owned(name), gbrain_home: Some(owned(home)) };
    let e2 = BrainEntry { id, name: owned(name), gbrain_home: Some(owned(home)) };
    let mut c = c;
    let ghost before = c.brains@;
    c.brains.push(e2);
    assert(brains_view(c.brains@) =~= brains_view(before).push(entry@));
    (c, entry)
}


// ---------------------------------------------------------------------------
// Sources and sync
// ---------------------------------------------------------------------------

/// `i` is the first index of `c`.
pub open spec fn is_first(s: Seq<char>, c: char, i: int) -> bool {
    0 <= i < s.len() && s[i] == c && forall|j: int| 0 <= j < i ==> s[j] != c
}

/// `i` is the last index of `c`.
pub open spec fn is_last(s: Seq<char>, c: char, i: int) -> bool {
    0 <= i < s.len() && s[i] == c && forall|j: int| i < j < s.len() ==> s[j] != c
}

/// The JSON object in a command's output: from the first `{` to the last `}`, when the last
/// comes after the first.
pub fn extract_json(s: &str) -> (r: Option<String>)
    ensures
        match r {
            Some(j) => exists|a: int, b: int|
                is_first(s@, '{', a) && is_last(s@, '}', b) && a < b && j@ == s@.subrange(a, b + 1),
            None => forall|a: int, b: int| is_first(s@, '{', a) && is_last(s@, '}', b) ==> b <= a,
        },
{
    let v = chars_of(s);
    let mut a: usize = 0;
    while a < v.len() && v[a] != '{'
        invariant
            a <= v.len(),
            forall|j: int| 0 <= j < a ==> v@[j] != '{',
        decreases v.len() - a,
    {
        a += 1;
    }
    if a == v.len() {
        return None;
    }
    let mut b: usize = v.len();
    while b > 0 && v[b - 1] != '}'
        invariant
            b <= v.len(),
            forall|j: int| b <= j < v.len() ==> v@[j] != '}',
        decreases b,
    {
        b -= 1;
    }
    if b == 0 {
        return None;
    }
    let last = b - 1;
    assert(is_first(s@, '{', a as int));
    assert(is_last(s@, '}', last as int));
    if last > a {
        let j = slice_chars(&v, a, last + 1);
        Some(string_of(&j))
    } else {
        proof {
            assert forall|x: int, y: int| is_first(s@, '{', x) && is_last(s@, '}', y) implies y <= x by {
                if x < a as int {
                    assert(s@[x] != '{');
                } else if x > a as int {
                    assert(s@[a as int] != '{');
                }
                if y < last as int {
                    assert(s@[last as int] != '}');
                } else if y > last as int {
                    assert(s@[y] != '}');
                }
            }
        }
        None
    }
}

/// The source list's JSON in a command's output, or the message that it has none.
pub fn sources_json(out: &str) -> (r: Result<String, String>)
    ensures
        r matches Err(m) ==> m@ == "無法解析 sources JSON："@ + out@,
        (r is Ok) <==> exists|a: int, b: int| is_first(out@, '{', a) && is_last(out@, '}', b) && a < b,
        r matches Ok(j) ==> exists|a: int, b: int|
            is_first(out@, '{', a) && is_last(out@, '}', b) && a < b && j@ == out@.subrange(a, b + 1),
{
    match extract_json(out) {
        Some(j) => Ok(j),
        None => {
            let mut m = owned("無法解析 sources JSON：");
            push_str(&mut m, out);
            Err(m)
        },
    }
}

/// The error of a failed gbrain command: `key` with the exit code and its error output.
pub fn cli_failed(key: &str, code: i32, detail: &str) -> (r: AppError)
    ensures
        r@ == (key@, seq![("code"@, int_dec_seq(code as int)), ("detail"@, detail@)]),
{
    let c = int_string(code as i64);
    let e = AppError::new(key).p("code", c.as_str()).p("detail", detail);
    assert(e@.1 =~= seq![("code"@, int_dec_seq(code as int)), ("detail"@, detail@)]);
    e
}

/// The repositories to commit before a sync: for scope `one` the local paths of the sources with
/// the given id, otherwise those of all sources, in list order.
pub open spec fn sync_targets_spec(srcs: Seq<GbrainSource>, scope: Seq<char>, source_id: Option<Seq<char>>) -> Seq<Seq<char>>
    decreases srcs.len(),
{
    if srcs.len() == 0 {
        Seq::empty()
    } else {
        let rest = sync_targets_spec(srcs.drop_last(), scope, source_id);
        let s = srcs.last();
        let picked = scope != "one"@ || source_id == Some(s.id@);
        match s.local_path {
            Some(p) => if picked { rest.push(p@) } else { rest },
            None => rest,
        }
    }
}

pub open spec fn opt_str(o: Option<&str>) -> Option<Seq<char>> {
    match o {
        Some(s) => Some(s@),
        None => None,
    }
}

pub fn sync_targets(srcs: &Vec<GbrainSource>, scope: &str, source_id: Option<&str>) -> (r: Vec<String>)
    ensures
        views_of(r@) == sync_targets_spec(srcs@, scope@, opt_str(source_id)),
{
    let one = str_eq(scope, "one");
    let mut r: Vec<String> = Vec::new();
    let mut i: usize = 0;
    while i < srcs.len()
        invariant
            i <= srcs.len(),
            one == (scope@ == "one"@),
            views_of(r@) == sync_targets_spec(srcs@.take(i as int), scope@, opt_str(source_id)),
        decreases srcs.len() - i,
    {
        let s = &srcs[i];
        let picked = !one || match source_id {
            Some(id) => str_eq(id, s.id.as_str()),
            None => false,
        };
        assert(srcs@.take(i as int + 1).drop_last() =~= srcs@.take(i as int));
        let ghost before = r@;
        match &s.local_path {
            Some(p) => {
                if picked {
                    r.push(owned(p.as_str()));
                    assert(views_of(r@) =~= views_of(before).push(p@));
                }
            },
            None => {},
        }
        i += 1;
    }
    assert(srcs@.take(srcs.len() as int) =~= srcs@);
    r
}

/// The `gbrain sync` arguments for a scope: `all` syncs every source, `one` the given source
/// (`--no-pull` when configured); `one` without an id is `source.needId`, any other scope
/// `source.unknownScope`.
pub open spec fn sync_args_spec(scope: Seq<char>, source_id: Option<Seq<char>>, no_pull: bool) -> Result<Seq<Seq<char>>, (Seq<char>, Seq<(Seq<char>, Seq<char>)>)> {
    if scope == "all"@ {
        Ok(seq!["sync"@, "--all"@, "--yes"@])
    } else if scope == "one"@ {
        match source_id {
            Some(sid) => Ok(
                if no_pull {
                    seq!["sync"@, "--source"@, sid, "--no-pull"@, "--yes"@]
                } else {
                    seq!["sync"@, "--source"@, sid, "--yes"@]
                },
            ),
            None => Err(("source.needId"@, Seq::empty())),
        }
    } else {
        Err(("source.unknownScope"@, seq![("scope"@, scope)]))
    }
}

pub open spec fn args_res_view(r: Result<Vec<String>, AppError>) -> Result<Seq<Seq<char>>, (Seq<char>, Seq<(Seq<char>, Seq<char>)>)> {
    match r {
        Ok(v) => Ok(views_of(v@)),
        Err(e) => Err(e@),
    }
}

pub fn sync_args(scope: &str, source_id: Option<&str>, no_pull: bool) -> (r: Result<Vec<String>, AppError>)
    ensures
        args_res_view(r) == sync_args_spec(scope@, opt_str(source_id), no_pull),
{
    if str_eq(scope, "all") {
        let v = vec![owned("sync"), owned("--all"), owned("--yes")];
        assert(views_of(v@) =~= seq!["sync"@, "--all"@, "--yes"@]);
        Ok(v)
    } else if str_eq(scope, "one") {
        match source_id {
            Some(sid) => {
                let mut v = vec![owned("sync"), owned("--source"), owned(sid)];
                if no_pull {
                    v.push(owned("--no-pull"));
                }
                v.push(owned("--yes"));
                proof {
                    if no_pull {
                        assert(views_of(v@) =~= seq!["sync"@, "--source"@, sid@, "--no-pull"@, "--yes"@]);
                    } else {
                        assert(views_of(v@) =~= seq!["sync"@, "--source"@, sid@, "--yes"@]);
                    }
                }
                Ok(v)
            },
            None => Err(AppError::new("source.needId")),
        }
    } else {
        let e = AppError::new("source.unknownScope").p("scope", scope);
        assert(e@.1 =~= seq![("scope"@, scope@)]);
        Err(e)
    }
}

/// The progress line shown before running gbrain with these arguments.
pub fn step_line(args: &Vec<String>) -> (r: String)
    ensures
        r@ == "▶ gbrain "@ + join_spec(views_of(args@), " "@),
{
    let mut s = owned("▶ gbrain ");
    let j = join(args, " ");
    push_str(&mut s, j.as_str());
    s
}


/// The gbrain executable of the settings, when its file exists; `gbrain.exeNotFound` otherwise.
pub fn exe_path(c: &AppConfig, exists: bool) -> (r: Result<String, AppError>)
    ensures
        exists ==> (r matches Ok(p) && p@ == c.gbrain_exe_path@),
        !exists ==> (r matches Err(e) && e@ == ("gbrain.exeNotFound"@, seq![("path"@, c.gbrain_exe_path@)])),
{
    if exists {
        Ok(owned(c.gbrain_exe_path.as_str()))
    } else {
        let e = AppError::new("gbrain.exeNotFound").p("path", c.gbrain_exe_path.as_str());
        assert(e@.1 =~= seq![("path"@, c.gbrain_exe_path@)]);
        Err(e)
    }
}

/// The arguments that list a brain's sources.
pub fn list_sources_args() -> (r: Vec<String>)
    ensures
        views_of(r@) == seq!["sources"@, "list"@, "--json"@],
{
    let v = vec![owned("sources"), owned("list"), owned("--json")];
    assert(views_of(v@) =~= seq!["sources"@, "list"@, "--json"@]);
    v
}

/// The arguments that add a source: its id and its repository path.
pub fn add_source_args(req: &SourceAdd) -> (r: Vec<String>)
    ensures
        views_of(r@) == seq!["sources"@, "add"@, req.source_id@, "--path"@, req.path@],
{
    let v = vec![owned("sources"), owned("add"), owned(req.source_id.as_str()), owned("--path"), owned(req.path.as_str())];
    assert(views_of(v@) =~= seq!["sources"@, "add"@, req.source_id@, "--path"@, req.path@]);
    v
}

/// The arguments that remove a source.
pub fn remove_source_args(req: &SourceRef) -> (r: Vec<String>)
    ensures
        views_of(r@) == seq!["sources"@, "remove"@, req.source_id@],
{
    let v = vec![owned("sources"), owned("remove"), owned(req.source_id.as_str())];
    assert(views_of(v@) =~= seq!["sources"@, "remove"@, req.source_id@]);
    v
}

/// A source must be a git repository: `source.notGitRepo` when its path has no `.git`.
pub fn source_repo_check(req: &SourceAdd, has_git: bool) -> (r: Result<(), AppError>)
    ensures
        has_git ==> r is Ok,
        !has_git ==> (r matches Err(e) && e@ == ("source.notGitRepo"@, seq![("path"@, req.path@)])),
{
    if has_git {
        Ok(())
    } else {
        let e = AppError::new("source.notGitRepo").p("path", req.path.as_str());
        assert(e@.1 =~= seq![("path"@, req.path@)]);
        Err(e)
    }
}

/// The arguments that bind a brain's default source to a repository path.
pub fn bind_args(path: &str) -> (r: Vec<String>)
    ensures
        views_of(r@) == seq!["sync"@, "--repo"@, path@, "--no-pull"@, "--yes"@],
{
    let v = vec![owned("sync"), owned("--repo"), owned(path), owned("--no-pull"), owned("--yes")];
    assert(views_of(v@) =~= seq!["sync"@, "--repo"@, path@, "--no-pull"@, "--yes"@]);
    v
}

/// The progress line of the bind step.
pub fn bind_step_line(path: &str) -> (r: String)
    ensures
        r@ == "▶ gbrain sync --repo "@ + path@ + " --no-pull"@,
{
    let mut s = owned("▶ gbrain sync --repo ");
    push_str(&mut s, path);
    push_str(&mut s, " --no-pull");
    s
}

/// The follow-up commands after a sync or a bind (idempotent): embed, then extract, what is stale.
pub fn refresh_commands() -> (r: Vec<Vec<String>>)
    ensures
        r@.len() == 2,
        views_of(r@[0]@) == seq!["embed"@, "--stale"@],
        views_of(r@[1]@) == seq!["extract"@, "--stale"@],
{
    let a = vec![owned("embed"), owned("--stale")];
    let b = vec![owned("extract"), owned("--stale")];
    assert(views_of(a@) =~= seq!["embed"@, "--stale"@]);
    assert(views_of(b@) =~= seq!["extract"@, "--stale"@]);
    vec![a, b]
}

/// The result of a sync: success is exit code 0, noted `source.syncDone` with the scope.
pub fn sync_done(code: i32, scope: &str) -> (r: OpResult)
    ensures
        r@ == (code == 0, Some(code), Some(("source.syncDone"@, seq![("scope"@, scope@)]))),
{
    let n = L10n::new("source.syncDone").p("scope", scope);
    assert(n@.1 =~= seq![("scope"@, scope@)]);
    OpResult::with_note(code, n)
}

/// The result of binding a path: success is exit code 0, noted `source.bindDone` with the path.
pub fn bind_done(code: i32, path: &str) -> (r: OpResult)
    ensures
        r@ == (code == 0, Some(code), Some(("source.bindDone"@, seq![("path"@, path@)]))),
{
    let n = L10n::new("source.bindDone").p("path", path);
    assert(n@.1 =~= seq![("path"@, path@)]);
    OpResult::with_note(code, n)
}

} // verus!
