//! Company pages from people pages: every `- 公司/組織:` bullet of a person page links that
//! person to the company; companies are grouped under their canonical name (after the alias
//! table), and each gets a lean page that lists its members as wikilinks. Pages that someone
//! enriched by hand are frozen. Reading and writing the files happen outside.
use vstd::prelude::*;
use crate::l10n::L10n;
use crate::text::{
    chars_of, dec_seq, is_ws, occurs_at, has_prefix, has_suffix, has_sub, join, join_spec, owned, push_dec, push_str,
    str_eq, string_of, trim, trim_end, trim_end_spec, trim_spec, views_of,
};

verus! {

// ---------------------------------------------------------------------------
// What the regular expressions find
// ---------------------------------------------------------------------------

/// The captures of `(?m)^- 公司/組織:\s*(.+?)\s*$` in a text, in order.
pub uninterp spec fn org_captures(text: Seq<char>) -> Seq<Seq<char>>;

/// The first capture of `(?m)^title:\s*(.+?)\s*$`.
pub uninterp spec fn title_capture(text: Seq<char>) -> Option<Seq<char>>;

/// The first capture of `(?m)^#\s+(.+?)\s*$`.
pub uninterp spec fn h1_capture(text: Seq<char>) -> Option<Seq<char>>;

/// The text with every run of white space (`\s+`, Unicode `White_Space`) replaced by one space.
pub open spec fn ws_collapsed(s: Seq<char>) -> Seq<char>
    decreases s.len(),
{
    if s.len() == 0 {
        s
    } else if is_ws(s.last()) && s.len() >= 2 && is_ws(s[s.len() - 2]) {
        ws_collapsed(s.drop_last())
    } else if is_ws(s.last()) {
        ws_collapsed(s.drop_last()).push(' ')
    } else {
        ws_collapsed(s.drop_last()).push(s.last())
    }
}

/// `enriched:` at the start of a line (`i`), then white space, then `true` (at `j`).
pub open spec fn enriched_at(text: Seq<char>, i: int, j: int) -> bool {
    &&& i == 0 || (0 < i <= text.len() && text[i - 1] == '\n')
    &&& occurs_at(text, "enriched:"@, i)
    &&& i + 9 <= j
    &&& forall|k: int| i + 9 <= k < j ==> is_ws(#[trigger] text[k])
    &&& occurs_at(text, "true"@, j)
}

/// Whether `(?m)^enriched:\s*true` matches: some line starts with `enriched:`, white space (line
/// breaks included) and `true`.
pub open spec fn enriched_flag(text: Seq<char>) -> bool {
    exists|i: int, j: int| enriched_at(text, i, j)
}

/// `Regex::captures_iter` with the company-bullet pattern; the contract claims only that the
/// captured texts, in order, are `org_captures` of the text.
#[verifier::external_body]
fn org_lines(text: &str) -> (r: Vec<String>)
    ensures
        views_of(r@) == org_captures(text@),
{
    let re = regex::Regex::new(r"(?m)^- 公司/組織:\s*(.+?)\s*$").unwrap();
    re.captures_iter(text).map(|c| c.get(1).unwrap().as_str().to_string()).collect()
}

/// `Regex::captures` with the title pattern; the contract claims only that the capture is
/// `title_capture` of the text.
#[verifier::external_body]
fn title_line(text: &str) -> (r: Option<String>)
    ensures
        crate::email::opt_string(r) == title_capture(text@),
{
    let re = regex::Regex::new(r"(?m)^title:\s*(.+?)\s*$").unwrap();
    re.captures(text).map(|c| c.get(1).unwrap().as_str().to_string())
}

/// `Regex::captures` with the heading pattern; the contract claims only that the capture is
/// `h1_capture` of the text.
#[verifier::external_body]
fn h1_line(text: &str) -> (r: Option<String>)
    ensures
        crate::email::opt_string(r) == h1_capture(text@),
{
    let re = regex::Regex::new(r"(?m)^#\s+(.+?)\s*$").unwrap();
    re.captures(text).map(|c| c.get(1).unwrap().as_str().to_string())
}

/// `Regex::replace_all` of `\s+` by one space: `\s` is Unicode `White_Space` in the regex
/// syntax, so the result is the argument with each white-space run made one space.
#[verifier::external_body]
fn collapse_ws(s: &str) -> (r: String)
    ensures
        r@ == ws_collapsed(s@),
{
    regex::Regex::new(r"\s+").unwrap().replace_all(s, " ").into_owned()
}

/// `Regex::is_match` of `(?m)^enriched:\s*true`: in multi-line mode `^` matches at the start of
/// the text and after each `\n`, and `\s` is Unicode `White_Space`.
#[verifier::external_body]
fn enriched_line(text: &str) -> (r: bool)
    ensures
        r == enriched_flag(text@),
{
    regex::Regex::new(r"(?m)^enriched:\s*true").unwrap().is_match(text)
}

// ---------------------------------------------------------------------------
// YAML single quotes
// ---------------------------------------------------------------------------

/// Every `''` replaced by `'`, left to right.
pub open spec fn unescape_quotes(s: Seq<char>) -> Seq<char>
    decreases s.len(),
{
    if s.len() >= 2 && s[0] == '\'' && s[1] == '\'' {
        seq!['\''] + unescape_quotes(s.skip(2))
    } else if s.len() == 0 {
        s
    } else {
        seq![s[0]] + unescape_quotes(s.drop_first())
    }
}

/// Every `'` doubled.
pub open spec fn escape_quotes(s: Seq<char>) -> Seq<char>
    decreases s.len(),
{
    if s.len() == 0 {
        s
    } else if s[0] == '\'' {
        seq!['\'', '\''] + escape_quotes(s.drop_first())
    } else {
        seq![s[0]] + escape_quotes(s.drop_first())
    }
}

/// A YAML scalar without its single quotes: the trimmed value, and when it is quoted, its inside
/// with `''` read as `'`.
pub open spec fn unquote_spec(v: Seq<char>) -> Seq<char> {
    let t = trim_spec(v);
    if t.len() >= 2 && t[0] == '\'' && t.last() == '\'' {
        unescape_quotes(t.subrange(1, t.len() - 1))
    } else {
        t
    }
}

/// A YAML single-quoted scalar.
pub open spec fn quote_spec(s: Seq<char>) -> Seq<char> {
    seq!['\''] + escape_quotes(s) + seq!['\'']
}

fn unescape(v: &Vec<char>, from: usize, to: usize) -> (r: Vec<char>)
    requires
        from <= to <= v.len(),
    ensures
        r@ == unescape_quotes(v@.subrange(from as int, to as int)),
    decreases to - from,
{
    if from == to {
        assert(v@.subrange(from as int, to as int) =~= Seq::<char>::empty());
        return Vec::new();
    }
    let ghost s = v@.subrange(from as int, to as int);
    if to - from >= 2 && v[from] == '\'' && v[from + 1] == '\'' {
        let rest = unescape(v, from + 2, to);
        assert(s.skip(2) =~= v@.subrange(from + 2, to as int));
        let mut r = vec!['\''];
        let mut rest = rest;
        r.append(&mut rest);
        assert(r@ =~= unescape_quotes(s));
        r
    } else {
        let rest = unescape(v, from + 1, to);
        assert(s.drop_first() =~= v@.subrange(from + 1, to as int));
        let mut r = vec![v[from]];
        let mut rest = rest;
        r.append(&mut rest);
        assert(r@ =~= unescape_quotes(s));
        r
    }
}

/// A YAML scalar without its single quotes.
pub fn unquote_yaml(v: &str) -> (r: String)
    ensures
        r@ == unquote_spec(v@),
{
    let t = trim(v);
    let c = chars_of(t.as_str());
    if c.len() >= 2 && c[0] == '\'' && c[c.len() - 1] == '\'' {
        let inner = unescape(&c, 1, c.len() - 1);
        string_of(&inner)
    } else {
        t
    }
}

/// A value in YAML single quotes.
pub fn yaml_single_quote(s: &str) -> (r: String)
    ensures
        r@ == quote_spec(s@),
{
    let c = chars_of(s);
    let mut out = owned("'");
    proof { reveal_strlit("'"); }
    assert(out@ =~= seq!['\'']);
    let mut i: usize = 0;
    assert(c@.skip(0) =~= c@);
    while i < c.len()
        invariant
            i <= c.len(),
            c@ == s@,
            out@ + escape_quotes(c@.skip(i as int)) == seq!['\''] + escape_quotes(s@),
        decreases c.len() - i,
    {
        assert(c@.skip(i as int).drop_first() =~= c@.skip(i as int + 1));
        let ghost before = out@;
        if c[i] == '\'' {
            crate::text::push_char(&mut out, '\'');
            crate::text::push_char(&mut out, '\'');
            assert(before + (seq!['\'', '\''] + escape_quotes(c@.skip(i as int + 1))) =~= out@ + escape_quotes(c@.skip(i as int + 1)));
        } else {
            crate::text::push_char(&mut out, c[i]);
            assert(before + (seq![c@[i as int]] + escape_quotes(c@.skip(i as int + 1))) =~= out@ + escape_quotes(c@.skip(i as int + 1)));
        }
        i += 1;
    }
    assert(c@.skip(c.len() as int) =~= Seq::<char>::empty());
    crate::text::push_char(&mut out, '\'');
    assert(out@ =~= quote_spec(s@)) by {
        reveal_strlit("'");
    }
    out
}

proof fn lemma_unescape_escape(s: Seq<char>)
    ensures
        unescape_quotes(escape_quotes(s)) == s,
    decreases s.len(),
{
    if s.len() > 0 {
        lemma_unescape_escape(s.drop_first());
        let e = escape_quotes(s);
        if s[0] == '\'' {
            assert(e.skip(2) =~= escape_quotes(s.drop_first()));
        } else {
            assert(e.drop_first() =~= escape_quotes(s.drop_first()));
            if e.len() >= 2 {
                assert(e[0] == s[0]);
            }
        }
        assert(seq![s[0]] + s.drop_first() =~= s);
    }
}

/// Reading a quoted title gives back the title, whatever it holds (quotes included).
pub proof fn lemma_quote_roundtrip(s: Seq<char>)
    ensures
        unquote_spec(quote_spec(s)) == s,
{
    let q = quote_spec(s);
    assert(crate::text::lead_ws(q) == 0);
    assert(q.skip(0) =~= q);
    assert(crate::text::trail_ws(q) == 0);
    assert(q.take(q.len() as int) =~= q);
    assert(q.subrange(1, q.len() - 1) =~= escape_quotes(s));
    lemma_unescape_escape(s);
}


// ---------------------------------------------------------------------------
// Ordering names
// ---------------------------------------------------------------------------

/// `a` sorts before `b` (the order of `str`: by code points, a prefix first).
pub open spec fn lex_lt(a: Seq<char>, b: Seq<char>) -> bool
    decreases a.len(),
{
    if a.len() == 0 {
        b.len() > 0
    } else if b.len() == 0 {
        false
    } else if a[0] != b[0] {
        a[0] < b[0]
    } else {
        lex_lt(a.drop_first(), b.drop_first())
    }
}

fn lex_lt_exec(a: &Vec<char>, b: &Vec<char>) -> (r: bool)
    ensures
        r == lex_lt(a@, b@),
{
    let mut i: usize = 0;
    assert(a@.skip(0) =~= a@);
    assert(b@.skip(0) =~= b@);
    while i < a.len() && i < b.len() && a[i] == b[i]
        invariant
            i <= a.len(),
            i <= b.len(),
            lex_lt(a@, b@) == lex_lt(a@.skip(i as int), b@.skip(i as int)),
        decreases a.len() - i,
    {
        assert(a@.skip(i as int).drop_first() =~= a@.skip(i as int + 1));
        assert(b@.skip(i as int).drop_first() =~= b@.skip(i as int + 1));
        i += 1;
    }
    if i == a.len() {
        i < b.len()
    } else if i == b.len() {
        false
    } else {
        a[i] < b[i]
    }
}

fn str_lt(a: &str, b: &str) -> (r: bool)
    ensures
        r == lex_lt(a@, b@),
{
    let x = chars_of(a);
    let y = chars_of(b);
    lex_lt_exec(&x, &y)
}

/// A member inserted into a list sorted by name, after the members of equal name.
pub open spec fn insert_member(s: Seq<(Seq<char>, Seq<char>)>, x: (Seq<char>, Seq<char>)) -> Seq<(Seq<char>, Seq<char>)>
    decreases s.len(),
{
    if s.len() > 0 && lex_lt(x.1, s.last().1) {
        insert_member(s.drop_last(), x).push(s.last())
    } else {
        s.push(x)
    }
}

/// Members sorted by name, members of equal name in the order given.
pub open spec fn sort_members(s: Seq<(Seq<char>, Seq<char>)>) -> Seq<(Seq<char>, Seq<char>)>
    decreases s.len(),
{
    if s.len() == 0 {
        s
    } else {
        insert_member(sort_members(s.drop_last()), s.last())
    }
}

/// A name inserted into a sorted list.
pub open spec fn insert_str(s: Seq<Seq<char>>, x: Seq<char>) -> Seq<Seq<char>>
    decreases s.len(),
{
    if s.len() > 0 && lex_lt(x, s.last()) {
        insert_str(s.drop_last(), x).push(s.last())
    } else {
        s.push(x)
    }
}

/// Names sorted.
pub open spec fn sort_strs(s: Seq<Seq<char>>) -> Seq<Seq<char>>
    decreases s.len(),
{
    if s.len() == 0 {
        s
    } else {
        insert_str(sort_strs(s.drop_last()), s.last())
    }
}

pub open spec fn pairs_view(v: Seq<(String, String)>) -> Seq<(Seq<char>, Seq<char>)> {
    v.map_values(|p: (String, String)| (p.0@, p.1@))
}

fn insert_member_exec(out: &mut Vec<(String, String)>, x: (String, String))
    ensures
        pairs_view(final(out)@) == insert_member(pairs_view(old(out)@), (x.0@, x.1@)),
{
    let ghost s = pairs_view(out@);
    let ghost xv = (x.0@, x.1@);
    let mut pos: usize = out.len();
    assert(s.take(out.len() as int) =~= s);
    while pos > 0 && str_lt(x.1.as_str(), out[pos - 1].1.as_str())
        invariant
            pos <= out.len(),
            s == pairs_view(out@),
            xv == (x.0@, x.1@),
            insert_member(s, xv) == insert_member(s.take(pos as int), xv) + s.skip(pos as int),
        decreases pos,
    {
        let ghost t = s.take(pos as int);
        assert(t.drop_last() =~= s.take(pos as int - 1));
        assert(t.last() == s[pos as int - 1]);
        assert(insert_member(t, xv) == insert_member(t.drop_last(), xv).push(t.last()));
        assert(insert_member(t.drop_last(), xv).push(t.last()) + s.skip(pos as int) =~= insert_member(
            t.drop_last(),
            xv,
        ) + s.skip(pos as int - 1));
        pos -= 1;
    }
    assert(insert_member(s.take(pos as int), xv) == s.take(pos as int).push(xv)) by {
        if pos > 0 {
            assert(s.take(pos as int).last() == s[pos as int - 1]);
        }
    }
    let ghost before = out@;
    out.insert(pos, x);
    assert(pairs_view(out@) =~= s.take(pos as int).push(xv) + s.skip(pos as int));
}

fn insert_str_exec(out: &mut Vec<String>, x: String)
    ensures
        views_of(final(out)@) == insert_str(views_of(old(out)@), x@),
{
    let ghost s = views_of(out@);
    let ghost xv = x@;
    let mut pos: usize = out.len();
    assert(s.take(out.len() as int) =~= s);
    while pos > 0 && str_lt(x.as_str(), out[pos - 1].as_str())
        invariant
            pos <= out.len(),
            s == views_of(out@),
            xv == x@,
            insert_str(s, xv) == insert_str(s.take(pos as int), xv) + s.skip(pos as int),
        decreases pos,
    {
        let ghost t = s.take(pos as int);
        assert(t.drop_last() =~= s.take(pos as int - 1));
        assert(t.last() == s[pos as int - 1]);
        assert(insert_str(t.drop_last(), xv).push(t.last()) + s.skip(pos as int) =~= insert_str(
            t.drop_last(),
            xv,
        ) + s.skip(pos as int - 1));
        pos -= 1;
    }
    assert(insert_str(s.take(pos as int), xv) == s.take(pos as int).push(xv)) by {
        if pos > 0 {
            assert(s.take(pos as int).last() == s[pos as int - 1]);
        }
    }
    out.insert(pos, x);
    assert(views_of(out@) =~= s.take(pos as int).push(xv) + s.skip(pos as int));
}

/// Members sorted by name (stable).
pub fn sort_by_name(v: &Vec<(String, String)>) -> (r: Vec<(String, String)>)
    ensures
        pairs_view(r@) == sort_members(pairs_view(v@)),
{
    let ghost vv = pairs_view(v@);
    let mut out: Vec<(String, String)> = Vec::new();
    let mut i: usize = 0;
    while i < v.len()
        invariant
            i <= v.len(),
            vv == pairs_view(v@),
            pairs_view(out@) == sort_members(vv.take(i as int)),
        decreases v.len() - i,
    {
        let x = (v[i].0.clone(), v[i].1.clone());
        assert(vv.take(i as int + 1).drop_last() =~= vv.take(i as int));
        assert(vv.take(i as int + 1).last() == (x.0@, x.1@));
        insert_member_exec(&mut out, x);
        i += 1;
    }
    assert(vv.take(i as int) =~= vv);
    out
}

/// Names sorted.
pub fn sort_names(v: &Vec<String>) -> (r: Vec<String>)
    ensures
        views_of(r@) == sort_strs(views_of(v@)),
{
    let ghost vv = views_of(v@);
    let mut out: Vec<String> = Vec::new();
    let mut i: usize = 0;
    while i < v.len()
        invariant
            i <= v.len(),
            vv == views_of(v@),
            views_of(out@) == sort_strs(vv.take(i as int)),
        decreases v.len() - i,
    {
        let x = v[i].clone();
        assert(vv.take(i as int + 1).drop_last() =~= vv.take(i as int));
        assert(vv.take(i as int + 1).last() == x@);
        insert_str_exec(&mut out, x);
        i += 1;
    }
    assert(vv.take(i as int) =~= vv);
    out
}


// ---------------------------------------------------------------------------
// Grouping people by company
// ---------------------------------------------------------------------------

/// A person page: the file's stem and its text.
#[derive(Debug, Clone)]
pub struct PersonPage {
    pub slug: String,
    pub text: String,
}

/// The people of one company, before its page is written.
#[derive(Debug, Clone)]
pub struct CompanyGroup {
    /// The grouping key: the canonical name, trimmed, white space collapsed.
    pub key: String,
    /// The canonical name.
    pub display: String,
    /// `(person slug, person name)`, in the order found.
    pub members: Vec<(String, String)>,
    /// The other names under which the company was listed, in the order found.
    pub variants: Vec<String>,
}

pub struct GroupV {
    pub key: Seq<char>,
    pub display: Seq<char>,
    pub members: Seq<(Seq<char>, Seq<char>)>,
    pub variants: Seq<Seq<char>>,
}

pub open spec fn group_view(g: CompanyGroup) -> GroupV {
    GroupV { key: g.key@, display: g.display@, members: pairs_view(g.members@), variants: views_of(g.variants@) }
}

pub open spec fn groups_view(v: Seq<CompanyGroup>) -> Seq<GroupV> {
    v.map_values(|g: CompanyGroup| group_view(g))
}

/// The canonical name of a listed name: the first alias entry for it, else itself.
pub open spec fn alias_of(al: Seq<(Seq<char>, Seq<char>)>, org: Seq<char>) -> Seq<char>
    decreases al.len(),
{
    if al.len() == 0 {
        org
    } else if al[0].0 == org {
        al[0].1
    } else {
        alias_of(al.drop_first(), org)
    }
}

pub open spec fn org_key(canon: Seq<char>) -> Seq<char> {
    ws_collapsed(trim_spec(canon))
}

pub open spec fn has_key(gs: Seq<GroupV>, key: Seq<char>) -> bool {
    exists|i: int| 0 <= i < gs.len() && gs[i].key == key
}

pub open spec fn keys_unique(gs: Seq<GroupV>) -> bool {
    forall|i: int, j: int| 0 <= i < j < gs.len() ==> gs[i].key != gs[j].key
}

/// One listed company of one person added to the groups; `true` when it counts as a link (its
/// key is not blank).
pub open spec fn step_org(
    gs: Seq<GroupV>,
    slug: Seq<char>,
    name: Seq<char>,
    org: Seq<char>,
    al: Seq<(Seq<char>, Seq<char>)>,
) -> (Seq<GroupV>, bool) {
    let canon = alias_of(al, org);
    let key = org_key(canon);
    if key.len() == 0 {
        (gs, false)
    } else if has_key(gs, key) {
        let i = choose|i: int| 0 <= i < gs.len() && gs[i].key == key;
        let g = gs[i];
        (
            gs.update(
                i,
                GroupV {
                    members: g.members.push((slug, name)),
                    variants: if org != canon && !g.variants.contains(org) {
                        g.variants.push(org)
                    } else {
                        g.variants
                    },
                    ..g
                },
            ),
            true,
        )
    } else {
        (
            gs.push(
                GroupV {
                    key,
                    display: canon,
                    members: seq![(slug, name)],
                    variants: if org != canon { seq![org] } else { Seq::empty() },
                },
            ),
            true,
        )
    }
}

/// A person's listed companies added in order; the groups and the links added.
pub open spec fn fold_orgs(
    gs: Seq<GroupV>,
    slug: Seq<char>,
    name: Seq<char>,
    orgs: Seq<Seq<char>>,
    al: Seq<(Seq<char>, Seq<char>)>,
) -> (Seq<GroupV>, nat)
    decreases orgs.len(),
{
    if orgs.len() == 0 {
        (gs, 0)
    } else {
        let (g1, n1) = fold_orgs(gs, slug, name, orgs.drop_last(), al);
        let (g2, added) = step_org(g1, slug, name, orgs.last(), al);
        (g2, n1 + if added { 1nat } else { 0 })
    }
}

/// The company bullets of a page, trimmed, blank ones left out.
pub open spec fn person_orgs(caps: Seq<Seq<char>>) -> Seq<Seq<char>>
    decreases caps.len(),
{
    if caps.len() == 0 {
        caps
    } else {
        let rest = person_orgs(caps.drop_last());
        let t = trim_spec(caps.last());
        if t.len() > 0 {
            rest.push(t)
        } else {
            rest
        }
    }
}

/// A person's name: the frontmatter title without its quotes, else the first heading, else the
/// page's slug.
pub open spec fn person_name(slug: Seq<char>, text: Seq<char>) -> Seq<char> {
    let t = match title_capture(text) {
        Some(v) => unquote_spec(trim_spec(v)),
        None => Seq::empty(),
    };
    if t.len() > 0 {
        t
    } else {
        match h1_capture(text) {
            Some(h) => trim_spec(h),
            None => slug,
        }
    }
}

/// All people folded in order: the groups, the people with a company, and the links.
pub open spec fn fold_people(ps: Seq<(Seq<char>, Seq<char>)>, al: Seq<(Seq<char>, Seq<char>)>) -> (Seq<GroupV>, nat, nat)
    decreases ps.len(),
{
    if ps.len() == 0 {
        (Seq::empty(), 0, 0)
    } else {
        let (gs, with_org, links) = fold_people(ps.drop_last(), al);
        let (slug, text) = ps.last();
        let orgs = person_orgs(org_captures(text));
        if orgs.len() == 0 {
            (gs, with_org, links)
        } else {
            let (g2, n) = fold_orgs(gs, slug, person_name(slug, text), orgs, al);
            (g2, with_org + 1, links + n)
        }
    }
}

/// The grouping of a people directory.
#[derive(Debug, Clone)]
pub struct CompanyGroups {
    pub people_read: usize,
    pub people_with_org: usize,
    pub total_links: usize,
    pub groups: Vec<CompanyGroup>,
}

pub open spec fn people_view(v: Seq<PersonPage>) -> Seq<(Seq<char>, Seq<char>)> {
    v.map_values(|p: PersonPage| (p.slug@, p.text@))
}

/// The number of company bullets in all pages (each can count as one link).
pub open spec fn bullets(ps: Seq<(Seq<char>, Seq<char>)>) -> nat
    decreases ps.len(),
{
    if ps.len() == 0 {
        0
    } else {
        bullets(ps.drop_last()) + org_captures(ps.last().1).len()
    }
}

fn canonical(al: &Vec<(String, String)>, org: &str) -> (r: String)
    ensures
        r@ == alias_of(pairs_view(al@), org@),
{
    let ghost av = pairs_view(al@);
    let mut i: usize = 0;
    assert(av.skip(0) =~= av);
    while i < al.len()
        invariant
            i <= al.len(),
            av == pairs_view(al@),
            alias_of(av, org@) == alias_of(av.skip(i as int), org@),
        decreases al.len() - i,
    {
        assert(av.skip(i as int)[0] == (al@[i as int].0@, al@[i as int].1@));
        if str_eq(al[i].0.as_str(), org) {
            return al[i].1.clone();
        }
        assert(av.skip(i as int).drop_first() =~= av.skip(i as int + 1));
        i += 1;
    }
    owned(org)
}

fn trimmed_orgs(caps: &Vec<String>) -> (r: Vec<String>)
    ensures
        views_of(r@) == person_orgs(views_of(caps@)),
{
    let ghost cv = views_of(caps@);
    let mut out: Vec<String> = Vec::new();
    let mut i: usize = 0;
    while i < caps.len()
        invariant
            i <= caps.len(),
            cv == views_of(caps@),
            views_of(out@) == person_orgs(cv.take(i as int)),
        decreases caps.len() - i,
    {
        assert(cv.take(i as int + 1).drop_last() =~= cv.take(i as int));
        let t = trim(caps[i].as_str());
        if !t.as_str().is_empty() {
            let ghost before = out@;
            out.push(t);
            assert(views_of(out@) =~= views_of(before).push(trim_spec(cv[i as int])));
        }
        i += 1;
    }
    assert(cv.take(i as int) =~= cv);
    out
}

fn name_of(slug: &str, text: &str) -> (r: String)
    ensures
        r@ == person_name(slug@, text@),
{
    let t = match title_line(text) {
        Some(v) => {
            let tv = trim(v.as_str());
            unquote_yaml(tv.as_str())
        },
        None => String::new(),
    };
    if !t.as_str().is_empty() {
        t
    } else {
        match h1_line(text) {
            Some(h) => trim(h.as_str()),
            None => owned(slug),
        }
    }
}

fn find_group(gs: &Vec<CompanyGroup>, key: &str) -> (r: Option<usize>)
    requires
        keys_unique(groups_view(gs@)),
    ensures
        match r {
            Some(i) => i < gs@.len() && gs@[i as int].key@ == key@ && has_key(groups_view(gs@), key@)
                && (choose|k: int| 0 <= k < groups_view(gs@).len() && groups_view(gs@)[k].key == key@) == i,
            None => !has_key(groups_view(gs@), key@),
        },
{
    let mut i: usize = 0;
    while i < gs.len()
        invariant
            i <= gs.len(),
            keys_unique(groups_view(gs@)),
            forall|k: int| 0 <= k < i ==> gs@[k].key@ != key@,
        decreases gs.len() - i,
    {
        if str_eq(gs[i].key.as_str(), key) {
            proof {
                let gv = groups_view(gs@);
                assert(gv[i as int].key == key@);
                let c = choose|k: int| 0 <= k < gv.len() && gv[k].key == key@;
                if c != i as int {
                    if c < i as int {
                        assert(gv[c].key == gs@[c].key@);
                    } else {
                        assert(gv[i as int].key != gv[c].key);
                    }
                }
            }
            return Some(i);
        }
        i += 1;
    }
    proof {
        let gv = groups_view(gs@);
        if has_key(gv, key@) {
            let c = choose|k: int| 0 <= k < gv.len() && gv[k].key == key@;
            assert(gv[c].key == gs@[c].key@);
        }
    }
    None
}

fn contains_name(v: &Vec<String>, s: &str) -> (r: bool)
    ensures
        r == views_of(v@).contains(s@),
{
    let mut i: usize = 0;
    while i < v.len()
        invariant
            i <= v.len(),
            forall|k: int| 0 <= k < i ==> v@[k]@ != s@,
        decreases v.len() - i,
    {
        if str_eq(v[i].as_str(), s) {
            assert(views_of(v@)[i as int] == s@);
            return true;
        }
        i += 1;
    }
    false
}

/// One listed company of one person added to the groups.
fn add_org(gs: &mut Vec<CompanyGroup>, slug: &str, name: &str, org: &str, al: &Vec<(String, String)>) -> (r: bool)
    requires
        keys_unique(groups_view(old(gs)@)),
    ensures
        keys_unique(groups_view(final(gs)@)),
        (groups_view(final(gs)@), r) == step_org(groups_view(old(gs)@), slug@, name@, org@, pairs_view(al@)),
{
    let canon = canonical(al, org);
    let t = trim(canon.as_str());
    let key = collapse_ws(t.as_str());
    let ghost gv = groups_view(gs@);
    if key.as_str().is_empty() {
        return false;
    }
    let differs = !str_eq(org, canon.as_str());
    match find_group(gs, key.as_str()) {
        Some(i) => {
            let mut g = gs.remove(i);
            let ghost g0 = group_view(g);
            g.members.push((owned(slug), owned(name)));
            assert(pairs_view(g.members@) =~= g0.members.push((slug@, name@)));
            if differs && !contains_name(&g.variants, org) {
                g.variants.push(owned(org));
                assert(views_of(g.variants@) =~= g0.variants.push(org@));
            }
            gs.insert(i, g);
            proof {
                assert(groups_view(gs@) =~= gv.update(i as int, group_view(g)));
                assert(group_view(g).key == g0.key);
            }
            true
        },
        None => {
            let mut variants: Vec<String> = Vec::new();
            if differs {
                variants.push(owned(org));
            }
            let mut members: Vec<(String, String)> = Vec::new();
            members.push((owned(slug), owned(name)));
            let g = CompanyGroup { key, display: canon, members, variants };
            assert(pairs_view(g.members@) =~= seq![(slug@, name@)]);
            assert(views_of(g.variants@) =~= (if org@ != alias_of(pairs_view(al@), org@) { seq![org@] } else { Seq::empty() }));
            let ghost before = gs@;
            gs.push(g);
            assert(groups_view(gs@) =~= gv.push(group_view(g)));
            true
        },
    }
}

/// Groups the people pages (in directory order) by the companies they list, with the alias table
/// `al` (listed name → canonical name).
pub fn group_companies(people: &Vec<PersonPage>, al: &Vec<(String, String)>) -> (r: CompanyGroups)
    requires
        bullets(people_view(people@)) < usize::MAX,
    ensures
        ({
            let (gs, with_org, links) = fold_people(people_view(people@), pairs_view(al@));
            &&& groups_view(r.groups@) == gs
            &&& r.people_with_org as nat == with_org
            &&& r.total_links as nat == links
            &&& r.people_read == people@.len()
        }),
        keys_unique(groups_view(r.groups@)),
{
    let ghost pv = people_view(people@);
    let ghost av = pairs_view(al@);
    let mut gs: Vec<CompanyGroup> = Vec::new();
    let mut with_org: usize = 0;
    let mut links: usize = 0;
    let mut i: usize = 0;
    while i < people.len()
        invariant
            i <= people.len(),
            pv == people_view(people@),
            av == pairs_view(al@),
            bullets(pv) < usize::MAX,
            keys_unique(groups_view(gs@)),
            (groups_view(gs@), with_org as nat, links as nat) == fold_people(pv.take(i as int), av),
            with_org <= i,
            links <= bullets(pv.take(i as int)),
        decreases people.len() - i,
    {
        let p = &people[i];
        assert(pv.take(i as int + 1).drop_last() =~= pv.take(i as int));
        assert(pv.take(i as int + 1).last() == (p.slug@, p.text@));
        proof { lemma_bullets_mono(pv, i as int + 1); }
        let caps = org_lines(p.text.as_str());
        let orgs = trimmed_orgs(&caps);
        proof { lemma_person_orgs_len(views_of(caps@)); }
        if orgs.len() > 0 {
            let name = name_of(p.slug.as_str(), p.text.as_str());
            let ghost g_start = groups_view(gs@);
            let mut n: usize = 0;
            let mut k: usize = 0;
            while k < orgs.len()
                invariant
                    k <= orgs.len(),
                    keys_unique(groups_view(gs@)),
                    (groups_view(gs@), n as nat) == fold_orgs(g_start, p.slug@, name@, views_of(orgs@).take(k as int), av),
                    n <= k,
                    av == pairs_view(al@),
                decreases orgs.len() - k,
            {
                assert(views_of(orgs@).take(k as int + 1).drop_last() =~= views_of(orgs@).take(k as int));
                assert(views_of(orgs@).take(k as int + 1).last() == orgs@[k as int]@);
                let added = add_org(&mut gs, p.slug.as_str(), name.as_str(), orgs[k].as_str(), al);
                if added {
                    n += 1;
                }
                k += 1;
            }
            assert(views_of(orgs@).take(k as int) =~= views_of(orgs@));
            with_org += 1;
            links = links + n;
        }
        i += 1;
    }
    assert(pv.take(i as int) =~= pv);
    CompanyGroups { people_read: people.len(), people_with_org: with_org, total_links: links, groups: gs }
}

proof fn lemma_person_orgs_len(caps: Seq<Seq<char>>)
    ensures
        person_orgs(caps).len() <= caps.len(),
    decreases caps.len(),
{
    if caps.len() > 0 {
        lemma_person_orgs_len(caps.drop_last());
    }
}

proof fn lemma_bullets_mono(ps: Seq<(Seq<char>, Seq<char>)>, i: int)
    requires
        0 < i <= ps.len(),
    ensures
        bullets(ps.take(i)) == bullets(ps.take(i - 1)) + org_captures(ps[i - 1].1).len(),
        bullets(ps.take(i)) <= bullets(ps),
    decreases ps.len() - i,
{
    assert(ps.take(i).drop_last() =~= ps.take(i - 1));
    if i < ps.len() {
        lemma_bullets_mono(ps, i + 1);
    } else {
        assert(ps.take(i) =~= ps);
    }
}


// ---------------------------------------------------------------------------
// Company pages
// ---------------------------------------------------------------------------

/// The members with a repeated person slug left out, the first listing kept.
pub open spec fn dedup_members(s: Seq<(Seq<char>, Seq<char>)>) -> Seq<(Seq<char>, Seq<char>)>
    decreases s.len(),
{
    if s.len() == 0 {
        s
    } else {
        let r = dedup_members(s.drop_last());
        if exists|j: int| 0 <= j < r.len() && r[j].0 == s.last().0 {
            r
        } else {
            r.push(s.last())
        }
    }
}

/// The wikilink line of one member.
pub open spec fn member_line(m: (Seq<char>, Seq<char>)) -> Seq<char> {
    "- [[people/"@ + m.0 + "|"@ + m.1 + "]]"@
}

/// The lines of a company page, before they are joined.
pub open spec fn page_lines(
    name: Seq<char>,
    members: Seq<(Seq<char>, Seq<char>)>,
    aliases: Seq<Seq<char>>,
) -> Seq<Seq<char>> {
    let head = seq![
        "---"@,
        "type: company"@,
        "title: "@ + quote_spec(name),
        "tags: [companies, contact]"@,
        "---"@,
        Seq::<char>::empty(),
        "# "@ + name,
        Seq::<char>::empty(),
        name + "，通訊錄中有 "@ + dec_seq(members.len()) + " 位聯絡人。"@,
        Seq::<char>::empty()
    ];
    let al = if aliases.len() > 0 {
        seq!["別名："@ + join_spec(aliases, "、"@), Seq::<char>::empty()]
    } else {
        Seq::<Seq<char>>::empty()
    };
    head + al + seq!["## 聯絡人"@, Seq::<char>::empty()] + members.map_values(
        |m: (Seq<char>, Seq<char>)| member_line(m),
    ) + seq![Seq::<char>::empty()]
}

/// A company page: its lines joined by newlines, trailing white space cut, one newline added.
pub open spec fn page_spec(
    name: Seq<char>,
    members: Seq<(Seq<char>, Seq<char>)>,
    aliases: Seq<Seq<char>>,
) -> Seq<char> {
    trim_end_spec(join_spec(page_lines(name, members, aliases), "\n"@)) + "\n"@
}

/// The page of one group: its members once each, sorted by name; its other names sorted.
pub open spec fn group_page(g: GroupV) -> Seq<char> {
    page_spec(g.display, sort_members(dedup_members(g.members)), sort_strs(g.variants))
}

fn has_slug(v: &Vec<(String, String)>, s: &str) -> (r: bool)
    ensures
        r == exists|j: int| 0 <= j < pairs_view(v@).len() && pairs_view(v@)[j].0 == s@,
{
    let mut i: usize = 0;
    while i < v.len()
        invariant
            i <= v.len(),
            forall|k: int| 0 <= k < i ==> v@[k].0@ != s@,
        decreases v.len() - i,
    {
        if str_eq(v[i].0.as_str(), s) {
            assert(pairs_view(v@)[i as int].0 == s@);
            return true;
        }
        i += 1;
    }
    proof {
        assert forall|j: int| 0 <= j < pairs_view(v@).len() implies pairs_view(v@)[j].0 != s@ by {
            assert(pairs_view(v@)[j].0 == v@[j].0@);
        }
    }
    false
}

/// The members once each, by person slug, the first listing kept.
pub fn unique_members(v: &Vec<(String, String)>) -> (r: Vec<(String, String)>)
    ensures
        pairs_view(r@) == dedup_members(pairs_view(v@)),
{
    let ghost vv = pairs_view(v@);
    let mut out: Vec<(String, String)> = Vec::new();
    let mut i: usize = 0;
    while i < v.len()
        invariant
            i <= v.len(),
            vv == pairs_view(v@),
            pairs_view(out@) == dedup_members(vv.take(i as int)),
        decreases v.len() - i,
    {
        assert(vv.take(i as int + 1).drop_last() =~= vv.take(i as int));
        assert(vv.take(i as int + 1).last() == (v@[i as int].0@, v@[i as int].1@));
        if !has_slug(&out, v[i].0.as_str()) {
            let ghost before = pairs_view(out@);
            out.push((v[i].0.clone(), v[i].1.clone()));
            assert(pairs_view(out@) =~= before.push((v@[i as int].0@, v@[i as int].1@)));
        }
        i += 1;
    }
    assert(vv.take(i as int) =~= vv);
    out
}

fn push_line(lines: &mut Vec<String>, s: String)
    ensures
        views_of(final(lines)@) == views_of(old(lines)@).push(s@),
{
    let ghost before = views_of(lines@);
    lines.push(s);
    assert(views_of(lines@) =~= before.push(s@));
}

fn member_line_exec(m: &(String, String)) -> (r: String)
    ensures
        r@ == member_line((m.0@, m.1@)),
{
    let mut l = owned("- [[people/");
    push_str(&mut l, m.0.as_str());
    push_str(&mut l, "|");
    push_str(&mut l, m.1.as_str());
    push_str(&mut l, "]]");
    assert(l@ =~= member_line((m.0@, m.1@)));
    l
}

/// The markdown of a company page with the given members (in order) and other names.
pub fn build_page(name: &str, members: &Vec<(String, String)>, aliases: &Vec<String>) -> (r: String)
    ensures
        r@ == page_spec(name@, pairs_view(members@), views_of(aliases@)),
{
    let ghost mv = pairs_view(members@);
    let ghost av = views_of(aliases@);
    let mut lines: Vec<String> = Vec::new();
    push_line(&mut lines, owned("---"));
    push_line(&mut lines, owned("type: company"));
    let mut title = owned("title: ");
    let q = yaml_single_quote(name);
    push_str(&mut title, q.as_str());
    push_line(&mut lines, title);
    push_line(&mut lines, owned("tags: [companies, contact]"));
    push_line(&mut lines, owned("---"));
    push_line(&mut lines, String::new());
    let mut h = owned("# ");
    push_str(&mut h, name);
    push_line(&mut lines, h);
    push_line(&mut lines, String::new());
    let mut c = owned(name);
    push_str(&mut c, "，通訊錄中有 ");
    push_dec(&mut c, members.len() as u128);
    push_str(&mut c, " 位聯絡人。");
    push_line(&mut lines, c);
    push_line(&mut lines, String::new());
    let ghost head = views_of(lines@);
    assert(head =~= seq![
        "---"@,
        "type: company"@,
        "title: "@ + quote_spec(name@),
        "tags: [companies, contact]"@,
        "---"@,
        Seq::<char>::empty(),
        "# "@ + name@,
        Seq::<char>::empty(),
        name@ + "，通訊錄中有 "@ + dec_seq(mv.len()) + " 位聯絡人。"@,
        Seq::<char>::empty()
    ]);
    if aliases.len() > 0 {
        let mut a = owned("別名：");
        let j = join(aliases, "、");
        push_str(&mut a, j.as_str());
        push_line(&mut lines, a);
        push_line(&mut lines, String::new());
    }
    push_line(&mut lines, owned("## 聯絡人"));
    push_line(&mut lines, String::new());
    let ghost pre = views_of(lines@);
    let mut i: usize = 0;
    while i < members.len()
        invariant
            i <= members.len(),
            mv == pairs_view(members@),
            views_of(lines@) == pre + mv.take(i as int).map_values(|m: (Seq<char>, Seq<char>)| member_line(m)),
        decreases members.len() - i,
    {
        let l = member_line_exec(&members[i]);
        push_line(&mut lines, l);
        assert(mv.take(i as int + 1).map_values(|m: (Seq<char>, Seq<char>)| member_line(m)) =~= mv.take(
            i as int,
        ).map_values(|m: (Seq<char>, Seq<char>)| member_line(m)).push(member_line(mv[i as int])));
        assert(views_of(lines@) =~= pre + mv.take(i as int + 1).map_values(
            |m: (Seq<char>, Seq<char>)| member_line(m),
        ));
        i += 1;
    }
    push_line(&mut lines, String::new());
    assert(mv.take(i as int) =~= mv);
    assert(views_of(lines@) =~= page_lines(name@, mv, av));
    let joined = join(&lines, "\n");
    let mut r = trim_end(joined.as_str());
    push_str(&mut r, "\n");
    r
}

/// A company page: the file's slug, the company's name, the markdown.
#[derive(Debug, Clone)]
pub struct CompanyPage {
    pub slug: String,
    pub name: String,
    pub markdown: String,
}

/// The pages built from a people directory, with the counts of the run.
#[derive(Debug)]
pub struct CompaniesImport {
    pub people_read: usize,
    pub people_with_org: usize,
    pub distinct: usize,
    pub total_links: usize,
    pub pages: Vec<CompanyPage>,
}

/// The page of each group, in the order the groups were found; `slugs[i]` is the file slug of
/// the `i`-th group.
pub fn company_pages(groups: &CompanyGroups, slugs: &Vec<String>) -> (r: CompaniesImport)
    requires
        slugs@.len() == groups.groups@.len(),
    ensures
        r.people_read == groups.people_read,
        r.people_with_org == groups.people_with_org,
        r.total_links == groups.total_links,
        r.distinct == groups.groups@.len(),
        r.pages@.len() == groups.groups@.len(),
        forall|i: int|
            0 <= i < r.pages@.len() ==> {
                &&& (#[trigger] r.pages@[i]).slug@ == slugs@[i]@
                &&& r.pages@[i].name@ == groups.groups@[i].display@
                &&& r.pages@[i].markdown@ == group_page(group_view(groups.groups@[i]))
            },
        (forall|i: int, j: int| 0 <= i < j < slugs@.len() ==> slugs@[i]@ != slugs@[j]@) ==> forall|i: int, j: int|
            0 <= i < j < r.pages@.len() ==> (#[trigger] r.pages@[i]).slug@ != (#[trigger] r.pages@[j]).slug@,
{
    let mut pages: Vec<CompanyPage> = Vec::new();
    let mut i: usize = 0;
    while i < groups.groups.len()
        invariant
            i <= groups.groups@.len(),
            slugs@.len() == groups.groups@.len(),
            pages@.len() == i,
            forall|k: int|
                0 <= k < i ==> {
                    &&& (#[trigger] pages@[k]).slug@ == slugs@[k]@
                    &&& pages@[k].name@ == groups.groups@[k].display@
                    &&& pages@[k].markdown@ == group_page(group_view(groups.groups@[k]))
                },
        decreases groups.groups@.len() - i,
    {
        let g = &groups.groups[i];
        let uniq = unique_members(&g.members);
        let sorted = sort_by_name(&uniq);
        let variants = sort_names(&g.variants);
        let markdown = build_page(g.display.as_str(), &sorted, &variants);
        pages.push(CompanyPage { slug: slugs[i].clone(), name: g.display.clone(), markdown });
        i += 1;
    }
    CompaniesImport {
        people_read: groups.people_read,
        people_with_org: groups.people_with_org,
        distinct: pages.len(),
        total_links: groups.total_links,
        pages,
    }
}

/// A page that someone enriched by hand: frontmatter `enriched: true`, or an `<!-- enriched`
/// comment.
pub open spec fn enriched_spec(text: Seq<char>) -> bool {
    enriched_flag(text) || has_sub(text, "<!-- enriched"@)
}

/// Whether a page was enriched by hand (and so is left as it is).
pub fn is_enriched(text: &str) -> (r: bool)
    ensures
        r == enriched_spec(text@),
{
    enriched_line(text) || crate::text::contains_str(text, "<!-- enriched")
}


/// A company page lists each person once: no two members share a person slug.
pub proof fn lemma_dedup_unique(s: Seq<(Seq<char>, Seq<char>)>)
    ensures
        forall|i: int, j: int|
            0 <= i < j < dedup_members(s).len() ==> dedup_members(s)[i].0 != dedup_members(s)[j].0,
    decreases s.len(),
{
    if s.len() > 0 {
        let p = s.drop_last();
        lemma_dedup_unique(p);
        let r = dedup_members(p);
        if !(exists|j: int| 0 <= j < r.len() && r[j].0 == s.last().0) {
            let d = dedup_members(s);
            assert(d == r.push(s.last()));
            assert forall|i: int, j: int| 0 <= i < j < d.len() implies d[i].0 != d[j].0 by {
                if j == r.len() {
                    assert(d[i] == r[i]);
                    assert(d[j] == s.last());
                } else {
                    assert(d[i] == r[i] && d[j] == r[j]);
                }
            }
        }
    }
}

/// No two members share a person slug.
pub open spec fn slugs_distinct(s: Seq<(Seq<char>, Seq<char>)>) -> bool {
    forall|i: int, j: int| 0 <= i < j < s.len() ==> (#[trigger] s[i]).0 != (#[trigger] s[j]).0
}

/// Inserting a member whose slug is new keeps the slugs distinct, and the list keeps its members
/// and gains the new one.
proof fn lemma_insert_keeps_distinct(s: Seq<(Seq<char>, Seq<char>)>, x: (Seq<char>, Seq<char>))
    requires
        slugs_distinct(s),
        forall|k: int| 0 <= k < s.len() ==> (#[trigger] s[k]).0 != x.0,
    ensures
        slugs_distinct(insert_member(s, x)),
        forall|k: int|
            0 <= k < insert_member(s, x).len() ==> #[trigger] insert_member(s, x)[k] == x || s.contains(
                insert_member(s, x)[k],
            ),
        insert_member(s, x).contains(x),
        forall|z: (Seq<char>, Seq<char>)| s.contains(z) ==> #[trigger] insert_member(s, x).contains(z),
    decreases s.len(),
{
    let r = insert_member(s, x);
    if s.len() > 0 && lex_lt(x.1, s.last().1) {
        let p = s.drop_last();
        assert forall|i: int, j: int| 0 <= i < j < p.len() implies (#[trigger] p[i]).0 != (#[trigger] p[j]).0 by {
            assert(p[i] == s[i] && p[j] == s[j]);
        }
        assert forall|k: int| 0 <= k < p.len() implies (#[trigger] p[k]).0 != x.0 by {
            assert(p[k] == s[k]);
        }
        lemma_insert_keeps_distinct(p, x);
        let t = insert_member(p, x);
        let l = s.last();
        assert(r == t.push(l));
        assert(s[s.len() - 1] == l);
        assert forall|k: int| 0 <= k < t.len() implies (#[trigger] t[k]).0 != l.0 by {
            if t[k] != x {
                let m = choose|m: int| 0 <= m < p.len() && p[m] == t[k];
                assert(s[m] == p[m]);
            }
        }
        assert forall|i: int, j: int| 0 <= i < j < r.len() implies (#[trigger] r[i]).0 != (#[trigger] r[j]).0 by {
            if j == t.len() {
                assert(r[i] == t[i]);
                assert(r[j] == l);
            } else {
                assert(r[i] == t[i] && r[j] == t[j]);
            }
        }
        assert forall|k: int| 0 <= k < r.len() implies #[trigger] r[k] == x || s.contains(r[k]) by {
            if k < t.len() {
                assert(r[k] == t[k]);
                if t[k] != x {
                    let m = choose|m: int| 0 <= m < p.len() && p[m] == t[k];
                    assert(s[m] == p[m]);
                }
            } else {
                assert(s[s.len() - 1] == r[k]);
            }
        }
        let kx = choose|kx: int| 0 <= kx < t.len() && t[kx] == x;
        assert(r[kx] == x);
        assert forall|z: (Seq<char>, Seq<char>)| s.contains(z) implies #[trigger] r.contains(z) by {
            let m = choose|m: int| 0 <= m < s.len() && s[m] == z;
            if m < p.len() {
                assert(p[m] == z);
                assert(t.contains(z));
                let q = choose|q: int| 0 <= q < t.len() && t[q] == z;
                assert(r[q] == z);
            } else {
                assert(r[t.len() as int] == z);
            }
        }
    } else {
        assert(r == s.push(x));
        assert forall|i: int, j: int| 0 <= i < j < r.len() implies (#[trigger] r[i]).0 != (#[trigger] r[j]).0 by {
            if j == s.len() {
                assert(r[i] == s[i]);
            } else {
                assert(r[i] == s[i] && r[j] == s[j]);
            }
        }
        assert forall|k: int| 0 <= k < r.len() implies #[trigger] r[k] == x || s.contains(r[k]) by {
            if k < s.len() {
                assert(r[k] == s[k]);
            }
        }
        assert(r[s.len() as int] == x);
        assert forall|z: (Seq<char>, Seq<char>)| s.contains(z) implies #[trigger] r.contains(z) by {
            let m = choose|m: int| 0 <= m < s.len() && s[m] == z;
            assert(r[m] == z);
        }
    }
}

/// Sorting a member list with distinct slugs keeps them distinct and keeps exactly its members.
proof fn lemma_sort_keeps_distinct(s: Seq<(Seq<char>, Seq<char>)>)
    requires
        slugs_distinct(s),
    ensures
        slugs_distinct(sort_members(s)),
        forall|k: int| 0 <= k < sort_members(s).len() ==> s.contains(#[trigger] sort_members(s)[k]),
        forall|z: (Seq<char>, Seq<char>)| s.contains(z) ==> #[trigger] sort_members(s).contains(z),
    decreases s.len(),
{
    if s.len() > 0 {
        let p = s.drop_last();
        let l = s.last();
        assert forall|i: int, j: int| 0 <= i < j < p.len() implies (#[trigger] p[i]).0 != (#[trigger] p[j]).0 by {
            assert(p[i] == s[i] && p[j] == s[j]);
        }
        lemma_sort_keeps_distinct(p);
        let sp = sort_members(p);
        assert forall|k: int| 0 <= k < sp.len() implies (#[trigger] sp[k]).0 != l.0 by {
            let m = choose|m: int| 0 <= m < p.len() && p[m] == sp[k];
            assert(s[m] == p[m]);
            assert(s[s.len() - 1] == l);
        }
        lemma_insert_keeps_distinct(sp, l);
        let r = sort_members(s);
        assert(r == insert_member(sp, l));
        assert forall|k: int| 0 <= k < r.len() implies s.contains(#[trigger] r[k]) by {
            if r[k] == l {
                assert(s[s.len() - 1] == l);
            } else {
                assert(sp.contains(r[k]));
                assert(p.contains(r[k]));
                let m = choose|m: int| 0 <= m < p.len() && p[m] == r[k];
                assert(s[m] == p[m]);
            }
        }
        assert forall|z: (Seq<char>, Seq<char>)| s.contains(z) implies #[trigger] r.contains(z) by {
            let m = choose|m: int| 0 <= m < s.len() && s[m] == z;
            if m < p.len() {
                assert(p[m] == z);
                assert(sp.contains(z));
            }
        }
    }
}

/// A company page lists each person once: the page is the rendering of a member list whose
/// person slugs are pairwise distinct, every member being a listing of the company and every
/// listed person appearing; so its contact count is the number of distinct people.
pub proof fn lemma_page_lists_each_person_once(g: GroupV)
    ensures
        exists|ms: Seq<(Seq<char>, Seq<char>)>|
            {
                &&& #[trigger] page_spec(g.display, ms, sort_strs(g.variants)) == group_page(g)
                &&& slugs_distinct(ms)
                &&& forall|i: int| 0 <= i < ms.len() ==> g.members.contains(#[trigger] ms[i])
                &&& forall|i: int| 0 <= i < g.members.len() ==> has_member_slug(ms, (#[trigger] g.members[i]).0)
            },
{
    let d = dedup_members(g.members);
    lemma_dedup_unique(g.members);
    lemma_dedup_covers(g.members);
    assert(slugs_distinct(d));
    lemma_sort_keeps_distinct(d);
    let ms = sort_members(d);
    assert forall|i: int| 0 <= i < ms.len() implies g.members.contains(#[trigger] ms[i]) by {
        assert(d.contains(ms[i]));
        let k = choose|k: int| 0 <= k < d.len() && d[k] == ms[i];
    }
    assert forall|i: int| 0 <= i < g.members.len() implies has_member_slug(ms, (#[trigger] g.members[i]).0) by {
        assert(has_member_slug(d, g.members[i].0));
        let j = choose|j: int| 0 <= j < d.len() && d[j].0 == g.members[i].0;
        assert(d.contains(d[j]));
        assert(ms.contains(d[j]));
        let q = choose|q: int| 0 <= q < ms.len() && ms[q] == d[j];
    }
    assert(page_spec(g.display, ms, sort_strs(g.variants)) == group_page(g));
}

/// Whether a member with this person slug is in the list.
pub open spec fn has_member_slug(r: Seq<(Seq<char>, Seq<char>)>, slug: Seq<char>) -> bool {
    exists|j: int| 0 <= j < r.len() && r[j].0 == slug
}

/// Every member of a company page is a listing of the company, and every listed person is a
/// member.
pub proof fn lemma_dedup_covers(s: Seq<(Seq<char>, Seq<char>)>)
    ensures
        forall|i: int| 0 <= i < dedup_members(s).len() ==> s.contains(#[trigger] dedup_members(s)[i]),
        forall|i: int| 0 <= i < s.len() ==> has_member_slug(dedup_members(s), #[trigger] s[i].0),
    decreases s.len(),
{
    if s.len() > 0 {
        let p = s.drop_last();
        lemma_dedup_covers(p);
        let r = dedup_members(p);
        let d = dedup_members(s);
        assert forall|i: int| 0 <= i < d.len() implies s.contains(#[trigger] d[i]) by {
            if i < r.len() {
                assert(d[i] == r[i]);
                assert(p.contains(r[i]));
                let k = choose|k: int| 0 <= k < p.len() && p[k] == r[i];
                assert(s[k] == r[i]);
            } else {
                assert(d[i] == s.last());
                assert(s[s.len() - 1] == s.last());
            }
        }
        assert forall|i: int| 0 <= i < s.len() implies has_member_slug(d, #[trigger] s[i].0) by {
            if i < p.len() {
                assert(p[i] == s[i]);
                assert(has_member_slug(r, p[i].0));
                let j = choose|j: int| 0 <= j < r.len() && r[j].0 == p[i].0;
                assert(d[j] == r[j]);
            } else {
                if has_member_slug(r, s.last().0) {
                    let j = choose|j: int| 0 <= j < r.len() && r[j].0 == s.last().0;
                    assert(d[j] == r[j]);
                } else {
                    assert(d[r.len() as int] == s.last());
                }
            }
        }
    }
}


// ---------------------------------------------------------------------------
// The order of names
// ---------------------------------------------------------------------------

proof fn lemma_lex_asym(a: Seq<char>, b: Seq<char>)
    requires
        lex_lt(a, b),
    ensures
        !lex_lt(b, a),
    decreases a.len(),
{
    if a.len() > 0 && b.len() > 0 && a[0] == b[0] {
        lemma_lex_asym(a.drop_first(), b.drop_first());
    }
}

proof fn lemma_lex_trans(a: Seq<char>, b: Seq<char>, c: Seq<char>)
    requires
        lex_lt(a, b),
        lex_lt(b, c),
    ensures
        lex_lt(a, c),
    decreases a.len(),
{
    if a.len() > 0 && b.len() > 0 && c.len() > 0 && a[0] == b[0] && b[0] == c[0] {
        lemma_lex_trans(a.drop_first(), b.drop_first(), c.drop_first());
    }
}

proof fn lemma_lex_total(a: Seq<char>, b: Seq<char>)
    requires
        a != b,
    ensures
        lex_lt(a, b) || lex_lt(b, a),
    decreases a.len(),
{
    if a.len() > 0 && b.len() > 0 && a[0] == b[0] {
        if a.drop_first() == b.drop_first() {
            assert(a =~= seq![a[0]] + a.drop_first());
            assert(b =~= seq![b[0]] + b.drop_first());
        }
        lemma_lex_total(a.drop_first(), b.drop_first());
    } else if a.len() == 0 && b.len() == 0 {
        assert(a =~= b);
    }
}

/// "Not after" is transitive.
proof fn lemma_le_trans(a: Seq<char>, b: Seq<char>, c: Seq<char>)
    requires
        !lex_lt(b, a),
        !lex_lt(c, b),
    ensures
        !lex_lt(c, a),
{
    if lex_lt(c, a) {
        if a != b {
            lemma_lex_total(a, b);
            lemma_lex_trans(c, a, b);
        }
    }
}

/// Members in the order of their names (a name never comes before a smaller one).
pub open spec fn sorted_by_name(s: Seq<(Seq<char>, Seq<char>)>) -> bool {
    forall|i: int, j: int| 0 <= i < j < s.len() ==> !lex_lt(#[trigger] s[j].1, #[trigger] s[i].1)
}

proof fn lemma_insert_member(s: Seq<(Seq<char>, Seq<char>)>, x: (Seq<char>, Seq<char>))
    requires
        sorted_by_name(s),
    ensures
        sorted_by_name(insert_member(s, x)),
        insert_member(s, x).to_multiset() =~= s.to_multiset().insert(x),
        insert_member(s, x).len() == s.len() + 1,
        forall|k: int|
            0 <= k < insert_member(s, x).len() ==> #[trigger] insert_member(s, x)[k] == x || s.contains(
                insert_member(s, x)[k],
            ),
    decreases s.len(),
{
    broadcast use vstd::seq_lib::group_to_multiset_ensures;

    let r = insert_member(s, x);
    if s.len() > 0 && lex_lt(x.1, s.last().1) {
        let p = s.drop_last();
        assert(sorted_by_name(p)) by {
            assert forall|i: int, j: int| 0 <= i < j < p.len() implies !lex_lt(#[trigger] p[j].1, #[trigger] p[i].1) by {
                assert(p[i] == s[i] && p[j] == s[j]);
            }
        }
        lemma_insert_member(p, x);
        let t = insert_member(p, x);
        assert(r == t.push(s.last()));
        assert forall|k: int| 0 <= k < t.len() implies !lex_lt(s.last().1, #[trigger] t[k].1) by {
            if t[k] == x {
                lemma_lex_asym(x.1, s.last().1);
            } else {
                assert(p.contains(t[k]));
                let m = choose|m: int| 0 <= m < p.len() && p[m] == t[k];
                assert(s[m] == p[m]);
                assert(s[s.len() - 1] == s.last());
            }
        }
        assert forall|i: int, j: int| 0 <= i < j < r.len() implies !lex_lt(#[trigger] r[j].1, #[trigger] r[i].1) by {
            if j == t.len() {
                assert(r[i] == t[i]);
                assert(r[j] == s.last());
            } else {
                assert(r[i] == t[i] && r[j] == t[j]);
            }
        }
        assert forall|k: int| 0 <= k < r.len() implies #[trigger] r[k] == x || s.contains(r[k]) by {
            if k < t.len() {
                assert(r[k] == t[k]);
                if t[k] != x {
                    assert(p.contains(t[k]));
                    let m = choose|m: int| 0 <= m < p.len() && p[m] == t[k];
                    assert(s[m] == p[m]);
                }
            } else {
                assert(s[s.len() - 1] == r[k]);
            }
        }
        assert(s =~= p.push(s.last()));
        assert(r.to_multiset() =~= t.to_multiset().insert(s.last()));
        assert(s.to_multiset() =~= p.to_multiset().insert(s.last()));
    } else {
        assert(r == s.push(x));
        assert forall|i: int, j: int| 0 <= i < j < r.len() implies !lex_lt(#[trigger] r[j].1, #[trigger] r[i].1) by {
            if j == s.len() {
                assert(r[i] == s[i]);
                assert(r[j] == x);
                if i < s.len() - 1 {
                    assert(!lex_lt(s[s.len() - 1].1, s[i].1));
                    lemma_le_trans(s[i].1, s[s.len() - 1].1, x.1);
                }
            } else {
                assert(r[i] == s[i] && r[j] == s[j]);
            }
        }
        assert forall|k: int| 0 <= k < r.len() implies #[trigger] r[k] == x || s.contains(r[k]) by {
            if k < s.len() {
                assert(r[k] == s[k]);
            }
        }
    }
}

/// A company page lists its members in the order of their names, and lists each of them: the
/// sorted list is a reordering of the given one.
pub proof fn lemma_members_sorted(s: Seq<(Seq<char>, Seq<char>)>)
    ensures
        sorted_by_name(sort_members(s)),
        sort_members(s).to_multiset() =~= s.to_multiset(),
        sort_members(s).len() == s.len(),
    decreases s.len(),
{
    broadcast use vstd::seq_lib::group_to_multiset_ensures;

    if s.len() > 0 {
        let p = s.drop_last();
        lemma_members_sorted(p);
        lemma_insert_member(sort_members(p), s.last());
        assert(s =~= p.push(s.last()));
    } else {
        assert(s.to_multiset() =~= vstd::multiset::Multiset::empty());
        assert(sort_members(s).to_multiset() =~= vstd::multiset::Multiset::empty());
    }
}


/// Names in order (a name never comes before a smaller one).
pub open spec fn sorted_names(s: Seq<Seq<char>>) -> bool {
    forall|i: int, j: int| 0 <= i < j < s.len() ==> !lex_lt(#[trigger] s[j], #[trigger] s[i])
}

proof fn lemma_insert_str(s: Seq<Seq<char>>, x: Seq<char>)
    requires
        sorted_names(s),
    ensures
        sorted_names(insert_str(s, x)),
        insert_str(s, x).to_multiset() =~= s.to_multiset().insert(x),
        insert_str(s, x).len() == s.len() + 1,
        forall|k: int|
            0 <= k < insert_str(s, x).len() ==> #[trigger] insert_str(s, x)[k] == x || s.contains(insert_str(s, x)[k]),
    decreases s.len(),
{
    broadcast use vstd::seq_lib::group_to_multiset_ensures;

    let r = insert_str(s, x);
    if s.len() > 0 && lex_lt(x, s.last()) {
        let p = s.drop_last();
        assert(sorted_names(p)) by {
            assert forall|i: int, j: int| 0 <= i < j < p.len() implies !lex_lt(#[trigger] p[j], #[trigger] p[i]) by {
                assert(p[i] == s[i] && p[j] == s[j]);
            }
        }
        lemma_insert_str(p, x);
        let t = insert_str(p, x);
        assert(r == t.push(s.last()));
        assert forall|k: int| 0 <= k < t.len() implies !lex_lt(s.last(), #[trigger] t[k]) by {
            if t[k] == x {
                lemma_lex_asym(x, s.last());
            } else {
                assert(p.contains(t[k]));
                let m = choose|m: int| 0 <= m < p.len() && p[m] == t[k];
                assert(s[m] == p[m]);
                assert(s[s.len() - 1] == s.last());
            }
        }
        assert forall|i: int, j: int| 0 <= i < j < r.len() implies !lex_lt(#[trigger] r[j], #[trigger] r[i]) by {
            if j == t.len() {
                assert(r[i] == t[i]);
                assert(r[j] == s.last());
            } else {
                assert(r[i] == t[i] && r[j] == t[j]);
            }
        }
        assert forall|k: int| 0 <= k < r.len() implies #[trigger] r[k] == x || s.contains(r[k]) by {
            if k < t.len() {
                assert(r[k] == t[k]);
                if t[k] != x {
                    assert(p.contains(t[k]));
                    let m = choose|m: int| 0 <= m < p.len() && p[m] == t[k];
                    assert(s[m] == p[m]);
                }
            } else {
                assert(s[s.len() - 1] == r[k]);
            }
        }
        assert(s =~= p.push(s.last()));
        assert(r.to_multiset() =~= t.to_multiset().insert(s.last()));
        assert(s.to_multiset() =~= p.to_multiset().insert(s.last()));
    } else {
        assert(r == s.push(x));
        assert forall|i: int, j: int| 0 <= i < j < r.len() implies !lex_lt(#[trigger] r[j], #[trigger] r[i]) by {
            if j == s.len() {
                assert(r[i] == s[i]);
                assert(r[j] == x);
                if i < s.len() - 1 {
                    assert(!lex_lt(s[s.len() - 1], s[i]));
                    lemma_le_trans(s[i], s[s.len() - 1], x);
                }
            } else {
                assert(r[i] == s[i] && r[j] == s[j]);
            }
        }
        assert forall|k: int| 0 <= k < r.len() implies #[trigger] r[k] == x || s.contains(r[k]) by {
            if k < s.len() {
                assert(r[k] == s[k]);
            }
        }
    }
}

/// A company page lists its other names in order, and all of them.
pub proof fn lemma_names_sorted(s: Seq<Seq<char>>)
    ensures
        sorted_names(sort_strs(s)),
        sort_strs(s).to_multiset() =~= s.to_multiset(),
        sort_strs(s).len() == s.len(),
    decreases s.len(),
{
    broadcast use vstd::seq_lib::group_to_multiset_ensures;

    if s.len() > 0 {
        let p = s.drop_last();
        lemma_names_sorted(p);
        lemma_insert_str(sort_strs(p), s.last());
        assert(s =~= p.push(s.last()));
    } else {
        assert(s.to_multiset() =~= vstd::multiset::Multiset::empty());
        assert(sort_strs(s).to_multiset() =~= vstd::multiset::Multiset::empty());
    }
}

} // verus!
