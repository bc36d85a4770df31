//! Character-level text utilities shared by the parsers and renderers of the library.
//! Every function is stated over `Seq<char>`, the view of `str` and `String`.
use vstd::prelude::*;

verus! {

/// Appends one character to a string (`String::push`).
#[verifier::external_body]
pub(crate) fn push_char(s: &mut String, c: char)
    ensures
        final(s)@ == old(s)@.push(c),
{
    s.push(c);
}

/// The characters of a string slice, in order.
pub fn chars_of(s: &str) -> (r: Vec<char>)
    ensures
        r@ == s@,
{
    let mut r: Vec<char> = Vec::new();
    for c in it: s.chars()
        invariant
            r@ == it.seq().take(it.index() as int),
    {
        r.push(c);
    }
    r
}

/// Builds a string from characters.
pub fn string_of(v: &[char]) -> (r: String)
    ensures
        r@ == v@,
{
    let mut r = String::new();
    let mut i: usize = 0;
    while i < v.len()
        invariant
            i <= v.len(),
            r@ == v@.take(i as int),
        decreases v.len() - i,
    {
        push_char(&mut r, v[i]);
        assert(v@.take(i as int + 1) == v@.take(i as int).push(v@[i as int]));
        i += 1;
    }
    assert(v@.take(v.len() as int) == v@);
    r
}

/// Appends every character of `tail` to `out`.
pub fn push_str(out: &mut String, tail: &str)
    ensures
        final(out)@ == old(out)@ + tail@,
{
    let cs = chars_of(tail);
    let mut i: usize = 0;
    while i < cs.len()
        invariant
            i <= cs.len(),
            cs@ == tail@,
            out@ == old(out)@ + tail@.take(i as int),
        decreases cs.len() - i,
    {
        push_char(out, cs[i]);
        assert(tail@.take(i as int + 1) == tail@.take(i as int).push(tail@[i as int]));
        i += 1;
    }
    assert(tail@.take(cs.len() as int) == tail@);
}

/// Appends characters to a string.
pub fn push_chars(out: &mut String, tail: &[char])
    ensures
        final(out)@ == old(out)@ + tail@,
{
    let mut i: usize = 0;
    while i < tail.len()
        invariant
            i <= tail.len(),
            out@ == old(out)@ + tail@.take(i as int),
        decreases tail.len() - i,
    {
        push_char(out, tail[i]);
        assert(tail@.take(i as int + 1) == tail@.take(i as int).push(tail@[i as int]));
        i += 1;
    }
    assert(tail@.take(tail.len() as int) == tail@);
}

/// An owned copy of a string slice.
pub fn owned(s: &str) -> (r: String)
    ensures
        r@ == s@,
{
    s.to_owned()
}

/// Whether two strings hold the same characters.
pub fn str_eq(a: &str, b: &str) -> (r: bool)
    ensures
        r == (a@ == b@),
{
    let x = chars_of(a);
    let y = chars_of(b);
    chars_eq(&x, &y)
}

/// Whether two character slices are equal.
pub fn chars_eq(a: &[char], b: &[char]) -> (r: bool)
    ensures
        r == (a@ == b@),
{
    if a.len() != b.len() {
        return false;
    }
    let mut i: usize = 0;
    while i < a.len()
        invariant
            a.len() == b.len(),
            i <= a.len(),
            forall|j: int| 0 <= j < i ==> a@[j] == b@[j],
        decreases a.len() - i,
    {
        if a[i] != b[i] {
            return false;
        }
        i += 1;
    }
    assert(a@ =~= b@);
    true
}

// ---------------------------------------------------------------------------
// White space and trimming
// ---------------------------------------------------------------------------

/// Unicode `White_Space`, the set that `char::is_whitespace` and `str::trim` use.
pub open spec fn is_ws(c: char) -> bool {
    ||| '\t' <= c <= '\r'
    ||| c == ' '
    ||| c == '\u{85}'
    ||| c == '\u{a0}'
    ||| c == '\u{1680}'
    ||| '\u{2000}' <= c <= '\u{200a}'
    ||| c == '\u{2028}'
    ||| c == '\u{2029}'
    ||| c == '\u{202f}'
    ||| c == '\u{205f}'
    ||| c == '\u{3000}'
}

pub fn is_ws_char(c: char) -> (r: bool)
    ensures
        r == is_ws(c),
{
    ('\t' <= c && c <= '\r') || c == ' ' || c == '\u{85}' || c == '\u{a0}' || c == '\u{1680}'
        || ('\u{2000}' <= c && c <= '\u{200a}') || c == '\u{2028}' || c == '\u{2029}'
        || c == '\u{202f}' || c == '\u{205f}' || c == '\u{3000}'
}

/// Number of white-space characters at the start.
pub open spec fn lead_ws(s: Seq<char>) -> nat
    decreases s.len(),
{
    if s.len() > 0 && is_ws(s[0]) {
        1 + lead_ws(s.drop_first())
    } else {
        0
    }
}

/// Number of white-space characters at the end.
pub open spec fn trail_ws(s: Seq<char>) -> nat
    decreases s.len(),
{
    if s.len() > 0 && is_ws(s.last()) {
        1 + trail_ws(s.drop_last())
    } else {
        0
    }
}

pub open spec fn trim_start_spec(s: Seq<char>) -> Seq<char> {
    s.skip(lead_ws(s) as int)
}

pub open spec fn trim_end_spec(s: Seq<char>) -> Seq<char> {
    s.take(s.len() - trail_ws(s))
}

/// `str::trim`: white space removed at both ends.
pub open spec fn trim_spec(s: Seq<char>) -> Seq<char> {
    trim_end_spec(trim_start_spec(s))
}

pub proof fn lemma_lead_ws_bound(s: Seq<char>)
    ensures
        lead_ws(s) <= s.len(),
        forall|j: int| 0 <= j < lead_ws(s) ==> is_ws(#[trigger] s[j]),
        lead_ws(s) < s.len() ==> !is_ws(s[lead_ws(s) as int]),
    decreases s.len(),
{
    if s.len() > 0 && is_ws(s[0]) {
        lemma_lead_ws_bound(s.drop_first());
        assert forall|j: int| 0 <= j < lead_ws(s) implies is_ws(#[trigger] s[j]) by {
            if j > 0 {
                assert(s[j] == s.drop_first()[j - 1]);
            }
        }
    }
}

pub proof fn lemma_trail_ws_bound(s: Seq<char>)
    ensures
        trail_ws(s) <= s.len(),
        forall|j: int| s.len() - trail_ws(s) <= j < s.len() ==> is_ws(#[trigger] s[j]),
        trail_ws(s) < s.len() ==> !is_ws(s[s.len() - trail_ws(s) - 1]),
    decreases s.len(),
{
    if s.len() > 0 && is_ws(s.last()) {
        lemma_trail_ws_bound(s.drop_last());
        assert forall|j: int| s.len() - trail_ws(s) <= j < s.len() implies is_ws(#[trigger] s[j]) by {
            if j < s.len() - 1 {
                assert(s[j] == s.drop_last()[j]);
            }
        }
    }
}

/// Count of leading white space.
pub fn lead_ws_count(v: &[char]) -> (r: usize)
    ensures
        r == lead_ws(v@),
{
    let mut i: usize = 0;
    assert(v@.skip(0) =~= v@);
    while i < v.len() && is_ws_char(v[i])
        invariant
            i <= v.len(),
            lead_ws(v@) == i + lead_ws(v@.skip(i as int)),
        decreases v.len() - i,
    {
        assert(v@.skip(i as int).drop_first() =~= v@.skip(i as int + 1));
        i += 1;
    }
    assert(lead_ws(v@.skip(i as int)) == 0) by {
        if i < v.len() {
            assert(v@.skip(i as int)[0] == v@[i as int]);
        }
    }
    i
}

/// Count of trailing white space.
pub fn trail_ws_count(v: &[char]) -> (r: usize)
    ensures
        r == trail_ws(v@),
{
    let mut j: usize = v.len();
    assert(v@.take(v.len() as int) =~= v@);
    while j > 0 && is_ws_char(v[j - 1])
        invariant
            j <= v.len(),
            trail_ws(v@) == (v.len() - j) + trail_ws(v@.take(j as int)),
        decreases j,
    {
        assert(v@.take(j as int).drop_last() =~= v@.take(j as int - 1));
        j -= 1;
    }
    assert(trail_ws(v@.take(j as int)) == 0) by {
        if j > 0 {
            assert(v@.take(j as int).last() == v@[j as int - 1]);
        }
    }
    v.len() - j
}

/// The characters `v[a..b]`.
pub fn slice_chars(v: &[char], a: usize, b: usize) -> (r: Vec<char>)
    requires
        a <= b <= v.len(),
    ensures
        r@ == v@.subrange(a as int, b as int),
{
    let mut r: Vec<char> = Vec::new();
    let mut i: usize = a;
    while i < b
        invariant
            a <= i <= b <= v.len(),
            r@ == v@.subrange(a as int, i as int),
        decreases b - i,
    {
        r.push(v[i]);
        assert(v@.subrange(a as int, i as int + 1) == v@.subrange(a as int, i as int).push(v@[i as int]));
        i += 1;
    }
    r
}

/// `str::trim` on characters.
pub fn trim_chars(v: &[char]) -> (r: Vec<char>)
    ensures
        r@ == trim_spec(v@),
{
    let a = lead_ws_count(v);
    proof { lemma_lead_ws_bound(v@); }
    let mid = slice_chars(v, a, v.len());
    assert(mid@ == trim_start_spec(v@));
    let b = trail_ws_count(&mid);
    proof { lemma_trail_ws_bound(mid@); }
    let r = slice_chars(&mid, 0, mid.len() - b);
    assert(r@ =~= trim_end_spec(mid@));
    r
}

/// `str::trim`.
pub fn trim(s: &str) -> (r: String)
    ensures
        r@ == trim_spec(s@),
{
    let v = chars_of(s);
    let t = trim_chars(&v);
    string_of(&t)
}

/// `str::trim_end` on characters.
pub fn trim_end_chars(v: &[char]) -> (r: Vec<char>)
    ensures
        r@ == trim_end_spec(v@),
{
    let b = trail_ws_count(v);
    proof { lemma_trail_ws_bound(v@); }
    let r = slice_chars(v, 0, v.len() - b);
    assert(r@ =~= trim_end_spec(v@));
    r
}

/// `str::trim_end`.
pub fn trim_end(s: &str) -> (r: String)
    ensures
        r@ == trim_end_spec(s@),
{
    let v = chars_of(s);
    let t = trim_end_chars(&v);
    string_of(&t)
}

// ---------------------------------------------------------------------------
// ASCII case
// ---------------------------------------------------------------------------

pub open spec fn lower_char(c: char) -> char {
    if 'A' <= c <= 'Z' {
        ((c as u32) + 32) as char
    } else {
        c
    }
}

/// `str::to_ascii_lowercase`: ASCII capitals lowered, everything else kept.
pub open spec fn lower_seq(s: Seq<char>) -> Seq<char> {
    s.map_values(|c: char| lower_char(c))
}

pub fn to_lower_char(c: char) -> (r: char)
    ensures
        r == lower_char(c),
{
    if 'A' <= c && c <= 'Z' {
        let b: u8 = (c as u32 + 32) as u8;
        b as char
    } else {
        c
    }
}

pub fn lower_chars(v: &[char]) -> (r: Vec<char>)
    ensures
        r@ == lower_seq(v@),
{
    let mut r: Vec<char> = Vec::new();
    let mut i: usize = 0;
    while i < v.len()
        invariant
            i <= v.len(),
            r@ == lower_seq(v@.take(i as int)),
        decreases v.len() - i,
    {
        let c = to_lower_char(v[i]);
        r.push(c);
        assert(lower_seq(v@.take(i as int + 1)) =~= lower_seq(v@.take(i as int)).push(c));
        i += 1;
    }
    assert(v@.take(v.len() as int) == v@);
    r
}

/// `str::to_ascii_lowercase`.
pub fn to_ascii_lower(s: &str) -> (r: String)
    ensures
        r@ == lower_seq(s@),
{
    let v = chars_of(s);
    let l = lower_chars(&v);
    string_of(&l)
}

// ---------------------------------------------------------------------------
// Searching
// ---------------------------------------------------------------------------

/// `p` occurs in `s` at index `i`.
pub open spec fn occurs_at(s: Seq<char>, p: Seq<char>, i: int) -> bool {
    0 <= i && i + p.len() <= s.len() && s.subrange(i, i + p.len()) == p
}

pub open spec fn has_sub(s: Seq<char>, p: Seq<char>) -> bool {
    exists|i: int| occurs_at(s, p, i)
}

pub open spec fn has_prefix(s: Seq<char>, p: Seq<char>) -> bool {
    occurs_at(s, p, 0)
}

pub open spec fn has_suffix(s: Seq<char>, p: Seq<char>) -> bool {
    occurs_at(s, p, s.len() - p.len())
}

/// A piece set between two others occurs in the whole.
pub proof fn lemma_middle_occurs(a: Seq<char>, b: Seq<char>, c: Seq<char>)
    ensures
        occurs_at(a + b + c, b, a.len() as int),
        has_sub(a + b + c, b),
{
    assert((a + b + c).subrange(a.len() as int, (a.len() + b.len()) as int) =~= b);
}

/// Whether `p` occurs in `s` at `i`.
pub fn occurs_at_exec(s: &[char], p: &[char], i: usize) -> (r: bool)
    ensures
        r == occurs_at(s@, p@, i as int),
{
    if i > s.len() || p.len() > s.len() - i {
        return false;
    }
    let mut k: usize = 0;
    while k < p.len()
        invariant
            i + p.len() <= s.len(),
            k <= p.len(),
            forall|j: int| 0 <= j < k ==> s@[i + j] == p@[j],
        decreases p.len() - k,
    {
        if s[i + k] != p[k] {
            assert(s@.subrange(i as int, i + p.len())[k as int] != p@[k as int]);
            return false;
        }
        k += 1;
    }
    assert(s@.subrange(i as int, i + p.len()) =~= p@);
    true
}

/// The first index at or after `from` where `p` occurs in `s`.
pub fn find_from(s: &[char], p: &[char], from: usize) -> (r: Option<usize>)
    ensures
        match r {
            Some(i) => from <= i && occurs_at(s@, p@, i as int) && forall|j: int|
                from <= j < i ==> !occurs_at(s@, p@, j),
            None => forall|j: int| from <= j ==> !occurs_at(s@, p@, j),
        },
{
    if from > s.len() {
        return None;
    }
    let mut i: usize = from;
    loop
        invariant
            from <= i <= s.len(),
            forall|j: int| from <= j < i ==> !occurs_at(s@, p@, j),
        decreases s.len() - i,
    {
        if occurs_at_exec(s, p, i) {
            return Some(i);
        }
        if i == s.len() {
            return None;
        }
        i += 1;
    }
}

/// Whether `p` occurs anywhere in `s`.
pub fn contains_chars(s: &[char], p: &[char]) -> (r: bool)
    ensures
        r == has_sub(s@, p@),
{
    match find_from(s, p, 0) {
        Some(i) => true,
        None => {
            assert(!has_sub(s@, p@)) by {
                if has_sub(s@, p@) {
                    let i = choose|i: int| occurs_at(s@, p@, i);
                    assert(0 <= i);
                }
            }
            false
        },
    }
}

/// `str::contains`.
pub fn contains_str(s: &str, p: &str) -> (r: bool)
    ensures
        r == has_sub(s@, p@),
{
    let a = chars_of(s);
    let b = chars_of(p);
    contains_chars(&a, &b)
}

/// `str::starts_with`.
pub fn starts_with_str(s: &str, p: &str) -> (r: bool)
    ensures
        r == has_prefix(s@, p@),
{
    let a = chars_of(s);
    let b = chars_of(p);
    occurs_at_exec(&a, &b, 0)
}

/// `str::ends_with`.
pub fn ends_with_str(s: &str, p: &str) -> (r: bool)
    ensures
        r == has_suffix(s@, p@),
{
    let a = chars_of(s);
    let b = chars_of(p);
    if b.len() > a.len() {
        return false;
    }
    occurs_at_exec(&a, &b, a.len() - b.len())
}

/// `str::strip_prefix`.
pub fn strip_prefix_str(s: &str, p: &str) -> (r: Option<String>)
    ensures
        match r {
            Some(t) => has_prefix(s@, p@) && t@ == s@.skip(p@.len() as int),
            None => !has_prefix(s@, p@),
        },
{
    let a = chars_of(s);
    let b = chars_of(p);
    if occurs_at_exec(&a, &b, 0) {
        let rest = slice_chars(&a, b.len(), a.len());
        Some(string_of(&rest))
    } else {
        None
    }
}

/// Some key of `keys` occurs in `s`.
pub open spec fn has_any(s: Seq<char>, keys: Seq<Seq<char>>) -> bool {
    exists|k: int| 0 <= k < keys.len() && has_sub(s, #[trigger] keys[k])
}

pub open spec fn strs_view(v: Seq<&str>) -> Seq<Seq<char>> {
    v.map_values(|s: &str| s@)
}

/// Whether any of `keys` occurs in `s`.
pub fn contains_any(s: &str, keys: &Vec<&str>) -> (r: bool)
    ensures
        r == has_any(s@, strs_view(keys@)),
{
    let mut k: usize = 0;
    while k < keys.len()
        invariant
            k <= keys.len(),
            forall|m: int| 0 <= m < k ==> !has_sub(s@, #[trigger] strs_view(keys@)[m]),
        decreases keys.len() - k,
    {
        if contains_str(s, keys[k]) {
            assert(has_sub(s@, strs_view(keys@)[k as int]));
            return true;
        }
        k += 1;
    }
    false
}

/// Characters before the first line feed (all of them when there is none).
pub open spec fn until_nl(s: Seq<char>) -> Seq<char>
    decreases s.len(),
{
    if s.len() == 0 {
        s
    } else if s[0] == '\n' {
        Seq::empty()
    } else {
        seq![s[0]] + until_nl(s.drop_first())
    }
}

/// Whether `s` holds a line feed.
pub open spec fn has_nl(s: Seq<char>) -> bool {
    exists|i: int| 0 <= i < s.len() && s[i] == '\n'
}

/// The first item of `str::lines` (the empty text gives the empty line): up to the first line
/// feed, without a carriage return just before it.
pub open spec fn first_line_spec(s: Seq<char>) -> Seq<char> {
    let l = until_nl(s);
    if has_nl(s) && l.len() > 0 && l.last() == '\r' {
        l.drop_last()
    } else {
        l
    }
}

/// The index of the first line feed at or after `from`, or the length.
pub fn next_nl(v: &[char], from: usize) -> (r: usize)
    requires
        from <= v.len(),
    ensures
        from <= r <= v.len(),
        forall|j: int| from <= j < r ==> v@[j] != '\n',
        r < v.len() ==> v@[r as int] == '\n',
        until_nl(v@.skip(from as int)) == v@.subrange(from as int, r as int),
{
    let mut i: usize = from;
    while i < v.len() && v[i] != '\n'
        invariant
            from <= i <= v.len(),
            forall|j: int| from <= j < i ==> v@[j] != '\n',
            until_nl(v@.skip(from as int)) == v@.subrange(from as int, i as int) + until_nl(v@.skip(i as int)),
        decreases v.len() - i,
    {
        assert(v@.skip(i as int).drop_first() =~= v@.skip(i as int + 1));
        assert(v@.subrange(from as int, i as int) + seq![v@[i as int]] =~= v@.subrange(from as int, i as int + 1));
        i += 1;
    }
    if i < v.len() {
        assert(v@.skip(i as int)[0] == '\n');
    }
    assert(until_nl(v@.skip(i as int)) =~= Seq::<char>::empty());
    assert(v@.subrange(from as int, i as int) + Seq::<char>::empty() =~= v@.subrange(from as int, i as int));
    i
}

/// The first line of a text, as `str::lines().next()` gives it (empty for empty text).
pub fn first_line(s: &str) -> (r: String)
    ensures
        r@ == first_line_spec(s@),
{
    let v = chars_of(s);
    let k = next_nl(&v, 0);
    assert(v@.skip(0) =~= v@);
    let mut end = k;
    if k < v.len() && k > 0 && v[k - 1] == '\r' {
        end = k - 1;
    }
    proof {
        if k < v.len() {
            assert(has_nl(v@));
        } else {
            assert(!has_nl(v@));
        }
    }
    let r = slice_chars(&v, 0, end);
    assert(r@ =~= first_line_spec(s@));
    string_of(&r)
}

pub proof fn lemma_until_nl(s: Seq<char>)
    ensures
        until_nl(s).len() <= s.len(),
        until_nl(s) == s.take(until_nl(s).len() as int),
        has_nl(s) <==> until_nl(s).len() < s.len(),
        has_nl(s) ==> s[until_nl(s).len() as int] == '\n',
    decreases s.len(),
{
    if s.len() > 0 && s[0] != '\n' {
        lemma_until_nl(s.drop_first());
        assert(until_nl(s) =~= s.take(until_nl(s).len() as int));
        if has_nl(s) {
            let i = choose|i: int| 0 <= i < s.len() && s[i] == '\n';
            assert(s.drop_first()[i - 1] == '\n');
        }
        if has_nl(s.drop_first()) {
            let i = choose|i: int| 0 <= i < s.drop_first().len() && s.drop_first()[i] == '\n';
            assert(s[i + 1] == '\n');
        }
    } else if s.len() > 0 {
        assert(has_nl(s) && s[0] == '\n');
    }
}

/// The characters after the first line feed (empty when there is none).
pub open spec fn after_nl(s: Seq<char>) -> Seq<char> {
    if has_nl(s) {
        s.skip(until_nl(s).len() as int + 1)
    } else {
        Seq::empty()
    }
}

/// `str::lines`: the text split at line feeds, a carriage return before a line feed dropped,
/// no final empty line.
pub open spec fn lines_spec(s: Seq<char>) -> Seq<Seq<char>>
    decreases s.len(),
{
    if s.len() == 0 {
        Seq::empty()
    } else {
        seq![first_line_spec(s)] + lines_spec(
            if has_nl(s) && until_nl(s).len() < s.len() { s.skip(until_nl(s).len() as int + 1) } else { Seq::empty() },
        )
    }
}

/// The lines of a text (`str::lines`).
pub fn lines(s: &str) -> (r: Vec<String>)
    ensures
        views_of(r@) == lines_spec(s@),
{
    let v = chars_of(s);
    let mut out: Vec<String> = Vec::new();
    let mut pos: usize = 0;
    assert(v@.skip(0) =~= v@);
    assert(views_of(out@) + lines_spec(v@) =~= lines_spec(v@));
    while pos < v.len()
        invariant
            pos <= v.len(),
            v@ == s@,
            lines_spec(s@) == views_of(out@) + lines_spec(v@.skip(pos as int)),
        decreases v.len() - pos,
    {
        let k = next_nl(&v, pos);
        let ghost rest = v@.skip(pos as int);
        proof { lemma_until_nl(rest); }
        let mut end = k;
        if k < v.len() && k > pos && v[k - 1] == '\r' {
            end = k - 1;
        }
        let line = slice_chars(&v, pos, end);
        proof {
            assert(until_nl(rest) =~= v@.subrange(pos as int, k as int));
            if k < v.len() {
                assert(rest[k - pos] == '\n');
                assert(has_nl(rest));
            } else {
                assert(!has_nl(rest));
            }
            assert(line@ =~= first_line_spec(rest));
        }
        let ghost before = out@;
        out.push(string_of(&line));
        assert(views_of(out@) =~= views_of(before).push(line@));
        if k < v.len() {
            assert(rest.skip(until_nl(rest).len() as int + 1) =~= v@.skip(k as int + 1));
            pos = k + 1;
        } else {
            assert(v@.skip(v.len() as int) =~= Seq::<char>::empty());
            pos = v.len();
        }
        assert(lines_spec(s@) =~= views_of(out@) + lines_spec(v@.skip(pos as int)));
    }
    assert(v@.skip(pos as int) =~= Seq::<char>::empty());
    assert(views_of(out@) + Seq::<Seq<char>>::empty() =~= views_of(out@));
    out
}

/// The first `n` characters, or all of them.
pub fn take_chars(s: &str, n: usize) -> (r: Vec<char>)
    ensures
        r@ == (if s@.len() <= n { s@ } else { s@.take(n as int) }),
{
    let v = chars_of(s);
    if v.len() <= n {
        v
    } else {
        slice_chars(&v, 0, n)
    }
}

/// Number of leading copies of `c`.
pub open spec fn lead_of(s: Seq<char>, c: char) -> nat
    decreases s.len(),
{
    if s.len() > 0 && s[0] == c {
        1 + lead_of(s.drop_first(), c)
    } else {
        0
    }
}

/// Number of trailing copies of `c`.
pub open spec fn trail_of(s: Seq<char>, c: char) -> nat
    decreases s.len(),
{
    if s.len() > 0 && s.last() == c {
        1 + trail_of(s.drop_last(), c)
    } else {
        0
    }
}

pub proof fn lemma_lead_of_bound(s: Seq<char>, c: char)
    ensures
        lead_of(s, c) <= s.len(),
    decreases s.len(),
{
    if s.len() > 0 && s[0] == c {
        lemma_lead_of_bound(s.drop_first(), c);
    }
}

pub proof fn lemma_trail_of_bound(s: Seq<char>, c: char)
    ensures
        trail_of(s, c) <= s.len(),
    decreases s.len(),
{
    if s.len() > 0 && s.last() == c {
        lemma_trail_of_bound(s.drop_last(), c);
    }
}

/// `str::trim_matches(c)`.
pub open spec fn trim_char_spec(s: Seq<char>, c: char) -> Seq<char> {
    let t = s.skip(lead_of(s, c) as int);
    t.take(t.len() - trail_of(t, c))
}

/// `str::trim_matches(c)` on characters.
pub fn trim_char(v: &[char], c: char) -> (r: Vec<char>)
    ensures
        r@ == trim_char_spec(v@, c),
{
    let mut i: usize = 0;
    assert(v@.skip(0) =~= v@);
    while i < v.len() && v[i] == c
        invariant
            i <= v.len(),
            lead_of(v@, c) == i + lead_of(v@.skip(i as int), c),
        decreases v.len() - i,
    {
        assert(v@.skip(i as int).drop_first() =~= v@.skip(i as int + 1));
        i += 1;
    }
    assert(lead_of(v@.skip(i as int), c) == 0) by {
        if i < v.len() {
            assert(v@.skip(i as int)[0] == v@[i as int]);
        }
    }
    let mid = slice_chars(v, i, v.len());
    let mut j: usize = mid.len();
    assert(mid@.take(mid.len() as int) =~= mid@);
    while j > 0 && mid[j - 1] == c
        invariant
            j <= mid.len(),
            trail_of(mid@, c) == (mid.len() - j) + trail_of(mid@.take(j as int), c),
        decreases j,
    {
        assert(mid@.take(j as int).drop_last() =~= mid@.take(j as int - 1));
        j -= 1;
    }
    assert(trail_of(mid@.take(j as int), c) == 0) by {
        if j > 0 {
            assert(mid@.take(j as int).last() == mid@[j as int - 1]);
        }
    }
    let r = slice_chars(&mid, 0, j);
    assert(r@ =~= trim_char_spec(v@, c));
    r
}

/// The characters after the last `c` (all of them when there is none).
pub open spec fn after_last(s: Seq<char>, c: char) -> Seq<char>
    decreases s.len(),
{
    if s.len() == 0 {
        s
    } else if s.last() == c {
        Seq::empty()
    } else {
        after_last(s.drop_last(), c).push(s.last())
    }
}

/// The characters after the last `c` (`str::rsplit(c).next()`).
pub fn after_last_exec(v: &[char], c: char) -> (r: Vec<char>)
    ensures
        r@ == after_last(v@, c),
{
    let mut j: usize = v.len();
    assert(v@.take(v.len() as int) =~= v@);
    while j > 0 && v[j - 1] != c
        invariant
            j <= v.len(),
            after_last(v@, c) == after_last(v@.take(j as int), c) + v@.subrange(j as int, v.len() as int),
        decreases j,
    {
        let ghost t = v@.take(j as int);
        assert(t.drop_last() =~= v@.take(j as int - 1));
        assert(v@.subrange(j as int - 1, v.len() as int) =~= seq![t.last()] + v@.subrange(j as int, v.len() as int));
        assert(after_last(t, c) == after_last(t.drop_last(), c).push(t.last()));
        assert(after_last(t.drop_last(), c).push(t.last()) + v@.subrange(j as int, v.len() as int)
            =~= after_last(t.drop_last(), c) + v@.subrange(j as int - 1, v.len() as int));
        j -= 1;
    }
    assert(after_last(v@.take(j as int), c) =~= Seq::<char>::empty()) by {
        if j > 0 {
            assert(v@.take(j as int).last() == v@[j as int - 1]);
        }
    }
    let r = slice_chars(v, j, v.len());
    assert(r@ =~= after_last(v@, c));
    r
}

// ---------------------------------------------------------------------------
// Joining
// ---------------------------------------------------------------------------

/// The parts joined with `sep` between neighbours (`[String]::join`).
pub open spec fn join_spec(ls: Seq<Seq<char>>, sep: Seq<char>) -> Seq<char>
    decreases ls.len(),
{
    if ls.len() == 0 {
        Seq::empty()
    } else if ls.len() == 1 {
        ls[0]
    } else {
        join_spec(ls.drop_last(), sep) + sep + ls.last()
    }
}

pub open spec fn views_of(v: Seq<String>) -> Seq<Seq<char>> {
    v.map_values(|s: String| s@)
}

/// `[String]::join`.
pub fn join(parts: &Vec<String>, sep: &str) -> (r: String)
    ensures
        r@ == join_spec(views_of(parts@), sep@),
{
    let ghost ms = views_of(parts@);
    let mut r = String::new();
    let mut i: usize = 0;
    while i < parts.len()
        invariant
            i <= parts.len(),
            ms == views_of(parts@),
            r@ == join_spec(ms.take(i as int), sep@),
        decreases parts.len() - i,
    {
        if i > 0 {
            push_str(&mut r, sep);
        }
        push_str(&mut r, parts[i].as_str());
        proof {
            let t = ms.take(i as int + 1);
            assert(t.drop_last() =~= ms.take(i as int));
            assert(t.last() == parts@[i as int]@);
            if i == 0 {
                assert(t.len() == 1);
                assert(join_spec(ms.take(0), sep@) =~= Seq::<char>::empty());
                assert(r@ =~= t[0]);
            } else {
                assert(r@ =~= join_spec(t, sep@));
            }
        }
        i += 1;
    }
    assert(ms.take(parts.len() as int) =~= ms);
    r
}

// ---------------------------------------------------------------------------
// Decimal numbers
// ---------------------------------------------------------------------------

pub open spec fn digit_char(d: nat) -> char {
    ((d + 48) as u32) as char
}

/// The decimal digits of `n`, most significant first, without leading zeros.
pub open spec fn dec_seq(n: nat) -> Seq<char>
    decreases n,
{
    if n < 10 {
        seq![digit_char(n)]
    } else {
        dec_seq(n / 10).push(digit_char(n % 10))
    }
}

pub fn to_digit_char(d: u128) -> (r: char)
    requires
        d < 10,
    ensures
        r == digit_char(d as nat),
{
    let b: u8 = (d as u8) + 48;
    b as char
}

/// Appends the decimal form of `n`.
pub fn push_dec(out: &mut String, n: u128)
    ensures
        final(out)@ == old(out)@ + dec_seq(n as nat),
    decreases n,
{
    if n >= 10 {
        push_dec(out, n / 10);
    }
    let c = to_digit_char(n % 10);
    push_char(out, c);
    assert(old(out)@ + dec_seq(n as nat) =~= final(out)@) by {
        if n >= 10 {
        }
    }
}

/// The decimal form of a signed number.
pub open spec fn int_dec_seq(n: int) -> Seq<char> {
    if n < 0 {
        "-"@ + dec_seq((-n) as nat)
    } else {
        dec_seq(n as nat)
    }
}

/// Appends the decimal form of a signed number.
pub fn push_int(out: &mut String, n: i64)
    ensures
        final(out)@ == old(out)@ + int_dec_seq(n as int),
{
    if n < 0 {
        push_str(out, "-");
        let m: i128 = -(n as i128);
        push_dec(out, m as u128);
        assert(final(out)@ =~= old(out)@ + int_dec_seq(n as int));
    } else {
        push_dec(out, n as u128);
    }
}

/// The decimal form of a signed number (`i64::to_string`).
pub fn int_string(n: i64) -> (r: String)
    ensures
        r@ == int_dec_seq(n as int),
{
    let mut s = String::new();
    push_int(&mut s, n);
    assert(s@ =~= int_dec_seq(n as int));
    s
}

/// The decimal form of `n` (`u64::to_string`).
pub fn dec_string(n: u64) -> (r: String)
    ensures
        r@ == dec_seq(n as nat),
{
    let mut s = String::new();
    push_dec(&mut s, n as u128);
    assert(s@ =~= dec_seq(n as nat));
    s
}

} // verus!
