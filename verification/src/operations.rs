//! The operation log of the server: each long-running operation keeps its output lines in a
//! ring of at most `MAX_LINES` (the oldest are dropped and counted), the front end polls for the
//! lines after the ones it has, and finished operations stay until the log holds `MAX_SESSIONS`,
//! when the oldest finished ones are removed.
use vstd::prelude::*;
use crate::gbrain_cli::{CliLine, OpResult};
use crate::l10n::{AppError, L10n};
use crate::text::{dec_seq, owned, push_dec, push_str};

verus! {

/// Lines kept per operation.
pub const MAX_LINES: usize = 4000;

/// Operations kept in the log.
pub const MAX_SESSIONS: usize = 64;

/// A poll of one operation.
#[derive(Debug, Clone)]
pub struct OpSnapshot {
    pub operation_id: String,
    /// The lines after the ones already seen.
    pub lines: Vec<CliLine>,
    pub done: bool,
    pub result: Option<OpResult>,
    /// Lines dropped by the ring so far.
    pub dropped: u64,
}

/// One operation in the log.
pub struct OpSession {
    pub id: String,
    /// The number in the id (`op-<num>`).
    pub num: u64,
    pub lines: Vec<CliLine>,
    pub dropped: u64,
    pub done: bool,
    pub result: Option<OpResult>,
}

/// The operation log, operations in creation order.
pub struct OpRegistry {
    sessions: Vec<OpSession>,
    counter: u64,
}

pub open spec fn op_id(n: nat) -> Seq<char> {
    "op-"@ + dec_seq(n)
}

pub open spec fn lines_of(s: OpSession) -> Seq<(Seq<char>, Seq<char>)> {
    crate::gbrain_cli::lines_view(s.lines@)
}

/// The ring after one more line: the line appended, the oldest dropped when full.
pub open spec fn ring_push(lines: Seq<(Seq<char>, Seq<char>)>, dropped: nat, l: (Seq<char>, Seq<char>)) -> (Seq<(Seq<char>, Seq<char>)>, nat) {
    if lines.len() >= MAX_LINES {
        (lines.drop_first().push(l), dropped + 1)
    } else {
        (lines.push(l), dropped)
    }
}

/// The ring after the given lines, from empty.
pub open spec fn ring_fill(ls: Seq<(Seq<char>, Seq<char>)>) -> (Seq<(Seq<char>, Seq<char>)>, nat)
    decreases ls.len(),
{
    if ls.len() == 0 {
        (Seq::empty(), 0)
    } else {
        let (lines, dropped) = ring_fill(ls.drop_last());
        ring_push(lines, dropped, ls.last())
    }
}

/// The ring holds the last `MAX_LINES` lines pushed, and counts the others as dropped.
pub proof fn lemma_ring_keeps_last(ls: Seq<(Seq<char>, Seq<char>)>)
    ensures
        ({
            let k = if ls.len() > MAX_LINES { ls.len() - MAX_LINES } else { 0 };
            ring_fill(ls) == (ls.skip(k as int), k as nat)
        }),
    decreases ls.len(),
{
    if ls.len() > 0 {
        lemma_ring_keeps_last(ls.drop_last());
        let p = ls.drop_last();
        let k = if p.len() > MAX_LINES { p.len() - MAX_LINES } else { 0 };
        let k2 = if ls.len() > MAX_LINES { ls.len() - MAX_LINES } else { 0 };
        if p.skip(k as int).len() >= MAX_LINES {
            assert(p.skip(k as int).drop_first().push(ls.last()) =~= ls.skip(k2 as int));
        } else {
            assert(p.skip(k as int).push(ls.last()) =~= ls.skip(k2 as int));
        }
    }
}

proof fn lemma_op_id_injective(n: nat, m: nat)
    requires
        op_id(n) == op_id(m),
    ensures
        n == m,
{
    assert(op_id(n).skip(3) =~= dec_seq(n)) by {
        reveal_strlit("op-");
    }
    assert(op_id(m).skip(3) =~= dec_seq(m)) by {
        reveal_strlit("op-");
    }
    crate::brains::lemma_dec_injective(n, m);
}

/// `i` is the place of the operation with this id.
pub open spec fn has_id(log: Seq<OpSession>, id: Seq<char>, i: int) -> bool {
    0 <= i < log.len() && log[i].id@ == id
}

/// How many finished operations `create` removes from a log of `n`: as many as it takes to make
/// room for one more under `MAX_SESSIONS`.
pub open spec fn evicted(n: nat) -> nat {
    if n >= MAX_SESSIONS {
        (n - MAX_SESSIONS + 1) as nat
    } else {
        0
    }
}

/// Removing nothing keeps the log.
pub proof fn lemma_drop_none(s: Seq<OpSession>)
    ensures
        drop_done(s, 0) == s,
    decreases s.len(),
{
    if s.len() > 0 {
        lemma_drop_none(s.drop_first());
        assert(seq![s[0]] + s.drop_first() =~= s);
    }
}

/// Removing finished operations keeps every unfinished one.
pub proof fn lemma_drop_keeps_unfinished(s: Seq<OpSession>, k: nat, i: int)
    requires
        0 <= i < s.len(),
        !s[i].done,
    ensures
        drop_done(s, k).contains(s[i]),
    decreases s.len(),
{
    if i == 0 {
        assert(drop_done(s, k) == seq![s[0]] + drop_done(s.drop_first(), k));
        assert(drop_done(s, k)[0] == s[0]);
    } else {
        let t = s.drop_first();
        assert(t[i - 1] == s[i]);
        lemma_drop_keeps_unfinished(t, if s[0].done && k > 0 { (k - 1) as nat } else { k }, i - 1);
        let d = drop_done(t, if s[0].done && k > 0 { (k - 1) as nat } else { k });
        let j = choose|j: int| 0 <= j < d.len() && d[j] == s[i];
        if !(s[0].done && k > 0) {
            assert((seq![s[0]] + d)[j + 1] == s[i]);
        }
    }
}

/// The log after removing up to `k` finished operations, oldest first: the others keep their
/// order.
pub open spec fn drop_done(s: Seq<OpSession>, k: nat) -> Seq<OpSession>
    decreases s.len(),
{
    if s.len() == 0 {
        s
    } else if s[0].done && k > 0 {
        drop_done(s.drop_first(), (k - 1) as nat)
    } else {
        seq![s[0]] + drop_done(s.drop_first(), k)
    }
}

impl OpRegistry {
    /// The log is well formed: operations numbered in increasing order up to the counter, no ring
    /// over its bound.
    pub closed spec fn wf(&self) -> bool {
        &&& forall|i: int| 0 <= i < self.sessions@.len() ==> (#[trigger] self.sessions@[i]).lines@.len() <= MAX_LINES
        &&& forall|i: int| 0 <= i < self.sessions@.len() ==> (#[trigger] self.sessions@[i]).id@ == op_id(self.sessions@[i].num as nat)
        &&& forall|i: int| 0 <= i < self.sessions@.len() ==> 1 <= (#[trigger] self.sessions@[i]).num <= self.counter
        &&& forall|i: int, j: int| 0 <= i < j < self.sessions@.len() ==> self.sessions@[i].num < self.sessions@[j].num
    }

    /// The operations in the log, oldest first.
    pub closed spec fn log(&self) -> Seq<OpSession> {
        self.sessions@
    }

    /// The ids of the operations in the log, oldest first.
    pub open spec fn ids(&self) -> Seq<Seq<char>> {
        self.log().map_values(|s: OpSession| s.id@)
    }

    /// The operation with this id, if it is in the log.
    pub open spec fn find(&self, id: Seq<char>) -> Option<OpSession> {
        if exists|i: int| has_id(self.log(), id, i) {
            Some(self.log()[choose|i: int| has_id(self.log(), id, i)])
        } else {
            None
        }
    }

    /// An id is found exactly when it is in the log, and then the operation found is the one at
    /// its place; every id in the log is `op-<n>` for its number.
    pub proof fn lemma_find_iff_ids(&self, id: Seq<char>)
        requires
            self.wf(),
        ensures
            self.find(id) is Some <==> self.ids().contains(id),
            forall|i: int| 0 <= i < self.log().len() ==> (#[trigger] self.log()[i]).id@ == op_id(self.log()[i].num as nat),
            forall|i: int| 0 <= i < self.log().len() && (#[trigger] self.log()[i]).id@ == id ==> self.find(id) == Some(
                self.log()[i],
            ),
    {
        if self.ids().contains(id) {
            let k = choose|k: int| 0 <= k < self.ids().len() && self.ids()[k] == id;
            assert(self.log()[k].id@ == id);
        }
        if self.find(id) is Some {
            let c = choose|c: int| has_id(self.log(), id, c);
            assert(self.ids()[c] == id);
        }
        assert forall|i: int| 0 <= i < self.log().len() && (#[trigger] self.log()[i]).id@ == id implies self.find(id)
            == Some(self.log()[i]) by {
            self.lemma_ids_distinct();
            assert(has_id(self.log(), id, i));
            let c = choose|c: int| has_id(self.log(), id, c);
            assert(self.ids()[c] == self.log()[c].id@);
            assert(self.ids()[i] == self.log()[i].id@);
            assert(c == i);
        }
    }

    pub closed spec fn counter(&self) -> nat {
        self.counter as nat
    }

    pub fn new() -> (r: OpRegistry)
        ensures
            r.wf(),
            r.ids().len() == 0,
            r.counter() == 0,
    {
        let r = OpRegistry { sessions: Vec::new(), counter: 0 };
        assert(r.ids() =~= Seq::<Seq<char>>::empty());
        r
    }

    /// The ids in the log are pairwise different.
    pub proof fn lemma_ids_distinct(&self)
        requires
            self.wf(),
        ensures
            forall|i: int, j: int|
                0 <= i < self.ids().len() && 0 <= j < self.ids().len() && i != j ==> self.ids()[i] != self.ids()[j],
    {
        assert forall|i: int, j: int|
            0 <= i < self.ids().len() && 0 <= j < self.ids().len() && i != j implies self.ids()[i] != self.ids()[j] by {
            let a = self.sessions@[i];
            let b = self.sessions@[j];
            if a.id@ == b.id@ {
                lemma_op_id_injective(a.num as nat, b.num as nat);
            }
        }
    }

    /// The index of the operation with this id.
    fn index_of(&self, id: &str) -> (r: Option<usize>)
        requires
            self.wf(),
        ensures
            match r {
                Some(i) => i < self.sessions@.len() && self.sessions@[i as int].id@ == id@ && self.find(id@)
                    == Some(self.sessions@[i as int]),
                None => self.find(id@) is None,
            },
    {
        let mut i: usize = 0;
        while i < self.sessions.len()
            invariant
                i <= self.sessions.len(),
                self.wf(),
                forall|k: int| 0 <= k < i ==> self.sessions@[k].id@ != id@,
            decreases self.sessions.len() - i,
        {
            if crate::text::str_eq(self.sessions[i].id.as_str(), id) {
                proof {
                    self.lemma_find_iff_ids(id@);
                    assert(self.log()[i as int].id@ == id@);
                }
                return Some(i);
            }
            i += 1;
        }
        None
    }

    /// Creates an operation, `op-<n>` for the next number; when the log is full, the oldest
    /// finished operations are removed first (as many as it takes to make room).
    pub fn create(&mut self) -> (r: String)
        requires
            old(self).wf(),
            old(self).counter() < u64::MAX,
        ensures
            final(self).wf(),
            r@ == op_id(old(self).counter() + 1),
            !old(self).ids().contains(r@),
            final(self).counter() == old(self).counter() + 1,
            final(self).ids().last() == r@,
            final(self).find(r@) matches Some(s) && s.lines@.len() == 0 && s.dropped == 0 && !s.done && s.result is None,
            final(self).log().len() > 0,
            final(self).log().drop_last() == drop_done(old(self).log(), evicted(old(self).log().len())),
            final(self).log().last().id@ == r@ && final(self).log().last().num == old(self).counter() + 1
                && final(self).log().last().lines@.len() == 0 && final(self).log().last().dropped == 0
                && !final(self).log().last().done && final(self).log().last().result is None,
            forall|id: Seq<char>|
                #[trigger] old(self).find(id) is Some && !old(self).find(id)->0.done ==> final(self).find(id) == old(
                    self,
                ).find(id),
    {
        let n = self.counter + 1;
        self.counter = n;
        let mut id = owned("op-");
        push_dec(&mut id, n as u128);
        assert(id@ =~= op_id(n as nat));
        proof {
            assert forall|i: int| 0 <= i < old(self).ids().len() implies old(self).ids()[i] != id@ by {
                let s = old(self).sessions@[i];
                if s.id@ == id@ {
                    lemma_op_id_injective(s.num as nat, n as nat);
                }
            }
        }
        if self.sessions.len() >= MAX_SESSIONS {
            let to_remove = self.sessions.len() - MAX_SESSIONS + 1;
            self.remove_done(to_remove);
        } else {
            proof { lemma_drop_none(self.sessions@); }
        }
        let ghost before = self.sessions@;
        self.sessions.push(OpSession { id: id.clone(), num: n, lines: Vec::new(), dropped: 0, done: false, result: None });
        proof {
            assert(self.ids().last() == id@);
            let last = self.sessions@.len() - 1;
            assert(self.sessions@[last].id@ == id@);
            self.lemma_find_iff_ids(id@);
            assert(self.log()[last].id@ == id@);
            assert(self.sessions@.drop_last() =~= before);
            assert forall|xid: Seq<char>| #[trigger] old(self).find(xid) is Some && !old(self).find(xid)->0.done implies self.find(
                xid,
            ) == old(self).find(xid) by {
                let x = old(self).find(xid)->0;
                let c0 = choose|c0: int| has_id(old(self).log(), xid, c0);
                lemma_drop_keeps_unfinished(old(self).sessions@, evicted(old(self).sessions@.len()), c0);
                let j = choose|j: int| 0 <= j < before.len() && before[j] == x;
                assert(self.sessions@[j] == x);
                self.lemma_find_iff_ids(xid);
            }
        }
        id
    }

    /// Appends a line to an operation's ring (dropping its oldest line when full); an unknown id
    /// changes nothing.
    pub fn push(&mut self, id: &str, line: CliLine)
        requires
            old(self).wf(),
        ensures
            final(self).wf(),
            final(self).ids() == old(self).ids(),
            final(self).counter() == old(self).counter(),
            match old(self).find(id@) {
                None => final(self).find(id@) is None,
                Some(s) => final(self).find(id@) matches Some(t) && lines_of(t) == ring_push(
                    lines_of(s),
                    s.dropped as nat,
                    line@,
                ).0 && t.dropped == (if lines_of(s).len() >= MAX_LINES && s.dropped < u64::MAX {
                    (s.dropped + 1) as u64
                } else {
                    s.dropped
                }) && t.done == s.done && t.result == s.result,
            },
    {
        match self.index_of(id) {
            None => {},
            Some(i) => {
                let ghost before = self.sessions@;
                let mut s = self.sessions.remove(i);
                let ghost lv = lines_of(s);
                if s.lines.len() >= MAX_LINES {
                    s.lines.remove(0);
                    if s.dropped < u64::MAX {
                        s.dropped = s.dropped + 1;
                    }
                }
                s.lines.push(line);
                assert(lines_of(s) =~= ring_push(lv, before[i as int].dropped as nat, line@).0);
                assert(s.id@ == id@);
                self.sessions.insert(i, s);
                proof {
                    assert(self.sessions@ =~= before.update(i as int, s));
                    assert(self.sessions@[i as int].id@ == id@);
                    assert(self.ids() =~= old(self).ids());
                    self.lemma_find_iff_ids(id@);
                    assert(self.log()[i as int].id@ == id@);
                }
            },
        }
    }

    /// Marks an operation finished with its result; an unknown id changes nothing.
    pub fn finish(&mut self, id: &str, result: OpResult)
        requires
            old(self).wf(),
        ensures
            final(self).wf(),
            final(self).ids() == old(self).ids(),
            final(self).counter() == old(self).counter(),
            match old(self).find(id@) {
                None => final(self).find(id@) is None,
                Some(s) => final(self).find(id@) matches Some(t) && t.done && t.result == Some(result)
                    && t.lines == s.lines && t.dropped == s.dropped,
            },
    {
        match self.index_of(id) {
            None => {},
            Some(i) => {
                let ghost before = self.sessions@;
                let mut s = self.sessions.remove(i);
                s.done = true;
                s.result = Some(result);
                self.sessions.insert(i, s);
                proof {
                    assert(self.sessions@ =~= before.update(i as int, s));
                    assert(self.ids() =~= old(self).ids());
                    self.lemma_find_iff_ids(id@);
                    assert(self.log()[i as int].id@ == id@);
                }
            },
        }
    }

    /// Marks an operation failed: its result is unsuccessful, without exit code or note.
    pub fn finish_err(&mut self, id: &str, err: &AppError)
        requires
            old(self).wf(),
        ensures
            final(self).wf(),
            final(self).ids() == old(self).ids(),
            final(self).counter() == old(self).counter(),
            match old(self).find(id@) {
                None => final(self).find(id@) is None,
                Some(s) => final(self).find(id@) matches Some(t) && t.done && t.result == Some(
                    OpResult { success: false, exit_code: None, note: None },
                ) && t.lines == s.lines && t.dropped == s.dropped,
            },
    {
        self.finish(id, OpResult { success: false, exit_code: None, note: None });
    }

    /// The lines of an operation after the first `since`, with its state; `None` for an unknown
    /// id.
    pub fn snapshot(&self, id: &str, since: usize) -> (r: Option<OpSnapshot>)
        requires
            self.wf(),
        ensures
            match self.find(id@) {
                None => r is None,
                Some(s) => r matches Some(snap) && snap.operation_id@ == id@ && crate::gbrain_cli::lines_view(
                    snap.lines@,
                ) == (if since <= s.lines@.len() {
                    lines_of(s).skip(since as int)
                } else {
                    Seq::empty()
                }) && snap.done == s.done && snap.dropped == s.dropped && (match s.result {
                    Some(x) => snap.result matches Some(y) && y@ == x@,
                    None => snap.result is None,
                }),
            },
    {
        let i = match self.index_of(id) {
            Some(i) => i,
            None => return None,
        };
        let s = &self.sessions[i];
        let mut lines: Vec<CliLine> = Vec::new();
        let mut k: usize = since;
        while k < s.lines.len()
            invariant
                since <= k || s.lines@.len() <= k,
                since <= s.lines@.len() ==> since <= k <= s.lines@.len(),
                since <= s.lines@.len() ==> crate::gbrain_cli::lines_view(lines@) == lines_of(*s).subrange(since as int, k as int),
                since > s.lines@.len() ==> lines@.len() == 0,
            decreases s.lines.len() - k,
        {
            let ghost before = lines@;
            let c = s.lines[k].copy();
            lines.push(c);
            assert(crate::gbrain_cli::lines_view(lines@) =~= crate::gbrain_cli::lines_view(before).push(c@));
            assert(lines_of(*s).subrange(since as int, k as int + 1) =~= lines_of(*s).subrange(since as int, k as int).push(
                lines_of(*s)[k as int],
            ));
            k += 1;
        }
        proof {
            if since <= s.lines@.len() {
                assert(lines_of(*s).subrange(since as int, s.lines@.len() as int) =~= lines_of(*s).skip(since as int));
            } else {
                assert(crate::gbrain_cli::lines_view(lines@) =~= Seq::<(Seq<char>, Seq<char>)>::empty());
            }
        }
        let result = match &s.result {
            Some(x) => Some(x.copy()),
            None => None,
        };
        Some(OpSnapshot { operation_id: owned(id), lines, done: s.done, result, dropped: s.dropped })
    }

    /// Removes up to `k` finished operations, oldest first.
    fn remove_done(&mut self, k: usize)
        requires
            old(self).wf(),
        ensures
            final(self).wf(),
            final(self).counter == old(self).counter,
            final(self).sessions@ == drop_done(old(self).sessions@, k as nat),
            forall|i: int| 0 <= i < final(self).sessions@.len() ==> old(self).sessions@.contains(#[trigger] final(self).sessions@[i]),
    {
        let mut kept: Vec<OpSession> = Vec::new();
        let mut removed: usize = 0;
        let mut old_sessions: Vec<OpSession> = Vec::new();
        std::mem::swap(&mut old_sessions, &mut self.sessions);
        let ghost orig = old_sessions@;
        let total = old_sessions.len();
        let mut i: usize = 0;
        while old_sessions.len() > 0
            invariant
                old_sessions@ == orig.skip(i as int),
                i + old_sessions@.len() == orig.len(),
                i <= orig.len(),
                orig.len() == total,
                orig == old(self).sessions@,
                old(self).wf(),
                forall|a: int| 0 <= a < kept@.len() ==> orig.take(i as int).contains(#[trigger] kept@[a]),
                forall|a: int, b: int| 0 <= a < b < kept@.len() ==> kept@[a].num < kept@[b].num,
                forall|a: int| 0 <= a < kept@.len() ==> exists|j: int| 0 <= j < i && orig[j] == #[trigger] kept@[a],
                self.sessions@.len() == 0,
                self.counter == old(self).counter,
                removed <= k,
                kept@ + drop_done(old_sessions@, (k - removed) as nat) == drop_done(orig, k as nat),
            decreases old_sessions.len(),
        {
            let ghost before = old_sessions@;
            let s = old_sessions.remove(0);
            assert(orig.skip(i as int)[0] == s);
            assert(orig.skip(i as int + 1) =~= orig.skip(i as int).drop_first());
            assert(old_sessions@ =~= before.drop_first());
            if s.done && removed < k {
                removed += 1;
            } else {
                proof {
                    assert(kept@.push(s) + drop_done(old_sessions@, (k - removed) as nat) =~= kept@ + (seq![s]
                        + drop_done(old_sessions@, (k - removed) as nat)));
                }
                proof {
                    assert forall|a: int| 0 <= a < kept@.len() implies kept@[a].num < s.num by {
                        let j = choose|j: int| 0 <= j < i && orig[j] == kept@[a];
                    }
                }
                kept.push(s);
            }
            proof {
                assert forall|a: int| 0 <= a < kept@.len() implies orig.take(i as int + 1).contains(#[trigger] kept@[a]) by {
                    if a < kept@.len() - 1 || !(kept@.last() == s) {
                        let j = choose|j: int| 0 <= j < i + 1 && orig[j] == kept@[a];
                        assert(orig.take(i as int + 1)[j] == kept@[a]);
                    } else {
                        assert(orig.take(i as int + 1)[i as int] == s);
                    }
                }
            }
            i += 1;
        }
        assert(old_sessions@ =~= Seq::<OpSession>::empty());
        assert(kept@ + drop_done(old_sessions@, (k - removed) as nat) =~= kept@);
        self.sessions = kept;
        proof {
            assert forall|a: int| 0 <= a < self.sessions@.len() implies {
                &&& (#[trigger] self.sessions@[a]).lines@.len() <= MAX_LINES
                &&& self.sessions@[a].id@ == op_id(self.sessions@[a].num as nat)
                &&& 1 <= self.sessions@[a].num <= self.counter
            } by {
                let j = choose|j: int| 0 <= j < i && orig[j] == self.sessions@[a];
                assert(old(self).sessions@[j] == self.sessions@[a]);
            }
        }
        proof {
            assert forall|a: int| 0 <= a < self.sessions@.len() implies old(self).sessions@.contains(#[trigger] self.sessions@[a]) by {
                let j = choose|j: int| 0 <= j < orig.take(i as int).len() && orig.take(i as int)[j] == self.sessions@[a];
                assert(orig[j] == self.sessions@[a]);
            }
        }
    }
}

} // verus!
