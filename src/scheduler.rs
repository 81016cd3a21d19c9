use vstd::prelude::*;

use crate::corpus::{CorpusStore, TestCaseView};

verus! {

/// Every location hit in `a` is also hit in `b`.
pub open spec fn covers(a: Seq<u8>, b: Seq<u8>) -> bool {
    a.len() == b.len() && forall|k: int| 0 <= k < a.len() && #[trigger] a[k] != 0 ==> b[k] != 0
}

/// `a` hits a strict subset of the locations `b` hits.
pub open spec fn strictly_covered(a: Seq<u8>, b: Seq<u8>) -> bool {
    covers(a, b) && !covers(b, a)
}

/// Among entries hitting the same locations, `j` is preferred to `i` when it
/// runs faster, or equally fast and was discovered earlier.
pub open spec fn preferred(s: Seq<TestCaseView>, j: int, i: int) -> bool {
    s[j].exec_time < s[i].exec_time || (s[j].exec_time == s[i].exec_time && j < i)
}

/// Entry `j` explains everything entry `i` explains: its coverage is a strict
/// superset, or the same and `j` is preferred.
pub open spec fn outranks(s: Seq<TestCaseView>, j: int, i: int) -> bool {
    j != i && (strictly_covered(s[i].coverage, s[j].coverage) || (covers(
        s[i].coverage,
        s[j].coverage,
    ) && covers(s[j].coverage, s[i].coverage) && preferred(s, j, i)))
}

/// An entry is favored when no other entry outranks it.
pub open spec fn deserves_favor(s: Seq<TestCaseView>, i: int) -> bool {
    !exists|j: int| 0 <= j < s.len() && #[trigger] outranks(s, j, i)
}

pub open spec fn any_favored(s: Seq<TestCaseView>) -> bool {
    exists|i: int| 0 <= i < s.len() && (#[trigger] s[i]).favored
}

/// Whether every location hit in `a` is hit in `b`.
pub fn covers_exec(a: &Vec<u8>, b: &Vec<u8>) -> (r: bool)
    ensures
        r == covers(a@, b@),
{
    if a.len() != b.len() {
        return false;
    }
    let mut k: usize = 0;
    while k < a.len()
        invariant
            k <= a@.len(),
            a@.len() == b@.len(),
            forall|m: int| 0 <= m < k && #[trigger] a@[m] != 0 ==> b@[m] != 0,
        decreases a@.len() - k,
    {
        if a[k] != 0 && b[k] == 0 {
            return false;
        }
        k = k + 1;
    }
    true
}

impl CorpusStore {
    /// Whether some entry outranks entry `i`.
    fn outranked(&self, i: usize) -> (r: bool)
        requires
            i < self@.len(),
        ensures
            r == !deserves_favor(self@, i as int),
    {
        let mut j: usize = 0;
        while j < self.entries.len()
            invariant
                i < self@.len(),
                j <= self@.len(),
                forall|m: int| 0 <= m < j ==> !#[trigger] outranks(self@, m, i as int),
            decreases self@.len() - j,
        {
            if j != i {
                let a = &self.entries[i].coverage;
                let b = &self.entries[j].coverage;
                assert(self@[i as int] == self.entries@[i as int]@);
                assert(self@[j as int] == self.entries@[j as int]@);
                let ab = covers_exec(a, b);
                let ba = covers_exec(b, a);
                let ti = self.entries[i].exec_time;
                let tj = self.entries[j].exec_time;
                let pref = tj < ti || (tj == ti && j < i);
                if (ab && !ba) || (ab && ba && pref) {
                    assert(outranks(self@, j as int, i as int));
                    return true;
                }
            }
            j = j + 1;
        }
        false
    }

    /// Re-ranks the corpus: an entry stays favored only while no other entry
    /// outranks it. Content and the other metadata are untouched.
    pub fn refresh_favored(&mut self)
        requires
            old(self).wf(),
        ensures
            final(self).wf(),
            final(self)@.len() == old(self)@.len(),
            forall|i: int|
                0 <= i < old(self)@.len() ==> #[trigger] final(self)@[i] == (TestCaseView {
                    favored: deserves_favor(old(self)@, i),
                    ..old(self)@[i]
                }),
    {
        let n = self.entries.len();
        let mut flags: Vec<bool> = Vec::new();
        let mut i: usize = 0;
        while i < n
            invariant
                n == self@.len(),
                i <= n,
                flags@.len() == i,
                forall|k: int| 0 <= k < i ==> flags@[k] == deserves_favor(self@, k),
            decreases n - i,
        {
            let o = self.outranked(i);
            flags.push(!o);
            i = i + 1;
        }
        let ghost s0 = self@;
        let mut i: usize = 0;
        while i < n
            invariant
                n == self@.len(),
                n == s0.len(),
                i <= n,
                flags@.len() == n,
                forall|k: int| 0 <= k < n ==> flags@[k] == deserves_favor(s0, k),
                forall|k: int|
                    0 <= k < i ==> #[trigger] self@[k] == (TestCaseView {
                        favored: deserves_favor(s0, k),
                        ..s0[k]
                    }),
                forall|k: int| i <= k < n ==> #[trigger] self@[k] == s0[k],
            decreases n - i,
        {
            let e = self.entries[i].with_favored(flags[i]);
            assert(self@[i as int] == self.entries@[i as int]@);
            let ghost before = self.entries@;
            let ghost view_before = self@;
            self.entries.set(i, e);
            assert forall|k: int| 0 <= k < n && k != i implies #[trigger] self@[k] == view_before[k] by {
                assert(self.entries@[k] == before[k]);
                assert(view_before[k] == before[k]@);
            }
            assert(self@[i as int] == self.entries@[i as int]@);
            i = i + 1;
        }
        assert forall|a: int, b: int|
            0 <= a < self@.len() && 0 <= b < self@.len() && a != b implies (#[trigger] self@[a]).bytes
            != (#[trigger] self@[b]).bytes by {
            assert(self@[a].bytes == s0[a].bytes);
            assert(self@[b].bytes == s0[b].bytes);
        }
    }
}

impl CorpusStore {
    /// Identifiers of the favored entries, in insertion order.
    pub fn favored_ids(&self) -> (r: Vec<usize>)
        ensures
            forall|k: int| 0 <= k < r@.len() ==> r@[k] < self@.len() && self@[r@[k] as int].favored,
            forall|k: int, m: int| 0 <= k < m < r@.len() ==> r@[k] < r@[m],
            forall|i: int| 0 <= i < self@.len() && (#[trigger] self@[i]).favored ==> r@.contains(i as usize),
    {
        let mut r: Vec<usize> = Vec::new();
        let mut i: usize = 0;
        while i < self.entries.len()
            invariant
                i <= self@.len(),
                forall|k: int| 0 <= k < r@.len() ==> r@[k] < i && self@[r@[k] as int].favored,
                forall|k: int, m: int| 0 <= k < m < r@.len() ==> r@[k] < r@[m],
                forall|x: int| 0 <= x < i && (#[trigger] self@[x]).favored ==> r@.contains(x as usize),
            decreases self@.len() - i,
        {
            assert(self@[i as int] == self.entries@[i as int]@);
            if self.entries[i].favored {
                let ghost before = r@;
                r.push(i);
                assert forall|x: int| 0 <= x < i + 1 && (#[trigger] self@[x]).favored implies r@.contains(x as usize) by {
                    if x < i {
                        let k = choose|k: int| 0 <= k < before.len() && before[k] == x as usize;
                        assert(r@[k] == x as usize);
                    } else {
                        assert(r@[before.len() as int] == i);
                    }
                }
            }
            i = i + 1;
        }
        r
    }
}

/// Position reached `d` steps after `start` when walking `n` entries in a ring.
pub open spec fn ring(start: int, d: int, n: int) -> int {
    if start + d < n {
        start + d
    } else {
        start + d - n
    }
}

/// Round-robin selection among the favored entries of a corpus.
pub struct Scheduler {
    pub cursor: usize,
}

impl Scheduler {
    pub fn new() -> (r: Scheduler)
        ensures
            r.cursor == 0,
    {
        Scheduler { cursor: 0 }
    }

    /// Picks the next entry to mutate: the first favored entry at or after the
    /// cursor, walking the corpus as a ring; when none is favored, the entry at
    /// the cursor. `None` only for an empty corpus.
    pub fn next(&mut self, corpus: &CorpusStore) -> (r: Option<usize>)
        ensures
            r is None <==> corpus@.len() == 0,
            match r {
                None => final(self).cursor == old(self).cursor,
                Some(id) => {
                    let n = corpus@.len() as int;
                    let start = old(self).cursor as int % n;
                    &&& id < n
                    &&& exists|d: int|
                        #![trigger ring(start, d, n)]
                        0 <= d < n && id == ring(start, d, n) && (forall|e: int|
                            0 <= e < d ==> !corpus@[#[trigger] ring(start, e, n)].favored) && (
                        corpus@[id as int].favored || (d == 0 && !any_favored(corpus@)))
                    &&& final(self).cursor == if id + 1 == n { 0 } else { id + 1 }
                },
            },
    {
        let n = corpus.entries.len();
        if n == 0 {
            return None;
        }
        let start = self.cursor % n;
        let mut d: usize = 0;
        while d < n
            invariant
                n == corpus@.len(),
                n > 0,
                start < n,
                start as int == old(self).cursor as int % (n as int),
                d <= n,
                forall|e: int| 0 <= e < d ==> !corpus@[#[trigger] ring(start as int, e, n as int)].favored,
            decreases n - d,
        {
            let idx = if d >= n - start { d - (n - start) } else { start + d };
            assert(idx as int == ring(start as int, d as int, n as int));
            assert(corpus@[idx as int] == corpus.entries@[idx as int]@);
            if corpus.entries[idx].favored {
                assert(start as int == old(self).cursor as int % (n as int));
                assert(exists|dd: int|
                    #![trigger ring(start as int, dd, n as int)]
                    0 <= dd < n && idx == ring(start as int, dd, n as int) && (forall|e: int|
                        0 <= e < dd ==> !corpus@[#[trigger] ring(start as int, e, n as int)].favored)
                        && corpus@[idx as int].favored) by {
                    assert(idx == ring(start as int, d as int, n as int));
                }
                self.cursor = if idx + 1 == n { 0 } else { idx + 1 };
                return Some(idx);
            }
            d = d + 1;
        }
        assert(!any_favored(corpus@)) by {
            assert forall|i: int| 0 <= i < n implies !(#[trigger] corpus@[i]).favored by {
                let e = if i >= start { i - start } else { i + n - start };
                assert(ring(start as int, e, n as int) == i);
            }
        }
        assert(start as int == ring(start as int, 0, n as int));
        assert(start as int == old(self).cursor as int % (n as int));
        self.cursor = if start + 1 == n { 0 } else { start + 1 };
        Some(start)
    }
}

/// An entry whose coverage is a strict subset of another entry's is not
/// favored once the corpus has been re-ranked.
pub proof fn lemma_subsumed_not_favored(s: Seq<TestCaseView>, ranked: Seq<TestCaseView>, a: int, b: int)
    requires
        0 <= a < s.len(),
        0 <= b < s.len(),
        strictly_covered(s[a].coverage, s[b].coverage),
        ranked.len() == s.len(),
        forall|i: int|
            0 <= i < s.len() ==> #[trigger] ranked[i] == (TestCaseView {
                favored: deserves_favor(s, i),
                ..s[i]
            }),
    ensures
        !ranked[a].favored,
{
    assert(outranks(s, b, a));
    assert(ranked[a].favored == deserves_favor(s, a));
}

} // verus!
