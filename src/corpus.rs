use vstd::prelude::*;

use crate::coverage::copy_bytes;

verus! {

/// One input together with the metadata recorded when it was executed.
pub struct TestCase {
    pub bytes: Vec<u8>,
    /// The coverage snapshot the input produced.
    pub coverage: Vec<u8>,
    /// Execution duration, in microseconds.
    pub exec_time: u64,
    /// Number of mutation steps from the seed corpus.
    pub generation: u64,
    pub favored: bool,
}

pub ghost struct TestCaseView {
    pub bytes: Seq<u8>,
    pub coverage: Seq<u8>,
    pub exec_time: u64,
    pub generation: u64,
    pub favored: bool,
}

impl View for TestCase {
    type V = TestCaseView;

    open spec fn view(&self) -> TestCaseView {
        TestCaseView {
            bytes: self.bytes@,
            coverage: self.coverage@,
            exec_time: self.exec_time,
            generation: self.generation,
            favored: self.favored,
        }
    }
}

impl TestCase {
    /// A freshly executed input; it is not favored until the scheduler ranks it.
    pub fn new(bytes: Vec<u8>, coverage: Vec<u8>, exec_time: u64, generation: u64) -> (r: TestCase)
        ensures
            r@ == (TestCaseView {
                bytes: bytes@,
                coverage: coverage@,
                exec_time,
                generation,
                favored: false,
            }),
    {
        TestCase { bytes, coverage, exec_time, generation, favored: false }
    }

    /// A deep copy with the favored flag set to `favored`.
    pub fn with_favored(&self, favored: bool) -> (r: TestCase)
        ensures
            r@ == (TestCaseView { favored, ..self@ }),
    {
        TestCase {
            bytes: copy_bytes(&self.bytes),
            coverage: copy_bytes(&self.coverage),
            exec_time: self.exec_time,
            generation: self.generation,
            favored,
        }
    }

    /// A deep copy.
    pub fn duplicate(&self) -> (r: TestCase)
        ensures
            r@ == self@,
    {
        self.with_favored(self.favored)
    }
}

/// Compares two byte vectors.
pub fn bytes_equal(a: &Vec<u8>, b: &Vec<u8>) -> (r: bool)
    ensures
        r == (a@ == b@),
{
    if a.len() != b.len() {
        return false;
    }
    let mut i: usize = 0;
    while i < a.len()
        invariant
            i <= a@.len(),
            a@.len() == b@.len(),
            forall|k: int| 0 <= k < i ==> a@[k] == b@[k],
        decreases a@.len() - i,
    {
        if a[i] != b[i] {
            return false;
        }
        i = i + 1;
    }
    assert(a@ =~= b@);
    true
}

pub open spec fn holds_content(s: Seq<TestCaseView>, b: Seq<u8>) -> bool {
    exists|i: int| 0 <= i < s.len() && (#[trigger] s[i]).bytes == b
}

/// No two entries share their bytes.
pub open spec fn distinct_contents(s: Seq<TestCaseView>) -> bool {
    forall|i: int, j: int|
        0 <= i < s.len() && 0 <= j < s.len() && i != j ==> (#[trigger] s[i]).bytes != (
        #[trigger] s[j]).bytes
}

/// The store and identifier after inserting `t`: content already present keeps
/// its identifier and leaves the store as it was; new content is appended.
pub open spec fn inserted(s: Seq<TestCaseView>, t: TestCaseView) -> (Seq<TestCaseView>, int) {
    if holds_content(s, t.bytes) {
        (s, choose|i: int| 0 <= i < s.len() && (#[trigger] s[i]).bytes == t.bytes)
    } else {
        (s.push(t), s.len() as int)
    }
}

/// The store rebuilt from its durable records, inserted in their order.
pub open spec fn restored(r: Seq<TestCaseView>) -> Seq<TestCaseView>
    decreases r.len(),
{
    if r.len() == 0 {
        Seq::empty()
    } else {
        inserted(restored(r.drop_last()), r.last()).0
    }
}

/// The accepted inputs, in order of insertion; an entry's identifier is its index.
pub struct CorpusStore {
    pub entries: Vec<TestCase>,
}

impl View for CorpusStore {
    type V = Seq<TestCaseView>;

    open spec fn view(&self) -> Seq<TestCaseView> {
        self.entries@.map_values(|t: TestCase| t@)
    }
}

impl CorpusStore {
    pub open spec fn wf(&self) -> bool {
        distinct_contents(self@)
    }

    pub fn new() -> (r: CorpusStore)
        ensures
            r.wf(),
            r@ == Seq::<TestCaseView>::empty(),
    {
        let r = CorpusStore { entries: Vec::new() };
        assert(r@ =~= Seq::<TestCaseView>::empty());
        r
    }

    pub fn len(&self) -> (r: usize)
        ensures
            r == self@.len(),
    {
        self.entries.len()
    }

    /// The identifier of the entry holding `bytes`, if any.
    pub fn find(&self, bytes: &Vec<u8>) -> (r: Option<usize>)
        requires
            self.wf(),
        ensures
            match r {
                Some(i) => i < self@.len() && self@[i as int].bytes == bytes@,
                None => !holds_content(self@, bytes@),
            },
    {
        let mut i: usize = 0;
        while i < self.entries.len()
            invariant
                i <= self@.len(),
                forall|k: int| 0 <= k < i ==> (#[trigger] self@[k]).bytes != bytes@,
            decreases self@.len() - i,
        {
            if bytes_equal(&self.entries[i].bytes, bytes) {
                return Some(i);
            }
            i = i + 1;
        }
        None
    }

    /// Inserts `t` unless its bytes are already stored; returns the identifier
    /// of the entry that holds them.
    pub fn insert(&mut self, t: TestCase) -> (id: usize)
        requires
            old(self).wf(),
        ensures
            final(self).wf(),
            (final(self)@, id as int) == inserted(old(self)@, t@),
    {
        match self.find(&t.bytes) {
            Some(i) => {
                proof {
                    let j = choose|j: int| 0 <= j < self@.len() && (#[trigger] self@[j]).bytes == t@.bytes;
                    assert(j == i);
                }
                i
            },
            None => {
                let n = self.entries.len();
                let ghost tv = t@;
                self.entries.push(t);
                assert(self@ =~= old(self)@.push(tv));
                n
            },
        }
    }

    /// The entry with identifier `id`.
    pub fn get(&self, id: usize) -> (r: Option<&TestCase>)
        ensures
            match r {
                Some(t) => id < self@.len() && t@ == self@[id as int],
                None => id >= self@.len(),
            },
    {
        if id < self.entries.len() {
            Some(&self.entries[id])
        } else {
            None
        }
    }

    /// Copies of every entry, in identifier order: what goes to durable storage.
    pub fn records(&self) -> (r: Vec<TestCase>)
        ensures
            r@.map_values(|t: TestCase| t@) == self@,
    {
        let mut r: Vec<TestCase> = Vec::new();
        let mut i: usize = 0;
        while i < self.entries.len()
            invariant
                i <= self@.len(),
                r@.map_values(|t: TestCase| t@) == self@.subrange(0, i as int),
            decreases self@.len() - i,
        {
            let c = self.entries[i].duplicate();
            let ghost before = r@;
            r.push(c);
            assert(self@[i as int] == self.entries@[i as int]@);
            assert(r@ == before.push(c));
            assert(r@.map_values(|t: TestCase| t@) =~= before.map_values(|t: TestCase| t@).push(c@));
            i = i + 1;
            assert(r@.map_values(|t: TestCase| t@) =~= self@.subrange(0, i as int));
        }
        assert(self@.subrange(0, self@.len() as int) =~= self@);
        r
    }

    /// Rebuilds a store from durable records, as a worker does after a restart.
    pub fn restore(records: &Vec<TestCase>) -> (r: CorpusStore)
        ensures
            r.wf(),
            r@ == restored(records@.map_values(|t: TestCase| t@)),
    {
        let ghost rv = records@.map_values(|t: TestCase| t@);
        let mut store = CorpusStore::new();
        assert(rv.subrange(0, 0) =~= Seq::<TestCaseView>::empty());
        let mut i: usize = 0;
        while i < records.len()
            invariant
                i <= records@.len(),
                rv == records@.map_values(|t: TestCase| t@),
                store.wf(),
                store@ == restored(rv.subrange(0, i as int)),
            decreases records@.len() - i,
        {
            let t = records[i].duplicate();
            store.insert(t);
            assert(rv.subrange(0, i + 1).drop_last() =~= rv.subrange(0, i as int));
            i = i + 1;
        }
        assert(rv.subrange(0, records@.len() as int) =~= rv);
        store
    }
}

/// Inserting the same bytes a second time returns the first identifier and
/// leaves the store unchanged, so no second durable record appears.
pub proof fn lemma_insert_dedup(s: Seq<TestCaseView>, t: TestCaseView, u: TestCaseView)
    requires
        distinct_contents(s),
        t.bytes == u.bytes,
    ensures
        inserted(inserted(s, t).0, u).0 == inserted(s, t).0,
        inserted(inserted(s, t).0, u).1 == inserted(s, t).1,
{
    let s1 = inserted(s, t).0;
    let i1 = inserted(s, t).1;
    assert(s1[i1].bytes == u.bytes);
    assert(holds_content(s1, u.bytes));
    assert(distinct_contents(s1)) by {
        if !holds_content(s, t.bytes) {
            assert forall|i: int, j: int|
                0 <= i < s1.len() && 0 <= j < s1.len() && i != j implies (#[trigger] s1[i]).bytes
                != (#[trigger] s1[j]).bytes by {
                if i < s.len() && j < s.len() {
                    assert(s1[i] == s[i] && s1[j] == s[j]);
                } else if i < s.len() {
                    assert(s1[i] == s[i]);
                } else {
                    assert(s1[j] == s[j]);
                }
            }
        }
    }
    let i2 = choose|i: int| 0 <= i < s1.len() && (#[trigger] s1[i]).bytes == u.bytes;
    assert(i2 == i1);
}

/// A store survives a restart: rebuilding it from its own records yields the
/// same entries, so every `get` returns the same content and metadata.
pub proof fn lemma_restore_round_trip(s: Seq<TestCaseView>)
    requires
        distinct_contents(s),
    ensures
        restored(s) == s,
    decreases s.len(),
{
    if s.len() > 0 {
        let p = s.drop_last();
        assert(distinct_contents(p)) by {
            assert forall|i: int, j: int|
                0 <= i < p.len() && 0 <= j < p.len() && i != j implies (#[trigger] p[i]).bytes != (
                #[trigger] p[j]).bytes by {
                assert(p[i] == s[i] && p[j] == s[j]);
            }
        }
        lemma_restore_round_trip(p);
        if holds_content(p, s.last().bytes) {
            let k = choose|k: int| 0 <= k < p.len() && (#[trigger] p[k]).bytes == s.last().bytes;
            assert(p[k] == s[k]);
            assert(s[k].bytes == s[s.len() - 1].bytes);
        }
        assert(p.push(s.last()) =~= s);
    }
}

} // verus!
