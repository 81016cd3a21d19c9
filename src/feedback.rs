use vstd::prelude::*;

use crate::coverage::{copy_bytes, novel, SeenMap};

verus! {

/// The channel a fault was observed on.
#[derive(Clone, Copy, PartialEq, Eq, Structural, Debug)]
pub enum FaultKind {
    Timeout,
    /// The target was terminated by the operating system.
    Signal,
    /// An injected memory-safety check fired.
    MemorySafety,
}

/// What identifies a fault for deduplication: its channel and its location.
/// The same location on two channels gives two keys.
#[derive(Clone, Copy, PartialEq, Eq, Structural, Debug)]
pub struct DedupKey {
    pub kind: FaultKind,
    pub location: u64,
}

/// How one execution of the target ended.
pub enum Outcome {
    Normal { coverage: Vec<u8> },
    Timeout,
    Crash { location: u64 },
    InstrumentedFault { location: u64 },
}

/// The deduplication key of an outcome, if it is a fault.
pub open spec fn fault_key(o: Outcome) -> Option<DedupKey> {
    match o {
        Outcome::Normal { .. } => None,
        Outcome::Timeout => Some(DedupKey { kind: FaultKind::Timeout, location: 0 }),
        Outcome::Crash { location } => Some(DedupKey { kind: FaultKind::Signal, location }),
        Outcome::InstrumentedFault { location } => Some(
            DedupKey { kind: FaultKind::MemorySafety, location },
        ),
    }
}

/// A fault worth keeping: the input that triggered it, its key, and the
/// worker that found it.
pub struct CrashRecord {
    pub input: Vec<u8>,
    pub key: DedupKey,
    pub worker: u32,
}

/// Turns an outcome into a crash record; normal runs give none.
pub fn classify(outcome: &Outcome, input: &Vec<u8>, worker: u32) -> (r: Option<CrashRecord>)
    ensures
        match r {
            None => fault_key(*outcome) is None,
            Some(c) => fault_key(*outcome) == Some(c.key) && c.input@ == input@ && c.worker
                == worker,
        },
{
    let key = match outcome {
        Outcome::Normal { .. } => {
            return None;
        },
        Outcome::Timeout => DedupKey { kind: FaultKind::Timeout, location: 0 },
        Outcome::Crash { location } => DedupKey { kind: FaultKind::Signal, location: *location },
        Outcome::InstrumentedFault { location } => DedupKey {
            kind: FaultKind::MemorySafety,
            location: *location,
        },
    };
    Some(CrashRecord { input: copy_bytes(input), key, worker })
}

/// A child is kept when it reaches new coverage or produced a crash record.
pub fn is_interesting(seen: &SeenMap, snap: &Vec<u8>, crash: &Option<CrashRecord>) -> (r: bool)
    requires
        snap@.len() == seen@.len(),
    ensures
        r == (novel(seen@, snap@) || crash is Some),
{
    crash.is_some() || seen.is_novel(snap)
}

/// The keys on file after reporting a fault with key `k`.
pub open spec fn reported(keys: Seq<DedupKey>, k: DedupKey) -> Seq<DedupKey> {
    if keys.contains(k) {
        keys
    } else {
        keys.push(k)
    }
}

/// One record per distinct fault, plus a count of the duplicates seen.
pub struct CrashStore {
    pub records: Vec<CrashRecord>,
    pub duplicates: u64,
}

impl CrashStore {
    pub open spec fn keys(&self) -> Seq<DedupKey> {
        self.records@.map_values(|c: CrashRecord| c.key)
    }

    pub open spec fn wf(&self) -> bool {
        self.keys().no_duplicates()
    }

    pub fn new() -> (r: CrashStore)
        ensures
            r.wf(),
            r.keys() == Seq::<DedupKey>::empty(),
            r.duplicates == 0,
    {
        let r = CrashStore { records: Vec::new(), duplicates: 0 };
        assert(r.keys() =~= Seq::<DedupKey>::empty());
        r
    }

    pub fn len(&self) -> (r: usize)
        ensures
            r == self.keys().len(),
    {
        self.records.len()
    }

    /// Files `rec` unless a record with its key exists, in which case only the
    /// duplicate count grows (saturating). Returns whether a record was filed.
    pub fn report(&mut self, rec: CrashRecord) -> (filed: bool)
        requires
            old(self).wf(),
        ensures
            final(self).wf(),
            filed == !old(self).keys().contains(rec.key),
            final(self).keys() == reported(old(self).keys(), rec.key),
            filed ==> final(self).records@.last().input@ == rec.input@,
            final(self).duplicates == if filed {
                old(self).duplicates
            } else if old(self).duplicates == u64::MAX {
                u64::MAX
            } else {
                (old(self).duplicates + 1) as u64
            },
    {
        let mut i: usize = 0;
        let mut found = false;
        while i < self.records.len() && !found
            invariant
                found ==> self.keys().contains(rec.key),
                !found ==> forall|k: int| 0 <= k < i ==> self.keys()[k] != rec.key,
                self.records@.len() >= i,
            decreases self.records@.len() - i,
        {
            if self.records[i].key == rec.key {
                assert(self.keys()[i as int] == rec.key);
                found = true;
            }
            i = i + 1;
        }
        if found {
            if self.duplicates < u64::MAX {
                self.duplicates = self.duplicates + 1;
            }
            return false;
        }
        let ghost k = rec.key;
        let ghost before = self.records@;
        self.records.push(rec);
        assert(self.records@ == before.push(rec));
        assert(self.keys() =~= old(self).keys().push(k));
        assert(self.keys().no_duplicates()) by {
            let ks = self.keys();
            assert forall|x: int, y: int| 0 <= x < ks.len() && 0 <= y < ks.len() && x != y implies ks[x]
                != ks[y] by {
                if x < ks.len() - 1 && y < ks.len() - 1 {
                    assert(ks[x] == old(self).keys()[x] && ks[y] == old(self).keys()[y]);
                } else if x < ks.len() - 1 {
                    assert(ks[x] == old(self).keys()[x]);
                } else {
                    assert(ks[y] == old(self).keys()[y]);
                }
            }
        }
        true
    }
}

/// Two faults with one key leave one record; a third with another key adds a
/// second.
pub proof fn lemma_crash_dedup(keys: Seq<DedupKey>, a: DedupKey, b: DedupKey, c: DedupKey)
    requires
        !keys.contains(a),
        !keys.contains(c),
        a == b,
        c != a,
    ensures
        reported(reported(keys, a), b).len() == keys.len() + 1,
        reported(reported(reported(keys, a), b), c).len() == keys.len() + 2,
{
    assert(keys.push(a).contains(a)) by {
        assert(keys.push(a)[keys.len() as int] == a);
    }
    assert(!keys.push(a).contains(c)) by {
        if keys.push(a).contains(c) {
            let i = choose|i: int| 0 <= i < keys.len() + 1 && keys.push(a)[i] == c;
            if i < keys.len() {
                assert(keys[i] == c);
            }
        }
    }
}

} // verus!
