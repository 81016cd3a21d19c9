use vstd::prelude::*;

verus! {

/// Hit-count class of a raw counter: 0, 1, 2, 3, 4..=7, 8..=15, 16..=31, 32..=127, 128..=255
/// map to 0, 1, 2, 4, 8, 16, 32, 64, 128.
pub open spec fn bucket_spec(c: u8) -> u8 {
    if c <= 2 {
        c
    } else if c == 3 {
        4
    } else if c < 8 {
        8
    } else if c < 16 {
        16
    } else if c < 32 {
        32
    } else if c < 128 {
        64
    } else {
        128
    }
}

/// A snapshot is novel against the seen-map when some counter reaches a class
/// the seen-map has not recorded at that position.
pub open spec fn novel(seen: Seq<u8>, snap: Seq<u8>) -> bool {
    exists|i: int| 0 <= i < snap.len() && #[trigger] bucket_spec(snap[i]) > seen[i]
}

/// The seen-map after folding one snapshot into it: the per-position maximum.
pub open spec fn merged(seen: Seq<u8>, snap: Seq<u8>) -> Seq<u8> {
    Seq::new(
        seen.len(),
        |i: int|
            if bucket_spec(snap[i]) > seen[i] {
                bucket_spec(snap[i])
            } else {
                seen[i]
            },
    )
}

/// Classifies a raw counter value into its hit-count bucket.
pub fn bucket(c: u8) -> (r: u8)
    ensures
        r == bucket_spec(c),
{
    if c <= 2 {
        c
    } else if c == 3 {
        4
    } else if c < 8 {
        8
    } else if c < 16 {
        16
    } else if c < 32 {
        32
    } else if c < 128 {
        64
    } else {
        128
    }
}

/// Per-execution counters, one per instrumented location, saturating at 255.
pub struct CoverageMap {
    pub counters: Vec<u8>,
}

impl View for CoverageMap {
    type V = Seq<u8>;

    open spec fn view(&self) -> Seq<u8> {
        self.counters@
    }
}

impl CoverageMap {
    /// A map of `size` counters, all zero.
    pub fn new(size: usize) -> (r: CoverageMap)
        ensures
            r@ == Seq::new(size as nat, |i: int| 0u8),
    {
        let mut counters: Vec<u8> = Vec::new();
        let mut i: usize = 0;
        while i < size
            invariant
                i <= size,
                counters@ == Seq::new(i as nat, |k: int| 0u8),
            decreases size - i,
        {
            counters.push(0);
            i = i + 1;
            assert(counters@ =~= Seq::new(i as nat, |k: int| 0u8));
        }
        CoverageMap { counters }
    }

    pub fn len(&self) -> (r: usize)
        ensures
            r == self@.len(),
    {
        self.counters.len()
    }

    /// Records one hit at `idx`; the counter saturates at 255.
    pub fn record(&mut self, idx: usize)
        requires
            idx < old(self)@.len(),
        ensures
            final(self)@ == old(self)@.update(
                idx as int,
                if old(self)@[idx as int] == 255 {
                    255u8
                } else {
                    (old(self)@[idx as int] + 1) as u8
                },
            ),
    {
        let c = self.counters[idx];
        if c < 255 {
            self.counters.set(idx, c + 1);
        }
    }

    /// Clears every counter, keeping the size.
    pub fn reset(&mut self)
        ensures
            final(self)@ == Seq::new(old(self)@.len(), |i: int| 0u8),
    {
        let n = self.counters.len();
        let mut i: usize = 0;
        while i < n
            invariant
                i <= n,
                self.counters@.len() == n,
                forall|k: int| 0 <= k < i ==> self.counters@[k] == 0u8,
            decreases n - i,
        {
            self.counters.set(i, 0);
            i = i + 1;
        }
        assert(self.counters@ =~= Seq::new(n as nat, |k: int| 0u8));
    }

    /// An independent copy of the current counters.
    pub fn snapshot(&self) -> (r: Vec<u8>)
        ensures
            r@ == self@,
    {
        copy_bytes(&self.counters)
    }
}

/// Copies a byte vector element by element.
pub fn copy_bytes(v: &Vec<u8>) -> (r: Vec<u8>)
    ensures
        r@ == v@,
{
    let mut r: Vec<u8> = Vec::new();
    let mut i: usize = 0;
    while i < v.len()
        invariant
            i <= v@.len(),
            r@ == v@.subrange(0, i as int),
        decreases v@.len() - i,
    {
        r.push(v[i]);
        i = i + 1;
        assert(r@ =~= v@.subrange(0, i as int));
    }
    assert(r@ =~= v@);
    r
}

/// The campaign-wide record of the highest hit-count class seen at each position.
pub struct SeenMap {
    pub classes: Vec<u8>,
}

impl View for SeenMap {
    type V = Seq<u8>;

    open spec fn view(&self) -> Seq<u8> {
        self.classes@
    }
}

impl SeenMap {
    /// An empty seen-map of `size` positions.
    pub fn new(size: usize) -> (r: SeenMap)
        ensures
            r@ == Seq::new(size as nat, |i: int| 0u8),
    {
        SeenMap { classes: CoverageMap::new(size).counters }
    }

    pub fn len(&self) -> (r: usize)
        ensures
            r == self@.len(),
    {
        self.classes.len()
    }

    /// Whether `snap` reaches a hit-count class not yet recorded.
    pub fn is_novel(&self, snap: &Vec<u8>) -> (r: bool)
        requires
            snap@.len() == self@.len(),
        ensures
            r == novel(self@, snap@),
    {
        let mut i: usize = 0;
        while i < snap.len()
            invariant
                i <= snap@.len(),
                snap@.len() == self@.len(),
                forall|k: int| 0 <= k < i ==> !(#[trigger] bucket_spec(snap@[k]) > self@[k]),
            decreases snap@.len() - i,
        {
            if bucket(snap[i]) > self.classes[i] {
                return true;
            }
            i = i + 1;
        }
        false
    }

    /// Folds `snap` into the seen-map.
    pub fn merge(&mut self, snap: &Vec<u8>)
        requires
            snap@.len() == old(self)@.len(),
        ensures
            final(self)@ == merged(old(self)@, snap@),
    {
        let n = self.classes.len();
        let mut i: usize = 0;
        while i < n
            invariant
                i <= n,
                n == snap@.len(),
                old(self)@.len() == n,
                self.classes@.len() == n,
                forall|k: int| 0 <= k < i ==> self.classes@[k] == merged(old(self)@, snap@)[k],
                forall|k: int| i <= k < n ==> self.classes@[k] == old(self)@[k],
            decreases n - i,
        {
            let b = bucket(snap[i]);
            if b > self.classes[i] {
                self.classes.set(i, b);
            }
            i = i + 1;
        }
        assert(self.classes@ =~= merged(old(self)@, snap@));
    }
}

/// The seen-map never loses coverage: folding in any snapshot keeps every
/// position at least where it was.
pub proof fn lemma_merge_grows(seen: Seq<u8>, snap: Seq<u8>)
    requires
        snap.len() == seen.len(),
    ensures
        merged(seen, snap).len() == seen.len(),
        forall|i: int| 0 <= i < seen.len() ==> merged(seen, snap)[i] >= seen[i],
{
}

/// Once a snapshot has been folded in, replaying the same coverage is no longer
/// novel: the snapshot is covered by the seen-map, and stays covered by every
/// later seen-map.
pub proof fn lemma_merged_covers(seen: Seq<u8>, snap: Seq<u8>, later: Seq<u8>)
    requires
        snap.len() == seen.len(),
    ensures
        !novel(merged(seen, snap), snap),
        !novel(merged(merged(seen, snap), later), snap),
{
    assert forall|i: int| 0 <= i < snap.len() implies !(#[trigger] bucket_spec(snap[i]) > merged(
        merged(seen, snap),
        later,
    )[i]) by {}
}

/// Merging snapshots is order-independent, so workers' reports can be reduced
/// at the broker in any order.
pub proof fn lemma_merge_commutes(seen: Seq<u8>, a: Seq<u8>, b: Seq<u8>)
    requires
        a.len() == seen.len(),
        b.len() == seen.len(),
    ensures
        merged(merged(seen, a), b) == merged(merged(seen, b), a),
{
    assert(merged(merged(seen, a), b) =~= merged(merged(seen, b), a));
}

} // verus!
