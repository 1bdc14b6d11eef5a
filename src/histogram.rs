use vstd::multiset::Multiset;
use vstd::prelude::*;

verus! {

/// How many times the byte value `v` occurs in `s`.
pub open spec fn occurrences(s: Seq<u8>, v: u8) -> nat
    decreases s.len(),
{
    if s.len() == 0 {
        0
    } else {
        occurrences(s.drop_last(), v) + if s.last() == v { 1nat } else { 0nat }
    }
}

/// Occurrence counts of the 256 byte values within the bytes seen since the
/// last reset, and how many bytes that was.
pub struct ByteHistogram {
    counts: Vec<u64>,
    total: u64,
}

/// No value occurs more often than the sequence is long.
pub proof fn lemma_occurrences_bounded(s: Seq<u8>, v: u8)
    ensures
        occurrences(s, v) <= s.len(),
    decreases s.len(),
{
    if s.len() > 0 {
        lemma_occurrences_bounded(s.drop_last(), v);
    }
}

/// Taking one more element of `s` adds that element to the counts.
pub proof fn lemma_occurrences_push(s: Seq<u8>, i: int)
    requires
        0 <= i < s.len(),
    ensures
        forall|v: u8|
            #[trigger] occurrences(s.take(i + 1), v) == occurrences(s.take(i), v) + if s[i] == v {
                1nat
            } else {
                0nat
            },
{
    assert(s.take(i + 1).drop_last() =~= s.take(i));
}

/// The count of a value is its multiplicity in the multiset of the bytes.
pub proof fn lemma_occurrences_multiset(s: Seq<u8>, v: u8)
    ensures
        occurrences(s, v) == s.to_multiset().count(v),
    decreases s.len(),
{
    broadcast use vstd::seq_lib::group_to_multiset_ensures;

    if s.len() > 0 {
        lemma_occurrences_multiset(s.drop_last(), v);
        assert(s.drop_last().push(s.last()) =~= s);
    } else {
        assert(s.to_multiset() =~= Multiset::empty());
    }
}

/// The histogram of a chunk does not depend on the order of its bytes: two
/// chunks that are rearrangements of each other have the same length and the
/// same count for every byte value.
pub proof fn lemma_histogram_order_independent(a: Seq<u8>, b: Seq<u8>)
    requires
        a.to_multiset() =~= b.to_multiset(),
    ensures
        a.len() == b.len(),
        forall|v: u8| #[trigger] occurrences(a, v) == occurrences(b, v),
{
    broadcast use vstd::seq_lib::group_to_multiset_ensures;

    assert(a.len() == a.to_multiset().len());
    assert(b.len() == b.to_multiset().len());
    assert forall|v: u8| #[trigger] occurrences(a, v) == occurrences(b, v) by {
        lemma_occurrences_multiset(a, v);
        lemma_occurrences_multiset(b, v);
    }
}

/// A chunk whose bytes all have one value `v` (a zero-filled chunk, say) has
/// all of its bytes counted under `v` and none under any other value.
pub proof fn lemma_constant_chunk(s: Seq<u8>, v: u8)
    requires
        forall|i: int| 0 <= i < s.len() ==> s[i] == v,
    ensures
        occurrences(s, v) == s.len(),
        forall|w: u8| w != v ==> #[trigger] occurrences(s, w) == 0,
    decreases s.len(),
{
    if s.len() > 0 {
        lemma_constant_chunk(s.drop_last(), v);
        assert forall|w: u8| w != v implies #[trigger] occurrences(s, w) == 0 by {
            assert(occurrences(s.drop_last(), w) == 0);
        }
    }
}

impl ByteHistogram {
    /// The count kept for each byte value, indexed by the value.
    pub closed spec fn counts(&self) -> Seq<u64> {
        self.counts@
    }

    /// The number of bytes seen since the last reset.
    pub closed spec fn total_count(&self) -> nat {
        self.total as nat
    }

    /// The count of value `v`.
    pub open spec fn count_of(&self, v: u8) -> nat {
        self.counts()[v as int] as nat
    }

    /// One count per byte value, none above the total.
    pub open spec fn wf(&self) -> bool {
        &&& self.counts().len() == 256
        &&& forall|v: u8| #[trigger] self.count_of(v) <= self.total_count()
    }

    /// The histogram describes exactly the bytes `s`.
    pub open spec fn holds(&self, s: Seq<u8>) -> bool {
        &&& self.wf()
        &&& self.total_count() == s.len()
        &&& forall|v: u8| #[trigger] self.count_of(v) == occurrences(s, v)
    }

    /// An empty histogram: every count and the total are zero.
    pub fn new() -> (h: ByteHistogram)
        ensures
            h.holds(Seq::empty()),
    {
        let mut counts: Vec<u64> = Vec::new();
        let mut i: usize = 0;
        while i < 256
            invariant
                i <= 256,
                counts@.len() == i,
                forall|j: int| 0 <= j < i ==> counts@[j] == 0,
            decreases 256 - i,
        {
            counts.push(0);
            i = i + 1;
        }
        ByteHistogram { counts, total: 0 }
    }

    /// Forgets every byte seen: back to the empty histogram.
    pub fn reset(&mut self)
        requires
            old(self).wf(),
        ensures
            final(self).holds(Seq::empty()),
    {
        let mut i: usize = 0;
        while i < 256
            invariant
                i <= 256,
                self.counts@.len() == 256,
                forall|j: int| 0 <= j < i ==> self.counts@[j] == 0,
            decreases 256 - i,
        {
            self.counts.set(i, 0);
            i = i + 1;
        }
        self.total = 0;
    }

    /// The count of byte value `v`.
    pub fn count(&self, v: u8) -> (r: u64)
        requires
            self.wf(),
        ensures
            r == self.count_of(v),
    {
        self.counts[v as usize]
    }

    /// The number of bytes seen since the last reset.
    pub fn total(&self) -> (r: u64)
        ensures
            r == self.total_count(),
    {
        self.total
    }

    /// Counts the bytes of `data` on top of what was seen before.
    pub fn write(&mut self, data: &[u8])
        requires
            old(self).wf(),
            old(self).total_count() + data@.len() <= u64::MAX,
        ensures
            final(self).wf(),
            final(self).total_count() == old(self).total_count() + data@.len(),
            forall|v: u8|
                #[trigger] final(self).count_of(v) == old(self).count_of(v) + occurrences(
                    data@,
                    v,
                ),
    {
        let ghost start = *self;
        let mut i: usize = 0;
        while i < data.len()
            invariant
                i <= data@.len(),
                self.counts@.len() == 256,
                start.total_count() + data@.len() <= u64::MAX,
                self.total_count() == start.total_count() + i,
                forall|v: u8| #[trigger] start.count_of(v) <= start.total_count(),
                forall|v: u8|
                    #[trigger] self.count_of(v) == start.count_of(v) + occurrences(
                        data@.take(i as int),
                        v,
                    ),
            decreases data@.len() - i,
        {
            let b = data[i];
            proof {
                lemma_occurrences_bounded(data@.take(i as int), b);
                lemma_occurrences_push(data@, i as int);
            }
            let c = self.counts[b as usize];
            assert(c == self.count_of(b));
            assert(start.count_of(b) <= start.total_count());
            let ghost before = *self;
            self.counts.set(b as usize, c + 1);
            self.total = self.total + 1;
            i = i + 1;
            assert forall|v: u8|
                #[trigger] self.count_of(v) == start.count_of(v) + occurrences(
                    data@.take(i as int),
                    v,
                ) by {
                assert(before.count_of(v) == start.count_of(v) + occurrences(
                    data@.take(i - 1),
                    v,
                ));
                if v != b {
                    assert(self.counts@[v as int] == before.counts@[v as int]);
                }
            }
        }
        proof {
            assert(data@.take(data@.len() as int) =~= data@);
            assert forall|v: u8| #[trigger] self.count_of(v) <= self.total_count() by {
                lemma_occurrences_bounded(data@, v);
            }
        }
    }
}

} // verus!
