use crate::util::decode_sample;
use crate::util::sample_value;
use crate::Elev;
use vstd::prelude::*;

verus! {

/// `memmap2::Mmap`, declared so a read-only file mapping can back a store.
/// The library never looks inside it except through the two accessors below.
#[verifier::external_type_specification]
#[verifier::external_body]
pub struct ExMmap(memmap2::Mmap);

/// The bytes that a read-only mapping presents. memmap2's safety contract
/// forbids concurrent modification of the mapped file, so the contents of a
/// given mapping are fixed.
pub uninterp spec fn mmap_bytes(m: memmap2::Mmap) -> Seq<u8>;

/// Relies on memmap2's `AsRef<[u8]>` impl for `Mmap`: the mapped region as a
/// slice, whose length is the mapping's length.
#[verifier::external_body]
pub(crate) fn mmap_len(m: &memmap2::Mmap) -> (n: usize)
    ensures
        n == mmap_bytes(*m).len(),
{
    m.as_ref().len()
}

/// Relies on memmap2's `AsRef<[u8]>` impl for `Mmap`: indexing the mapped
/// region reads the byte at that offset.
#[verifier::external_body]
fn mmap_byte(m: &memmap2::Mmap, i: usize) -> (b: u8)
    requires
        i < mmap_bytes(*m).len(),
    ensures
        b == mmap_bytes(*m)[i as int],
{
    m.as_ref()[i]
}

/// The samples encoded by a byte sequence: consecutive big-endian pairs.
pub open spec fn decoded_samples(bytes: Seq<u8>) -> Seq<Elev> {
    Seq::new((bytes.len() / 2) as nat, |i: int| sample_value(bytes[2 * i], bytes[2 * i + 1]) as Elev)
}

/// The least element of a non-empty sample sequence.
pub open spec fn seq_min(s: Seq<Elev>) -> Elev
    recommends
        s.len() > 0,
    decreases s.len(),
{
    if s.len() <= 1 {
        s[0]
    } else {
        let rest = seq_min(s.drop_last());
        if s.last() < rest {
            s.last()
        } else {
            rest
        }
    }
}

/// The greatest element of a non-empty sample sequence.
pub open spec fn seq_max(s: Seq<Elev>) -> Elev
    recommends
        s.len() > 0,
    decreases s.len(),
{
    if s.len() <= 1 {
        s[0]
    } else {
        let rest = seq_max(s.drop_last());
        if s.last() > rest {
            s.last()
        } else {
            rest
        }
    }
}

/// [`seq_min`] is an element of the sequence and no element is below it.
pub proof fn lemma_seq_min_props(s: Seq<Elev>)
    requires
        s.len() > 0,
    ensures
        exists|i: int| 0 <= i < s.len() && seq_min(s) == s[i],
        forall|i: int| 0 <= i < s.len() ==> seq_min(s) <= s[i],
    decreases s.len(),
{
    if s.len() == 1 {
        assert(seq_min(s) == s[0]);
    } else {
        lemma_seq_min_props(s.drop_last());
        let rest = seq_min(s.drop_last());
        let j = choose|j: int| 0 <= j < s.drop_last().len() && rest == s.drop_last()[j];
        if s.last() < rest {
            assert(seq_min(s) == s[s.len() - 1]);
        } else {
            assert(s.drop_last()[j] == s[j]);
        }
        assert forall|i: int| 0 <= i < s.len() implies seq_min(s) <= s[i] by {
            if i < s.len() - 1 {
                assert(s.drop_last()[i] == s[i]);
            }
        }
    }
}

/// [`seq_max`] is an element of the sequence and no element is above it.
pub proof fn lemma_seq_max_props(s: Seq<Elev>)
    requires
        s.len() > 0,
    ensures
        exists|i: int| 0 <= i < s.len() && seq_max(s) == s[i],
        forall|i: int| 0 <= i < s.len() ==> seq_max(s) >= s[i],
    decreases s.len(),
{
    if s.len() == 1 {
        assert(seq_max(s) == s[0]);
    } else {
        lemma_seq_max_props(s.drop_last());
        let rest = seq_max(s.drop_last());
        let j = choose|j: int| 0 <= j < s.drop_last().len() && rest == s.drop_last()[j];
        if s.last() > rest {
            assert(seq_max(s) == s[s.len() - 1]);
        } else {
            assert(s.drop_last()[j] == s[j]);
        }
        assert forall|i: int| 0 <= i < s.len() implies seq_max(s) >= s[i] by {
            if i < s.len() - 1 {
                assert(s.drop_last()[i] == s[i]);
            }
        }
    }
}

/// Owns a tile's raw elevation samples behind one of three backends. Every
/// backend decodes to the same mathematical value: the store's view, a
/// sequence of signed 16-bit elevations.
#[derive(Debug)]
pub enum SampleStore {
    /// A virtual all-zero store of the given sample count, standing in for a
    /// region with no coverage.
    Tombstone(usize),
    /// Every sample decoded into memory.
    InMem(Vec<Elev>),
    /// A read-only mapping of the file's bytes; each access decodes two
    /// bytes on demand.
    MemMap(memmap2::Mmap),
}

impl View for SampleStore {
    type V = Seq<Elev>;

    open spec fn view(&self) -> Seq<Elev> {
        match self {
            SampleStore::Tombstone(n) => Seq::new(*n as nat, |i: int| 0i16),
            SampleStore::InMem(v) => v@,
            SampleStore::MemMap(m) => decoded_samples(mmap_bytes(*m)),
        }
    }
}

impl SampleStore {
    /// The number of samples this store holds.
    pub fn len(&self) -> (n: usize)
        ensures
            n == self@.len(),
    {
        match self {
            SampleStore::Tombstone(n) => *n,
            SampleStore::InMem(v) => v.len(),
            SampleStore::MemMap(m) => mmap_len(m) / 2,
        }
    }

    /// The sample at a linear offset, with no bound check beyond the
    /// caller's obligation.
    pub fn get_linear_unchecked(&self, index: usize) -> (r: Elev)
        requires
            index < self@.len(),
        ensures
            r == self@[index as int],
    {
        match self {
            SampleStore::Tombstone(_) => 0,
            SampleStore::InMem(v) => v[index],
            SampleStore::MemMap(m) => {
                let n = mmap_len(m);
                let b0 = mmap_byte(m, 2 * index);
                let b1 = mmap_byte(m, 2 * index + 1);
                let r = decode_sample(b0, b1);
                proof {
                    assert(-32768 <= sample_value(mmap_bytes(*m)[2 * index], mmap_bytes(*m)[2
                        * index + 1]) < 32768);
                }
                r
            },
        }
    }

    /// The lowest sample in this store; a full scan.
    pub fn min(&self) -> (r: Elev)
        requires
            self@.len() > 0,
        ensures
            r == seq_min(self@),
    {
        let n = self.len();
        let mut best = self.get_linear_unchecked(0);
        let mut idx: usize = 1;
        proof {
            assert(self@.take(1) =~= seq![self@[0]]);
        }
        while idx < n
            invariant
                1 <= idx <= n,
                n == self@.len(),
                best == seq_min(self@.take(idx as int)),
            decreases n - idx,
        {
            let v = self.get_linear_unchecked(idx);
            proof {
                let t = self@.take(idx as int + 1);
                assert(t.drop_last() =~= self@.take(idx as int));
                assert(t.last() == self@[idx as int]);
            }
            if v < best {
                best = v;
            }
            idx += 1;
        }
        proof {
            assert(self@.take(n as int) =~= self@);
        }
        best
    }

    /// The highest sample in this store; a full scan.
    pub fn max(&self) -> (r: Elev)
        requires
            self@.len() > 0,
        ensures
            r == seq_max(self@),
    {
        let n = self.len();
        let mut best = self.get_linear_unchecked(0);
        let mut idx: usize = 1;
        proof {
            assert(self@.take(1) =~= seq![self@[0]]);
        }
        while idx < n
            invariant
                1 <= idx <= n,
                n == self@.len(),
                best == seq_max(self@.take(idx as int)),
            decreases n - idx,
        {
            let v = self.get_linear_unchecked(idx);
            proof {
                let t = self@.take(idx as int + 1);
                assert(t.drop_last() =~= self@.take(idx as int));
                assert(t.last() == self@[idx as int]);
            }
            if v > best {
                best = v;
            }
            idx += 1;
        }
        proof {
            assert(self@.take(n as int) =~= self@);
        }
        best
    }
}

} // verus!
