//! Crystal data files: a sequence of little-endian 32-bit values.
use vstd::prelude::*;
use crate::bytes::{le32, le32_bytes, lemma_le32_of_bytes, push_le_u32, read_le_u32};
use crate::error::IoErrorKind;

verus! {

/// The bytes of a Crystal data file.
#[derive(Debug)]
pub struct CrystalFile {
    pub data: Vec<u8>,
}

/// The little-endian bytes of the values `v`, one after another.
pub open spec fn words_bytes(v: Seq<u32>) -> Seq<u8>
    decreases v.len(),
{
    if v.len() == 0 {
        Seq::empty()
    } else {
        words_bytes(v.drop_last()) + le32_bytes(v.last() as int)
    }
}

/// The values of `d` read four bytes at a time.
pub open spec fn words_of(d: Seq<u8>) -> Seq<u32> {
    Seq::new(d.len() / 4, |i: int| le32(d, 4 * i) as u32)
}

proof fn lemma_words_bytes_len(v: Seq<u32>)
    ensures
        words_bytes(v).len() == 4 * v.len(),
    decreases v.len(),
{
    if v.len() > 0 {
        lemma_words_bytes_len(v.drop_last());
    }
}

impl CrystalFile {
    /// An empty file.
    pub fn new() -> (r: CrystalFile)
        ensures
            r.data@ == Seq::<u8>::empty(),
    {
        CrystalFile { data: Vec::new() }
    }

    /// The values of the file, four little-endian bytes each; a length that is not a multiple
    /// of 4 is invalid data.
    pub fn read_crystal_data(&self) -> (r: Result<Vec<u32>, IoErrorKind>)
        ensures
            self.data@.len() % 4 != 0 ==> r == Err::<Vec<u32>, IoErrorKind>(IoErrorKind::InvalidData),
            self.data@.len() % 4 == 0 ==> (r matches Ok(v) && v@ == words_of(self.data@)),
    {
        let n = self.data.len();
        if n % 4 != 0 {
            return Err(IoErrorKind::InvalidData);
        }
        let mut out: Vec<u32> = Vec::new();
        let mut i: usize = 0;
        while i < n / 4
            invariant
                n == self.data@.len(),
                n % 4 == 0,
                i <= n / 4,
                out@ == words_of(self.data@).take(i as int),
            decreases n / 4 - i,
        {
            let w = read_le_u32(self.data.as_slice(), 4 * i);
            out.push(w);
            i = i + 1;
            assert(out@ =~= words_of(self.data@).take(i as int));
        }
        assert(out@ =~= words_of(self.data@));
        Ok(out)
    }

    /// Replaces the file's bytes with the little-endian bytes of `data`.
    pub fn write_crystal_data(&mut self, data: &[u32]) -> (r: Result<(), IoErrorKind>)
        ensures
            r is Ok,
            final(self).data@ == words_bytes(data@),
    {
        let mut out: Vec<u8> = Vec::new();
        let mut i: usize = 0;
        while i < data.len()
            invariant
                i <= data@.len(),
                out@ == words_bytes(data@.take(i as int)),
            decreases data@.len() - i,
        {
            assert(data@.take(i + 1).drop_last() =~= data@.take(i as int));
            push_le_u32(&mut out, data[i]);
            i = i + 1;
        }
        assert(data@.take(i as int) =~= data@);
        self.data = out;
        Ok(())
    }
}

/// Writing values and reading them back gives the same values.
pub proof fn lemma_crystal_write_read(v: Seq<u32>)
    ensures
        words_bytes(v).len() % 4 == 0,
        words_of(words_bytes(v)) == v,
    decreases v.len(),
{
    lemma_words_bytes_len(v);
    if v.len() > 0 {
        let p = v.drop_last();
        lemma_crystal_write_read(p);
        lemma_words_bytes_len(p);
        let d = words_bytes(v);
        let dp = words_bytes(p);
        let k: int = 4 * (p.len() as int);
        assert(d.subrange(k, k + 4) =~= le32_bytes(v.last() as int));
        lemma_le32_of_bytes(d, k, v.last() as int);
        assert forall|i: int| 0 <= i < p.len() implies #[trigger] words_of(d)[i] == words_of(dp)[i] by {
            assert(d[4 * i] == dp[4 * i]);
            assert(d[4 * i + 1] == dp[4 * i + 1]);
            assert(d[4 * i + 2] == dp[4 * i + 2]);
            assert(d[4 * i + 3] == dp[4 * i + 3]);
        }
        assert(words_of(d) =~= v) by {
            assert forall|i: int| 0 <= i < v.len() implies words_of(d)[i] == v[i] by {
                if i < p.len() {
                    assert(words_of(d)[i] == words_of(dp)[i]);
                    assert(words_of(dp)[i] == p[i]);
                }
            }
        }
    } else {
        assert(words_of(words_bytes(v)) =~= v);
    }
}

} // verus!
