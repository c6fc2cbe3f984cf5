//! Access database files held in memory: bytes with a read position.
use vstd::prelude::*;
use crate::blockdevice::SeekFrom;
use crate::error::{IoErrorKind, SahneError};

verus! {

/// An Access database file held in memory, read from a position that seeking may move past
/// the end.
pub struct AccdbFile {
    data: Vec<u8>,
    cursor: usize,
}

/// The position a seek leads to from `cursor` in `len` bytes, or `None` where the seek is
/// refused (a position below zero or beyond the signed range).
pub open spec fn seek_target(len: int, cursor: int, pos: SeekFrom) -> Option<int> {
    let target = match pos {
        SeekFrom::Start(o) => o as int,
        SeekFrom::End(o) => len + o,
        SeekFrom::Current(o) => cursor + o,
    };
    if 0 <= target <= isize::MAX {
        Some(target)
    } else {
        None
    }
}

impl AccdbFile {
    pub closed spec fn bytes(&self) -> Seq<u8> {
        self.data@
    }

    pub closed spec fn position(&self) -> usize {
        self.cursor
    }

    /// A file holding `data`, positioned at its start.
    pub fn new(data: Vec<u8>) -> (r: Self)
        ensures
            r.bytes() == data@,
            r.position() == 0,
    {
        AccdbFile { data, cursor: 0 }
    }

    /// The bytes from `offset`, at most `size` of them; none when `offset` is at or past the end.
    pub fn read_at(&self, offset: usize, size: usize) -> (r: Option<&[u8]>)
        requires
            offset + size <= usize::MAX,
        ensures
            offset >= self.bytes().len() ==> r is None,
            offset < self.bytes().len() ==> (r matches Some(s) && s@ == self.bytes().subrange(
                offset as int,
                if offset + size < self.bytes().len() {
                    offset + size
                } else {
                    self.bytes().len() as int
                },
            )),
    {
        let len = self.data.len();
        if offset >= len {
            return None;
        }
        let end = if offset + size < len {
            offset + size
        } else {
            len
        };
        Some(vstd::slice::slice_subrange(self.data.as_slice(), offset, end))
    }

    /// Overwrites the bytes from `offset` with `data`; the bytes must lie inside the file.
    pub fn write_at(&mut self, offset: usize, data: &[u8]) -> (r: Result<(), SahneError>)
        requires
            offset + data@.len() <= usize::MAX,
        ensures
            final(self).position() == old(self).position(),
            offset >= old(self).bytes().len() || offset + data@.len() > old(self).bytes().len() ==> (
            r == Err::<(), SahneError>(SahneError::InvalidParameter) && final(self).bytes()
                == old(self).bytes()),
            offset < old(self).bytes().len() && offset + data@.len() <= old(self).bytes().len() ==> (
            r is Ok && final(self).bytes() == old(self).bytes().subrange(0, offset as int) + data@
                + old(self).bytes().subrange(offset + data@.len(), old(self).bytes().len() as int)),
    {
        let len = self.data.len();
        if offset >= len {
            return Err(SahneError::InvalidParameter);
        }
        if offset + data.len() > len {
            return Err(SahneError::InvalidParameter);
        }
        let n = data.len();
        let mut k: usize = 0;
        while k < n
            invariant
                len == self.data@.len(),
                n == data@.len(),
                offset + n <= len,
                k <= n,
                self.cursor == old(self).cursor,
                forall|j: int| 0 <= j < offset ==> self.data@[j] == old(self).data@[j],
                forall|j: int| offset <= j < offset + k ==> self.data@[j] == data@[j - offset],
                forall|j: int| offset + k <= j < len ==> self.data@[j] == old(self).data@[j],
            decreases n - k,
        {
            self.data.set(offset + k, data[k]);
            k = k + 1;
        }
        assert(self.data@ =~= old(self).data@.subrange(0, offset as int) + data@
            + old(self).data@.subrange(offset + n, len as int));
        Ok(())
    }

    /// All the bytes of the file.
    pub fn as_bytes(&self) -> (r: &[u8])
        ensures
            r@ == self.bytes(),
    {
        self.data.as_slice()
    }

    /// All the bytes of the file, to change in place.
    pub fn as_bytes_mut(&mut self) -> (r: &mut [u8])
        ensures
            r@ == old(self).bytes(),
            final(self).bytes() == final(r)@,
            final(self).position() == old(self).position(),
    {
        self.data.as_mut_slice()
    }

    /// The number of bytes of the file.
    pub fn len(&self) -> (r: usize)
        ensures
            r == self.bytes().len(),
    {
        self.data.len()
    }

    /// Whether the file has no bytes.
    pub fn is_empty(&self) -> (r: bool)
        ensures
            r == (self.bytes().len() == 0),
    {
        self.data.len() == 0
    }

    /// The read position.
    pub fn stream_position(&self) -> (r: usize)
        ensures
            r == self.position(),
    {
        self.cursor
    }

    /// Reads from the position into the front of `buf`, as many bytes as fit in both, and
    /// moves the position past them.
    pub fn read(&mut self, buf: &mut [u8]) -> (r: Result<usize, IoErrorKind>)
        ensures
            final(self).bytes() == old(self).bytes(),
            ({
                let len = old(self).bytes().len() as int;
                let p = old(self).position() as int;
                let n = if p >= len {
                    0
                } else if old(buf)@.len() < len - p {
                    old(buf)@.len() as int
                } else {
                    len - p
                };
                &&& r == Ok::<usize, IoErrorKind>(n as usize)
                &&& final(self).position() == p + n
                &&& final(buf)@ == (if n == 0 {
                    old(buf)@
                } else {
                    old(self).bytes().subrange(p, p + n) + old(buf)@.subrange(n, old(buf)@.len() as int)
                })
            }),
    {
        let len = self.data.len();
        if self.cursor >= len {
            return Ok(0);
        }
        let p = self.cursor;
        let n = if buf.len() < len - p {
            buf.len()
        } else {
            len - p
        };
        let mut k: usize = 0;
        while k < n
            invariant
                len == self.data@.len(),
                p < len,
                n <= buf@.len(),
                n <= len - p,
                k <= n,
                buf@.len() == old(buf)@.len(),
                self.data@ == old(self).data@,
                self.cursor == p,
                forall|j: int| 0 <= j < k ==> buf@[j] == self.data@[p + j],
                forall|j: int| n <= j < buf@.len() ==> buf@[j] == old(buf)@[j],
            decreases n - k,
        {
            buf[k] = self.data[p + k];
            k = k + 1;
        }
        if n > 0 {
            assert(buf@ =~= self.data@.subrange(p as int, p + n) + old(buf)@.subrange(
                n as int,
                old(buf)@.len() as int,
            ));
        } else {
            assert(buf@ =~= old(buf)@);
        }
        self.cursor = p + n;
        Ok(n)
    }

    /// Moves the position; a position past the end is allowed, one below zero is refused.
    pub fn seek(&mut self, pos: SeekFrom) -> (r: Result<u64, IoErrorKind>)
        ensures
            final(self).bytes() == old(self).bytes(),
            match seek_target(old(self).bytes().len() as int, old(self).position() as int, pos) {
                Some(t) => r == Ok::<u64, IoErrorKind>(t as u64) && final(self).position() == t,
                None => r == Err::<u64, IoErrorKind>(IoErrorKind::InvalidInput)
                    && final(self).position() == old(self).position(),
            },
    {
        let len = self.data.len();
        let target: i128 = match pos {
            SeekFrom::Start(o) => o as i128,
            SeekFrom::End(o) => len as i128 + o as i128,
            SeekFrom::Current(o) => self.cursor as i128 + o as i128,
        };
        if target < 0 || target > isize::MAX as i128 {
            return Err(IoErrorKind::InvalidInput);
        }
        self.cursor = target as usize;
        Ok(target as u64)
    }
}

/// Reading the bytes at an offset right after writing them there gives back what was written.
pub proof fn lemma_accdb_write_then_read(bytes: Seq<u8>, offset: int, data: Seq<u8>)
    requires
        0 <= offset < bytes.len(),
        offset + data.len() <= bytes.len(),
    ensures
        ({
            let written = bytes.subrange(0, offset) + data + bytes.subrange(offset + data.len(), bytes.len() as int);
            &&& written.len() == bytes.len()
            &&& written.subrange(offset, offset + data.len()) == data
        }),
{
    let written = bytes.subrange(0, offset) + data + bytes.subrange(offset + data.len(), bytes.len() as int);
    assert(written.subrange(offset, offset + data.len()) =~= data);
}

/// Seeking from the start to any position up to the signed limit puts the reader there.
pub proof fn lemma_accdb_seek_start(len: int, cursor: int, o: u64)
    requires
        o <= isize::MAX,
    ensures
        seek_target(len, cursor, SeekFrom::Start(o)) == Some(o as int),
{
}

} // verus!
