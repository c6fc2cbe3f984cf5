//! Block devices addressed by byte offset: the interface, a device held in memory, and the
//! part of a kernel-resource device that needs no kernel call.
use vstd::prelude::*;
use crate::error::SahneError;
use crate::resource::Handle;

verus! {

/// A position to seek to, as `std::io::SeekFrom` gives it.
#[derive(Debug, Clone, Copy, PartialEq, Eq, Structural)]
pub enum SeekFrom {
    Start(u64),
    End(i64),
    Current(i64),
}

/// A device read and written at byte offsets.
pub trait BlockDevice {
    /// The seeks the device can perform without overflowing its arithmetic.
    spec fn seek_in_range(&self, pos: SeekFrom) -> bool;

    /// A read at `offset` of the device in this state may turn a buffer holding `before` into
    /// one holding `after` and report `r`.
    spec fn reads(&self, offset: u64, before: Seq<u8>, after: Seq<u8>, r: Result<usize, SahneError>) -> bool;

    /// A write of `data` at `offset` to the device in this state may leave it as `after` and
    /// report `r`.
    spec fn writes(&self, offset: u64, data: Seq<u8>, after: &Self, r: Result<usize, SahneError>) -> bool;

    fn block_size(&self) -> u64;

    /// Reads into `buf` from `offset`; the number of bytes read is at most `buf`'s length.
    fn read(&mut self, offset: u64, buf: &mut [u8]) -> (r: Result<usize, SahneError>)
        ensures
            final(buf)@.len() == old(buf)@.len(),
            r matches Ok(n) ==> n <= old(buf)@.len(),
            old(self).reads(offset, old(buf)@, final(buf)@, r),
    ;

    /// Writes `buf` at `offset`; the number of bytes written is at most `buf`'s length.
    fn write(&mut self, offset: u64, buf: &[u8]) -> (r: Result<usize, SahneError>)
        ensures
            r matches Ok(n) ==> n <= buf@.len(),
            old(self).writes(offset, buf@, final(self), r),
    ;

    fn size(&self) -> Result<u64, SahneError>;

    fn seek(&mut self, pos: SeekFrom) -> Result<u64, SahneError>
        requires
            old(self).seek_in_range(pos),
    ;
}

/// A block device held in memory.
pub struct MemBlockDevice {
    data: Vec<u8>,
    block_size: u64,
}

/// What a seek of a memory device of `len` bytes returns (it keeps no position).
pub open spec fn mem_seek(len: int, pos: SeekFrom) -> Result<u64, SahneError> {
    match pos {
        SeekFrom::Start(o) => if o > len {
            Err(SahneError::InvalidAddress)
        } else {
            Ok(o)
        },
        SeekFrom::End(o) => Ok(
            (if len + o >= 0 {
                len + o
            } else {
                len + o + 0x1_0000_0000_0000_0000
            }) as u64,
        ),
        SeekFrom::Current(o) => Ok(
            (if o >= 0 {
                o as int
            } else {
                o + 0x1_0000_0000_0000_0000
            }) as u64,
        ),
    }
}

/// The number of bytes a transfer of `want` bytes at `offset` moves on a device of `len`
/// bytes: none past the end, else as many as fit.
pub open spec fn transfer_len(len: int, offset: int, want: int) -> int {
    if offset >= len {
        0
    } else if want < len - offset {
        want
    } else {
        len - offset
    }
}

impl MemBlockDevice {
    pub closed spec fn bytes(&self) -> Seq<u8> {
        self.data@
    }

    pub closed spec fn spec_block_size(&self) -> u64 {
        self.block_size
    }

    /// A device of `size` zero bytes with the given block size.
    pub fn new(size: u64, block_size: u64) -> (r: Self)
        requires
            size <= usize::MAX,
        ensures
            r.bytes() == Seq::new(size as nat, |_i: int| 0u8),
            r.spec_block_size() == block_size,
    {
        let mut data: Vec<u8> = Vec::new();
        let mut k: u64 = 0;
        while k < size
            invariant
                k <= size,
                data@ == Seq::new(k as nat, |_i: int| 0u8),
            decreases size - k,
        {
            data.push(0u8);
            k = k + 1;
            assert(data@ =~= Seq::new(k as nat, |_i: int| 0u8));
        }
        MemBlockDevice { data, block_size }
    }
}

/// The buffer a read of `want.len()` bytes at `offset` of `bytes` leaves.
pub open spec fn mem_read_buffer(bytes: Seq<u8>, offset: int, want: Seq<u8>) -> Seq<u8> {
    let n = transfer_len(bytes.len() as int, offset, want.len() as int);
    if n == 0 {
        want
    } else {
        bytes.subrange(offset, offset + n) + want.subrange(n, want.len() as int)
    }
}

/// The bytes a write of `data` at `offset` over `bytes` leaves.
pub open spec fn mem_written(bytes: Seq<u8>, offset: int, data: Seq<u8>) -> Seq<u8> {
    let n = transfer_len(bytes.len() as int, offset, data.len() as int);
    if n == 0 {
        bytes
    } else {
        bytes.subrange(0, offset) + data.subrange(0, n) + bytes.subrange(offset + n, bytes.len() as int)
    }
}

impl BlockDevice for MemBlockDevice {
    open spec fn seek_in_range(&self, pos: SeekFrom) -> bool {
        pos matches SeekFrom::End(o) ==> self.bytes().len() + o <= i64::MAX
    }

    open spec fn reads(&self, offset: u64, before: Seq<u8>, after: Seq<u8>, r: Result<usize, SahneError>) -> bool {
        &&& r == Ok::<usize, SahneError>(
            transfer_len(self.bytes().len() as int, offset as int, before.len() as int) as usize,
        )
        &&& after == mem_read_buffer(self.bytes(), offset as int, before)
    }

    open spec fn writes(&self, offset: u64, data: Seq<u8>, after: &Self, r: Result<usize, SahneError>) -> bool {
        &&& r == Ok::<usize, SahneError>(
            transfer_len(self.bytes().len() as int, offset as int, data.len() as int) as usize,
        )
        &&& after.bytes() == mem_written(self.bytes(), offset as int, data)
        &&& after.spec_block_size() == self.spec_block_size()
    }

    fn block_size(&self) -> (r: u64)
        ensures
            r == self.spec_block_size(),
    {
        self.block_size
    }

    /// Copies the device's bytes from `offset` into the front of `buf`, as many as fit in both.
    fn read(&mut self, offset: u64, buf: &mut [u8]) -> (r: Result<usize, SahneError>)
        ensures
            final(self).bytes() == old(self).bytes(),
            final(self).spec_block_size() == old(self).spec_block_size(),
            ({
                let n = transfer_len(old(self).bytes().len() as int, offset as int, old(buf)@.len() as int);
                &&& r == Ok::<usize, SahneError>(n as usize)
                &&& final(buf)@ == (if n == 0 {
                    old(buf)@
                } else {
                    old(self).bytes().subrange(offset as int, offset + n) + old(buf)@.subrange(
                        n,
                        old(buf)@.len() as int,
                    )
                })
            }),
    {
        let len = self.data.len();
        if offset >= len as u64 {
            return Ok(0);
        }
        let off = offset as usize;
        let n = if buf.len() < len - off {
            buf.len()
        } else {
            len - off
        };
        let mut k: usize = 0;
        while k < n
            invariant
                len == self.data@.len(),
                off < len,
                n <= buf@.len(),
                n <= len - off,
                k <= n,
                buf@.len() == old(buf)@.len(),
                self.data@ == old(self).data@,
                forall|j: int| 0 <= j < k ==> buf@[j] == self.data@[off + j],
                forall|j: int| n <= j < buf@.len() ==> buf@[j] == old(buf)@[j],
            decreases n - k,
        {
            buf[k] = self.data[off + k];
            k = k + 1;
        }
        if n > 0 {
            assert(buf@ =~= self.data@.subrange(off as int, off + n) + old(buf)@.subrange(
                n as int,
                old(buf)@.len() as int,
            ));
        } else {
            assert(buf@ =~= old(buf)@);
        }
        Ok(n)
    }

    /// Copies the front of `buf` onto the device's bytes from `offset`, as many as fit in both.
    fn write(&mut self, offset: u64, buf: &[u8]) -> (r: Result<usize, SahneError>)
        ensures
            final(self).spec_block_size() == old(self).spec_block_size(),
            ({
                let len = old(self).bytes().len() as int;
                let n = transfer_len(len, offset as int, buf@.len() as int);
                &&& r == Ok::<usize, SahneError>(n as usize)
                &&& final(self).bytes() == (if n == 0 {
                    old(self).bytes()
                } else {
                    old(self).bytes().subrange(0, offset as int) + buf@.subrange(0, n)
                        + old(self).bytes().subrange(offset + n, len)
                })
            }),
    {
        let len = self.data.len();
        if offset >= len as u64 {
            return Ok(0);
        }
        let off = offset as usize;
        let n = if buf.len() < len - off {
            buf.len()
        } else {
            len - off
        };
        let mut k: usize = 0;
        while k < n
            invariant
                len == self.data@.len(),
                off < len,
                n <= buf@.len(),
                n <= len - off,
                k <= n,
                forall|j: int| 0 <= j < off ==> self.data@[j] == old(self).data@[j],
                forall|j: int| off <= j < off + k ==> self.data@[j] == buf@[j - off],
                forall|j: int| off + k <= j < len ==> self.data@[j] == old(self).data@[j],
                self.block_size == old(self).block_size,
            decreases n - k,
        {
            self.data.set(off + k, buf[k]);
            k = k + 1;
        }
        if n > 0 {
            assert(self.data@ =~= old(self).data@.subrange(0, off as int) + buf@.subrange(0, n as int)
                + old(self).data@.subrange(off + n, len as int));
        } else {
            assert(self.data@ =~= old(self).data@);
        }
        Ok(n)
    }

    fn size(&self) -> (r: Result<u64, SahneError>)
        ensures
            r == Ok::<u64, SahneError>(self.bytes().len() as u64),
    {
        Ok(self.data.len() as u64)
    }

    /// Checks a seek against the device's size and gives the position it names; the device
    /// itself keeps no position.
    fn seek(&mut self, pos: SeekFrom) -> (r: Result<u64, SahneError>)
        ensures
            final(self).bytes() == old(self).bytes(),
            final(self).spec_block_size() == old(self).spec_block_size(),
            r == mem_seek(old(self).bytes().len() as int, pos),
    {
        let len = self.data.len();
        match pos {
            SeekFrom::Start(offset) => {
                if offset > len as u64 {
                    Err(SahneError::InvalidAddress)
                } else {
                    Ok(offset)
                }
            },
            SeekFrom::End(offset) => {
                let p: i128 = len as i128 + offset as i128;
                if p >= 0 {
                    Ok(p as u64)
                } else {
                    Ok((p + 0x1_0000_0000_0000_0000) as u64)
                }
            },
            SeekFrom::Current(offset) => {
                if offset >= 0 {
                    Ok(offset as u64)
                } else {
                    Ok((offset as i128 + 0x1_0000_0000_0000_0000) as u64)
                }
            },
        }
    }
}

/// A block device backed by a Sahne64 kernel resource.
pub struct ResourceBlockDevice {
    handle: Handle,
    block_size: u64,
}

impl ResourceBlockDevice {
    pub closed spec fn spec_handle(&self) -> Handle {
        self.handle
    }

    pub closed spec fn spec_block_size(&self) -> u64 {
        self.block_size
    }

    /// The device for a resource the kernel handed out as `handle`.
    pub fn from_handle(handle: Handle, block_size: u64) -> (r: Self)
        ensures
            r.spec_handle() == handle,
            r.spec_block_size() == block_size,
    {
        ResourceBlockDevice { handle, block_size }
    }

    pub fn block_size(&self) -> (r: u64)
        ensures
            r == self.spec_block_size(),
    {
        self.block_size
    }

    /// The kernel cannot report a resource's size: this always fails with `NotSupported`.
    pub fn size(&self) -> (r: Result<u64, SahneError>)
        ensures
            r == Err::<u64, SahneError>(SahneError::NotSupported),
    {
        Err(SahneError::NotSupported)
    }

    /// The kernel cannot seek a resource: this always fails with `NotSupported`.
    pub fn seek(&mut self, pos: SeekFrom) -> (r: Result<u64, SahneError>)
        ensures
            r == Err::<u64, SahneError>(SahneError::NotSupported),
            *final(self) == *old(self),
    {
        Err(SahneError::NotSupported)
    }
}

/// On a memory device, a write at an offset inside the device moves as many bytes as fit
/// before the end, keeps the device's size, and reading that many bytes at the offset right
/// after gives them back; a read at or past the end moves nothing and leaves its buffer as it
/// was.
pub proof fn lemma_mem_write_then_read(bytes: Seq<u8>, offset: u64, data: Seq<u8>, out: Seq<u8>, off2: int, b2: Seq<u8>)
    requires
        offset < bytes.len(),
        out.len() == transfer_len(bytes.len() as int, offset as int, data.len() as int),
        off2 >= bytes.len(),
    ensures
        ({
            let n = transfer_len(bytes.len() as int, offset as int, data.len() as int);
            let written = mem_written(bytes, offset as int, data);
            &&& n == (if data.len() < bytes.len() - offset { data.len() as int } else { bytes.len() - offset })
            &&& written.len() == bytes.len()
            &&& transfer_len(written.len() as int, offset as int, out.len() as int) == n
            &&& mem_read_buffer(written, offset as int, out) == data.subrange(0, n)
            &&& transfer_len(written.len() as int, off2, b2.len() as int) == 0
            &&& mem_read_buffer(written, off2, b2) == b2
        }),
{
    let n = transfer_len(bytes.len() as int, offset as int, data.len() as int);
    let written = mem_written(bytes, offset as int, data);
    if n > 0 {
        assert(written.subrange(offset as int, offset + n) =~= data.subrange(0, n));
        assert(mem_read_buffer(written, offset as int, out) =~= data.subrange(0, n));
    } else {
        assert(written =~= bytes);
        assert(out =~= data.subrange(0, n));
    }
}

} // verus!
