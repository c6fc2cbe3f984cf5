//! An eMMC device reached through a Sahne64 kernel resource: its geometry, and what a seek asks
//! of the kernel and makes of its answer.
use vstd::prelude::*;
use crate::blockdevice::SeekFrom;
use crate::error::SahneError;
use crate::resource::Handle;

verus! {

/// The kernel's seek commands.
#[derive(Debug, Clone, Copy, PartialEq, Eq, Structural)]
pub enum SeekCommand {
    FromStart,
    FromEnd,
    FromCurrent,
}

/// An eMMC device of `block_count` blocks of `block_size` bytes.
pub struct EMMC {
    handle: Handle,
    block_size: u32,
    block_count: u32,
}

/// The bits of a signed offset, as the kernel's unsigned argument carries them.
pub open spec fn offset_bits(o: i64) -> u64 {
    if o >= 0 {
        o as u64
    } else {
        (o + 0x1_0000_0000_0000_0000) as u64
    }
}

impl EMMC {
    pub closed spec fn spec_handle(&self) -> Handle {
        self.handle
    }

    pub closed spec fn spec_block_size(&self) -> u32 {
        self.block_size
    }

    pub closed spec fn spec_block_count(&self) -> u32 {
        self.block_count
    }

    /// The device on the resource `handle`.
    pub fn from_handle(handle: Handle, block_size: u32, block_count: u32) -> (r: Self)
        ensures
            r.spec_handle() == handle,
            r.spec_block_size() == block_size,
            r.spec_block_count() == block_count,
    {
        EMMC { handle, block_size, block_count }
    }

    /// The size the resource is set to when the device is opened.
    pub fn desired_size(block_size: u32, block_count: u32) -> (r: u64)
        ensures
            r == block_size * block_count,
    {
        proof {
            assert(block_size * block_count <= u32::MAX * u32::MAX) by (nonlinear_arith)
                requires
                    block_size <= u32::MAX,
                    block_count <= u32::MAX,
            ;
        }
        block_size as u64 * block_count as u64
    }

    pub fn block_size(&self) -> (r: u64)
        ensures
            r == self.spec_block_size(),
    {
        self.block_size as u64
    }

    pub fn block_count(&self) -> (r: u64)
        ensures
            r == self.spec_block_count(),
    {
        self.block_count as u64
    }

    /// The size of the device: its blocks times their size.
    pub fn size(&self) -> (r: Result<u64, SahneError>)
        ensures
            r == Ok::<u64, SahneError>((self.spec_block_size() * self.spec_block_count()) as u64),
    {
        Ok(Self::desired_size(self.block_size, self.block_count))
    }

    /// The kernel command and argument that perform the seek `pos`.
    pub fn seek_request(pos: SeekFrom) -> (r: (SeekCommand, u64))
        ensures
            r == match pos {
                SeekFrom::Start(o) => (SeekCommand::FromStart, o),
                SeekFrom::End(o) => (SeekCommand::FromEnd, offset_bits(o)),
                SeekFrom::Current(o) => (SeekCommand::FromCurrent, offset_bits(o)),
            },
    {
        let bits = |o: i64| -> (b: u64)
            ensures
                b == offset_bits(o),
            {
                if o >= 0 {
                    o as u64
                } else {
                    (o as i128 + 0x1_0000_0000_0000_0000) as u64
                }
            };
        match pos {
            SeekFrom::Start(o) => (SeekCommand::FromStart, o),
            SeekFrom::End(o) => (SeekCommand::FromEnd, bits(o)),
            SeekFrom::Current(o) => (SeekCommand::FromCurrent, bits(o)),
        }
    }

    /// The position a seek reports from the kernel's answer: a negative position is a
    /// communication error, a kernel error passes through.
    pub fn seek_outcome(answer: Result<i64, SahneError>) -> (r: Result<u64, SahneError>)
        ensures
            r == match answer {
                Ok(p) => if p < 0 {
                    Err::<u64, SahneError>(SahneError::CommunicationError)
                } else {
                    Ok(p as u64)
                },
                Err(e) => Err(e),
            },
    {
        match answer {
            Ok(p) => if p < 0 {
                Err(SahneError::CommunicationError)
            } else {
                Ok(p as u64)
            },
            Err(e) => Err(e),
        }
    }
}

} // verus!
