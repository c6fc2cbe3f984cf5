//! Block-level access to storage: the block device over a kernel resource, the device with a
//! requested size, and the manager of the data blocks. The kernel calls themselves are made by
//! the caller; what is decided here is which offset a block lives at and whether a transfer
//! is allowed or complete.
use vstd::prelude::*;
use crate::blockdevice::BlockDevice as OffsetDevice;
use crate::config::{BLOCK_SIZE, DATA_BLOCKS_LOCATION};
use crate::error::SahneError;
use crate::resource::Handle;

verus! {

/// Access to a device one block at a time.
pub trait AbstractDevice {
    fn block_size(&self) -> u64;

    fn block_count(&self) -> u64;
}

/// How a block device reaches its storage.
#[derive(Debug, Clone, Copy, PartialEq, Eq, Structural)]
pub enum DeviceHandle {
    /// A Sahne64 kernel resource.
    Resource(Handle),
}

/// A device of `block_count` blocks of `block_size` bytes.
pub struct BlockDevice {
    pub device: DeviceHandle,
    pub block_size: u64,
    pub block_count: u64,
}

/// The byte offset of block `n` with blocks of `size` bytes.
pub open spec fn block_offset(n: int, size: int) -> int {
    n * size
}

impl BlockDevice {
    /// A device reached through `device`.
    pub fn new(device: DeviceHandle, block_size: u64, block_count: u64) -> (r: Self)
        ensures
            r.device == device,
            r.block_size == block_size,
            r.block_count == block_count,
    {
        BlockDevice { device, block_size, block_count }
    }

    /// Where block `block_number` starts, for a transfer with a buffer of `buf_len` bytes:
    /// the buffer must hold exactly one block.
    pub fn transfer_offset(&self, block_number: u64, buf_len: usize) -> (r: Result<u64, SahneError>)
        requires
            block_number * self.block_size <= u64::MAX,
        ensures
            buf_len != self.block_size ==> r == Err::<u64, SahneError>(SahneError::InvalidOperation),
            buf_len == self.block_size ==> r == Ok::<u64, SahneError>(
                block_offset(block_number as int, self.block_size as int) as u64,
            ),
    {
        if buf_len as u64 != self.block_size {
            return Err(SahneError::InvalidOperation);
        }
        Ok(block_number * self.block_size)
    }

    /// The outcome of a block transfer that asked for `expected` bytes and moved `moved`:
    /// anything short of the whole block is a communication error.
    pub fn transfer_outcome(expected: usize, moved: Result<usize, SahneError>) -> (r: Result<usize, SahneError>)
        ensures
            r == match moved {
                Ok(n) => if n == expected {
                    Ok::<usize, SahneError>(n)
                } else {
                    Err(SahneError::CommunicationError)
                },
                Err(e) => Err(e),
            },
    {
        match moved {
            Ok(n) => if n == expected {
                Ok(n)
            } else {
                Err(SahneError::CommunicationError)
            },
            Err(e) => Err(e),
        }
    }
}

impl AbstractDevice for BlockDevice {
    fn block_size(&self) -> (r: u64)
        ensures
            r == self.block_size,
    {
        self.block_size
    }

    fn block_count(&self) -> (r: u64)
        ensures
            r == self.block_count,
    {
        self.block_count
    }
}

/// A device over a kernel resource, with the size it was asked to have.
pub struct Device {
    handle: Handle,
    block_size: u64,
    size: u64,
}

impl Device {
    pub closed spec fn spec_handle(&self) -> Handle {
        self.handle
    }

    pub closed spec fn spec_block_size(&self) -> u64 {
        self.block_size
    }

    pub closed spec fn spec_size(&self) -> u64 {
        self.size
    }

    /// The device for the resource `handle`, sized to `desired_size` bytes.
    pub fn from_handle(handle: Handle, block_size: u64, desired_size: u64) -> (r: Self)
        ensures
            r.spec_handle() == handle,
            r.spec_block_size() == block_size,
            r.spec_size() == desired_size,
    {
        Device { handle, block_size, size: desired_size }
    }

    /// Where block `block_num` starts; a block at or past the end of the device is refused.
    pub fn block_start(&self, block_num: u64) -> (r: Result<u64, SahneError>)
        requires
            block_num * self.spec_block_size() <= u64::MAX,
        ensures
            ({
                let off = block_offset(block_num as int, self.spec_block_size() as int);
                &&& off >= self.spec_size() ==> r == Err::<u64, SahneError>(SahneError::InvalidParameter)
                &&& off < self.spec_size() ==> r == Ok::<u64, SahneError>(off as u64)
            }),
    {
        let offset = block_num * self.block_size;
        if offset >= self.size {
            return Err(SahneError::InvalidParameter);
        }
        Ok(offset)
    }

    /// Whether a buffer of `buf_len` bytes holds exactly one block.
    pub fn check_buffer(&self, buf_len: usize) -> (r: Result<(), SahneError>)
        ensures
            buf_len == self.spec_block_size() ==> r is Ok,
            buf_len != self.spec_block_size() ==> r == Err::<(), SahneError>(SahneError::InvalidParameter),
    {
        if buf_len as u64 != self.block_size {
            return Err(SahneError::InvalidParameter);
        }
        Ok(())
    }

    pub fn block_size(&self) -> (r: u64)
        ensures
            r == self.spec_block_size(),
    {
        self.block_size
    }

    pub fn size(&self) -> (r: u64)
        ensures
            r == self.spec_size(),
    {
        self.size
    }
}

/// The byte offset of data block `n`: data blocks follow the first `DATA_BLOCKS_LOCATION`
/// blocks.
pub open spec fn data_block_offset(n: int) -> int {
    (DATA_BLOCKS_LOCATION + n) * BLOCK_SIZE
}

/// The largest logical data block whose offset fits in 64 bits.
pub open spec fn max_data_block() -> int {
    0xffff_ffff_ffff_ffffint / 4096 - 1024
}

/// Reads and writes the data blocks of a file system on a device.
pub struct DataBlocksManager<D: OffsetDevice> {
    pub device: D,
}

impl<D: OffsetDevice> DataBlocksManager<D> {
    /// A manager of the data blocks of `device`.
    pub fn new(device: D) -> (r: Self)
        ensures
            r.device == device,
    {
        DataBlocksManager { device }
    }

    /// The byte offset of logical data block `logical_block_number`.
    pub fn data_block_offset(logical_block_number: u64) -> (r: u64)
        requires
            logical_block_number <= max_data_block(),
        ensures
            r == data_block_offset(logical_block_number as int),
    {
        let physical = DATA_BLOCKS_LOCATION + logical_block_number;
        assert(physical * 4096 <= 0xffff_ffff_ffff_ffff) by (nonlinear_arith)
            requires
                physical <= 0xffff_ffff_ffff_ffffint / 4096,
        ;
        physical * (BLOCK_SIZE as u64)
    }

    /// Reads logical data block `logical_block_number` into `buffer`, which must hold exactly
    /// one block.
    pub fn read_data_block(&mut self, logical_block_number: u64, buffer: &mut [u8]) -> (r: Result<usize, SahneError>)
        requires
            logical_block_number <= max_data_block(),
        ensures
            old(buffer)@.len() != BLOCK_SIZE ==> (r == Err::<usize, SahneError>(SahneError::InvalidParameter)
                && final(buffer)@ == old(buffer)@ && final(self).device == old(self).device),
            old(buffer)@.len() == BLOCK_SIZE ==> old(self).device.reads(
                data_block_offset(logical_block_number as int) as u64,
                old(buffer)@,
                final(buffer)@,
                r,
            ),
            final(buffer)@.len() == old(buffer)@.len(),
            r matches Ok(n) ==> n <= old(buffer)@.len(),
    {
        if buffer.len() != BLOCK_SIZE as usize {
            return Err(SahneError::InvalidParameter);
        }
        let offset = Self::data_block_offset(logical_block_number);
        self.device.read(offset, buffer)
    }

    /// Writes `buffer`, which must hold exactly one block, to logical data block
    /// `logical_block_number`.
    pub fn write_data_block(&mut self, logical_block_number: u64, buffer: &[u8]) -> (r: Result<usize, SahneError>)
        requires
            logical_block_number <= max_data_block(),
        ensures
            buffer@.len() != BLOCK_SIZE ==> (r == Err::<usize, SahneError>(SahneError::InvalidParameter)
                && final(self).device == old(self).device),
            buffer@.len() == BLOCK_SIZE ==> old(self).device.writes(
                data_block_offset(logical_block_number as int) as u64,
                buffer@,
                &final(self).device,
                r,
            ),
            r matches Ok(n) ==> n <= buffer@.len(),
    {
        if buffer.len() != BLOCK_SIZE as usize {
            return Err(SahneError::InvalidParameter);
        }
        let offset = Self::data_block_offset(logical_block_number);
        self.device.write(offset, buffer)
    }
}

/// Data blocks lie after the blocks reserved in front of them, and distinct data blocks
/// occupy disjoint byte ranges of one block each.
pub proof fn lemma_data_blocks_disjoint(n: int, m: int)
    requires
        0 <= n < m,
    ensures
        data_block_offset(0) == DATA_BLOCKS_LOCATION * BLOCK_SIZE,
        data_block_offset(n) >= DATA_BLOCKS_LOCATION * BLOCK_SIZE,
        data_block_offset(n) + BLOCK_SIZE <= data_block_offset(m),
{
}

} // verus!
