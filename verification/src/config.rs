//! The layout of the file system on its device.
use vstd::prelude::*;

verus! {

/// The device the file system lives on.
pub const DEVICE_PATH: &'static str = "sahne://devices/disk0";

/// The size of a block, in bytes.
pub const BLOCK_SIZE: u32 = 4096;

/// The number of blocks of the device.
pub const TOTAL_BLOCKS: u64 = 1048576;

/// The block of the superblock.
pub const SUPERBLOCK_LOCATION: u64 = 0;

/// The first block of the inode table.
pub const INODE_TABLE_LOCATION: u64 = 1;

/// The first block of the data blocks.
pub const DATA_BLOCKS_LOCATION: u64 = 1024;

/// The number of inodes.
pub const INODES_COUNT: u32 = 1024;

/// The inode of the root directory.
pub const ROOT_INODE: u32 = 0;

/// The first block of the free-space map.
pub const FREE_SPACE_MAP_LOCATION: u64 = 2;

/// How much the file system logs.
#[derive(Debug, Clone, Copy, PartialEq, Eq, Structural)]
pub enum LogLevel {
    Error,
    Warning,
    Info,
    Debug,
}

/// The log level the file system runs with.
pub const LOG_LEVEL: LogLevel = LogLevel::Debug;

} // verus!
