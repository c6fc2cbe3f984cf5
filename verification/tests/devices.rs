use sahne_fs::blockdevice::{BlockDevice, MemBlockDevice, ResourceBlockDevice, SeekFrom};
use sahne_fs::cursor::ByteCursor;
use sahne_fs::devices::{BlockDevice as HandleBlockDevice, DataBlocksManager, Device, DeviceHandle};
use sahne_fs::emmc::{SeekCommand, EMMC};
use sahne_fs::error::{
    map_kernel_error, map_raw_result_to_c_error, map_sahne_error_to_c, sahne_error_t, IoErrorKind,
    SahneError,
};
use sahne_fs::resource::{Handle, SahneResourceReader};

#[test]
fn test_error_codes() {
    assert_eq!(map_sahne_error_to_c(SahneError::OutOfMemory), sahne_error_t::SAHNE_ERROR_OUT_OF_MEMORY);
    assert_eq!(map_sahne_error_to_c(SahneError::InodeNotFound(7)), sahne_error_t::SAHNE_ERROR_INODE_NOT_FOUND);
    assert_eq!(sahne_error_t::SAHNE_ERROR_INODE_NOT_FOUND.code(), 51);
    assert_eq!(sahne_error_t::SAHNE_ERROR_OTHER.code(), 255);
    assert_eq!(sahne_error_t::SAHNE_SUCCESS.code(), 0);
    assert_eq!(map_kernel_error(-2), SahneError::ResourceNotFound);
    assert_eq!(map_kernel_error(-13), SahneError::PermissionDenied);
    assert_eq!(map_kernel_error(-61), SahneError::NoMessage);
    assert_eq!(map_kernel_error(-999), SahneError::UnknownSystemCall);
    assert_eq!(map_raw_result_to_c_error(42), sahne_error_t::SAHNE_SUCCESS);
    assert_eq!(map_raw_result_to_c_error(0), sahne_error_t::SAHNE_SUCCESS);
    assert_eq!(map_raw_result_to_c_error(-22), sahne_error_t::SAHNE_ERROR_INVALID_PARAMETER);
    assert_ne!(map_raw_result_to_c_error(-1).code(), 0);
}

#[test]
fn test_mem_block_device_write_then_read() {
    let mut dev = MemBlockDevice::new(1024, 512);
    assert_eq!(dev.block_size(), 512);
    assert_eq!(dev.size(), Ok(1024));
    let data = [0xAAu8; 16];
    assert_eq!(dev.write(100, &data), Ok(16));
    let mut buf = [0u8; 16];
    assert_eq!(dev.read(100, &mut buf), Ok(16));
    assert_eq!(buf, data);
    let mut tail = [7u8; 8];
    assert_eq!(dev.read(1020, &mut tail), Ok(4));
    assert_eq!(tail, [0, 0, 0, 0, 7, 7, 7, 7]);
    assert_eq!(dev.write(2000, &data), Ok(0));
}

#[test]
fn test_mem_block_device_seek() {
    let mut dev = MemBlockDevice::new(1024, 512);
    assert_eq!(dev.seek(SeekFrom::Start(0)), Ok(0));
    assert_eq!(dev.seek(SeekFrom::Start(2048)), Err(SahneError::InvalidAddress));
    assert_eq!(dev.seek(SeekFrom::End(-512)), Ok(512));
    assert_eq!(dev.seek(SeekFrom::Current(24)), Ok(24));
}

#[test]
fn test_resource_block_device() {
    let mut dev = ResourceBlockDevice::from_handle(Handle(3), 4096);
    assert_eq!(dev.block_size(), 4096);
    assert_eq!(dev.size(), Err(SahneError::NotSupported));
    assert_eq!(dev.seek(SeekFrom::Start(0)), Err(SahneError::NotSupported));
}

#[test]
fn test_handle_block_device() {
    let d = HandleBlockDevice::new(DeviceHandle::Resource(Handle(1)), 512, 100);
    assert_eq!(d.transfer_offset(3, 512), Ok(1536));
    assert_eq!(d.transfer_offset(3, 100), Err(SahneError::InvalidOperation));
    assert_eq!(HandleBlockDevice::transfer_outcome(512, Ok(512)), Ok(512));
    assert_eq!(HandleBlockDevice::transfer_outcome(512, Ok(10)), Err(SahneError::CommunicationError));
    assert_eq!(HandleBlockDevice::transfer_outcome(512, Err(SahneError::Io)), Err(SahneError::Io));
}

#[test]
fn test_device_blocks() {
    let d = Device::from_handle(Handle(2), 512, 2048);
    assert_eq!(d.block_size(), 512);
    assert_eq!(d.size(), 2048);
    assert_eq!(d.block_start(3), Ok(1536));
    assert_eq!(d.block_start(4), Err(SahneError::InvalidParameter));
    assert_eq!(d.check_buffer(512), Ok(()));
    assert_eq!(d.check_buffer(511), Err(SahneError::InvalidParameter));
}

#[test]
fn test_data_blocks_manager() {
    assert_eq!(DataBlocksManager::<MemBlockDevice>::data_block_offset(0), 1024 * 4096);
    assert_eq!(DataBlocksManager::<MemBlockDevice>::data_block_offset(2), 1026 * 4096);
    let dev = MemBlockDevice::new(1026 * 4096, 4096);
    let mut m = DataBlocksManager::new(dev);
    let block = vec![0x5Au8; 4096];
    assert_eq!(m.write_data_block(1, &block), Ok(4096));
    let mut back = vec![0u8; 4096];
    assert_eq!(m.read_data_block(1, &mut back), Ok(4096));
    assert_eq!(back, block);
    let mut small = vec![0u8; 10];
    assert_eq!(m.read_data_block(0, &mut small), Err(SahneError::InvalidParameter));
    assert_eq!(m.write_data_block(0, &small), Err(SahneError::InvalidParameter));
}

#[test]
fn test_emmc_geometry_and_seek() {
    let e = EMMC::from_handle(Handle(5), 512, 1024);
    assert_eq!(EMMC::desired_size(512, 1024), 512 * 1024);
    assert_eq!(e.size(), Ok(512 * 1024));
    assert_eq!(e.block_size(), 512);
    assert_eq!(e.block_count(), 1024);
    assert_eq!(EMMC::seek_request(SeekFrom::Start(1024)), (SeekCommand::FromStart, 1024));
    assert_eq!(EMMC::seek_request(SeekFrom::End(-512)), (SeekCommand::FromEnd, (-512i64) as u64));
    assert_eq!(EMMC::seek_request(SeekFrom::Current(512)), (SeekCommand::FromCurrent, 512));
    assert_eq!(EMMC::seek_outcome(Ok(1536)), Ok(1536));
    assert_eq!(EMMC::seek_outcome(Ok(-1)), Err(SahneError::CommunicationError));
    assert_eq!(EMMC::seek_outcome(Err(SahneError::Io)), Err(SahneError::Io));
}

#[test]
fn test_resource_reader() {
    let mut r = SahneResourceReader::new(Handle(9), 100);
    assert_eq!(r.read_span(30), (0, 30));
    r.advance(30);
    assert_eq!(r.read_span(500), (30, 70));
    assert_eq!(r.stream_position(), Ok(30));
    assert_eq!(r.seek(SeekFrom::End(-10)), Ok(90));
    assert_eq!(r.seek(SeekFrom::Current(20)), Ok(110));
    assert_eq!(r.read_span(5), (110, 0));
    assert_eq!(r.seek(SeekFrom::Current(-200)), Err(IoErrorKind::InvalidInput));
    assert_eq!(r.stream_position(), Ok(110));
    assert_eq!(r.seek(SeekFrom::Start(5)), Ok(5));
}

#[test]
fn test_byte_cursor() {
    let mut c = ByteCursor::new(vec![1, 2, 3]);
    assert_eq!(c.stream_position(), Ok(0));
    c.set_position(2);
    assert_eq!(c.stream_position(), Ok(2));
    assert_eq!(c.get_ref(), &vec![1, 2, 3]);
}
