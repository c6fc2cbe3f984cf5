use sahne_fs::accdb::AccdbFile;
use sahne_fs::blockdevice::SeekFrom;
use sahne_fs::error::{IoErrorKind, SahneError};

#[test]
fn test_accdbfile_read() {
    let data = vec![1, 2, 3, 4, 5, 6, 7, 8, 9, 10];
    let mut file = AccdbFile::new(data.clone());

    let mut buf = [0u8; 5];
    let bytes_read = file.read(&mut buf).unwrap();
    assert_eq!(bytes_read, 5);
    assert_eq!(&buf, &[1, 2, 3, 4, 5]);
    assert_eq!(file.stream_position(), 5);

    let mut buf2 = [0u8; 10];
    let bytes_read2 = file.read(&mut buf2).unwrap();
    assert_eq!(bytes_read2, 5);
    assert_eq!(&buf2[..5], &[6, 7, 8, 9, 10]);
    assert_eq!(file.stream_position(), 10);

    let mut buf3 = [0u8; 5];
    let bytes_read3 = file.read(&mut buf3).unwrap();
    assert_eq!(bytes_read3, 0);
    assert_eq!(file.stream_position(), 10);
}

#[test]
fn test_accdbfile_read_at() {
    let data = vec![10, 20, 30, 40, 50, 60, 70, 80, 90, 100];
    let file = AccdbFile::new(data.clone());

    let slice1 = file.read_at(3, 4).unwrap();
    assert_eq!(slice1, &[40, 50, 60, 70]);

    let slice2 = file.read_at(0, 5).unwrap();
    assert_eq!(slice2, &[10, 20, 30, 40, 50]);

    let slice3 = file.read_at(8, 5).unwrap();
    assert_eq!(slice3, &[90, 100]);

    let slice4 = file.read_at(10, 5);
    assert!(slice4.is_none());

    let slice5 = file.read_at(15, 5);
    assert!(slice5.is_none());
}

#[test]
fn test_accdbfile_write_at() {
    let data = vec![0u8; 10];
    let mut file = AccdbFile::new(data.clone());

    let write_data1 = &[1, 2, 3];
    file.write_at(2, write_data1).unwrap();
    assert_eq!(file.as_bytes(), &[0, 0, 1, 2, 3, 0, 0, 0, 0, 0]);

    let write_data2 = &[99, 98];
    file.write_at(8, write_data2).unwrap();
    assert_eq!(file.as_bytes(), &[0, 0, 1, 2, 3, 0, 0, 0, 99, 98]);

    let write_data3 = &[10, 20, 30];
    let write_result3 = file.write_at(8, write_data3);
    assert!(write_result3.is_err());
    assert_eq!(write_result3.unwrap_err(), SahneError::InvalidParameter);

    let write_data4 = &[100];
    let write_result4 = file.write_at(10, write_data4);
    assert!(write_result4.is_err());
    assert_eq!(write_result4.unwrap_err(), SahneError::InvalidParameter);

    let write_data5 = &[100];
    let write_result5 = file.write_at(15, write_data5);
    assert!(write_result5.is_err());
    assert_eq!(write_result5.unwrap_err(), SahneError::InvalidParameter);
}

#[test]
fn test_accdbfile_seek() {
    let data = vec![1, 2, 3, 4, 5, 6, 7, 8, 9, 10];
    let mut file = AccdbFile::new(data.clone());

    let pos1 = file.seek(SeekFrom::Start(5)).unwrap();
    assert_eq!(pos1, 5);
    assert_eq!(file.stream_position(), 5);

    let mut buf1 = [0u8; 3];
    file.read(&mut buf1).unwrap();
    assert_eq!(&buf1, &[6, 7, 8]);
    assert_eq!(file.stream_position(), 8);

    let pos2 = file.seek(SeekFrom::Current(-2)).unwrap();
    assert_eq!(pos2, 6);
    assert_eq!(file.stream_position(), 6);

    let mut buf2 = [0u8; 3];
    file.read(&mut buf2).unwrap();
    assert_eq!(&buf2, &[7, 8, 9]);
    assert_eq!(file.stream_position(), 9);

    let pos3 = file.seek(SeekFrom::End(-1)).unwrap();
    assert_eq!(pos3, 9);
    assert_eq!(file.stream_position(), 9);

    let mut buf3 = [0u8; 5];
    let bytes_read3 = file.read(&mut buf3).unwrap();
    assert_eq!(bytes_read3, 1);
    assert_eq!(&buf3[..1], &[10]);
    assert_eq!(file.stream_position(), 10);

    let pos4 = file.seek(SeekFrom::End(0)).unwrap();
    assert_eq!(pos4, 10);
    assert_eq!(file.stream_position(), 10);

    let pos5 = file.seek(SeekFrom::Start(15));
    assert!(pos5.is_ok());
    assert_eq!(pos5.unwrap(), 15);
    assert_eq!(file.stream_position(), 15);
    let mut buf4 = [0u8; 5];
    let bytes_read4 = file.read(&mut buf4).unwrap();
    assert_eq!(bytes_read4, 0);
}

#[test]
fn accdb_seek_below_zero_is_refused_and_keeps_position() {
    let mut file = AccdbFile::new(vec![1, 2, 3]);
    file.seek(SeekFrom::Start(2)).unwrap();
    assert_eq!(file.seek(SeekFrom::Current(-3)), Err(IoErrorKind::InvalidInput));
    assert_eq!(file.seek(SeekFrom::End(-4)), Err(IoErrorKind::InvalidInput));
    assert_eq!(file.seek(SeekFrom::Start(u64::MAX)), Err(IoErrorKind::InvalidInput));
    assert_eq!(file.stream_position(), 2);
    assert_eq!(file.len(), 3);
    assert!(!file.is_empty());
    assert!(AccdbFile::new(Vec::new()).is_empty());
}

#[test]
fn accdb_write_then_read_at_gives_data_back() {
    let mut file = AccdbFile::new(vec![0u8; 8]);
    file.write_at(3, &[7, 8, 9]).unwrap();
    assert_eq!(file.read_at(3, 3).unwrap(), &[7, 8, 9]);
    file.as_bytes_mut()[0] = 5;
    assert_eq!(file.as_bytes()[0], 5);
}
