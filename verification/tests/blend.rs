use sahne_fs::blend::{read_from_bytes, BlendFile, BlendHeader};
use sahne_fs::error::FileSystemError;

fn create_test_blend_file(version: u32, data_offset: u32, data_content: &[u8]) -> Vec<u8> {
    let mut buffer = Vec::new();
    buffer.extend_from_slice(b"BLEN");
    buffer.extend_from_slice(&version.to_le_bytes());
    buffer.extend_from_slice(&data_offset.to_le_bytes());
    let header_size = 12u32;
    if data_offset > header_size {
        let padding_size = (data_offset - header_size) as usize;
        buffer.extend(vec![0u8; padding_size]);
    }
    buffer.extend_from_slice(data_content);
    buffer
}

#[test]
fn test_read_from_file_basic() {
    let version = 1;
    let data_offset = 12;
    let data_content = b"Test data.";
    let blend_data = create_test_blend_file(version, data_offset, data_content);

    let loaded_blend_file = read_from_bytes(&blend_data).unwrap();

    assert_eq!(loaded_blend_file.header.magic, *b"BLEN");
    assert_eq!(loaded_blend_file.header.version, version);
    assert_eq!(loaded_blend_file.header.data_offset, data_offset);
    assert_eq!(loaded_blend_file.data, data_content);
}

#[test]
fn test_read_from_file_with_padding() {
    let version = 2;
    let data_offset = 30;
    let data_content = b"Padded data test.";
    let blend_data = create_test_blend_file(version, data_offset, data_content);

    let loaded_blend_file = read_from_bytes(&blend_data).unwrap();

    assert_eq!(loaded_blend_file.header.magic, *b"BLEN");
    assert_eq!(loaded_blend_file.header.version, version);
    assert_eq!(loaded_blend_file.header.data_offset, data_offset);
    assert_eq!(loaded_blend_file.data, data_content);
}

#[test]
fn test_write_to_file_basic() {
    let version = 3;
    let data_offset = 12;
    let data_content = b"Write test data.";
    let blend_file = BlendFile {
        header: BlendHeader { magic: *b"BLEN", version, data_offset },
        data: data_content.to_vec(),
    };

    let written_data = blend_file.write_to_bytes().unwrap();

    let mut expected_data = vec![];
    expected_data.extend_from_slice(b"BLEN");
    expected_data.extend_from_slice(&version.to_le_bytes());
    expected_data.extend_from_slice(&data_offset.to_le_bytes());
    expected_data.extend_from_slice(data_content);

    assert_eq!(written_data, expected_data);
}

#[test]
fn test_write_to_file_with_padding() {
    let version = 4;
    let data_offset = 20;
    let data_content = b"Padded write test data.";
    let blend_file = BlendFile {
        header: BlendHeader { magic: *b"BLEN", version, data_offset },
        data: data_content.to_vec(),
    };

    let written_data = blend_file.write_to_bytes().unwrap();

    let mut expected_data = vec![];
    expected_data.extend_from_slice(b"BLEN");
    expected_data.extend_from_slice(&version.to_le_bytes());
    expected_data.extend_from_slice(&data_offset.to_le_bytes());
    expected_data.extend(vec![0u8; (data_offset - 12) as usize]);
    expected_data.extend_from_slice(data_content);

    assert_eq!(written_data, expected_data);
}

#[test]
fn blend_errors() {
    let short = read_from_bytes(&[1, 2, 3]);
    assert_eq!(short.unwrap_err(), FileSystemError::IOError("IO Error: failed to fill whole buffer".to_string()));
    let mut bad = create_test_blend_file(1, 12, b"x");
    bad[0] = b'X';
    assert_eq!(
        read_from_bytes(&bad).unwrap_err(),
        FileSystemError::InvalidData("Geçersiz sihirli sayı: [88, 76, 69, 78]".to_string())
    );
    let past_end = read_from_bytes(&create_test_blend_file(1, 200, b"")).unwrap();
    assert!(past_end.data.is_empty());
    let inside_header = BlendFile { header: BlendHeader { magic: *b"BLEN", version: 1, data_offset: 8 }, data: vec![] };
    assert_eq!(
        inside_header.write_to_bytes().unwrap_err(),
        FileSystemError::InvalidData("BlendHeader data_offset header boyutundan (12) küçük.".to_string())
    );
}

#[test]
fn blend_write_then_read_round_trips() {
    let file = BlendFile { header: BlendHeader { magic: *b"BLEN", version: 77, data_offset: 16 }, data: vec![9, 8, 7] };
    let back = read_from_bytes(&file.write_to_bytes().unwrap()).unwrap();
    assert_eq!(back.header, file.header);
    assert_eq!(back.data, file.data);
}
