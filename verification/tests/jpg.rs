use sahne_fs::cursor::ByteCursor;
use sahne_fs::error::FileSystemError;
use sahne_fs::jpg::{parse_jpeg_file, JpegError, JpegParser};

fn create_dummy_jpeg_bytes(segments_data: &[(u8, Option<Vec<u8>>)]) -> Vec<u8> {
    let mut buffer: Vec<u8> = Vec::new();
    buffer.extend_from_slice(&[0xFF, 0xD8]);
    for (marker_byte, data_option) in segments_data {
        buffer.extend_from_slice(&[0xFF, *marker_byte]);
        if *marker_byte != 0xD9 && (*marker_byte < 0xD0 || *marker_byte > 0xD7) {
            let data = data_option.as_ref().expect("segment requires data");
            let segment_length = (2 + data.len()) as u16;
            buffer.extend_from_slice(&segment_length.to_be_bytes());
            buffer.extend_from_slice(data);
        }
    }
    if !segments_data.iter().any(|(m, _)| *m == 0xD9) {
        buffer.extend_from_slice(&[0xFF, 0xD9]);
    }
    buffer
}

fn parser_over(bytes: Vec<u8>) -> JpegParser {
    let file_size = bytes.len() as u64;
    JpegParser::from_reader(ByteCursor::new(bytes), None, file_size)
}

fn io_message(e: FileSystemError) -> String {
    match e {
        FileSystemError::IOError(msg) => msg,
        other => panic!("Beklenenden farklı hata türü: {:?}", other),
    }
}

fn data_message(e: FileSystemError) -> String {
    match e {
        FileSystemError::InvalidData(msg) => msg,
        other => panic!("Beklenenden farklı hata türü: {:?}", other),
    }
}

#[test]
fn test_parse_jpeg_minimal_valid() {
    let sof0_data: Vec<u8> = vec![
        0x08, 0x00, 0xA0, 0x00, 0xC8, 0x03, 0x01, 0x22, 0x00, 0x02, 0x11, 0x01, 0x03, 0x11, 0x01,
    ];
    let segments = vec![(0xC0, Some(sof0_data.clone())), (0xD9, None)];
    let dummy_jpeg_bytes = create_dummy_jpeg_bytes(&segments);

    let mut parser = parser_over(dummy_jpeg_bytes.clone());
    let image = parser.parse_header().unwrap();

    assert_eq!(image.width, 200);
    assert_eq!(image.height, 160);
    assert_eq!(parser.reader.stream_position().unwrap(), (2 + 2 + 2 + sof0_data.len()) as u64);
}

#[test]
fn test_parse_jpeg_invalid_soi() {
    let mut parser = parser_over(vec![0xFF, 0x00, 0xFF, 0xD8]);
    let result = parser.parse_header();
    assert!(result.is_err());
    let msg = data_message(result.unwrap_err());
    assert!(msg.contains("Geçersiz SOI marker"));
    assert!(msg.contains("ff00"));
}

#[test]
fn test_parse_jpeg_truncated_soi() {
    let mut parser = parser_over(vec![0xFF]);
    let result = parser.parse_header();
    assert!(result.is_err());
    let msg = io_message(result.unwrap_err());
    assert!(msg.contains("Beklenmeden erken dosya sonu") || msg.contains("UnexpectedEof") || msg.contains("end of file"));
}

#[test]
fn test_parse_jpeg_truncated_marker() {
    let mut parser = parser_over(vec![0xFF, 0xD8, 0xFF]);
    let result = parser.parse_header();
    assert!(result.is_err());
    let msg = io_message(result.unwrap_err());
    assert!(msg.contains("Beklenmeden erken dosya sonu") || msg.contains("UnexpectedEof") || msg.contains("end of file"));
}

#[test]
fn test_parse_jpeg_invalid_marker_byte0() {
    let mut parser = parser_over(vec![0xFF, 0xD8, 0x00, 0xE0]);
    let result = parser.parse_header();
    assert!(result.is_err());
    let msg = data_message(result.unwrap_err());
    assert!(msg.contains("Geçersiz JPEG marker"));
    assert!(msg.contains("00e0"));
}

#[test]
fn test_parse_jpeg_truncated_segment_length() {
    let mut parser = parser_over(vec![0xFF, 0xD8, 0xFF, 0xE0, 0x00]);
    let result = parser.parse_header();
    assert!(result.is_err());
    let msg = io_message(result.unwrap_err());
    assert!(msg.contains("Beklenmeden erken dosya sonu") || msg.contains("UnexpectedEof") || msg.contains("end of file"));
}

#[test]
fn test_parse_jpeg_truncated_segment_data() {
    let mut bytes: Vec<u8> = Vec::new();
    bytes.extend_from_slice(&[0xFF, 0xD8, 0xFF, 0xE0]);
    bytes.extend_from_slice(&10u16.to_be_bytes());
    bytes.extend_from_slice(&[1, 2, 3, 4, 5]);
    let mut parser = parser_over(bytes);
    let result = parser.parse_header();
    assert!(result.is_err());
    let msg = io_message(result.unwrap_err());
    assert!(msg.contains("Beklenmeden erken dosya sonu") || msg.contains("UnexpectedEof") || msg.contains("end of file"));
}

#[test]
fn test_parse_jpeg_missing_sof0() {
    let app0_data = vec![0u8; 10];
    let segments = vec![(0xE0, Some(app0_data)), (0xD9, None)];
    let dummy_jpeg_bytes = create_dummy_jpeg_bytes(&segments);
    let mut parser = parser_over(dummy_jpeg_bytes);
    let result = parser.parse_header();
    assert!(result.is_err());
    let msg = data_message(result.unwrap_err());
    assert!(msg.contains("SOF0 markerı EOI'dan önce bulunamadı"));
}

#[test]
fn test_parse_jpeg_with_other_segments() {
    let app0_data = vec![0u8; 10];
    let dqt_data = vec![0u8; 10];
    let sof0_data: Vec<u8> = vec![
        0x08, 0x00, 0xA0, 0x00, 0xC8, 0x03, 0x01, 0x22, 0x00, 0x02, 0x11, 0x01, 0x03, 0x11, 0x01,
    ];
    let segments = vec![(0xE0, Some(app0_data)), (0xDB, Some(dqt_data)), (0xC0, Some(sof0_data.clone())), (0xD9, None)];
    let mut parser = parser_over(create_dummy_jpeg_bytes(&segments));
    let image = parser.parse_header().unwrap();
    assert_eq!(image.width, 200);
    assert_eq!(image.height, 160);
    // The reader ends past the SOF0 segment: SOI (2) + APP0 (2 + 2 + 10) + DQT (2 + 2 + 10)
    // + SOF0 marker (2) + SOF0 length (2) + SOF0 data (15) = 49.
    assert_eq!(parser.reader.stream_position().unwrap(), (2 + 14 + 14 + 2 + 2 + 15) as u64);
}

#[test]
fn jpeg_short_soi_and_length_pass_the_reader_error() {
    let reader_error = "CoreIOError: Error { kind: UnexpectedEof, message: \"failed to fill whole buffer\" }";
    let mut cursor = std::io::Cursor::new(vec![0xFFu8]);
    let mut buf = [0u8; 2];
    let e = std::io::Read::read_exact(&mut cursor, &mut buf).unwrap_err();
    assert_eq!(format!("CoreIOError: {:?}", e), reader_error);
    assert_eq!(parse_jpeg_file(vec![0xFF]).unwrap_err(), FileSystemError::IOError(reader_error.to_string()));
    assert_eq!(
        parse_jpeg_file(vec![0xFF, 0xD8, 0xFF, 0xE0, 0x00]).unwrap_err(),
        FileSystemError::IOError(reader_error.to_string())
    );
    assert_eq!(
        parse_jpeg_file(vec![0xFF, 0xD8, 0xFF]).unwrap_err(),
        FileSystemError::IOError("JPEG IO hatası: Beklenmeden erken dosya sonu (segment marker okurken)".to_string())
    );
}

#[test]
fn jpeg_error_texts() {
    assert_eq!(JpegError::InvalidSegmentLength(1, "SOF0".to_string()).message(), "Geçersiz SOF0 segment uzunluğu: 1");
    assert_eq!(JpegError::SeekError(42).message(), "Seek hatası pozisyon: 42");
    let zero_width = create_dummy_jpeg_bytes(&[(0xC0, Some(vec![0x08, 0x00, 0x10, 0x00, 0x00, 0x01]))]);
    assert_eq!(
        parse_jpeg_file(zero_width).unwrap_err(),
        FileSystemError::InvalidData("JPEG ayrıştırma hatası: Resim boyutları ayrıştırılamadı (0 veya geçersiz)".to_string())
    );
}

#[test]
fn jpeg_reader_position_after_a_failed_parse() {
    let mut bad_soi = parser_over(vec![0xFF, 0x00, 0xFF, 0xD8]);
    assert!(bad_soi.parse_header().is_err());
    assert_eq!(bad_soi.reader.stream_position().unwrap(), 2);
    let mut short = parser_over(vec![0xFF]);
    assert!(short.parse_header().is_err());
    assert_eq!(short.reader.stream_position().unwrap(), 1);
    let mut eoi = parser_over(vec![0xFF, 0xD8, 0xFF, 0xD9, 0x00, 0x00]);
    assert!(eoi.parse_header().is_err());
    assert_eq!(eoi.reader.stream_position().unwrap(), 4);
    let mut bad_len = parser_over(vec![0xFF, 0xD8, 0xFF, 0xE0, 0x00, 0x01, 0x00]);
    assert!(bad_len.parse_header().is_err());
    assert_eq!(bad_len.reader.stream_position().unwrap(), 6);
}
