use sahne_fs::alac::{check_ftyp_atom, find_moov_atom, read_alac_metadata_from_bytes};
use sahne_fs::error::{FileSystemError, IoErrorKind};

const FTYP_ATOM_M4A: &[u8] = &[
    0x00, 0x00, 0x00, 0x10, b'f', b't', b'y', b'p', b'M', b'4', b'A', b' ', 0x00, 0x00, 0x00, 0x00,
];

const SIMPLE_ALAC_FILE_SIM: &[u8] = &[
    0x00, 0x00, 0x00, 0x18, b'f', b't', b'y', b'p', b'M', b'4', b'A', b' ', 0x00, 0x00, 0x00, 0x00,
    b'i', b's', b'o', b'm', b'm', b'p', b'4', b'2', 0x00, 0x00, 0x00, 0x08, b'm', b'o', b'o', b'v',
];

#[test]
fn test_check_ftyp_atom_valid() {
    let result = check_ftyp_atom(FTYP_ATOM_M4A);
    assert!(result.is_ok());
}

#[test]
fn test_check_ftyp_atom_invalid_type() {
    let ftyp_header_invalid = [
        0x00, 0x00, 0x00, 0x10, b'x', b'x', b'x', b'x', b'M', b'4', b'A', b' ', 0x00, 0x00, 0x00, 0x00,
    ];
    let result = check_ftyp_atom(&ftyp_header_invalid);
    assert!(result.is_err());
    assert_eq!(result.unwrap_err().kind(), IoErrorKind::InvalidData);
}

#[test]
fn test_check_ftyp_atom_too_short() {
    let short_header = [0u8; 7];
    let result = check_ftyp_atom(&short_header);
    assert!(result.is_err());
    assert_eq!(result.unwrap_err().kind(), IoErrorKind::UnexpectedEof);
}

#[test]
fn test_find_moov_atom_found() {
    let result = find_moov_atom(SIMPLE_ALAC_FILE_SIM);
    assert!(result.is_ok());
    assert_eq!(result.unwrap(), 24);
}

#[test]
fn test_find_moov_atom_not_found() {
    let data_without_moov = &[0x00, 0x00, 0x00, 0x10, b'o', b't', b'h', b'r', 0x01, 0x02, 0x03, 0x04];
    let result = find_moov_atom(data_without_moov);
    assert!(result.is_err());
    assert_eq!(result.unwrap_err().kind(), IoErrorKind::NotFound);
}

#[test]
fn alac_metadata_without_alac_track_is_not_found() {
    let result = read_alac_metadata_from_bytes(SIMPLE_ALAC_FILE_SIM);
    assert_eq!(result.unwrap_err(), FileSystemError::Other("ALAC meta verileri bulunamadı".to_string()));
    let short = read_alac_metadata_from_bytes(&[0u8; 3]);
    assert_eq!(short.unwrap_err(), FileSystemError::IOError("IO Error: failed to fill whole buffer".to_string()));
}

#[test]
fn alac_errors_carry_their_messages() {
    let no_moov = &[0x00, 0x00, 0x00, 0x10, b'o', b't', b'h', b'r', 0x01, 0x02, 0x03, 0x04];
    assert_eq!(find_moov_atom(no_moov).unwrap_err().message, "moov atomu bulunamadı (dosya sonu)");
    let bad_type = [0x00, 0x00, 0x00, 0x10, b'x', b'x', b'x', b'x', b'M', b'4', b'A', b' '];
    assert_eq!(check_ftyp_atom(&bad_type).unwrap_err().message, "Geçersiz MP4 dosyası: ftyp atomu bulunamadı");
    let bad_brand = [0x00, 0x00, 0x00, 0x10, b'f', b't', b'y', b'p', b'a', b'b', b'c', b'd'];
    assert_eq!(
        check_ftyp_atom(&bad_brand).unwrap_err().message,
        format!("Beklenmeyen major brand: {:?}", std::str::from_utf8(b"abcd"))
    );
    let invalid_brand = [0x00, 0x00, 0x00, 0x10, b'f', b't', b'y', b'p', b'a', 0xff, b'c', b'd'];
    assert_eq!(
        check_ftyp_atom(&invalid_brand).unwrap_err().message,
        format!("Beklenmeyen major brand: {:?}", std::str::from_utf8(&[b'a', 0xff, b'c', b'd']))
    );
    let cut_brand = [0x00, 0x00, 0x00, 0x10, b'f', b't', b'y', b'p', b'a', b'b', 0xe2, 0x82];
    assert_eq!(
        check_ftyp_atom(&cut_brand).unwrap_err().message,
        format!("Beklenmeyen major brand: {:?}", std::str::from_utf8(&[b'a', b'b', 0xe2, 0x82]))
    );
    let mut file = FTYP_ATOM_M4A.to_vec();
    file.extend_from_slice(&[0x00, 0x00, 0x00, 0x20, b'm', b'o', b'o', b'v']);
    file.extend_from_slice(&[0x00, 0x00, 0x00, 0x10, b't', b'r', b'a', b'k']);
    file.extend_from_slice(&[0x00, 0x00, 0x00, 0x00, b'x', b'x', b'x', b'x']);
    assert_eq!(
        read_alac_metadata_from_bytes(&file).unwrap_err(),
        FileSystemError::IOError("IO Error: Geçersiz atom boyutu veya taşma (current: 32, size: 0)".to_string())
    );
}
