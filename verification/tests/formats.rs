use sahne_fs::aac::{decode_samples, map_decode_error_to_fs_error, Decoder, DecodeError, Frame};
use sahne_fs::cangjie::FileCangjie;
use sahne_fs::cfile::{CFile, CHeader};
use sahne_fs::cppfile::{read_cpp_file, read_header, read_metadata, Header};
use sahne_fs::crystal::CrystalFile;
use sahne_fs::dfile::DHeader;
use sahne_fs::elf::ElfFile;
use sahne_fs::error::{FileSystemError, IoErrorKind};
use sahne_fs::matlab::{read_mat_bytes, write_mat_bytes, MatVariable};

fn f64_bits(v: &[f64]) -> Vec<u64> {
    v.iter().map(|x| x.to_bits()).collect()
}

#[test]
fn test_read_write_crystal_file() {
    let data: Vec<u32> = vec![1, 2, 3, 4, 5];
    let mut crystal_file = CrystalFile::new();
    crystal_file.write_crystal_data(&data).unwrap();
    let read_crystal_file = CrystalFile { data: crystal_file.data.clone() };
    let read_data = read_crystal_file.read_crystal_data().unwrap();
    assert_eq!(data, read_data);
}

#[test]
fn test_crystal_bytes_are_little_endian() {
    let mut f = CrystalFile::new();
    f.write_crystal_data(&[0x0403_0201]).unwrap();
    assert_eq!(f.data, vec![1, 2, 3, 4]);
    let odd = CrystalFile { data: vec![1, 2, 3] };
    assert_eq!(odd.read_crystal_data(), Err(IoErrorKind::InvalidData));
}

#[test]
fn test_mat_rw_optimized() {
    let variables = vec![
        MatVariable { name: "var1".to_string(), data: f64_bits(&[1.0, 2.0, 3.0]) },
        MatVariable { name: "var2".to_string(), data: f64_bits(&[4.0, 5.0, 6.0, 7.0]) },
    ];
    let bytes = write_mat_bytes(&variables);
    assert_eq!(bytes.len(), 2 * 72 + 7 * 8);
    let read = read_mat_bytes(&bytes).unwrap();
    assert_eq!(read.len(), 2);
    for i in 0..2 {
        assert_eq!(variables[i].name, read[i].name);
        assert_eq!(variables[i].data, read[i].data);
    }
}

#[test]
fn test_mat_rw_empty_file_optimized() {
    let read = read_mat_bytes(&[]).unwrap();
    assert_eq!(read.len(), 0);
}

#[test]
fn test_mat_rw_truncated_data_optimized() {
    let mut bytes = vec![0u8; 64];
    bytes[..13].copy_from_slice(b"truncated_var");
    bytes.extend_from_slice(&3u64.to_le_bytes());
    match read_mat_bytes(&bytes) {
        Err(e) => assert_eq!(e, IoErrorKind::UnexpectedEof),
        Ok(_) => panic!("expected an unexpected end of data"),
    }
}

#[test]
fn test_aac_decoder_frames() {
    assert_eq!(Decoder::new(&[]).err(), Some(DecodeError::InvalidData));
    let data = [0x01u8, 0x00, 0xff, 0xff, 0x07];
    let mut d = Decoder::new(&data).unwrap();
    match d.decode_frame() {
        Ok(Some(Frame::Short(v))) => assert_eq!(v, vec![1]),
        other => panic!("unexpected {:?}", other),
    }
    match d.decode_frame() {
        Ok(Some(Frame::Short(v))) => assert_eq!(v, vec![-1]),
        other => panic!("unexpected {:?}", other),
    }
    assert!(matches!(d.decode_frame(), Ok(None)));
    assert!(matches!(d.decode_frame(), Ok(None)));
}

#[test]
fn test_aac_decode_samples() {
    assert_eq!(decode_samples(&[0x00, 0x80, 0x34, 0x12]).unwrap(), vec![-32768, 0x1234]);
    assert_eq!(
        decode_samples(&[]),
        Err(FileSystemError::Other("Decoding Error: InvalidData".to_string()))
    );
    assert_eq!(
        map_decode_error_to_fs_error(DecodeError::Other("bad\nframe".to_string())),
        FileSystemError::Other(format!("Decoding Error: {:?}", DecodeError::Other("bad\nframe".to_string())))
    );
}

fn elf_bytes(phnum: u16, phentsize: u16) -> Vec<u8> {
    let mut d = vec![0u8; 64];
    d[..4].copy_from_slice(&[0x7f, b'E', b'L', b'F']);
    d[16..18].copy_from_slice(&2u16.to_le_bytes());
    d[18..20].copy_from_slice(&0x3eu16.to_le_bytes());
    d[24..32].copy_from_slice(&0x401000u64.to_le_bytes());
    d[32..40].copy_from_slice(&64u64.to_le_bytes());
    d[54..56].copy_from_slice(&phentsize.to_le_bytes());
    d[56..58].copy_from_slice(&phnum.to_le_bytes());
    for i in 0..phnum as u32 {
        let mut p = vec![0u8; 56];
        p[..4].copy_from_slice(&(i + 1).to_le_bytes());
        p[8..16].copy_from_slice(&(0x1000u64 * i as u64).to_le_bytes());
        d.extend_from_slice(&p);
    }
    d
}

#[test]
fn test_elf_from_bytes() {
    let d = elf_bytes(2, 56);
    let f = ElfFile::from_bytes(&d).unwrap();
    assert_eq!(f.header.e_type, 2);
    assert_eq!(f.header.e_machine, 0x3e);
    assert_eq!(f.header.e_entry, 0x401000);
    assert_eq!(f.program_headers.len(), 2);
    assert_eq!(f.program_headers[1].p_type, 2);
    assert_eq!(f.program_headers[1].p_offset, 0x1000);
}

#[test]
fn test_elf_errors() {
    assert_eq!(
        ElfFile::read_header(&[0u8; 10]).err(),
        Some(FileSystemError::InvalidData("Beklenen 64 bayt yerine 10 bayt okundu".to_string()))
    );
    let mut bad = elf_bytes(0, 56);
    bad[0] = 0x42;
    bad[1] = 0x58;
    assert_eq!(
        ElfFile::read_header(&bad).err(),
        Some(FileSystemError::InvalidData("Geçersiz ELF sihirli sayısı: [42, 58, 4c, 46]".to_string()))
    );
    let mut cut = elf_bytes(2, 56);
    cut.truncate(64 + 56 + 10);
    assert_eq!(
        ElfFile::from_bytes(&cut).err(),
        Some(FileSystemError::InvalidData(
            "Beklenenden erken dosya sonu: Program başlığı 1 okunurken (Kalan 10 bayt, Gerekli 56)".to_string()
        ))
    );
    let wrong = elf_bytes(1, 32);
    assert_eq!(
        ElfFile::from_bytes(&wrong).err(),
        Some(FileSystemError::InvalidData("Program header entry size mismatch".to_string()))
    );
}

#[test]
fn test_cfile_roundtrip() {
    let f = CFile::new(CHeader { magic_number: 0xCAFEBABE, version: 3, data_size: 4 }, vec![9, 8, 7, 6]);
    let bytes = f.write_to_bytes();
    assert_eq!(bytes.len(), 10 + 4);
    let g = CFile::read_from_bytes(&bytes).unwrap();
    assert_eq!(g.header, f.header);
    assert_eq!(g.data, f.data);
    assert_eq!(CHeader::read_from_bytes(&bytes[..5]).err(), Some(IoErrorKind::UnexpectedEof));
}

#[test]
fn test_cangjie_parse() {
    let mut d = b"CJ01".to_vec();
    d.extend_from_slice(&7u32.to_le_bytes());
    d.extend_from_slice(&2u32.to_le_bytes());
    for id in [10u32, 20u32] {
        d.extend_from_slice(&id.to_le_bytes());
        d.extend_from_slice(&[id as u8; 10]);
    }
    let f = FileCangjie::parse(&d).unwrap();
    assert_eq!(&f.header.magic_number, b"CJ01");
    assert_eq!(f.header.version, 7);
    assert_eq!(f.records.len(), 2);
    assert_eq!(f.records[1].id, 20);
    assert_eq!(f.records[1].data, vec![20u8; 10]);
    d.pop();
    assert_eq!(FileCangjie::parse(&d).err(), Some(IoErrorKind::UnexpectedEof));
    assert_eq!(FileCangjie::read_header(&d[..11]).err(), Some(IoErrorKind::UnexpectedEof));
}

#[test]
fn test_cpp_file() {
    let mut d = 5u32.to_le_bytes().to_vec();
    d.extend_from_slice(&1_700_000_000u64.to_le_bytes());
    d.extend_from_slice(&1234u64.to_le_bytes());
    d.push(3);
    d.extend_from_slice(b"ali");
    d.extend_from_slice(&[1, 2, 3]);
    assert_eq!(read_header(&d).unwrap(), Header { version: 5, creation_date: 1_700_000_000 });
    let (m, n) = read_metadata(&d[12..]).unwrap();
    assert_eq!(n, 12);
    assert_eq!(m.file_size, 1234);
    assert_eq!(m.author, "ali");
    let (h, m2, rest) = read_cpp_file(&d).unwrap();
    assert_eq!(h.version, 5);
    assert_eq!(m2.author, "ali");
    assert_eq!(rest, vec![1, 2, 3]);
    assert_eq!(read_cpp_file(&d[..22]).err(), Some(IoErrorKind::UnexpectedEof));
    assert_eq!(read_header(&d[..11]).err(), Some(IoErrorKind::UnexpectedEof));
}

#[test]
fn test_d_header_from_bytes() {
    let mut b = [0u8; 16];
    b[..4].copy_from_slice(b"DFIL");
    b[4..8].copy_from_slice(&2u32.to_le_bytes());
    b[8..16].copy_from_slice(&0x1122334455667788u64.to_le_bytes());
    let h = DHeader::from_bytes(&b);
    assert_eq!(h.magic(), b"DFIL");
    assert_eq!(h.version(), 2);
    assert_eq!(h.data_offset(), 0x1122334455667788);
}
