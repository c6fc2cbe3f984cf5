use sahne_fs::ai::{ai_file_report, is_pdf_compatible};
use sahne_fs::bin::BinFile;
use sahne_fs::docx::{map_fs_error_to_vfs_error, DocxFile, VfsError};
use sahne_fs::error::{map_sahne_error_to_fs_error, FileSystemError, SahneError};
use sahne_fs::resource::Handle;

#[test]
fn test_vfs_error_text() {
    assert_eq!(VfsError::NotFound.to_text(), "Entity not found");
    assert_eq!(VfsError::IOError("disk".to_string()).to_text(), "IO error: disk");
    assert_eq!(VfsError::InvalidData("bad".to_string()).to_text(), "Invalid data: bad");
    assert_eq!(VfsError::NotEmpty.to_text(), "Directory not empty");
}

#[test]
fn test_map_fs_error_to_vfs_error() {
    assert_eq!(map_fs_error_to_vfs_error(FileSystemError::NotFound), VfsError::NotFound);
    assert_eq!(map_fs_error_to_vfs_error(FileSystemError::NotSupported), VfsError::NotSupported);
    assert_eq!(
        map_fs_error_to_vfs_error(FileSystemError::InvalidData("x".to_string())),
        VfsError::InvalidData("x".to_string())
    );
    assert_eq!(
        map_fs_error_to_vfs_error(FileSystemError::Other("a\"b".to_string())),
        VfsError::IOError("Unknown FileSystemError: Other(\"a\\\"b\")".to_string())
    );
}

#[test]
fn test_sahne_error_as_fs_error() {
    assert_eq!(
        map_sahne_error_to_fs_error(SahneError::Io),
        FileSystemError::IOError("SahneError: Io".to_string())
    );
    assert_eq!(
        map_sahne_error_to_fs_error(SahneError::InodeNotFound(42)),
        FileSystemError::IOError("SahneError: InodeNotFound(42)".to_string())
    );
    assert_eq!(
        map_sahne_error_to_fs_error(SahneError::InodeNotFound(42)),
        FileSystemError::IOError(format!("SahneError: {:?}", SahneError::InodeNotFound(42)))
    );
}

#[test]
fn test_docx_reads() {
    let f = DocxFile::new(Handle(4), 100);
    assert_eq!(f.size(), Ok(100));
    assert_eq!(f.read_len(30, 0), 30);
    assert_eq!(f.read_len(30, 90), 10);
    assert_eq!(f.read_len(30, 100), 0);
    assert_eq!(DocxFile::read_outcome(Ok(10)), Ok(10));
    assert_eq!(
        DocxFile::read_outcome(Err(SahneError::PermissionDenied)),
        Err(VfsError::IOError("SahneError: PermissionDenied".to_string()))
    );
}

#[test]
fn test_ai_signature() {
    assert!(is_pdf_compatible(b"%PDF", 4));
    assert!(!is_pdf_compatible(b"%PDF", 3));
    assert!(!is_pdf_compatible(b"%PS-", 4));
    assert_eq!(ai_file_report(b"%PDF", 4), "Dosya bir AI dosyası (PDF uyumlu).");
    assert_eq!(ai_file_report(b"abcd", 4), "Dosya bir AI dosyası (PDF uyumlu değil veya çok kısa).");
}

#[test]
fn test_binfile_reads() {
    let f = BinFile::new(Handle(1), 5);
    assert_eq!(f.len(), 5);
    assert!(!f.is_empty());
    assert!(f.fits(4, 1));
    assert!(!f.fits(5, 1));
    assert!(!f.fits(3, 4));
    assert!(BinFile::new(Handle(1), 0).is_empty());
    assert_eq!(BinFile::u8_outcome(Ok(1), [10]), Ok(Some(10)));
    assert_eq!(BinFile::u8_outcome(Ok(0), [10]), Ok(None));
    assert_eq!(BinFile::u16_outcome(Ok(2), [0xAA, 0xBB]), Ok(Some(0xBBAA)));
    assert_eq!(BinFile::u32_outcome(Ok(4), [0xAA, 0xBB, 0xCC, 0xDD]), Ok(Some(0xDDCCBBAA)));
    assert_eq!(BinFile::u32_outcome(Ok(3), [0xAA, 0xBB, 0xCC, 0xDD]), Ok(None));
    assert_eq!(
        BinFile::u16_outcome(Err(SahneError::Io), [0, 0]),
        Err(FileSystemError::IOError("SahneError: Io".to_string()))
    );
}
