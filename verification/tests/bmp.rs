use sahne_fs::bmp::{BmpHeader, BmpImage};
use sahne_fs::error::FileSystemError;

#[test]
fn test_read_write_bmp_in_memory() {
    let width = 4u32;
    let height = 2u32;
    let bpp = 24u16;
    let row_size_bytes = ((width * bpp as u32 + 31) / 32) * 4;
    let data_size = row_size_bytes * height;
    let mut dummy_data: Vec<u8> = Vec::new();
    for _ in 0..data_size / 3 {
        dummy_data.extend_from_slice(&[0x00, 0xFF, 0x00]);
    }
    let file_header_size = 14u32;
    let dib_header_size = 40u32;
    let image_data_offset = file_header_size + dib_header_size;

    let header = BmpHeader {
        file_size: image_data_offset.checked_add(data_size).unwrap(),
        image_data_offset,
        width,
        height,
        bits_per_pixel: bpp,
        dib_header_size,
    };
    let bmp_image_to_write = BmpImage { header, data: dummy_data };

    let written_data = bmp_image_to_write.write_to_bytes().unwrap();
    let loaded_bmp_image = BmpImage::read_from_bytes(&written_data).unwrap();

    assert_eq!(loaded_bmp_image.header.file_size, bmp_image_to_write.header.file_size);
    assert_eq!(loaded_bmp_image.header.image_data_offset, bmp_image_to_write.header.image_data_offset);
    assert_eq!(loaded_bmp_image.header.width, bmp_image_to_write.header.width);
    assert_eq!(loaded_bmp_image.header.height, bmp_image_to_write.header.height);
    assert_eq!(loaded_bmp_image.header.bits_per_pixel, bmp_image_to_write.header.bits_per_pixel);
    assert_eq!(loaded_bmp_image.header.dib_header_size, bmp_image_to_write.header.dib_header_size);
    assert_eq!(loaded_bmp_image.data, bmp_image_to_write.data);

    let width_padded = 2u32;
    let height_padded = 1u32;
    let bpp_padded = 24u16;
    let row_size_bytes_padded = ((width_padded * bpp_padded as u32 + 31) / 32) * 4;
    let data_size_padded = row_size_bytes_padded * height_padded;
    let dummy_data_padded: Vec<u8> = vec![0xFF, 0x00, 0x00, 0x00, 0x00, 0x00, 0x00, 0x00];
    let image_data_offset_padded = 70u32;

    let header_padded = BmpHeader {
        file_size: image_data_offset_padded.checked_add(data_size_padded).unwrap(),
        image_data_offset: image_data_offset_padded,
        width: width_padded,
        height: height_padded,
        bits_per_pixel: bpp_padded,
        dib_header_size,
    };
    let bmp_image_to_write_padded = BmpImage { header: header_padded, data: dummy_data_padded };

    let written_data_padded = bmp_image_to_write_padded.write_to_bytes().unwrap();
    let loaded_bmp_image_padded = BmpImage::read_from_bytes(&written_data_padded).unwrap();

    assert_eq!(loaded_bmp_image_padded.header.file_size, bmp_image_to_write_padded.header.file_size);
    assert_eq!(loaded_bmp_image_padded.header.image_data_offset, bmp_image_to_write_padded.header.image_data_offset);
    assert_eq!(loaded_bmp_image_padded.header.width, bmp_image_to_write_padded.header.width);
    assert_eq!(loaded_bmp_image_padded.header.height, bmp_image_to_write_padded.header.height);
    assert_eq!(loaded_bmp_image_padded.header.bits_per_pixel, bmp_image_to_write_padded.header.bits_per_pixel);
    assert_eq!(loaded_bmp_image_padded.header.dib_header_size, bmp_image_to_write_padded.header.dib_header_size);
    assert_eq!(loaded_bmp_image_padded.data, bmp_image_to_write_padded.data);

    let expected_padding_size = (image_data_offset_padded - (file_header_size + dib_header_size)) as usize;
    let padding_start_offset = (file_header_size + dib_header_size) as usize;
    let written_padding = &written_data_padded[padding_start_offset..padding_start_offset + expected_padding_size];
    assert!(written_padding.iter().all(|&b| b == 0), "Padding bytes should be zero");
}

#[test]
fn bmp_read_errors() {
    assert_eq!(
        BmpImage::read_from_bytes(&[0u8; 5]).unwrap_err(),
        FileSystemError::IOError("IO Error: failed to fill whole buffer".to_string())
    );
    let mut bytes = vec![0u8; 60];
    bytes[0] = b'B';
    bytes[1] = b'X';
    assert_eq!(
        BmpImage::read_from_bytes(&bytes).unwrap_err(),
        FileSystemError::InvalidData("Geçersiz BMP sihirli sayısı: [42, 58]".to_string())
    );
    bytes[1] = b'M';
    bytes[14] = 12;
    assert_eq!(
        BmpImage::read_from_bytes(&bytes).unwrap_err(),
        FileSystemError::InvalidData("Geçersiz DIB başlık boyutu: 12".to_string())
    );
    bytes[14] = 40;
    bytes[2] = 10;
    bytes[10] = 54;
    assert_eq!(
        BmpImage::read_from_bytes(&bytes).unwrap_err(),
        FileSystemError::InvalidData(
            "Geçersiz görüntü verisi boyutu hesaplaması (file_size 10 < data_offset 54)".to_string()
        )
    );
}

#[test]
fn bmp_write_errors() {
    let mut header = BmpHeader { file_size: 60, image_data_offset: 54, width: 1, height: 1, bits_per_pixel: 8, dib_header_size: 10 };
    let image = BmpImage { header, data: vec![0; 6] };
    assert_eq!(
        image.write_to_bytes().unwrap_err(),
        FileSystemError::InvalidData("Geçersiz DIB başlık boyutu veya yazma hatası".to_string())
    );
    header.dib_header_size = 40;
    header.image_data_offset = 50;
    let image = BmpImage { header, data: vec![0; 6] };
    assert_eq!(
        image.write_to_bytes().unwrap_err(),
        FileSystemError::InvalidData("Görüntü verisi ofseti (50) başlık sonundan (54) küçük.".to_string())
    );
}
