//! BMP images: the file header, the BITMAPINFOHEADER fields that the library keeps, and the
//! pixel data, read from and written to bytes.
use vstd::prelude::*;
use crate::bytes::{
    le16, le16_bytes, le32, le32_bytes, lemma_le16_of_bytes, lemma_le32_of_bytes, push_all,
    push_le_u16, push_le_u32, push_zeros, read_le_u16, read_le_u32, copy_range,
};
use crate::error::{FileSystemError, short_read_error, short_read_text};
use crate::text::{decimal, hex_list, push_decimal, push_hex_list};
use vstd::string::StringExecFns;

verus! {

/// The header fields of a BMP file.
#[derive(Debug, Clone, Copy, PartialEq, Eq, Structural)]
pub struct BmpHeader {
    pub file_size: u32,
    pub image_data_offset: u32,
    pub width: u32,
    pub height: u32,
    pub bits_per_pixel: u16,
    pub dib_header_size: u32,
}

/// A BMP image: its header and its pixel data.
#[derive(Debug)]
pub struct BmpImage {
    pub header: BmpHeader,
    pub data: Vec<u8>,
}

/// What reading BMP bytes gives.
pub enum BmpRead {
    /// The header, and the pixel data from the data offset up to the file size.
    Image(BmpHeader, Seq<u8>),
    /// The bytes end before a field that must be read.
    Short,
    /// The first two bytes are not `BM`.
    BadMagic(u8, u8),
    /// The DIB header is smaller than a BITMAPINFOHEADER.
    BadDibSize(u32),
    /// The file size is below the data offset (file size, offset).
    BadDataSize(u32, u32),
}

/// The outcome of reading `d` as a BMP file.
pub open spec fn bmp_read(d: Seq<u8>) -> BmpRead {
    if d.len() < 14 {
        BmpRead::Short
    } else if d[0] != 66 || d[1] != 77 {
        BmpRead::BadMagic(d[0], d[1])
    } else if d.len() < 18 {
        BmpRead::Short
    } else if le32(d, 14) < 40 {
        BmpRead::BadDibSize(le32(d, 14) as u32)
    } else if 14 + le32(d, 14) > d.len() {
        BmpRead::Short
    } else if le32(d, 2) < le32(d, 10) {
        BmpRead::BadDataSize(le32(d, 2) as u32, le32(d, 10) as u32)
    } else if le32(d, 2) > d.len() {
        BmpRead::Short
    } else {
        BmpRead::Image(
            BmpHeader {
                file_size: le32(d, 2) as u32,
                image_data_offset: le32(d, 10) as u32,
                width: le32(d, 18) as u32,
                height: le32(d, 22) as u32,
                bits_per_pixel: le16(d, 28) as u16,
                dib_header_size: le32(d, 14) as u32,
            },
            d.subrange(le32(d, 10), le32(d, 2)),
        )
    }
}

/// `r` is what reading with outcome `o` returns.
pub open spec fn bmp_read_result(o: BmpRead, r: Result<BmpImage, FileSystemError>) -> bool {
    match o {
        BmpRead::Image(h, data) => r matches Ok(img) && img.header == h && img.data@ == data,
        BmpRead::Short => r matches Err(FileSystemError::IOError(m)) && m@ == short_read_text(),
        BmpRead::BadMagic(a, b) => r matches Err(FileSystemError::InvalidData(m)) && m@
            == "Geçersiz BMP sihirli sayısı: "@ + hex_list(seq![a, b]),
        BmpRead::BadDibSize(n) => r matches Err(FileSystemError::InvalidData(m)) && m@
            == "Geçersiz DIB başlık boyutu: "@ + decimal(n as nat),
        BmpRead::BadDataSize(fs, off) => r matches Err(FileSystemError::InvalidData(m)) && m@
            == "Geçersiz görüntü verisi boyutu hesaplaması (file_size "@ + decimal(fs as nat)
            + " < data_offset "@ + decimal(off as nat) + ")"@,
    }
}

/// The first 30 bytes of a written BMP file: file header and the fields of the DIB header up to
/// the bit depth.
pub open spec fn bmp_header_bytes(h: BmpHeader) -> Seq<u8> {
    seq![66u8, 77u8] + le32_bytes(h.file_size as int) + Seq::new(4, |_i: int| 0u8) + le32_bytes(
        h.image_data_offset as int,
    ) + le32_bytes(h.dib_header_size as int) + le32_bytes(h.width as int) + le32_bytes(
        h.height as int,
    ) + seq![1u8, 0u8] + le16_bytes(h.bits_per_pixel as int)
}

/// The bytes that writing `h` and `data` produces when it succeeds.
pub open spec fn bmp_bytes(h: BmpHeader, data: Seq<u8>) -> Seq<u8> {
    bmp_header_bytes(h) + Seq::new((h.dib_header_size - 16) as nat, |_i: int| 0u8) + Seq::new(
        (h.image_data_offset - 14 - h.dib_header_size) as nat,
        |_i: int| 0u8,
    ) + data
}

/// `r` is what writing `h` and `data` returns.
pub open spec fn bmp_write_result(h: BmpHeader, data: Seq<u8>, r: Result<Vec<u8>, FileSystemError>) -> bool {
    if h.dib_header_size < 16 {
        r matches Err(FileSystemError::InvalidData(m)) && m@
            == "Geçersiz DIB başlık boyutu veya yazma hatası"@
    } else if 14 + h.dib_header_size > u32::MAX {
        r matches Err(FileSystemError::InvalidData(m)) && m@
            == "Başlık sonu ofseti hesaplanırken taşma"@
    } else if h.image_data_offset < 14 + h.dib_header_size {
        r matches Err(FileSystemError::InvalidData(m)) && m@ == "Görüntü verisi ofseti ("@
            + decimal(h.image_data_offset as nat) + ") başlık sonundan ("@ + decimal(
            (14 + h.dib_header_size) as nat,
        ) + ") küçük."@
    } else {
        r matches Ok(bytes) && bytes@ == bmp_bytes(h, data)
    }
}

impl BmpImage {
    /// Reads a BMP image from the bytes of a file.
    pub fn read_from_bytes(d: &[u8]) -> (r: Result<BmpImage, FileSystemError>)
        ensures
            bmp_read_result(bmp_read(d@), r),
    {
        let n = d.len();
        if n < 14 {
            return Err(short_read_error());
        }
        if d[0] != 66 || d[1] != 77 {
            let mut m = "Geçersiz BMP sihirli sayısı: ".to_owned();
            let magic = [d[0], d[1]];
            push_hex_list(&mut m, &magic);
            assert(magic@ =~= seq![d@[0], d@[1]]);
            return Err(FileSystemError::InvalidData(m));
        }
        if n < 18 {
            return Err(short_read_error());
        }
        let dib_header_size = read_le_u32(d, 14);
        if dib_header_size < 40 {
            let mut m = "Geçersiz DIB başlık boyutu: ".to_owned();
            push_decimal(&mut m, dib_header_size as u64);
            return Err(FileSystemError::InvalidData(m));
        }
        if (n as u64) < 14 + dib_header_size as u64 {
            return Err(short_read_error());
        }
        let file_size = read_le_u32(d, 2);
        let image_data_offset = read_le_u32(d, 10);
        let width = read_le_u32(d, 18);
        let height = read_le_u32(d, 22);
        let bits_per_pixel = read_le_u16(d, 28);
        if file_size < image_data_offset {
            let mut m = "Geçersiz görüntü verisi boyutu hesaplaması (file_size ".to_owned();
            push_decimal(&mut m, file_size as u64);
            m.append(" < data_offset ");
            push_decimal(&mut m, image_data_offset as u64);
            m.append(")");
            return Err(FileSystemError::InvalidData(m));
        }
        if (n as u64) < file_size as u64 {
            return Err(short_read_error());
        }
        let data = copy_range(d, image_data_offset as usize, file_size as usize);
        let header = BmpHeader {
            file_size,
            image_data_offset,
            width,
            height,
            bits_per_pixel,
            dib_header_size,
        };
        Ok(BmpImage { header, data })
    }

    /// The bytes of the BMP file for this image: the headers, zeros up to the data offset, and
    /// the pixel data.
    pub fn write_to_bytes(&self) -> (r: Result<Vec<u8>, FileSystemError>)
        requires
            self.header.image_data_offset + self.data@.len() <= usize::MAX,
        ensures
            bmp_write_result(self.header, self.data@, r),
    {
        let h = self.header;
        if h.dib_header_size < 16 {
            return Err(FileSystemError::InvalidData("Geçersiz DIB başlık boyutu veya yazma hatası".to_owned()));
        }
        if h.dib_header_size > u32::MAX - 14 {
            return Err(FileSystemError::InvalidData("Başlık sonu ofseti hesaplanırken taşma".to_owned()));
        }
        let header_end = 14 + h.dib_header_size;
        if h.image_data_offset < header_end {
            let mut m = "Görüntü verisi ofseti (".to_owned();
            push_decimal(&mut m, h.image_data_offset as u64);
            m.append(") başlık sonundan (");
            push_decimal(&mut m, header_end as u64);
            m.append(") küçük.");
            return Err(FileSystemError::InvalidData(m));
        }
        let mut out: Vec<u8> = Vec::new();
        out.push(66u8);
        out.push(77u8);
        push_le_u32(&mut out, h.file_size);
        push_zeros(&mut out, 4);
        push_le_u32(&mut out, h.image_data_offset);
        push_le_u32(&mut out, h.dib_header_size);
        push_le_u32(&mut out, h.width);
        push_le_u32(&mut out, h.height);
        out.push(1u8);
        out.push(0u8);
        push_le_u16(&mut out, h.bits_per_pixel);
        push_zeros(&mut out, (h.dib_header_size - 16) as usize);
        push_zeros(&mut out, (h.image_data_offset - header_end) as usize);
        push_all(&mut out, self.data.as_slice());
        assert(out@ =~= bmp_bytes(h, self.data@));
        Ok(out)
    }
}

proof fn lemma_header_bytes(h: BmpHeader)
    ensures
        bmp_header_bytes(h).len() == 30,
        bmp_header_bytes(h)[0] == 66u8,
        bmp_header_bytes(h)[1] == 77u8,
        le32(bmp_header_bytes(h), 2) == h.file_size,
        le32(bmp_header_bytes(h), 10) == h.image_data_offset,
        le32(bmp_header_bytes(h), 14) == h.dib_header_size,
        le32(bmp_header_bytes(h), 18) == h.width,
        le32(bmp_header_bytes(h), 22) == h.height,
        le16(bmp_header_bytes(h), 28) == h.bits_per_pixel,
{
    let hb = bmp_header_bytes(h);
    assert(hb.subrange(2, 6) =~= le32_bytes(h.file_size as int));
    assert(hb.subrange(10, 14) =~= le32_bytes(h.image_data_offset as int));
    assert(hb.subrange(14, 18) =~= le32_bytes(h.dib_header_size as int));
    assert(hb.subrange(18, 22) =~= le32_bytes(h.width as int));
    assert(hb.subrange(22, 26) =~= le32_bytes(h.height as int));
    assert(hb.subrange(28, 30) =~= le16_bytes(h.bits_per_pixel as int));
    lemma_le32_of_bytes(hb, 2, h.file_size as int);
    lemma_le32_of_bytes(hb, 10, h.image_data_offset as int);
    lemma_le32_of_bytes(hb, 14, h.dib_header_size as int);
    lemma_le32_of_bytes(hb, 18, h.width as int);
    lemma_le32_of_bytes(hb, 22, h.height as int);
    lemma_le16_of_bytes(hb, 28, h.bits_per_pixel as int);
}

/// Writing an image whose header is consistent with its data (a full BITMAPINFOHEADER, the
/// data offset past the headers, the file size at the end of the data) and reading the bytes
/// back gives the same header and data.
pub proof fn lemma_bmp_write_read(h: BmpHeader, data: Seq<u8>)
    requires
        h.dib_header_size >= 40,
        14 + h.dib_header_size <= h.image_data_offset,
        h.file_size == h.image_data_offset + data.len(),
    ensures
        bmp_read(bmp_bytes(h, data)) == BmpRead::Image(h, data),
{
    let d = bmp_bytes(h, data);
    let hb = bmp_header_bytes(h);
    let off = h.image_data_offset as int;
    lemma_header_bytes(h);
    assert(d.len() == off + data.len());
    assert forall|k: int| 0 <= k < 30 implies d[k] == hb[k] by {}
    assert(le32(d, 2) == le32(hb, 2));
    assert(le32(d, 10) == le32(hb, 10));
    assert(le32(d, 14) == le32(hb, 14));
    assert(le32(d, 18) == le32(hb, 18));
    assert(le32(d, 22) == le32(hb, 22));
    assert(le16(d, 28) == le16(hb, 28));
    assert(d.subrange(off, off + data.len()) =~= data);
}

} // verus!
