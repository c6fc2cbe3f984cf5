//! ELF64 little-endian files: the file header and the program header table.
use vstd::prelude::*;
use crate::bytes::{
    le16, le16_bytes, le32, le32_bytes, le64, le64_bytes, lemma_le16_of_bytes, lemma_le32_of_bytes,
    lemma_le64_of_bytes, read_le_u16, read_le_u32, read_le_u64,
};
use crate::error::FileSystemError;
use crate::text::{decimal, hex_list, push_decimal, push_hex_list};
use vstd::string::StringExecFns;

verus! {

/// The ELF64 file header.
#[derive(Debug, Clone, Copy, PartialEq, Eq)]
pub struct ElfHeader {
    pub e_ident: [u8; 16],
    pub e_type: u16,
    pub e_machine: u16,
    pub e_version: u32,
    pub e_entry: u64,
    pub e_phoff: u64,
    pub e_shoff: u64,
    pub e_flags: u32,
    pub e_ehsize: u16,
    pub e_phentsize: u16,
    pub e_phnum: u16,
    pub e_shentsize: u16,
    pub e_shnum: u16,
    pub e_shstrndx: u16,
}

/// An ELF64 program header.
#[derive(Debug, Clone, Copy, PartialEq, Eq, Structural)]
pub struct ProgramHeader {
    pub p_type: u32,
    pub p_flags: u32,
    pub p_offset: u64,
    pub p_vaddr: u64,
    pub p_paddr: u64,
    pub p_filesz: u64,
    pub p_memsz: u64,
    pub p_align: u64,
}

/// An ELF file: its header and its program headers.
#[derive(Debug)]
pub struct ElfFile {
    pub header: ElfHeader,
    pub program_headers: Vec<ProgramHeader>,
}

/// The size of the ELF64 file header.
pub const ELF_HEADER_SIZE: usize = 64;

/// `\x7fELF`.
pub open spec fn elf_magic() -> Seq<u8> {
    seq![0x7fu8, 0x45u8, 0x4cu8, 0x46u8]
}

/// `h` holds the fields of the 64-byte header at the start of `d`.
pub open spec fn header_fields(h: ElfHeader, d: Seq<u8>) -> bool {
    &&& h.e_ident@ == d.subrange(0, 16)
    &&& h.e_type == le16(d, 16)
    &&& h.e_machine == le16(d, 18)
    &&& h.e_version == le32(d, 20)
    &&& h.e_entry == le64(d, 24)
    &&& h.e_phoff == le64(d, 32)
    &&& h.e_shoff == le64(d, 40)
    &&& h.e_flags == le32(d, 48)
    &&& h.e_ehsize == le16(d, 52)
    &&& h.e_phentsize == le16(d, 54)
    &&& h.e_phnum == le16(d, 56)
    &&& h.e_shentsize == le16(d, 58)
    &&& h.e_shnum == le16(d, 60)
    &&& h.e_shstrndx == le16(d, 62)
}

/// `p` holds the fields of the 56-byte program header at `off` in `d`.
pub open spec fn program_header_fields(p: ProgramHeader, d: Seq<u8>, off: int) -> bool {
    &&& p.p_type == le32(d, off)
    &&& p.p_flags == le32(d, off + 4)
    &&& p.p_offset == le64(d, off + 8)
    &&& p.p_vaddr == le64(d, off + 16)
    &&& p.p_paddr == le64(d, off + 24)
    &&& p.p_filesz == le64(d, off + 32)
    &&& p.p_memsz == le64(d, off + 40)
    &&& p.p_align == le64(d, off + 48)
}

/// `r` is what reading the ELF header of `d` returns.
pub open spec fn header_result(d: Seq<u8>, r: Result<ElfHeader, FileSystemError>) -> bool {
    if d.len() < 64 {
        r matches Err(FileSystemError::InvalidData(m)) && m@ == "Beklenen 64 bayt yerine "@
            + decimal(d.len()) + " bayt okundu"@
    } else if d.subrange(0, 4) != elf_magic() {
        r matches Err(FileSystemError::InvalidData(m)) && m@ == "Geçersiz ELF sihirli sayısı: "@
            + hex_list(d.subrange(0, 4))
    } else {
        r matches Ok(h) && header_fields(h, d)
    }
}

/// What reading the program header table gives.
pub enum TableRead {
    /// All `e_phnum` headers lie inside the data.
    Complete,
    /// The table starts past the end of the data.
    OffsetPastEnd,
    /// Header number `i` is cut off, with the given number of bytes left before the end.
    Truncated(nat, nat),
    /// The header gives an entry size other than 56.
    EntrySizeMismatch,
}

/// The outcome of reading `phnum` headers of `phentsize` bytes from `phoff` in `len` bytes:
/// headers are read 56 bytes at a time, and the entry size is checked once a header has fitted.
pub open spec fn table_read(len: int, phoff: int, phnum: int, phentsize: int) -> TableRead {
    if phnum == 0 {
        TableRead::Complete
    } else if phoff > len {
        TableRead::OffsetPastEnd
    } else if len - phoff < 56 {
        TableRead::Truncated(0, (len - phoff) as nat)
    } else if phentsize != 56 {
        TableRead::EntrySizeMismatch
    } else if (len - phoff) / 56 < phnum {
        TableRead::Truncated(((len - phoff) / 56) as nat, ((len - phoff) % 56) as nat)
    } else {
        TableRead::Complete
    }
}

/// `r` is what reading `phnum` program headers of `phentsize` bytes from `phoff` in `d`
/// returns.
pub open spec fn program_table_result(
    d: Seq<u8>,
    phoff: int,
    phnum: int,
    phentsize: int,
    r: Result<Vec<ProgramHeader>, FileSystemError>,
) -> bool {
    match table_read(d.len() as int, phoff, phnum, phentsize) {
        TableRead::Complete => r matches Ok(v) && v@.len() == phnum && forall|i: int|
            0 <= i < v@.len() ==> program_header_fields(#[trigger] v@[i], d, phoff + 56 * i),
        TableRead::OffsetPastEnd => r matches Err(FileSystemError::IOError(m)) && m@
            == "Dosya boyutu hesaplanırken hata"@,
        TableRead::Truncated(i, left) => r matches Err(FileSystemError::InvalidData(m)) && m@
            == "Beklenenden erken dosya sonu: Program başlığı "@ + decimal(i) + " okunurken (Kalan "@
            + decimal(left) + " bayt, Gerekli 56)"@,
        TableRead::EntrySizeMismatch => r matches Err(FileSystemError::InvalidData(m)) && m@
            == "Program header entry size mismatch"@,
    }
}

impl ElfFile {
    /// Reads the 64-byte ELF64 header at the start of `d`, checking the magic number.
    pub fn read_header(d: &[u8]) -> (r: Result<ElfHeader, FileSystemError>)
        ensures
            header_result(d@, r),
    {
        let n = d.len();
        if n < ELF_HEADER_SIZE {
            let mut m = "Beklenen 64 bayt yerine ".to_owned();
            push_decimal(&mut m, n as u64);
            m.append(" bayt okundu");
            return Err(FileSystemError::InvalidData(m));
        }
        let mut e_ident = [0u8; 16];
        let mut k: usize = 0;
        while k < 16
            invariant
                k <= 16,
                16 <= d@.len(),
                forall|j: int| 0 <= j < k ==> e_ident@[j] == d@[j],
            decreases 16 - k,
        {
            e_ident[k] = d[k];
            k = k + 1;
        }
        assert(e_ident@ =~= d@.subrange(0, 16));
        if !(e_ident[0] == 0x7f && e_ident[1] == 0x45 && e_ident[2] == 0x4c && e_ident[3] == 0x46) {
            let magic = [e_ident[0], e_ident[1], e_ident[2], e_ident[3]];
            assert(magic@ =~= d@.subrange(0, 4));
            let mut m = "Geçersiz ELF sihirli sayısı: ".to_owned();
            push_hex_list(&mut m, &magic);
            return Err(FileSystemError::InvalidData(m));
        }
        assert(d@.subrange(0, 4) =~= elf_magic());
        Ok(ElfHeader {
            e_ident,
            e_type: read_le_u16(d, 16),
            e_machine: read_le_u16(d, 18),
            e_version: read_le_u32(d, 20),
            e_entry: read_le_u64(d, 24),
            e_phoff: read_le_u64(d, 32),
            e_shoff: read_le_u64(d, 40),
            e_flags: read_le_u32(d, 48),
            e_ehsize: read_le_u16(d, 52),
            e_phentsize: read_le_u16(d, 54),
            e_phnum: read_le_u16(d, 56),
            e_shentsize: read_le_u16(d, 58),
            e_shnum: read_le_u16(d, 60),
            e_shstrndx: read_le_u16(d, 62),
        })
    }

    /// Reads the `e_phnum` program headers that start at `e_phoff`, 56 bytes each.
    pub fn read_program_headers(d: &[u8], header: &ElfHeader) -> (r: Result<Vec<ProgramHeader>, FileSystemError>)
        ensures
            program_table_result(
                d@,
                header.e_phoff as int,
                header.e_phnum as int,
                header.e_phentsize as int,
                r,
            ),
    {
        let dlen: usize = d.len();
        let len = dlen as u64;
        let phoff = header.e_phoff;
        let phnum = header.e_phnum;
        let mut headers: Vec<ProgramHeader> = Vec::new();
        let mut i: u16 = 0;
        while i < phnum
            invariant
                len == dlen,
                dlen == d@.len(),
                phoff == header.e_phoff,
                phnum == header.e_phnum,
                i <= phnum,
                headers@.len() == i,
                i > 0 ==> phoff + 56 * i <= len,
                i > 0 ==> header.e_phentsize == 56,
                forall|j: int| 0 <= j < i ==> program_header_fields(
                    #[trigger] headers@[j],
                    d@,
                    phoff + 56 * j,
                ),
            decreases phnum - i,
        {
            if phoff > len || len - phoff < 56 * (i as u64) {
                assert(i == 0);
                return Err(FileSystemError::IOError("Dosya boyutu hesaplanırken hata".to_owned()));
            }
            let pos = phoff + 56 * (i as u64);
            let remaining = len - pos;
            if remaining < 56 {
                proof {
                    vstd::arithmetic::div_mod::lemma_fundamental_div_mod_converse(
                        len - phoff,
                        56,
                        i as int,
                        remaining as int,
                    );
                }
                let mut m = "Beklenenden erken dosya sonu: Program başlığı ".to_owned();
                push_decimal(&mut m, i as u64);
                m.append(" okunurken (Kalan ");
                push_decimal(&mut m, remaining);
                m.append(" bayt, Gerekli 56)");
                return Err(FileSystemError::InvalidData(m));
            }
            if header.e_phentsize != 56 {
                return Err(FileSystemError::InvalidData("Program header entry size mismatch".to_owned()));
            }
            let p = pos as usize;
            let ph = ProgramHeader {
                p_type: read_le_u32(d, p),
                p_flags: read_le_u32(d, p + 4),
                p_offset: read_le_u64(d, p + 8),
                p_vaddr: read_le_u64(d, p + 16),
                p_paddr: read_le_u64(d, p + 24),
                p_filesz: read_le_u64(d, p + 32),
                p_memsz: read_le_u64(d, p + 40),
                p_align: read_le_u64(d, p + 48),
            };
            headers.push(ph);
            i = i + 1;
        }
        proof {
            if phnum > 0 {
                let x = len - phoff;
                assert(x >= 56 * phnum);
                assert(x / 56 >= phnum as int) by (nonlinear_arith)
                    requires
                        x >= 56 * phnum,
                        phnum >= 0,
                ;
            }
        }
        Ok(headers)
    }

    /// Reads an ELF file from its bytes: the header, then the program headers.
    pub fn from_bytes(d: &[u8]) -> (r: Result<ElfFile, FileSystemError>)
        ensures
            elf_file_result(d@, r),
    {
        let header = match Self::read_header(d) {
            Ok(h) => h,
            Err(e) => return Err(e),
        };
        match Self::read_program_headers(d, &header) {
            Ok(program_headers) => Ok(ElfFile { header, program_headers }),
            Err(e) => Err(e),
        }
    }
}

/// `r` is what reading `d` as an ELF file returns: the header error, or the header together
/// with the outcome of reading the program header table it describes.
pub open spec fn elf_file_result(d: Seq<u8>, r: Result<ElfFile, FileSystemError>) -> bool {
    if d.len() < 64 || d.subrange(0, 4) != elf_magic() {
        r matches Err(e) && header_result(d, Err(e))
    } else {
        let phoff = le64(d, 32);
        let phnum = le16(d, 56);
        let phentsize = le16(d, 54);
        match r {
            Ok(f) => header_fields(f.header, d) && program_table_result(
                d,
                phoff,
                phnum,
                phentsize,
                Ok(f.program_headers),
            ),
            Err(e) => program_table_result(d, phoff, phnum, phentsize, Err(e)),
        }
    }
}

/// The 2 bytes of a 16-bit field, little-endian (`le16_bytes`).
#[verifier::opaque]
pub open spec fn field16(v: int) -> Seq<u8> {
    le16_bytes(v)
}

/// The 4 bytes of a 32-bit field, little-endian (`le32_bytes`).
#[verifier::opaque]
pub open spec fn field32(v: int) -> Seq<u8> {
    le32_bytes(v)
}

/// The 8 bytes of a 64-bit field, little-endian (`le64_bytes`).
#[verifier::opaque]
pub open spec fn field64(v: int) -> Seq<u8> {
    le64_bytes(v)
}

/// The 56 bytes of an ELF64 program header, little-endian, in the order of the `Elf64_Phdr`
/// fields: type, flags, offset, virtual address, physical address, size in the file, size in
/// memory, alignment.
pub open spec fn program_header_bytes(ph: ProgramHeader) -> Seq<u8> {
    field32(ph.p_type as int) + field32(ph.p_flags as int) + field64(ph.p_offset as int) + field64(
        ph.p_vaddr as int,
    ) + field64(ph.p_paddr as int) + field64(ph.p_filesz as int) + field64(ph.p_memsz as int)
        + field64(ph.p_align as int)
}

proof fn lemma_field_lens(v: int)
    ensures
        field16(v).len() == 2,
        field32(v).len() == 4,
        field64(v).len() == 8,
{
    reveal(field16);
    reveal(field32);
    reveal(field64);
}

/// A program header table written from `hs`, one header after the other.
pub open spec fn program_table_bytes(hs: Seq<ProgramHeader>) -> Seq<u8>
    decreases hs.len(),
{
    if hs.len() == 0 {
        Seq::empty()
    } else {
        program_table_bytes(hs.drop_last()) + program_header_bytes(hs.last())
    }
}

/// A program header read from the 56 bytes that `program_header_bytes` wrote for `ph`, wherever
/// they stand in the data, is `ph`: the size in the file comes from bytes 32..40 of the entry and
/// the size in memory from bytes 40..48.
pub proof fn lemma_program_header_reads_written(
    pre: Seq<u8>,
    ph: ProgramHeader,
    post: Seq<u8>,
    p: ProgramHeader,
)
    requires
        program_header_fields(p, pre + program_header_bytes(ph) + post, pre.len() as int),
    ensures
        p == ph,
{
    let w = program_header_bytes(ph);
    let d = pre + w + post;
    let o = pre.len() as int;
    lemma_program_header_layout(ph);
    assert(d.subrange(o, o + 56) =~= w);
    lemma_fields_of_bytes(d, o, ph);
}

/// Where the fields of `ph` stand in `program_header_bytes(ph)`.
proof fn lemma_program_header_layout(ph: ProgramHeader)
    ensures
        program_header_bytes(ph).len() == 56,
        program_header_bytes(ph).subrange(0, 4) == field32(ph.p_type as int),
        program_header_bytes(ph).subrange(4, 8) == field32(ph.p_flags as int),
        program_header_bytes(ph).subrange(8, 16) == field64(ph.p_offset as int),
        program_header_bytes(ph).subrange(16, 24) == field64(ph.p_vaddr as int),
        program_header_bytes(ph).subrange(24, 32) == field64(ph.p_paddr as int),
        program_header_bytes(ph).subrange(32, 40) == field64(ph.p_filesz as int),
        program_header_bytes(ph).subrange(40, 48) == field64(ph.p_memsz as int),
        program_header_bytes(ph).subrange(48, 56) == field64(ph.p_align as int),
{
    let a = field32(ph.p_type as int);
    let b = field32(ph.p_flags as int);
    let c = field64(ph.p_offset as int);
    let e = field64(ph.p_vaddr as int);
    let f = field64(ph.p_paddr as int);
    let g = field64(ph.p_filesz as int);
    let h = field64(ph.p_memsz as int);
    let k = field64(ph.p_align as int);
    lemma_field_lens(ph.p_type as int);
    lemma_field_lens(ph.p_flags as int);
    lemma_field_lens(ph.p_offset as int);
    lemma_field_lens(ph.p_vaddr as int);
    lemma_field_lens(ph.p_paddr as int);
    lemma_field_lens(ph.p_filesz as int);
    lemma_field_lens(ph.p_memsz as int);
    lemma_field_lens(ph.p_align as int);
    let p2 = a + b;
    let p3 = p2 + c;
    let p4 = p3 + e;
    let p5 = p4 + f;
    let p6 = p5 + g;
    let p7 = p6 + h;
    let w = p7 + k;
    assert(a.len() == 4 && b.len() == 4 && c.len() == 8 && e.len() == 8);
    assert(f.len() == 8 && g.len() == 8 && h.len() == 8 && k.len() == 8);
    assert(p2.len() == 8 && p3.len() == 16 && p4.len() == 24 && p5.len() == 32);
    assert(p6.len() == 40 && p7.len() == 48 && w.len() == 56);
    // bytes 0..4
    lemma_concat_window(p7, k, 0, 4);
    lemma_concat_window(p6, h, 0, 4);
    lemma_concat_window(p5, g, 0, 4);
    lemma_concat_window(p4, f, 0, 4);
    lemma_concat_window(p3, e, 0, 4);
    lemma_concat_window(p2, c, 0, 4);
    lemma_concat_window(a, b, 0, 4);
    lemma_concat_window(a, Seq::empty(), 0, 4);
    // bytes 4..8
    lemma_concat_window(p7, k, 4, 8);
    lemma_concat_window(p6, h, 4, 8);
    lemma_concat_window(p5, g, 4, 8);
    lemma_concat_window(p4, f, 4, 8);
    lemma_concat_window(p3, e, 4, 8);
    lemma_concat_window(p2, c, 4, 8);
    lemma_concat_window(a, b, 4, 8);
    lemma_concat_window(b, Seq::empty(), 0, 4);
    // bytes 8..16
    lemma_concat_window(p7, k, 8, 16);
    lemma_concat_window(p6, h, 8, 16);
    lemma_concat_window(p5, g, 8, 16);
    lemma_concat_window(p4, f, 8, 16);
    lemma_concat_window(p3, e, 8, 16);
    lemma_concat_window(p2, c, 8, 16);
    lemma_concat_window(c, Seq::empty(), 0, 8);
    // bytes 16..24
    lemma_concat_window(p7, k, 16, 24);
    lemma_concat_window(p6, h, 16, 24);
    lemma_concat_window(p5, g, 16, 24);
    lemma_concat_window(p4, f, 16, 24);
    lemma_concat_window(p3, e, 16, 24);
    lemma_concat_window(e, Seq::empty(), 0, 8);
    // bytes 24..32
    lemma_concat_window(p7, k, 24, 32);
    lemma_concat_window(p6, h, 24, 32);
    lemma_concat_window(p5, g, 24, 32);
    lemma_concat_window(p4, f, 24, 32);
    lemma_concat_window(f, Seq::empty(), 0, 8);
    // bytes 32..40
    lemma_concat_window(p7, k, 32, 40);
    lemma_concat_window(p6, h, 32, 40);
    lemma_concat_window(p5, g, 32, 40);
    lemma_concat_window(g, Seq::empty(), 0, 8);
    // bytes 40..48
    lemma_concat_window(p7, k, 40, 48);
    lemma_concat_window(p6, h, 40, 48);
    lemma_concat_window(h, Seq::empty(), 0, 8);
    // bytes 48..56
    lemma_concat_window(p7, k, 48, 56);
    lemma_concat_window(k, Seq::empty(), 0, 8);
}

/// Inside a window of `d` that holds `w`, each part of `w` stands at the same distance from
/// the window's start.
proof fn lemma_window(d: Seq<u8>, o: int, w: Seq<u8>, i: int, j: int)
    requires
        0 <= o,
        o + w.len() <= d.len(),
        d.subrange(o, o + w.len()) == w,
        0 <= i <= j <= w.len(),
    ensures
        d.subrange(o + i, o + j) == w.subrange(i, j),
{
    assert forall|t: int| 0 <= t < j - i implies d.subrange(o + i, o + j)[t] == w.subrange(i, j)[t] by {
        assert(d.subrange(o, o + w.len())[i + t] == d[o + i + t]);
    }
    assert(d.subrange(o + i, o + j) =~= w.subrange(i, j));
}

proof fn lemma_fields_of_bytes(d: Seq<u8>, o: int, ph: ProgramHeader)
    requires
        0 <= o,
        o + 56 <= d.len(),
        d.subrange(o, o + 56) == program_header_bytes(ph),
    ensures
        program_header_fields(ph, d, o),
{
    let w = program_header_bytes(ph);
    lemma_program_header_layout(ph);
    reveal(field32);
    reveal(field64);
    lemma_window(d, o, w, 0, 4);
    lemma_le32_of_bytes(d, o, ph.p_type as int);
    lemma_window(d, o, w, 4, 8);
    lemma_le32_of_bytes(d, o + 4, ph.p_flags as int);
    lemma_window(d, o, w, 8, 16);
    lemma_le64_of_bytes(d, o + 8, ph.p_offset as int);
    lemma_window(d, o, w, 16, 24);
    lemma_le64_of_bytes(d, o + 16, ph.p_vaddr as int);
    lemma_window(d, o, w, 24, 32);
    lemma_le64_of_bytes(d, o + 24, ph.p_paddr as int);
    lemma_window(d, o, w, 32, 40);
    lemma_le64_of_bytes(d, o + 32, ph.p_filesz as int);
    lemma_window(d, o, w, 40, 48);
    lemma_le64_of_bytes(d, o + 40, ph.p_memsz as int);
    lemma_window(d, o, w, 48, 56);
    lemma_le64_of_bytes(d, o + 48, ph.p_align as int);
}

/// Entry `i` of a table written from `hs` holds the bytes of `hs[i]`.
proof fn lemma_program_table_entry(hs: Seq<ProgramHeader>, i: int)
    requires
        0 <= i < hs.len(),
    ensures
        program_table_bytes(hs).len() == 56 * hs.len(),
        program_table_bytes(hs).subrange(56 * i, 56 * i + 56) == program_header_bytes(hs[i]),
    decreases hs.len(),
{
    let t = program_table_bytes(hs.drop_last());
    lemma_program_table_len(hs);
    lemma_program_table_len(hs.drop_last());
    lemma_program_header_layout(hs.last());
    if i < hs.len() - 1 {
        lemma_program_table_entry(hs.drop_last(), i);
        assert(program_table_bytes(hs).subrange(56 * i, 56 * i + 56) =~= t.subrange(56 * i, 56 * i + 56));
    } else {
        assert(program_table_bytes(hs).subrange(56 * i, 56 * i + 56) =~= program_header_bytes(hs.last()));
    }
}

proof fn lemma_program_table_len(hs: Seq<ProgramHeader>)
    ensures
        program_table_bytes(hs).len() == 56 * hs.len(),
    decreases hs.len(),
{
    if hs.len() > 0 {
        lemma_program_table_len(hs.drop_last());
        lemma_program_header_layout(hs.last());
    }
}

/// Reading a program header table written from `hs` at `phoff`, with the entry count and the
/// entry size of 56 that describe it, gives back exactly the headers `hs`, in order.
pub proof fn lemma_program_table_reads_written(
    pre: Seq<u8>,
    hs: Seq<ProgramHeader>,
    post: Seq<u8>,
    r: Result<Vec<ProgramHeader>, FileSystemError>,
)
    requires
        program_table_result(
            pre + program_table_bytes(hs) + post,
            pre.len() as int,
            hs.len() as int,
            56,
            r,
        ),
    ensures
        r matches Ok(v) && v@ == hs,
{
    let t = program_table_bytes(hs);
    let d = pre + t + post;
    let o = pre.len() as int;
    let n = hs.len() as int;
    lemma_program_table_len(hs);
    if n > 0 {
        assert(d.len() - o >= 56 * n);
        assert((d.len() - o) / 56 >= n) by (nonlinear_arith)
            requires
                d.len() - o >= 56 * n,
                n >= 0,
        ;
    }
    assert(table_read(d.len() as int, o, n, 56) == TableRead::Complete);
    let v = r->Ok_0;
    assert forall|i: int| 0 <= i < n implies v@[i] == hs[i] by {
        lemma_program_table_entry(hs, i);
        assert(0 <= 56 * i) by (nonlinear_arith)
            requires
                0 <= i,
        ;
        assert(56 * i + 56 <= 56 * n) by (nonlinear_arith)
            requires
                i < n,
        ;
        assert(d.subrange(o + 56 * i, o + 56 * i + 56) =~= t.subrange(56 * i, 56 * i + 56));
        lemma_fields_of_bytes(d, o + 56 * i, hs[i]);
    }
    assert(v@ =~= hs);
}

/// The 64 bytes of an ELF64 file header, little-endian, in the order of the `Elf64_Ehdr`
/// fields: the identification bytes; type, machine, version, entry point; program and section
/// header table offsets; flags, header size, program header entry size and count, section
/// header entry size and count, and the index of the section name table.
pub open spec fn elf_header_bytes(h: ElfHeader) -> Seq<u8> {
    h.e_ident@ + (field16(h.e_type as int) + field16(h.e_machine as int) + field32(h.e_version as int)
        + field64(h.e_entry as int)) + (field64(h.e_phoff as int) + field64(h.e_shoff as int)) + (
    field32(h.e_flags as int) + field16(h.e_ehsize as int) + field16(h.e_phentsize as int) + field16(
        h.e_phnum as int,
    ) + field16(h.e_shentsize as int) + field16(h.e_shnum as int) + field16(h.e_shstrndx as int))
}

/// The part of `x + y` between `i` and `j` is read from `x` when it lies in `x`, and from `y`
/// when it lies in `y`.
proof fn lemma_concat_window(x: Seq<u8>, y: Seq<u8>, i: int, j: int)
    requires
        0 <= i <= j <= x.len() + y.len(),
    ensures
        j <= x.len() ==> (x + y).subrange(i, j) == x.subrange(i, j),
        x.len() <= i ==> (x + y).subrange(i, j) == y.subrange(i - x.len(), j - x.len()),
        j == x.len() ==> x.subrange(0, j) == x,
{
    if j <= x.len() {
        assert((x + y).subrange(i, j) =~= x.subrange(i, j));
    }
    if x.len() <= i {
        assert((x + y).subrange(i, j) =~= y.subrange(i - x.len(), j - x.len()));
    }
    if j == x.len() {
        assert(x.subrange(0, j) =~= x);
    }
}

/// Where the fields of `h` stand in `elf_header_bytes(h)`.
proof fn lemma_elf_header_layout(h: ElfHeader)
    ensures
        elf_header_bytes(h).len() == 64,
        elf_header_bytes(h).subrange(0, 16) == h.e_ident@,
        elf_header_bytes(h).subrange(16, 18) == field16(h.e_type as int),
        elf_header_bytes(h).subrange(18, 20) == field16(h.e_machine as int),
        elf_header_bytes(h).subrange(20, 24) == field32(h.e_version as int),
        elf_header_bytes(h).subrange(24, 32) == field64(h.e_entry as int),
        elf_header_bytes(h).subrange(32, 40) == field64(h.e_phoff as int),
        elf_header_bytes(h).subrange(40, 48) == field64(h.e_shoff as int),
        elf_header_bytes(h).subrange(48, 52) == field32(h.e_flags as int),
        elf_header_bytes(h).subrange(52, 54) == field16(h.e_ehsize as int),
        elf_header_bytes(h).subrange(54, 56) == field16(h.e_phentsize as int),
        elf_header_bytes(h).subrange(56, 58) == field16(h.e_phnum as int),
        elf_header_bytes(h).subrange(58, 60) == field16(h.e_shentsize as int),
        elf_header_bytes(h).subrange(60, 62) == field16(h.e_shnum as int),
        elf_header_bytes(h).subrange(62, 64) == field16(h.e_shstrndx as int),
{
    let id = h.e_ident@;
    let ft = field16(h.e_type as int);
    let fm = field16(h.e_machine as int);
    let fv = field32(h.e_version as int);
    let fe = field64(h.e_entry as int);
    let fph = field64(h.e_phoff as int);
    let fsh = field64(h.e_shoff as int);
    let ffl = field32(h.e_flags as int);
    let feh = field16(h.e_ehsize as int);
    let fpe = field16(h.e_phentsize as int);
    let fpn = field16(h.e_phnum as int);
    let fse = field16(h.e_shentsize as int);
    let fsn = field16(h.e_shnum as int);
    let fsi = field16(h.e_shstrndx as int);
    lemma_field_lens(h.e_type as int);
    lemma_field_lens(h.e_machine as int);
    lemma_field_lens(h.e_version as int);
    lemma_field_lens(h.e_entry as int);
    lemma_field_lens(h.e_phoff as int);
    lemma_field_lens(h.e_shoff as int);
    lemma_field_lens(h.e_flags as int);
    lemma_field_lens(h.e_ehsize as int);
    lemma_field_lens(h.e_phentsize as int);
    lemma_field_lens(h.e_phnum as int);
    lemma_field_lens(h.e_shentsize as int);
    lemma_field_lens(h.e_shnum as int);
    lemma_field_lens(h.e_shstrndx as int);
    let q0 = ft + fm;
    let q1 = q0 + fv;
    let q2 = q1 + fe;
    let q3 = id + q2;
    let q4 = fph + fsh;
    let q5 = q3 + q4;
    let q6 = ffl + feh;
    let q7 = q6 + fpe;
    let q8 = q7 + fpn;
    let q9 = q8 + fse;
    let q10 = q9 + fsn;
    let q11 = q10 + fsi;
    let q12 = q5 + q11;
    // bytes 0..16
    lemma_concat_window(q5, q11, 0, 16);
    lemma_concat_window(q3, q4, 0, 16);
    lemma_concat_window(id, q2, 0, 16);
    lemma_concat_window(id, Seq::empty(), 0, 16);
    // bytes 16..18
    lemma_concat_window(q5, q11, 16, 18);
    lemma_concat_window(q3, q4, 16, 18);
    lemma_concat_window(id, q2, 16, 18);
    lemma_concat_window(q1, fe, 0, 2);
    lemma_concat_window(q0, fv, 0, 2);
    lemma_concat_window(ft, fm, 0, 2);
    lemma_concat_window(ft, Seq::empty(), 0, 2);
    // bytes 18..20
    lemma_concat_window(q5, q11, 18, 20);
    lemma_concat_window(q3, q4, 18, 20);
    lemma_concat_window(id, q2, 18, 20);
    lemma_concat_window(q1, fe, 2, 4);
    lemma_concat_window(q0, fv, 2, 4);
    lemma_concat_window(ft, fm, 2, 4);
    lemma_concat_window(fm, Seq::empty(), 0, 2);
    // bytes 20..24
    lemma_concat_window(q5, q11, 20, 24);
    lemma_concat_window(q3, q4, 20, 24);
    lemma_concat_window(id, q2, 20, 24);
    lemma_concat_window(q1, fe, 4, 8);
    lemma_concat_window(q0, fv, 4, 8);
    lemma_concat_window(fv, Seq::empty(), 0, 4);
    // bytes 24..32
    lemma_concat_window(q5, q11, 24, 32);
    lemma_concat_window(q3, q4, 24, 32);
    lemma_concat_window(id, q2, 24, 32);
    lemma_concat_window(q1, fe, 8, 16);
    lemma_concat_window(fe, Seq::empty(), 0, 8);
    // bytes 32..40
    lemma_concat_window(q5, q11, 32, 40);
    lemma_concat_window(q3, q4, 32, 40);
    lemma_concat_window(fph, fsh, 0, 8);
    lemma_concat_window(fph, Seq::empty(), 0, 8);
    // bytes 40..48
    lemma_concat_window(q5, q11, 40, 48);
    lemma_concat_window(q3, q4, 40, 48);
    lemma_concat_window(fph, fsh, 8, 16);
    lemma_concat_window(fsh, Seq::empty(), 0, 8);
    // bytes 48..52
    lemma_concat_window(q5, q11, 48, 52);
    lemma_concat_window(q10, fsi, 0, 4);
    lemma_concat_window(q9, fsn, 0, 4);
    lemma_concat_window(q8, fse, 0, 4);
    lemma_concat_window(q7, fpn, 0, 4);
    lemma_concat_window(q6, fpe, 0, 4);
    lemma_concat_window(ffl, feh, 0, 4);
    lemma_concat_window(ffl, Seq::empty(), 0, 4);
    // bytes 52..54
    lemma_concat_window(q5, q11, 52, 54);
    lemma_concat_window(q10, fsi, 4, 6);
    lemma_concat_window(q9, fsn, 4, 6);
    lemma_concat_window(q8, fse, 4, 6);
    lemma_concat_window(q7, fpn, 4, 6);
    lemma_concat_window(q6, fpe, 4, 6);
    lemma_concat_window(ffl, feh, 4, 6);
    lemma_concat_window(feh, Seq::empty(), 0, 2);
    // bytes 54..56
    lemma_concat_window(q5, q11, 54, 56);
    lemma_concat_window(q10, fsi, 6, 8);
    lemma_concat_window(q9, fsn, 6, 8);
    lemma_concat_window(q8, fse, 6, 8);
    lemma_concat_window(q7, fpn, 6, 8);
    lemma_concat_window(q6, fpe, 6, 8);
    lemma_concat_window(fpe, Seq::empty(), 0, 2);
    // bytes 56..58
    lemma_concat_window(q5, q11, 56, 58);
    lemma_concat_window(q10, fsi, 8, 10);
    lemma_concat_window(q9, fsn, 8, 10);
    lemma_concat_window(q8, fse, 8, 10);
    lemma_concat_window(q7, fpn, 8, 10);
    lemma_concat_window(fpn, Seq::empty(), 0, 2);
    // bytes 58..60
    lemma_concat_window(q5, q11, 58, 60);
    lemma_concat_window(q10, fsi, 10, 12);
    lemma_concat_window(q9, fsn, 10, 12);
    lemma_concat_window(q8, fse, 10, 12);
    lemma_concat_window(fse, Seq::empty(), 0, 2);
    // bytes 60..62
    lemma_concat_window(q5, q11, 60, 62);
    lemma_concat_window(q10, fsi, 12, 14);
    lemma_concat_window(q9, fsn, 12, 14);
    lemma_concat_window(fsn, Seq::empty(), 0, 2);
    // bytes 62..64
    lemma_concat_window(q5, q11, 62, 64);
    lemma_concat_window(q10, fsi, 14, 16);
    lemma_concat_window(fsi, Seq::empty(), 0, 2);
}

/// Reading the ELF header of data that starts with the 64 bytes `elf_header_bytes(h)` wrote,
/// where `h` carries the ELF magic number, gives back `h`: every field is read from its place
/// in the `Elf64_Ehdr` layout.
pub proof fn lemma_elf_header_reads_written(h: ElfHeader, rest: Seq<u8>, r: Result<ElfHeader, FileSystemError>)
    requires
        h.e_ident@.subrange(0, 4) == elf_magic(),
        header_result(elf_header_bytes(h) + rest, r),
    ensures
        r matches Ok(g) && g == h,
{
    let wb = elf_header_bytes(h);
    let d = wb + rest;
    lemma_elf_header_layout(h);
    assert(d.subrange(0, 64) =~= wb);
    lemma_window(d, 0, wb, 0, 16);
    assert(d.subrange(0, 4) =~= h.e_ident@.subrange(0, 4));
    reveal(field16);
    reveal(field32);
    reveal(field64);
    lemma_window(d, 0, wb, 16, 18);
    lemma_le16_of_bytes(d, 16, h.e_type as int);
    lemma_window(d, 0, wb, 18, 20);
    lemma_le16_of_bytes(d, 18, h.e_machine as int);
    lemma_window(d, 0, wb, 20, 24);
    lemma_le32_of_bytes(d, 20, h.e_version as int);
    lemma_window(d, 0, wb, 24, 32);
    lemma_le64_of_bytes(d, 24, h.e_entry as int);
    lemma_window(d, 0, wb, 32, 40);
    lemma_le64_of_bytes(d, 32, h.e_phoff as int);
    lemma_window(d, 0, wb, 40, 48);
    lemma_le64_of_bytes(d, 40, h.e_shoff as int);
    lemma_window(d, 0, wb, 48, 52);
    lemma_le32_of_bytes(d, 48, h.e_flags as int);
    lemma_window(d, 0, wb, 52, 54);
    lemma_le16_of_bytes(d, 52, h.e_ehsize as int);
    lemma_window(d, 0, wb, 54, 56);
    lemma_le16_of_bytes(d, 54, h.e_phentsize as int);
    lemma_window(d, 0, wb, 56, 58);
    lemma_le16_of_bytes(d, 56, h.e_phnum as int);
    lemma_window(d, 0, wb, 58, 60);
    lemma_le16_of_bytes(d, 58, h.e_shentsize as int);
    lemma_window(d, 0, wb, 60, 62);
    lemma_le16_of_bytes(d, 60, h.e_shnum as int);
    lemma_window(d, 0, wb, 62, 64);
    lemma_le16_of_bytes(d, 62, h.e_shstrndx as int);
    let g = r->Ok_0;
    assert(g.e_ident@ =~= h.e_ident@);
    assert(g.e_ident =~= h.e_ident);
}

} // verus!
