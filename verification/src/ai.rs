//! Adobe Illustrator files: whether a file is PDF-compatible, told by its first four bytes.
use vstd::prelude::*;

verus! {

/// `%PDF`, the signature of a PDF-compatible file.
pub open spec fn pdf_signature() -> Seq<u8> {
    seq![0x25u8, 0x50u8, 0x44u8, 0x46u8]
}

/// Whether a read of the first bytes of a file that filled `bytes_read` bytes of `buffer`
/// found the PDF signature: all four bytes must have been read.
pub fn is_pdf_compatible(buffer: &[u8; 4], bytes_read: usize) -> (r: bool)
    ensures
        r == (bytes_read == 4 && buffer@ == pdf_signature()),
{
    let ok = bytes_read == 4 && buffer[0] == 0x25 && buffer[1] == 0x50 && buffer[2] == 0x44
        && buffer[3] == 0x46;
    proof {
        if bytes_read == 4 && buffer@ == pdf_signature() {
            assert(buffer@[0] == 0x25 && buffer@[1] == 0x50 && buffer@[2] == 0x44 && buffer@[3] == 0x46);
        }
        if ok {
            assert(buffer@ =~= pdf_signature());
        }
    }
    ok
}

/// The line printed about a file whose first bytes were read as `buffer`, `bytes_read` of them.
pub fn ai_file_report(buffer: &[u8; 4], bytes_read: usize) -> (r: &'static str)
    ensures
        r@ == (if bytes_read == 4 && buffer@ == pdf_signature() {
            "Dosya bir AI dosyası (PDF uyumlu)."@
        } else {
            "Dosya bir AI dosyası (PDF uyumlu değil veya çok kısa)."@
        }),
{
    if is_pdf_compatible(buffer, bytes_read) {
        "Dosya bir AI dosyası (PDF uyumlu)."
    } else {
        "Dosya bir AI dosyası (PDF uyumlu değil veya çok kısa)."
    }
}

} // verus!
