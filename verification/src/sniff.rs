use vstd::prelude::*;

use crate::extension::CompressionFormat;
use crate::extension::Extension;

verus! {

/// How many leading bytes of a file the sniffer ever looks at.
pub const PROBE_LEN: usize = 270;

pub open spec fn is_zip_magic(s: Seq<u8>) -> bool {
    s.len() > 3 && s[0] == 0x50 && s[1] == 0x4B && ((s[2] == 0x03 && s[3] == 0x04) || (s[2] == 0x05
        && s[3] == 0x06) || (s[2] == 0x07 && s[3] == 0x08))
}

pub open spec fn is_tar_magic(s: Seq<u8>) -> bool {
    s.len() > 261 && s[257] == 0x75 && s[258] == 0x73 && s[259] == 0x74 && s[260] == 0x61 && s[261]
        == 0x72
}

pub open spec fn is_gzip_magic(s: Seq<u8>) -> bool {
    s.len() > 2 && s[0] == 0x1F && s[1] == 0x8B && s[2] == 0x08
}

pub open spec fn is_bzip_magic(s: Seq<u8>) -> bool {
    s.len() > 2 && s[0] == 0x42 && s[1] == 0x5A && s[2] == 0x68
}

pub open spec fn is_xz_magic(s: Seq<u8>) -> bool {
    s.len() > 5 && s[0] == 0xFD && s[1] == 0x37 && s[2] == 0x7A && s[3] == 0x58 && s[4] == 0x5A
        && s[5] == 0x00
}

pub open spec fn is_lzip_magic(s: Seq<u8>) -> bool {
    s.len() > 3 && s[0] == 0x4C && s[1] == 0x5A && s[2] == 0x49 && s[3] == 0x50
}

pub open spec fn is_lz4_magic(s: Seq<u8>) -> bool {
    s.len() > 3 && s[0] == 0x04 && s[1] == 0x22 && s[2] == 0x4D && s[3] == 0x18
}

pub open spec fn is_zstd_magic(s: Seq<u8>) -> bool {
    s.len() > 3 && s[0] == 0x28 && s[1] == 0xB5 && s[2] == 0x2F && s[3] == 0xFD
}

/// The single outermost format the magic-byte table names for a buffer, if
/// any, testing the signatures in the fixed priority order.
pub open spec fn sniff_format(s: Seq<u8>) -> Option<CompressionFormat> {
    if is_zip_magic(s) {
        Some(CompressionFormat::Zip)
    } else if is_tar_magic(s) {
        Some(CompressionFormat::Tar)
    } else if is_gzip_magic(s) {
        Some(CompressionFormat::Gzip)
    } else if is_bzip_magic(s) {
        Some(CompressionFormat::Bzip)
    } else if is_xz_magic(s) {
        Some(CompressionFormat::Lzma)
    } else if is_lzip_magic(s) {
        Some(CompressionFormat::Lzma)
    } else if is_lz4_magic(s) {
        Some(CompressionFormat::Lz4)
    } else if is_zstd_magic(s) {
        Some(CompressionFormat::Zstd)
    } else {
        None
    }
}

/// Infers the outermost format of `buf` (the first bytes of a file) from its
/// magic signature alone. A miss is not an error: it only means the content
/// names no known format.
pub fn sniff(buf: &[u8]) -> (r: Option<CompressionFormat>)
    ensures
        r == sniff_format(buf@),
{
    let n = buf.len();
    if n > 3 && buf[0] == 0x50 && buf[1] == 0x4B && ((buf[2] == 0x03 && buf[3] == 0x04) || (buf[2]
        == 0x05 && buf[3] == 0x06) || (buf[2] == 0x07 && buf[3] == 0x08)) {
        Some(CompressionFormat::Zip)
    } else if n > 261 && buf[257] == 0x75 && buf[258] == 0x73 && buf[259] == 0x74 && buf[260]
        == 0x61 && buf[261] == 0x72 {
        Some(CompressionFormat::Tar)
    } else if n > 2 && buf[0] == 0x1F && buf[1] == 0x8B && buf[2] == 0x08 {
        Some(CompressionFormat::Gzip)
    } else if n > 2 && buf[0] == 0x42 && buf[1] == 0x5A && buf[2] == 0x68 {
        Some(CompressionFormat::Bzip)
    } else if n > 5 && buf[0] == 0xFD && buf[1] == 0x37 && buf[2] == 0x7A && buf[3] == 0x58
        && buf[4] == 0x5A && buf[5] == 0x00 {
        Some(CompressionFormat::Lzma)
    } else if n > 3 && buf[0] == 0x4C && buf[1] == 0x5A && buf[2] == 0x49 && buf[3] == 0x50 {
        Some(CompressionFormat::Lzma)
    } else if n > 3 && buf[0] == 0x04 && buf[1] == 0x22 && buf[2] == 0x4D && buf[3] == 0x18 {
        Some(CompressionFormat::Lz4)
    } else if n > 3 && buf[0] == 0x28 && buf[1] == 0xB5 && buf[2] == 0x2F && buf[3] == 0xFD {
        Some(CompressionFormat::Zstd)
    } else {
        None
    }
}

/// Builds the single-format extension that sniffing `buf` yields, labelled
/// with the format's canonical suffix. `None` when no signature matches.
pub fn try_infer_extension(buf: &[u8]) -> (r: Option<Extension>)
    ensures
        match r {
            Some(e) => sniff_format(buf@) matches Some(f) && e.wf() && e.formats@ == seq![f]
                && e.text@ == f.spec_suffix(),
            None => sniff_format(buf@) is None,
        },
{
    match sniff(buf) {
        Some(f) => {
            let mut formats: Vec<CompressionFormat> = Vec::new();
            formats.push(f);
            proof {
                assert(formats@ =~= seq![f]);
            }
            Some(Extension::new(formats, f.suffix()))
        },
        None => None,
    }
}

} // verus!
