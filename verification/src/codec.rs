use vstd::prelude::*;

use crate::error::Error;
use crate::extension::CompressionFormat;

verus! {

// Each byte-stream compressor is deterministic: what it returns depends on
// the input bytes alone. The exact output stream takes pages to describe, so
// it is only given a name here, together with the one fact the library
// needs: the codecs are lossless, decoding an encoded stream gives the
// original bytes back, and decoding is a partial function that rejects
// streams no encoder produced.

pub uninterp spec fn gzip_encoding(data: Seq<u8>) -> Seq<u8>;

pub uninterp spec fn gzip_decoding(data: Seq<u8>) -> Option<Seq<u8>>;

pub uninterp spec fn bzip_encoding(data: Seq<u8>) -> Seq<u8>;

pub uninterp spec fn bzip_decoding(data: Seq<u8>) -> Option<Seq<u8>>;

pub uninterp spec fn xz_encoding(data: Seq<u8>) -> Seq<u8>;

pub uninterp spec fn xz_decoding(data: Seq<u8>) -> Option<Seq<u8>>;

pub uninterp spec fn lz4_encoding(data: Seq<u8>) -> Seq<u8>;

pub uninterp spec fn lz4_decoding(data: Seq<u8>) -> Option<Seq<u8>>;

pub uninterp spec fn zstd_encoding(data: Seq<u8>) -> Seq<u8>;

pub uninterp spec fn zstd_decoding(data: Seq<u8>) -> Option<Seq<u8>>;

/// Relies on flate2's read::GzEncoder with the default level: in-memory
/// compression cannot fail, the output is a function of the input bytes,
/// and gzip is lossless, so its decoder gives the input back.
#[verifier::external_body]
fn gzip_compress(data: &[u8]) -> (r: Vec<u8>)
    ensures
        r@ == gzip_encoding(data@),
        gzip_decoding(r@) == Some(data@),
{
    let mut out = Vec::new();
    let mut enc = flate2::read::GzEncoder::new(data, flate2::Compression::default());
    std::io::Read::read_to_end(&mut enc, &mut out).expect("in-memory gzip compression");
    out
}

/// Relies on flate2's read::GzDecoder: decoding is a function of the input
/// bytes alone, and a stream the gzip format does not describe is rejected.
#[verifier::external_body]
fn gzip_decompress(data: &[u8]) -> (r: Option<Vec<u8>>)
    ensures
        match r {
            Some(v) => gzip_decoding(data@) == Some(v@),
            None => gzip_decoding(data@) is None,
        },
{
    let mut out = Vec::new();
    let mut dec = flate2::read::GzDecoder::new(data);
    match std::io::Read::read_to_end(&mut dec, &mut out) {
        Ok(_) => Some(out),
        Err(_) => None,
    }
}

/// Relies on bzip2's read::BzEncoder (level 6), deterministic and lossless
/// in the same way.
#[verifier::external_body]
fn bzip_compress(data: &[u8]) -> (r: Vec<u8>)
    ensures
        r@ == bzip_encoding(data@),
        bzip_decoding(r@) == Some(data@),
{
    let mut out = Vec::new();
    let mut enc = bzip2::read::BzEncoder::new(data, bzip2::Compression::new(6));
    std::io::Read::read_to_end(&mut enc, &mut out).expect("in-memory bzip2 compression");
    out
}

/// Relies on bzip2's read::BzDecoder: decoding depends on the input bytes
/// alone and rejects streams the bzip2 format does not describe.
#[verifier::external_body]
fn bzip_decompress(data: &[u8]) -> (r: Option<Vec<u8>>)
    ensures
        match r {
            Some(v) => bzip_decoding(data@) == Some(v@),
            None => bzip_decoding(data@) is None,
        },
{
    let mut out = Vec::new();
    let mut dec = bzip2::read::BzDecoder::new(data);
    match std::io::Read::read_to_end(&mut dec, &mut out) {
        Ok(_) => Some(out),
        Err(_) => None,
    }
}

/// Relies on lzma_rs::xz_compress, deterministic and lossless in the same
/// way.
#[verifier::external_body]
fn xz_compress(data: &[u8]) -> (r: Vec<u8>)
    ensures
        r@ == xz_encoding(data@),
        xz_decoding(r@) == Some(data@),
{
    let mut out = Vec::new();
    let mut input = data;
    lzma_rs::xz_compress(&mut input, &mut out).expect("in-memory xz compression");
    out
}

/// Relies on lzma_rs::xz_decompress: decoding depends on the input bytes
/// alone and rejects streams the xz format does not describe.
#[verifier::external_body]
fn xz_decompress(data: &[u8]) -> (r: Option<Vec<u8>>)
    ensures
        match r {
            Some(v) => xz_decoding(data@) == Some(v@),
            None => xz_decoding(data@) is None,
        },
{
    let mut out = Vec::new();
    let mut input = data;
    match lzma_rs::xz_decompress(&mut input, &mut out) {
        Ok(_) => Some(out),
        Err(_) => None,
    }
}

/// Relies on lz4_flex's frame::FrameEncoder, deterministic and lossless in
/// the same way.
#[verifier::external_body]
fn lz4_compress(data: &[u8]) -> (r: Vec<u8>)
    ensures
        r@ == lz4_encoding(data@),
        lz4_decoding(r@) == Some(data@),
{
    let mut enc = lz4_flex::frame::FrameEncoder::new(Vec::new());
    std::io::Write::write_all(&mut enc, data).expect("in-memory lz4 compression");
    enc.finish().expect("in-memory lz4 compression")
}

/// Relies on lz4_flex's frame::FrameDecoder: decoding depends on the input
/// bytes alone and rejects streams the lz4 frame format does not describe.
#[verifier::external_body]
fn lz4_decompress(data: &[u8]) -> (r: Option<Vec<u8>>)
    ensures
        match r {
            Some(v) => lz4_decoding(data@) == Some(v@),
            None => lz4_decoding(data@) is None,
        },
{
    let mut out = Vec::new();
    let mut dec = lz4_flex::frame::FrameDecoder::new(data);
    match std::io::Read::read_to_end(&mut dec, &mut out) {
        Ok(_) => Some(out),
        Err(_) => None,
    }
}

/// Relies on zstd::encode_all with the default level, deterministic and
/// lossless in the same way.
#[verifier::external_body]
fn zstd_compress(data: &[u8]) -> (r: Vec<u8>)
    ensures
        r@ == zstd_encoding(data@),
        zstd_decoding(r@) == Some(data@),
{
    zstd::encode_all(data, 0).expect("in-memory zstd compression")
}

/// Relies on zstd::decode_all: decoding depends on the input bytes alone
/// and rejects streams the zstd format does not describe.
#[verifier::external_body]
fn zstd_decompress(data: &[u8]) -> (r: Option<Vec<u8>>)
    ensures
        match r {
            Some(v) => zstd_decoding(data@) == Some(v@),
            None => zstd_decoding(data@) is None,
        },
{
    match zstd::decode_all(data) {
        Ok(out) => Some(out),
        Err(_) => None,
    }
}

/// What one codec stage writes for `data`. Container formats are not
/// byte-stream codecs; the fold never reaches them (the executable path
/// refuses such chains), and for them this is the input unchanged.
pub open spec fn encoding_of(fmt: CompressionFormat, data: Seq<u8>) -> Seq<u8> {
    match fmt {
        CompressionFormat::Gzip => gzip_encoding(data),
        CompressionFormat::Bzip => bzip_encoding(data),
        CompressionFormat::Lzma => xz_encoding(data),
        CompressionFormat::Lz4 => lz4_encoding(data),
        CompressionFormat::Zstd => zstd_encoding(data),
        CompressionFormat::Tar => data,
        CompressionFormat::Zip => data,
    }
}

/// What one codec stage reads back out of `data`, `None` when the stream is
/// not of the format. Containers as in `encoding_of`.
pub open spec fn decoding_of(fmt: CompressionFormat, data: Seq<u8>) -> Option<Seq<u8>> {
    match fmt {
        CompressionFormat::Gzip => gzip_decoding(data),
        CompressionFormat::Bzip => bzip_decoding(data),
        CompressionFormat::Lzma => xz_decoding(data),
        CompressionFormat::Lz4 => lz4_decoding(data),
        CompressionFormat::Zstd => zstd_decoding(data),
        CompressionFormat::Tar => Some(data),
        CompressionFormat::Zip => Some(data),
    }
}

/// Applies one byte-stream codec stage. Compressing never fails; what it
/// wrote, the matching decoder reads back (the round trip returns the
/// original bytes). A container format is refused: only the archive
/// processor's innermost stage may aggregate entries, and that is not a
/// byte-stream transform.
pub fn compress_format(fmt: CompressionFormat, data: &[u8]) -> (r: Result<Vec<u8>, Error>)
    ensures
        fmt.spec_is_container() ==> (r matches Err(e) && e == Error::InternalError),
        !fmt.spec_is_container() ==> (r matches Ok(v) && v@ == encoding_of(fmt, data@)
            && decoding_of(fmt, v@) == Some(data@)),
{
    match fmt {
        CompressionFormat::Gzip => Ok(gzip_compress(data)),
        CompressionFormat::Bzip => Ok(bzip_compress(data)),
        CompressionFormat::Lzma => Ok(xz_compress(data)),
        CompressionFormat::Lz4 => Ok(lz4_compress(data)),
        CompressionFormat::Zstd => Ok(zstd_compress(data)),
        CompressionFormat::Tar => Err(Error::InternalError),
        CompressionFormat::Zip => Err(Error::InternalError),
    }
}

/// Peels one byte-stream codec stage. Fails with `InvalidArchive` exactly
/// when the decoder rejects the bytes as not of the format; a container
/// format is refused as in `compress_format`.
pub fn decompress_format(fmt: CompressionFormat, data: &[u8]) -> (r: Result<Vec<u8>, Error>)
    ensures
        fmt.spec_is_container() ==> (r matches Err(e) && e == Error::InternalError),
        !fmt.spec_is_container() ==> (match r {
            Ok(v) => decoding_of(fmt, data@) == Some(v@),
            Err(e) => decoding_of(fmt, data@) is None && e matches Error::InvalidArchive(_),
        }),
{
    match fmt {
        CompressionFormat::Gzip => match gzip_decompress(data) {
            Some(v) => Ok(v),
            None => Err(Error::InvalidArchive("invalid gzip stream")),
        },
        CompressionFormat::Bzip => match bzip_decompress(data) {
            Some(v) => Ok(v),
            None => Err(Error::InvalidArchive("invalid bzip2 stream")),
        },
        CompressionFormat::Lzma => match xz_decompress(data) {
            Some(v) => Ok(v),
            None => Err(Error::InvalidArchive("invalid xz stream")),
        },
        CompressionFormat::Lz4 => match lz4_decompress(data) {
            Some(v) => Ok(v),
            None => Err(Error::InvalidArchive("invalid lz4 stream")),
        },
        CompressionFormat::Zstd => match zstd_decompress(data) {
            Some(v) => Ok(v),
            None => Err(Error::InvalidArchive("invalid zstd stream")),
        },
        CompressionFormat::Tar => Err(Error::InternalError),
        CompressionFormat::Zip => Err(Error::InternalError),
    }
}

} // verus!
