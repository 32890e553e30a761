use ouch::archive::compress_chain;
use ouch::archive::decompress_chain;
use ouch::archive::Unwrapped;
use ouch::codec::compress_format;
use ouch::codec::decompress_format;
use ouch::error::Error;
use ouch::extension::CompressionFormat;
use ouch::sniff::sniff;

fn sample_data() -> Vec<u8> {
    let mut data = b"the quick brown fox jumps over the lazy dog, twice over: ".to_vec();
    for i in 0..512u32 {
        data.push((i % 251) as u8);
    }
    data
}

fn stream_formats() -> Vec<CompressionFormat> {
    vec![
        CompressionFormat::Gzip,
        CompressionFormat::Bzip,
        CompressionFormat::Lzma,
        CompressionFormat::Lz4,
        CompressionFormat::Zstd,
    ]
}

#[test]
fn single_format_round_trips() {
    let data = sample_data();
    for fmt in stream_formats() {
        let packed = compress_format(fmt, &data).unwrap();
        assert_ne!(packed, data, "{:?} must transform its input", fmt);
        let unpacked = decompress_format(fmt, &packed).unwrap();
        assert_eq!(unpacked, data, "{:?} round trip", fmt);
    }
}

#[test]
fn compressed_streams_carry_their_magic() {
    let data = sample_data();
    for fmt in stream_formats() {
        let packed = compress_format(fmt, &data).unwrap();
        assert_eq!(sniff(&packed), Some(fmt), "{:?} output must sniff as itself", fmt);
    }
}

#[test]
fn empty_input_round_trips() {
    for fmt in stream_formats() {
        let packed = compress_format(fmt, &[]).unwrap();
        let unpacked = decompress_format(fmt, &packed).unwrap();
        assert_eq!(unpacked, Vec::<u8>::new());
    }
}

#[test]
fn gzip_decoder_rejects_zip_bytes() {
    // resolving "data.gz" over zip content yields a gzip chain (name wins);
    // decoding must then fail rather than silently reinterpret as zip
    let mut zip_bytes = vec![0x50, 0x4B, 0x03, 0x04];
    zip_bytes.extend_from_slice(&[0u8; 64]);
    let err = decompress_format(CompressionFormat::Gzip, &zip_bytes).unwrap_err();
    assert!(matches!(err, Error::InvalidArchive(_)));
}

#[test]
fn every_decoder_rejects_garbage() {
    let garbage = vec![0xAAu8; 40];
    for fmt in stream_formats() {
        let err = decompress_format(fmt, &garbage).unwrap_err();
        assert!(matches!(err, Error::InvalidArchive(_)), "{:?}", fmt);
    }
}

#[test]
fn containers_are_not_byte_stream_codecs() {
    let data = sample_data();
    assert_eq!(compress_format(CompressionFormat::Tar, &data).unwrap_err(), Error::InternalError);
    assert_eq!(decompress_format(CompressionFormat::Zip, &data).unwrap_err(), Error::InternalError);
}

#[test]
fn chain_round_trip_counts_every_peel() {
    // a chain of length n is undone by exactly n peel operations and ends
    // with no container wrapper remaining
    let data = sample_data();
    let chain = vec![CompressionFormat::Gzip, CompressionFormat::Bzip, CompressionFormat::Zstd];
    let packed = compress_chain(&chain, &data).unwrap();
    let (peels, outcome) = decompress_chain(&chain, &packed).unwrap();
    assert_eq!(peels, 3);
    assert_eq!(outcome, Unwrapped::Bytes(data));
}

#[test]
fn chain_with_container_innermost_stops_at_the_container() {
    // the bytes standing in for the container stream are arbitrary here:
    // assembling and materializing entries is the caller's side
    let stream = sample_data();
    let chain = vec![CompressionFormat::Tar, CompressionFormat::Gzip];
    let packed = compress_chain(&chain, &stream).unwrap();
    let (peels, outcome) = decompress_chain(&chain, &packed).unwrap();
    assert_eq!(peels, 1);
    assert_eq!(outcome, Unwrapped::Container(CompressionFormat::Tar, stream));
}

#[test]
fn undeclared_container_layer_is_reported_by_resniffing() {
    // a ".gz" file whose payload is itself a tar stream: after the one
    // declared peel the sniffer finds the container layer the name omitted
    let mut tarish = vec![0u8; 512];
    tarish[257] = b'u';
    tarish[258] = b's';
    tarish[259] = b't';
    tarish[260] = b'a';
    tarish[261] = b'r';
    let chain = vec![CompressionFormat::Gzip];
    let packed = compress_chain(&chain, &tarish).unwrap();
    let (peels, outcome) = decompress_chain(&chain, &packed).unwrap();
    assert_eq!(peels, 1);
    assert_eq!(outcome, Unwrapped::Container(CompressionFormat::Tar, tarish));
}

#[test]
fn deep_chain_over_a_container_peels_every_stream_layer() {
    let stream = sample_data();
    let chain = vec![CompressionFormat::Tar, CompressionFormat::Gzip, CompressionFormat::Zstd];
    let packed = compress_chain(&chain, &stream).unwrap();
    let (peels, outcome) = decompress_chain(&chain, &packed).unwrap();
    assert_eq!(peels, 2);
    assert_eq!(outcome, Unwrapped::Container(CompressionFormat::Tar, stream));
}

#[test]
fn empty_chain_is_an_internal_error() {
    let chain: Vec<CompressionFormat> = Vec::new();
    assert_eq!(compress_chain(&chain, b"x").unwrap_err(), Error::InternalError);
    assert_eq!(decompress_chain(&chain, b"x").unwrap_err(), Error::InternalError);
}

#[test]
fn container_above_innermost_is_refused() {
    let chain = vec![CompressionFormat::Gzip, CompressionFormat::Tar];
    assert_eq!(compress_chain(&chain, b"x").unwrap_err(), Error::InvalidInput);
    assert_eq!(decompress_chain(&chain, b"x").unwrap_err(), Error::InvalidInput);
}

#[test]
fn corrupt_outer_layer_fails_the_whole_chain() {
    let data = sample_data();
    let chain = vec![CompressionFormat::Gzip, CompressionFormat::Zstd];
    let mut packed = compress_chain(&chain, &data).unwrap();
    // destroy the outermost (zstd) magic
    packed[0] = 0;
    packed[1] = 0;
    let err = decompress_chain(&chain, &packed).unwrap_err();
    assert!(matches!(err, Error::InvalidArchive(_)));
}
