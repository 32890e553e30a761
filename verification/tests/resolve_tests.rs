use ouch::error::Error;
use ouch::extension::CompressionFormat;
use ouch::resolve::resolve_chain;

#[test]
fn name_wins_over_content() {
    // a file called .gz whose bytes are really a zip stream still resolves
    // to a gzip chain: explicit naming is authoritative
    let zip_bytes = [0x50, 0x4B, 0x03, 0x04, 0, 0, 0, 0];
    let ext = resolve_chain(b"data.gz", Some(&zip_bytes)).unwrap();
    assert_eq!(ext.formats, vec![CompressionFormat::Gzip]);
}

#[test]
fn sniffer_fallback_on_missing_extension() {
    let ext = resolve_chain(b"data", Some(&[0x1F, 0x8B, 0x08])).unwrap();
    assert_eq!(ext.formats, vec![CompressionFormat::Gzip]);
    assert_eq!(ext.text, b"gz".to_vec());
}

#[test]
fn sniffer_fallback_on_unknown_extension() {
    let ext = resolve_chain(b"data.foo", Some(&[0x28, 0xB5, 0x2F, 0xFD])).unwrap();
    assert_eq!(ext.formats, vec![CompressionFormat::Zstd]);
}

#[test]
fn sniff_miss_surfaces_missing_extension() {
    let err = resolve_chain(b"data", Some(&[0u8; 10])).unwrap_err();
    assert_eq!(err, Error::MissingExtensionError(b"data".to_vec()));
}

#[test]
fn sniff_miss_surfaces_unknown_extension() {
    let err = resolve_chain(b"data.foo", Some(&[0u8; 10])).unwrap_err();
    assert_eq!(err, Error::UnknownExtensionError(b"foo".to_vec()));
}

#[test]
fn unreadable_probe_surfaces_parser_error() {
    let err = resolve_chain(b"data.foo", None).unwrap_err();
    assert_eq!(err, Error::UnknownExtensionError(b"foo".to_vec()));
}

#[test]
fn known_name_needs_no_probe() {
    let ext = resolve_chain(b"a.tar.gz", None).unwrap();
    assert_eq!(ext.formats, vec![CompressionFormat::Tar, CompressionFormat::Gzip]);
}
