use ouch::error::Error;
use ouch::error::IoErrorKind;
use ouch::error::ZipErrorKind;
use ouch::preflight::check_compress_arguments;
use ouch::preflight::check_not_root;

#[test]
fn compressing_the_root_is_refused_before_any_read() {
    assert_eq!(check_not_root(b"/").unwrap_err(), Error::CompressingRootFolder);
    assert_eq!(check_not_root(b"///").unwrap_err(), Error::CompressingRootFolder);
    assert_eq!(check_not_root(b"").unwrap_err(), Error::CompressingRootFolder);
    assert!(check_not_root(b"/home/user/data").is_ok());
    assert!(check_not_root(b"data.tar.gz").is_ok());
}

#[test]
fn compress_needs_two_arguments() {
    assert_eq!(check_compress_arguments(0).unwrap_err(), Error::MissingArgumentsForCompression);
    assert_eq!(check_compress_arguments(1).unwrap_err(), Error::MissingArgumentsForCompression);
    assert!(check_compress_arguments(2).is_ok());
    assert!(check_compress_arguments(7).is_ok());
}

#[test]
fn io_kinds_map_onto_the_taxonomy() {
    assert_eq!(
        Error::from_io_kind(IoErrorKind::NotFound, b"a.gz".to_vec()),
        Error::FileNotFound(b"a.gz".to_vec())
    );
    assert_eq!(Error::from_io_kind(IoErrorKind::PermissionDenied, Vec::new()), Error::PermissionDenied);
    assert_eq!(Error::from_io_kind(IoErrorKind::AlreadyExists, Vec::new()), Error::AlreadyExists);
    assert_eq!(Error::from_io_kind(IoErrorKind::Other, Vec::new()), Error::IoError);
}

#[test]
fn zip_kinds_map_onto_the_taxonomy() {
    assert!(matches!(
        Error::from_zip_kind(ZipErrorKind::InvalidArchive(String::from("bad"))),
        Error::InvalidArchive(_)
    ));
    assert_eq!(
        Error::from_zip_kind(ZipErrorKind::UnsupportedArchive("no")),
        Error::UnsupportedArchive("no")
    );
    assert_eq!(Error::from_zip_kind(ZipErrorKind::FileNotFound), Error::FileNotFound(Vec::new()));
    assert!(matches!(
        Error::from_zip_kind(ZipErrorKind::InvalidPassword),
        Error::UnsupportedArchive(_)
    ));
    assert!(matches!(
        Error::from_zip_kind(ZipErrorKind::CompressionMethodNotSupported(93)),
        Error::UnsupportedArchive(_)
    ));
    assert_eq!(Error::from_zip_kind(ZipErrorKind::Other), Error::IoError);
}

#[test]
fn raw_zip_errors_are_classified() {
    assert_eq!(Error::from_zip(zip::result::ZipError::FileNotFound), Error::FileNotFound(Vec::new()));
    let io = std::io::Error::new(std::io::ErrorKind::PermissionDenied, "denied");
    assert_eq!(Error::from_zip(zip::result::ZipError::Io(io)), Error::PermissionDenied);
    let io2 = std::io::Error::new(std::io::ErrorKind::NotFound, "gone");
    assert_eq!(Error::from_zip(zip::result::ZipError::Io(io2)), Error::FileNotFound(Vec::new()));
    assert!(matches!(
        Error::from_zip(zip::result::ZipError::UnsupportedArchive("m")),
        Error::UnsupportedArchive("m")
    ));
}

#[test]
fn nested_io_errors_keep_their_class() {
    let io = std::io::Error::new(std::io::ErrorKind::AlreadyExists, "there");
    assert_eq!(Error::from_zip_kind(ZipErrorKind::Io(io)), Error::AlreadyExists);
    let io2 = std::io::Error::new(std::io::ErrorKind::Interrupted, "odd");
    assert_eq!(Error::from_zip_kind(ZipErrorKind::Io(io2)), Error::IoError);
}
