use vstd::prelude::*;

verus! {

/// Every failure the library can report, one variant per kind.
///
/// The payload of `UnknownExtensionError` is the unrecognized suffix token;
/// the payloads of `MissingExtensionError` and `FileNotFound` are the
/// offending path, both as raw bytes. Rendering these values for a person is
/// a presentation concern and lives outside the library.
#[derive(Debug, PartialEq, Eq)]
pub enum Error {
    UnknownExtensionError(Vec<u8>),
    MissingExtensionError(Vec<u8>),
    InvalidInput,
    IoError,
    FileNotFound(Vec<u8>),
    AlreadyExists,
    InvalidArchive(&'static str),
    PermissionDenied,
    UnsupportedArchive(&'static str),
    InternalError,
    CompressingRootFolder,
    MissingArgumentsForCompression,
    WalkdirError,
}

#[verifier::external_type_specification]
#[verifier::external_body]
pub struct ExIoError(std::io::Error);

#[verifier::external_type_specification]
#[verifier::external_body]
pub struct ExZipError(zip::result::ZipError);

/// The classes of `std::io::Error` the library tells apart.
#[derive(Clone, Copy, Debug, PartialEq, Eq, Structural)]
pub enum IoErrorKind {
    NotFound,
    PermissionDenied,
    AlreadyExists,
    Other,
}

/// The classes of `zip::result::ZipError` the library tells apart. `Io`
/// keeps the underlying error so it can be classified in turn; `Other`
/// stands for variants the zip crate may add.
pub enum ZipErrorKind {
    Io(std::io::Error),
    InvalidArchive(String),
    UnsupportedArchive(&'static str),
    FileNotFound,
    InvalidPassword,
    CompressionMethodNotSupported(u16),
    Other,
}

/// Relies on std::io::Error::kind to tell the error classes apart, one arm
/// per class the library cares about.
#[verifier::external_body]
fn classify_io_error(e: std::io::Error) -> IoErrorKind {
    match e.kind() {
        std::io::ErrorKind::NotFound => IoErrorKind::NotFound,
        std::io::ErrorKind::PermissionDenied => IoErrorKind::PermissionDenied,
        std::io::ErrorKind::AlreadyExists => IoErrorKind::AlreadyExists,
        _ => IoErrorKind::Other,
    }
}

/// Relies on zip::result::ZipError's variants alone, one arm each, moving
/// the payload over (the invalid-archive message is taken out of its Cow).
#[verifier::external_body]
fn classify_zip_error(e: zip::result::ZipError) -> ZipErrorKind {
    match e {
        zip::result::ZipError::Io(io) => ZipErrorKind::Io(io),
        zip::result::ZipError::InvalidArchive(m) => ZipErrorKind::InvalidArchive(m.into_owned()),
        zip::result::ZipError::UnsupportedArchive(m) => ZipErrorKind::UnsupportedArchive(m),
        zip::result::ZipError::FileNotFound => ZipErrorKind::FileNotFound,
        zip::result::ZipError::InvalidPassword => ZipErrorKind::InvalidPassword,
        zip::result::ZipError::CompressionMethodNotSupported(c) => {
            ZipErrorKind::CompressionMethodNotSupported(c)
        },
        _ => ZipErrorKind::Other,
    }
}

impl Error {
    /// Turns an I/O failure, already classified, into the library's error
    /// for the path it struck: a missing file is reported as such rather
    /// than aborting the whole run.
    pub fn from_io_kind(kind: IoErrorKind, path: Vec<u8>) -> (r: Error)
        ensures
            kind is NotFound ==> (r matches Error::FileNotFound(p) && p@ == path@),
            kind is PermissionDenied ==> r == Error::PermissionDenied,
            kind is AlreadyExists ==> r == Error::AlreadyExists,
            kind is Other ==> r == Error::IoError,
    {
        match kind {
            IoErrorKind::NotFound => Error::FileNotFound(path),
            IoErrorKind::PermissionDenied => Error::PermissionDenied,
            IoErrorKind::AlreadyExists => Error::AlreadyExists,
            IoErrorKind::Other => Error::IoError,
        }
    }

    /// Maps every class of zip failure onto the library's taxonomy.
    pub fn from_zip_kind(kind: ZipErrorKind) -> (r: Error)
        ensures
            kind matches ZipErrorKind::InvalidArchive(_) ==> r matches Error::InvalidArchive(_),
            kind matches ZipErrorKind::UnsupportedArchive(m) ==> r == Error::UnsupportedArchive(m),
            kind is FileNotFound ==> (r matches Error::FileNotFound(p) && p@ == Seq::<u8>::empty()),
            kind matches ZipErrorKind::Io(_) ==> (r matches Error::FileNotFound(_) || r
                == Error::PermissionDenied || r == Error::AlreadyExists || r == Error::IoError),
            kind is InvalidPassword ==> r matches Error::UnsupportedArchive(_),
            kind matches ZipErrorKind::CompressionMethodNotSupported(_) ==> (
            r matches Error::UnsupportedArchive(_)),
            kind is Other ==> r == Error::IoError,
    {
        match kind {
            ZipErrorKind::Io(io) => {
                let k = classify_io_error(io);
                Error::from_io_kind(k, Vec::new())
            },
            ZipErrorKind::InvalidArchive(_) => Error::InvalidArchive("invalid archive"),
            ZipErrorKind::UnsupportedArchive(m) => Error::UnsupportedArchive(m),
            ZipErrorKind::FileNotFound => Error::FileNotFound(Vec::new()),
            ZipErrorKind::InvalidPassword => Error::UnsupportedArchive(
                "archive is password protected",
            ),
            ZipErrorKind::CompressionMethodNotSupported(_) => Error::UnsupportedArchive(
                "compression method not supported",
            ),
            ZipErrorKind::Other => Error::IoError,
        }
    }

    /// Maps a raw zip error onto the library's taxonomy; every outcome is
    /// one of the archive or I/O kinds, never an extension kind.
    pub fn from_zip(e: zip::result::ZipError) -> (r: Error)
        ensures
            r matches Error::InvalidArchive(_) || r matches Error::UnsupportedArchive(_)
                || r matches Error::FileNotFound(_) || r == Error::PermissionDenied || r
                == Error::AlreadyExists || r == Error::IoError,
    {
        let kind = classify_zip_error(e);
        Error::from_zip_kind(kind)
    }
}

} // verus!
