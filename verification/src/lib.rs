use vstd::prelude::*;

pub mod archive;
pub mod codec;
pub mod error;
pub mod extension;
pub mod policy;
pub mod preflight;
pub mod resolve;
pub mod sniff;

pub use archive::Unwrapped;

pub use error::Error;
pub use error::IoErrorKind;
pub use error::ZipErrorKind;
pub use extension::CompressionFormat;
pub use extension::Extension;
pub use policy::QuestionPolicy;

verus! {

} // verus!
