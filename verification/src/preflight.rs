use vstd::prelude::*;

use crate::error::Error;

verus! {

/// Whether a path (as raw bytes) has no parent directory: the filesystem
/// root (any run of `/` alone) or the empty path.
pub open spec fn spec_has_no_parent(s: Seq<u8>) -> bool {
    forall|i: int| 0 <= i < s.len() ==> s[i] == 47u8
}

/// Refuses to compress the filesystem root, before any file is opened:
/// the library buffers whole files in memory, so compressing the root is
/// almost certainly a mistake and unsafe besides.
pub fn check_not_root(path: &[u8]) -> (r: Result<(), Error>)
    ensures
        spec_has_no_parent(path@) ==> (r matches Err(e) && e == Error::CompressingRootFolder),
        !spec_has_no_parent(path@) ==> r matches Ok(_),
{
    let mut i: usize = 0;
    while i < path.len()
        invariant
            i <= path@.len(),
            forall|j: int| 0 <= j < i ==> path@[j] == 47u8,
        decreases path@.len() - i,
    {
        if path[i] != 47u8 {
            return Ok(());
        }
        i = i + 1;
    }
    Err(Error::CompressingRootFolder)
}

/// A compress invocation needs at least one input and one output argument;
/// fewer is refused before any I/O begins.
pub fn check_compress_arguments(n_args: usize) -> (r: Result<(), Error>)
    ensures
        n_args >= 2 ==> r matches Ok(_),
        n_args < 2 ==> (r matches Err(e) && e == Error::MissingArgumentsForCompression),
{
    if n_args < 2 {
        Err(Error::MissingArgumentsForCompression)
    } else {
        Ok(())
    }
}

} // verus!
