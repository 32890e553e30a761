use vstd::prelude::*;

use crate::error::Error;
use crate::extension::chain_start;
use crate::extension::last_dot;
use crate::extension::parse;
use crate::extension::parse_chain;
use crate::extension::spec_format_of;
use crate::extension::Extension;
use crate::sniff::sniff_format;
use crate::sniff::try_infer_extension;

verus! {

/// Whether the trailing dotted token of `s` names a known format, i.e.
/// whether parsing the name succeeds.
pub open spec fn name_has_known_suffix(s: Seq<u8>) -> bool {
    last_dot(s) >= 0 && spec_format_of(s.subrange(last_dot(s) + 1, s.len() as int)) is Some
}

/// Resolves the authoritative chain of codecs for one input.
///
/// The filename is consulted first and wins over content: a name with a
/// recognized suffix fixes the chain no matter what the bytes hold. Only
/// when the name says nothing (`probe` holds the file's first bytes, or
/// `None` when they could not be read) is the magic-byte sniffer consulted,
/// and a sniff hit yields a single-format chain. When both say nothing, the
/// parser's own error is surfaced unchanged: the resolver never guesses.
pub fn resolve_chain(filename: &[u8], probe: Option<&[u8]>) -> (r: Result<Extension, Error>)
    ensures
        name_has_known_suffix(filename@) ==> (r matches Ok(e) && e.wf() && e.formats@
            == parse_chain(filename@) && e.text@ == filename@.subrange(
            chain_start(filename@),
            filename@.len() as int,
        )),
        !name_has_known_suffix(filename@) ==> (probe matches Some(b) ==> (sniff_format(b@)
            matches Some(f) ==> (r matches Ok(e) && e.wf() && e.formats@ == seq![f] && e.text@
            == f.spec_suffix()))),
        !name_has_known_suffix(filename@) && (match probe {
            Some(b) => sniff_format(b@) is None,
            None => true,
        }) ==> (r matches Err(e) && (if last_dot(filename@) == -1 {
            e matches Error::MissingExtensionError(p) && p@ == filename@
        } else {
            e matches Error::UnknownExtensionError(t) && t@ == filename@.subrange(
                last_dot(filename@) + 1,
                filename@.len() as int,
            )
        })),
{
    proof {
        crate::extension::lemma_last_dot(filename@);
    }
    match parse(filename) {
        Ok(e) => Ok(e),
        Err(err) => {
            match probe {
                Some(buf) => {
                    match try_infer_extension(buf) {
                        Some(e) => Ok(e),
                        None => Err(err),
                    }
                },
                None => Err(err),
            }
        },
    }
}

} // verus!
