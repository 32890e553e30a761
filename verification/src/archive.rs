use vstd::prelude::*;

use crate::codec::compress_format;
use crate::codec::decompress_format;
use crate::codec::decoding_of;
use crate::codec::encoding_of;
use crate::error::Error;
use crate::extension::CompressionFormat;
use crate::sniff::sniff;
use crate::sniff::sniff_format;

verus! {

/// What a whole chain writes for `data`: the stages applied innermost
/// (index 0) outward, each consuming the previous stage's output.
pub open spec fn chain_encoding(chain: Seq<CompressionFormat>, data: Seq<u8>) -> Seq<u8>
    decreases chain.len(),
{
    if chain.len() == 0 {
        data
    } else {
        encoding_of(chain.last(), chain_encoding(chain.drop_last(), data))
    }
}

/// What peeling a whole chain reads back out of `data`: the stages peeled
/// outermost (last index) inward, `None` as soon as one stage rejects.
pub open spec fn chain_decoding(chain: Seq<CompressionFormat>, data: Seq<u8>) -> Option<Seq<u8>>
    decreases chain.len(),
{
    if chain.len() == 0 {
        Some(data)
    } else {
        match decoding_of(chain.last(), data) {
            Some(v) => chain_decoding(chain.drop_last(), v),
            None => None,
        }
    }
}

/// Folding a chain is associative: encoding under a concatenated chain is
/// encoding under the first part, then under the second.
pub proof fn lemma_chain_encoding_append(
    a: Seq<CompressionFormat>,
    b: Seq<CompressionFormat>,
    data: Seq<u8>,
)
    ensures
        chain_encoding(a + b, data) == chain_encoding(b, chain_encoding(a, data)),
    decreases b.len(),
{
    if b.len() == 0 {
        assert(a + b =~= a);
    } else {
        assert((a + b).drop_last() =~= a + b.drop_last());
        lemma_chain_encoding_append(a, b.drop_last(), data);
    }
}

/// Peeling a chain is associative: a concatenated chain peels as its second
/// part, then, if that succeeded, its first. In particular a chain of
/// length n is peeled by exactly n single-stage steps, in order.
pub proof fn lemma_chain_decoding_append(
    a: Seq<CompressionFormat>,
    b: Seq<CompressionFormat>,
    data: Seq<u8>,
)
    ensures
        chain_decoding(a + b, data) == (match chain_decoding(b, data) {
            Some(v) => chain_decoding(a, v),
            None => None::<Seq<u8>>,
        }),
    decreases b.len(),
{
    if b.len() == 0 {
        assert(a + b =~= a);
    } else {
        assert((a + b).drop_last() =~= a + b.drop_last());
        match decoding_of(b.last(), data) {
            Some(v) => {
                lemma_chain_decoding_append(a, b.drop_last(), v);
            },
            None => {},
        }
    }
}

/// A resolved chain is well-shaped when it is non-empty and no stage but
/// the innermost is a container: only the innermost stage may aggregate
/// entries, every other stage is one stream in, one stream out.
pub open spec fn spec_chain_shape_ok(chain: Seq<CompressionFormat>) -> bool {
    chain.len() >= 1 && forall|i: int|
        1 <= i < chain.len() ==> !chain[i].spec_is_container()
}

pub fn chain_shape_ok(chain: &Vec<CompressionFormat>) -> (r: bool)
    ensures
        r == spec_chain_shape_ok(chain@),
{
    if chain.len() == 0 {
        return false;
    }
    let mut i: usize = 1;
    while i < chain.len()
        invariant
            1 <= i <= chain@.len(),
            forall|j: int| 1 <= j < i ==> !chain@[j].spec_is_container(),
        decreases chain@.len() - i,
    {
        if chain[i].is_container() {
            return false;
        }
        i = i + 1;
    }
    true
}

/// The byte-stream part of a chain: everything but a container innermost
/// stage. When the innermost stage is a container, the bytes the processor
/// folds are the already-assembled container stream.
pub open spec fn stream_part(chain: Seq<CompressionFormat>) -> Seq<CompressionFormat> {
    if chain.len() >= 1 && chain[0].spec_is_container() {
        chain.subrange(1, chain.len() as int)
    } else {
        chain
    }
}

/// Runs a resolved chain forward: stage 0 first, each later stage consuming
/// the previous stage's output. When stage 0 is a container, `data` must
/// already be the assembled container stream, and only the byte-stream
/// stages above it run here.
///
/// The output is exactly the chain's encoding of `data`, and peeling the
/// same chain gives `data` back: compressing then decompressing returns the
/// original bytes.
///
/// An empty chain is an internal invariant violation; a container anywhere
/// but innermost is rejected before any stage runs.
pub fn compress_chain(chain: &Vec<CompressionFormat>, data: &[u8]) -> (r: Result<Vec<u8>, Error>)
    ensures
        chain@.len() == 0 ==> (r matches Err(e) && e == Error::InternalError),
        chain@.len() >= 1 && !spec_chain_shape_ok(chain@) ==> (r matches Err(e) && e
            == Error::InvalidInput),
        spec_chain_shape_ok(chain@) ==> (r matches Ok(v) && v@ == chain_encoding(
            stream_part(chain@),
            data@,
        ) && chain_decoding(stream_part(chain@), v@) == Some(data@)),
{
    if chain.len() == 0 {
        return Err(Error::InternalError);
    }
    if !chain_shape_ok(chain) {
        return Err(Error::InvalidInput);
    }
    let s: usize = if chain[0].is_container() {
        1
    } else {
        0
    };
    let mut acc = vstd::slice::slice_to_vec(data);
    let ghost data0 = data@;
    let mut i: usize = s;
    proof {
        assert(chain@.subrange(s as int, s as int) =~= Seq::<CompressionFormat>::empty());
    }
    while i < chain.len()
        invariant
            s <= i <= chain@.len(),
            s == (if chain@[0].spec_is_container() {
                1int
            } else {
                0int
            }),
            spec_chain_shape_ok(chain@),
            acc@ == chain_encoding(chain@.subrange(s as int, i as int), data0),
            chain_decoding(chain@.subrange(s as int, i as int), acc@) == Some(data0),
        decreases chain@.len() - i,
    {
        let ghost pre = chain@.subrange(s as int, i as int);
        let fmt = chain[i];
        let step = compress_format(fmt, acc.as_slice());
        match step {
            Ok(v) => {
                proof {
                    let cur = chain@.subrange(s as int, i + 1);
                    assert(cur.drop_last() =~= pre);
                    assert(cur.last() == fmt);
                }
                acc = v;
            },
            Err(e) => {
                // unreachable: under a well-shaped chain no stage past the
                // innermost is a container
                assert(false);
                return Err(e);
            },
        }
        i = i + 1;
    }
    proof {
        assert(chain@.subrange(s as int, chain@.len() as int) =~= stream_part(chain@));
    }
    Ok(acc)
}

/// What is left when a chain has been peeled as far as byte-stream codecs
/// reach: either plain bytes, or a still-wrapped container stream together
/// with its format, for the caller to materialize.
#[derive(Debug, PartialEq, Eq)]
pub enum Unwrapped {
    Bytes(Vec<u8>),
    Container(CompressionFormat, Vec<u8>),
}

/// Peels a resolved chain from its outermost stage inward, counting one
/// peel per byte-stream stage, and reports what remains:
///
/// - a declared innermost container stops the peeling with the container
///   stream still wrapped, for the caller to materialize;
/// - otherwise the fully peeled bytes are sniffed once more: when their
///   magic names a container format, a container layer the name did not
///   declare remains and is reported; else the bytes are final, with no
///   container wrapper remaining.
///
/// Fails with `InvalidArchive` exactly when some stage rejects its bytes,
/// with `InternalError` on an empty chain, and with `InvalidInput` when a
/// container stands anywhere but innermost — both before any stage runs.
pub fn decompress_chain(chain: &Vec<CompressionFormat>, data: &[u8]) -> (r: Result<
    (usize, Unwrapped),
    Error,
>)
    ensures
        chain@.len() == 0 ==> (r matches Err(e) && e == Error::InternalError),
        chain@.len() >= 1 && !spec_chain_shape_ok(chain@) ==> (r matches Err(e) && e
            == Error::InvalidInput),
        spec_chain_shape_ok(chain@) && chain_decoding(stream_part(chain@), data@) is None ==> (
        r matches Err(e) && e matches Error::InvalidArchive(_)),
        spec_chain_shape_ok(chain@) && chain@[0].spec_is_container() ==> (match chain_decoding(
            stream_part(chain@),
            data@,
        ) {
            Some(v) => r matches Ok((n, u)) && n == chain@.len() - 1 && (
            u matches Unwrapped::Container(f, b) && f == chain@[0] && b@ == v),
            None => true,
        }),
        spec_chain_shape_ok(chain@) && !chain@[0].spec_is_container() ==> (match chain_decoding(
            chain@,
            data@,
        ) {
            Some(v) => r matches Ok((n, u)) && n == chain@.len() && (match sniff_format(v) {
                Some(f) => if f.spec_is_container() {
                    u matches Unwrapped::Container(g, b) && g == f && b@ == v
                } else {
                    u matches Unwrapped::Bytes(b) && b@ == v
                },
                None => u matches Unwrapped::Bytes(b) && b@ == v,
            }),
            None => true,
        }),
{
    if chain.len() == 0 {
        return Err(Error::InternalError);
    }
    if !chain_shape_ok(chain) {
        return Err(Error::InvalidInput);
    }
    let s: usize = if chain[0].is_container() {
        1
    } else {
        0
    };
    let mut acc = vstd::slice::slice_to_vec(data);
    let ghost data0 = data@;
    let mut j: usize = chain.len();
    proof {
        assert(chain@.subrange(chain@.len() as int, chain@.len() as int)
            =~= Seq::<CompressionFormat>::empty());
    }
    while j > s
        invariant
            s <= j <= chain@.len(),
            s == (if chain@[0].spec_is_container() {
                1int
            } else {
                0int
            }),
            spec_chain_shape_ok(chain@),
            data0 == data@,
            chain_decoding(chain@.subrange(j as int, chain@.len() as int), data0) == Some(acc@),
        decreases j,
    {
        let ghost done = chain@.subrange(j as int, chain@.len() as int);
        let fmt = chain[j - 1];
        let step = decompress_format(fmt, acc.as_slice());
        match step {
            Ok(v) => {
                proof {
                    let cur = chain@.subrange(j - 1, chain@.len() as int);
                    let one = chain@.subrange(j - 1, j as int);
                    assert(cur =~= one + done);
                    assert(one.drop_last() =~= Seq::<CompressionFormat>::empty());
                    assert(one.last() == chain@[j - 1]);
                    assert(!chain@[j - 1].spec_is_container());
                    assert(chain_decoding(Seq::<CompressionFormat>::empty(), v@) == Some(v@));
                    assert(decoding_of(chain@[j - 1], acc@) == Some(v@));
                    assert(chain_decoding(one, acc@) == Some(v@));
                    lemma_chain_decoding_append(one, done, data0);
                }
                acc = v;
            },
            Err(e) => {
                proof {
                    let cur = chain@.subrange(j - 1, chain@.len() as int);
                    let one = chain@.subrange(j - 1, j as int);
                    assert(cur =~= one + done);
                    assert(one.drop_last() =~= Seq::<CompressionFormat>::empty());
                    assert(one.last() == chain@[j - 1]);
                    assert(!chain@[j - 1].spec_is_container());
                    assert(decoding_of(chain@[j - 1], acc@) is None);
                    assert(chain_decoding(one, acc@) is None);
                    lemma_chain_decoding_append(one, done, data0);
                    assert(chain_decoding(cur, data0) is None);
                    let rest = chain@.subrange(s as int, j - 1);
                    assert(chain@.subrange(s as int, chain@.len() as int) =~= rest + cur);
                    lemma_chain_decoding_append(rest, cur, data0);
                    assert(chain@.subrange(s as int, chain@.len() as int) =~= stream_part(chain@));
                    assert(chain_decoding(stream_part(chain@), data@) is None);
                }
                return Err(e);
            },
        }
        j = j - 1;
    }
    proof {
        assert(chain@.subrange(s as int, chain@.len() as int) =~= stream_part(chain@));
    }
    if s == 1 {
        let peels = chain.len() - 1;
        return Ok((peels, Unwrapped::Container(chain[0], acc)));
    }
    proof {
        assert(chain@.subrange(0, chain@.len() as int) =~= chain@);
    }
    match sniff(acc.as_slice()) {
        Some(f) => {
            if f.is_container() {
                Ok((chain.len(), Unwrapped::Container(f, acc)))
            } else {
                Ok((chain.len(), Unwrapped::Bytes(acc)))
            }
        },
        None => Ok((chain.len(), Unwrapped::Bytes(acc))),
    }
}

} // verus!
