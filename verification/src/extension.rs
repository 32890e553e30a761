use vstd::prelude::*;

use crate::error::Error;

verus! {

/// The closed set of compression formats the library knows.
///
/// `Tar` and `Zip` are container formats: they aggregate many entries into
/// one stream. The rest are pure byte-stream compressors that turn exactly
/// one stream into one stream.
#[derive(Clone, Copy, Debug, PartialEq, Eq, Structural)]
pub enum CompressionFormat {
    Tar,
    Zip,
    Gzip,
    Bzip,
    Lzma,
    Lz4,
    Zstd,
}

impl CompressionFormat {
    /// Whether this format aggregates multiple entries (so it may only
    /// stand innermost in a chain).
    pub open spec fn spec_is_container(self) -> bool {
        self == CompressionFormat::Tar || self == CompressionFormat::Zip
    }

    pub fn is_container(self) -> (r: bool)
        ensures
            r == self.spec_is_container(),
    {
        match self {
            CompressionFormat::Tar => true,
            CompressionFormat::Zip => true,
            _ => false,
        }
    }

    /// The canonical file-suffix token of this format, as bytes.
    pub open spec fn spec_suffix(self) -> Seq<u8> {
        match self {
            CompressionFormat::Tar => seq![116u8, 97u8, 114u8],
            CompressionFormat::Zip => seq![122u8, 105u8, 112u8],
            CompressionFormat::Gzip => seq![103u8, 122u8],
            CompressionFormat::Bzip => seq![98u8, 122u8, 50u8],
            CompressionFormat::Lzma => seq![120u8, 122u8],
            CompressionFormat::Lz4 => seq![108u8, 122u8, 52u8],
            CompressionFormat::Zstd => seq![122u8, 115u8, 116u8],
        }
    }

    pub fn suffix(self) -> (r: Vec<u8>)
        ensures
            r@ == self.spec_suffix(),
    {
        let r: Vec<u8> = match self {
            CompressionFormat::Tar => vec![116u8, 97u8, 114u8],
            CompressionFormat::Zip => vec![122u8, 105u8, 112u8],
            CompressionFormat::Gzip => vec![103u8, 122u8],
            CompressionFormat::Bzip => vec![98u8, 122u8, 50u8],
            CompressionFormat::Lzma => vec![120u8, 122u8],
            CompressionFormat::Lz4 => vec![108u8, 122u8, 52u8],
            CompressionFormat::Zstd => vec![122u8, 115u8, 116u8],
        };
        proof {
            assert(r@ =~= self.spec_suffix());
        }
        r
    }
}

/// Which format a single dotted suffix token names, if any.
pub open spec fn spec_format_of(t: Seq<u8>) -> Option<CompressionFormat> {
    if t.len() == 3 && t[0] == 116u8 && t[1] == 97u8 && t[2] == 114u8 {
        Some(CompressionFormat::Tar)
    } else if t.len() == 3 && t[0] == 122u8 && t[1] == 105u8 && t[2] == 112u8 {
        Some(CompressionFormat::Zip)
    } else if t.len() == 2 && t[0] == 103u8 && t[1] == 122u8 {
        Some(CompressionFormat::Gzip)
    } else if t.len() == 2 && t[0] == 98u8 && t[1] == 122u8 {
        Some(CompressionFormat::Bzip)
    } else if t.len() == 3 && t[0] == 98u8 && t[1] == 122u8 && t[2] == 50u8 {
        Some(CompressionFormat::Bzip)
    } else if t.len() == 2 && t[0] == 120u8 && t[1] == 122u8 {
        Some(CompressionFormat::Lzma)
    } else if t.len() == 4 && t[0] == 108u8 && t[1] == 122u8 && t[2] == 109u8 && t[3] == 97u8 {
        Some(CompressionFormat::Lzma)
    } else if t.len() == 2 && t[0] == 108u8 && t[1] == 122u8 {
        Some(CompressionFormat::Lzma)
    } else if t.len() == 3 && t[0] == 108u8 && t[1] == 122u8 && t[2] == 52u8 {
        Some(CompressionFormat::Lz4)
    } else if t.len() == 3 && t[0] == 122u8 && t[1] == 115u8 && t[2] == 116u8 {
        Some(CompressionFormat::Zstd)
    } else {
        None
    }
}

/// Maps the token `s[start..end]` to a format through the catalog.
pub fn format_of_token(s: &[u8], start: usize, end: usize) -> (r: Option<CompressionFormat>)
    requires
        start <= end <= s@.len(),
    ensures
        r == spec_format_of(s@.subrange(start as int, end as int)),
{
    proof {
        let t = s@.subrange(start as int, end as int);
        assert(t.len() == end - start);
    }
    let n = end - start;
    if n == 3 && s[start] == 116u8 && s[start + 1] == 97u8 && s[start + 2] == 114u8 {
        Some(CompressionFormat::Tar)
    } else if n == 3 && s[start] == 122u8 && s[start + 1] == 105u8 && s[start + 2] == 112u8 {
        Some(CompressionFormat::Zip)
    } else if n == 2 && s[start] == 103u8 && s[start + 1] == 122u8 {
        Some(CompressionFormat::Gzip)
    } else if n == 2 && s[start] == 98u8 && s[start + 1] == 122u8 {
        Some(CompressionFormat::Bzip)
    } else if n == 3 && s[start] == 98u8 && s[start + 1] == 122u8 && s[start + 2] == 50u8 {
        Some(CompressionFormat::Bzip)
    } else if n == 2 && s[start] == 120u8 && s[start + 1] == 122u8 {
        Some(CompressionFormat::Lzma)
    } else if n == 4 && s[start] == 108u8 && s[start + 1] == 122u8 && s[start + 2] == 109u8
        && s[start + 3] == 97u8 {
        Some(CompressionFormat::Lzma)
    } else if n == 2 && s[start] == 108u8 && s[start + 1] == 122u8 {
        Some(CompressionFormat::Lzma)
    } else if n == 3 && s[start] == 108u8 && s[start + 1] == 122u8 && s[start + 2] == 52u8 {
        Some(CompressionFormat::Lz4)
    } else if n == 3 && s[start] == 122u8 && s[start + 1] == 115u8 && s[start + 2] == 116u8 {
        Some(CompressionFormat::Zstd)
    } else {
        None
    }
}

/// An ordered, non-empty chain of formats read off a filename, together with
/// the suffix text it was read from. Index 0 is the innermost (first-applied)
/// format; the last index is the outermost wrapper.
#[derive(Clone, Debug, PartialEq, Eq)]
pub struct Extension {
    pub formats: Vec<CompressionFormat>,
    pub text: Vec<u8>,
}

impl Extension {
    /// The chain is never empty once constructed.
    pub open spec fn wf(self) -> bool {
        self.formats@.len() >= 1
    }

    pub fn new(formats: Vec<CompressionFormat>, text: Vec<u8>) -> (r: Self)
        requires
            formats@.len() >= 1,
        ensures
            r.formats == formats,
            r.text == text,
            r.wf(),
    {
        Extension { formats, text }
    }
}

/// Index of the last `.` in `s`, or -1 when there is none.
pub open spec fn last_dot(s: Seq<u8>) -> int
    decreases s.len(),
{
    if s.len() == 0 {
        -1
    } else if s[s.len() - 1] == 46u8 {
        s.len() - 1
    } else {
        last_dot(s.drop_last())
    }
}

pub proof fn lemma_last_dot(s: Seq<u8>)
    ensures
        -1 <= last_dot(s) < s.len(),
        last_dot(s) >= 0 ==> s[last_dot(s)] == 46u8,
        forall|j: int| last_dot(s) < j < s.len() ==> s[j] != 46u8,
    decreases s.len(),
{
    if s.len() > 0 && s[s.len() - 1] != 46u8 {
        lemma_last_dot(s.drop_last());
        assert forall|j: int| last_dot(s) < j < s.len() implies s[j] != 46u8 by {
            if j < s.len() - 1 {
                assert(s.drop_last()[j] == s[j]);
            }
        }
    }
}

/// The chain of formats named by the trailing dotted tokens of `s`, in
/// application order (innermost first): tokens are read right to left and
/// the walk stops at the first token that names no format.
pub open spec fn parse_chain(s: Seq<u8>) -> Seq<CompressionFormat>
    decreases s.len(),
{
    let d = last_dot(s);
    if 0 <= d < s.len() {
        match spec_format_of(s.subrange(d + 1, s.len() as int)) {
            Some(f) => parse_chain(s.subrange(0, d)).push(f),
            None => Seq::empty(),
        }
    } else {
        Seq::empty()
    }
}

/// Where in `s` the recognized suffix text begins (just past the dot in
/// front of the innermost recognized token); `s.len()` when nothing matches.
pub open spec fn chain_start(s: Seq<u8>) -> int
    decreases s.len(),
{
    let d = last_dot(s);
    if 0 <= d < s.len() {
        match spec_format_of(s.subrange(d + 1, s.len() as int)) {
            Some(f) => if parse_chain(s.subrange(0, d)).len() > 0 {
                chain_start(s.subrange(0, d))
            } else {
                d + 1
            },
            None => s.len() as int,
        }
    } else {
        s.len() as int
    }
}

/// Index of the last `.` strictly before `end`, scanning `s[..end]`.
fn find_last_dot(s: &[u8], end: usize) -> (r: Option<usize>)
    requires
        end <= s@.len(),
    ensures
        match r {
            Some(d) => d < end && last_dot(s@.subrange(0, end as int)) == d,
            None => last_dot(s@.subrange(0, end as int)) == -1,
        },
{
    proof {
        lemma_last_dot(s@.subrange(0, end as int));
    }
    let ghost p = s@.subrange(0, end as int);
    let mut i: usize = end;
    while i > 0
        invariant
            i <= end <= s@.len(),
            p == s@.subrange(0, end as int),
            forall|j: int| i <= j < end ==> s@[j] != 46u8,
            -1 <= last_dot(p) < end,
            last_dot(p) >= 0 ==> p[last_dot(p)] == 46u8,
            forall|j: int| last_dot(p) < j < end ==> p[j] != 46u8,
        decreases i,
    {
        if s[i - 1] == 46u8 {
            proof {
                assert(p[i - 1] == s@[i - 1]);
                if last_dot(p) > i - 1 {
                    assert(s@[last_dot(p)] == p[last_dot(p)]);
                    assert(false);
                }
                if last_dot(p) < i - 1 {
                    assert(p[i - 1] != 46u8);
                    assert(false);
                }
            }
            return Some(i - 1);
        }
        i = i - 1;
    }
    proof {
        if last_dot(p) >= 0 {
            assert(s@[last_dot(p)] == p[last_dot(p)]);
            assert(false);
        }
    }
    None
}

/// Copies `s[start..end]` into a fresh vector.
fn copy_range(s: &[u8], start: usize, end: usize) -> (r: Vec<u8>)
    requires
        start <= end <= s@.len(),
    ensures
        r@ == s@.subrange(start as int, end as int),
{
    let mut v: Vec<u8> = Vec::new();
    proof {
        assert(v@ =~= s@.subrange(start as int, start as int));
    }
    let mut i: usize = start;
    while i < end
        invariant
            start <= i <= end <= s@.len(),
            v@ == s@.subrange(start as int, i as int),
        decreases end - i,
    {
        v.push(s[i]);
        i = i + 1;
        proof {
            assert(v@ =~= s@.subrange(start as int, i as int));
        }
    }
    v
}

/// Reads the chain of formats off a filename's trailing dotted suffixes.
///
/// The trailing tokens are matched right to left against the catalog and the
/// walk stops at the first unknown token; everything before it is the base
/// name. Fails with `MissingExtensionError` when the name has no dot at all,
/// and with `UnknownExtensionError` when the trailing token names no format.
pub fn parse(filename: &[u8]) -> (r: Result<Extension, Error>)
    ensures
        last_dot(filename@) == -1 ==> (r matches Err(Error::MissingExtensionError(p))
            && p@ == filename@),
        last_dot(filename@) >= 0 && spec_format_of(
            filename@.subrange(last_dot(filename@) + 1, filename@.len() as int),
        ) is None ==> (r matches Err(Error::UnknownExtensionError(t)) && t@ == filename@.subrange(
            last_dot(filename@) + 1,
            filename@.len() as int,
        )),
        last_dot(filename@) >= 0 && spec_format_of(
            filename@.subrange(last_dot(filename@) + 1, filename@.len() as int),
        ) is Some ==> (r matches Ok(ext) && ext.wf() && ext.formats@ == parse_chain(filename@)
            && ext.text@ == filename@.subrange(chain_start(filename@), filename@.len() as int)),
{
    let n = filename.len();
    proof {
        assert(filename@.subrange(0, n as int) =~= filename@);
        lemma_last_dot(filename@);
    }
    let d0 = match find_last_dot(filename, n) {
        None => {
            return Err(Error::MissingExtensionError(copy_range(filename, 0, n)));
        },
        Some(d) => d,
    };
    let f0 = match format_of_token(filename, d0 + 1, n) {
        None => {
            return Err(Error::UnknownExtensionError(copy_range(filename, d0 + 1, n)));
        },
        Some(f) => f,
    };
    let mut fmts: Vec<CompressionFormat> = Vec::new();
    fmts.push(f0);
    let mut end: usize = d0;
    let mut start: usize = d0 + 1;
    proof {
        assert(fmts@ =~= seq![f0]);
        assert(parse_chain(filename@) =~= parse_chain(filename@.subrange(0, end as int)) + fmts@);
        if parse_chain(filename@.subrange(0, end as int)).len() > 0 {
            assert(chain_start(filename@) == chain_start(filename@.subrange(0, end as int)));
        } else {
            assert(chain_start(filename@) == start as int);
        }
    }
    loop
        invariant
            start == end + 1 <= filename@.len(),
            fmts@.len() >= 1,
            parse_chain(filename@) == parse_chain(filename@.subrange(0, end as int)) + fmts@,
            parse_chain(filename@.subrange(0, end as int)).len() > 0 ==> chain_start(filename@)
                == chain_start(filename@.subrange(0, end as int)),
            parse_chain(filename@.subrange(0, end as int)).len() == 0 ==> chain_start(filename@)
                == start as int,
        ensures
            start <= filename@.len(),
            fmts@.len() >= 1,
            parse_chain(filename@) == fmts@,
            chain_start(filename@) == start as int,
        decreases end,
    {
        let ghost p = filename@.subrange(0, end as int);
        let d = match find_last_dot(filename, end) {
            None => {
                proof {
                    assert(parse_chain(p) =~= Seq::<CompressionFormat>::empty());
                    assert(parse_chain(filename@) =~= fmts@);
                }
                break ;
            },
            Some(d) => d,
        };
        let f = match format_of_token(filename, d + 1, end) {
            None => {
                proof {
                    assert(p.subrange(d + 1, p.len() as int) =~= filename@.subrange(
                        d + 1,
                        end as int,
                    ));
                    assert(parse_chain(p) =~= Seq::<CompressionFormat>::empty());
                    assert(parse_chain(filename@) =~= fmts@);
                }
                break ;
            },
            Some(f) => f,
        };
        proof {
            let q = filename@.subrange(0, d as int);
            assert(p.subrange(d + 1, p.len() as int) =~= filename@.subrange(d + 1, end as int));
            assert(p.subrange(0, d as int) =~= q);
            assert(parse_chain(p) == parse_chain(q).push(f));
            assert(parse_chain(q).push(f) + fmts@ =~= parse_chain(q) + fmts@.insert(0, f));
            if parse_chain(q).len() > 0 {
                assert(chain_start(p) == chain_start(q));
            } else {
                assert(chain_start(p) == d + 1);
            }
        }
        fmts.insert(0, f);
        end = d;
        start = d + 1;
    }
    let text = copy_range(filename, start, n);
    Ok(Extension::new(fmts, text))
}

} // verus!
