//! The zero-run second decompression stage: a zero byte is followed
//! by a count byte and expands to that many zeros, every other byte
//! passes through unchanged.

use vstd::prelude::*;

verus! {

use crate::error::Error;

/// One pass of the zero-run expansion starting at offset `i` with the
/// output produced so far.  `None` marks truncated input: a zero byte
/// with no count byte after it.
pub open spec fn spec_rle_from(s: Seq<u8>, i: int, out: Seq<u8>) -> Option<Seq<u8>>
    decreases s.len() - i,
{
    if i < 0 || i >= s.len() {
        Some(out)
    } else if s[i] != 0 {
        spec_rle_from(s, i + 1, out.push(s[i]))
    } else if i + 1 < s.len() {
        spec_rle_from(s, i + 2, out + Seq::new(s[i + 1] as nat, |k: int| 0u8))
    } else {
        None
    }
}

/// The zero-run expansion of a whole byte sequence, or `None` when
/// the sequence ends in a zero byte with no count.
pub open spec fn spec_rle_expand(s: Seq<u8>) -> Option<Seq<u8>> {
    spec_rle_from(s, 0, Seq::empty())
}

/// Expands zero-run-encoded bytes.  A `0` byte is always followed by
/// a count byte and contributes exactly that many `0` bytes; any
/// non-zero byte is copied through unchanged, exactly once.  A `0`
/// byte with no following count byte is truncated input and fails.
pub fn rle_zero_expand(data: &[u8]) -> (res: Result<Vec<u8>, Error>)
    ensures
        match res {
            Ok(v) => spec_rle_expand(data@) == Some(v@),
            Err(e) => spec_rle_expand(data@) is None && e == Error::RleMissingCount,
        },
{
    let n = data.len();
    let mut out: Vec<u8> = Vec::new();
    let mut i: usize = 0;
    while i < n
        invariant
            n == data@.len(),
            i <= data@.len() <= usize::MAX,
            spec_rle_from(data@, i as int, out@) == spec_rle_expand(data@),
        decreases data@.len() - i,
    {
        let value = data[i];
        if value != 0 {
            out.push(value);
            i = i + 1;
        } else if i + 1 < n {
            let count = data[i + 1] as usize;
            let ghost out_before = out@;
            let mut k: usize = 0;
            while k < count
                invariant
                    k <= count,
                    out@ =~= out_before + Seq::new(k as nat, |j: int| 0u8),
                decreases count - k,
            {
                out.push(0);
                proof {
                    assert(out@ =~= out_before + Seq::new((k + 1) as nat, |j: int| 0u8));
                }
                k = k + 1;
            }
            proof {
                assert(out@ =~= out_before + Seq::new(data@[i + 1] as nat, |j: int| 0u8));
            }
            i = i + 2;
        } else {
            return Err(Error::RleMissingCount);
        }
    }
    Ok(out)
}

} // verus!
