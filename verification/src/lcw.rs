//! The LCW decompressor: a back-reference compression stream of
//! variable-length commands, terminated by the sentinel byte `0x80`.
//!
//! A leading zero byte selects relative addressing (back-references
//! count from the current end of the output); any other leading byte
//! is itself the first command and selects absolute addressing
//! (back-references of the long and medium forms count from the start
//! of this decompression buffer).

use vstd::prelude::*;

verus! {

use crate::bytes::spec_le16;
use crate::error::Error;

/// Appends `n` bytes to `out`, read one by one starting at absolute
/// offset `off`.  A read may see bytes appended by this very copy, as
/// an overlapping back-reference requires.
pub open spec fn spec_lcw_copy(out: Seq<u8>, off: int, n: nat) -> Seq<u8>
    decreases n,
{
    if n == 0 {
        out
    } else {
        let p = spec_lcw_copy(out, off, (n - 1) as nat);
        p.push(p[off + n - 1])
    }
}

/// Whether a back-reference of `count` bytes at position `pos` stays
/// inside an output of length `out_len` in the given addressing mode.
pub open spec fn spec_backref_ok(out_len: int, relative: bool, count: int, pos: int) -> bool {
    if relative {
        pos <= out_len && (count == 0 || pos >= 1)
    } else {
        count == 0 || pos < out_len
    }
}

/// The absolute offset a back-reference starts reading from.
pub open spec fn spec_backref_off(out_len: int, relative: bool, pos: int) -> int {
    if relative {
        out_len - pos
    } else {
        pos
    }
}

/// Decodes LCW commands from offset `i` onward, given the output
/// produced so far.  `Ok((out, end))` is the complete output and the
/// offset just past the terminator; a stream that runs out of bytes
/// fails as truncated, and a back-reference that leaves the output
/// produced so far fails with the bounds error.
pub open spec fn spec_lcw_from(s: Seq<u8>, i: int, out: Seq<u8>, relative: bool) -> Result<
    (Seq<u8>, int),
    Error,
>
    decreases s.len() - i,
{
    if i < 0 || i >= s.len() {
        Err(Error::UnexpectedEndOfInput)
    } else {
        let cmd = s[i];
        if cmd == 0x80 {
            // terminator
            Ok((out, i + 1))
        } else if cmd & 0xc0 == 0x80 {
            // short literal copy
            let count = (cmd & 0x3f) as int;
            if i + 1 + count <= s.len() {
                spec_lcw_from(s, i + 1 + count, out + s.subrange(i + 1, i + 1 + count), relative)
            } else {
                Err(Error::UnexpectedEndOfInput)
            }
        } else if cmd & 0x80 == 0 {
            // short back-reference, always relative to the end of the
            // output; position 1 repeats the last output byte
            if i + 2 <= s.len() {
                let count = ((cmd & 0x70) >> 4) + 3;
                let pos = (cmd & 0x0f) * 256 + s[i + 1];
                if spec_backref_ok(out.len() as int, true, count as int, pos as int) {
                    spec_lcw_from(
                        s,
                        i + 2,
                        spec_lcw_copy(
                            out,
                            spec_backref_off(out.len() as int, true, pos as int),
                            count as nat,
                        ),
                        relative,
                    )
                } else {
                    Err(Error::LcwOutOfBounds)
                }
            } else {
                Err(Error::UnexpectedEndOfInput)
            }
        } else if cmd == 0xfe {
            // run: a value repeated count times
            if i + 4 <= s.len() {
                let count = spec_le16(s, i + 1);
                let value = s[i + 3];
                spec_lcw_from(s, i + 4, out + Seq::new(count as nat, |k: int| value), relative)
            } else {
                Err(Error::UnexpectedEndOfInput)
            }
        } else if cmd == 0xff {
            // long back-reference, in the stream's addressing mode
            if i + 5 <= s.len() {
                let count = spec_le16(s, i + 1);
                let pos = spec_le16(s, i + 3);
                if spec_backref_ok(out.len() as int, relative, count, pos) {
                    spec_lcw_from(
                        s,
                        i + 5,
                        spec_lcw_copy(
                            out,
                            spec_backref_off(out.len() as int, relative, pos),
                            count as nat,
                        ),
                        relative,
                    )
                } else {
                    Err(Error::LcwOutOfBounds)
                }
            } else {
                Err(Error::UnexpectedEndOfInput)
            }
        } else {
            // medium back-reference, in the stream's addressing mode
            if i + 3 <= s.len() {
                let count = (cmd & 0x3f) + 3;
                let pos = spec_le16(s, i + 1);
                if spec_backref_ok(out.len() as int, relative, count as int, pos) {
                    spec_lcw_from(
                        s,
                        i + 3,
                        spec_lcw_copy(
                            out,
                            spec_backref_off(out.len() as int, relative, pos),
                            count as nat,
                        ),
                        relative,
                    )
                } else {
                    Err(Error::LcwOutOfBounds)
                }
            } else {
                Err(Error::UnexpectedEndOfInput)
            }
        }
    }
}

/// The decompression of the block that starts at `start`: a leading
/// zero byte selects relative addressing and is consumed, any other
/// leading byte is left in place and selects absolute addressing.
pub open spec fn spec_lcw_decode(s: Seq<u8>, start: int) -> Result<(Seq<u8>, int), Error> {
    if 0 <= start < s.len() {
        if s[start] == 0 {
            spec_lcw_from(s, start + 1, Seq::empty(), true)
        } else {
            spec_lcw_from(s, start, Seq::empty(), false)
        }
    } else {
        Err(Error::UnexpectedEndOfInput)
    }
}

fn backref_ok(out_len: usize, relative: bool, count: usize, pos: usize) -> (b: bool)
    ensures
        b == spec_backref_ok(out_len as int, relative, count as int, pos as int),
{
    if relative {
        pos <= out_len && (count == 0 || pos >= 1)
    } else {
        count == 0 || pos < out_len
    }
}

fn append_copy(out: &mut Vec<u8>, off: usize, count: usize)
    requires
        count == 0 || off < old(out)@.len(),
    ensures
        final(out)@ == spec_lcw_copy(old(out)@, off as int, count as nat),
{
    let mut k: usize = 0;
    while k < count
        invariant
            k <= count,
            count == 0 || off < old(out)@.len(),
            out@.len() == old(out)@.len() + k,
            out@ == spec_lcw_copy(old(out)@, off as int, k as nat),
        decreases count - k,
    {
        let cur_len = out.len();
        assert(off + k < cur_len);
        let b = out[off + k];
        out.push(b);
        k = k + 1;
    }
}

/// Decompresses the LCW block that starts at offset `start` of
/// `data`.  On success returns the decompressed bytes and the offset
/// just past the block's terminator.  A back-reference that reads
/// before the start of the output or past its current end fails with
/// a bounds error; a command that runs past the end of the input
/// fails as truncated.
pub fn lcw_decode(data: &[u8], start: usize) -> (res: Result<(Vec<u8>, usize), Error>)
    ensures
        match res {
            Ok((v, end)) => spec_lcw_decode(data@, start as int) == Ok::<(Seq<u8>, int), Error>(
                (v@, end as int),
            ),
            Err(e) => spec_lcw_decode(data@, start as int) == Err::<(Seq<u8>, int), Error>(e),
        },
{
    if start >= data.len() {
        return Err(Error::UnexpectedEndOfInput);
    }
    let relative = data[start] == 0;
    let mut i: usize = if relative {
        start + 1
    } else {
        start
    };
    let mut out: Vec<u8> = Vec::new();
    loop
        invariant
            i <= data@.len() <= usize::MAX,
            spec_lcw_from(data@, i as int, out@, relative) == spec_lcw_decode(
                data@,
                start as int,
            ),
        decreases data@.len() - i,
    {
        if i >= data.len() {
            return Err(Error::UnexpectedEndOfInput);
        }
        let cmd = data[i];
        if cmd == 0x80 {
            return Ok((out, i + 1));
        } else if cmd & 0xc0 == 0x80 {
            let count = (cmd & 0x3f) as usize;
            if count > data.len() - (i + 1) {
                return Err(Error::UnexpectedEndOfInput);
            }
            let ghost out_before = out@;
            let mut k: usize = 0;
            while k < count
                invariant
                    k <= count,
                    i + 1 + count <= data@.len() <= usize::MAX,
                    out@ =~= out_before + data@.subrange(i + 1, i + 1 + k as int),
                decreases count - k,
            {
                out.push(data[i + 1 + k]);
                proof {
                    assert(out@ =~= out_before + data@.subrange(i + 1, i + 1 + (k + 1)));
                }
                k = k + 1;
            }
            i = i + 1 + count;
        } else if cmd & 0x80 == 0 {
            if data.len() - i < 2 {
                return Err(Error::UnexpectedEndOfInput);
            }
            let count = ((cmd & 0x70) >> 4) as usize + 3;
            let pos = ((cmd & 0x0f) as usize) * 256 + data[i + 1] as usize;
            if !backref_ok(out.len(), true, count, pos) {
                return Err(Error::LcwOutOfBounds);
            }
            let off = out.len() - pos;
            append_copy(&mut out, off, count);
            i = i + 2;
        } else if cmd == 0xfe {
            if data.len() - i < 4 {
                return Err(Error::UnexpectedEndOfInput);
            }
            let count = crate::bytes::le16_at(data, i + 1) as usize;
            let value = data[i + 3];
            let ghost out_before = out@;
            let mut k: usize = 0;
            while k < count
                invariant
                    k <= count,
                    out@ =~= out_before + Seq::new(k as nat, |j: int| value),
                decreases count - k,
            {
                out.push(value);
                proof {
                    assert(out@ =~= out_before + Seq::new((k + 1) as nat, |j: int| value));
                }
                k = k + 1;
            }
            i = i + 4;
        } else if cmd == 0xff {
            if data.len() - i < 5 {
                return Err(Error::UnexpectedEndOfInput);
            }
            let count = crate::bytes::le16_at(data, i + 1) as usize;
            let pos = crate::bytes::le16_at(data, i + 3) as usize;
            if !backref_ok(out.len(), relative, count, pos) {
                return Err(Error::LcwOutOfBounds);
            }
            let off = if relative {
                out.len() - pos
            } else {
                pos
            };
            append_copy(&mut out, off, count);
            i = i + 5;
        } else {
            if data.len() - i < 3 {
                return Err(Error::UnexpectedEndOfInput);
            }
            let count = (cmd & 0x3f) as usize + 3;
            let pos = crate::bytes::le16_at(data, i + 1) as usize;
            if !backref_ok(out.len(), relative, count, pos) {
                return Err(Error::LcwOutOfBounds);
            }
            let off = if relative {
                out.len() - pos
            } else {
                pos
            };
            append_copy(&mut out, off, count);
            i = i + 3;
        }
    }
}

} // verus!
