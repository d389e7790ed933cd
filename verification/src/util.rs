//! Range reading and hex dumping over byte buffers.

use vstd::prelude::*;

use crate::parser::ParseError;
use crate::strings::{hex_str, lossy_char, lossy_str, push_char, push_hex_u64, push_lossy};

verus! {

/// Reads exactly `len` bytes at absolute offset `offset` of `data`,
/// failing if fewer are available.
pub fn read_slice(data: &[u8], offset: u64, len: u64) -> (r: Result<Vec<u8>, ParseError>)
    ensures
        match r {
            Ok(v) => {
                &&& offset + len <= data@.len()
                &&& v@ == data@.subrange(offset as int, offset as int + len as int)
            },
            Err(e) => {
                &&& offset + len > data@.len()
                &&& e == ParseError::Truncated
            },
        },
{
    let dlen: u64 = data.len() as u64;
    if offset > dlen || len > dlen - offset {
        return Err(ParseError::Truncated);
    }
    let a = offset as usize;
    let b = (offset + len) as usize;
    let s = vstd::slice::slice_subrange(data, a, b);
    Ok(vstd::slice::slice_to_vec(s))
}

/// One dump line's column of hex byte pairs, a space after each.
pub open spec fn hex_col(s: Seq<u8>) -> Seq<char>
    decreases s.len(),
{
    if s.len() == 0 {
        Seq::empty()
    } else {
        hex_str(s[0] as nat, 2) + seq![' '] + hex_col(s.drop_first())
    }
}

proof fn lemma_hex_col_snoc(s: Seq<u8>, x: u8)
    ensures
        hex_col(s.push(x)) == hex_col(s) + hex_str(x as nat, 2) + seq![' '],
    decreases s.len(),
{
    let sb = s.push(x);
    if s.len() == 0 {
        assert(sb[0] == x);
        assert(sb.drop_first() =~= Seq::<u8>::empty());
        assert(hex_col(Seq::<u8>::empty()) =~= Seq::<char>::empty());
        assert(hex_col(sb) =~= hex_col(s) + hex_str(x as nat, 2) + seq![' ']);
    } else {
        assert(sb[0] == s[0]);
        assert(sb.drop_first() =~= s.drop_first().push(x));
        lemma_hex_col_snoc(s.drop_first(), x);
        assert(hex_col(sb) =~= hex_col(s) + hex_str(x as nat, 2) + seq![' ']);
    }
}

/// A run of spaces.
pub open spec fn spaces(n: int) -> Seq<char> {
    Seq::new(if n < 0 {
        0
    } else {
        n as nat
    }, |i: int| ' ')
}

/// One line of the dump: the offset as eight hex digits, the hex
/// column padded to 48 characters, and the printable rendering of the
/// same bytes between bars.
pub open spec fn hex_line(chunk: Seq<u8>, offs: int) -> Seq<char> {
    hex_str(offs as nat, 8) + "  "@ + hex_col(chunk) + spaces(48 - 3 * chunk.len()) + "  |"@
        + lossy_str(chunk) + "|\n"@
}

/// The dump of `s`, sixteen bytes to a line, offsets starting at
/// `start`.
pub open spec fn hex_dump_str(s: Seq<u8>, start: int) -> Seq<char>
    decreases s.len(),
{
    if s.len() == 0 {
        Seq::empty()
    } else {
        let c = if s.len() < 16 {
            s.len() as int
        } else {
            16int
        };
        hex_line(s.take(c), start) + hex_dump_str(s.skip(c), start + 16)
    }
}

/// Renders `bytes` as a hex dump with ASCII sidebar, the first byte
/// labelled with offset `start_offset`.
#[verifier::rlimit(80)]
pub fn hex_dump(bytes: &[u8], start_offset: u64) -> (r: String)
    requires
        start_offset + bytes@.len() <= u64::MAX,
    ensures
        r@ == hex_dump_str(bytes@, start_offset as int),
{
    let mut out = String::new();
    let blen = bytes.len();
    let mut pos: usize = 0;
    proof {
        assert(bytes@.skip(0) =~= bytes@);
    }
    while pos < blen
        invariant
            blen == bytes@.len(),
            start_offset + bytes@.len() <= u64::MAX,
            pos <= blen,
            hex_dump_str(bytes@, start_offset as int) == out@ + hex_dump_str(
                bytes@.skip(pos as int),
                start_offset + pos,
            ),
        decreases blen - pos,
    {
        let c: usize = if blen - pos < 16 {
            blen - pos
        } else {
            16
        };
        let offs: u64 = start_offset + pos as u64;
        let ghost chunk = bytes@.subrange(pos as int, pos + c);
        let ghost line_start = out@;
        push_hex_u64(&mut out, offs, 8);
        out.append("  ");
        let mut j: usize = 0;
        proof {
            assert(chunk.take(0) =~= Seq::<u8>::empty());
        }
        while j < c
            invariant
                pos + c <= blen,
                blen == bytes@.len(),
                j <= c,
                chunk == bytes@.subrange(pos as int, pos + c),
                out@ == line_start + hex_str(offs as nat, 8) + "  "@ + hex_col(
                    chunk.take(j as int),
                ),
            decreases c - j,
        {
            push_hex_u64(&mut out, bytes[pos + j] as u64, 2);
            push_char(&mut out, ' ');
            proof {
                assert(chunk.take(j as int).push(bytes@[pos + j]) =~= chunk.take(j + 1));
                lemma_hex_col_snoc(chunk.take(j as int), bytes@[pos + j]);
                assert(out@ =~= line_start + hex_str(offs as nat, 8) + "  "@ + hex_col(
                    chunk.take(j + 1),
                ));
            }
            j = j + 1;
        }
        proof {
            assert(chunk.take(c as int) =~= chunk);
            assert(spaces(0) =~= Seq::<char>::empty());
            assert(out@ =~= line_start + hex_str(offs as nat, 8) + "  "@ + hex_col(chunk) + spaces(
                0,
            ));
        }
        let mut k: usize = 3 * c;
        while k < 48
            invariant
                3 * c <= k <= 48,
                out@ == line_start + hex_str(offs as nat, 8) + "  "@ + hex_col(chunk) + spaces(
                    (k - 3 * c) as int,
                ),
            decreases 48 - k,
        {
            push_char(&mut out, ' ');
            proof {
                assert(spaces((k - 3 * c) as int).push(' ') =~= spaces((k + 1 - 3 * c) as int));
                assert(out@ =~= line_start + hex_str(offs as nat, 8) + "  "@ + hex_col(chunk)
                    + spaces((k + 1 - 3 * c) as int));
            }
            k = k + 1;
        }
        out.append("  |");
        let mut j2: usize = 0;
        proof {
            assert(lossy_str(chunk.take(0)) =~= Seq::<char>::empty());
        }
        while j2 < c
            invariant
                pos + c <= blen,
                blen == bytes@.len(),
                j2 <= c,
                chunk == bytes@.subrange(pos as int, pos + c),
                out@ == line_start + hex_str(offs as nat, 8) + "  "@ + hex_col(chunk) + spaces(
                    48 - 3 * chunk.len(),
                ) + "  |"@ + lossy_str(chunk.take(j2 as int)),
            decreases c - j2,
        {
            push_lossy(&mut out, bytes[pos + j2]);
            proof {
                assert(lossy_str(chunk.take(j2 + 1)) =~= lossy_str(chunk.take(j2 as int)) + seq![
                    lossy_char(bytes@[pos + j2]),
                ]);
                assert(out@ =~= line_start + hex_str(offs as nat, 8) + "  "@ + hex_col(chunk)
                    + spaces(48 - 3 * chunk.len()) + "  |"@ + lossy_str(chunk.take(j2 + 1)));
            }
            j2 = j2 + 1;
        }
        out.append("|\n");
        proof {
            assert(chunk.take(c as int) =~= chunk);
            assert(out@ =~= line_start + hex_line(chunk, offs as int));
            let rest = bytes@.skip(pos as int);
            assert(rest.take(c as int) =~= chunk);
            assert(rest.skip(c as int) =~= bytes@.skip(pos + c));
            assert(hex_dump_str(rest, offs as int) == hex_line(chunk, offs as int) + hex_dump_str(
                bytes@.skip(pos + c),
                offs + 16,
            ));
            assert(out@ + hex_dump_str(bytes@.skip(pos + c), offs + 16) =~= line_start + (hex_line(
                chunk,
                offs as int,
            ) + hex_dump_str(bytes@.skip(pos + c), offs + 16)));
        }
        pos = pos + c;
    }
    proof {
        assert(bytes@.skip(pos as int) =~= Seq::<u8>::empty());
        assert(out@ + Seq::<char>::empty() =~= out@);
    }
    out
}

} // verus!
