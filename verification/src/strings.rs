//! Verified text building: decimal and hexadecimal renderings and the
//! ASCII-lossy view of raw bytes, with their exact specifications.

use vstd::prelude::*;
use vstd::string::StringSliceAdditionalSpecFns;

verus! {

/// Relies on String::push: appends the given char onto the end of the string.
#[verifier::external_body]
pub(crate) fn push_char(s: &mut String, c: char)
    ensures
        final(s)@ == old(s)@ + seq![c],
{
    s.push(c)
}

/// The decimal digit character for a value below ten.
pub open spec fn dec_digit(n: nat) -> char
    recommends
        n < 10,
{
    if n == 0 { '0' }
    else if n == 1 { '1' }
    else if n == 2 { '2' }
    else if n == 3 { '3' }
    else if n == 4 { '4' }
    else if n == 5 { '5' }
    else if n == 6 { '6' }
    else if n == 7 { '7' }
    else if n == 8 { '8' }
    else { '9' }
}

/// The decimal rendering of a natural number, without leading zeros
/// (a single `'0'` for zero).
pub open spec fn dec_str(n: nat) -> Seq<char>
    decreases n,
{
    if n < 10 {
        seq![dec_digit(n)]
    } else {
        dec_str(n / 10) + seq![dec_digit(n % 10)]
    }
}

/// The decimal rendering of an integer: a minus sign before the
/// magnitude when it is negative.
pub open spec fn int_str(v: int) -> Seq<char> {
    if v < 0 {
        seq!['-'] + dec_str((-v) as nat)
    } else {
        dec_str(v as nat)
    }
}

fn dec_digit_char(n: u64) -> (c: char)
    requires
        n < 10,
    ensures
        c == dec_digit(n as nat),
{
    (48 + n as u8) as char
}

/// Appends the decimal rendering of `n` to `out`.
pub fn push_dec_u64(out: &mut String, n: u64)
    ensures
        final(out)@ == old(out)@ + dec_str(n as nat),
    decreases n,
{
    if n < 10 {
        push_char(out, dec_digit_char(n));
    } else {
        push_dec_u64(out, n / 10);
        push_char(out, dec_digit_char(n % 10));
        proof {
            assert(final(out)@ =~= old(out)@ + dec_str(n as nat));
        }
    }
}

/// Appends the decimal rendering of a signed value to `out`.
pub fn push_dec_i64(out: &mut String, v: i64)
    ensures
        final(out)@ == old(out)@ + int_str(v as int),
{
    if v < 0 {
        out.append("-");
        let mag: u64 = ((-(v as i128)) as u64);
        push_dec_u64(out, mag);
        proof {
            reveal_strlit("-");
            assert(final(out)@ =~= old(out)@ + int_str(v as int));
        }
    } else {
        push_dec_u64(out, v as u64);
    }
}

/// The lowercase hexadecimal digit character for a value below sixteen.
pub open spec fn hex_digit(n: nat) -> char
    recommends
        n < 16,
{
    if n < 10 {
        dec_digit(n)
    } else if n == 10 { 'a' }
    else if n == 11 { 'b' }
    else if n == 12 { 'c' }
    else if n == 13 { 'd' }
    else if n == 14 { 'e' }
    else { 'f' }
}

/// The lowercase hexadecimal rendering of `n`, zero-padded on the left
/// to at least `w` digits.
pub open spec fn hex_str(n: nat, w: nat) -> Seq<char>
    decreases n, w,
{
    if n < 16 && w <= 1 {
        seq![hex_digit(n)]
    } else {
        hex_str(n / 16, if w == 0 { 0 } else { (w - 1) as nat }) + seq![hex_digit(n % 16)]
    }
}

fn hex_digit_char(n: u64) -> (c: char)
    requires
        n < 16,
    ensures
        c == hex_digit(n as nat),
{
    if n < 10 {
        (48 + n as u8) as char
    } else {
        (87 + n as u8) as char
    }
}

/// Appends the hexadecimal rendering of `n`, zero-padded to at least
/// `w` digits, to `out`.
pub fn push_hex_u64(out: &mut String, n: u64, w: usize)
    ensures
        final(out)@ == old(out)@ + hex_str(n as nat, w as nat),
    decreases n, w,
{
    if n < 16 && w <= 1 {
        push_char(out, hex_digit_char(n));
    } else {
        push_hex_u64(out, n / 16, if w == 0 { 0 } else { w - 1 });
        push_char(out, hex_digit_char(n % 16));
        proof {
            assert(final(out)@ =~= old(out)@ + hex_str(n as nat, w as nat));
        }
    }
}

/// A printable ASCII byte as its character; any other byte as `'.'`.
pub open spec fn lossy_char(b: u8) -> char {
    if 32 <= b && b <= 126 {
        b as char
    } else {
        '.'
    }
}

/// The ASCII-lossy rendering of a byte sequence.
pub open spec fn lossy_str(s: Seq<u8>) -> Seq<char> {
    Seq::new(s.len(), |i: int| lossy_char(s[i]))
}

/// Appends the ASCII-lossy rendering of one byte to `out`.
pub fn push_lossy(out: &mut String, b: u8)
    ensures
        final(out)@ == old(out)@ + seq![lossy_char(b)],
{
    if 32 <= b && b <= 126 {
        push_char(out, b as char);
    } else {
        push_char(out, '.');
    }
}


/// Appends the ASCII-lossy rendering of `data[from..to]` to `out`.
pub fn push_lossy_range(out: &mut String, data: &[u8], from: usize, to: usize)
    requires
        from <= to <= data@.len(),
    ensures
        final(out)@ == old(out)@ + lossy_str(data@.subrange(from as int, to as int)),
{
    let mut i: usize = from;
    proof {
        assert(out@ =~= old(out)@ + lossy_str(data@.subrange(from as int, from as int)));
    }
    while i < to
        invariant
            from <= i <= to <= data@.len(),
            out@ == old(out)@ + lossy_str(data@.subrange(from as int, i as int)),
        decreases to - i,
    {
        push_lossy(out, data[i]);
        proof {
            assert(lossy_str(data@.subrange(from as int, i + 1)) =~= lossy_str(
                data@.subrange(from as int, i as int),
            ) + seq![lossy_char(data@[i as int])]);
            assert(out@ =~= old(out)@ + lossy_str(data@.subrange(from as int, i + 1)));
        }
        i = i + 1;
    }
}


/// Whether two byte slices hold the same bytes.
pub fn bytes_eq(a: &[u8], b: &[u8]) -> (r: bool)
    ensures
        r == (a@ == b@),
{
    if a.len() != b.len() {
        return false;
    }
    let n = a.len();
    let mut i: usize = 0;
    while i < n
        invariant
            n == a@.len() == b@.len(),
            i <= n,
            forall|j: int| 0 <= j < i ==> a@[j] == b@[j],
        decreases n - i,
    {
        if a[i] != b[i] {
            return false;
        }
        i = i + 1;
    }
    proof {
        assert(a@ =~= b@);
    }
    true
}

/// Whether two strings hold the same characters.
pub fn str_eq(a: &str, b: &str) -> (r: bool)
    ensures
        r == (a@ == b@),
{
    let r = bytes_eq(a.as_bytes(), b.as_bytes());
    proof {
        if a.spec_bytes() == b.spec_bytes() {
            vstd::utf8::encode_utf8_decode_utf8(a@);
            vstd::utf8::encode_utf8_decode_utf8(b@);
        }
    }
    r
}

} // verus!
