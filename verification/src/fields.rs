//! Parsers for the `name=value` fields of decoded box text, as the
//! inspection tools consume it.

use vstd::prelude::*;

use vstd::string::StringSliceAdditionalSpecFns;
use vstd::utf8::{decode_utf8, valid_utf8};

verus! {

/// Relies on String::from_utf8: succeeds exactly on valid UTF-8 bytes
/// and returns the string those bytes encode.
#[verifier::external_body]
fn string_from_utf8(v: Vec<u8>) -> (r: Option<String>)
    ensures
        match r {
            Some(s) => valid_utf8(v@) && s@ == decode_utf8(v@),
            None => !valid_utf8(v@),
        },
{
    match String::from_utf8(v) {
        Ok(s) => Some(s),
        Err(_) => None,
    }
}

/// The first position where `key` occurs as a contiguous run of `s`.
pub open spec fn find_sub(s: Seq<u8>, key: Seq<u8>) -> Option<int>
    decreases s.len(),
{
    if key.len() > s.len() {
        None
    } else if s.take(key.len() as int) == key {
        Some(0)
    } else if s.len() == 0 {
        None
    } else {
        match find_sub(s.drop_first(), key) {
            Some(i) => Some(i + 1),
            None => None,
        }
    }
}

/// Finds the first occurrence of `key` in `s`, by bytes.
fn find_sub_bytes(s: &[u8], key: &[u8]) -> (r: Option<usize>)
    ensures
        match r {
            Some(i) => find_sub(s@, key@) == Some(i as int) && i + key@.len() <= s@.len(),
            None => find_sub(s@, key@) is None,
        },
{
    let slen = s.len();
    let klen = key.len();
    if klen > slen {
        return None;
    }
    if klen == 0 {
        proof {
            assert(s@.take(0) =~= key@);
        }
        return Some(0);
    }
    let mut i: usize = 0;
    proof {
        assert(s@.skip(0) =~= s@);
    }
    while i <= slen - klen
        invariant
            1 <= klen <= slen,
            slen == s@.len(),
            klen == key@.len(),
            i <= slen - klen + 1,
            (match find_sub(s@.skip(i as int), key@) {
                Some(j) => find_sub(s@, key@) == Some(i + j),
                None => find_sub(s@, key@) is None,
            }),
        decreases slen - i,
    {
        let w = vstd::slice::slice_subrange(s, i, i + klen);
        proof {
            assert(s@.skip(i as int).take(klen as int) =~= s@.subrange(i as int, i + klen));
        }
        if crate::strings::bytes_eq(w, key) {
            return Some(i);
        }
        proof {
            assert(s@.skip(i as int).drop_first() =~= s@.skip(i as int + 1));
        }
        i = i + 1;
    }
    proof {
        assert(s@.skip(i as int).len() < key@.len());
    }
    None
}

/// Whether a byte is an ASCII decimal digit.
pub open spec fn is_digit(b: u8) -> bool {
    48 <= b <= 57
}

/// The end of the run of digit bytes that begins at `i`.
pub open spec fn digits_end(s: Seq<u8>, i: int) -> int
    decreases s.len() - i,
{
    if 0 <= i < s.len() && is_digit(s[i]) {
        digits_end(s, i + 1)
    } else {
        i
    }
}

proof fn lemma_digits_end_range(s: Seq<u8>, i: int)
    requires
        0 <= i <= s.len(),
    ensures
        i <= digits_end(s, i) <= s.len(),
        forall|k: int| i <= k < digits_end(s, i) ==> is_digit(#[trigger] s[k]),
    decreases s.len() - i,
{
    if i < s.len() && is_digit(s[i]) {
        lemma_digits_end_range(s, i + 1);
    }
}

/// The value of a run of decimal digit bytes.
pub open spec fn dec_val(ds: Seq<u8>) -> int
    decreases ds.len(),
{
    if ds.len() == 0 {
        0
    } else {
        dec_val(ds.drop_last()) * 10 + (ds.last() - 48)
    }
}

proof fn lemma_dec_val_nonneg(ds: Seq<u8>)
    requires
        forall|j: int| 0 <= j < ds.len() ==> is_digit(#[trigger] ds[j]),
    ensures
        dec_val(ds) >= 0,
    decreases ds.len(),
{
    if ds.len() > 0 {
        lemma_dec_val_nonneg(ds.drop_last());
    }
}

proof fn lemma_dec_val_grow(ds: Seq<u8>, j: int)
    requires
        0 <= j <= ds.len(),
        forall|k: int| 0 <= k < ds.len() ==> is_digit(#[trigger] ds[k]),
    ensures
        dec_val(ds.take(j)) <= dec_val(ds),
    decreases ds.len() - j,
{
    if j < ds.len() {
        lemma_dec_val_grow(ds, j + 1);
        assert(ds.take(j + 1).drop_last() =~= ds.take(j));
        assert(forall|k: int| 0 <= k < ds.take(j).len() ==> is_digit(#[trigger] ds.take(j)[k]));
        lemma_dec_val_nonneg(ds.take(j));
        assert(dec_val(ds.take(j)) <= dec_val(ds.take(j + 1))) by (nonlinear_arith)
            requires
                dec_val(ds.take(j + 1)) == dec_val(ds.take(j)) * 10 + (ds.take(j + 1).last() - 48),
                is_digit(ds.take(j + 1).last()),
                dec_val(ds.take(j)) >= 0,
        ;
    } else {
        assert(ds.take(j) =~= ds);
    }
}

/// The number parsed after `key`: the value of the digit run that
/// begins right after the first occurrence of `key`, when that run is
/// non-empty and the value fits 64 bits.
pub open spec fn spec_parse_u64_field(s: Seq<u8>, key: Seq<u8>) -> Option<u64> {
    match find_sub(s, key) {
        None => None,
        Some(i) => {
            let start = i + key.len();
            let e = digits_end(s, start);
            let ds = s.subrange(start, e);
            if ds.len() == 0 || dec_val(ds) > u64::MAX {
                None
            } else {
                Some(dec_val(ds) as u64)
            }
        },
    }
}

/// Parses the decimal number that follows `key` in `s`: digits are
/// taken as long as they last, and a run that is missing, empty or too
/// large for 64 bits yields nothing.
#[verifier::loop_isolation(false)]
pub fn parse_u64_field(s: &str, key: &str) -> (r: Option<u64>)
    ensures
        r == spec_parse_u64_field(s.spec_bytes(), key.spec_bytes()),
{
    let sb = s.as_bytes();
    let kb = key.as_bytes();
    let i = match find_sub_bytes(sb, kb) {
        Some(i) => i,
        None => {
            return None;
        },
    };
    let slen = sb.len();
    let start = i + kb.len();
    let mut e: usize = start;
    while e < slen && 48 <= sb[e] && sb[e] <= 57
        invariant
            start <= e <= slen,
            digits_end(sb@, start as int) == digits_end(sb@, e as int),
        decreases slen - e,
    {
        e = e + 1;
    }
    proof {
        assert(digits_end(sb@, e as int) == e);
        lemma_digits_end_range(sb@, start as int);
    }
    if e == start {
        return None;
    }
    let ghost ds = sb@.subrange(start as int, e as int);
    let mut val: u64 = 0;
    let mut j: usize = start;
    proof {
        assert(sb@.subrange(start as int, start as int) =~= Seq::<u8>::empty());
    }
    while j < e
        invariant
            start <= j <= e <= slen,
            val == dec_val(sb@.subrange(start as int, j as int)),
        decreases e - j,
    {
        let d = sb[j];
        let nv: u128 = (val as u128) * 10 + ((d - 48) as u128);
        proof {
            assert(sb@.subrange(start as int, j + 1).drop_last() =~= sb@.subrange(
                start as int,
                j as int,
            ));
        }
        if nv > u64::MAX as u128 {
            proof {
                assert forall|k: int| 0 <= k < ds.len() implies is_digit(#[trigger] ds[k]) by {
                    assert(ds[k] == sb@[start + k]);
                }
                assert(ds.take(j + 1 - start) =~= sb@.subrange(start as int, j + 1));
                lemma_dec_val_grow(ds, j + 1 - start);
            }
            return None;
        }
        val = (nv as u64);
        j = j + 1;
    }
    proof {
        assert(sb@.subrange(start as int, e as int) == ds);
    }
    Some(val)
}

/// Parses the decimal number that follows `key` when it fits 32 bits.
pub fn parse_u32_field(s: &str, key: &str) -> (r: Option<u32>)
    ensures
        r == (match spec_parse_u64_field(s.spec_bytes(), key.spec_bytes()) {
            Some(v) => if v <= u32::MAX {
                Some(v as u32)
            } else {
                None::<u32>
            },
            None => None::<u32>,
        }),
{
    match parse_u64_field(s, key) {
        Some(v) => {
            if v <= u32::MAX as u64 {
                Some(v as u32)
            } else {
                None
            }
        },
        None => None,
    }
}


/// Whether a byte is ASCII whitespace.
pub open spec fn is_ws(b: u8) -> bool {
    b == 32 || (9 <= b <= 13)
}

/// The end of the run of whitespace bytes that begins at `i`.
pub open spec fn ws_end(s: Seq<u8>, i: int) -> int
    decreases s.len() - i,
{
    if 0 <= i < s.len() && is_ws(s[i]) {
        ws_end(s, i + 1)
    } else {
        i
    }
}

/// The end of the run of non-whitespace bytes that begins at `i`.
pub open spec fn token_end(s: Seq<u8>, i: int) -> int
    decreases s.len() - i,
{
    if 0 <= i < s.len() && !is_ws(s[i]) {
        token_end(s, i + 1)
    } else {
        i
    }
}

/// The sequence with its leading double-quote bytes removed.
pub open spec fn strip_lead_quotes(s: Seq<u8>) -> Seq<u8>
    decreases s.len(),
{
    if s.len() > 0 && s[0] == 34 {
        strip_lead_quotes(s.drop_first())
    } else {
        s
    }
}

/// The sequence with its trailing double-quote bytes removed.
pub open spec fn strip_trail_quotes(s: Seq<u8>) -> Seq<u8>
    decreases s.len(),
{
    if s.len() > 0 && s.last() == 34 {
        strip_trail_quotes(s.drop_last())
    } else {
        s
    }
}

/// The sequence with its leading whitespace bytes removed.
pub open spec fn strip_lead_ws(s: Seq<u8>) -> Seq<u8>
    decreases s.len(),
{
    if s.len() > 0 && is_ws(s[0]) {
        strip_lead_ws(s.drop_first())
    } else {
        s
    }
}

/// The sequence with its trailing whitespace bytes removed.
pub open spec fn strip_trail_ws(s: Seq<u8>) -> Seq<u8>
    decreases s.len(),
{
    if s.len() > 0 && is_ws(s.last()) {
        strip_trail_ws(s.drop_last())
    } else {
        s
    }
}

/// A list element cleaned as the brand parser does: whitespace
/// trimmed from both ends, then quote characters.
pub open spec fn clean_token(s: Seq<u8>) -> Seq<u8> {
    strip_trail_quotes(strip_lead_quotes(strip_trail_ws(strip_lead_ws(s))))
}

/// Trims `[lo, hi)` of `s`: whitespace off both ends, then quotes.
#[verifier::loop_isolation(false)]
fn clean_range(s: &[u8], lo: usize, hi: usize) -> (r: (usize, usize))
    requires
        lo <= hi <= s@.len(),
    ensures
        lo <= r.0 <= r.1 <= hi,
        s@.subrange(r.0 as int, r.1 as int) == clean_token(s@.subrange(lo as int, hi as int)),
{
    let mut a = lo;
    let mut b = hi;
    proof {
        assert(strip_lead_ws(s@.subrange(lo as int, hi as int)) == strip_lead_ws(
            s@.subrange(a as int, b as int),
        ));
    }
    while a < b && (s[a] == 32 || (9 <= s[a] && s[a] <= 13))
        invariant
            lo <= a <= b <= hi,
            strip_lead_ws(s@.subrange(lo as int, hi as int)) == strip_lead_ws(
                s@.subrange(a as int, b as int),
            ),
        decreases b - a,
    {
        proof {
            assert(s@.subrange(a as int, b as int).drop_first() =~= s@.subrange(a + 1, b as int));
        }
        a = a + 1;
    }
    proof {
        assert(strip_lead_ws(s@.subrange(a as int, b as int)) == s@.subrange(a as int, b as int));
    }
    let ghost after_lead_ws = s@.subrange(a as int, b as int);
    while a < b && (s[b - 1] == 32 || (9 <= s[b - 1] && s[b - 1] <= 13))
        invariant
            lo <= a <= b <= hi,
            strip_trail_ws(after_lead_ws) == strip_trail_ws(s@.subrange(a as int, b as int)),
        decreases b,
    {
        proof {
            assert(s@.subrange(a as int, b as int).drop_last() =~= s@.subrange(a as int, b - 1));
        }
        b = b - 1;
    }
    proof {
        assert(strip_trail_ws(s@.subrange(a as int, b as int)) == s@.subrange(a as int, b as int));
    }
    let ghost after_ws = s@.subrange(a as int, b as int);
    while a < b && s[a] == 34
        invariant
            lo <= a <= b <= hi,
            strip_lead_quotes(after_ws) == strip_lead_quotes(s@.subrange(a as int, b as int)),
        decreases b - a,
    {
        proof {
            assert(s@.subrange(a as int, b as int).drop_first() =~= s@.subrange(a + 1, b as int));
        }
        a = a + 1;
    }
    proof {
        assert(strip_lead_quotes(s@.subrange(a as int, b as int)) == s@.subrange(
            a as int,
            b as int,
        ));
    }
    let ghost after_lq = s@.subrange(a as int, b as int);
    while a < b && s[b - 1] == 34
        invariant
            lo <= a <= b <= hi,
            strip_trail_quotes(after_lq) == strip_trail_quotes(s@.subrange(a as int, b as int)),
        decreases b,
    {
        proof {
            assert(s@.subrange(a as int, b as int).drop_last() =~= s@.subrange(a as int, b - 1));
        }
        b = b - 1;
    }
    proof {
        assert(strip_trail_quotes(s@.subrange(a as int, b as int)) == s@.subrange(
            a as int,
            b as int,
        ));
    }
    (a, b)
}

/// The cleaned token parsed after `key`: the non-whitespace run that
/// follows the first occurrence of `key` (leading whitespace skipped),
/// with surrounding quote characters trimmed; nothing when the run is
/// empty.
pub open spec fn spec_parse_string_field(s: Seq<u8>, key: Seq<u8>) -> Option<Seq<u8>> {
    match find_sub(s, key) {
        None => None,
        Some(i) => {
            let start = ws_end(s, i + key.len());
            let e = token_end(s, start);
            if e == start {
                None
            } else {
                Some(strip_trail_quotes(strip_lead_quotes(s.subrange(start, e))))
            }
        },
    }
}

/// Parses the token that follows `key` in `s`: leading whitespace is
/// skipped, the token runs to the next whitespace or the end, and
/// surrounding quotes are trimmed. An empty token yields nothing.
#[verifier::loop_isolation(false)]
pub fn parse_string_field(s: &str, key: &str) -> (r: Option<String>)
    ensures
        match spec_parse_string_field(s.spec_bytes(), key.spec_bytes()) {
            None => r is None,
            Some(tb) => match r {
                Some(out) => valid_utf8(tb) && out@ == decode_utf8(tb),
                None => !valid_utf8(tb),
            },
        },
{
    let sb = s.as_bytes();
    let kb = key.as_bytes();
    let i = match find_sub_bytes(sb, kb) {
        Some(i) => i,
        None => {
            return None;
        },
    };
    let slen = sb.len();
    let mut start: usize = i + kb.len();
    while start < slen && (sb[start] == 32 || (9 <= sb[start] && sb[start] <= 13))
        invariant
            i + kb@.len() <= start <= slen,
            ws_end(sb@, i + kb@.len()) == ws_end(sb@, start as int),
        decreases slen - start,
    {
        start = start + 1;
    }
    proof {
        assert(ws_end(sb@, start as int) == start);
    }
    let mut e: usize = start;
    while e < slen && !(sb[e] == 32 || (9 <= sb[e] && sb[e] <= 13))
        invariant
            start <= e <= slen,
            token_end(sb@, start as int) == token_end(sb@, e as int),
        decreases slen - e,
    {
        e = e + 1;
    }
    proof {
        assert(token_end(sb@, e as int) == e);
    }
    if e == start {
        return None;
    }
    let mut a: usize = start;
    let mut b: usize = e;
    let ghost token = sb@.subrange(start as int, e as int);
    while a < b && sb[a] == 34
        invariant
            start <= a <= b <= e,
            strip_lead_quotes(token) == strip_lead_quotes(sb@.subrange(a as int, b as int)),
        decreases b - a,
    {
        proof {
            assert(sb@.subrange(a as int, b as int).drop_first() =~= sb@.subrange(a + 1, b as int));
        }
        a = a + 1;
    }
    proof {
        assert(strip_lead_quotes(sb@.subrange(a as int, b as int)) == sb@.subrange(
            a as int,
            b as int,
        ));
    }
    let ghost after_lq = sb@.subrange(a as int, b as int);
    while a < b && sb[b - 1] == 34
        invariant
            start <= a <= b <= e,
            strip_trail_quotes(after_lq) == strip_trail_quotes(sb@.subrange(a as int, b as int)),
        decreases b,
    {
        proof {
            assert(sb@.subrange(a as int, b as int).drop_last() =~= sb@.subrange(a as int, b - 1));
        }
        b = b - 1;
    }
    proof {
        assert(strip_trail_quotes(sb@.subrange(a as int, b as int)) == sb@.subrange(
            a as int,
            b as int,
        ));
    }
    let w = vstd::slice::slice_subrange(sb, a, b);
    string_from_utf8(vstd::slice::slice_to_vec(w))
}


/// The first position at or after `i` holding a comma, or the end.
pub open spec fn comma_or_end(s: Seq<u8>, i: int) -> int
    decreases s.len() - i,
{
    if 0 <= i < s.len() {
        if s[i] == 44 {
            i
        } else {
            comma_or_end(s, i + 1)
        }
    } else {
        i
    }
}

proof fn lemma_comma_range(s: Seq<u8>, i: int)
    requires
        0 <= i <= s.len(),
    ensures
        i <= comma_or_end(s, i) <= s.len(),
    decreases s.len() - i,
{
    if i < s.len() && s[i] != 44 {
        lemma_comma_range(s, i + 1);
    }
}

/// The cleaned, non-empty comma-separated elements of `s` from
/// position `p` on.
pub open spec fn brand_list_from(s: Seq<u8>, p: int) -> Seq<Seq<u8>>
    decreases s.len() - p,
    when 0 <= p
    via brand_list_from_decreases
{
    if p > s.len() {
        Seq::empty()
    } else {
        let e = comma_or_end(s, p);
        let t = clean_token(s.subrange(p, e));
        let head: Seq<Seq<u8>> = if t.len() > 0 {
            seq![t]
        } else {
            Seq::empty()
        };
        if e >= s.len() {
            head
        } else {
            head + brand_list_from(s, e + 1)
        }
    }
}

#[via_fn]
proof fn brand_list_from_decreases(s: Seq<u8>, p: int) {
    if 0 <= p <= s.len() {
        lemma_comma_range(s, p);
    }
}

/// The quoted list parsed after the marker: the elements between the
/// bracket that follows the first marker and the next closing bracket,
/// split on commas, each trimmed of whitespace and quotes, empty
/// elements dropped. An all-whitespace bracket interior is the empty
/// list; a missing marker or closing bracket is nothing.
pub open spec fn spec_parse_compatible_brands(s: Seq<u8>) -> Option<Seq<Seq<u8>>> {
    let marker = seq![
        99u8,
        111u8,
        109u8,
        112u8,
        97u8,
        116u8,
        105u8,
        98u8,
        108u8,
        101u8,
        61u8,
        91u8,
    ];
    match find_sub(s, marker) {
        None => None,
        Some(i) => {
            let rest = s.skip(i + 12);
            match find_sub(rest, seq![93u8]) {
                None => None,
                Some(j) => {
                    let inside = rest.take(j);
                    if strip_trail_ws(strip_lead_ws(inside)).len() == 0 {
                        Some(Seq::empty())
                    } else {
                        Some(brand_list_from(inside, 0))
                    }
                },
            }
        },
    }
}

/// Parses the compatible-brand list from decoded file-type text.
#[verifier::loop_isolation(false)]
#[verifier::rlimit(100)]
pub fn parse_compatible_brands(s: &str) -> (r: Option<Vec<String>>)
    ensures
        match spec_parse_compatible_brands(s.spec_bytes()) {
            None => r is None,
            Some(toks) => match r {
                Some(v) => {
                    &&& v@.len() == toks.len()
                    &&& (forall|k: int|
                        0 <= k < toks.len() ==> valid_utf8(#[trigger] toks[k]) && v@[k]@
                            == decode_utf8(toks[k]))
                },
                None => exists|k: int| 0 <= k < toks.len() && !valid_utf8(#[trigger] toks[k]),
            },
        },
{
    let sb = s.as_bytes();
    let marker: [u8; 12] = [99, 111, 109, 112, 97, 116, 105, 98, 108, 101, 61, 91];
    let i = match find_sub_bytes(sb, marker.as_slice()) {
        Some(i) => i,
        None => {
            proof {
                assert(marker@ =~= seq![
                    99u8,
                    111u8,
                    109u8,
                    112u8,
                    97u8,
                    116u8,
                    105u8,
                    98u8,
                    108u8,
                    101u8,
                    61u8,
                    91u8,
                ]);
            }
            return None;
        },
    };
    proof {
        assert(marker@ =~= seq![
            99u8,
            111u8,
            109u8,
            112u8,
            97u8,
            116u8,
            105u8,
            98u8,
            108u8,
            101u8,
            61u8,
            91u8,
        ]);
    }
    let slen = sb.len();
    let astart = i + 12;
    let rest_slice = vstd::slice::slice_subrange(sb, astart, slen);
    proof {
        assert(rest_slice@ =~= sb@.skip(astart as int));
    }
    let close: [u8; 1] = [93];
    let j = match find_sub_bytes(rest_slice, close.as_slice()) {
        Some(j) => j,
        None => {
            proof {
                assert(close@ =~= seq![93u8]);
            }
            return None;
        },
    };
    proof {
        assert(close@ =~= seq![93u8]);
    }
    let iend = astart + j;
    let ghost inside = sb@.skip(astart as int).take(j as int);
    proof {
        assert(inside =~= sb@.subrange(astart as int, iend as int));
    }
    // an all-whitespace interior is the empty list
    let (w0, w1) = clean_range_ws(sb, astart, iend);
    if w0 == w1 {
        return Some(Vec::new());
    }
    let ghost toks = brand_list_from(inside, 0);
    proof {
        assert(spec_parse_compatible_brands(s.spec_bytes()) == Some(toks));
    }
    let mut out: Vec<String> = Vec::new();
    let mut p: usize = astart;
    let mut stop = false;
    while !stop
        invariant
            astart <= p <= iend <= slen,
            slen == sb@.len(),
            inside == sb@.subrange(astart as int, iend as int),
            toks == brand_list_from(inside, 0),
            !stop ==> toks == toks.take(out@.len() as int) + brand_list_from(
                inside,
                p - astart,
            ),
            !stop ==> out@.len() <= toks.len(),
            stop ==> out@.len() == toks.len(),
            forall|k: int|
                0 <= k < out@.len() ==> valid_utf8(#[trigger] toks[k]) && out@[k]@ == decode_utf8(
                    toks[k],
                ),
        decreases iend - p + 1 + (if stop {
            0int
        } else {
            1int
        }),
    {
        let mut c: usize = p;
        while c < iend && sb[c] != 44
            invariant
                p <= c <= iend <= slen,
                slen == sb@.len(),
                inside == sb@.subrange(astart as int, iend as int),
                comma_or_end(inside, p - astart) == comma_or_end(inside, c - astart),
            decreases iend - c,
        {
            c = c + 1;
        }
        proof {
            assert(comma_or_end(inside, c - astart) == c - astart);
        }
        let (a, b) = clean_range(sb, p, c);
        proof {
            lemma_comma_range(inside, p - astart);
            assert(inside.subrange(p - astart, c - astart) =~= sb@.subrange(p as int, c as int));
        }
        if a < b {
            let w = vstd::slice::slice_subrange(sb, a, b);
            let t = match string_from_utf8(vstd::slice::slice_to_vec(w)) {
                Some(t) => t,
                None => {
                    proof {
                        let idx = out@.len() as int;
                        let rest = brand_list_from(inside, p - astart);
                        assert(rest[0] == sb@.subrange(a as int, b as int));
                        assert(rest.len() >= 1);
                        assert(toks.take(idx).len() == idx);
                        assert(toks.len() == idx + rest.len());
                        assert(toks[idx] == rest[0]);
                        assert(0 <= idx < toks.len());
                        assert(!valid_utf8(toks[idx]));
                        let toksx = spec_parse_compatible_brands(s.spec_bytes())->Some_0;
                        assert(toksx == toks);
                        assert(toksx[idx] == toks[idx]);
                        assert(0 <= idx < toksx.len() && !valid_utf8(toksx[idx]));
                    }
                    return None;
                },
            };
            let ghost prev = out@;
            out.push(t);
            proof {
                assert(brand_list_from(inside, p - astart)[0] == sb@.subrange(a as int, b as int));
                assert(toks[prev.len() as int] == sb@.subrange(a as int, b as int));
            }
        }
        if c >= iend {
            stop = true;
        } else {
            p = c + 1;
        }
    }
    Some(out)
}

/// Trims only whitespace off both ends of `[lo, hi)`.
#[verifier::loop_isolation(false)]
fn clean_range_ws(s: &[u8], lo: usize, hi: usize) -> (r: (usize, usize))
    requires
        lo <= hi <= s@.len(),
    ensures
        lo <= r.0 <= r.1 <= hi,
        s@.subrange(r.0 as int, r.1 as int) == strip_trail_ws(
            strip_lead_ws(s@.subrange(lo as int, hi as int)),
        ),
{
    let mut a = lo;
    let mut b = hi;
    while a < b && (s[a] == 32 || (9 <= s[a] && s[a] <= 13))
        invariant
            lo <= a <= b <= hi,
            strip_lead_ws(s@.subrange(lo as int, hi as int)) == strip_lead_ws(
                s@.subrange(a as int, b as int),
            ),
        decreases b - a,
    {
        proof {
            assert(s@.subrange(a as int, b as int).drop_first() =~= s@.subrange(a + 1, b as int));
        }
        a = a + 1;
    }
    proof {
        assert(strip_lead_ws(s@.subrange(a as int, b as int)) == s@.subrange(a as int, b as int));
    }
    let ghost after_lead = s@.subrange(a as int, b as int);
    while a < b && (s[b - 1] == 32 || (9 <= s[b - 1] && s[b - 1] <= 13))
        invariant
            lo <= a <= b <= hi,
            strip_trail_ws(after_lead) == strip_trail_ws(s@.subrange(a as int, b as int)),
        decreases b,
    {
        proof {
            assert(s@.subrange(a as int, b as int).drop_last() =~= s@.subrange(a as int, b - 1));
        }
        b = b - 1;
    }
    proof {
        assert(strip_trail_ws(s@.subrange(a as int, b as int)) == s@.subrange(a as int, b as int));
    }
    (a, b)
}

} // verus!
