//! Parsing of human-readable capacity strings (`"10GB"`, `"512MiB"`,
//! `"1.5GB"`) into byte counts.
//!
//! A matched suffix from a fixed table selects a binary multiplier (`KB`
//! and `KiB` are both 2^10, and so on); the remainder is read as an
//! integer, or failing that as a decimal fraction.  A fractional count is
//! only accepted when a multiplier other than one applies — a bare
//! `"1.5"` has no whole number of bytes to mean.  The fraction contributes
//! `floor(multiplier × fraction)` bytes; a count that does not fit 64 bits
//! is rejected.

use vstd::prelude::*;

use crate::ip::all_digits;
use crate::ip::dec_val;
use crate::ip::find_byte;
use crate::ip::is_digit;
use crate::ip::lemma_find_byte_none;
use crate::ip::lemma_find_byte_witness;
use vstd::string::StringSliceAdditionalSpecFns;

verus! {

/// Bytes in one kibibyte.
pub const BYTES_KB: u64 = 1024;

/// Bytes in one mebibyte.
pub const BYTES_MB: u64 = 1048576;

/// Bytes in one gibibyte.
pub const BYTES_GB: u64 = 1073741824;

/// Bytes in one tebibyte.
pub const BYTES_TB: u64 = 1099511627776;

/// The ASCII letter lowercased.
pub open spec fn spec_lower(b: u8) -> u8 {
    if 65 <= b <= 90 {
        (b + 32) as u8
    } else {
        b
    }
}

/// Whether `b` is ASCII whitespace.
pub open spec fn is_space(b: u8) -> bool {
    b == 32 || (9 <= b <= 13)
}

/// Whether `b` ends with the (lowercase) suffix, case-insensitively, with
/// at least one byte to spare before it.
pub open spec fn suffix_match(b: Seq<u8>, suf: Seq<u8>) -> bool {
    b.len() > suf.len() && forall|i: int|
        0 <= i < suf.len() ==> spec_lower(b[b.len() - suf.len() + i]) == suf[i]
}

/// `b` without its last `n` bytes.
pub open spec fn strip_tail(b: Seq<u8>, n: int) -> Seq<u8> {
    b.take(b.len() - n)
}

/// The multiplier named by the capacity string's suffix, and the string
/// with the suffix removed.  Longer suffixes are preferred; without a
/// match the multiplier is one and nothing is removed.
pub open spec fn spec_suffix_split(b: Seq<u8>) -> (u64, Seq<u8>) {
    if suffix_match(b, seq![116u8, 105u8, 98u8]) {  // "tib"
        (BYTES_TB, strip_tail(b, 3))
    } else if suffix_match(b, seq![116u8, 98u8]) {  // "tb"
        (BYTES_TB, strip_tail(b, 2))
    } else if suffix_match(b, seq![103u8, 105u8, 98u8]) {  // "gib"
        (BYTES_GB, strip_tail(b, 3))
    } else if suffix_match(b, seq![103u8, 98u8]) {  // "gb"
        (BYTES_GB, strip_tail(b, 2))
    } else if suffix_match(b, seq![109u8, 105u8, 98u8]) {  // "mib"
        (BYTES_MB, strip_tail(b, 3))
    } else if suffix_match(b, seq![109u8, 98u8]) {  // "mb"
        (BYTES_MB, strip_tail(b, 2))
    } else if suffix_match(b, seq![107u8, 105u8, 98u8]) {  // "kib"
        (BYTES_KB, strip_tail(b, 3))
    } else if suffix_match(b, seq![107u8, 98u8]) {  // "kb"
        (BYTES_KB, strip_tail(b, 2))
    } else if suffix_match(b, seq![98u8]) {  // "b"
        (1u64, strip_tail(b, 1))
    } else {
        (1u64, b)
    }
}

/// `b` with leading ASCII whitespace removed.
pub open spec fn trim_start(b: Seq<u8>) -> Seq<u8>
    decreases b.len(),
{
    if b.len() > 0 && is_space(b[0]) {
        trim_start(b.drop_first())
    } else {
        b
    }
}

/// `b` with trailing ASCII whitespace removed.
pub open spec fn trim_end(b: Seq<u8>) -> Seq<u8>
    decreases b.len(),
{
    if b.len() > 0 && is_space(b.last()) {
        trim_end(b.drop_last())
    } else {
        b
    }
}

/// `b` with surrounding ASCII whitespace removed.
pub open spec fn spec_trim(b: Seq<u8>) -> Seq<u8> {
    trim_end(trim_start(b))
}

/// `floor(m × 0.d₁d₂…dₖ)` for the fraction written by the digits `ds`,
/// computed digit by digit: each step folds one digit into the running
/// floor, which never exceeds `m`.
pub open spec fn frac_contrib(m: u64, ds: Seq<u8>) -> int
    decreases ds.len(),
{
    if ds.len() == 0 {
        0
    } else {
        (m * (ds[0] - 48) + frac_contrib(m, ds.drop_first())) / 10
    }
}

/// The fraction's contribution lies between zero and the multiplier.
pub proof fn lemma_frac_contrib_bounds(m: u64, ds: Seq<u8>)
    requires
        all_digits(ds),
    ensures
        0 <= frac_contrib(m, ds) <= m,
    decreases ds.len(),
{
    if ds.len() > 0 {
        assert(forall|i: int| 0 <= i < ds.drop_first().len() ==> ds.drop_first()[i] == ds[i + 1]);
        lemma_frac_contrib_bounds(m, ds.drop_first());
        assert(48 <= ds[0] <= 57);
        assert(0 <= (m * (ds[0] - 48) + frac_contrib(m, ds.drop_first())) / 10 <= m)
            by (nonlinear_arith)
            requires
                48 <= ds[0] <= 57,
                0 <= frac_contrib(m, ds.drop_first()) <= m,
                m >= 0,
        ;
    }
}

/// The decimal-fraction form: exactly one dot, digits on both sides (one
/// side may be empty, not both), yielding the whole-part digits and the
/// fraction digits.
pub open spec fn spec_fraction(b: Seq<u8>) -> Option<(Seq<u8>, Seq<u8>)> {
    match find_byte(b, 46) {
        None => None,
        Some(p) => {
            let wd = b.take(p);
            let fd = b.skip(p + 1);
            if find_byte(fd, 46) is None && all_digits(wd) && all_digits(fd) && wd.len() + fd.len()
                > 0 {
                Some((wd, fd))
            } else {
                None
            }
        },
    }
}

/// What parsing a capacity string yields.
///
/// The suffix picks the multiplier; the trimmed remainder is read as an
/// integer (any byte count that fits 64 bits), or as a decimal fraction.
/// A fraction with multiplier one must name a whole number of bytes; the
/// result is `multiplier × whole + floor(multiplier × fraction)` when that
/// fits 64 bits.
pub open spec fn spec_parse_byte_size(b: Seq<u8>) -> Option<u64> {
    let m = spec_suffix_split(b).0;
    let rest = spec_trim(spec_suffix_split(b).1);
    if rest.len() > 0 && all_digits(rest) {
        if dec_val(rest) * m <= u64::MAX {
            Some((dec_val(rest) * m) as u64)
        } else {
            None
        }
    } else {
        match spec_fraction(rest) {
            None => None,
            Some(parts) => {
                let whole = dec_val(parts.0);
                let frac = frac_contrib(m, parts.1);
                if m == 1 {
                    if dec_val(parts.1) == 0 && whole <= u64::MAX {
                        Some(whole as u64)
                    } else {
                        None
                    }
                } else if whole * m + frac <= u64::MAX {
                    Some((whole * m + frac) as u64)
                } else {
                    None
                }
            },
        }
    }
}

/// The ASCII letter lowercased.
fn lower_byte(b: u8) -> (r: u8)
    ensures
        r == spec_lower(b),
{
    if b >= 65 && b <= 90 {
        b + 32
    } else {
        b
    }
}

/// Whether `b` ends with the (lowercase) suffix, case-insensitively, with
/// at least one byte to spare.
fn suffix_check(b: &[u8], suf: &[u8]) -> (r: bool)
    ensures
        r == suffix_match(b@, suf@),
{
    if b.len() <= suf.len() {
        return false;
    }
    let start: usize = b.len() - suf.len();
    let mut i: usize = 0;
    while i < suf.len()
        invariant
            b@.len() > suf@.len(),
            b@.len() <= usize::MAX,
            start == b@.len() - suf@.len(),
            i <= suf@.len(),
            forall|j: int| 0 <= j < i ==> spec_lower(b@[start + j]) == suf@[j],
        decreases suf@.len() - i,
    {
        if lower_byte(b[start + i]) != suf[i] {
            return false;
        }
        i = i + 1;
    }
    true
}

/// Whether `b` is ASCII whitespace.
fn space_check(b: u8) -> (r: bool)
    ensures
        r == is_space(b),
{
    b == 32 || (b >= 9 && b <= 13)
}

/// The bounds of `b` with surrounding ASCII whitespace removed.
pub(crate) fn trim_bounds(b: &[u8], from: usize, upto: usize) -> (r: (usize, usize))
    requires
        from <= upto <= b@.len(),
    ensures
        from <= r.0 <= r.1 <= upto,
        b@.subrange(r.0 as int, r.1 as int) == spec_trim(b@.subrange(from as int, upto as int)),
{
    let mut lo = from;
    let mut hi = upto;
    while lo < hi && space_check(b[lo])
        invariant
            from <= lo <= hi <= b@.len(),
            hi == upto,
            trim_start(b@.subrange(from as int, upto as int)) == trim_start(
                b@.subrange(lo as int, upto as int),
            ),
        decreases hi - lo,
    {
        proof {
            assert(b@.subrange(lo as int, upto as int).drop_first() =~= b@.subrange(
                lo + 1,
                upto as int,
            ));
        }
        lo = lo + 1;
    }
    proof {
        if lo < hi {
            assert(!is_space(b@.subrange(lo as int, upto as int)[0]));
        }
        assert(trim_start(b@.subrange(lo as int, upto as int)) == b@.subrange(
            lo as int,
            upto as int,
        ));
    }
    while hi > lo && space_check(b[hi - 1])
        invariant
            from <= lo <= hi <= upto <= b@.len(),
            trim_end(b@.subrange(lo as int, upto as int)) == trim_end(
                b@.subrange(lo as int, hi as int),
            ),
        decreases hi - lo,
    {
        proof {
            assert(b@.subrange(lo as int, hi as int).drop_last() =~= b@.subrange(
                lo as int,
                hi - 1,
            ));
            assert(b@.subrange(lo as int, hi as int).last() == b@[hi - 1]);
        }
        hi = hi - 1;
    }
    proof {
        if hi > lo {
            assert(b@.subrange(lo as int, hi as int).last() == b@[hi - 1]);
        }
        assert(trim_end(b@.subrange(lo as int, hi as int)) == b@.subrange(lo as int, hi as int));
    }
    (lo, hi)
}

/// Reads an unbounded run of decimal digits; the accumulator is exact
/// while the value fits 64 bits and saturates above the range otherwise.
fn dec_value_capped(s: &[u8]) -> (r: Option<u128>)
    ensures
        match r {
            Some(v) => all_digits(s@) && (dec_val(s@) <= u64::MAX ==> v == dec_val(s@)) && (dec_val(
                s@,
            ) > u64::MAX ==> v > u64::MAX),
            None => !all_digits(s@),
        },
{
    let mut acc: u128 = 0;
    let mut i: usize = 0;
    while i < s.len()
        invariant
            i <= s@.len(),
            all_digits(s@.take(i as int)),
            acc <= 0xffffffffffffffff_ffff,
            dec_val(s@.take(i as int)) <= u64::MAX ==> acc == dec_val(s@.take(i as int)),
            dec_val(s@.take(i as int)) > u64::MAX ==> acc > u64::MAX,
        decreases s@.len() - i,
    {
        let d = s[i];
        if d < 48 || d > 57 {
            proof {
                assert(!is_digit(s@[i as int]));
            }
            return None;
        }
        proof {
            assert(s@.take(i + 1).drop_last() =~= s@.take(i as int));
            assert(s@.take(i + 1).last() == s@[i as int]);
            crate::ip::lemma_dec_val_nonneg(s@.take(i as int));
        }
        if acc <= u64::MAX as u128 {
            acc = acc * 10 + (d - 48) as u128;
        }
        i = i + 1;
    }
    proof {
        assert(s@.take(s@.len() as int) =~= s@);
    }
    Some(acc)
}

/// Computes the fraction's contribution `frac_contrib`, folding digits
/// from the last to the first.
fn frac_value(m: u64, ds: &[u8]) -> (r: u64)
    requires
        m <= BYTES_TB,
        all_digits(ds@),
    ensures
        r == frac_contrib(m, ds@),
        r <= m,
    {
    let mut acc: u64 = 0;
    let mut i: usize = ds.len();
    proof {
        assert(ds@.skip(ds@.len() as int) =~= Seq::<u8>::empty());
    }
    while i > 0
        invariant
            i <= ds@.len(),
            all_digits(ds@),
            m <= BYTES_TB,
            acc == frac_contrib(m, ds@.skip(i as int)),
            acc <= m,
        decreases i,
    {
        let d = ds[i - 1];
        proof {
            assert(is_digit(ds@[i - 1]));
            assert(ds@.skip(i - 1).drop_first() =~= ds@.skip(i as int));
            assert(ds@.skip(i - 1)[0] == ds@[i - 1]);
            lemma_frac_contrib_bounds(m, ds@.skip(i - 1));
        }
        proof {
            assert(m * ((d - 48) as u64) <= 9 * BYTES_TB) by (nonlinear_arith)
                requires
                    m <= BYTES_TB,
                    48 <= d <= 57,
            ;
        }
        acc = (m * ((d - 48) as u64) + acc) / 10;
        i = i - 1;
    }
    proof {
        assert(ds@.skip(0) =~= ds@);
    }
    acc
}

/// Parses a human-readable capacity string into a byte count.
pub fn parse_byte_size(input: &str) -> (r: Option<u64>)
    ensures
        r == spec_parse_byte_size(input.spec_bytes()),
{
    let b = input.as_bytes();
    let (m, cut) = split_suffix(b);
    let (lo, hi) = trim_bounds(b, 0, cut);
    let rest = vstd::slice::slice_subrange(b, lo, hi);
    let ghost rest_spec = spec_trim(spec_suffix_split(b@).1);
    proof {
        assert(b@.subrange(0, cut as int) == spec_suffix_split(b@).1);
        assert(rest@ == rest_spec);
    }
    if rest.len() > 0 {
        match dec_value_capped(rest) {
            Some(v) => {
                proof {
                    crate::ip::lemma_dec_val_nonneg(rest@);
                }
                if v <= u64::MAX as u128 {
                    let v64 = v as u64;
                    if m == 1 {
                        return Some(v64);
                    }
                    let prod: u128 = (v64 as u128) * (m as u128);
                    if prod <= u64::MAX as u128 {
                        return Some(prod as u64);
                    } else {
                        return None;
                    }
                } else {
                    // the digits name more bytes than the counter can hold,
                    // whatever the multiplier
                    proof {
                        crate::ip::lemma_dec_val_nonneg(rest@);
                        assert(dec_val(rest_spec) * m > u64::MAX) by (nonlinear_arith)
                            requires
                                dec_val(rest_spec) > u64::MAX,
                                m >= 1,
                        ;
                    }
                    return None;
                }
            },
            None => {
                // not an integer: fall through to the fraction form
            },
        }
    }
    parse_fraction_form(b, m, lo, hi)
}

/// Parses the trimmed remainder as a decimal fraction and combines it with
/// the multiplier.
fn parse_fraction_form(b: &[u8], m: u64, lo: usize, hi: usize) -> (r: Option<u64>)
    requires
        lo <= hi <= b@.len(),
        m == spec_suffix_split(b@).0,
        b@.subrange(lo as int, hi as int) == spec_trim(spec_suffix_split(b@).1),
        !(spec_trim(spec_suffix_split(b@).1).len() > 0 && all_digits(
            spec_trim(spec_suffix_split(b@).1),
        ) && dec_val(spec_trim(spec_suffix_split(b@).1)) * m <= u64::MAX),
    ensures
        r == spec_parse_byte_size(b@),
{
    let rest = vstd::slice::slice_subrange(b, lo, hi);
    let ghost rest_spec = spec_trim(spec_suffix_split(b@).1);
    let mut dot: usize = 0;
    let mut found = false;
    let mut i: usize = 0;
    while i < rest.len()
        invariant
            i <= rest@.len(),
            rest@ == rest_spec,
            !found ==> forall|j: int| 0 <= j < i ==> rest@[j] != 46,
            found ==> dot < i && rest@[dot as int] == 46 && (forall|j: int|
                0 <= j < dot ==> rest@[j] != 46),
        decreases rest@.len() - i,
    {
        if rest[i] == 46 && !found {
            dot = i;
            found = true;
        }
        i = i + 1;
    }
    if !found {
        proof {
            lemma_find_byte_none(rest_spec, 46);
        }
        return None;
    }
    proof {
        lemma_find_byte_witness(rest_spec, 46, dot as int);
    }
    let wd = vstd::slice::slice_subrange(rest, 0, dot);
    let fd = vstd::slice::slice_subrange(rest, dot + 1, rest.len());
    proof {
        assert(wd@ =~= rest_spec.take(dot as int));
        assert(fd@ =~= rest_spec.skip(dot + 1));
    }
    // a second dot makes the form invalid
    let mut k: usize = 0;
    while k < fd.len()
        invariant
            k <= fd@.len(),
            rest_spec == spec_trim(spec_suffix_split(b@).1),
            m == spec_suffix_split(b@).0,
            !(rest_spec.len() > 0 && all_digits(rest_spec) && dec_val(rest_spec) * m
                <= u64::MAX),
            fd@ == rest_spec.skip(dot as int + 1),
            rest@ == rest_spec,
            find_byte(rest_spec, 46) == Some(dot as int),
            forall|j: int| 0 <= j < k ==> fd@[j] != 46,
        decreases fd@.len() - k,
    {
        if fd[k] == 46 {
            proof {
                lemma_find_byte_witness_exists(fd@, 46, k as int);
            }
            return None;
        }
        k = k + 1;
    }
    proof {
        lemma_find_byte_none(fd@, 46);
    }
    let whole = match dec_value_capped(wd) {
        Some(v) => v,
        None => {
            return None;
        },
    };
    let fdigits = match dec_value_capped(fd) {
        Some(v) => v,
        None => {
            return None;
        },
    };
    if wd.len() == 0 && fd.len() == 0 {
        return None;
    }
    proof {
        crate::ip::lemma_dec_val_nonneg(wd@);
        crate::ip::lemma_dec_val_nonneg(fd@);
    }
    if m == 1 {
        if fdigits == 0 && whole <= u64::MAX as u128 {
            proof {
                assert(dec_val(fd@) == 0);
            }
            return Some(whole as u64);
        } else {
            return None;
        }
    }
    if whole > u64::MAX as u128 {
        proof {
            lemma_frac_contrib_bounds(m, fd@);
            assert(dec_val(wd@) * m + frac_contrib(m, fd@) > u64::MAX) by (nonlinear_arith)
                requires
                    dec_val(wd@) > u64::MAX,
                    m >= 1,
                    frac_contrib(m, fd@) >= 0,
            ;
        }
        return None;
    }
    let frac = frac_value(m, fd);
    proof {
        assert(whole * (m as u128) <= (u64::MAX as u128) * (BYTES_TB as u128)) by (nonlinear_arith)
            requires
                whole <= u64::MAX as u128,
                m <= BYTES_TB,
        ;
    }
    let total: u128 = (whole) * (m as u128) + (frac as u128);
    if total <= u64::MAX as u128 {
        Some(total as u64)
    } else {
        None
    }
}

/// An occurrence of `c` anywhere means `find_byte` finds one.
proof fn lemma_find_byte_witness_exists(b: Seq<u8>, c: u8, i: int)
    requires
        0 <= i < b.len(),
        b[i] == c,
    ensures
        find_byte(b, c) is Some,
    decreases b.len(),
{
    if b[0] != c {
        lemma_find_byte_witness_exists(b.drop_first(), c, i - 1);
    }
}

/// The multiplier named by the capacity string's suffix, and where the
/// suffix starts.
fn split_suffix(b: &[u8]) -> (r: (u64, usize))
    ensures
        r.0 == spec_suffix_split(b@).0,
        r.1 <= b@.len(),
        b@.subrange(0, r.1 as int) == spec_suffix_split(b@).1,
{
    let tib: [u8; 3] = [116, 105, 98];
    let tb: [u8; 2] = [116, 98];
    let gib: [u8; 3] = [103, 105, 98];
    let gb: [u8; 2] = [103, 98];
    let mib: [u8; 3] = [109, 105, 98];
    let mb: [u8; 2] = [109, 98];
    let kib: [u8; 3] = [107, 105, 98];
    let kb: [u8; 2] = [107, 98];
    let bb: [u8; 1] = [98];
    proof {
        assert(tib@ =~= seq![116u8, 105u8, 98u8]);
        assert(tb@ =~= seq![116u8, 98u8]);
        assert(gib@ =~= seq![103u8, 105u8, 98u8]);
        assert(gb@ =~= seq![103u8, 98u8]);
        assert(mib@ =~= seq![109u8, 105u8, 98u8]);
        assert(mb@ =~= seq![109u8, 98u8]);
        assert(kib@ =~= seq![107u8, 105u8, 98u8]);
        assert(kb@ =~= seq![107u8, 98u8]);
        assert(bb@ =~= seq![98u8]);
    }
    if suffix_check(b, tib.as_slice()) {
        (BYTES_TB, b.len() - 3)
    } else if suffix_check(b, tb.as_slice()) {
        (BYTES_TB, b.len() - 2)
    } else if suffix_check(b, gib.as_slice()) {
        (BYTES_GB, b.len() - 3)
    } else if suffix_check(b, gb.as_slice()) {
        (BYTES_GB, b.len() - 2)
    } else if suffix_check(b, mib.as_slice()) {
        (BYTES_MB, b.len() - 3)
    } else if suffix_check(b, mb.as_slice()) {
        (BYTES_MB, b.len() - 2)
    } else if suffix_check(b, kib.as_slice()) {
        (BYTES_KB, b.len() - 3)
    } else if suffix_check(b, kb.as_slice()) {
        (BYTES_KB, b.len() - 2)
    } else if suffix_check(b, bb.as_slice()) {
        (1, b.len() - 1)
    } else {
        proof {
            assert(b@.subrange(0, b@.len() as int) =~= b@);
        }
        (1, b.len())
    }
}

} // verus!
