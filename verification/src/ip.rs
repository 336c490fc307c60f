//! IPv4 and IPv6 addresses: parsing from text and rendering back.
//!
//! Addresses are plain integers ([`IPv4Address`] a 32-bit value,
//! [`IPv6Address`] eight 16-bit groups).  Parsing follows the usual textual
//! forms — dotted decimal for IPv4; colon-separated hexadecimal groups with
//! at most one `::` elision for IPv6 — and rendering produces the canonical
//! shortest form, eliding the longest run of zero groups.

use vstd::prelude::*;

use crate::util::push_char;

verus! {

/// Position of the first occurrence of `c`.
pub open spec fn find_byte(b: Seq<u8>, c: u8) -> Option<int>
    decreases b.len(),
{
    if b.len() == 0 {
        None
    } else if b[0] == c {
        Some(0int)
    } else {
        match find_byte(b.drop_first(), c) {
            Some(i) => Some(i + 1),
            None => None,
        }
    }
}

/// What `find_byte` returns: the first occurrence, or nothing.
pub proof fn lemma_find_byte(b: Seq<u8>, c: u8)
    ensures
        match find_byte(b, c) {
            Some(i) => 0 <= i < b.len() && b[i] == c && (forall|j: int| 0 <= j < i ==> b[j] != c),
            None => forall|j: int| 0 <= j < b.len() ==> b[j] != c,
        },
    decreases b.len(),
{
    if b.len() > 0 && b[0] != c {
        lemma_find_byte(b.drop_first(), c);
        assert(forall|j: int| 0 <= j < b.drop_first().len() ==> b.drop_first()[j] == b[j + 1]);
        match find_byte(b.drop_first(), c) {
            Some(i) => {
                assert forall|j: int| 0 <= j < i + 1 implies b[j] != c by {
                    if j > 0 {
                        assert(b.drop_first()[j - 1] != c);
                    }
                }
            },
            None => {
                assert forall|j: int| 0 <= j < b.len() implies b[j] != c by {
                    if j > 0 {
                        assert(b.drop_first()[j - 1] != c);
                    }
                }
            },
        }
    }
}

/// An occurrence at `i` with none earlier fixes `find_byte`.
pub proof fn lemma_find_byte_witness(b: Seq<u8>, c: u8, i: int)
    requires
        0 <= i < b.len(),
        b[i] == c,
        forall|j: int| 0 <= j < i ==> b[j] != c,
    ensures
        find_byte(b, c) == Some(i),
    decreases b.len(),
{
    if i > 0 {
        lemma_find_byte_witness(b.drop_first(), c, i - 1);
    }
}

/// With no occurrence, `find_byte` returns nothing.
pub proof fn lemma_find_byte_none(b: Seq<u8>, c: u8)
    requires
        forall|j: int| 0 <= j < b.len() ==> b[j] != c,
    ensures
        find_byte(b, c) is None,
    decreases b.len(),
{
    if b.len() > 0 {
        lemma_find_byte_none(b.drop_first(), c);
    }
}

/// The pieces of `b` between occurrences of `c` (a split on `c`): always at
/// least one piece, with empty pieces kept.
pub open spec fn split_byte(b: Seq<u8>, c: u8) -> Seq<Seq<u8>>
    decreases b.len(),
    via split_byte_dec
{
    match find_byte(b, c) {
        None => seq![b],
        Some(i) => seq![b.take(i)] + split_byte(b.skip(i + 1), c),
    }
}

#[via_fn]
proof fn split_byte_dec(b: Seq<u8>, c: u8) {
    lemma_find_byte(b, c);
}

/// Splitting is well-defined: `find_byte` points inside `b`, so the
/// recursion terminates; this lemma just exposes the two equations.
pub proof fn lemma_split_byte_step(b: Seq<u8>, c: u8, i: int)
    requires
        0 <= i < b.len(),
        b[i] == c,
        forall|j: int| 0 <= j < i ==> b[j] != c,
    ensures
        split_byte(b, c) == seq![b.take(i)] + split_byte(b.skip(i + 1), c),
{
    lemma_find_byte_witness(b, c, i);
}

/// Sections of a byte string: the split positions as `(start, end)` pairs.
fn split_positions(b: &[u8], c: u8) -> (r: Vec<(usize, usize)>)
    ensures
        r@.len() == split_byte(b@, c).len(),
        forall|k: int|
            0 <= k < r@.len() ==> 0 <= (#[trigger] r@[k]).0 <= r@[k].1 <= b@.len() && b@.subrange(
                r@[k].0 as int,
                r@[k].1 as int,
            ) == split_byte(b@, c)[k],
{
    let mut out: Vec<(usize, usize)> = Vec::new();
    let mut start: usize = 0;
    let mut i: usize = 0;
    proof {
        assert(b@.skip(0) =~= b@);
        assert(seqs_of(out@, b@) =~= Seq::<Seq<u8>>::empty());
        assert(seqs_of(out@, b@) + split_byte(b@, c) =~= split_byte(b@, c));
    }
    while i < b.len()
        invariant
            start <= i <= b@.len(),
            forall|j: int| start <= j < i ==> b@[j] != c,
            split_byte(b@, c) == seqs_of(out@, b@) + split_byte(b@.skip(start as int), c),
            forall|k: int|
                0 <= k < out@.len() ==> 0 <= (#[trigger] out@[k]).0 <= out@[k].1 <= b@.len(),
        decreases b@.len() - i,
    {
        if b[i] == c {
            proof {
                let rest = b@.skip(start as int);
                assert(rest[i - start] == c);
                assert(forall|j: int| 0 <= j < i - start ==> rest[j] != c);
                lemma_split_byte_step(rest, c, i - start);
                assert(rest.take(i - start) =~= b@.subrange(start as int, i as int));
                assert(rest.skip(i - start + 1) =~= b@.skip(i + 1));
                assert(seqs_of(out@.push((start, i)), b@) =~= seqs_of(out@, b@).push(
                    b@.subrange(start as int, i as int),
                ));
                assert(seqs_of(out@, b@) + (seq![rest.take(i - start)] + split_byte(
                    b@.skip(i + 1),
                    c,
                )) =~= seqs_of(out@.push((start, i)), b@) + split_byte(b@.skip(i + 1), c));
            }
            out.push((start, i));
            start = i + 1;
        }
        i = i + 1;
    }
    proof {
        let rest = b@.skip(start as int);
        assert(forall|j: int| 0 <= j < rest.len() ==> rest[j] != c);
        lemma_find_byte_none(rest, c);
        assert(rest =~= b@.subrange(start as int, b@.len() as int));
        assert(seqs_of(out@.push((start, b.len())), b@) =~= seqs_of(out@, b@).push(rest));
        assert(seqs_of(out@, b@) + seq![rest] =~= seqs_of(out@.push((start, b.len())), b@));
    }
    out.push((start, b.len()));
    proof {
        assert forall|k: int| 0 <= k < out@.len() implies b@.subrange(
            out@[k].0 as int,
            out@[k].1 as int,
        ) == split_byte(b@, c)[k] by {
            assert(split_byte(b@, c) =~= seqs_of(out@, b@));
            assert(seqs_of(out@, b@)[k] == b@.subrange(out@[k].0 as int, out@[k].1 as int));
        }
    }
    out
}

/// The byte ranges named by position pairs, as sequences.
pub open spec fn seqs_of(ps: Seq<(usize, usize)>, b: Seq<u8>) -> Seq<Seq<u8>> {
    ps.map_values(|p: (usize, usize)| b.subrange(p.0 as int, p.1 as int))
}

/// Whether `d` is an ASCII decimal digit.
pub open spec fn is_digit(d: u8) -> bool {
    48 <= d <= 57
}

/// Whether every byte is an ASCII decimal digit.
pub open spec fn all_digits(s: Seq<u8>) -> bool {
    forall|i: int| 0 <= i < s.len() ==> is_digit(s[i])
}

/// The number written in decimal (most significant digit first).
pub open spec fn dec_val(s: Seq<u8>) -> int
    decreases s.len(),
{
    if s.len() == 0 {
        0
    } else {
        dec_val(s.drop_last()) * 10 + (s.last() - 48)
    }
}

/// The value of a hexadecimal digit, or nothing.
pub open spec fn hex_digit_val(d: u8) -> Option<int> {
    if 48 <= d <= 57 {
        Some((d - 48) as int)
    } else if 97 <= d <= 102 {
        Some((d - 87) as int)
    } else if 65 <= d <= 70 {
        Some((d - 55) as int)
    } else {
        None
    }
}

/// Whether every byte is an ASCII hexadecimal digit.
pub open spec fn all_hex_digits(s: Seq<u8>) -> bool {
    forall|i: int| 0 <= i < s.len() ==> hex_digit_val(s[i]) is Some
}

/// The number written in hexadecimal (most significant digit first).
pub open spec fn hex_val(s: Seq<u8>) -> int
    decreases s.len(),
{
    if s.len() == 0 {
        0
    } else {
        hex_val(s.drop_last()) * 16 + match hex_digit_val(s.last()) {
            Some(v) => v,
            None => 0,
        }
    }
}

/// A section reads as an 8-bit decimal number: non-empty, digits only, and
/// at most 255.
pub open spec fn spec_dec_u8(s: Seq<u8>) -> Option<u8> {
    if s.len() > 0 && all_digits(s) && dec_val(s) <= 255 {
        Some(dec_val(s) as u8)
    } else {
        None
    }
}

/// A section reads as a 16-bit hexadecimal number: non-empty, hexadecimal
/// digits only, and at most 0xffff.
pub open spec fn spec_hex_u16(s: Seq<u8>) -> Option<u16> {
    if s.len() > 0 && all_hex_digits(s) && hex_val(s) <= 0xffff {
        Some(hex_val(s) as u16)
    } else {
        None
    }
}

/// Decimal values never shrink as digits are appended.
pub proof fn lemma_dec_val_nonneg(s: Seq<u8>)
    requires
        all_digits(s),
    ensures
        dec_val(s) >= 0,
    decreases s.len(),
{
    if s.len() > 0 {
        assert(forall|i: int| 0 <= i < s.drop_last().len() ==> s.drop_last()[i] == s[i]);
        lemma_dec_val_nonneg(s.drop_last());
    }
}

/// Hexadecimal values never shrink as digits are appended.
proof fn lemma_hex_val_nonneg(s: Seq<u8>)
    requires
        all_hex_digits(s),
    ensures
        hex_val(s) >= 0,
    decreases s.len(),
{
    if s.len() > 0 {
        assert(forall|i: int| 0 <= i < s.drop_last().len() ==> s.drop_last()[i] == s[i]);
        lemma_hex_val_nonneg(s.drop_last());
    }
}

/// Reads a section as an 8-bit decimal number.
fn parse_dec_u8(s: &[u8]) -> (r: Option<u8>)
    ensures
        r == spec_dec_u8(s@),
{
    if s.len() == 0 {
        return None;
    }
    let mut acc: u32 = 0;
    let mut i: usize = 0;
    while i < s.len()
        invariant
            i <= s@.len(),
            s@.len() > 0,
            all_digits(s@.take(i as int)),
            acc <= 2559,
            dec_val(s@.take(i as int)) <= 255 ==> acc == dec_val(s@.take(i as int)),
            dec_val(s@.take(i as int)) > 255 ==> acc > 255,
        decreases s@.len() - i,
    {
        let d = s[i];
        if d < 48 || d > 57 {
            proof {
                assert(!is_digit(s@[i as int]));
            }
            return None;
        }
        proof {
            assert(s@.take(i + 1).drop_last() =~= s@.take(i as int));
            assert(s@.take(i + 1).last() == s@[i as int]);
            lemma_dec_val_nonneg(s@.take(i as int));
        }
        if acc <= 255 {
            acc = acc * 10 + (d - 48) as u32;
        }
        i = i + 1;
    }
    proof {
        assert(s@.take(s@.len() as int) =~= s@);
    }
    if acc <= 255 {
        Some(acc as u8)
    } else {
        None
    }
}

/// Reads a section as a 16-bit hexadecimal number.
fn parse_hex_u16(s: &[u8]) -> (r: Option<u16>)
    ensures
        r == spec_hex_u16(s@),
{
    if s.len() == 0 {
        return None;
    }
    let mut acc: u32 = 0;
    let mut i: usize = 0;
    while i < s.len()
        invariant
            i <= s@.len(),
            s@.len() > 0,
            all_hex_digits(s@.take(i as int)),
            acc <= 0xfffff,
            hex_val(s@.take(i as int)) <= 0xffff ==> acc == hex_val(s@.take(i as int)),
            hex_val(s@.take(i as int)) > 0xffff ==> acc > 0xffff,
        decreases s@.len() - i,
    {
        let d = s[i];
        let v: u32 = if d >= 48 && d <= 57 {
            (d - 48) as u32
        } else if d >= 97 && d <= 102 {
            (d - 87) as u32
        } else if d >= 65 && d <= 70 {
            (d - 55) as u32
        } else {
            proof {
                assert(hex_digit_val(s@[i as int]) is None);
            }
            return None;
        };
        proof {
            assert(s@.take(i + 1).drop_last() =~= s@.take(i as int));
            assert(s@.take(i + 1).last() == s@[i as int]);
            lemma_hex_val_nonneg(s@.take(i as int));
        }
        if acc <= 0xffff {
            acc = acc * 16 + v;
        }
        i = i + 1;
    }
    proof {
        assert(s@.take(s@.len() as int) =~= s@);
    }
    if acc <= 0xffff {
        Some(acc as u16)
    } else {
        None
    }
}

/// Why parsing an address failed.
#[derive(PartialEq, Eq, Structural, Debug)]
pub enum IPParseError {
    /// Fewer sections than the address family requires.
    MissingSections,
    /// More sections than the address family allows.
    TooManySections,
    /// A section is not a number of the required form.
    UnableToReadSection,
    /// More than one `::` elision (IPv6 only).
    MultipleZerosOmitted,
}

/// An IPv4 address as its 32-bit numeric value (network byte order).
#[derive(Ord, PartialOrd, Eq, PartialEq, Hash, Debug, Copy, Clone, Structural)]
pub struct IPv4Address(pub u32);

/// The error, if any, raised while reading sections `k..4` of a dotted
/// quad: a missing section, an unreadable one, or — all four read — a
/// trailing excess.
pub open spec fn ipv4_err(ss: Seq<Seq<u8>>, k: int) -> Option<IPParseError>
    decreases 4 - k,
{
    if k >= 4 {
        if ss.len() > 4 {
            Some(IPParseError::TooManySections)
        } else {
            None
        }
    } else if k >= ss.len() {
        Some(IPParseError::MissingSections)
    } else if spec_dec_u8(ss[k]) is None {
        Some(IPParseError::UnableToReadSection)
    } else {
        ipv4_err(ss, k + 1)
    }
}

/// The numeric value of four octets, most significant first.
pub open spec fn u32_of_octets(a: u8, b: u8, c: u8, d: u8) -> u32 {
    (a * 0x1000000 + b * 0x10000 + c * 0x100 + d) as u32
}

/// What parsing a dotted quad yields: the four sections read as decimal
/// octets, or the first error the walk meets.
pub open spec fn spec_parse_ipv4(bytes: Seq<u8>) -> Result<IPv4Address, IPParseError> {
    let ss = split_byte(bytes, 46);
    match ipv4_err(ss, 0) {
        Some(e) => Err(e),
        None => Ok(
            IPv4Address(
                u32_of_octets(
                    spec_dec_u8(ss[0])->Some_0,
                    spec_dec_u8(ss[1])->Some_0,
                    spec_dec_u8(ss[2])->Some_0,
                    spec_dec_u8(ss[3])->Some_0,
                ),
            ),
        ),
    }
}

impl IPv4Address {
    /// The four octets, most significant first.
    pub open spec fn spec_octets(&self) -> (u8, u8, u8, u8) {
        (
            (self.0 / 0x1000000) as u8,
            ((self.0 / 0x10000) % 0x100) as u8,
            ((self.0 / 0x100) % 0x100) as u8,
            (self.0 % 0x100) as u8,
        )
    }

    /// Builds the address from four octets, most significant first.
    pub fn from_octets(a: u8, b: u8, c: u8, d: u8) -> (r: IPv4Address)
        ensures
            r.0 == u32_of_octets(a, b, c, d),
            r.spec_octets() == (a, b, c, d),
    {
        let v: u32 = (a as u32) * 0x1000000 + (b as u32) * 0x10000 + (c as u32) * 0x100 + (d as u32);
        proof {
            assert(v / 0x1000000 == a as u32 && (v / 0x10000) % 0x100 == b as u32 && (v / 0x100)
                % 0x100 == c as u32 && v % 0x100 == d as u32) by (bit_vector)
                requires
                    v == (a as u32) * 0x1000000 + (b as u32) * 0x10000 + (c as u32) * 0x100 + (
                    d as u32),
            ;
        }
        IPv4Address(v)
    }

    /// The four octets, most significant first.
    pub fn octets(&self) -> (r: (u8, u8, u8, u8))
        ensures
            r == self.spec_octets(),
    {
        (
            (self.0 / 0x1000000) as u8,
            ((self.0 / 0x10000) % 0x100) as u8,
            ((self.0 / 0x100) % 0x100) as u8,
            (self.0 % 0x100) as u8,
        )
    }

    /// Parses a dotted decimal quad.
    pub fn parse_bytes(bytes: &[u8]) -> (r: Result<IPv4Address, IPParseError>)
        ensures
            r == spec_parse_ipv4(bytes@),
    {
        let parts = split_positions(bytes, 46);
        let ghost ss = split_byte(bytes@, 46);
        let mut octets: Vec<u8> = Vec::new();
        let mut k: usize = 0;
        while k < 4
            invariant
                k <= 4,
                ss == split_byte(bytes@, 46),
                parts@.len() == ss.len(),
                forall|j: int|
                    0 <= j < parts@.len() ==> 0 <= (#[trigger] parts@[j]).0 <= parts@[j].1
                        <= bytes@.len() && bytes@.subrange(
                        parts@[j].0 as int,
                        parts@[j].1 as int,
                    ) == ss[j],
                ipv4_err(ss, 0) == ipv4_err(ss, k as int),
                octets@.len() == k,
                forall|j: int|
                    0 <= j < k ==> spec_dec_u8(ss[j]) == Some(octets@[j]),
            decreases 4 - k,
        {
            if k >= parts.len() {
                return Err(IPParseError::MissingSections);
            }
            let (lo, hi) = (parts[k].0, parts[k].1);
            match parse_dec_u8(vstd::slice::slice_subrange(bytes, lo, hi)) {
                Some(v) => {
                    octets.push(v);
                },
                None => {
                    return Err(IPParseError::UnableToReadSection);
                },
            }
            k = k + 1;
        }
        if parts.len() > 4 {
            return Err(IPParseError::TooManySections);
        }
        Ok(IPv4Address::from_octets(octets[0], octets[1], octets[2], octets[3]))
    }

    /// The dotted decimal rendering, e.g. `"1.2.3.4"`.
    pub fn to_string(&self) -> (r: String)
        ensures
            r@ == spec_ipv4_text(*self),
    {
        let (a, b, c, d) = self.octets();
        let mut s = String::new();
        push_dec_u8(&mut s, a);
        push_char(&mut s, '.');
        push_dec_u8(&mut s, b);
        push_char(&mut s, '.');
        push_dec_u8(&mut s, c);
        push_char(&mut s, '.');
        push_dec_u8(&mut s, d);
        proof {
            assert(s@ =~= spec_ipv4_text(*self));
        }
        s
    }
}

/// The canonical decimal rendering of an 8-bit number (no leading zeros).
pub open spec fn dec_chars_u8(n: u8) -> Seq<char> {
    if n < 10 {
        seq![digit_char(n as int)]
    } else if n < 100 {
        seq![digit_char(n as int / 10), digit_char(n as int % 10)]
    } else {
        seq![
            digit_char(n as int / 100),
            digit_char((n as int / 10) % 10),
            digit_char(n as int % 10),
        ]
    }
}

/// The character for a decimal digit value.
pub open spec fn digit_char(d: int) -> char {
    ((48 + d) as u8) as char
}

/// The dotted decimal rendering of an IPv4 address.
pub open spec fn spec_ipv4_text(a: IPv4Address) -> Seq<char> {
    dec_chars_u8(a.spec_octets().0) + seq!['.'] + dec_chars_u8(a.spec_octets().1) + seq!['.']
        + dec_chars_u8(a.spec_octets().2) + seq!['.'] + dec_chars_u8(a.spec_octets().3)
}

/// Appends the canonical decimal rendering of `n`.
fn push_dec_u8(s: &mut String, n: u8)
    ensures
        final(s)@ == old(s)@ + dec_chars_u8(n),
{
    if n >= 100 {
        push_char(s, (48 + n / 100) as char);
        push_char(s, (48 + (n / 10) % 10) as char);
        push_char(s, (48 + n % 10) as char);
        proof {
            assert(s@ =~= old(s)@ + dec_chars_u8(n));
        }
    } else if n >= 10 {
        push_char(s, (48 + n / 10) as char);
        push_char(s, (48 + n % 10) as char);
        proof {
            assert(s@ =~= old(s)@ + dec_chars_u8(n));
        }
    } else {
        push_char(s, (48 + n) as char);
        proof {
            assert(s@ =~= old(s)@ + dec_chars_u8(n));
        }
    }
}


/// An IPv6 address as eight 16-bit groups, most significant first.
#[derive(Ord, PartialOrd, Eq, PartialEq, Hash, Debug, Copy, Clone)]
pub struct IPv6Address(pub [u16; 8]);

/// How many positions start a `"::"` pair.
pub open spec fn dc_count(b: Seq<u8>) -> int
    decreases b.len(),
{
    if b.len() < 2 {
        0
    } else {
        (if b[0] == 58 && b[1] == 58 {
            1int
        } else {
            0int
        }) + dc_count(b.drop_first())
    }
}

/// A single leading or trailing colon (not part of a `"::"`) would make the
/// walks read wrong sections, so it is rejected up front.
pub open spec fn stray_edge_colon(b: Seq<u8>) -> bool {
    b.len() > 0 && ((b[0] == 58 && !(b.len() > 1 && b[1] == 58)) || (b[b.len() - 1] == 58 && !(
    b.len() > 1 && b[b.len() - 2] == 58)))
}

/// The walk over leading sections: how many parse before the first empty
/// section (the elision), or the first error met.
pub open spec fn lead_scan(ss: Seq<Seq<u8>>, k: int) -> Result<int, IPParseError>
    decreases ss.len() - k,
{
    if k >= ss.len() {
        Ok(k)
    } else if k >= 8 {
        Err(IPParseError::TooManySections)
    } else if ss[k].len() == 0 {
        Ok(k)
    } else if spec_hex_u16(ss[k]) is None {
        Err(IPParseError::UnableToReadSection)
    } else {
        lead_scan(ss, k + 1)
    }
}

/// The walk over trailing sections, mirrored from the end.
pub open spec fn trail_scan(ss: Seq<Seq<u8>>, k: int) -> Result<int, IPParseError>
    decreases ss.len() - k,
{
    if k >= ss.len() {
        Ok(k)
    } else if k >= 8 {
        Err(IPParseError::TooManySections)
    } else if ss[ss.len() - 1 - k].len() == 0 {
        Ok(k)
    } else if spec_hex_u16(ss[ss.len() - 1 - k]) is None {
        Err(IPParseError::UnableToReadSection)
    } else {
        trail_scan(ss, k + 1)
    }
}

/// The eight groups named by `lead` parsed leading sections, `trail`
/// parsed trailing sections, and zeros in between.
pub open spec fn v6_groups(ss: Seq<Seq<u8>>, lead: int, trail: int) -> Seq<u16> {
    Seq::new(
        8,
        |i: int|
            if i < lead {
                spec_hex_u16(ss[i])->Some_0
            } else if i + trail >= 8 {
                spec_hex_u16(ss[ss.len() - 8 + i])->Some_0
            } else {
                0u16
            },
    )
}

/// What parsing a colon-separated IPv6 literal yields: the eight groups,
/// or the first error the algorithm meets.  At most one `"::"` elision is
/// allowed; leading sections are read up to it, trailing sections back
/// from the end, and the groups between are zero.
pub open spec fn spec_parse_ipv6(b: Seq<u8>) -> Result<Seq<u16>, IPParseError> {
    if dc_count(b) >= 2 {
        Err(IPParseError::MultipleZerosOmitted)
    } else if stray_edge_colon(b) {
        Err(IPParseError::MissingSections)
    } else {
        let ss = split_byte(b, 58);
        let omitted = dc_count(b) >= 1;
        match lead_scan(ss, 0) {
            Err(e) => Err(e),
            Ok(lead) => match trail_scan(ss, 0) {
                Err(e) => Err(e),
                Ok(trail) => if omitted && lead + trail >= 8 {
                    Err(IPParseError::TooManySections)
                } else if !omitted && lead < 8 {
                    Err(IPParseError::MissingSections)
                } else {
                    Ok(v6_groups(ss, lead, trail))
                },
            },
        }
    }
}

impl IPv6Address {
    /// Parses a colon-separated hexadecimal literal, with at most one
    /// `"::"` elision.
    pub fn parse_bytes(bytes: &[u8]) -> (r: Result<IPv6Address, IPParseError>)
        ensures
            match r {
                Ok(a) => spec_parse_ipv6(bytes@) is Ok && a.0@ == spec_parse_ipv6(bytes@)->Ok_0,
                Err(e) => spec_parse_ipv6(bytes@) == Err::<Seq<u16>, IPParseError>(e),
            },
    {
        let n = bytes.len();
        let mut dc: usize = 0;
        let mut i: usize = 0;
        proof {
            assert(bytes@.skip(0) =~= bytes@);
        }
        while i < n
            invariant
                n == bytes@.len(),
                i <= n,
                dc <= i,
                dc as int + dc_count(bytes@.skip(i as int)) == dc_count(bytes@),
            decreases n - i,
        {
            proof {
                assert(bytes@.skip(i as int).drop_first() =~= bytes@.skip(i + 1));
                if i + 1 < n {
                    assert(bytes@.skip(i as int)[0] == bytes@[i as int]);
                    assert(bytes@.skip(i as int)[1] == bytes@[i + 1]);
                }
            }
            if i + 1 < n && bytes[i] == 58 && bytes[i + 1] == 58 {
                dc = dc + 1;
            }
            i = i + 1;
        }
        proof {
            assert(dc_count(bytes@.skip(n as int)) == 0);
        }
        if dc >= 2 {
            return Err(IPParseError::MultipleZerosOmitted);
        }
        if n > 0 {
            let head_stray = bytes[0] == 58 && !(n > 1 && bytes[1] == 58);
            let tail_stray = bytes[n - 1] == 58 && !(n > 1 && bytes[n - 2] == 58);
            if head_stray || tail_stray {
                return Err(IPParseError::MissingSections);
            }
        }
        let parts = split_positions(bytes, 58);
        let ghost ss = split_byte(bytes@, 58);
        let mut lead_vals: Vec<u16> = Vec::new();
        let mut k: usize = 0;
        let mut broke: bool = false;
        while k < parts.len() && !broke
            invariant
                dc_count(bytes@) == dc as int,
                dc <= 1,
                !stray_edge_colon(bytes@),
                ss == split_byte(bytes@, 58),
                parts@.len() == ss.len(),
                forall|j: int|
                    0 <= j < parts@.len() ==> 0 <= (#[trigger] parts@[j]).0 <= parts@[j].1
                        <= bytes@.len() && bytes@.subrange(
                        parts@[j].0 as int,
                        parts@[j].1 as int,
                    ) == ss[j],
                k <= parts@.len(),
                k <= 8,
                lead_vals@.len() == k,
                lead_scan(ss, 0) == if broke {
                    Ok::<int, IPParseError>(k as int)
                } else {
                    lead_scan(ss, k as int)
                },
                forall|j: int| 0 <= j < k ==> spec_hex_u16(ss[j]) == Some(lead_vals@[j]),
            decreases parts@.len() - k + (if broke {
                0int
            } else {
                1int
            }),
        {
            if k >= 8 {
                return Err(IPParseError::TooManySections);
            }
            let (lo, hi) = (parts[k].0, parts[k].1);
            if lo == hi {
                proof {
                    assert(ss[k as int].len() == 0);
                }
                broke = true;
            } else {
                match parse_hex_u16(vstd::slice::slice_subrange(bytes, lo, hi)) {
                    Some(v) => {
                        lead_vals.push(v);
                        k = k + 1;
                    },
                    None => {
                        return Err(IPParseError::UnableToReadSection);
                    },
                }
            }
        }
        let lead = lead_vals.len();
        proof {
            assert(lead_scan(ss, 0) == Ok::<int, IPParseError>(lead as int));
        }
        let mut trail_vals: Vec<u16> = Vec::new();
        let mut t: usize = 0;
        let mut tbroke: bool = false;
        while t < parts.len() && !tbroke
            invariant
                dc_count(bytes@) == dc as int,
                dc <= 1,
                !stray_edge_colon(bytes@),
                lead_scan(ss, 0) == Ok::<int, IPParseError>(lead_vals@.len() as int),
                ss == split_byte(bytes@, 58),
                parts@.len() == ss.len(),
                forall|j: int|
                    0 <= j < parts@.len() ==> 0 <= (#[trigger] parts@[j]).0 <= parts@[j].1
                        <= bytes@.len() && bytes@.subrange(
                        parts@[j].0 as int,
                        parts@[j].1 as int,
                    ) == ss[j],
                t <= parts@.len(),
                t <= 8,
                trail_vals@.len() == t,
                trail_scan(ss, 0) == if tbroke {
                    Ok::<int, IPParseError>(t as int)
                } else {
                    trail_scan(ss, t as int)
                },
                forall|j: int|
                    0 <= j < t ==> spec_hex_u16(ss[ss.len() - 1 - j]) == Some(trail_vals@[j]),
            decreases parts@.len() - t + (if tbroke {
                0int
            } else {
                1int
            }),
        {
            if t >= 8 {
                return Err(IPParseError::TooManySections);
            }
            let idx = parts.len() - 1 - t;
            let (lo, hi) = (parts[idx].0, parts[idx].1);
            if lo == hi {
                proof {
                    assert(ss[ss.len() - 1 - t as int].len() == 0);
                }
                tbroke = true;
            } else {
                match parse_hex_u16(vstd::slice::slice_subrange(bytes, lo, hi)) {
                    Some(v) => {
                        trail_vals.push(v);
                        t = t + 1;
                    },
                    None => {
                        return Err(IPParseError::UnableToReadSection);
                    },
                }
            }
        }
        let trail = trail_vals.len();
        proof {
            assert(trail_scan(ss, 0) == Ok::<int, IPParseError>(trail as int));
        }
        if dc >= 1 && lead + trail >= 8 {
            return Err(IPParseError::TooManySections);
        }
        if dc == 0 && lead < 8 {
            return Err(IPParseError::MissingSections);
        }
        let mut gs: Vec<u16> = Vec::new();
        let mut gi: usize = 0;
        while gi < 8
            invariant
                dc_count(bytes@) == dc as int,
                dc <= 1,
                !stray_edge_colon(bytes@),
                lead_scan(ss, 0) == Ok::<int, IPParseError>(lead as int),
                trail_scan(ss, 0) == Ok::<int, IPParseError>(trail as int),
                !(dc >= 1 && lead + trail >= 8),
                !(dc == 0 && lead < 8),
                ss == split_byte(bytes@, 58),
                parts@.len() == ss.len(),
                lead == lead_vals@.len(),
                trail == trail_vals@.len(),
                lead <= 8,
                trail <= 8,
                trail <= ss.len(),
                forall|j: int| 0 <= j < lead ==> spec_hex_u16(ss[j]) == Some(lead_vals@[j]),
                forall|j: int|
                    0 <= j < trail ==> spec_hex_u16(ss[ss.len() - 1 - j]) == Some(trail_vals@[j]),
                gi <= 8,
                gs@.len() == gi,
                forall|j: int|
                    0 <= j < gi ==> gs@[j] == v6_groups(ss, lead as int, trail as int)[j],
            decreases 8 - gi,
        {
            let g: u16 = if gi < lead {
                lead_vals[gi]
            } else if gi + trail >= 8 {
                proof {
                    assert(ss.len() >= trail as int);
                    assert(ss.len() - 1 - (7 - gi as int) == ss.len() - 8 + gi as int);
                }
                trail_vals[7 - gi]
            } else {
                0
            };
            gs.push(g);
            gi = gi + 1;
        }
        let addr = IPv6Address([gs[0], gs[1], gs[2], gs[3], gs[4], gs[5], gs[6], gs[7]]);
        proof {
            assert(addr.0@ =~= v6_groups(ss, lead as int, trail as int));
        }
        Ok(addr)
    }
}


/// The character for a hexadecimal digit value (lowercase).
pub open spec fn hex_digit_char(v: int) -> char {
    if v < 10 {
        ((48 + v) as u8) as char
    } else {
        ((87 + v) as u8) as char
    }
}

/// The canonical lowercase hexadecimal rendering of a 16-bit number
/// (no leading zeros).
pub open spec fn hex_chars_u16(n: u16) -> Seq<char> {
    if n < 0x10 {
        seq![hex_digit_char(n as int)]
    } else if n < 0x100 {
        seq![hex_digit_char(n as int / 16), hex_digit_char(n as int % 16)]
    } else if n < 0x1000 {
        seq![
            hex_digit_char(n as int / 256),
            hex_digit_char((n as int / 16) % 16),
            hex_digit_char(n as int % 16),
        ]
    } else {
        seq![
            hex_digit_char(n as int / 4096),
            hex_digit_char((n as int / 256) % 16),
            hex_digit_char((n as int / 16) % 16),
            hex_digit_char(n as int % 16),
        ]
    }
}

/// Appends one lowercase hexadecimal digit for a value below 16.
fn push_hex_digit(s: &mut String, v: u16)
    requires
        v < 16,
    ensures
        final(s)@ == old(s)@.push(hex_digit_char(v as int)),
{
    if v < 10 {
        push_char(s, (48 + v as u8) as char);
    } else {
        push_char(s, (87 + v as u8) as char);
    }
}

/// Appends the canonical lowercase hexadecimal rendering of `n`.
fn push_hex_u16(s: &mut String, n: u16)
    ensures
        final(s)@ == old(s)@ + hex_chars_u16(n),
{
    if n >= 0x1000 {
        push_hex_digit(s, n / 4096);
        push_hex_digit(s, (n / 256) % 16);
        push_hex_digit(s, (n / 16) % 16);
        push_hex_digit(s, n % 16);
        proof {
            assert(s@ =~= old(s)@ + hex_chars_u16(n));
        }
    } else if n >= 0x100 {
        push_hex_digit(s, n / 256);
        push_hex_digit(s, (n / 16) % 16);
        push_hex_digit(s, n % 16);
        proof {
            assert(s@ =~= old(s)@ + hex_chars_u16(n));
        }
    } else if n >= 0x10 {
        push_hex_digit(s, n / 16);
        push_hex_digit(s, n % 16);
        proof {
            assert(s@ =~= old(s)@ + hex_chars_u16(n));
        }
    } else {
        push_hex_digit(s, n);
        proof {
            assert(s@ =~= old(s)@ + hex_chars_u16(n));
        }
    }
}

/// The fold that finds the longest (earliest, in case of ties) run of zero
/// groups: `zeros` is the length of the zero run ending just before `i`,
/// and `(best_len, best_idx)` the best run seen so far.
pub open spec fn run_fold(g: Seq<u16>, i: int, zeros: int, best_len: int, best_idx: int) -> (
    int,
    int,
)
    decreases g.len() - i,
{
    if i < 0 || i >= g.len() {
        (best_len, best_idx)
    } else if g[i] == 0 {
        if zeros + 1 > best_len {
            run_fold(g, i + 1, zeros + 1, zeros + 1, i - zeros)
        } else {
            run_fold(g, i + 1, zeros + 1, best_len, best_idx)
        }
    } else {
        run_fold(g, i + 1, 0, best_len, best_idx)
    }
}

/// The longest run of zero groups: its length and start index.
pub open spec fn best_zero_run(g: Seq<u16>) -> (int, int) {
    run_fold(g, 0, 0, 0, 0)
}

/// The rendering walk from group `idx` on, with the longest zero run of
/// length `lz` starting at `li`: groups joined by colons, the longest run
/// elided.
pub open spec fn render_v6(g: Seq<u16>, idx: int, li: int, lz: int) -> Seq<char>
    decreases 8 - idx,
{
    if idx < 0 || idx >= 8 || g.len() != 8 {
        Seq::empty()
    } else {
        let head = if idx > 0 {
            seq![':']
        } else {
            Seq::<char>::empty()
        };
        if idx == li && lz > 0 {
            let mid = if idx == 0 || idx + lz == 8 {
                seq![':']
            } else {
                Seq::<char>::empty()
            };
            let next = if idx + lz <= 8 {
                idx + lz
            } else {
                8
            };
            head + mid + render_v6(g, next, li, lz)
        } else {
            head + hex_chars_u16(g[idx]) + render_v6(g, idx + 1, li, lz)
        }
    }
}

/// The canonical rendering of an IPv6 address: lowercase hexadecimal
/// groups joined by colons, the longest zero run elided; all-zero renders
/// as `"::"`.
pub open spec fn spec_ipv6_text(a: IPv6Address) -> Seq<char> {
    if best_zero_run(a.0@).0 == 8 {
        seq![':', ':']
    } else {
        render_v6(a.0@, 0, best_zero_run(a.0@).1, best_zero_run(a.0@).0)
    }
}

impl IPv6Address {
    /// The longest run of zero groups (its length, then its start).
    fn best_run(&self) -> (r: (usize, usize))
        ensures
            r.0 as int == best_zero_run(self.0@).0,
            r.1 as int == best_zero_run(self.0@).1,
            r.0 <= 8,
            r.1 + r.0 <= 8,
    {
        let mut zeros: usize = 0;
        let mut best_len: usize = 0;
        let mut best_idx: usize = 0;
        let mut i: usize = 0;
        while i < 8
            invariant
                self.0@.len() == 8,
                i <= 8,
                zeros <= i,
                best_len <= i,
                best_idx + best_len <= i,
                best_zero_run(self.0@) == run_fold(
                    self.0@,
                    i as int,
                    zeros as int,
                    best_len as int,
                    best_idx as int,
                ),
            decreases 8 - i,
        {
            if self.0[i] == 0 {
                zeros = zeros + 1;
                if zeros > best_len {
                    best_len = zeros;
                    best_idx = i + 1 - zeros;
                }
            } else {
                zeros = 0;
            }
            i = i + 1;
        }
        (best_len, best_idx)
    }

    /// The canonical textual rendering, e.g. `"2041:0:140f::875c:131d"`.
    pub fn to_string(&self) -> (r: String)
        ensures
            r@ == spec_ipv6_text(*self),
    {
        let (lz, li) = self.best_run();
        let mut s = String::new();
        if lz == 8 {
            push_char(&mut s, ':');
            push_char(&mut s, ':');
            proof {
                assert(s@ =~= seq![':', ':']);
            }
            return s;
        }
        let mut idx: usize = 0;
        while idx < 8
            invariant
                self.0@.len() == 8,
                idx <= 8,
                lz as int == best_zero_run(self.0@).0,
                li as int == best_zero_run(self.0@).1,
                lz < 8,
                li + lz <= 8,
                spec_ipv6_text(*self) == s@ + render_v6(
                    self.0@,
                    idx as int,
                    li as int,
                    lz as int,
                ),
            decreases 8 - idx,
        {
            let ghost pre = s@;
            if idx > 0 {
                push_char(&mut s, ':');
            }
            if idx == li && lz > 0 {
                if idx == 0 || idx + lz == 8 {
                    push_char(&mut s, ':');
                }
                proof {
                    let head: Seq<char> = if idx > 0 {
                        seq![':']
                    } else {
                        Seq::<char>::empty()
                    };
                    let mid: Seq<char> = if idx == 0 || idx as int + lz as int == 8 {
                        seq![':']
                    } else {
                        Seq::<char>::empty()
                    };
                    assert(s@ =~= pre + head + mid);
                    assert(pre + head + mid + render_v6(self.0@, idx + lz, li as int, lz as int)
                        =~= pre + (head + mid + render_v6(self.0@, idx + lz, li as int, lz as int)));
                }
                idx = idx + lz;
            } else {
                push_hex_u16(&mut s, self.0[idx]);
                proof {
                    let head: Seq<char> = if idx > 0 {
                        seq![':']
                    } else {
                        Seq::<char>::empty()
                    };
                    assert(s@ =~= pre + head + hex_chars_u16(self.0@[idx as int]));
                    assert(pre + head + hex_chars_u16(self.0@[idx as int]) + render_v6(
                        self.0@,
                        idx + 1,
                        li as int,
                        lz as int,
                    ) =~= pre + (head + hex_chars_u16(self.0@[idx as int]) + render_v6(
                        self.0@,
                        idx + 1,
                        li as int,
                        lz as int,
                    )));
                }
                idx = idx + 1;
            }
        }
        s
    }
}

impl core::str::FromStr for IPv4Address {
    type Err = IPParseError;

    fn from_str(s: &str) -> Result<IPv4Address, IPParseError> {
        IPv4Address::parse_bytes(s.as_bytes())
    }
}

impl core::str::FromStr for IPv6Address {
    type Err = IPParseError;

    fn from_str(s: &str) -> Result<IPv6Address, IPParseError> {
        IPv6Address::parse_bytes(s.as_bytes())
    }
}

impl From<[u8; 4]> for IPv4Address {
    /// Builds the address from four octets, most significant first.
    fn from(bytes: [u8; 4]) -> (r: IPv4Address) {
        IPv4Address::from_octets(bytes[0], bytes[1], bytes[2], bytes[3])
    }
}

impl vstd::std_specs::convert::FromSpecImpl<[u8; 4]> for IPv4Address {
    open spec fn obeys_from_spec() -> bool {
        true
    }

    open spec fn from_spec(bytes: [u8; 4]) -> IPv4Address {
        IPv4Address(u32_of_octets(bytes@[0], bytes@[1], bytes@[2], bytes@[3]))
    }
}

impl From<[u16; 8]> for IPv6Address {
    /// Wraps eight groups, most significant first.
    fn from(parts: [u16; 8]) -> (r: IPv6Address) {
        IPv6Address(parts)
    }
}

impl vstd::std_specs::convert::FromSpecImpl<[u16; 8]> for IPv6Address {
    open spec fn obeys_from_spec() -> bool {
        true
    }

    open spec fn from_spec(parts: [u16; 8]) -> IPv6Address {
        IPv6Address(parts)
    }
}

/// An inclusive range of addresses, ordered with priority on the start
/// position.
#[derive(Ord, PartialOrd, Eq, PartialEq, Copy, Clone)]
pub struct IpRange<A> {
    pub start: A,
    pub end: A,
}

impl<A> IpRange<A> {
    /// The range from `start` to `end`, inclusive.
    pub fn new(start: A, end: A) -> (r: Self)
        ensures
            r.start == start,
            r.end == end,
    {
        IpRange { start, end }
    }
}

impl<A: Clone> IpRange<A> {
    /// The range holding exactly `x`.  (For a `Clone` that is not `Copy`
    /// nothing relates the clone to the original, so only the range's end
    /// is pinned here.)
    pub fn single(x: A) -> (r: Self)
        ensures
            r.end == x,
    {
        IpRange { start: x.clone(), end: x }
    }
}

impl<A: Ord> IpRange<A> {
    /// Whether `x` lies inside the range (inclusive at both ends).
    pub fn contains(&self, x: &A) -> (r: bool)
        ensures
            <A as vstd::std_specs::cmp::PartialOrdSpec>::obeys_partial_cmp_spec() ==> r == {
                &&& vstd::std_specs::cmp::PartialOrdIs::is_le(&self.start, x)
                &&& vstd::std_specs::cmp::PartialOrdIs::is_ge(&self.end, x)
            },
    {
        self.start.le(x) && self.end.ge(x)
    }
}

} // verus!
