//! Derivation of stable, filesystem-safe cache file names from URLs.
//!
//! A cache file name is the uppercase hexadecimal digest of a 64-bit
//! FNV-style hash of the normalized URL, followed by an underscore and a
//! sanitized, length-bounded copy of the URL's trailing path segment.

use vstd::prelude::*;
use vstd::string::StringSliceAdditionalSpecFns;

verus! {

/// Multiplier of the 64-bit FNV hash family.
pub const FNV_64_PRIME: u64 = 0x100000001b3;

/// One round of the hash: multiply the accumulator by the FNV prime
/// (wrapping on overflow), then fold in the next byte with xor.
pub open spec fn spec_fnv_step(hash: u64, byte: u8) -> u64 {
    vstd::wrapping::u64_specs::wrapping_mul(hash, FNV_64_PRIME) ^ (byte as u64)
}

/// Hash of a whole byte sequence, starting from an accumulator of zero.
pub open spec fn spec_fnv(bytes: Seq<u8>) -> u64
    decreases bytes.len(),
{
    if bytes.len() == 0 {
        0u64
    } else {
        spec_fnv_step(spec_fnv(bytes.drop_last()), bytes.last())
    }
}

/// 64-bit FNV-style hash of a byte slice (zero offset basis, wrapping
/// multiplication by the FNV prime, xor folding).
pub fn fnv_hash(bytes: &[u8]) -> (hash: u64)
    ensures
        hash == spec_fnv(bytes@),
{
    let mut hash: u64 = 0;
    let mut i: usize = 0;
    while i < bytes.len()
        invariant
            i <= bytes@.len(),
            hash == spec_fnv(bytes@.take(i as int)),
        decreases bytes@.len() - i,
    {
        proof {
            assert(bytes@.take(i + 1).drop_last() =~= bytes@.take(i as int));
            assert(bytes@.take(i + 1).last() == bytes@[i as int]);
        }
        hash = hash.wrapping_mul(FNV_64_PRIME) ^ (bytes[i] as u64);
        i = i + 1;
    }
    proof {
        assert(bytes@.take(bytes@.len() as int) =~= bytes@);
    }
    hash
}


/// `b` with leading `c` bytes removed.
pub open spec fn trim_start_byte(b: Seq<u8>, c: u8) -> Seq<u8>
    decreases b.len(),
{
    if b.len() > 0 && b[0] == c {
        trim_start_byte(b.drop_first(), c)
    } else {
        b
    }
}

/// `b` with trailing `c` bytes removed.
pub open spec fn trim_end_byte(b: Seq<u8>, c: u8) -> Seq<u8>
    decreases b.len(),
{
    if b.len() > 0 && b.last() == c {
        trim_end_byte(b.drop_last(), c)
    } else {
        b
    }
}

/// Whether `b` begins with `p`.
pub open spec fn starts_with(b: Seq<u8>, p: Seq<u8>) -> bool {
    b.len() >= p.len() && b.take(p.len() as int) == p
}

/// The scheme prefix `"http://"`.
pub open spec fn http_prefix() -> Seq<u8> {
    seq![104u8, 116u8, 116u8, 112u8, 58u8, 47u8, 47u8]
}

/// The scheme prefix `"https://"`.
pub open spec fn https_prefix() -> Seq<u8> {
    seq![104u8, 116u8, 116u8, 112u8, 115u8, 58u8, 47u8, 47u8]
}

/// The host prefix `"www."`.
pub open spec fn www_prefix() -> Seq<u8> {
    seq![119u8, 119u8, 119u8, 46u8]
}

/// The normalized form of a URL: surrounding whitespace and slashes
/// trimmed, then the scheme and a `"www."` prefix stripped (each at most
/// once, in that order).
pub open spec fn spec_normalize(b: Seq<u8>) -> Seq<u8> {
    let t = trim_end_byte(trim_start_byte(crate::bytesize::spec_trim(b), 47), 47);
    let s1 = if starts_with(t, http_prefix()) {
        t.skip(7)
    } else {
        t
    };
    let s2 = if starts_with(s1, https_prefix()) {
        s1.skip(8)
    } else {
        s1
    };
    if starts_with(s2, www_prefix()) {
        s2.skip(4)
    } else {
        s2
    }
}

/// Position of the last occurrence of `c`.
pub open spec fn last_byte(b: Seq<u8>, c: u8) -> Option<int>
    decreases b.len(),
{
    if b.len() == 0 {
        None
    } else if b.last() == c {
        Some(b.len() - 1)
    } else {
        last_byte(b.drop_last(), c)
    }
}

/// An occurrence at `p` with none later fixes `last_byte`.
pub proof fn lemma_last_byte_witness(b: Seq<u8>, c: u8, p: int)
    requires
        0 <= p < b.len(),
        b[p] == c,
        forall|j: int| p < j < b.len() ==> b[j] != c,
    ensures
        last_byte(b, c) == Some(p),
    decreases b.len(),
{
    if p < b.len() - 1 {
        assert(forall|j: int| 0 <= j < b.drop_last().len() ==> b.drop_last()[j] == b[j]);
        lemma_last_byte_witness(b.drop_last(), c, p);
    }
}

/// With no occurrence, `last_byte` finds nothing.
pub proof fn lemma_last_byte_none(b: Seq<u8>, c: u8)
    requires
        forall|j: int| 0 <= j < b.len() ==> b[j] != c,
    ensures
        last_byte(b, c) is None,
    decreases b.len(),
{
    if b.len() > 0 {
        assert(forall|j: int| 0 <= j < b.drop_last().len() ==> b.drop_last()[j] == b[j]);
        lemma_last_byte_none(b.drop_last(), c);
    }
}

/// The trailing path segment of a normalized URL: what follows the last
/// slash, or the whole string without one.
pub open spec fn spec_segment(n: Seq<u8>) -> Seq<u8> {
    match last_byte(n, 47) {
        Some(p) => n.skip(p + 1),
        None => n,
    }
}

/// The longest a sanitized trailing segment may be, in bytes.
pub const MAX_SEGMENT_BYTES: usize = 128;

/// The width in bytes of the UTF-8 encoding that starts with this byte
/// (one for anything that is not a leading byte, mirroring a byte-wise
/// fallback that valid encodings never reach).
pub open spec fn spec_width(b0: u8) -> int {
    if vstd::utf8::is_leading_byte_width_1(b0) {
        1
    } else if vstd::utf8::is_leading_byte_width_2(b0) {
        2
    } else if vstd::utf8::is_leading_byte_width_3(b0) {
        3
    } else if vstd::utf8::is_leading_byte_width_4(b0) {
        4
    } else {
        1
    }
}

/// The segment truncated to the length bound by removing leading
/// characters, stepping by whole encodings.
pub open spec fn spec_truncate(b: Seq<u8>) -> Seq<u8>
    decreases b.len(),
{
    if b.len() <= MAX_SEGMENT_BYTES {
        b
    } else {
        spec_truncate(b.skip(spec_width(b[0])))
    }
}

/// The digit byte of a hexadecimal value (uppercase).
pub open spec fn hex_byte(d: int) -> u8 {
    if d < 10 {
        (48 + d) as u8
    } else {
        (55 + d) as u8
    }
}

/// The uppercase hexadecimal digits of `h`, without leading zeros.
pub open spec fn spec_hex_u64(h: u64) -> Seq<u8>
    decreases h,
{
    if h < 16 {
        seq![hex_byte(h as int)]
    } else {
        spec_hex_u64((h / 16) as u64).push(hex_byte((h % 16) as int))
    }
}

/// The cache file name for a URL, as bytes: the uppercase hexadecimal
/// digest of the normalized URL's hash, an underscore, and the sanitized
/// trailing segment.
pub open spec fn spec_cache_file_bytes(b: Seq<u8>) -> Seq<u8> {
    spec_hex_u64(spec_fnv(spec_normalize(b))) + seq![95u8] + spec_truncate(
        spec_segment(spec_normalize(b)),
    )
}

/// Whether `b` begins with `p`.
fn starts_with_check(b: &[u8], p: &[u8]) -> (r: bool)
    ensures
        r == starts_with(b@, p@),
{
    if b.len() < p.len() {
        return false;
    }
    let r = crate::util::bytes_eq(vstd::slice::slice_subrange(b, 0, p.len()), p);
    proof {
        assert(b@.subrange(0, p@.len() as int) =~= b@.take(p@.len() as int));
    }
    r
}

/// The width in bytes of the UTF-8 encoding that starts with this byte.
fn char_width(b0: u8) -> (w: usize)
    ensures
        w as int == spec_width(b0),
        1 <= w <= 4,
{
    if b0 <= 0x7f {
        1
    } else if 0xc0 <= b0 && b0 <= 0xdf {
        2
    } else if 0xe0 <= b0 && b0 <= 0xef {
        3
    } else if 0xf0 <= b0 && b0 <= 0xf7 {
        4
    } else {
        1
    }
}

/// Appends the uppercase hexadecimal digits of `h`.
fn push_hex_u64(out: &mut Vec<u8>, h: u64)
    ensures
        final(out)@ == old(out)@ + spec_hex_u64(h),
    decreases h,
{
    if h >= 16 {
        push_hex_u64(out, h / 16);
    }
    let d = (h % 16) as u8;
    if d < 10 {
        out.push(48 + d);
    } else {
        out.push(55 + d);
    }
    proof {
        assert(out@ =~= old(out)@ + spec_hex_u64(h));
    }
}

/// The normalized form of a URL, as a subslice.
fn normalize(b: &[u8]) -> (r: &[u8])
    ensures
        r@ == spec_normalize(b@),
{
    let (lo0, hi0) = crate::bytesize::trim_bounds(b, 0, b.len());
    proof {
        assert(b@.subrange(0, b@.len() as int) =~= b@);
    }
    let mut lo = lo0;
    let mut hi = hi0;
    let ghost trimmed = crate::bytesize::spec_trim(b@);
    while lo < hi && b[lo] == 47
        invariant
            lo0 <= lo <= hi <= b@.len(),
            hi == hi0,
            trimmed == crate::bytesize::spec_trim(b@),
            trim_start_byte(trimmed, 47) == trim_start_byte(b@.subrange(lo as int, hi as int), 47),
        decreases hi - lo,
    {
        proof {
            assert(b@.subrange(lo as int, hi as int).drop_first() =~= b@.subrange(
                lo + 1,
                hi as int,
            ));
        }
        lo = lo + 1;
    }
    proof {
        if lo < hi {
            assert(b@.subrange(lo as int, hi as int)[0] == b@[lo as int]);
        }
        assert(trim_start_byte(b@.subrange(lo as int, hi as int), 47) == b@.subrange(
            lo as int,
            hi as int,
        ));
    }
    let ghost started = trim_start_byte(trimmed, 47);
    while hi > lo && b[hi - 1] == 47
        invariant
            lo <= hi <= b@.len(),
            started == trim_start_byte(trimmed, 47),
            trim_end_byte(started, 47) == trim_end_byte(b@.subrange(lo as int, hi as int), 47),
        decreases hi - lo,
    {
        proof {
            assert(b@.subrange(lo as int, hi as int).drop_last() =~= b@.subrange(lo as int, hi - 1));
            assert(b@.subrange(lo as int, hi as int).last() == b@[hi - 1]);
        }
        hi = hi - 1;
    }
    proof {
        if hi > lo {
            assert(b@.subrange(lo as int, hi as int).last() == b@[hi - 1]);
        }
        assert(trim_end_byte(b@.subrange(lo as int, hi as int), 47) == b@.subrange(
            lo as int,
            hi as int,
        ));
    }
    let mut s = vstd::slice::slice_subrange(b, lo, hi);
    let http: [u8; 7] = [104, 116, 116, 112, 58, 47, 47];
    let https: [u8; 8] = [104, 116, 116, 112, 115, 58, 47, 47];
    let www: [u8; 4] = [119, 119, 119, 46];
    proof {
        assert(http@ =~= http_prefix());
        assert(https@ =~= https_prefix());
        assert(www@ =~= www_prefix());
    }
    if starts_with_check(s, http.as_slice()) {
        let next = vstd::slice::slice_subrange(s, 7, s.len());
        proof {
            assert(next@ =~= s@.skip(7));
        }
        s = next;
    }
    if starts_with_check(s, https.as_slice()) {
        let next = vstd::slice::slice_subrange(s, 8, s.len());
        proof {
            assert(next@ =~= s@.skip(8));
        }
        s = next;
    }
    if starts_with_check(s, www.as_slice()) {
        let next = vstd::slice::slice_subrange(s, 4, s.len());
        proof {
            assert(next@ =~= s@.skip(4));
        }
        s = next;
    }
    s
}

/// The cache file name for a URL, as bytes.
pub fn cache_key_for(url: &str) -> (r: Vec<u8>)
    ensures
        r@ == spec_cache_file_bytes(url.spec_bytes()),
{
    let b = url.as_bytes();
    let n = normalize(b);
    let hash = fnv_hash(n);
    let ghost norm = spec_normalize(b@);
    let mut seg = n;
    let mut p: usize = n.len();
    while p > 0 && n[p - 1] != 47
        invariant
            p <= n@.len(),
            n@ == norm,
            forall|j: int| p <= j < n@.len() ==> n@[j] != 47,
        decreases p,
    {
        p = p - 1;
    }
    if p == 0 {
        proof {
            lemma_last_byte_none(norm, 47);
        }
    } else {
        proof {
            lemma_last_byte_witness(norm, 47, p - 1);
        }
        let next = vstd::slice::slice_subrange(n, p, n.len());
        proof {
            assert(next@ =~= norm.skip(p as int));
        }
        seg = next;
    }
    proof {
        assert(seg@ == spec_segment(norm));
    }
    let ghost seg0 = spec_segment(norm);
    while seg.len() > MAX_SEGMENT_BYTES
        invariant
            spec_truncate(seg0) == spec_truncate(seg@),
        decreases seg@.len(),
    {
        let w = char_width(seg[0]);
        let next = vstd::slice::slice_subrange(seg, w, seg.len());
        proof {
            assert(next@ =~= seg@.skip(spec_width(seg@[0])));
        }
        seg = next;
    }
    let mut out: Vec<u8> = Vec::new();
    push_hex_u64(&mut out, hash);
    out.push(95);
    crate::util::append_bytes(&mut out, seg);
    proof {
        assert(out@ =~= spec_hex_u64(spec_fnv(norm)) + seq![95u8] + spec_truncate(
            spec_segment(norm),
        ));
    }
    out
}


/// In valid UTF-8, what follows an ASCII byte is itself valid UTF-8.
proof fn lemma_valid_after_ascii(b: Seq<u8>, s: int)
    requires
        vstd::utf8::valid_utf8(b),
        1 <= s <= b.len(),
        b[s - 1] < 0x80,
    ensures
        vstd::utf8::valid_utf8(b.subrange(s, b.len() as int)),
{
    vstd::utf8::is_char_boundary_iff_not_is_continuation_byte(b, s - 1);
    vstd::utf8::valid_utf8_split(b, s - 1);
    let t = b.subrange(s - 1, b.len() as int);
    assert(t[0] == b[s - 1]);
    assert(vstd::utf8::valid_first_scalar(t));
    assert(vstd::utf8::length_of_first_scalar(t) == 1);
    assert(vstd::utf8::pop_first_scalar(t) =~= b.subrange(s, b.len() as int));
}

/// Trimming leading ASCII whitespace keeps the bytes valid UTF-8.
proof fn lemma_valid_trim_sp_start(b: Seq<u8>)
    requires
        vstd::utf8::valid_utf8(b),
    ensures
        vstd::utf8::valid_utf8(crate::bytesize::trim_start(b)),
    decreases b.len(),
{
    if b.len() > 0 && crate::bytesize::is_space(b[0]) {
        lemma_valid_after_ascii(b, 1);
        assert(b.drop_first() =~= b.subrange(1, b.len() as int));
        lemma_valid_trim_sp_start(b.drop_first());
    }
}

/// Trimming trailing ASCII whitespace keeps the bytes valid UTF-8.
proof fn lemma_valid_trim_sp_end(b: Seq<u8>)
    requires
        vstd::utf8::valid_utf8(b),
    ensures
        vstd::utf8::valid_utf8(crate::bytesize::trim_end(b)),
    decreases b.len(),
{
    if b.len() > 0 && crate::bytesize::is_space(b.last()) {
        vstd::utf8::is_char_boundary_iff_not_is_continuation_byte(b, b.len() - 1);
        vstd::utf8::valid_utf8_split(b, b.len() - 1);
        assert(b.drop_last() =~= b.subrange(0, b.len() - 1));
        lemma_valid_trim_sp_end(b.drop_last());
    }
}

/// Trimming a leading ASCII byte run keeps the bytes valid UTF-8.
proof fn lemma_valid_trim_byte_start(b: Seq<u8>, c: u8)
    requires
        vstd::utf8::valid_utf8(b),
        c < 0x80,
    ensures
        vstd::utf8::valid_utf8(trim_start_byte(b, c)),
    decreases b.len(),
{
    if b.len() > 0 && b[0] == c {
        lemma_valid_after_ascii(b, 1);
        assert(b.drop_first() =~= b.subrange(1, b.len() as int));
        lemma_valid_trim_byte_start(b.drop_first(), c);
    }
}

/// Trimming a trailing ASCII byte run keeps the bytes valid UTF-8.
proof fn lemma_valid_trim_byte_end(b: Seq<u8>, c: u8)
    requires
        vstd::utf8::valid_utf8(b),
        c < 0x80,
    ensures
        vstd::utf8::valid_utf8(trim_end_byte(b, c)),
    decreases b.len(),
{
    if b.len() > 0 && b.last() == c {
        vstd::utf8::is_char_boundary_iff_not_is_continuation_byte(b, b.len() - 1);
        vstd::utf8::valid_utf8_split(b, b.len() - 1);
        assert(b.drop_last() =~= b.subrange(0, b.len() - 1));
        lemma_valid_trim_byte_end(b.drop_last(), c);
    }
}

/// The normalized form of valid UTF-8 is valid UTF-8.
proof fn lemma_valid_normalize(b: Seq<u8>)
    requires
        vstd::utf8::valid_utf8(b),
    ensures
        vstd::utf8::valid_utf8(spec_normalize(b)),
{
    lemma_valid_trim_sp_start(b);
    lemma_valid_trim_sp_end(crate::bytesize::trim_start(b));
    let tr = crate::bytesize::spec_trim(b);
    lemma_valid_trim_byte_start(tr, 47);
    lemma_valid_trim_byte_end(trim_start_byte(tr, 47), 47);
    let t = trim_end_byte(trim_start_byte(tr, 47), 47);
    let s1 = if starts_with(t, http_prefix()) {
        t.skip(7)
    } else {
        t
    };
    if starts_with(t, http_prefix()) {
        assert(t[6] == http_prefix()[6]);
        lemma_valid_after_ascii(t, 7);
        assert(t.skip(7) =~= t.subrange(7, t.len() as int));
    }
    let s2 = if starts_with(s1, https_prefix()) {
        s1.skip(8)
    } else {
        s1
    };
    if starts_with(s1, https_prefix()) {
        assert(s1[7] == https_prefix()[7]);
        lemma_valid_after_ascii(s1, 8);
        assert(s1.skip(8) =~= s1.subrange(8, s1.len() as int));
    }
    if starts_with(s2, www_prefix()) {
        assert(s2[3] == www_prefix()[3]);
        lemma_valid_after_ascii(s2, 4);
        assert(s2.skip(4) =~= s2.subrange(4, s2.len() as int));
    }
}

/// The trailing segment of valid UTF-8 is valid UTF-8.
proof fn lemma_valid_segment(n: Seq<u8>)
    requires
        vstd::utf8::valid_utf8(n),
    ensures
        vstd::utf8::valid_utf8(spec_segment(n)),
{
    match last_byte(n, 47) {
        Some(p) => {
            lemma_last_byte_props(n, 47);
            lemma_valid_after_ascii(n, p + 1);
            assert(n.skip(p + 1) =~= n.subrange(p + 1, n.len() as int));
        },
        None => {
        },
    }
}

/// What `last_byte` returns points at an occurrence.
proof fn lemma_last_byte_props(b: Seq<u8>, c: u8)
    ensures
        match last_byte(b, c) {
            Some(p) => 0 <= p < b.len() && b[p] == c,
            None => true,
        },
    decreases b.len(),
{
    if b.len() > 0 && b.last() != c {
        assert(forall|j: int| 0 <= j < b.drop_last().len() ==> b.drop_last()[j] == b[j]);
        lemma_last_byte_props(b.drop_last(), c);
    }
}

/// For valid UTF-8, the width read from the first byte is the length of
/// the first encoded scalar.
proof fn lemma_width_matches(b: Seq<u8>)
    requires
        vstd::utf8::valid_utf8(b),
        b.len() > 0,
    ensures
        spec_width(b[0]) == vstd::utf8::length_of_first_scalar(b),
{
    assert(vstd::utf8::valid_first_scalar(b));
}

/// Truncating valid UTF-8 by whole encodings keeps it valid.
proof fn lemma_valid_truncate(b: Seq<u8>)
    requires
        vstd::utf8::valid_utf8(b),
    ensures
        vstd::utf8::valid_utf8(spec_truncate(b)),
    decreases b.len(),
{
    if b.len() > MAX_SEGMENT_BYTES {
        lemma_width_matches(b);
        assert(b.skip(spec_width(b[0])) =~= vstd::utf8::pop_first_scalar(b));
        lemma_valid_truncate(b.skip(spec_width(b[0])));
    }
}

/// A sequence of ASCII bytes is valid UTF-8.
proof fn lemma_ascii_valid(b: Seq<u8>)
    requires
        forall|i: int| 0 <= i < b.len() ==> b[i] < 0x80,
    ensures
        vstd::utf8::valid_utf8(b),
    decreases b.len(),
{
    if b.len() > 0 {
        assert(vstd::utf8::valid_first_scalar(b));
        assert(vstd::utf8::length_of_first_scalar(b) == 1);
        assert(vstd::utf8::pop_first_scalar(b) =~= b.drop_first());
        assert(forall|i: int| 0 <= i < b.drop_first().len() ==> b.drop_first()[i] == b[i + 1]);
        lemma_ascii_valid(b.drop_first());
    }
}

/// Hexadecimal digit bytes are ASCII.
proof fn lemma_hex_ascii(h: u64)
    ensures
        forall|i: int|
            0 <= i < spec_hex_u64(h).len() ==> #[trigger] spec_hex_u64(h)[i] < 0x80,
    decreases h,
{
    if h < 16 {
        assert(spec_hex_u64(h) == seq![hex_byte(h as int)]);
        assert(spec_hex_u64(h)[0] == hex_byte(h as int));
    } else {
        lemma_hex_ascii(h / 16);
        let pre = spec_hex_u64((h / 16) as u64);
        assert forall|i: int|
            0 <= i < spec_hex_u64(h).len() implies #[trigger] spec_hex_u64(h)[i] < 0x80 by {
            if i < pre.len() {
                assert(spec_hex_u64(h)[i] == pre[i]);
            } else {
                assert(spec_hex_u64(h)[i] == hex_byte((h % 16) as int));
            }
        }
    }
}

/// The cache file name of a URL is valid UTF-8.
pub proof fn lemma_cache_file_bytes_valid(b: Seq<u8>)
    requires
        vstd::utf8::valid_utf8(b),
    ensures
        vstd::utf8::valid_utf8(spec_cache_file_bytes(b)),
{
    let h = spec_fnv(spec_normalize(b));
    lemma_valid_normalize(b);
    lemma_valid_segment(spec_normalize(b));
    lemma_valid_truncate(spec_segment(spec_normalize(b)));
    lemma_hex_ascii(h);
    let head = spec_hex_u64(h) + seq![95u8];
    assert(forall|i: int| 0 <= i < head.len() ==> head[i] < 0x80);
    lemma_ascii_valid(head);
    vstd::utf8::valid_utf8_concat(head, spec_truncate(spec_segment(spec_normalize(b))));
    assert(spec_cache_file_bytes(b) =~= head + spec_truncate(spec_segment(spec_normalize(b))));
}

/// Derives the stable, filesystem-safe cache file name of a URL: the
/// uppercase hexadecimal digest of the normalized URL's hash, an
/// underscore, and the sanitized trailing path segment.
pub fn cache_file_for(url: &str) -> (r: String)
    ensures
        r@ == vstd::utf8::decode_utf8(spec_cache_file_bytes(url.spec_bytes())),
{
    let v = cache_key_for(url);
    proof {
        broadcast use vstd::utf8::encode_utf8_valid_utf8;

        lemma_cache_file_bytes_valid(url.spec_bytes());
    }
    crate::util::string_from_utf8(v)
}

} // verus!