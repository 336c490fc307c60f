//! Small helpers shared across the crate.

use vstd::prelude::*;

verus! {

/// Whether two byte slices hold the same bytes.
pub fn bytes_eq(a: &[u8], b: &[u8]) -> (r: bool)
    ensures
        r == (a@ == b@),
{
    if a.len() != b.len() {
        return false;
    }
    let mut i: usize = 0;
    while i < a.len()
        invariant
            a@.len() == b@.len(),
            i <= a@.len(),
            forall|j: int| 0 <= j < i ==> a@[j] == b@[j],
        decreases a@.len() - i,
    {
        if a[i] != b[i] {
            return false;
        }
        i = i + 1;
    }
    proof {
        assert(a@ =~= b@);
    }
    true
}

/// Whether `a` ends with `suffix`.
pub fn bytes_ends_with(a: &[u8], suffix: &[u8]) -> (r: bool)
    ensures
        r == (a@.len() >= suffix@.len() && a@.subrange(
            a@.len() - suffix@.len(),
            a@.len() as int,
        ) == suffix@),
{
    if a.len() < suffix.len() {
        return false;
    }
    let start: usize = a.len() - suffix.len();
    let mut i: usize = 0;
    while i < suffix.len()
        invariant
            a@.len() >= suffix@.len(),
            a@.len() <= usize::MAX,
            start == a@.len() - suffix@.len(),
            i <= suffix@.len(),
            forall|j: int| 0 <= j < i ==> a@[start + j] == suffix@[j],
        decreases suffix@.len() - i,
    {
        if a[start + i] != suffix[i] {
            proof {
                assert(a@.subrange(a@.len() - suffix@.len(), a@.len() as int)[i as int]
                    == a@[start + i]);
            }
            return false;
        }
        i = i + 1;
    }
    proof {
        assert(a@.subrange(a@.len() - suffix@.len(), a@.len() as int) =~= suffix@);
    }
    true
}

/// An owned copy of a byte slice.
pub fn bytes_of(a: &[u8]) -> (r: Vec<u8>)
    ensures
        r@ == a@,
{
    let mut out: Vec<u8> = Vec::new();
    let mut i: usize = 0;
    while i < a.len()
        invariant
            i <= a@.len(),
            out@ == a@.take(i as int),
        decreases a@.len() - i,
    {
        out.push(a[i]);
        proof {
            assert(a@.take(i as int).push(a@[i as int]) =~= a@.take(i + 1));
        }
        i = i + 1;
    }
    proof {
        assert(a@.take(a@.len() as int) =~= a@);
    }
    out
}

/// Appends one character to a string.
///
/// Relies on `String::push`: pushes the given character onto the end of
/// the string.
#[verifier::external_body]
pub fn push_char(s: &mut String, c: char)
    ensures
        final(s)@ == old(s)@.push(c),
{
    s.push(c);
}

/// Appends a byte slice to a byte vector.
pub fn append_bytes(out: &mut Vec<u8>, s: &[u8])
    ensures
        final(out)@ == old(out)@ + s@,
{
    let mut i: usize = 0;
    while i < s.len()
        invariant
            i <= s@.len(),
            out@ == old(out)@ + s@.take(i as int),
        decreases s@.len() - i,
    {
        out.push(s[i]);
        proof {
            assert(old(out)@ + s@.take(i + 1) =~= (old(out)@ + s@.take(i as int)).push(
                s@[i as int],
            ));
        }
        i = i + 1;
    }
    proof {
        assert(old(out)@ + s@.take(s@.len() as int) =~= old(out)@ + s@);
    }
}

/// Turns valid UTF-8 bytes into the string holding exactly those bytes.
///
/// Relies on `String::from_utf8`: on valid UTF-8 input it returns the
/// string whose encoding is the given bytes (the error arm cannot be
/// reached under this function's precondition).
#[verifier::external_body]
pub fn string_from_utf8(v: Vec<u8>) -> (r: String)
    requires
        vstd::utf8::valid_utf8(v@),
    ensures
        r@ == vstd::utf8::decode_utf8(v@),
{
    match String::from_utf8(v) {
        Ok(s) => s,
        Err(_) => String::new(),
    }
}

/// A byte count to be shown in a human-readable form: scaled by binary
/// multiples and rendered with three (truncated) decimal places.
pub struct HumanBytes(pub u64);

/// A byte count to be shown in a human-readable form, as used by the
/// archive-conversion reports.
pub struct HumanReadableBytes(pub u64);

/// How many times a count is divided by 1024 before it reads below 1024.
pub open spec fn human_scale(v: u64) -> int {
    if v < 0x400 {
        0
    } else if v < 0x100000 {
        1
    } else if v < 0x40000000 {
        2
    } else if v < 0x10000000000 {
        3
    } else if v < 0x4000000000000 {
        4
    } else if v < 0x1000000000000000 {
        5
    } else {
        6
    }
}

/// The binary multiple at a scale.
pub open spec fn human_unit(k: int) -> int {
    if k <= 0 {
        1
    } else if k == 1 {
        0x400
    } else if k == 2 {
        0x100000
    } else if k == 3 {
        0x40000000
    } else if k == 4 {
        0x10000000000
    } else if k == 5 {
        0x4000000000000
    } else {
        0x1000000000000000
    }
}

/// The scaled count in thousandths of its unit, truncated.
pub open spec fn human_milli(v: u64) -> int {
    v * 1000 / human_unit(human_scale(v))
}

/// The unit suffix at a scale.
pub open spec fn human_suffix(k: int) -> Seq<char> {
    if k <= 0 {
        seq!['B']
    } else if k == 1 {
        seq!['K', 'B']
    } else if k == 2 {
        seq!['M', 'B']
    } else if k == 3 {
        seq!['G', 'B']
    } else if k == 4 {
        seq!['T', 'B']
    } else if k == 5 {
        seq!['P', 'B']
    } else {
        seq!['E', 'B']
    }
}

/// The decimal digits of a number, most significant first.
pub open spec fn dec_chars_u64(n: u64) -> Seq<char>
    decreases n,
{
    if n < 10 {
        seq![(((48 + n) as u8) as char)]
    } else {
        dec_chars_u64((n / 10) as u64).push((((48 + n % 10) as u8) as char))
    }
}

/// Exactly three decimal digits, zero padded.
pub open spec fn pad3_chars(n: int) -> Seq<char> {
    seq![
        (((48 + n / 100) as u8) as char),
        (((48 + (n / 10) % 10) as u8) as char),
        (((48 + n % 10) as u8) as char),
    ]
}

/// The human-readable rendering of a byte count: the scaled value with
/// three truncated decimal places and the unit suffix, e.g. `"1.500KB"`.
pub open spec fn spec_human_text(v: u64) -> Seq<char> {
    dec_chars_u64((human_milli(v) / 1000) as u64) + seq!['.'] + pad3_chars(human_milli(v) % 1000)
        + human_suffix(human_scale(v))
}

/// Appends the decimal digits of `n`.
fn push_dec_u64(s: &mut String, n: u64)
    ensures
        final(s)@ == old(s)@ + dec_chars_u64(n),
    decreases n,
{
    if n >= 10 {
        push_dec_u64(s, n / 10);
    }
    push_char(s, (48 + (n % 10) as u8) as char);
    proof {
        assert(s@ =~= old(s)@ + dec_chars_u64(n));
    }
}

/// Renders a byte count in human-readable form.
fn render_bytes(v: u64) -> (r: String)
    ensures
        r@ == spec_human_text(v),
{
    let k: usize = if v < 0x400 {
        0
    } else if v < 0x100000 {
        1
    } else if v < 0x40000000 {
        2
    } else if v < 0x10000000000 {
        3
    } else if v < 0x4000000000000 {
        4
    } else if v < 0x1000000000000000 {
        5
    } else {
        6
    };
    let unit: u64 = if k == 0 {
        1
    } else if k == 1 {
        0x400
    } else if k == 2 {
        0x100000
    } else if k == 3 {
        0x40000000
    } else if k == 4 {
        0x10000000000
    } else if k == 5 {
        0x4000000000000
    } else {
        0x1000000000000000
    };
    let milli_wide: u128 = (v as u128) * 1000 / (unit as u128);
    proof {
        assert((v as int) < 1024 * (unit as int));
        assert((v as int) * 1000 / (unit as int) < 1024000) by (nonlinear_arith)
            requires
                unit >= 1,
                (v as int) < 1024 * (unit as int),
        ;
        assert(milli_wide == human_milli(v));
    }
    let milli = milli_wide as u64;
    let mut s = String::new();
    push_dec_u64(&mut s, milli / 1000);
    push_char(&mut s, '.');
    let frac = milli % 1000;
    push_char(&mut s, (48 + (frac / 100) as u8) as char);
    push_char(&mut s, (48 + ((frac / 10) % 10) as u8) as char);
    push_char(&mut s, (48 + (frac % 10) as u8) as char);
    if k == 0 {
        push_char(&mut s, 'B');
    } else {
        if k == 1 {
            push_char(&mut s, 'K');
        } else if k == 2 {
            push_char(&mut s, 'M');
        } else if k == 3 {
            push_char(&mut s, 'G');
        } else if k == 4 {
            push_char(&mut s, 'T');
        } else if k == 5 {
            push_char(&mut s, 'P');
        } else {
            push_char(&mut s, 'E');
        }
        push_char(&mut s, 'B');
    }
    proof {
        assert(s@ =~= spec_human_text(v));
    }
    s
}

impl HumanBytes {
    /// The rendered form, e.g. `"1.500KB"`.
    pub fn render(&self) -> (r: String)
        ensures
            r@ == spec_human_text(self.0),
    {
        render_bytes(self.0)
    }
}

impl HumanReadableBytes {
    /// The rendered form, e.g. `"1.500KB"`.
    pub fn render(&self) -> (r: String)
        ensures
            r@ == spec_human_text(self.0),
    {
        render_bytes(self.0)
    }
}

} // verus!
