//! A small DER reader over an untrusted byte slice.
//!
//! Every reading operation is specified against a spec-level model of the
//! encoding, so that what a parser retains is a function of the input bytes
//! alone.  Strict DER is enforced, with the deviations documented on the
//! individual readers.

use vstd::prelude::*;
use vstd::slice::{slice_index_get, slice_subrange};
use crate::Error;
use crate::time::Time;

verus! {

/// The bit distinguishing constructed from primitive encodings.
pub const CONSTRUCTED: u8 = 0x20;

/// ASN.1 BOOLEAN.
pub const TAG_BOOLEAN: u8 = 0x01;
/// ASN.1 INTEGER.
pub const TAG_INTEGER: u8 = 0x02;
/// ASN.1 BIT STRING.
pub const TAG_BIT_STRING: u8 = 0x03;
/// ASN.1 OCTET STRING.
pub const TAG_OCTET_STRING: u8 = 0x04;
/// ASN.1 NULL.
pub const TAG_NULL: u8 = 0x05;
/// ASN.1 OBJECT IDENTIFIER.
pub const TAG_OID: u8 = 0x06;
/// ASN.1 UTCTime.
pub const TAG_UTC_TIME: u8 = 0x17;
/// ASN.1 GeneralizedTime.
pub const TAG_GENERALIZED_TIME: u8 = 0x18;
/// ASN.1 SEQUENCE (always constructed).
pub const TAG_SEQUENCE: u8 = 0x30;
/// Context-specific constructed tag `[0]`.
pub const TAG_CONTEXT_CONSTRUCTED_0: u8 = 0xa0;
/// Context-specific constructed tag `[3]`.
pub const TAG_CONTEXT_CONSTRUCTED_3: u8 = 0xa3;

/// A cursor over an untrusted input slice.  Reads advance `pos`; sub-slices
/// handed out are views into `input` and never copies.
pub struct Reader<'a> {
    /// The underlying bytes.  Readers never change them.
    pub input: &'a [u8],
    /// The cursor, at most `input.len()`.
    pub pos: usize,
}

impl<'a> Reader<'a> {
    /// The cursor is inside the input.
    pub open spec fn wf(self) -> bool {
        self.pos <= self.input@.len()
    }

    /// A reader positioned at the start of `input`.
    pub fn new(input: &'a [u8]) -> (r: Reader<'a>)
        ensures
            r.input@ == input@,
            r.pos == 0,
            r.wf(),
    {
        Reader { input, pos: 0 }
    }

    /// Whether the whole input has been consumed.
    pub fn at_end(&self) -> (r: bool)
        ensures
            r == (self.pos == self.input@.len()),
    {
        self.pos == self.input.len()
    }

    /// Whether the next byte exists and equals `b`, without consuming it.
    pub fn peek(&self, b: u8) -> (r: bool)
        requires
            self.wf(),
        ensures
            r == (self.pos < self.input@.len() && self.input@[self.pos as int] == b),
    {
        if self.pos < self.input.len() {
            *slice_index_get(self.input, self.pos) == b
        } else {
            false
        }
    }

    /// The next byte, if any.
    pub fn read_byte(&mut self) -> (r: Option<u8>)
        requires
            old(self).wf(),
        ensures
            final(self).wf(),
            final(self).input@ == old(self).input@,
            old(self).pos < old(self).input@.len() ==> {
                &&& r == Some(old(self).input@[old(self).pos as int])
                &&& final(self).pos == old(self).pos + 1
            },
            old(self).pos == old(self).input@.len() ==> r is None && final(self).pos == old(self).pos,
    {
        if self.pos < self.input.len() {
            let b: u8 = *slice_index_get(self.input, self.pos);
            self.pos = self.pos + 1;
            Some(b)
        } else {
            None
        }
    }

}

/// The tag, value start, and value end of the DER tag-length-value whose
/// first byte stands at `pos`, or `None` where the bytes at `pos` are not a
/// well-formed TLV.  High tag numbers are rejected, and lengths must use
/// the shortest form, up to two length bytes.
pub open spec fn spec_read_tlv(s: Seq<u8>, pos: int) -> Option<(u8, int, int)> {
    if pos < 0 || pos + 2 > s.len() {
        None
    } else {
        let tag = s[pos];
        if tag & 0x1f == 0x1f {
            None
        } else {
            let lb = s[pos + 1];
            if lb & 0x80 == 0 {
                if pos + 2 + lb <= s.len() {
                    Some((tag, pos + 2, pos + 2 + lb))
                } else {
                    None
                }
            } else if lb == 0x81 {
                if pos + 3 > s.len() {
                    None
                } else {
                    let l = s[pos + 2];
                    if l < 128 {
                        None
                    } else if pos + 3 + l <= s.len() {
                        Some((tag, pos + 3, pos + 3 + l))
                    } else {
                        None
                    }
                }
            } else if lb == 0x82 {
                if pos + 4 > s.len() {
                    None
                } else {
                    let l = s[pos + 2] * 256 + s[pos + 3];
                    if l < 256 {
                        None
                    } else if pos + 4 + l <= s.len() {
                        Some((tag, pos + 4, pos + 4 + l))
                    } else {
                        None
                    }
                }
            } else {
                None
            }
        }
    }
}

/// A well-formed TLV at `pos` lies between `pos + 2` and the end of `s`.
pub proof fn lemma_read_tlv_bounds(s: Seq<u8>, pos: int)
    ensures
        spec_read_tlv(s, pos) matches Some(t) ==> pos + 2 <= t.1 <= t.2 <= s.len(),
{
}

/// Reads one tag-length-value, returning the tag and the value sub-slice.
/// The result and the new cursor are exactly those of [`spec_read_tlv`].
pub fn read_tag_and_get_value<'a>(input: &mut Reader<'a>) -> (r: Result<(u8, &'a [u8]), Error>)
    requires
        old(input).wf(),
    ensures
        final(input).wf(),
        final(input).input@ == old(input).input@,
        final(input).pos >= old(input).pos,
        match spec_read_tlv(old(input).input@, old(input).pos as int) {
            Some(t) => {
                &&& r matches Ok(p)
                &&& p.0 == t.0
                &&& p.1@ == old(input).input@.subrange(t.1, t.2)
                &&& final(input).pos == t.2
            },
            None => r matches Err(e) && e == Error::BadDER,
        },
{
    let base: &'a [u8] = input.input;
    let tag: u8 = match input.read_byte() {
        Some(b) => b,
        None => { return Err(Error::BadDER); },
    };
    if tag & 0x1f == 0x1f {
        return Err(Error::BadDER);
    }
    let lb: u8 = match input.read_byte() {
        Some(b) => b,
        None => { return Err(Error::BadDER); },
    };
    let length: usize = if lb & 0x80 == 0 {
        lb as usize
    } else if lb == 0x81 {
        let b: u8 = match input.read_byte() {
            Some(b) => b,
            None => { return Err(Error::BadDER); },
        };
        if b < 128 {
            return Err(Error::BadDER);
        }
        b as usize
    } else if lb == 0x82 {
        let b1: u8 = match input.read_byte() {
            Some(b) => b,
            None => { return Err(Error::BadDER); },
        };
        let b2: u8 = match input.read_byte() {
            Some(b) => b,
            None => { return Err(Error::BadDER); },
        };
        let combined: usize = (b1 as usize) * 256 + (b2 as usize);
        if combined < 256 {
            return Err(Error::BadDER);
        }
        combined
    } else {
        return Err(Error::BadDER);
    };
    if length > base.len() - input.pos {
        return Err(Error::BadDER);
    }
    let value_start: usize = input.pos;
    let value: &'a [u8] = slice_subrange(base, value_start, value_start + length);
    input.pos = value_start + length;
    Ok((tag, value))
}

/// The value bounds of the TLV at `pos` when its tag is `tag`, or `None`.
pub open spec fn spec_expect_tlv(s: Seq<u8>, pos: int, tag: u8) -> Option<(int, int)> {
    match spec_read_tlv(s, pos) {
        Some(t) => if t.0 == tag {
            Some((t.1, t.2))
        } else {
            None
        },
        None => None,
    }
}

/// Reads one tag-length-value and requires its tag to be `tag`.
pub fn expect_tag_and_get_value<'a>(input: &mut Reader<'a>, tag: u8) -> (r: Result<
    &'a [u8],
    Error,
>)
    requires
        old(input).wf(),
    ensures
        final(input).wf(),
        final(input).input@ == old(input).input@,
        final(input).pos >= old(input).pos,
        match spec_expect_tlv(old(input).input@, old(input).pos as int, tag) {
            Some(t) => {
                &&& r matches Ok(v)
                &&& v@ == old(input).input@.subrange(t.0, t.1)
                &&& final(input).pos == t.1
            },
            None => r matches Err(e) && e == Error::BadDER,
        },
{
    let (actual_tag, value) = match read_tag_and_get_value(input) {
        Ok(p) => p,
        Err(e) => { return Err(e); },
    };
    if actual_tag != tag {
        return Err(Error::BadDER);
    }
    Ok(value)
}

/// The value of an optional BOOLEAN at `pos` and the position after it.
/// Where no BOOLEAN stands at `pos`, the default `false` is taken and the
/// cursor does not move.  Like mozilla::pkix, the nonconformant explicit
/// encoding of the default value (false) is accepted for compatibility
/// with real-world certificates.
pub open spec fn spec_optional_boolean(s: Seq<u8>, pos: int) -> Result<(bool, int), Error> {
    if !(0 <= pos < s.len() && s[pos] == TAG_BOOLEAN) {
        Ok((false, pos))
    } else {
        match spec_expect_tlv(s, pos, TAG_BOOLEAN) {
            Some((vs, ve)) => if ve == vs + 1 {
                if s[vs] == 0xff {
                    Ok((true, ve))
                } else if s[vs] == 0x00 {
                    Ok((false, ve))
                } else {
                    Err(Error::BadDER)
                }
            } else {
                Err(Error::BadDER)
            },
            None => Err(Error::BadDER),
        }
    }
}

/// Reads an optional BOOLEAN, defaulting to false, per
/// [`spec_optional_boolean`].
pub fn optional_boolean(input: &mut Reader) -> (r: Result<bool, Error>)
    requires
        old(input).wf(),
    ensures
        final(input).wf(),
        final(input).input@ == old(input).input@,
        final(input).pos >= old(input).pos,
        match spec_optional_boolean(old(input).input@, old(input).pos as int) {
            Ok(t) => r matches Ok(b) && b == t.0 && final(input).pos == t.1,
            Err(e) => r matches Err(a) && a == e,
        },
{
    if !input.peek(TAG_BOOLEAN) {
        return Ok(false);
    }
    let value = match expect_tag_and_get_value(input, TAG_BOOLEAN) {
        Ok(v) => v,
        Err(e) => { return Err(e); },
    };
    if value.len() != 1 {
        return Err(Error::BadDER);
    }
    let b: u8 = *slice_index_get(value, 0);
    if b == 0xff {
        Ok(true)
    } else if b == 0x00 {
        Ok(false)
    } else {
        Err(Error::BadDER)
    }
}

/// The value bounds of a DER INTEGER at `pos` that encodes a non-negative
/// number, with any necessary leading zero byte stripped, and the position
/// after the TLV.  Negative numbers and non-minimal encodings are rejected.
pub open spec fn spec_nonnegative_integer(s: Seq<u8>, pos: int) -> Result<
    ((int, int), int),
    Error,
> {
    match spec_expect_tlv(s, pos, TAG_INTEGER) {
        Some((vs, ve)) => {
            if ve == vs {
                Err(Error::BadDER)
            } else if s[vs] == 0 {
                if ve == vs + 1 {
                    Ok(((vs, ve), ve))
                } else if s[vs + 1] & 0x80 == 0x80 {
                    Ok(((vs + 1, ve), ve))
                } else {
                    Err(Error::BadDER)
                }
            } else if s[vs] & 0x80 == 0 {
                Ok(((vs, ve), ve))
            } else {
                Err(Error::BadDER)
            }
        },
        None => Err(Error::BadDER),
    }
}

fn nonnegative_integer<'a>(input: &mut Reader<'a>) -> (r: Result<&'a [u8], Error>)
    requires
        old(input).wf(),
    ensures
        final(input).wf(),
        final(input).input@ == old(input).input@,
        final(input).pos >= old(input).pos,
        match spec_nonnegative_integer(old(input).input@, old(input).pos as int) {
            Ok(t) => {
                &&& r matches Ok(v)
                &&& v@ == old(input).input@.subrange(t.0.0, t.0.1)
                &&& final(input).pos == t.1
            },
            Err(e) => r matches Err(a) && a == e,
        },
{
    let value = match expect_tag_and_get_value(input, TAG_INTEGER) {
        Ok(v) => v,
        Err(e) => { return Err(e); },
    };
    if value.len() == 0 {
        return Err(Error::BadDER);
    }
    let first: u8 = *slice_index_get(value, 0);
    if first == 0 {
        if value.len() == 1 {
            Ok(value)
        } else {
            let second: u8 = *slice_index_get(value, 1);
            if second & 0x80 == 0x80 {
                Ok(slice_subrange(value, 1, value.len()))
            } else {
                Err(Error::BadDER)
            }
        }
    } else if first & 0x80 == 0 {
        Ok(value)
    } else {
        Err(Error::BadDER)
    }
}

/// As [`spec_nonnegative_integer`], but zero is also rejected: the value
/// kept is nonempty and begins with a nonzero byte.
pub open spec fn spec_positive_integer(s: Seq<u8>, pos: int) -> Result<((int, int), int), Error> {
    match spec_nonnegative_integer(s, pos) {
        Ok(t) => if s[t.0.0] == 0 {
            Err(Error::BadDER)
        } else {
            Ok(t)
        },
        Err(e) => Err(e),
    }
}

/// Reads a positive DER INTEGER, returning its big-endian value bytes
/// without any leading zero, per [`spec_positive_integer`].
pub fn positive_integer<'a>(input: &mut Reader<'a>) -> (r: Result<&'a [u8], Error>)
    requires
        old(input).wf(),
    ensures
        final(input).wf(),
        final(input).input@ == old(input).input@,
        final(input).pos >= old(input).pos,
        match spec_positive_integer(old(input).input@, old(input).pos as int) {
            Ok(t) => {
                &&& r matches Ok(v)
                &&& v@ == old(input).input@.subrange(t.0.0, t.0.1)
                &&& final(input).pos == t.1
            },
            Err(e) => r matches Err(a) && a == e,
        },
{
    let value = match nonnegative_integer(input) {
        Ok(v) => v,
        Err(e) => { return Err(e); },
    };
    let first: u8 = *slice_index_get(value, 0);
    if first == 0 {
        return Err(Error::BadDER);
    }
    Ok(value)
}

/// The numeric value of a DER INTEGER at `pos` whose value fits one byte
/// after stripping, so 0 through 255, and the position after the TLV.
pub open spec fn spec_small_nonnegative_integer(s: Seq<u8>, pos: int) -> Result<(u8, int), Error> {
    match spec_nonnegative_integer(s, pos) {
        Ok(t) => if t.0.1 == t.0.0 + 1 {
            Ok((s[t.0.0], t.1))
        } else {
            Err(Error::BadDER)
        },
        Err(e) => Err(e),
    }
}

/// Reads an INTEGER whose value is in 0..=255, per
/// [`spec_small_nonnegative_integer`].
pub fn small_nonnegative_integer(input: &mut Reader) -> (r: Result<u8, Error>)
    requires
        old(input).wf(),
    ensures
        final(input).wf(),
        final(input).input@ == old(input).input@,
        final(input).pos >= old(input).pos,
        match spec_small_nonnegative_integer(old(input).input@, old(input).pos as int) {
            Ok(t) => r matches Ok(b) && b == t.0 && final(input).pos == t.1,
            Err(e) => r matches Err(a) && a == e,
        },
{
    let value = match nonnegative_integer(input) {
        Ok(v) => v,
        Err(e) => { return Err(e); },
    };
    if value.len() != 1 {
        return Err(Error::BadDER);
    }
    Ok(*slice_index_get(value, 0))
}

/// The position after a DER NULL at `pos`, whose value must be empty.
pub open spec fn spec_null(s: Seq<u8>, pos: int) -> Result<int, Error> {
    match spec_expect_tlv(s, pos, TAG_NULL) {
        Some((vs, ve)) => if ve == vs {
            Ok(ve)
        } else {
            Err(Error::BadDER)
        },
        None => Err(Error::BadDER),
    }
}

/// Reads a NULL, per [`spec_null`].
pub fn null(input: &mut Reader) -> (r: Result<(), Error>)
    requires
        old(input).wf(),
    ensures
        final(input).wf(),
        final(input).input@ == old(input).input@,
        final(input).pos >= old(input).pos,
        match spec_null(old(input).input@, old(input).pos as int) {
            Ok(t) => r matches Ok(u) && final(input).pos == t,
            Err(e) => r matches Err(a) && a == e,
        },
{
    let value = match expect_tag_and_get_value(input, TAG_NULL) {
        Ok(v) => v,
        Err(e) => { return Err(e); },
    };
    if value.len() != 0 {
        return Err(Error::BadDER);
    }
    Ok(())
}

/// The bit bounds of a BIT STRING at `pos` whose "unused bits" count is
/// zero, and the position after the TLV.
pub open spec fn spec_bit_string_with_no_unused_bits(s: Seq<u8>, pos: int) -> Result<
    ((int, int), int),
    Error,
> {
    match spec_expect_tlv(s, pos, TAG_BIT_STRING) {
        Some((vs, ve)) => if vs < ve && s[vs] == 0 {
            Ok(((vs + 1, ve), ve))
        } else {
            Err(Error::BadDER)
        },
        None => Err(Error::BadDER),
    }
}

/// Reads a BIT STRING requiring the "unused bits" byte to be zero, and
/// returns the bit bytes, per [`spec_bit_string_with_no_unused_bits`].
pub fn bit_string_with_no_unused_bits<'a>(input: &mut Reader<'a>) -> (r: Result<&'a [u8], Error>)
    requires
        old(input).wf(),
    ensures
        final(input).wf(),
        final(input).input@ == old(input).input@,
        final(input).pos >= old(input).pos,
        match spec_bit_string_with_no_unused_bits(old(input).input@, old(input).pos as int) {
            Ok(t) => {
                &&& r matches Ok(v)
                &&& v@ == old(input).input@.subrange(t.0.0, t.0.1)
                &&& final(input).pos == t.1
            },
            Err(e) => r matches Err(a) && a == e,
        },
{
    let value = match expect_tag_and_get_value(input, TAG_BIT_STRING) {
        Ok(v) => v,
        Err(e) => { return Err(e); },
    };
    if value.len() == 0 {
        return Err(Error::BadDER);
    }
    let unused_bits_at_end: u8 = *slice_index_get(value, 0);
    if unused_bits_at_end != 0 {
        return Err(Error::BadDER);
    }
    Ok(slice_subrange(value, 1, value.len()))
}

/// Whether two byte slices hold the same bytes.
pub fn bytes_eq(a: &[u8], b: &[u8]) -> (r: bool)
    ensures
        r == (a@ == b@),
{
    if a.len() != b.len() {
        proof {
            assert(a@ != b@);
        }
        return false;
    }
    let n: usize = a.len();
    let mut i: usize = 0;
    while i < n
        invariant
            n == a@.len() == b@.len(),
            0 <= i <= n,
            forall|j: int| 0 <= j < i ==> a@[j] == b@[j],
        decreases n - i,
    {
        if *slice_index_get(a, i) != *slice_index_get(b, i) {
            proof {
                assert(a@ != b@);
            }
            return false;
        }
        i = i + 1;
    }
    proof {
        assert(a@ =~= b@);
    }
    true
}

/// Whether `b` is an ASCII decimal digit.
pub open spec fn spec_is_ascii_digit(b: u8) -> bool {
    0x30 <= b <= 0x39
}

/// The value of the two ASCII decimal digits at `p`, bounded by `min` and
/// `max`; any shortfall, non-digit, or out-of-range value is `BadDERTime`.
pub open spec fn spec_two_digits(s: Seq<u8>, p: int, min: int, max: int) -> Result<int, Error> {
    if p < 0 || p + 2 > s.len() {
        Err(Error::BadDERTime)
    } else if !spec_is_ascii_digit(s[p]) || !spec_is_ascii_digit(s[p + 1]) {
        Err(Error::BadDERTime)
    } else {
        let v = (s[p] - 0x30) * 10 + (s[p + 1] - 0x30);
        if v < min || v > max {
            Err(Error::BadDERTime)
        } else {
            Ok(v)
        }
    }
}

fn read_two_digits(inner: &mut Reader, min: u64, max: u64) -> (r: Result<u64, Error>)
    requires
        old(inner).wf(),
        max <= 99,
    ensures
        final(inner).wf(),
        final(inner).input@ == old(inner).input@,
        final(inner).pos >= old(inner).pos,
        match spec_two_digits(old(inner).input@, old(inner).pos as int, min as int, max as int) {
            Ok(v) => {
                &&& r matches Ok(x)
                &&& x == v
                &&& min <= x <= max
                &&& final(inner).pos == old(inner).pos + 2
            },
            Err(e) => r matches Err(a) && a == e,
        },
{
    let hi: u8 = match inner.read_byte() {
        Some(b) => b,
        None => { return Err(Error::BadDERTime); },
    };
    if hi < 0x30 || hi > 0x39 {
        return Err(Error::BadDERTime);
    }
    let lo: u8 = match inner.read_byte() {
        Some(b) => b,
        None => { return Err(Error::BadDERTime); },
    };
    if lo < 0x30 || lo > 0x39 {
        return Err(Error::BadDERTime);
    }
    let v: u64 = ((hi - 0x30) as u64) * 10 + ((lo - 0x30) as u64);
    if v < min || v > max {
        return Err(Error::BadDERTime);
    }
    Ok(v)
}

/// The instant denoted by the whole body `v` of a UTCTime or
/// GeneralizedTime value: two-digit fields, a windowed two-digit year for
/// UTCTime (50-99 means 19YY, 00-49 means 20YY) or a four-digit year for
/// GeneralizedTime, and only the Zulu terminator.
pub open spec fn spec_time_body(v: Seq<u8>, is_utc: bool) -> Result<int, Error> {
    let year_part: Result<(int, int), Error> = if is_utc {
        match spec_two_digits(v, 0, 0, 99) {
            Ok(lo) => Ok(((if lo >= 50 { 19int } else { 20int }) * 100 + lo, 2)),
            Err(e) => Err(e),
        }
    } else {
        match spec_two_digits(v, 0, 0, 99) {
            Ok(hi) => match spec_two_digits(v, 2, 0, 99) {
                Ok(lo) => Ok((hi * 100 + lo, 4)),
                Err(e) => Err(e),
            },
            Err(e) => Err(e),
        }
    };
    match year_part {
        Err(e) => Err(e),
        Ok((year, p)) => match spec_two_digits(v, p, 1, 12) {
            Err(e) => Err(e),
            Ok(month) => match spec_two_digits(
                v,
                p + 2,
                1,
                crate::time::spec_days_in_month(year, month),
            ) {
                Err(e) => Err(e),
                Ok(day) => match spec_two_digits(v, p + 4, 0, 23) {
                    Err(e) => Err(e),
                    Ok(hours) => match spec_two_digits(v, p + 6, 0, 59) {
                        Err(e) => Err(e),
                        Ok(minutes) => match spec_two_digits(v, p + 8, 0, 59) {
                            Err(e) => Err(e),
                            Ok(seconds) => if p + 10 >= v.len() {
                                Err(Error::BadDERTime)
                            } else if v[p + 10] != 0x5a {
                                Err(Error::BadDERTime)
                            } else if p + 11 != v.len() {
                                Err(Error::BadDER)
                            } else {
                                Ok(
                                    crate::time::spec_time_value(
                                        year,
                                        month,
                                        day,
                                        hours,
                                        minutes,
                                        seconds,
                                    ),
                                )
                            },
                        },
                    },
                },
            },
        },
    }
}

/// The instant of the UTCTime or GeneralizedTime at `pos` and the
/// position after it.  The tag tried is UTCTime exactly when the next
/// byte is the UTCTime tag; otherwise GeneralizedTime is required.
pub open spec fn spec_time_choice(s: Seq<u8>, pos: int) -> Result<(int, int), Error> {
    let is_utc = 0 <= pos < s.len() && s[pos] == TAG_UTC_TIME;
    let tag = if is_utc {
        TAG_UTC_TIME
    } else {
        TAG_GENERALIZED_TIME
    };
    match spec_expect_tlv(s, pos, tag) {
        None => Err(Error::BadDER),
        Some((vs, ve)) => match spec_time_body(s.subrange(vs, ve), is_utc) {
            Ok(t) => Ok((t, ve)),
            Err(e) => Err(e),
        },
    }
}

/// Reads a UTCTime or GeneralizedTime, per [`spec_time_choice`].
#[verifier::rlimit(100)]
pub fn time_choice(input: &mut Reader) -> (r: Result<Time, Error>)
    requires
        old(input).wf(),
    ensures
        final(input).wf(),
        final(input).input@ == old(input).input@,
        final(input).pos >= old(input).pos,
        match spec_time_choice(old(input).input@, old(input).pos as int) {
            Ok(t) => r matches Ok(tm) && tm.0 == t.0 && final(input).pos == t.1,
            Err(e) => r matches Err(a) && a == e,
        },
{
    let is_utc_time = input.peek(TAG_UTC_TIME);
    let expected_tag: u8 = if is_utc_time {
        TAG_UTC_TIME
    } else {
        TAG_GENERALIZED_TIME
    };
    let value = match expect_tag_and_get_value(input, expected_tag) {
        Ok(v) => v,
        Err(e) => { return Err(e); },
    };
    let mut inner = Reader::new(value);
    let year: u64 = if is_utc_time {
        let lo = match read_two_digits(&mut inner, 0, 99) {
            Ok(v) => v,
            Err(e) => { return Err(e); },
        };
        let hi: u64 = if lo >= 50 {
            19
        } else {
            20
        };
        hi * 100 + lo
    } else {
        let hi = match read_two_digits(&mut inner, 0, 99) {
            Ok(v) => v,
            Err(e) => { return Err(e); },
        };
        let lo = match read_two_digits(&mut inner, 0, 99) {
            Ok(v) => v,
            Err(e) => { return Err(e); },
        };
        hi * 100 + lo
    };
    let month = match read_two_digits(&mut inner, 1, 12) {
        Ok(v) => v,
        Err(e) => { return Err(e); },
    };
    let days_in_month = crate::time::days_in_month(year, month);
    let day_of_month = match read_two_digits(&mut inner, 1, days_in_month) {
        Ok(v) => v,
        Err(e) => { return Err(e); },
    };
    let hours = match read_two_digits(&mut inner, 0, 23) {
        Ok(v) => v,
        Err(e) => { return Err(e); },
    };
    let minutes = match read_two_digits(&mut inner, 0, 59) {
        Ok(v) => v,
        Err(e) => { return Err(e); },
    };
    let seconds = match read_two_digits(&mut inner, 0, 59) {
        Ok(v) => v,
        Err(e) => { return Err(e); },
    };
    let time_zone: u8 = match inner.read_byte() {
        Some(b) => b,
        None => { return Err(Error::BadDERTime); },
    };
    if time_zone != 0x5a {
        return Err(Error::BadDERTime);
    }
    if !inner.at_end() {
        return Err(Error::BadDER);
    }
    match crate::time::time_from_ymdhms_utc(year, month, day_of_month, hours, minutes, seconds) {
        Ok(t) => Ok(t),
        Err(e) => Err(e),
    }
}

} // verus!
