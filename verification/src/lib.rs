//! An `ISIN` type for working with validated International Securities
//! Identification Numbers (ISINs) as defined in ISO 6166, "Financial services
//! -- International securities identification number (ISIN)".
//!
//! An ISIN is comprised of 12 ASCII characters with the following parts, in
//! order:
//!
//! 1. A two-letter _Prefix_ in uppercase, designating the issuer's country of
//!    registration or legal domicile, or for OTC derivatives the special code
//!    `EZ`.
//! 2. A nine-character uppercase alphanumeric _Basic Code_ assigned by the
//!    corresponding National Numbering Agency, zero-padded on the left if the
//!    underlying code is shorter than nine characters.
//! 3. A single decimal digit representing the _Check Digit_ computed using
//!    what the standard calls the "modulus 10 'double-add-double' check
//!    digit".
//!
//! Use `parse()` or `parse_loose()` to convert a string to a validated ISIN,
//! `build_from_payload()` or `build_from_parts()` to construct one with the
//! check digit computed automatically, and `validate()` to check a string
//! without materializing the value.

use vstd::prelude::*;

pub mod checksum;
pub mod error;
pub mod text;

pub use error::Error;

use checksum::{
    checksum_spec, checksum_table, is_checksum_char, lemma_checksum_in_range,
    valid_checksum_input,
};
use text::{
    chars_of_bytes, is_space, normalize_chars, push_bytes_as_chars, push_char, to_upper_char,
    trim_end_chars, trim_start_chars, upper_char, upper_chars,
};
use vstd::string::{StrSliceExecFns, StringSliceAdditionalSpecFns};

verus! {

/// True for the bytes allowed in a _Prefix_: uppercase ASCII letters.
pub open spec fn is_prefix_char(b: u8) -> bool {
    ('A' as u8) <= b <= ('Z' as u8)
}

/// True for the bytes allowed in a _Basic Code_: ASCII decimal digits and
/// uppercase ASCII letters.
pub open spec fn is_basic_code_char(b: u8) -> bool {
    is_checksum_char(b)
}

/// True for the bytes allowed as a _Check Digit_: ASCII decimal digits.
pub open spec fn is_check_digit_char(b: u8) -> bool {
    ('0' as u8) <= b <= ('9' as u8)
}

/// True when the bytes form a well-formed _Prefix_: exactly two uppercase
/// ASCII letters.
pub open spec fn prefix_format_ok(p: Seq<u8>) -> bool {
    p.len() == 2 && forall|i: int| 0 <= i < p.len() ==> is_prefix_char(#[trigger] p[i])
}

/// True when the bytes form a well-formed _Basic Code_: exactly nine
/// uppercase ASCII alphanumeric characters.
pub open spec fn basic_code_format_ok(bc: Seq<u8>) -> bool {
    bc.len() == 9 && forall|i: int| 0 <= i < bc.len() ==> is_basic_code_char(#[trigger] bc[i])
}

/// True when the bytes form a well-formed _Payload_: a well-formed _Prefix_
/// followed by a well-formed _Basic Code_.
pub open spec fn payload_format_ok(p: Seq<u8>) -> bool {
    p.len() == 11 && prefix_format_ok(p.subrange(0, 2)) && basic_code_format_ok(p.subrange(2, 11))
}

/// The correct _Check Digit_ byte for a payload: the checksum of the payload
/// as an ASCII decimal digit character.
pub open spec fn check_digit_for(payload: Seq<u8>) -> u8
    recommends
        valid_checksum_input(payload),
{
    (('0' as u8) + checksum_spec(payload)) as u8
}

/// True when twelve bytes form a valid ISIN: a well-formed payload followed
/// by the decimal digit that the checksum of the payload prescribes.
pub open spec fn valid_isin_seq(s: Seq<u8>) -> bool {
    &&& s.len() == 12
    &&& payload_format_ok(s.subrange(0, 11))
    &&& is_check_digit_char(s[11])
    &&& s[11] == check_digit_for(s.subrange(0, 11))
}

/// Every byte of a well-formed payload is a checksum character.
pub proof fn lemma_payload_checksum_chars(p: Seq<u8>)
    requires
        payload_format_ok(p),
    ensures
        valid_checksum_input(p),
{
    assert forall|i: int| 0 <= i < p.len() implies is_checksum_char(#[trigger] p[i]) by {
        if i < 2 {
            assert(p[i] == p.subrange(0, 2)[i]);
        } else {
            assert(p[i] == p.subrange(2, 11)[i - 2]);
        }
    }
}

/// The exact error a strict parse reports for a malformed candidate: the
/// leftmost structural problem wins. Length is diagnosed first, then the
/// _Prefix_, then the _Basic Code_, then the _Check Digit_'s format, and
/// last its value.
pub open spec fn strict_parse_error(s: Seq<u8>, e: Error) -> bool {
    if s.len() != 12 {
        &&& e matches Error::InvalidValueStringLength { was }
        &&& was as nat == s.len()
    } else if !prefix_format_ok(s.subrange(0, 2)) {
        &&& e matches Error::InvalidPrefix { was }
        &&& was@ == s.subrange(0, 2)
    } else if !basic_code_format_ok(s.subrange(2, 11)) {
        &&& e matches Error::InvalidBasicCode { was }
        &&& was@ == s.subrange(2, 11)
    } else if !is_check_digit_char(s[11]) {
        e == (Error::InvalidCheckDigit { was: s[11] })
    } else {
        e == (Error::IncorrectCheckDigit {
            was: s[11],
            expected: check_digit_for(s.subrange(0, 11)),
        })
    }
}

/// The exact error building from a payload reports: a wrong length first,
/// then the leftmost malformed field.
pub open spec fn payload_build_error(p: Seq<u8>, e: Error) -> bool {
    if p.len() != 11 {
        &&& e matches Error::InvalidPayloadArrayLength { was }
        &&& was as nat == p.len()
    } else if !prefix_format_ok(p.subrange(0, 2)) {
        &&& e matches Error::InvalidPrefix { was }
        &&& was@ == p.subrange(0, 2)
    } else {
        &&& e matches Error::InvalidBasicCode { was }
        &&& was@ == p.subrange(2, 11)
    }
}

/// The exact error building from separate parts reports: each part's length
/// is checked before its format, and the _Prefix_ is diagnosed before the
/// _Basic Code_.
pub open spec fn parts_build_error(p: Seq<u8>, bc: Seq<u8>, e: Error) -> bool {
    if p.len() != 2 {
        &&& e matches Error::InvalidPrefixStringLength { was }
        &&& was as nat == p.len()
    } else if !prefix_format_ok(p) {
        &&& e matches Error::InvalidPrefix { was }
        &&& was@ == p
    } else if bc.len() != 9 {
        &&& e matches Error::InvalidBasicCodeStringLength { was }
        &&& was as nat == bc.len()
    } else {
        &&& e matches Error::InvalidBasicCode { was }
        &&& was@ == bc
    }
}

/// Check that a candidate _Prefix_ is exactly two uppercase ASCII letters,
/// reporting the offending length or a snapshot of the offending bytes.
fn validate_prefix_format(prefix: &[u8]) -> (r: Result<(), Error>)
    ensures
        r is Ok <==> prefix_format_ok(prefix@),
        r matches Err(e) ==> if prefix@.len() != 2 {
            e matches Error::InvalidPrefixArrayLength { was } && was as nat == prefix@.len()
        } else {
            e matches Error::InvalidPrefix { was } && was@ == prefix@
        },
{
    if prefix.len() != 2 {
        return Err(Error::InvalidPrefixArrayLength { was: prefix.len() });
    }
    let mut i: usize = 0;
    while i < 2
        invariant
            prefix@.len() == 2,
            i <= 2,
            forall|k: int| 0 <= k < i ==> is_prefix_char(#[trigger] prefix@[k]),
        decreases 2 - i,
    {
        let b = prefix[i];
        if !(('A' as u8) <= b && b <= ('Z' as u8)) {
            let w: [u8; 2] = [prefix[0], prefix[1]];
            proof {
                assert(w@ =~= prefix@);
            }
            return Err(Error::InvalidPrefix { was: w });
        }
        i += 1;
    }
    Ok(())
}

/// Check that a candidate _Basic Code_ is exactly nine uppercase ASCII
/// alphanumeric characters, reporting the offending length or a snapshot of
/// the offending bytes.
fn validate_basic_code_format(basic_code: &[u8]) -> (r: Result<(), Error>)
    ensures
        r is Ok <==> basic_code_format_ok(basic_code@),
        r matches Err(e) ==> if basic_code@.len() != 9 {
            e matches Error::InvalidBasicCodeArrayLength { was } && was as nat
                == basic_code@.len()
        } else {
            e matches Error::InvalidBasicCode { was } && was@ == basic_code@
        },
{
    if basic_code.len() != 9 {
        return Err(Error::InvalidBasicCodeArrayLength { was: basic_code.len() });
    }
    let mut i: usize = 0;
    while i < 9
        invariant
            basic_code@.len() == 9,
            i <= 9,
            forall|k: int| 0 <= k < i ==> is_basic_code_char(#[trigger] basic_code@[k]),
        decreases 9 - i,
    {
        let b = basic_code[i];
        if !((('0' as u8) <= b && b <= ('9' as u8)) || (('A' as u8) <= b && b <= ('Z' as u8))) {
            let mut w: [u8; 9] = [0u8; 9];
            let mut k: usize = 0;
            while k < 9
                invariant
                    basic_code@.len() == 9,
                    k <= 9,
                    w@.len() == 9,
                    forall|j: int| 0 <= j < k ==> w@[j] == basic_code@[j],
                decreases 9 - k,
            {
                w[k] = basic_code[k];
                k += 1;
            }
            proof {
                assert(w@ =~= basic_code@);
            }
            return Err(Error::InvalidBasicCode { was: w });
        }
        i += 1;
    }
    Ok(())
}

/// Compute the _Check Digit_ byte for a payload. Callers must validate the
/// payload format first: the precondition admits only checksum characters.
fn compute_check_digit(s: &[u8]) -> (r: u8)
    requires
        valid_checksum_input(s@),
    ensures
        r == check_digit_for(s@),
{
    proof {
        lemma_checksum_in_range(s@);
    }
    let sum = checksum_table(s);
    ('0' as u8) + sum
}

/// Check a supplied _Check Digit_ against the one the payload prescribes,
/// diagnosing a malformed digit before a wrong one.
fn validate_check_digit_value(payload: &[u8], check_digit: u8) -> (r: Result<(), Error>)
    requires
        valid_checksum_input(payload@),
    ensures
        r is Ok <==> (is_check_digit_char(check_digit) && check_digit == check_digit_for(
            payload@,
        )),
        r matches Err(e) ==> if !is_check_digit_char(check_digit) {
            e == (Error::InvalidCheckDigit { was: check_digit })
        } else {
            &&& e == (Error::IncorrectCheckDigit {
                was: check_digit,
                expected: check_digit_for(payload@),
            })
            &&& check_digit != check_digit_for(payload@)
        },
{
    if !((('0' as u8) <= check_digit) && (check_digit <= ('9' as u8))) {
        Err(Error::InvalidCheckDigit { was: check_digit })
    } else {
        let computed_check_digit = compute_check_digit(payload);
        if check_digit != computed_check_digit {
            Err(Error::IncorrectCheckDigit { was: check_digit, expected: computed_check_digit })
        } else {
            Ok(())
        }
    }
}

/// Check that a candidate _Payload_ is well-formed: eleven bytes, sliced
/// into a _Prefix_ and a _Basic Code_ that each pass their format checks.
fn validate_payload_format(payload: &[u8]) -> (r: Result<(), Error>)
    ensures
        r is Ok <==> payload_format_ok(payload@),
        r matches Err(e) ==> payload_build_error(payload@, e),
{
    if payload.len() != 11 {
        return Err(Error::InvalidPayloadArrayLength { was: payload.len() });
    }

    let prefix: &[u8] = vstd::slice::slice_subrange(payload, 0, 2);
    match validate_prefix_format(prefix) {
        Err(e) => {
            return Err(e);
        },
        Ok(()) => {},
    }

    let basic_code: &[u8] = vstd::slice::slice_subrange(payload, 2, 11);
    match validate_basic_code_format(basic_code) {
        Err(e) => {
            return Err(e);
        },
        Ok(()) => {},
    }

    Ok(())
}

/// Check whether a string is in valid ISIN format, without materializing an
/// identifier value: the full strict-parse validation sequence, returning
/// the candidate's bytes on success or the first error found.
pub fn validate<'a>(value: &'a str) -> (r: Result<&'a [u8], Error>)
    ensures
        match r {
            Ok(b) => b@ == value.spec_bytes() && valid_isin_seq(value.spec_bytes()),
            Err(e) => !valid_isin_seq(value.spec_bytes()) && strict_parse_error(
                value.spec_bytes(),
                e,
            ),
        },
{
    // The string need not be pure ASCII: if there is Unicode in it, the
    // bytes will be outside the allowed range and format validation will
    // fail.
    let b = value.as_bytes();

    if b.len() != 12 {
        return Err(Error::InvalidValueStringLength { was: b.len() });
    }

    let payload: &[u8] = vstd::slice::slice_subrange(b, 0, 11);
    proof {
        assert(payload@.subrange(0, 2) =~= value.spec_bytes().subrange(0, 2));
        assert(payload@.subrange(2, 11) =~= value.spec_bytes().subrange(2, 11));
    }
    match validate_payload_format(payload) {
        Err(e) => {
            return Err(e);
        },
        Ok(()) => {},
    }

    let check_digit = b[11];
    proof {
        lemma_payload_checksum_chars(payload@);
    }
    match validate_check_digit_value(payload, check_digit) {
        Err(e) => {
            return Err(e);
        },
        Ok(()) => {},
    }

    Ok(b)
}

/// An ISIN in confirmed valid format.
///
/// An ISIN value cannot be constructed by hand: the only ways to obtain one
/// are the parse and build entry points, and every value satisfies the field
/// format rules and carries the checksum-correct check digit.
#[derive(Clone, Copy, PartialEq, Eq, PartialOrd, Ord, Hash, Debug)]
pub struct ISIN([u8; 12]);

impl View for ISIN {
    type V = Seq<u8>;

    closed spec fn view(&self) -> Seq<u8> {
        self.0@
    }
}

impl ISIN {
    /// The twelve bytes always form a valid identifier.
    #[verifier::type_invariant]
    spec fn type_inv(self) -> bool {
        valid_isin_seq(self.0@)
    }

    /// The ASCII characters of the identifier as a byte-array slice.
    pub fn as_bytes(&self) -> (r: &[u8])
        ensures
            r@ == self@,
            valid_isin_seq(self@),
    {
        proof {
            use_type_invariant(self);
        }
        self.0.as_slice()
    }

    /// Return just the _Prefix_ portion of the ISIN.
    pub fn prefix(&self) -> (r: String)
        ensures
            r@ == chars_of_bytes(self@.subrange(0, 2)),
            valid_isin_seq(self@),
    {
        proof {
            use_type_invariant(self);
        }
        let s = vstd::slice::slice_subrange(self.0.as_slice(), 0, 2);
        let mut out = String::new();
        push_bytes_as_chars(&mut out, s);
        proof {
            assert(out@ =~= chars_of_bytes(self@.subrange(0, 2)));
        }
        out
    }

    /// Return just the _Basic Code_ portion of the ISIN.
    pub fn basic_code(&self) -> (r: String)
        ensures
            r@ == chars_of_bytes(self@.subrange(2, 11)),
            valid_isin_seq(self@),
    {
        proof {
            use_type_invariant(self);
        }
        let s = vstd::slice::slice_subrange(self.0.as_slice(), 2, 11);
        let mut out = String::new();
        push_bytes_as_chars(&mut out, s);
        proof {
            assert(out@ =~= chars_of_bytes(self@.subrange(2, 11)));
        }
        out
    }

    /// Return the _Payload_ &mdash; everything except the _Check Digit_.
    pub fn payload(&self) -> (r: String)
        ensures
            r@ == chars_of_bytes(self@.subrange(0, 11)),
            valid_isin_seq(self@),
    {
        proof {
            use_type_invariant(self);
        }
        let s = vstd::slice::slice_subrange(self.0.as_slice(), 0, 11);
        let mut out = String::new();
        push_bytes_as_chars(&mut out, s);
        proof {
            assert(out@ =~= chars_of_bytes(self@.subrange(0, 11)));
        }
        out
    }

    /// Return just the _Check Digit_ portion of the ISIN.
    pub fn check_digit(&self) -> (r: char)
        ensures
            r == self@[11] as char,
            valid_isin_seq(self@),
    {
        proof {
            use_type_invariant(self);
        }
        self.0[11] as char
    }

    /// Render the full twelve-character text of the identifier.
    pub fn to_string(&self) -> (r: String)
        ensures
            r@ == chars_of_bytes(self@),
            valid_isin_seq(self@),
    {
        proof {
            use_type_invariant(self);
        }
        let mut out = String::new();
        push_bytes_as_chars(&mut out, self.0.as_slice());
        proof {
            assert(out@ =~= chars_of_bytes(self@));
        }
        out
    }
}

impl core::str::FromStr for ISIN {
    type Err = Error;

    fn from_str(s: &str) -> Result<Self, Self::Err> {
        parse_loose(s)
    }
}

/// Parse a string to a valid ISIN or a specific error, requiring the string
/// to already be only uppercase alphanumerics with no leading or trailing
/// whitespace in addition to being the right length and format.
pub fn parse(value: &str) -> (r: Result<ISIN, Error>)
    ensures
        match r {
            Ok(isin) => valid_isin_seq(value.spec_bytes()) && isin@ == value.spec_bytes(),
            Err(e) => !valid_isin_seq(value.spec_bytes()) && strict_parse_error(
                value.spec_bytes(),
                e,
            ),
        },
{
    let b = match validate(value) {
        Ok(b) => b,
        Err(e) => {
            return Err(e);
        },
    };

    let mut bb: [u8; 12] = [0u8; 12];
    let mut i: usize = 0;
    while i < 12
        invariant
            b@.len() == 12,
            bb@.len() == 12,
            i <= 12,
            forall|k: int| 0 <= k < i ==> bb@[k] == b@[k],
        decreases 12 - i,
    {
        bb[i] = b[i];
        i += 1;
    }
    proof {
        assert(bb@ =~= b@);
    }

    Ok(ISIN(bb))
}

/// Parse a string to a valid ISIN or a specific error, allowing the string
/// to contain leading or trailing whitespace and/or lowercase letters as
/// long as it is otherwise the right length and format. The tolerated noise
/// is normalized away - see [`normalize_chars`] - and the strict rules then
/// apply unchanged.
pub fn parse_loose(value: &str) -> (r: Result<ISIN, Error>)
    ensures
        ({
            let norm = vstd::utf8::encode_utf8(normalize_chars(value@));
            match r {
                Ok(isin) => valid_isin_seq(norm) && isin@ == norm,
                Err(e) => !valid_isin_seq(norm) && strict_parse_error(norm, e),
            }
        }),
{
    let ghost u = upper_chars(value@);

    let n = value.unicode_len();
    let mut chars: Vec<char> = Vec::new();
    let mut i: usize = 0;
    while i < n
        invariant
            n == value@.len(),
            i <= n,
            chars@.len() == i,
            forall|k: int| 0 <= k < i ==> chars@[k] == to_upper_char(#[trigger] value@[k]),
        decreases n - i,
    {
        let c = upper_char(value.get_char(i));
        chars.push(c);
        i += 1;
    }
    proof {
        assert(chars@ =~= u);
    }

    let m = chars.len();
    let mut start: usize = 0;
    proof {
        assert(u.skip(0) =~= u);
    }
    while start < m && is_space(chars[start])
        invariant
            chars@ == u,
            m == u.len(),
            start <= m,
            trim_start_chars(u) == trim_start_chars(u.skip(start as int)),
        decreases m - start,
    {
        proof {
            assert(u.skip(start as int).first() == u[start as int]);
            assert(u.skip(start as int).drop_first() =~= u.skip(start as int + 1));
        }
        start += 1;
    }
    proof {
        assert(trim_start_chars(u.skip(start as int)) == u.skip(start as int));
        assert(trim_start_chars(u) == u.skip(start as int));
    }

    let mut end: usize = m;
    proof {
        assert(u.subrange(start as int, m as int) =~= u.skip(start as int));
    }
    while end > start && is_space(chars[end - 1])
        invariant
            chars@ == u,
            m == u.len(),
            start <= end <= m,
            trim_end_chars(u.skip(start as int)) == trim_end_chars(
                u.subrange(start as int, end as int),
            ),
        decreases end,
    {
        proof {
            let t = u.subrange(start as int, end as int);
            assert(t.last() == u[end - 1]);
            assert(t.drop_last() =~= u.subrange(start as int, end - 1));
        }
        end -= 1;
    }
    proof {
        let t = u.subrange(start as int, end as int);
        if t.len() > 0 {
            assert(t.last() == u[end - 1]);
        }
        assert(trim_end_chars(t) == t);
        assert(normalize_chars(value@) == t);
    }

    let mut out = String::new();
    let mut k: usize = start;
    proof {
        assert(u.subrange(start as int, start as int) =~= Seq::<char>::empty());
    }
    while k < end
        invariant
            chars@ == u,
            m == u.len(),
            start <= k <= end <= m,
            out@ == u.subrange(start as int, k as int),
        decreases end - k,
    {
        let c = chars[k];
        push_char(&mut out, c);
        proof {
            assert(u.subrange(start as int, k as int).push(u[k as int]) =~= u.subrange(
                start as int,
                k + 1,
            ));
        }
        k += 1;
    }
    proof {
        assert(out@ == normalize_chars(value@));
    }

    parse(out.as_str())
}

/// Build an ISIN from a _Payload_ (an already-concatenated _Prefix_ and
/// _Basic Code_). The _Check Digit_ is automatically computed, so this can
/// only fail on a payload length or field format violation.
pub fn build_from_payload(payload: &str) -> (r: Result<ISIN, Error>)
    ensures
        ({
            let p = payload.spec_bytes();
            match r {
                Ok(isin) => payload_format_ok(p) && isin@ == p.push(check_digit_for(p)),
                Err(e) => !payload_format_ok(p) && payload_build_error(p, e),
            }
        }),
{
    // The string need not be pure ASCII: if there is Unicode in it, the
    // bytes will be outside the allowed range and format validation will
    // fail.
    let b = payload.as_bytes();

    match validate_payload_format(b) {
        Err(e) => {
            return Err(e);
        },
        Ok(()) => {},
    }

    let mut bb: [u8; 12] = [0u8; 12];
    let mut i: usize = 0;
    while i < 11
        invariant
            b@.len() == 11,
            bb@.len() == 12,
            i <= 11,
            forall|k: int| 0 <= k < i ==> bb@[k] == b@[k],
        decreases 11 - i,
    {
        bb[i] = b[i];
        i += 1;
    }
    proof {
        lemma_payload_checksum_chars(b@);
        lemma_checksum_in_range(b@);
    }
    bb[11] = compute_check_digit(b);

    proof {
        assert(bb@ =~= b@.push(check_digit_for(b@)));
        assert(bb@.subrange(0, 11) =~= b@);
    }
    Ok(ISIN(bb))
}

/// Build an ISIN from its parts: a _Prefix_ and a _Basic Code_. Each part's
/// length and format are validated independently, and the _Check Digit_ is
/// automatically computed.
pub fn build_from_parts(prefix: &str, basic_code: &str) -> (r: Result<ISIN, Error>)
    ensures
        ({
            let p = prefix.spec_bytes();
            let bc = basic_code.spec_bytes();
            match r {
                Ok(isin) => prefix_format_ok(p) && basic_code_format_ok(bc) && isin@ == (p
                    + bc).push(check_digit_for(p + bc)),
                Err(e) => !(prefix_format_ok(p) && basic_code_format_ok(bc)) && parts_build_error(
                    p,
                    bc,
                    e,
                ),
            }
        }),
{
    let pb = prefix.as_bytes();
    if pb.len() != 2 {
        return Err(Error::InvalidPrefixStringLength { was: pb.len() });
    }
    match validate_prefix_format(pb) {
        Err(e) => {
            return Err(e);
        },
        Ok(()) => {},
    }

    let bcb = basic_code.as_bytes();
    if bcb.len() != 9 {
        return Err(Error::InvalidBasicCodeStringLength { was: bcb.len() });
    }
    match validate_basic_code_format(bcb) {
        Err(e) => {
            return Err(e);
        },
        Ok(()) => {},
    }

    let ghost joined = prefix.spec_bytes() + basic_code.spec_bytes();
    let mut bb: [u8; 12] = [0u8; 12];
    bb[0] = pb[0];
    bb[1] = pb[1];
    let mut i: usize = 0;
    while i < 9
        invariant
            pb@.len() == 2,
            bcb@.len() == 9,
            bb@.len() == 12,
            i <= 9,
            bb@[0] == pb@[0],
            bb@[1] == pb@[1],
            forall|k: int| 0 <= k < i ==> bb@[2 + k] == bcb@[k],
        decreases 9 - i,
    {
        bb[2 + i] = bcb[i];
        i += 1;
    }

    proof {
        assert(bb@.subrange(0, 11) =~= joined);
        assert(joined.subrange(0, 2) =~= pb@);
        assert(joined.subrange(2, 11) =~= bcb@);
        lemma_payload_checksum_chars(joined);
        lemma_checksum_in_range(joined);
    }
    let payload: &[u8] = vstd::slice::slice_subrange(vstd::array::array_as_slice(&bb), 0, 11);
    let cd = compute_check_digit(payload);
    bb[11] = cd;

    proof {
        assert(bb@ =~= joined.push(check_digit_for(joined)));
        assert(bb@.subrange(0, 11) =~= joined);
    }
    Ok(ISIN(bb))
}

/// Law: the text rendering of a valid identifier encodes back to exactly the
/// identifier's bytes, so strict-parsing the rendering of a parsed
/// identifier yields the identifier again.
pub proof fn lemma_parse_render_round_trip(s: Seq<u8>)
    requires
        valid_isin_seq(s),
    ensures
        vstd::utf8::encode_utf8(chars_of_bytes(s)) == s,
{
    let chars = chars_of_bytes(s);
    assert forall|i: int| 0 <= i < s.len() implies s[i] < 128 by {
        if i < 11 {
            lemma_payload_checksum_chars(s.subrange(0, 11));
            assert(s[i] == s.subrange(0, 11)[i]);
        }
    }
    assert(vstd::utf8::is_ascii_chars(chars));
    vstd::utf8::is_ascii_chars_encode_utf8(chars);
    assert(vstd::utf8::encode_utf8(chars) =~= s);
}

/// Law: when a candidate of the right length has both a malformed _Prefix_
/// and malformed later fields, the strict-parse error always reports the
/// _Prefix_: diagnostics name the leftmost structural problem.
pub proof fn lemma_prefix_error_reported_first(s: Seq<u8>, e: Error)
    requires
        s.len() == 12,
        !prefix_format_ok(s.subrange(0, 2)),
        strict_parse_error(s, e),
    ensures
        e matches Error::InvalidPrefix { was } && was@ == s.subrange(0, 2),
{
}

} // verus!

