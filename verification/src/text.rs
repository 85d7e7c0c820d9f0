//! Verified helpers for building ASCII text and for normalizing candidate
//! input: rendering numbers in decimal, turning bytes into characters,
//! uppercasing ASCII letters, and trimming surrounding whitespace.

use vstd::prelude::*;
use vstd::string::{StringExecFns, StringSliceAdditionalSpecFns};

verus! {

/// The characters of a byte sequence, each byte read as the character with
/// the same code.
pub open spec fn chars_of_bytes(s: Seq<u8>) -> Seq<char> {
    s.map_values(|b: u8| b as char)
}

/// The decimal digit character for a value below ten.
pub open spec fn digit_char(d: nat) -> char
    recommends
        d < 10,
{
    ((('0' as u8) + d) as char)
}

/// The decimal rendering of a number, most significant digit first, with no
/// sign and no leading zeros (a lone zero renders as "0").
pub open spec fn decimal_chars(n: nat) -> Seq<char>
    decreases n,
{
    if n < 10 {
        seq![digit_char(n)]
    } else {
        decimal_chars(n / 10).push(digit_char(n % 10))
    }
}

/// Relies on alloc::string::String::push: appends exactly the one character
/// to the end of the string.
#[verifier::external_body]
pub(crate) fn push_char(s: &mut String, c: char)
    ensures
        final(s)@ == old(s)@.push(c),
{
    s.push(c);
}

/// Append the decimal rendering of `n`.
pub(crate) fn push_decimal(s: &mut String, n: usize)
    ensures
        final(s)@ == old(s)@ + decimal_chars(n as nat),
    decreases n,
{
    if n >= 10 {
        push_decimal(s, n / 10);
    }
    let c = ((('0' as u8) + ((n % 10) as u8)) as char);
    push_char(s, c);
    proof {
        if n < 10 {
            assert(old(s)@.push(c) =~= old(s)@ + decimal_chars(n as nat));
        } else {
            assert((old(s)@ + decimal_chars(n as nat / 10)).push(c) =~= old(s)@ + decimal_chars(
                n as nat,
            ));
        }
    }
}

/// Append each byte as the character with the same code.
pub(crate) fn push_bytes_as_chars(s: &mut String, bytes: &[u8])
    ensures
        final(s)@ == old(s)@ + chars_of_bytes(bytes@),
{
    let n = bytes.len();
    let mut i: usize = 0;
    while i < n
        invariant
            n == bytes@.len(),
            i <= n,
            s@ == old(s)@ + chars_of_bytes(bytes@.subrange(0, i as int)),
        decreases n - i,
    {
        let c = bytes[i] as char;
        push_char(s, c);
        proof {
            assert((old(s)@ + chars_of_bytes(bytes@.subrange(0, i as int))).push(c) =~= old(s)@
                + chars_of_bytes(bytes@.subrange(0, i + 1)));
        }
        i += 1;
    }
    proof {
        assert(bytes@.subrange(0, n as int) =~= bytes@);
    }
}

/// The items of a byte list rendering: the decimal value of each byte,
/// separated by a comma and a space.
pub open spec fn byte_list_items(s: Seq<u8>) -> Seq<char>
    decreases s.len(),
{
    if s.len() == 0 {
        Seq::empty()
    } else if s.len() == 1 {
        decimal_chars(s[0] as nat)
    } else {
        byte_list_items(s.drop_last()) + ", "@ + decimal_chars(s.last() as nat)
    }
}

/// The rendering of a byte sequence as a bracketed list of decimal values,
/// for diagnostics about bytes that do not form readable text.
pub open spec fn byte_list_chars(s: Seq<u8>) -> Seq<char> {
    "["@ + byte_list_items(s) + "]"@
}

/// Append the bracketed decimal list rendering of the bytes.
pub(crate) fn push_byte_list(s: &mut String, bytes: &[u8])
    ensures
        final(s)@ == old(s)@ + byte_list_chars(bytes@),
{
    s.append("[");
    let n = bytes.len();
    let mut i: usize = 0;
    while i < n
        invariant
            n == bytes@.len(),
            i <= n,
            s@ == old(s)@ + "["@ + byte_list_items(bytes@.subrange(0, i as int)),
        decreases n - i,
    {
        if i > 0 {
            s.append(", ");
        }
        push_decimal(s, bytes[i] as usize);
        proof {
            let pre = bytes@.subrange(0, i + 1);
            assert(pre.drop_last() =~= bytes@.subrange(0, i as int));
            assert(pre.last() == bytes@[i as int]);
            if i == 0 {
                assert(byte_list_items(pre) =~= decimal_chars(bytes@[0] as nat));
            }
            assert(s@ =~= old(s)@ + "["@ + byte_list_items(pre));
        }
        i += 1;
    }
    s.append("]");
    proof {
        assert(bytes@.subrange(0, n as int) =~= bytes@);
        assert(s@ =~= old(s)@ + byte_list_chars(bytes@));
    }
}

/// Relies on core::str::from_utf8: returns the string viewing exactly the
/// given bytes when they are valid UTF-8, and nothing otherwise.
#[verifier::external_body]
pub(crate) fn utf8_str<'a>(bytes: &'a [u8]) -> (r: Option<&'a str>)
    ensures
        match r {
            Some(s) => vstd::utf8::valid_utf8(bytes@) && s.spec_bytes() == bytes@,
            None => !vstd::utf8::valid_utf8(bytes@),
        },
{
    core::str::from_utf8(bytes).ok()
}

/// True for the characters that count as whitespace when input is trimmed:
/// the Unicode White_Space code points.
pub open spec fn is_space_char(c: char) -> bool {
    ||| c == '\t'
    ||| c == '\n'
    ||| c == '\u{b}'
    ||| c == '\u{c}'
    ||| c == '\r'
    ||| c == ' '
    ||| c == '\u{85}'
    ||| c == '\u{a0}'
    ||| c == '\u{1680}'
    ||| '\u{2000}' <= c <= '\u{200a}'
    ||| c == '\u{2028}'
    ||| c == '\u{2029}'
    ||| c == '\u{202f}'
    ||| c == '\u{205f}'
    ||| c == '\u{3000}'
}

/// Decide [`is_space_char`].
pub(crate) fn is_space(c: char) -> (r: bool)
    ensures
        r == is_space_char(c),
{
    c == '\t' || c == '\n' || c == '\u{b}' || c == '\u{c}' || c == '\r' || c == ' ' || c == '\u{85}'
        || c == '\u{a0}' || c == '\u{1680}' || ('\u{2000}' <= c && c <= '\u{200a}') || c
        == '\u{2028}' || c == '\u{2029}' || c == '\u{202f}' || c == '\u{205f}' || c == '\u{3000}'
}

/// An ASCII lowercase letter folded to its uppercase form; any other
/// character unchanged.
pub open spec fn to_upper_char(c: char) -> char {
    if 'a' <= c <= 'z' {
        (((c as u8) - 32) as char)
    } else {
        c
    }
}

/// Fold one character with [`to_upper_char`].
pub(crate) fn upper_char(c: char) -> (r: char)
    ensures
        r == to_upper_char(c),
{
    if 'a' <= c && c <= 'z' {
        ((c as u8) - 32) as char
    } else {
        c
    }
}

/// A character sequence with every ASCII lowercase letter folded to
/// uppercase.
pub open spec fn upper_chars(s: Seq<char>) -> Seq<char> {
    s.map_values(|c: char| to_upper_char(c))
}

/// A character sequence with its leading whitespace removed.
pub open spec fn trim_start_chars(s: Seq<char>) -> Seq<char>
    decreases s.len(),
{
    if s.len() > 0 && is_space_char(s.first()) {
        trim_start_chars(s.drop_first())
    } else {
        s
    }
}

/// A character sequence with its trailing whitespace removed.
pub open spec fn trim_end_chars(s: Seq<char>) -> Seq<char>
    decreases s.len(),
{
    if s.len() > 0 && is_space_char(s.last()) {
        trim_end_chars(s.drop_last())
    } else {
        s
    }
}

/// The normalization loose parsing applies before the strict rules: fold
/// ASCII letters to uppercase, then strip leading and trailing whitespace.
pub open spec fn normalize_chars(s: Seq<char>) -> Seq<char> {
    trim_end_chars(trim_start_chars(upper_chars(s)))
}

/// Trimming leaves no whitespace at the start.
proof fn lemma_trim_start_no_leading_space(s: Seq<char>)
    ensures
        trim_start_chars(s).len() > 0 ==> !is_space_char(trim_start_chars(s).first()),
    decreases s.len(),
{
    if s.len() > 0 && is_space_char(s.first()) {
        lemma_trim_start_no_leading_space(s.drop_first());
    }
}

/// Trimming leaves no whitespace at the end.
proof fn lemma_trim_end_no_trailing_space(s: Seq<char>)
    ensures
        trim_end_chars(s).len() > 0 ==> !is_space_char(trim_end_chars(s).last()),
    decreases s.len(),
{
    if s.len() > 0 && is_space_char(s.last()) {
        lemma_trim_end_no_trailing_space(s.drop_last());
    }
}

/// Trimming the end keeps a prefix of the sequence unchanged.
proof fn lemma_trim_end_is_prefix(s: Seq<char>)
    ensures
        trim_end_chars(s).len() <= s.len(),
        forall|i: int|
            0 <= i < trim_end_chars(s).len() ==> #[trigger] trim_end_chars(s)[i] == s[i],
    decreases s.len(),
{
    if s.len() > 0 && is_space_char(s.last()) {
        lemma_trim_end_is_prefix(s.drop_last());
    }
}

/// A sequence already free of lowercase ASCII letters keeps that property
/// under trimming at the start.
proof fn lemma_upper_fixed_trim_start(s: Seq<char>)
    requires
        upper_chars(s) == s,
    ensures
        upper_chars(trim_start_chars(s)) == trim_start_chars(s),
    decreases s.len(),
{
    if s.len() > 0 && is_space_char(s.first()) {
        assert(upper_chars(s.drop_first()) =~= s.drop_first());
        lemma_upper_fixed_trim_start(s.drop_first());
    }
}

/// A sequence already free of lowercase ASCII letters keeps that property
/// under trimming at the end.
proof fn lemma_upper_fixed_trim_end(s: Seq<char>)
    requires
        upper_chars(s) == s,
    ensures
        upper_chars(trim_end_chars(s)) == trim_end_chars(s),
    decreases s.len(),
{
    if s.len() > 0 && is_space_char(s.last()) {
        assert(upper_chars(s.drop_last()) =~= s.drop_last());
        lemma_upper_fixed_trim_end(s.drop_last());
    }
}

/// Law: normalization is idempotent. Loose parsing normalizes its input and
/// then applies the strict rules, so parsing a string loosely returns the
/// same outcome as parsing its normalized form loosely.
pub proof fn lemma_normalize_idempotent(s: Seq<char>)
    ensures
        normalize_chars(normalize_chars(s)) == normalize_chars(s),
{
    let u = upper_chars(s);
    let y = trim_start_chars(u);
    let t = trim_end_chars(y);

    // Folding case a second time changes nothing.
    assert(upper_chars(u) =~= u);
    lemma_upper_fixed_trim_start(u);
    lemma_upper_fixed_trim_end(y);
    assert(upper_chars(t) == t);

    // The trimmed result has no whitespace left at either end.
    lemma_trim_start_no_leading_space(u);
    lemma_trim_end_is_prefix(y);
    if t.len() > 0 {
        assert(t[0] == y[0]);
        assert(!is_space_char(t.first()));
    }
    assert(trim_start_chars(t) == t);
    lemma_trim_end_no_trailing_space(y);
    assert(trim_end_chars(t) == t);
}

} // verus!
