//! Error type for ISIN parsing and building.

use crate::text::{
    byte_list_chars, decimal_chars, push_byte_list, push_char, push_decimal, utf8_str,
};
use vstd::prelude::*;
use vstd::string::StringExecFns;
use vstd::utf8::{decode_utf8, encode_utf8_decode_utf8, valid_utf8};

verus! {

/// All the ways parsing or building could fail. Each variant carries a
/// snapshot of the offending length or field bytes, so the error is
/// self-contained and outlives the original input string.
#[non_exhaustive]
#[derive(Clone, PartialEq, Eq, Debug)]
#[allow(inconsistent_fields)]
pub enum Error {
    /// The value string length is not exactly 12 characters.
    InvalidValueStringLength {
        /// The length we found
        was: usize,
    },
    /// The value byte array length is not exactly 12 bytes.
    InvalidValueArrayLength {
        /// The length we found
        was: usize,
    },
    /// The _Payload_ string length is not exactly 11 characters.
    InvalidPayloadStringLength {
        /// The length we found
        was: usize,
    },
    /// The _Payload_ byte array length is not exactly 11 bytes.
    InvalidPayloadArrayLength {
        /// The length we found
        was: usize,
    },
    /// The _Prefix_ string length is not exactly 2 characters.
    InvalidPrefixStringLength {
        /// The length we found
        was: usize,
    },
    /// The _Prefix_ byte array length is not exactly 2 bytes.
    InvalidPrefixArrayLength {
        /// The length we found
        was: usize,
    },
    /// The _Basic Code_ string length is not exactly 9 characters.
    InvalidBasicCodeStringLength {
        /// The length we found
        was: usize,
    },
    /// The _Basic Code_ byte array length is not exactly 9 bytes.
    InvalidBasicCodeArrayLength {
        /// The length we found
        was: usize,
    },
    /// The input _Prefix_ is not two uppercase ASCII alphabetic characters.
    InvalidPrefix {
        /// The _Prefix_ we found
        was: [u8; 2],
    },
    /// The input _Basic Code_ is not nine uppercase ASCII alphanumeric
    /// characters.
    InvalidBasicCode {
        /// The _Basic Code_ we found
        was: [u8; 9],
    },
    /// The input _Check Digit_ is not a single ASCII decimal digit
    /// character.
    InvalidCheckDigit {
        /// The _Check Digit_ we found
        was: u8,
    },
    /// The input _Check Digit_ is in a valid format, but has an incorrect
    /// value.
    IncorrectCheckDigit {
        /// The _Check Digit_ we found
        was: u8,
        /// The _Check Digit_ we expected
        expected: u8,
    },
}

/// The concise human-readable message for an error: the field, what was
/// found, and what was expected. Field bytes that form valid UTF-8 are
/// rendered between double quotes as the text they encode, embedded
/// verbatim, without escape sequences; any other bytes fall back to an
/// "(invalid UTF-8)" marker followed by the bracketed decimal byte list.
/// Check digits are rendered between single quotes.
pub open spec fn display_chars(e: Error) -> Seq<char> {
    match e {
        Error::InvalidValueStringLength { was } => "invalid value string length "@ + decimal_chars(
            was as nat,
        ) + " characters when expecting 12"@,
        Error::InvalidValueArrayLength { was } => "invalid value array length "@ + decimal_chars(
            was as nat,
        ) + " bytes when expecting 12"@,
        Error::InvalidPayloadStringLength { was } => "invalid Payload string length "@
            + decimal_chars(was as nat) + " characters when expecting 11"@,
        Error::InvalidPayloadArrayLength { was } => "invalid Payload array length "@
            + decimal_chars(was as nat) + " bytes when expecting 11"@,
        Error::InvalidPrefixStringLength { was } => "invalid Prefix string length "@
            + decimal_chars(was as nat) + " characters when expecting 2"@,
        Error::InvalidPrefixArrayLength { was } => "invalid Prefix array length "@ + decimal_chars(
            was as nat,
        ) + " bytes when expecting 2"@,
        Error::InvalidBasicCodeStringLength { was } => "invalid Basic Code string length "@
            + decimal_chars(was as nat) + " characters when expecting 9"@,
        Error::InvalidBasicCodeArrayLength { was } => "invalid Basic Code array length "@
            + decimal_chars(was as nat) + " bytes when expecting 9"@,
        Error::InvalidPrefix { was } => if valid_utf8(was@) {
            "prefix \""@ + decode_utf8(was@)
                + "\" is not two uppercase ASCII alphabetic characters"@
        } else {
            "prefix (invalid UTF-8) "@ + byte_list_chars(was@)
                + " is not two uppercase ASCII alphabetic characters"@
        },
        Error::InvalidBasicCode { was } => if valid_utf8(was@) {
            "basic code \""@ + decode_utf8(was@)
                + "\" is not nine uppercase ASCII alphanumeric characters"@
        } else {
            "basic code (invalid UTF-8) "@ + byte_list_chars(was@)
                + " is not nine uppercase ASCII alphanumeric characters"@
        },
        Error::InvalidCheckDigit { was } => "check digit '"@.push(was as char)
            + "' is not one ASCII decimal digit"@,
        Error::IncorrectCheckDigit { was, expected } => "incorrect check digit '"@.push(
            was as char,
        ) + "' when expecting '"@.push(expected as char) + "'"@,
    }
}

/// The structured rendering of an error: the variant name and its payload,
/// suitable for logging. Field bytes render as in [`display_chars`]: decoded
/// text between double quotes when they form valid UTF-8, the marker and the
/// decimal byte list otherwise.
pub open spec fn debug_chars(e: Error) -> Seq<char> {
    match e {
        Error::InvalidValueStringLength { was } => "InvalidValueStringLength { was: "@
            + decimal_chars(was as nat) + " }"@,
        Error::InvalidValueArrayLength { was } => "InvalidValueArrayLength { was: "@
            + decimal_chars(was as nat) + " }"@,
        Error::InvalidPayloadStringLength { was } => "InvalidPayloadStringLength { was: "@
            + decimal_chars(was as nat) + " }"@,
        Error::InvalidPayloadArrayLength { was } => "InvalidPayloadArrayLength { was: "@
            + decimal_chars(was as nat) + " }"@,
        Error::InvalidPrefixStringLength { was } => "InvalidPrefixStringLength { was: "@
            + decimal_chars(was as nat) + " }"@,
        Error::InvalidPrefixArrayLength { was } => "InvalidPrefixArrayLength { was: "@
            + decimal_chars(was as nat) + " }"@,
        Error::InvalidBasicCodeStringLength { was } => "InvalidBasicCodeStringLength { was: "@
            + decimal_chars(was as nat) + " }"@,
        Error::InvalidBasicCodeArrayLength { was } => "InvalidBasicCodeArrayLength { was: "@
            + decimal_chars(was as nat) + " }"@,
        Error::InvalidPrefix { was } => if valid_utf8(was@) {
            "InvalidPrefix { was: \""@ + decode_utf8(was@) + "\" }"@
        } else {
            "InvalidPrefix { was: (invalid UTF-8) "@ + byte_list_chars(was@) + " }"@
        },
        Error::InvalidBasicCode { was } => if valid_utf8(was@) {
            "InvalidBasicCode { was: \""@ + decode_utf8(was@) + "\" }"@
        } else {
            "InvalidBasicCode { was: (invalid UTF-8) "@ + byte_list_chars(was@) + " }"@
        },
        Error::InvalidCheckDigit { was } => "InvalidCheckDigit { was: '"@.push(was as char)
            + "' }"@,
        Error::IncorrectCheckDigit { was, expected } => "IncorrectCheckDigit { was: '"@.push(
            was as char,
        ) + "', expected: '"@.push(expected as char) + "' }"@,
    }
}

impl Error {
    /// Render the concise human-readable message.
    pub fn to_string(&self) -> (r: String)
        ensures
            r@ == display_chars(*self),
    {
        let mut out = String::new();
        match self {
            Error::InvalidValueStringLength { was } => {
                out.append("invalid value string length ");
                push_decimal(&mut out, *was);
                out.append(" characters when expecting 12");
            },
            Error::InvalidValueArrayLength { was } => {
                out.append("invalid value array length ");
                push_decimal(&mut out, *was);
                out.append(" bytes when expecting 12");
            },
            Error::InvalidPayloadStringLength { was } => {
                out.append("invalid Payload string length ");
                push_decimal(&mut out, *was);
                out.append(" characters when expecting 11");
            },
            Error::InvalidPayloadArrayLength { was } => {
                out.append("invalid Payload array length ");
                push_decimal(&mut out, *was);
                out.append(" bytes when expecting 11");
            },
            Error::InvalidPrefixStringLength { was } => {
                out.append("invalid Prefix string length ");
                push_decimal(&mut out, *was);
                out.append(" characters when expecting 2");
            },
            Error::InvalidPrefixArrayLength { was } => {
                out.append("invalid Prefix array length ");
                push_decimal(&mut out, *was);
                out.append(" bytes when expecting 2");
            },
            Error::InvalidBasicCodeStringLength { was } => {
                out.append("invalid Basic Code string length ");
                push_decimal(&mut out, *was);
                out.append(" characters when expecting 9");
            },
            Error::InvalidBasicCodeArrayLength { was } => {
                out.append("invalid Basic Code array length ");
                push_decimal(&mut out, *was);
                out.append(" bytes when expecting 9");
            },
            Error::InvalidPrefix { was } => {
                match utf8_str(was.as_slice()) {
                    Some(s) => {
                        out.append("prefix \"");
                        out.append(s);
                        out.append("\" is not two uppercase ASCII alphabetic characters");
                        proof {
                            encode_utf8_decode_utf8(s@);
                            assert(out@ =~= display_chars(*self));
                        }
                    },
                    None => {
                        out.append("prefix (invalid UTF-8) ");
                        push_byte_list(&mut out, was.as_slice());
                        out.append(" is not two uppercase ASCII alphabetic characters");
                        proof {
                            assert(out@ =~= display_chars(*self));
                        }
                    },
                }
            },
            Error::InvalidBasicCode { was } => {
                match utf8_str(was.as_slice()) {
                    Some(s) => {
                        out.append("basic code \"");
                        out.append(s);
                        out.append("\" is not nine uppercase ASCII alphanumeric characters");
                        proof {
                            encode_utf8_decode_utf8(s@);
                            assert(out@ =~= display_chars(*self));
                        }
                    },
                    None => {
                        out.append("basic code (invalid UTF-8) ");
                        push_byte_list(&mut out, was.as_slice());
                        out.append(" is not nine uppercase ASCII alphanumeric characters");
                        proof {
                            assert(out@ =~= display_chars(*self));
                        }
                    },
                }
            },
            Error::InvalidCheckDigit { was } => {
                out.append("check digit '");
                push_char(&mut out, *was as char);
                out.append("' is not one ASCII decimal digit");
            },
            Error::IncorrectCheckDigit { was, expected } => {
                out.append("incorrect check digit '");
                push_char(&mut out, *was as char);
                out.append("' when expecting '");
                push_char(&mut out, *expected as char);
                out.append("'");
            },
        }
        proof {
            assert(out@ =~= display_chars(*self));
        }
        out
    }

    /// Render the structured variant-and-payload form.
    pub fn debug_string(&self) -> (r: String)
        ensures
            r@ == debug_chars(*self),
    {
        let mut out = String::new();
        match self {
            Error::InvalidValueStringLength { was } => {
                out.append("InvalidValueStringLength { was: ");
                push_decimal(&mut out, *was);
                out.append(" }");
            },
            Error::InvalidValueArrayLength { was } => {
                out.append("InvalidValueArrayLength { was: ");
                push_decimal(&mut out, *was);
                out.append(" }");
            },
            Error::InvalidPayloadStringLength { was } => {
                out.append("InvalidPayloadStringLength { was: ");
                push_decimal(&mut out, *was);
                out.append(" }");
            },
            Error::InvalidPayloadArrayLength { was } => {
                out.append("InvalidPayloadArrayLength { was: ");
                push_decimal(&mut out, *was);
                out.append(" }");
            },
            Error::InvalidPrefixStringLength { was } => {
                out.append("InvalidPrefixStringLength { was: ");
                push_decimal(&mut out, *was);
                out.append(" }");
            },
            Error::InvalidPrefixArrayLength { was } => {
                out.append("InvalidPrefixArrayLength { was: ");
                push_decimal(&mut out, *was);
                out.append(" }");
            },
            Error::InvalidBasicCodeStringLength { was } => {
                out.append("InvalidBasicCodeStringLength { was: ");
                push_decimal(&mut out, *was);
                out.append(" }");
            },
            Error::InvalidBasicCodeArrayLength { was } => {
                out.append("InvalidBasicCodeArrayLength { was: ");
                push_decimal(&mut out, *was);
                out.append(" }");
            },
            Error::InvalidPrefix { was } => {
                match utf8_str(was.as_slice()) {
                    Some(s) => {
                        out.append("InvalidPrefix { was: \"");
                        out.append(s);
                        out.append("\" }");
                        proof {
                            encode_utf8_decode_utf8(s@);
                            assert(out@ =~= debug_chars(*self));
                        }
                    },
                    None => {
                        out.append("InvalidPrefix { was: (invalid UTF-8) ");
                        push_byte_list(&mut out, was.as_slice());
                        out.append(" }");
                        proof {
                            assert(out@ =~= debug_chars(*self));
                        }
                    },
                }
            },
            Error::InvalidBasicCode { was } => {
                match utf8_str(was.as_slice()) {
                    Some(s) => {
                        out.append("InvalidBasicCode { was: \"");
                        out.append(s);
                        out.append("\" }");
                        proof {
                            encode_utf8_decode_utf8(s@);
                            assert(out@ =~= debug_chars(*self));
                        }
                    },
                    None => {
                        out.append("InvalidBasicCode { was: (invalid UTF-8) ");
                        push_byte_list(&mut out, was.as_slice());
                        out.append(" }");
                        proof {
                            assert(out@ =~= debug_chars(*self));
                        }
                    },
                }
            },
            Error::InvalidCheckDigit { was } => {
                out.append("InvalidCheckDigit { was: '");
                push_char(&mut out, *was as char);
                out.append("' }");
            },
            Error::IncorrectCheckDigit { was, expected } => {
                out.append("IncorrectCheckDigit { was: '");
                push_char(&mut out, *was as char);
                out.append("', expected: '");
                push_char(&mut out, *expected as char);
                out.append("' }");
            },
        }
        proof {
            assert(out@ =~= debug_chars(*self));
        }
        out
    }
}

} // verus!
