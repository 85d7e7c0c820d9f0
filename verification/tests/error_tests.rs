use isin::Error;

#[test]
fn render_display() {
    let errors = [
        (
            Error::InvalidValueStringLength { was: 10 },
            "invalid value string length 10 characters when expecting 12",
        ),
        (
            Error::InvalidValueArrayLength { was: 10 },
            "invalid value array length 10 bytes when expecting 12",
        ),
        (
            Error::InvalidPayloadStringLength { was: 8 },
            "invalid Payload string length 8 characters when expecting 11",
        ),
        (
            Error::InvalidPayloadArrayLength { was: 8 },
            "invalid Payload array length 8 bytes when expecting 11",
        ),
        (
            Error::InvalidPrefixStringLength { was: 1 },
            "invalid Prefix string length 1 characters when expecting 2",
        ),
        (
            Error::InvalidPrefixArrayLength { was: 1 },
            "invalid Prefix array length 1 bytes when expecting 2",
        ),
        (
            Error::InvalidBasicCodeStringLength { was: 8 },
            "invalid Basic Code string length 8 characters when expecting 9",
        ),
        (
            Error::InvalidBasicCodeArrayLength { was: 8 },
            "invalid Basic Code array length 8 bytes when expecting 9",
        ),
        (
            Error::InvalidPrefix { was: *b"A{" },
            "prefix \"A{\" is not two uppercase ASCII alphabetic characters",
        ),
        (
            Error::InvalidBasicCode { was: *b"ABCDEFGH{" },
            "basic code \"ABCDEFGH{\" is not nine uppercase ASCII alphanumeric characters",
        ),
        (
            Error::InvalidCheckDigit { was: b':' },
            "check digit ':' is not one ASCII decimal digit",
        ),
        (
            Error::IncorrectCheckDigit {
                was: b'5',
                expected: b'6',
            },
            "incorrect check digit '5' when expecting '6'",
        ),
    ];

    for (error, expected) in errors.iter() {
        assert_eq!(error.to_string(), *expected);
    }
}

#[test]
fn render_debug() {
    let errors = [
        (
            Error::InvalidValueStringLength { was: 10 },
            "InvalidValueStringLength { was: 10 }",
        ),
        (
            Error::InvalidValueArrayLength { was: 10 },
            "InvalidValueArrayLength { was: 10 }",
        ),
        (
            Error::InvalidPayloadStringLength { was: 8 },
            "InvalidPayloadStringLength { was: 8 }",
        ),
        (
            Error::InvalidPayloadArrayLength { was: 8 },
            "InvalidPayloadArrayLength { was: 8 }",
        ),
        (
            Error::InvalidPrefixArrayLength { was: 1 },
            "InvalidPrefixArrayLength { was: 1 }",
        ),
        (
            Error::InvalidBasicCodeArrayLength { was: 8 },
            "InvalidBasicCodeArrayLength { was: 8 }",
        ),
        (
            Error::InvalidPrefix { was: *b"A{" },
            "InvalidPrefix { was: \"A{\" }",
        ),
        (
            Error::InvalidBasicCode { was: *b"ABCDEFGH{" },
            "InvalidBasicCode { was: \"ABCDEFGH{\" }",
        ),
        (
            Error::InvalidCheckDigit { was: b':' },
            "InvalidCheckDigit { was: ':' }",
        ),
        (
            Error::IncorrectCheckDigit {
                was: b'5',
                expected: b'6',
            },
            "IncorrectCheckDigit { was: '5', expected: '6' }",
        ),
    ];

    for (error, expected) in errors.iter() {
        assert_eq!(error.debug_string(), *expected);
    }
}

// Field snapshots that are not valid UTF-8 fall back to a marker and the
// decimal byte list, in both renderings.
#[test]
fn render_invalid_utf8_snapshots() {
    let prefix_err = Error::InvalidPrefix { was: [240, 145] };
    assert_eq!(
        prefix_err.to_string(),
        "prefix (invalid UTF-8) [240, 145] is not two uppercase ASCII alphabetic characters"
    );
    assert_eq!(
        prefix_err.debug_string(),
        "InvalidPrefix { was: (invalid UTF-8) [240, 145] }"
    );

    let basic_err = Error::InvalidBasicCode {
        was: [255, 0, 1, 2, 3, 4, 5, 6, 7],
    };
    assert_eq!(
        basic_err.to_string(),
        "basic code (invalid UTF-8) [255, 0, 1, 2, 3, 4, 5, 6, 7] is not nine uppercase ASCII alphanumeric characters"
    );
    assert_eq!(
        basic_err.debug_string(),
        "InvalidBasicCode { was: (invalid UTF-8) [255, 0, 1, 2, 3, 4, 5, 6, 7] }"
    );
}

// Field snapshots that are valid UTF-8 but not ASCII render as the text they
// encode.
#[test]
fn render_valid_non_ascii_snapshot() {
    let err = Error::InvalidPrefix { was: [0xC3, 0xA9] };
    assert_eq!(
        err.to_string(),
        "prefix \"é\" is not two uppercase ASCII alphabetic characters"
    );
    assert_eq!(err.debug_string(), "InvalidPrefix { was: \"é\" }");
}

// The decimal rendering of a length has no padding and no sign, for zero and
// for values of several digits.
#[test]
fn render_lengths_zero_and_wide() {
    assert_eq!(
        Error::InvalidValueStringLength { was: 0 }.to_string(),
        "invalid value string length 0 characters when expecting 12"
    );
    assert_eq!(
        Error::InvalidValueStringLength { was: 105 }.to_string(),
        "invalid value string length 105 characters when expecting 12"
    );
}
