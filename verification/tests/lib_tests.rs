use isin::{build_from_parts, build_from_payload, parse, parse_loose, validate, Error};

#[test]
fn parse_isin_for_apple_strict() {
    match parse("US0378331005") {
        Ok(isin) => {
            assert_eq!(isin.to_string(), "US0378331005");
            assert_eq!(isin.prefix(), "US");
            assert_eq!(isin.basic_code(), "037833100");
            assert_eq!(isin.check_digit(), '5');
        }
        Err(err) => panic!("Did not expect parsing to fail: {}", err.to_string()),
    }
}

#[test]
fn build_isin_for_apple_from_payload() {
    match build_from_payload("US037833100") {
        Ok(isin) => {
            assert_eq!(isin.to_string(), "US0378331005");
            assert_eq!(isin.prefix(), "US");
            assert_eq!(isin.basic_code(), "037833100");
            assert_eq!(isin.check_digit(), '5');
        }
        Err(err) => panic!("Did not expect building to fail: {}", err.to_string()),
    }
}

#[test]
fn build_isin_for_apple_from_parts() {
    match build_from_parts("US", "037833100") {
        Ok(isin) => {
            assert_eq!(isin.to_string(), "US0378331005");
            assert_eq!(isin.prefix(), "US");
            assert_eq!(isin.basic_code(), "037833100");
            assert_eq!(isin.check_digit(), '5');
        }
        Err(err) => panic!("Did not expect building to fail: {}", err.to_string()),
    }
}

#[test]
fn parse_isin_for_apple_loose() {
    match parse_loose("\tus0378331005    ") {
        Ok(isin) => {
            assert_eq!(isin.to_string(), "US0378331005");
            assert_eq!(isin.prefix(), "US");
            assert_eq!(isin.basic_code(), "037833100");
            assert_eq!(isin.check_digit(), '5');
        }
        Err(err) => panic!("Did not expect parsing to fail: {}", err.to_string()),
    }
}

#[test]
fn validate_examples_from_standard_annex_c() {
    assert!(validate("ES0SI0000005").is_ok()); // Example 1, page 10: "IBEX 35"
    assert!(validate("JP3788600009").is_ok()); // Example 2, page 11: "Hitachi Ltd. Shares"
    assert!(validate("DE000A0GNPZ3").is_ok()); // Example 3, page 11: "Allianz Finance II 5 3/8% without expiration date"
}

#[test]
fn validate_examples_from_standard_annex_e() {
    assert!(validate("JP3788600009").is_ok()); // Page 13
    assert!(validate("US9047847093").is_ok()); // Page 13
    assert!(validate("IE00BFXC1P95").is_ok()); // Page 13
    assert!(validate("DE000A0GNPZ3").is_ok()); // Page 13
    assert!(validate("XS2021448886").is_ok()); // Page 13
    assert!(validate("US36962GXZ26").is_ok()); // Page 13
    assert!(validate("FR0000571077").is_ok()); // Page 13
    assert!(validate("US277847UB38").is_ok()); // Page 13
    assert!(validate("US65412AEW80").is_ok()); // Page 13
    assert!(validate("GB00BF0FCW58").is_ok()); // Page 13
    assert!(validate("FR0000312928").is_ok()); // Page 13
    assert!(validate("DE000DL3T7M1").is_ok()); // Page 13

    assert!(validate("ES0A02234250").is_ok()); // Page 14
    assert!(validate("EZR9HY1361L7").is_ok()); // Page 14
    assert!(validate("CH0107166065").is_ok()); // Page 14
    assert!(validate("XS0313614355").is_ok()); // Page 14
    assert!(validate("DE000A0AE077").is_ok()); // Page 14
    assert!(validate("CH0002813860").is_ok()); // Page 14
    assert!(validate("TRLTCMB00045").is_ok()); // Page 14
    assert!(validate("ES0SI0000005").is_ok()); // Page 14
    assert!(validate("GB00B56Z6W79").is_ok()); // Page 14
    assert!(validate("AU000000SKI7").is_ok()); // Page 14
    assert!(validate("EU000A1RRN98").is_ok()); // Page 14
    assert!(validate("LI0024807526").is_ok()); // Page 14
}

#[test]
fn reject_empty_string() {
    let res = parse("");
    assert!(res.is_err());
}

#[test]
fn reject_lowercase_prefix_if_strict() {
    match parse("us0378331005") {
        Err(Error::InvalidPrefix { was: _ }) => {} // Ok
        Err(err) => {
            panic!(
                "Expected Err(InvalidPrefix {{ ... }}), but got: Err({:?})",
                err
            )
        }
        Ok(isin) => {
            panic!(
                "Expected Err(InvalidPrefix {{ ... }}), but got: Ok({:?})",
                isin
            )
        }
    }
}

#[test]
fn reject_lowercase_basic_code_if_strict() {
    match parse("US09739d1000") {
        Err(Error::InvalidBasicCode { was: _ }) => {} // Ok
        Err(err) => {
            panic!(
                "Expected Err(InvalidBasicCode {{ ... }}), but got: Err({:?})",
                err
            )
        }
        Ok(isin) => {
            panic!(
                "Expected Err(InvalidBasicCode {{ ... }}), but got: Ok({:?})",
                isin
            )
        }
    }
}

#[test]
fn parse_isin_with_0_check_digit() {
    parse("US09739D1000").unwrap(); // BCC aka Boise Cascade
}

#[test]
fn parse_isin_with_1_check_digit() {
    parse("US4581401001").unwrap(); // INTC aka Intel
}

#[test]
fn parse_isin_with_2_check_digit() {
    parse("US98421M1062").unwrap(); // XRX aka Xerox
}

#[test]
fn parse_isin_with_3_check_digit() {
    parse("US02376R1023").unwrap(); // AAL aka American Airlines
}

#[test]
fn parse_isin_with_4_check_digit() {
    parse("US9216591084").unwrap(); // VNDA aka Vanda Pharmaceuticals
}

#[test]
fn parse_isin_with_5_check_digit() {
    parse("US0207721095").unwrap(); // APT aka AlphaProTec
}

#[test]
fn parse_isin_with_6_check_digit() {
    parse("US71363P1066").unwrap(); // PRDO aka Perdoceo Education
}

#[test]
fn parse_isin_with_7_check_digit() {
    parse("US5915202007").unwrap(); // MEI aka Methode Electronics
}

#[test]
fn parse_isin_with_8_check_digit() {
    parse("US4570301048").unwrap(); // IMKTA aka Ingles Markets
}

#[test]
fn parse_isin_with_9_check_digit() {
    parse("US8684591089").unwrap(); // SUPN aka Supernus Pharmaceuticals
}

#[test]
fn test_unicode_gibberish() {
    assert!(parse("𑴈𐎟 0 A").is_err());
}

// A 12-byte candidate that starts mid-way into a multi-byte character leaves
// a prefix snapshot that is not valid UTF-8, and the message falls back to
// the decimal byte list.
#[test]
fn unicode_gibberish_renders_byte_fallback() {
    match parse("𑴈𐎟 0 A") {
        Err(Error::InvalidPrefix { was }) => {
            assert_eq!(was, [240, 145]);
            let err = Error::InvalidPrefix { was };
            assert_eq!(
                err.to_string(),
                "prefix (invalid UTF-8) [240, 145] is not two uppercase ASCII alphabetic characters"
            );
        }
        other => panic!("Expected Err(InvalidPrefix {{ ... }}), but got: {:?}", other),
    }
}

#[test]
fn test_readme_example_main() {
    let isin_string = "US0378331005";
    match parse(isin_string) {
        Ok(isin) => {
            println!("Parsed ISIN: {}", isin.to_string()); // "US0378331005"
            println!("  Prefix: {}", isin.prefix()); // "US"
            println!("  Basic code: {}", isin.basic_code()); // "037833100"
            println!("  Check digit: {}", isin.check_digit()); // "5"
        }
        Err(err) => panic!(
            "Unable to parse ISIN {}: {}",
            isin_string,
            err.to_string()
        ),
    }
}

// Rendering a parsed identifier and strict-parsing the rendering yields the
// same identifier: the round trip is exact.
#[test]
fn parse_render_round_trip() {
    let first = parse("US0378331005").unwrap();
    let again = parse(&first.to_string()).unwrap();
    assert_eq!(first, again);
    assert_eq!(parse(&again.to_string()), parse("US0378331005"));
}

// Loose parsing is idempotent: normalizing first changes nothing, whether
// the outcome is a success or an error.
#[test]
fn parse_loose_idempotent_normalization() {
    assert_eq!(parse_loose("\tus0378331005    "), parse_loose("US0378331005"));
    assert_eq!(parse_loose("  us037833100x  "), parse_loose("US037833100X"));
}

// A strict parse rejects a lowercase prefix, and the loose parse of the same
// text succeeds with the identical value.
#[test]
fn loose_accepts_what_strict_rejects() {
    assert!(matches!(
        parse("us0378331005"),
        Err(Error::InvalidPrefix { was: _ })
    ));
    assert_eq!(parse_loose("us0378331005").unwrap(), parse("US0378331005").unwrap());
}

// An input with a malformed prefix and a malformed basic code reports the
// prefix: the leftmost structural problem wins.
#[test]
fn prefix_error_reported_before_basic_code_error() {
    match parse("u!09739d100x") {
        Err(Error::InvalidPrefix { was }) => assert_eq!(&was, b"u!"),
        other => panic!("Expected Err(InvalidPrefix {{ ... }}), but got: {:?}", other),
    }
}

// A well-formed value with the wrong check digit reports both the digit
// found and the digit expected.
#[test]
fn incorrect_check_digit_carries_both_digits() {
    match parse("US0378331006") {
        Err(Error::IncorrectCheckDigit { was, expected }) => {
            assert_eq!(was, b'6');
            assert_eq!(expected, b'5');
        }
        other => panic!(
            "Expected Err(IncorrectCheckDigit {{ ... }}), but got: {:?}",
            other
        ),
    }
}

// The empty string reports its length against the twelve expected.
#[test]
fn empty_string_reports_length_zero() {
    match parse("") {
        Err(Error::InvalidValueStringLength { was }) => assert_eq!(was, 0),
        other => panic!(
            "Expected Err(InvalidValueStringLength {{ ... }}), but got: {:?}",
            other
        ),
    }
}

// A check digit slot holding a letter is a format error, not a value error.
#[test]
fn letter_check_digit_is_format_error() {
    match parse("US037833100A") {
        Err(Error::InvalidCheckDigit { was }) => assert_eq!(was, b'A'),
        other => panic!(
            "Expected Err(InvalidCheckDigit {{ ... }}), but got: {:?}",
            other
        ),
    }
}

// Building from a payload of the wrong length reports the payload length.
#[test]
fn build_from_payload_wrong_length() {
    match build_from_payload("US03783310") {
        Err(Error::InvalidPayloadArrayLength { was }) => assert_eq!(was, 10),
        other => panic!(
            "Expected Err(InvalidPayloadArrayLength {{ ... }}), but got: {:?}",
            other
        ),
    }
}

// Building from parts checks each part's length before its format.
#[test]
fn build_from_parts_length_errors() {
    match build_from_parts("U", "037833100") {
        Err(Error::InvalidPrefixStringLength { was }) => assert_eq!(was, 1),
        other => panic!(
            "Expected Err(InvalidPrefixStringLength {{ ... }}), but got: {:?}",
            other
        ),
    }
    match build_from_parts("US", "03783310") {
        Err(Error::InvalidBasicCodeStringLength { was }) => assert_eq!(was, 8),
        other => panic!(
            "Expected Err(InvalidBasicCodeStringLength {{ ... }}), but got: {:?}",
            other
        ),
    }
    match build_from_parts("0S", "037833100") {
        Err(Error::InvalidPrefix { was }) => assert_eq!(&was, b"0S"),
        other => panic!("Expected Err(InvalidPrefix {{ ... }}), but got: {:?}", other),
    }
    match build_from_parts("US", "03783310a") {
        Err(Error::InvalidBasicCode { was }) => assert_eq!(&was, b"03783310a"),
        other => panic!(
            "Expected Err(InvalidBasicCode {{ ... }}), but got: {:?}",
            other
        ),
    }
}

// Strict parsing never panics: arbitrary junk of any shape comes back as a
// typed error (or a value), including non-ASCII text and extreme lengths.
#[test]
fn arbitrary_inputs_return_typed_results() {
    let inputs = [
        "",
        " ",
        "\u{0}",
        "US0378331005 ",
        " US0378331005",
        "US03783310055",
        "ÙS0378331005",
        "ÙS03783310",
        "𑴈𐎟",
        "............",
        "уѕ0378331005",
        "\u{1F600}\u{1F600}\u{1F600}",
    ];
    for input in inputs.iter() {
        assert!(parse(input).is_err());
        let _ = parse_loose(input);
    }
    let long = "A".repeat(4096);
    assert!(parse(&long).is_err());
    assert!(parse_loose(&long).is_err());
}

// The loose parse trims the whitespace set of Unicode, not just ASCII.
#[test]
fn loose_trims_unicode_whitespace() {
    assert_eq!(
        parse_loose("\u{a0}\u{2003}us0378331005\u{3000}").unwrap(),
        parse("US0378331005").unwrap()
    );
}

// The standard parse method goes through the loose parser.
#[test]
fn from_str_parses_loosely() {
    let isin: isin::ISIN = " us0378331005 ".parse().unwrap();
    assert_eq!(isin, parse("US0378331005").unwrap());
    assert!("".parse::<isin::ISIN>().is_err());
}

// The validate entry point agrees with parse on success and on failure.
#[test]
fn validate_agrees_with_parse() {
    assert!(validate("US0378331005").is_ok());
    assert!(validate("US0378331006").is_err());
    assert!(validate("").is_err());
    assert_eq!(validate("us0378331005").is_err(), parse("us0378331005").is_err());
}

// The payload accessor spans the prefix and the basic code; the byte view
// holds the full rendering.
#[test]
fn accessors_cover_all_fields() {
    let isin = parse("US0378331005").unwrap();
    assert_eq!(isin.payload(), "US037833100");
    assert_eq!(isin.as_bytes(), &b"US0378331005"[..]);
}
