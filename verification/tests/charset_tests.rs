use tx2::charset::{
    lincoln_char_to_described_char, lincoln_to_unicode_strict, subscript_char, superscript_char,
    Colour, DescribedChar, LincolnState, LincolnToUnicodeConversionFailure, Script,
    UnicodeToLincolnMapping,
};

#[test]
fn test_lincoln_to_unicode_strict() {
    // Regular script
    assert_eq!(
        lincoln_to_unicode_strict(&[0o27, 0o24, 0o33, 0o33, 0o36]),
        Ok("HELLO".to_string())
    );

    assert_eq!(
        lincoln_to_unicode_strict(&[
            0o64, // Superscript
            0o27, 0o24, 0o33, 0o33, 0o36
        ]), // HELLO
        Ok("\u{1D34}\u{1D31}\u{1D38}\u{1D38}\u{1D3C}".to_string())
    );

    assert_eq!(
        lincoln_to_unicode_strict(&[
            0o65, // Normal
            0o27, // H
            0o66, // Subscript
            0o02, // 2
            0o65, // Normal
            0o36  // O
        ]),
        Ok("H\u{2082}O".to_string())
    );

    assert_eq!(
        lincoln_to_unicode_strict(&[
            0o74, // Lower case
            0o52, // { (when lower case)
            0o53, // } (when lower case)
            0o75, // Upper case
            0o52, // ( (when upper case)
            0o53, // ) (when upper case)
        ]),
        Ok("{}()".to_string())
    );
}

#[test]
fn round_trip() {
    let ulmap = UnicodeToLincolnMapping::new();
    let must_round_trip = |input: &str| match ulmap.to_lincoln(input) {
        Ok(bytes) => match lincoln_to_unicode_strict(&bytes) {
            Ok(s) => {
                assert_eq!(input, s);
            }
            Err(e) => {
                panic!("failed to convert back to unicode: {:?}", e);
            }
        },
        Err(e) => {
            panic!("failed to convert [{}] to Lincoln: {:?}", input, e);
        }
    };

    must_round_trip("HELLO, WORLD.  012345");
    must_round_trip("(){}_^*");
    must_round_trip("iyzjkaph");
    must_round_trip("\t\r");
    must_round_trip("\u{2080}");
    must_round_trip("\u{2081}");
    must_round_trip("\u{2082}");
    must_round_trip("\u{2083}");
    must_round_trip("\u{2084}");
    must_round_trip("\u{2085}");
    must_round_trip("\u{2086}");
    must_round_trip("\u{2087}");
    must_round_trip("\u{2088}");
    must_round_trip("\u{2089}");
    must_round_trip("\u{208B}");
    must_round_trip(".");
    must_round_trip("\u{2070}");
    must_round_trip("\u{00B9}");
    must_round_trip("\u{00B2}");
    must_round_trip("\u{00B3}");
    must_round_trip("\u{2074}");
    must_round_trip("\u{2075}");
    must_round_trip("\u{2076}");
    must_round_trip("\u{2077}");
    must_round_trip("\u{2078}");
    must_round_trip("\u{2079}");
    must_round_trip("\u{1D2C}");
    must_round_trip("\u{1D2E}");
    must_round_trip("\u{A7F2}");
    must_round_trip("\u{1D30}");
    must_round_trip("\u{1D31}");
    must_round_trip("\u{A7F3}");
    must_round_trip("\u{1D33}");
    must_round_trip("\u{1D34}");
    must_round_trip("\u{1D35}");
    must_round_trip("\u{1D36}");
    must_round_trip("\u{1D37}");
    must_round_trip("\u{1D38}");
    must_round_trip("\u{1D39}");
    must_round_trip("\u{1D3A}");
    must_round_trip("\u{1D3C}");
    must_round_trip("\u{1D3E}");
    must_round_trip("\u{A7F4}");
    must_round_trip("\u{1D3F}");
    must_round_trip("\u{209B}");
    must_round_trip("\u{1D40}");
    must_round_trip("\u{1D41}");
    must_round_trip("\u{2C7D}");
    must_round_trip("\u{1D42}");
    must_round_trip("\u{2093}");
    must_round_trip("YZ");
}

#[test]
fn missing_superscript() {
    // There is no superscript uppercase Y in Unicode.  So we expect
    // the mapping to fail.
    assert_eq!(
        lincoln_to_unicode_strict(&[
            0o64, // superscript
            0o75, // uppercase
            0o50  // Y
        ]),
        Err(LincolnToUnicodeConversionFailure::CannotSuperscript(
            0o50, 'Y'
        ))
    );
}

#[test]
fn no_mapping() {
    assert_eq!(
        lincoln_to_unicode_strict(&[0o14]), // "READ IN"
        Err(LincolnToUnicodeConversionFailure::NoMapping(0o14))
    );
}

#[test]
fn subscript_digits_and_unknown() {
    assert_eq!(subscript_char('0'), Ok('\u{2080}'));
    assert_eq!(subscript_char('9'), Ok('\u{2089}'));
    assert_eq!(subscript_char('-'), Ok('\u{208B}'));
    assert_eq!(subscript_char('.'), Ok('.'));
    assert!(subscript_char('A').is_err());
}

#[test]
fn superscript_letters_and_unknown() {
    assert_eq!(superscript_char('2'), Ok('\u{00B2}'));
    assert_eq!(superscript_char('H'), Ok('\u{1D34}'));
    assert_eq!(superscript_char('X'), Ok('\u{2093}'));
    assert!(superscript_char('Y').is_err());
    assert!(superscript_char('Z').is_err());
    assert!(superscript_char('+').is_err());
}

#[test]
fn out_of_range_code_is_rejected() {
    assert_eq!(
        lincoln_to_unicode_strict(&[0o100]),
        Err(LincolnToUnicodeConversionFailure::CharacterOutOfRange(
            0o100
        ))
    );
    assert_eq!(
        lincoln_to_unicode_strict(&[0xFF]),
        Err(LincolnToUnicodeConversionFailure::CharacterOutOfRange(
            0xFF
        ))
    );
}

#[test]
fn described_char_tracks_state() {
    let mut state = LincolnState::default();
    // Shift to lower case: no character, state changed.
    assert_eq!(lincoln_char_to_described_char(&0o74, &mut state), Ok(None));
    assert!(!state.uppercase);
    // 0o27 prints 'x' in lower case.
    let dc = lincoln_char_to_described_char(&0o27, &mut state)
        .expect("0o27 maps")
        .expect("0o27 prints");
    assert_eq!(
        dc,
        DescribedChar {
            base_char: 'x',
            display: Some('x'),
            attributes: LincolnState {
                script: Script::Normal,
                uppercase: false,
                colour: Colour::Black,
            },
        }
    );
    // Colour shifts change only the state.
    assert_eq!(lincoln_char_to_described_char(&0o67, &mut state), Ok(None));
    assert_eq!(state.colour, Colour::Red);
}

#[test]
fn to_lincoln_reports_unmappable_character() {
    let ulmap = UnicodeToLincolnMapping::new();
    match ulmap.to_lincoln("\u{1F600}") {
        Err(e) => match e {
            tx2::charset::UnicodeToLincolnConversionFailure::NoMapping(ch) => {
                assert_eq!(ch, '\u{1F600}');
            }
        },
        Ok(bytes) => panic!("expected no mapping, got {:?}", bytes),
    }
}

#[test]
fn to_lincoln_emits_shift_codes() {
    let ulmap = UnicodeToLincolnMapping::new();
    // "HELLO" needs one case shift and one script shift up front.
    assert_eq!(
        ulmap.to_lincoln("HELLO"),
        Ok(vec![0o75, 0o65, 0o27, 0o24, 0o33, 0o33, 0o36])
    );
}

#[test]
fn missing_subscript() {
    // There is no subscript uppercase A in Unicode.
    assert_eq!(
        lincoln_to_unicode_strict(&[
            0o66, // subscript
            0o20  // A
        ]),
        Err(LincolnToUnicodeConversionFailure::CannotSubscript(
            0o20, 'A'
        ))
    );
}
