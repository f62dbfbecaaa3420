use igc2csv::{parse_altitude, parse_coordinate, DecodeError};

#[test]
fn parse_cpprdinate_0() {
    assert_eq!(parse_coordinate(3, "00000000N"), Ok(0));
}

#[test]
fn parse_coordinate_h() {
    assert_eq!(
        parse_coordinate(3, "12300000N"),
        Ok(((123 * 60 + 0) * 1000 + 0) as i32)
    );
}

#[test]
fn parse_coordinate_m() {
    assert_eq!(
        parse_coordinate(3, "00012345N"),
        Ok(((0 * 60 + 12) * 1000 + 345) as i32)
    );
}

#[test]
fn parse_coordinate_f() {
    assert_eq!(
        parse_coordinate(3, "12345678N"),
        Ok(((123 * 60 + 45) * 1000 + 678) as i32)
    );
}

#[test]
fn parse_coordinate_f_s() {
    assert_eq!(
        parse_coordinate(3, "12345678S"),
        Ok(-((123 * 60 + 45) * 1000 + 678) as i32)
    );
}

#[test]
fn parse_coordinate_f_e() {
    assert_eq!(
        parse_coordinate(3, "12345678E"),
        Ok(-((123 * 60 + 45) * 1000 + 678) as i32)
    );
}

#[test]
fn coordinate_exact_values() {
    assert_eq!(parse_coordinate(3, "12345678N"), Ok(7_425_678));
    assert_eq!(parse_coordinate(3, "12345678W"), Ok(7_425_678));
    assert_eq!(parse_coordinate(2, "4647828N"), Ok(2_807_828));
    assert_eq!(parse_coordinate(3, "12025941W"), Ok(7_225_941));
    assert_eq!(parse_coordinate(2, "0000001N"), Ok(1));
    assert_eq!(parse_coordinate(2, "0100000N"), Ok(60_000));
}

#[test]
fn coordinate_largest_of_each_width() {
    assert_eq!(parse_coordinate(2, "9999999N"), Ok(99 * 60_000 + 99_999));
    assert_eq!(parse_coordinate(3, "99999999N"), Ok(999 * 60_000 + 99_999));
    assert_eq!(parse_coordinate(2, "9999999S"), Ok(-6_039_999));
    assert_eq!(parse_coordinate(3, "99999999E"), Ok(-60_039_999));
}

#[test]
fn hemisphere_decides_only_the_sign() {
    let digits = ["0000000", "4647828", "9000000", "0012345", "9999999"];
    for d in digits {
        let north = parse_coordinate(2, &format!("{}N", d)).unwrap();
        let west = parse_coordinate(2, &format!("{}W", d)).unwrap();
        let south = parse_coordinate(2, &format!("{}S", d)).unwrap();
        let east = parse_coordinate(2, &format!("{}E", d)).unwrap();
        assert!(north >= 0);
        assert_eq!(west, north);
        assert_eq!(south, -north);
        assert_eq!(east, -north);
    }
    let digits = ["00000000", "12025941", "18000000", "00000001"];
    for d in digits {
        let west = parse_coordinate(3, &format!("{}W", d)).unwrap();
        let east = parse_coordinate(3, &format!("{}E", d)).unwrap();
        assert!(west >= 0);
        assert_eq!(east, -west);
    }
}

#[test]
fn unknown_hemisphere_letter_leaves_the_sign() {
    assert_eq!(parse_coordinate(3, "12345678X"), Ok(7_425_678));
    assert_eq!(parse_coordinate(3, "12345678s"), Ok(7_425_678));
    assert_eq!(parse_coordinate(3, "12345678e"), Ok(7_425_678));
    assert_eq!(parse_coordinate(3, "123456780"), Ok(7_425_678));
}

#[test]
fn coordinate_ignores_what_follows_the_letter() {
    assert_eq!(parse_coordinate(2, "4647828N12025941W"), Ok(2_807_828));
    assert_eq!(parse_coordinate(3, "12345678Sxyz"), Ok(-7_425_678));
}

#[test]
fn coordinate_too_short() {
    assert_eq!(parse_coordinate(3, ""), Err(DecodeError::TooShort));
    assert_eq!(parse_coordinate(3, "12345678"), Err(DecodeError::TooShort));
    assert_eq!(parse_coordinate(2, "464782"), Err(DecodeError::TooShort));
    assert_eq!(parse_coordinate(3, "4647828N"), Err(DecodeError::TooShort));
    assert_eq!(
        parse_coordinate(usize::MAX, "12345678N"),
        Err(DecodeError::TooShort)
    );
}

#[test]
fn coordinate_not_numeric() {
    assert_eq!(
        parse_coordinate(3, "12a45678N"),
        Err(DecodeError::NotNumeric)
    );
    assert_eq!(
        parse_coordinate(3, "1234567xN"),
        Err(DecodeError::NotNumeric)
    );
    assert_eq!(
        parse_coordinate(3, " 2345678N"),
        Err(DecodeError::NotNumeric)
    );
    assert_eq!(
        parse_coordinate(3, "+2345678N"),
        Err(DecodeError::NotNumeric)
    );
    assert_eq!(
        parse_coordinate(3, "-2345678N"),
        Err(DecodeError::NotNumeric)
    );
    assert_eq!(
        parse_coordinate(3, "123-5678N"),
        Err(DecodeError::NotNumeric)
    );
    assert_eq!(
        parse_coordinate(2, "46\u{e9}7828N"),
        Err(DecodeError::NotNumeric)
    );
    assert_eq!(parse_coordinate(0, "12345N"), Err(DecodeError::NotNumeric));
}

#[test]
fn coordinate_of_other_widths() {
    assert_eq!(parse_coordinate(1, "912345N"), Ok(9 * 60_000 + 12_345));
    assert_eq!(parse_coordinate(4, "000112345S"), Ok(-(60_000 + 12_345)));
    assert_eq!(
        parse_coordinate(5, "3579123647N"),
        Ok(35_791 * 60_000 + 23_647)
    );
    assert_eq!(parse_coordinate(5, "3579123647N"), Ok(i32::MAX));
    assert_eq!(parse_coordinate(5, "3579123647S"), Ok(-i32::MAX));
}

#[test]
fn coordinate_out_of_range() {
    assert_eq!(
        parse_coordinate(5, "3579123648N"),
        Err(DecodeError::OutOfRange)
    );
    assert_eq!(
        parse_coordinate(5, "9999900000N"),
        Err(DecodeError::OutOfRange)
    );
    assert_eq!(
        parse_coordinate(12, "99999999999900000S"),
        Err(DecodeError::OutOfRange)
    );
    assert_eq!(
        parse_coordinate(12, "00000000000100000S"),
        Ok(-60_000)
    );
}

#[test]
fn altitude_exact_values() {
    assert_eq!(parse_altitude("00839"), Ok(839));
    assert_eq!(parse_altitude("00950"), Ok(950));
    assert_eq!(parse_altitude("00000"), Ok(0));
    assert_eq!(parse_altitude("99999"), Ok(99_999));
    assert_eq!(parse_altitude("7"), Ok(7));
}

#[test]
fn altitude_with_sign() {
    assert_eq!(parse_altitude("-0012"), Ok(-12));
    assert_eq!(parse_altitude("+0012"), Ok(12));
    assert_eq!(parse_altitude("-9999"), Ok(-9_999));
    assert_eq!(parse_altitude("-0000"), Ok(0));
}

#[test]
fn altitude_not_numeric() {
    assert_eq!(parse_altitude(""), Err(DecodeError::NotNumeric));
    assert_eq!(parse_altitude("-"), Err(DecodeError::NotNumeric));
    assert_eq!(parse_altitude("+"), Err(DecodeError::NotNumeric));
    assert_eq!(parse_altitude("12a45"), Err(DecodeError::NotNumeric));
    assert_eq!(parse_altitude(" 1234"), Err(DecodeError::NotNumeric));
    assert_eq!(parse_altitude("1234 "), Err(DecodeError::NotNumeric));
    assert_eq!(parse_altitude("--123"), Err(DecodeError::NotNumeric));
    assert_eq!(parse_altitude("12-34"), Err(DecodeError::NotNumeric));
    assert_eq!(parse_altitude("12.34"), Err(DecodeError::NotNumeric));
    assert_eq!(parse_altitude("\u{663}\u{664}"), Err(DecodeError::NotNumeric));
}

#[test]
fn altitude_at_the_ends_of_its_type() {
    assert_eq!(parse_altitude("2147483647"), Ok(i32::MAX));
    assert_eq!(parse_altitude("-2147483648"), Ok(i32::MIN));
    assert_eq!(parse_altitude("0000000000002147483647"), Ok(i32::MAX));
    assert_eq!(parse_altitude("2147483648"), Err(DecodeError::OutOfRange));
    assert_eq!(parse_altitude("-2147483649"), Err(DecodeError::OutOfRange));
    assert_eq!(parse_altitude("4294967295"), Err(DecodeError::OutOfRange));
    assert_eq!(parse_altitude("4294967296"), Err(DecodeError::OutOfRange));
    assert_eq!(
        parse_altitude("99999999999999999999999999"),
        Err(DecodeError::OutOfRange)
    );
}

#[test]
fn altitude_agrees_with_the_standard_parser() {
    let fields = [
        "00839", "-0012", "+0012", "99999", "-9999", "0", "-0", "+", "-", "", "1x", "x1", "2147483647",
        "2147483648", "-2147483648", "-2147483649", "00000000000", "123456789012", " 1", "1 ",
    ];
    for field in fields {
        assert_eq!(
            parse_altitude(field).ok(),
            field.parse::<i32>().ok(),
            "field {:?}",
            field
        );
    }
}
