use place_rs::text::{hex_string, join_from, parse_u16, parse_u64, parse_u8, push_decimal, text_eq, trim_string, IntErrorKind};

#[test]
fn unsigned_parsing_matches_std() {
    for s in ["0", "42", "+7", "", "+", "-", "-1", "1a", "18446744073709551615", "18446744073709551616", "0007", "٣", " 1"] {
        let ours = parse_u64(s);
        let std = s.parse::<u64>();
        match (ours, std) {
            (Ok(a), Ok(b)) => assert_eq!(a, b, "{s}"),
            (Err(k), Err(e)) => {
                let expected = match e.kind() {
                    std::num::IntErrorKind::Empty => IntErrorKind::Empty,
                    std::num::IntErrorKind::InvalidDigit => IntErrorKind::InvalidDigit,
                    _ => IntErrorKind::PosOverflow,
                };
                assert_eq!(k, expected, "{s}");
            }
            (a, b) => panic!("{s}: {a:?} vs {b:?}"),
        }
    }
    assert_eq!(parse_u8("255"), Ok(255));
    assert_eq!(parse_u8("256"), Err(IntErrorKind::PosOverflow));
    assert_eq!(parse_u16("65535"), Ok(65535));
    assert_eq!(parse_u16("99999x"), Err(IntErrorKind::PosOverflow));
}

#[test]
fn decimal_and_hex() {
    let mut s = String::from("n=");
    push_decimal(&mut s, 1234567890);
    assert_eq!(s, "n=1234567890");
    let mut z = String::new();
    push_decimal(&mut z, 0);
    assert_eq!(z, "0");
    assert_eq!(hex_string(&vec![0x0a, 0x14, 0x1e, 0xff]), "0a141eff");
}

#[test]
fn trim_and_join() {
    assert_eq!(trim_string("\u{3000} a b \n"), "a b");
    assert_eq!(trim_string("   "), "");
    let parts = vec!["x".to_string(), "a".to_string(), "".to_string(), "b".to_string()];
    assert_eq!(join_from(&parts, 1, " "), "a  b");
    assert_eq!(join_from(&parts, 4, " "), "");
    assert!(text_eq("héllo", "héllo"));
    assert!(!text_eq("a", "ab"));
}
