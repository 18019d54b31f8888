use khora_codegen_llvm::ints::{int_owner, parse_int, IntKind};

#[test]
fn decimal_literals() {
    assert_eq!(parse_int("0"), Some(0));
    assert_eq!(parse_int("42"), Some(42));
    assert_eq!(parse_int("1_000_000"), Some(1_000_000));
    assert_eq!(parse_int("9223372036854775807"), Some(i64::MAX));
    assert_eq!(parse_int("9223372036854775808"), None, "one past the largest");
    assert_eq!(parse_int("-9223372036854775808"), Some(i64::MIN));
    assert_eq!(parse_int("-9223372036854775809"), None);
    assert_eq!(parse_int("+7"), Some(7));
    assert_eq!(parse_int("-"), None);
    assert_eq!(parse_int(""), None);
    assert_eq!(parse_int("12a"), None);
}

#[test]
fn prefixed_literals() {
    assert_eq!(parse_int("0xff"), Some(255));
    assert_eq!(parse_int("0XFF"), Some(255));
    assert_eq!(parse_int("0x_7fff_ffff_ffff_ffff"), Some(i64::MAX));
    assert_eq!(parse_int("0x8000000000000000"), None);
    assert_eq!(parse_int("0b1010"), Some(10));
    assert_eq!(parse_int("0B1_1"), Some(3));
    assert_eq!(parse_int("0b102"), None, "2 is no binary digit");
    assert_eq!(parse_int("0o17"), Some(15));
    assert_eq!(parse_int("0O8"), None);
    assert_eq!(parse_int("0x"), None);
    assert_eq!(parse_int("0x-1"), Some(-1));
    assert_eq!(parse_int("0_x10"), Some(16), "separators go before the prefix is read");
    assert_eq!(parse_int("00x10"), None);
}

#[test]
fn literals_agree_with_std() {
    for text in ["0", "17", "0x1F", "0b0", "0o777", "123456789012", "-5", "0x", "x", "1_2_3"] {
        let cleaned: String = text.chars().filter(|c| *c != '_').collect();
        let (radix, digits) = match cleaned.get(..2) {
            Some("0x") | Some("0X") => (16, &cleaned[2..]),
            Some("0b") | Some("0B") => (2, &cleaned[2..]),
            Some("0o") | Some("0O") => (8, &cleaned[2..]),
            _ => (10, cleaned.as_str()),
        };
        assert_eq!(parse_int(text), i64::from_str_radix(digits, radix).ok(), "{text}");
    }
}

#[test]
fn integer_owners() {
    assert_eq!(int_owner("Int"), Some((64, true)));
    assert_eq!(int_owner("I64"), Some((64, true)));
    assert_eq!(int_owner("U8"), Some((8, false)));
    assert_eq!(int_owner("I16"), Some((16, true)));
    assert_eq!(int_owner("U64"), Some((64, false)));
    assert_eq!(int_owner("Float"), None);
    assert_eq!(IntKind::parse("U32"), Some(IntKind::U32));
    assert_eq!(IntKind::U32.name(), "U32");
    assert_eq!(IntKind::parse("u32"), None);
}
