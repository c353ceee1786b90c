use thunder::number::{format_int, parse_int, IntKind, IntValue};
use thunder::text::{join, same_text, trim};
use thunder::type_expr::TypeExpr;
use thunder::value::{classify, classify_name, format_value, parse_value, ArgValue, ScalarKind};

fn path(name: &str) -> TypeExpr {
    TypeExpr::Path { segments: vec![name.to_string()], args: Vec::new() }
}

#[test]
fn integers_parse_as_their_type() {
    assert_eq!(parse_int("42", IntKind::I32), Some(IntValue::I32(42)));
    assert_eq!(parse_int("-42", IntKind::I32), Some(IntValue::I32(-42)));
    assert_eq!(parse_int("0", IntKind::U8), Some(IntValue::U8(0)));
    assert_eq!(parse_int("255", IntKind::U8), Some(IntValue::U8(255)));
    assert_eq!(parse_int("65535", IntKind::U16), Some(IntValue::U16(65535)));
    assert_eq!(parse_int("-32768", IntKind::I16), Some(IntValue::I16(-32768)));
    assert_eq!(parse_int("7", IntKind::Usize), Some(IntValue::Usize(7)));
    assert_eq!(parse_int("-7", IntKind::Isize), Some(IntValue::Isize(-7)));
}

#[test]
fn integers_parse_at_their_limits() {
    assert_eq!(parse_int("127", IntKind::I8), Some(IntValue::I8(i8::MAX)));
    assert_eq!(parse_int("-128", IntKind::I8), Some(IntValue::I8(i8::MIN)));
    assert_eq!(parse_int("128", IntKind::I8), None);
    assert_eq!(parse_int("-129", IntKind::I8), None);
    assert_eq!(parse_int("256", IntKind::U8), None);
    assert_eq!(parse_int("2147483647", IntKind::I32), Some(IntValue::I32(i32::MAX)));
    assert_eq!(parse_int("2147483648", IntKind::I32), None);
    assert_eq!(parse_int("-2147483648", IntKind::I32), Some(IntValue::I32(i32::MIN)));
    assert_eq!(
        parse_int("18446744073709551615", IntKind::U64),
        Some(IntValue::U64(u64::MAX))
    );
    assert_eq!(parse_int("18446744073709551616", IntKind::U64), None);
    assert_eq!(
        parse_int("340282366920938463463374607431768211455", IntKind::U128),
        Some(IntValue::U128(u128::MAX))
    );
    assert_eq!(parse_int("340282366920938463463374607431768211456", IntKind::U128), None);
    assert_eq!(
        parse_int("-170141183460469231731687303715884105728", IntKind::I128),
        Some(IntValue::I128(i128::MIN))
    );
    assert_eq!(parse_int("170141183460469231731687303715884105728", IntKind::I128), None);
    assert_eq!(
        parse_int(&usize::MAX.to_string(), IntKind::Usize),
        Some(IntValue::Usize(usize::MAX))
    );
    assert_eq!(
        parse_int(&isize::MIN.to_string(), IntKind::Isize),
        Some(IntValue::Isize(isize::MIN))
    );
}

#[test]
fn integer_signs_and_zeros() {
    assert_eq!(parse_int("+5", IntKind::I32), Some(IntValue::I32(5)));
    assert_eq!(parse_int("+5", IntKind::U32), Some(IntValue::U32(5)));
    assert_eq!(parse_int("-0", IntKind::I32), Some(IntValue::I32(0)));
    assert_eq!(parse_int("-0", IntKind::U32), None);
    assert_eq!(parse_int("-5", IntKind::U32), None);
    assert_eq!(parse_int("007", IntKind::U8), Some(IntValue::U8(7)));
    assert_eq!(parse_int("0000000000000000000000000000000000000000001", IntKind::I8),
        Some(IntValue::I8(1)));
}

#[test]
fn text_that_is_no_integer() {
    for text in ["", "-", "+", "+-5", "--5", "5-", " 5", "5 ", "1_000", "0x10", "1.0", "abc",
        "\u{661}", "1e3"]
    {
        assert_eq!(parse_int(text, IntKind::I64), None, "{:?}", text);
        assert_eq!(parse_int(text, IntKind::U64), None, "{:?}", text);
    }
}

#[test]
fn integer_parsing_agrees_with_the_standard_parser() {
    let texts = [
        "0", "1", "-1", "+1", "12", "127", "128", "-128", "-129", "255", "256", "99999", "-0",
        "+0", "00", "", "-", "+", "a", "1a", "٣", " 1", "32767", "32768", "-32768", "-32769",
        "4294967295", "4294967296", "9223372036854775807", "9223372036854775808",
        "-9223372036854775808", "-9223372036854775809",
    ];
    for text in texts {
        assert_eq!(parse_int(text, IntKind::I8), text.parse().ok().map(IntValue::I8));
        assert_eq!(parse_int(text, IntKind::I16), text.parse().ok().map(IntValue::I16));
        assert_eq!(parse_int(text, IntKind::I32), text.parse().ok().map(IntValue::I32));
        assert_eq!(parse_int(text, IntKind::I64), text.parse().ok().map(IntValue::I64));
        assert_eq!(parse_int(text, IntKind::I128), text.parse().ok().map(IntValue::I128));
        assert_eq!(parse_int(text, IntKind::Isize), text.parse().ok().map(IntValue::Isize));
        assert_eq!(parse_int(text, IntKind::U8), text.parse().ok().map(IntValue::U8));
        assert_eq!(parse_int(text, IntKind::U16), text.parse().ok().map(IntValue::U16));
        assert_eq!(parse_int(text, IntKind::U32), text.parse().ok().map(IntValue::U32));
        assert_eq!(parse_int(text, IntKind::U64), text.parse().ok().map(IntValue::U64));
        assert_eq!(parse_int(text, IntKind::U128), text.parse().ok().map(IntValue::U128));
        assert_eq!(parse_int(text, IntKind::Usize), text.parse().ok().map(IntValue::Usize));
    }
}

#[test]
fn integers_format_in_decimal() {
    assert_eq!(format_int(IntValue::I32(0)), "0");
    assert_eq!(format_int(IntValue::I32(-17)), "-17");
    assert_eq!(format_int(IntValue::U8(255)), "255");
    assert_eq!(format_int(IntValue::I8(-128)), "-128");
    assert_eq!(format_int(IntValue::U64(1000)), "1000");
    assert_eq!(format_int(IntValue::I128(i128::MIN)), i128::MIN.to_string());
    assert_eq!(format_int(IntValue::U128(u128::MAX)), u128::MAX.to_string());
    assert_eq!(format_int(IntValue::Isize(isize::MIN)), isize::MIN.to_string());
    assert_eq!(format_int(IntValue::Usize(usize::MAX)), usize::MAX.to_string());
}

#[test]
fn integer_round_trip() {
    let values = [
        IntValue::I8(i8::MIN),
        IntValue::I8(-1),
        IntValue::I8(i8::MAX),
        IntValue::I16(i16::MIN),
        IntValue::I16(i16::MAX),
        IntValue::I32(i32::MIN),
        IntValue::I32(0),
        IntValue::I32(i32::MAX),
        IntValue::I64(i64::MIN),
        IntValue::I64(i64::MAX),
        IntValue::I128(i128::MIN),
        IntValue::I128(i128::MAX),
        IntValue::Isize(isize::MIN),
        IntValue::Isize(isize::MAX),
        IntValue::U8(0),
        IntValue::U8(u8::MAX),
        IntValue::U16(u16::MAX),
        IntValue::U32(u32::MAX),
        IntValue::U64(u64::MAX),
        IntValue::U128(u128::MAX),
        IntValue::Usize(usize::MAX),
    ];
    for v in values {
        assert_eq!(parse_int(&format_int(v), v.int_kind()), Some(v));
    }
}

#[test]
fn value_round_trip() {
    let values = vec![
        ArgValue::Text(String::new()),
        ArgValue::Text("hello world".to_string()),
        ArgValue::Text("-12".to_string()),
        ArgValue::Text("über ∂".to_string()),
        ArgValue::Bool(true),
        ArgValue::Bool(false),
        ArgValue::Int(IntValue::I32(-12)),
        ArgValue::Int(IntValue::U64(12)),
        ArgValue::Raw("1.5".to_string()),
    ];
    for v in values {
        let text = format_value(&v);
        assert_eq!(parse_value(v.kind(), &text), Some(v));
    }
}

#[test]
fn values_format_canonically() {
    assert_eq!(format_value(&ArgValue::Text("a b".to_string())), "a b");
    assert_eq!(format_value(&ArgValue::Bool(true)), "true");
    assert_eq!(format_value(&ArgValue::Bool(false)), "false");
    assert_eq!(format_value(&ArgValue::Int(IntValue::I16(-300))), "-300");
    assert_eq!(format_value(&ArgValue::Raw("x".to_string())), "x");
}

#[test]
fn booleans_parse_from_two_words() {
    assert_eq!(parse_value(ScalarKind::Bool, "true"), Some(ArgValue::Bool(true)));
    assert_eq!(parse_value(ScalarKind::Bool, "false"), Some(ArgValue::Bool(false)));
    for text in ["", "True", "FALSE", "1", "0", "yes", "true ", "t"] {
        assert_eq!(parse_value(ScalarKind::Bool, text), None);
    }
}

#[test]
fn text_and_unconverted_values_keep_the_text() {
    assert_eq!(parse_value(ScalarKind::Text, "12"), Some(ArgValue::Text("12".to_string())));
    assert_eq!(parse_value(ScalarKind::Text, ""), Some(ArgValue::Text(String::new())));
    assert_eq!(parse_value(ScalarKind::Other, "1.5"), Some(ArgValue::Raw("1.5".to_string())));
}

#[test]
fn integers_parse_by_kind() {
    assert_eq!(
        parse_value(ScalarKind::Int(IntKind::U8), "200"),
        Some(ArgValue::Int(IntValue::U8(200)))
    );
    assert_eq!(parse_value(ScalarKind::Int(IntKind::I8), "200"), None);
    assert_eq!(parse_value(ScalarKind::Int(IntKind::I64), "ten"), None);
}

#[test]
fn kinds_of_values() {
    assert_eq!(ArgValue::Text("a".to_string()).kind(), ScalarKind::Text);
    assert_eq!(ArgValue::Bool(true).kind(), ScalarKind::Bool);
    assert_eq!(ArgValue::Int(IntValue::U16(1)).kind(), ScalarKind::Int(IntKind::U16));
    assert_eq!(ArgValue::Raw("a".to_string()).kind(), ScalarKind::Other);
    assert_eq!(IntValue::I128(0).int_kind(), IntKind::I128);
    assert!(IntKind::Isize.is_signed());
    assert!(!IntKind::Usize.is_signed());
}

#[test]
fn names_are_classified() {
    assert_eq!(classify_name("String"), ScalarKind::Text);
    assert_eq!(classify_name("str"), ScalarKind::Text);
    assert_eq!(classify_name("bool"), ScalarKind::Bool);
    assert_eq!(classify_name("i8"), ScalarKind::Int(IntKind::I8));
    assert_eq!(classify_name("i16"), ScalarKind::Int(IntKind::I16));
    assert_eq!(classify_name("i32"), ScalarKind::Int(IntKind::I32));
    assert_eq!(classify_name("i64"), ScalarKind::Int(IntKind::I64));
    assert_eq!(classify_name("i128"), ScalarKind::Int(IntKind::I128));
    assert_eq!(classify_name("isize"), ScalarKind::Int(IntKind::Isize));
    assert_eq!(classify_name("u8"), ScalarKind::Int(IntKind::U8));
    assert_eq!(classify_name("u16"), ScalarKind::Int(IntKind::U16));
    assert_eq!(classify_name("u32"), ScalarKind::Int(IntKind::U32));
    assert_eq!(classify_name("u64"), ScalarKind::Int(IntKind::U64));
    assert_eq!(classify_name("u128"), ScalarKind::Int(IntKind::U128));
    assert_eq!(classify_name("usize"), ScalarKind::Int(IntKind::Usize));
    assert_eq!(classify_name("f64"), ScalarKind::Other);
    assert_eq!(classify_name("std::string::String"), ScalarKind::Other);
    assert_eq!(classify_name(""), ScalarKind::Other);
}

#[test]
fn leaves_are_classified_through_references() {
    let leaf = TypeExpr::Reference {
        mutable: false,
        has_lifetime: false,
        elem: Box::new(path("str")),
    };
    assert_eq!(classify(&leaf), ScalarKind::Text);
    assert_eq!(classify(&path("u32")), ScalarKind::Int(IntKind::U32));
    assert_eq!(classify(&path("PathBuf")), ScalarKind::Other);
    assert_eq!(classify(&TypeExpr::Other), ScalarKind::Other);
}

#[test]
fn trim_takes_white_space_off_both_ends() {
    assert_eq!(trim("  a b \n"), "a b");
    assert_eq!(trim("a"), "a");
    assert_eq!(trim(""), "");
    assert_eq!(trim(" \t\r\n"), "");
    assert_eq!(trim("\u{a0}\u{2003}x\u{3000}\u{85}"), "x");
    assert_eq!(trim("\u{200b}x"), "\u{200b}x");
}

#[test]
fn trim_agrees_with_the_standard_trim() {
    for code in 0u32..0x3100 {
        if let Some(c) = char::from_u32(code) {
            let text = format!("{}a{}", c, c);
            assert_eq!(trim(&text), text.trim());
        }
    }
}

#[test]
fn join_puts_the_separator_between_parts() {
    let parts = vec!["a".to_string(), "b".to_string(), "c".to_string()];
    assert_eq!(join(&parts, "::"), "a::b::c");
    assert_eq!(join(&parts, ""), "abc");
    assert_eq!(join(&Vec::new(), "::"), "");
    assert_eq!(join(&vec![String::new(), "b".to_string()], "::"), "::b");
    assert_eq!(join(&vec!["a".to_string()], "::"), "a");
}

#[test]
fn same_text_compares_by_content() {
    assert!(same_text("abc", "abc"));
    assert!(same_text("", ""));
    assert!(!same_text("abc", "abd"));
    assert!(!same_text("abc", "ab"));
}
