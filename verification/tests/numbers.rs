use codex_keyboard_quota::double::{check_finite, left_of_hundred, to_millionths, to_whole};
use codex_keyboard_quota::json::{parse_json, Json, JsonError};
use codex_keyboard_quota::text::{
    decimal_text, eq_ignore_ascii_case, is_empty, parse_byte, replace_char, replace_text,
    same_text, signed_decimal_text, to_ascii_lowercase, trim, trim_end_char,
};

fn next(state: &mut u64) -> u64 {
    *state = state
        .wrapping_mul(6_364_136_223_846_793_005)
        .wrapping_add(1_442_695_040_888_963_407);
    (*state >> 33) ^ (*state << 31)
}

fn samples() -> Vec<f64> {
    let mut values = vec![
        0.0,
        -0.0,
        f64::MIN_POSITIVE,
        5e-324,
        -5e-324,
        f64::MAX,
        f64::MIN,
        0.5,
        0.5 + f64::EPSILON / 2.0,
        0.5 - f64::EPSILON / 4.0,
        99.5,
        100.0,
        100.5,
        1.0 / 1024.0,
        1.0 / 1024.0 - 1e-18,
        127.99999999999999,
        128.0,
        9_223_372_036_854.0,
        9_223_372_036_853.998,
        8_796_093_022_208.0,
        17_592_186_044_416.0,
        0.0000005,
        0.00000049999999999,
        0.0000015,
        1e18,
        9.223372036854775e18,
        9.223372036854776e18,
        1e19,
        -9.223372036854776e18,
        -9.3e18,
    ];
    let mut state = 7;
    for _ in 0..20_000 {
        let exponent = 940 + next(&mut state) % 160;
        let sign = (next(&mut state) & 1) << 63;
        let fraction = next(&mut state) % (1 << 52);
        values.push(f64::from_bits(sign | (exponent << 52) | fraction));
        let bits = next(&mut state) ^ (next(&mut state) << 20);
        let value = f64::from_bits(bits);
        if value.is_finite() {
            values.push(value);
        }
        values.push((next(&mut state) % 200_000) as f64 / 1000.0);
        values.push((next(&mut state) % 201) as f64 / 2.0);
    }
    values
}

#[test]
fn percentages_left_follow_double_arithmetic() {
    for used in samples() {
        let expected = (100.0 - used).round_ties_even().clamp(0.0, 100.0) as u8;
        assert_eq!(left_of_hundred(used.to_bits()), expected, "{used:e}");
    }
    for percent in 0..=100u8 {
        assert_eq!(left_of_hundred((percent as f64).to_bits()), 100 - percent);
    }
}

#[test]
fn millionths_follow_double_arithmetic() {
    for amount in samples() {
        let expected = if amount.abs() >= (i64::MAX / 1_000_000) as f64 {
            None
        } else {
            Some((amount * 1_000_000.0).round() as i64)
        };
        assert_eq!(to_millionths(amount.to_bits()), expected, "{amount:e}");
    }
    assert_eq!(to_millionths(f64::NAN.to_bits()), None);
    assert_eq!(to_millionths(f64::INFINITY.to_bits()), None);
}

#[test]
fn whole_parts_follow_double_arithmetic() {
    for value in samples() {
        assert_eq!(to_whole(value.to_bits()), value as i64, "{value:e}");
    }
    assert_eq!(to_whole(f64::NAN.to_bits()), 0);
    assert_eq!(to_whole(f64::INFINITY.to_bits()), i64::MAX);
    assert_eq!(to_whole(f64::NEG_INFINITY.to_bits()), i64::MIN);
}

#[test]
fn tells_numbers_from_the_rest() {
    assert!(check_finite(f64::MAX.to_bits()));
    assert!(check_finite(0));
    assert!(!check_finite(f64::INFINITY.to_bits()));
    assert!(!check_finite(f64::NAN.to_bits()));
}

#[test]
fn reads_every_kind_of_json() {
    let value = parse_json(
        " {\"n\": null, \"t\": true, \"u\": 18446744073709551615, \"i\": -3, \"d\": 2.5, \"s\": \"a\\u4e2d\\n\", \"l\": [1, [2], {}], \"o\": {\"x\": {}}} ",
    )
    .unwrap();
    assert!(value.is_object());
    assert!(value.get("n").unwrap().is_null());
    assert!(value.is_bool_at("t", true));
    assert!(!value.is_bool_at("t", false));
    assert!(!value.is_bool_at("n", false));
    let number = value.get("u").unwrap();
    assert!(number.is_number());
    assert_eq!(number.as_unsigned(), Some(u64::MAX));
    assert_eq!(number.as_signed(), None);
    assert_eq!(number.as_double(), Some((u64::MAX as f64).to_bits()));
    let number = value.get("i").unwrap();
    assert_eq!(number.as_unsigned(), None);
    assert_eq!(number.as_signed(), Some(-3));
    let number = value.get("d").unwrap();
    assert_eq!(number.as_signed(), None);
    assert_eq!(number.as_double(), Some(2.5f64.to_bits()));
    assert_eq!(value.text_at("s"), Some("a中\n"));
    assert_eq!(value.text_at("n"), None);
    match value.get("l") {
        Some(Json::Array(items)) => {
            assert_eq!(items.len(), 3);
            assert_eq!(items[0].as_unsigned(), Some(1));
            assert!(matches!(&items[1], Json::Array(inner) if inner.len() == 1));
            assert!(items[2].is_object());
        }
        other => panic!("{other:?}"),
    }
    let object = value.take("o").unwrap();
    assert!(object.get("x").unwrap().is_object());
    assert!(object.get("y").is_none());
    assert!(parse_json("[1]").unwrap().get("0").is_none());
}

#[test]
fn last_member_of_a_name_counts() {
    let text = "{\"a\": 1, \"a\": 2}";
    assert_eq!(
        parse_json(text).unwrap().get("a").unwrap().as_unsigned(),
        Some(2)
    );
}

#[test]
fn names_may_hold_any_characters() {
    let value = parse_json("{\"a/b\":1,\"a~b\":2,\"~1\":3,\"~01\":4,\"\":{\"/\":[5,{\"~\":6}]}}").unwrap();
    for (name, number) in [("a/b", 1), ("a~b", 2), ("~1", 3), ("~01", 4)] {
        assert_eq!(value.get(name).unwrap().as_unsigned(), Some(number));
    }
    match value.get("").unwrap().get("/") {
        Some(Json::Array(items)) => {
            assert_eq!(items[0].as_unsigned(), Some(5));
            assert_eq!(items[1].get("~").unwrap().as_unsigned(), Some(6));
        }
        other => panic!("{other:?}"),
    }
    let private = parse_json("{\"$serde_json::private::RawValue\":\"[1]\",\"x\":2}").unwrap();
    assert!(private.is_object());
    assert_eq!(
        private.text_at("$serde_json::private::RawValue"),
        Some("[1]")
    );
    assert_eq!(private.get("x").unwrap().as_unsigned(), Some(2));
}

#[test]
fn refuses_what_is_no_json() {
    for text in ["", "{", "[1,]", "nul", "1e999", "{\"a\":1e999}", "\"\\x\""] {
        let expected = serde_json::from_str::<serde_json::Value>(text)
            .unwrap_err()
            .to_string();
        match parse_json(text) {
            Err(JsonError::Malformed(message)) => assert_eq!(message, expected),
            other => panic!("{text}: {other:?}"),
        }
    }
    assert_eq!(JsonError::TooDeep.message(), "recursion limit exceeded");
}

#[test]
fn nests_as_deep_as_serde_json() {
    for depth in [1, 126, 127, 128, 200] {
        let text = format!("{}{}", "[".repeat(depth), "]".repeat(depth));
        assert_eq!(
            parse_json(&text).is_ok(),
            serde_json::from_str::<serde_json::Value>(&text).is_ok(),
            "{depth}"
        );
    }
}

#[test]
fn texts_behave_like_std() {
    for text in [
        "",
        " a b ",
        "\u{3000}x\u{2028}",
        "\u{200b}x",
        "aXbXXc",
        "ÀéZ",
        "a;;",
        ";",
        "\u{85}\t\r\n",
        "aaaa",
        "..a..",
    ] {
        assert_eq!(trim(text), text.trim());
        assert_eq!(to_ascii_lowercase(text), text.to_ascii_lowercase());
        assert_eq!(trim_end_char(text, ';'), text.trim_end_matches(';'));
        assert_eq!(replace_char(text, 'X', "--"), text.replace('X', "--"));
        assert_eq!(replace_text(text, "aa", "b"), text.replace("aa", "b"));
        assert_eq!(replace_text(text, "X", ""), text.replace('X', ""));
        assert_eq!(is_empty(text), text.is_empty());
        assert!(same_text(text, text));
        assert!(eq_ignore_ascii_case(text, &text.to_ascii_uppercase()));
    }
    for code in 0..=0x10ffffu32 {
        if let Some(c) = char::from_u32(code) {
            if c.is_whitespace() || code < 0x3100 {
                let text = format!("{c}a{c}");
                assert_eq!(trim(&text), text.trim());
            }
        }
    }
    assert!(!same_text("a", "b"));
    assert!(!eq_ignore_ascii_case("é", "É"));
}

#[test]
fn numbers_are_written_in_decimal() {
    for value in [0, 9, 10, 12345, u64::MAX] {
        assert_eq!(decimal_text(value), value.to_string());
    }
    for value in [0, -1, 77, i64::MIN, i64::MAX] {
        assert_eq!(signed_decimal_text(value), value.to_string());
    }
    for text in ["0", "+5", "255", "256", "", "+", "-0", "007", "1a", "+ 1"] {
        assert_eq!(parse_byte(text), text.parse::<u8>().ok());
    }
}
