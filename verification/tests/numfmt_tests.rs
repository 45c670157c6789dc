use hyprsetting::locale::LocaleInfo;
use hyprsetting::locale::extract_code_from_label;
use hyprsetting::locale::get_label_for_code;
use hyprsetting::locale::locale_label;
use hyprsetting::numfmt::i64_to_dec;
use hyprsetting::numfmt::parse_i32;
use hyprsetting::numfmt::u64_to_dec;

#[test]
fn decimal_rendering_of_unsigned_values() {
    assert_eq!(u64_to_dec(0), "0");
    assert_eq!(u64_to_dec(7), "7");
    assert_eq!(u64_to_dec(12345), "12345");
    assert_eq!(u64_to_dec(1000), "1000");
}

#[test]
fn decimal_rendering_of_signed_values() {
    assert_eq!(i64_to_dec(-42), "-42");
    assert_eq!(i64_to_dec(0), "0");
    assert_eq!(i64_to_dec(2560), "2560");
    assert_eq!(i64_to_dec(-1920), "-1920");
}

#[test]
fn parse_i32_accepts_signed_decimals() {
    assert_eq!(parse_i32("123"), Some(123));
    assert_eq!(parse_i32("+7"), Some(7));
    assert_eq!(parse_i32("-1920"), Some(-1920));
    assert_eq!(parse_i32("0"), Some(0));
    assert_eq!(parse_i32("-2147483648"), Some(i32::MIN));
    assert_eq!(parse_i32("2147483647"), Some(i32::MAX));
}

#[test]
fn parse_i32_rejects_malformed_and_out_of_range_input() {
    assert_eq!(parse_i32(""), None);
    assert_eq!(parse_i32("-"), None);
    assert_eq!(parse_i32("+"), None);
    assert_eq!(parse_i32("12a"), None);
    assert_eq!(parse_i32(" 12"), None);
    assert_eq!(parse_i32("2147483648"), None);
    assert_eq!(parse_i32("-2147483649"), None);
    assert_eq!(parse_i32("99999999999999999999"), None);
}

#[test]
fn locale_labels_round_trip_through_extraction() {
    let locale = LocaleInfo { code: "us".to_string(), label: "English (US)".to_string() };
    let label = locale_label(&locale);
    assert_eq!(label, "English (US) (us)");
    assert_eq!(extract_code_from_label(&label), Some("us".to_string()));
}

#[test]
fn extract_code_handles_malformed_labels() {
    assert_eq!(extract_code_from_label("Finnish (fi)"), Some("fi".to_string()));
    assert_eq!(extract_code_from_label("Finnish ( fi )"), Some("fi".to_string()));
    assert_eq!(extract_code_from_label("no parens"), None);
    assert_eq!(extract_code_from_label(")("), None);
    assert_eq!(extract_code_from_label(""), None);
}

#[test]
fn label_lookup_falls_back_to_the_code() {
    let locales = vec![
        LocaleInfo { code: "us".to_string(), label: "English (US)".to_string() },
        LocaleInfo { code: "fi".to_string(), label: "Finnish".to_string() },
    ];
    assert_eq!(get_label_for_code(&locales, "fi"), "Finnish");
    assert_eq!(get_label_for_code(&locales, "us"), "English (US)");
    assert_eq!(get_label_for_code(&locales, "de"), "de");
}
