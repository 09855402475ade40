use pix::error::PixError;
use pix::layers::parse_stem;
use pix::strutil::{contains_str, dec_string, find_char, parse_u32, str_eq};

#[test]
fn parse_stem_reads_name_and_weight() {
    let (name, weight) = parse_stem("red#70").unwrap();
    assert_eq!(name, "red");
    assert_eq!(weight, 70);
}

#[test]
fn parse_stem_takes_the_part_between_the_first_two_hashes() {
    let (name, weight) = parse_stem("blue#30#ignored").unwrap();
    assert_eq!(name, "blue");
    assert_eq!(weight, 30);
}

#[test]
fn parse_stem_without_hash_is_missing_weight() {
    let e = parse_stem("noweight").unwrap_err();
    assert!(matches!(e, PixError::MissingWeight(_)));
    assert_eq!(e.message(), "noweight is missing `#weight`");
}

#[test]
fn parse_stem_with_bad_number_is_bad_weight() {
    let e = parse_stem("bad#xy").unwrap_err();
    assert!(matches!(e, PixError::BadWeight(_)));
    assert_eq!(e.message(), "xy is not a parsable number");
}

#[test]
fn parse_stem_weight_bounds() {
    assert!(matches!(parse_stem("n#4294967296"), Err(PixError::BadWeight(_))));
    let (_, weight) = parse_stem("n#4294967295").unwrap();
    assert_eq!(weight, u32::MAX);
    assert!(matches!(parse_stem("n#"), Err(PixError::BadWeight(_))));
}

#[test]
fn parse_u32_values() {
    assert_eq!(parse_u32("0"), Some(0));
    assert_eq!(parse_u32("007"), Some(7));
    assert_eq!(parse_u32("4294967295"), Some(u32::MAX));
    assert_eq!(parse_u32("4294967296"), None);
    assert_eq!(parse_u32(""), None);
    assert_eq!(parse_u32("12a"), None);
    assert_eq!(parse_u32("-1"), None);
}

#[test]
fn string_helpers() {
    assert!(str_eq("abc", "abc"));
    assert!(!str_eq("abc", "abd"));
    assert!(!str_eq("abc", "ab"));
    assert_eq!(find_char("a#b#c", '#', 0), Some(1));
    assert_eq!(find_char("a#b#c", '#', 2), Some(3));
    assert_eq!(find_char("abc", '#', 0), None);
    let list = vec!["one".to_string(), "two".to_string()];
    assert!(contains_str(&list, "two"));
    assert!(!contains_str(&list, "three"));
}

#[test]
fn decimal_formatting() {
    assert_eq!(dec_string(0), "0");
    assert_eq!(dec_string(7), "7");
    assert_eq!(dec_string(12345), "12345");
    assert_eq!(dec_string(u64::MAX), "18446744073709551615");
}
