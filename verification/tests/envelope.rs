use yq::helper::{fmt_u64, parse_i64, parse_u64, str_eq};
use yq::{decode_job, encode_job, YqError};

#[test]
fn encode_prefixes_tag_length() {
    assert_eq!(encode_job("MyJob", "{\"x\":1}"), "5:MyJob{\"x\":1}");
    assert_eq!(encode_job("", "body"), "0:body");
}

#[test]
fn decode_splits_tag_and_body() {
    let (job_type, job_data) = decode_job("5:MyJob{\"x\":1}").unwrap();
    assert_eq!(job_type, "MyJob");
    assert_eq!(job_data, "{\"x\":1}");
}

#[test]
fn decode_inverts_encode() {
    let cases = [("MyJob", "{\"x\":1}"), ("", ""), ("a:b", "body:with:colons"), ("t", "")];
    for (tag, body) in cases {
        let enc = encode_job(tag, body);
        let (t2, b2) = decode_job(&enc).unwrap();
        assert_eq!(t2, tag);
        assert_eq!(b2, body);
    }
}

#[test]
fn envelope_counts_tag_bytes_not_characters() {
    // a two-byte character in the tag: the prefix is its byte length
    let enc = encode_job("\u{e9}", "x");
    assert_eq!(enc, "2:\u{e9}x");
    let (tag, body) = decode_job(&enc).unwrap();
    assert_eq!(tag, "\u{e9}");
    assert_eq!(body, "x");
}

#[test]
fn decode_rejects_a_length_that_cuts_a_character() {
    // one byte into a two-byte character is no boundary
    assert!(matches!(decode_job("1:\u{e9}x"), Err(YqError::InvalidJobData(_))));
}

#[test]
fn decode_rejects_missing_colon() {
    let r = decode_job("no-colon-here");
    assert!(matches!(r, Err(YqError::InvalidJobData(d)) if d == "no-colon-here"));
}

#[test]
fn decode_rejects_non_numeric_length() {
    assert!(matches!(decode_job("x:abc"), Err(YqError::InvalidJobData(_))));
    assert!(matches!(decode_job(":abc"), Err(YqError::InvalidJobData(_))));
}

#[test]
fn decode_rejects_overlong_length() {
    assert!(matches!(decode_job("9:ab"), Err(YqError::InvalidJobData(_))));
}

#[test]
fn fmt_renders_decimal() {
    assert_eq!(fmt_u64(0), "0");
    assert_eq!(fmt_u64(7), "7");
    assert_eq!(fmt_u64(1234567890), "1234567890");
    assert_eq!(fmt_u64(u64::MAX), "18446744073709551615");
}

#[test]
fn parse_reads_decimal() {
    assert_eq!(parse_u64("0"), Some(0));
    assert_eq!(parse_u64("18446744073709551615"), Some(u64::MAX));
    assert_eq!(parse_u64("18446744073709551616"), None);
    assert_eq!(parse_u64(""), None);
    assert_eq!(parse_u64("12a"), None);
    assert_eq!(parse_i64("42"), Some(42));
    assert_eq!(parse_i64("-42"), Some(-42));
    assert_eq!(parse_i64("9223372036854775807"), Some(i64::MAX));
    assert_eq!(parse_i64("9223372036854775808"), None);
    assert_eq!(parse_i64("-9223372036854775808"), Some(i64::MIN));
    assert_eq!(parse_i64("-9223372036854775809"), None);
    assert_eq!(parse_i64("-"), None);
}

#[test]
fn str_eq_compares_characters() {
    assert!(str_eq("abc", "abc"));
    assert!(!str_eq("abc", "abd"));
    assert!(!str_eq("abc", "ab"));
    assert!(str_eq("", ""));
}
