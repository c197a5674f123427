use backend::text::{i64_to_decimal, to_lower_hex, u64_to_decimal};
use backend::auth::validate_access_token;

#[test]
fn decimal_of_zero_and_max() {
    assert_eq!(u64_to_decimal(0), "0");
    assert_eq!(u64_to_decimal(20), "20");
    assert_eq!(u64_to_decimal(u64::MAX), "18446744073709551615");
}

#[test]
fn signed_decimal_matches_to_string() {
    for n in [0i64, 7, -7, 1700000000123, i64::MAX, i64::MIN] {
        assert_eq!(i64_to_decimal(n), n.to_string());
    }
}

#[test]
fn lower_hex_two_digits_per_byte() {
    assert_eq!(to_lower_hex(&vec![0x00, 0x0f, 0xa5, 0xff]), "000fa5ff");
    assert_eq!(to_lower_hex(&vec![]), "");
}

#[test]
fn access_token_found_on_any_line() {
    let list = "alpha\nbeta\r\ngamma";
    assert!(validate_access_token(list, "alpha"));
    assert!(validate_access_token(list, "beta"));
    assert!(validate_access_token(list, "gamma"));
    assert!(!validate_access_token(list, "delta"));
    assert!(!validate_access_token(list, "beta\r"));
    assert!(!validate_access_token(list, "alp"));
}

#[test]
fn access_token_lines_agree_with_str_lines() {
    let texts = ["", "\n", "a\n", "a\r\n", "a\r", "a\n\nb", "\r\n\r\n", "x\ny\r"];
    let candidates = ["", "a", "b", "a\r", "x", "y", "y\r", "\r"];
    for t in texts {
        for c in candidates {
            let expected = t.lines().any(|l| l == c);
            assert_eq!(validate_access_token(t, c), expected, "text {:?} token {:?}", t, c);
        }
    }
}

#[test]
fn final_line_ending_adds_no_line() {
    for c in ["", "abc", "abc\r"] {
        assert_eq!(validate_access_token("abc", c), validate_access_token("abc\r\n", c));
        assert_eq!(validate_access_token("abc", c), validate_access_token("abc\n", c));
    }
    // The empty list has no line; a lone line feed has one empty line.
    assert!(!validate_access_token("", ""));
    assert!(validate_access_token("\n", ""));
}

#[test]
fn appended_token_line_is_granted() {
    let list = String::from("first\r\nsecond\n");
    let grown = format!("{}{}\n", list, "third");
    assert!(!validate_access_token(&list, "third"));
    assert!(validate_access_token(&grown, "third"));
    assert!(validate_access_token(&grown, "first"));
    assert!(validate_access_token(&format!("{}\n", "solo"), "solo"));
}
