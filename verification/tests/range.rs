use batch_impl::consts::range::{builtin_range, builtin_range_open, split_range_endpoint};

#[test]
fn open_left_resolves_family_min() {
    assert_eq!(builtin_range_open(None, Some("u128")).unwrap(), ["u8", "u16", "u32", "u64", "u128"]);
    assert_eq!(builtin_range_open(None, Some("i64")).unwrap(), ["i8", "i16", "i32", "i64"]);
    assert_eq!(builtin_range_open(None, Some("f64")).unwrap(), ["f32", "f64"]);
}

#[test]
fn open_right_resolves_family_max() {
    assert_eq!(builtin_range_open(Some("u16"), None).unwrap(), ["u16", "u32", "u64", "u128"]);
    assert_eq!(builtin_range_open(Some("f32"), None).unwrap(), ["f32", "f64"]);
}

#[test]
fn both_endpoints_delegate_to_full_validation() {
    assert_eq!(builtin_range_open(Some("u8"), Some("u32")).unwrap(), ["u8", "u16", "u32"]);
    assert!(builtin_range_open(None, Some("i128")).is_ok());
    assert!(builtin_range_open(Some("u8"), None).is_ok());
}

#[test]
fn no_anchor_errors() {
    assert!(builtin_range_open(None, None).is_err());
    assert!(builtin_range_open(None, Some("u9")).is_err());
    assert!(builtin_range_open(Some("x8"), None).is_err());
}

#[test]
fn endpoint_parsing_accepts_sign_and_leading_zeros() {
    assert_eq!(split_range_endpoint("u8"), Some(('u', 8)));
    assert_eq!(split_range_endpoint("i128"), Some(('i', 128)));
    assert_eq!(split_range_endpoint("u+16"), Some(('u', 16)));
    assert_eq!(split_range_endpoint("u008"), Some(('u', 8)));
    assert_eq!(split_range_endpoint("f16"), None);
    assert_eq!(split_range_endpoint("u"), None);
    assert_eq!(split_range_endpoint(""), None);
    assert_eq!(split_range_endpoint("u99999999999"), None);
    assert_eq!(split_range_endpoint("usize"), None);
}

#[test]
fn range_errors_carry_the_reason() {
    assert_eq!(
        builtin_range("u8", "i16").unwrap_err(),
        "range endpoint families mismatch: `u8` and `i16`"
    );
    assert_eq!(builtin_range("u64", "u8").unwrap_err(), "range start is greater than end: `u64..u8`");
    assert_eq!(
        builtin_range("u9", "u16").unwrap_err(),
        "`@u9` has an invalid width (legal: u/i are 8/16/32/64/128, f is 32/64)"
    );
    assert_eq!(builtin_range("f32", "f32").unwrap(), ["f32"]);
    assert_eq!(builtin_range_open(None, None).unwrap_err(), "`@..` names no family");
}
