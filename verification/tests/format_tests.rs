use midl_parser::format::unquote;

#[test]
fn test_unquote() {
    assert_eq!(
        unquote("\"abc\""),
        "abc",
        "should remove leading and trailing quotes"
    );

    assert_eq!(unquote("x"), "x", "no change");
    assert_eq!(unquote(""), "", "no change for empty string");
    assert_eq!(unquote("'x'"), "'x'", "no change for single quotes");
    assert_eq!(
        unquote("abc\""),
        "abc\"",
        "must have both leading and trailing"
    );
    assert_eq!(
        unquote("\"abc"),
        "\"abc",
        "must have both leading and trailing"
    );
}
