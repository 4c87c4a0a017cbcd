use redstrap::launch::split_args;

#[test]
fn arg_splitting() {
    assert_eq!(split_args("--a b"), vec!["--a", "b"]);
    assert_eq!(
        split_args("--path \"C:\\My Dir\\x.exe\" --flag"),
        vec!["--path", "C:\\My Dir\\x.exe", "--flag"]
    );
    assert!(split_args("   ").is_empty());
}

#[test]
fn empty_quotes_make_an_empty_argument() {
    assert_eq!(split_args("a \"\" b"), vec!["a", "", "b"]);
    assert_eq!(split_args("x\"y z\"w"), vec!["xy zw"]);
    assert_eq!(split_args("\ttab\u{3000}ideographic  "), vec!["tab", "ideographic"]);
}
