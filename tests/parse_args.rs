use shell_core::tokenizer::parse_args;

#[test]
fn single_arg() {
    let args = r#"single"#;

    let output = parse_args(args);
    let expected = vec![r#"single"#.to_string()];

    assert_eq!(output, expected)
}

#[test]
fn single_arg_single_quotes() {
    let args = r#"'single'"#;

    let output = parse_args(args);
    let expected = vec![r#"single"#.to_string()];

    assert_eq!(output, expected)
}

#[test]
fn single_arg_escaped_single_quote() {
    {
        let args = r#"sing\'le"#;

        let output = parse_args(args);
        let expected = vec![r#"sing'le"#.to_string()];

        assert_eq!(output, expected)
    }

    {
        let args = r#"\'single"#;

        let output = parse_args(args);
        let expected = vec![r#"'single"#.to_string()];

        assert_eq!(output, expected)
    }

    {
        let args = r#"single\'"#;

        let output = parse_args(args);
        let expected = vec![r#"single'"#.to_string()];

        assert_eq!(output, expected)
    }
}

#[test]
fn multiple_args_escaped_quote() {
    let args = r#"f\'irst secon\'d"#;

    let output = parse_args(args);
    let expected = vec![r#"f'irst"#.to_string(), r#"secon'd"#.to_string()];

    assert_eq!(output, expected);
}

#[test]
fn single_arg_double_quotes() {
    let args = r#""single""#;

    let output = parse_args(args);
    let expected = vec![r#"single"#.to_string()];

    assert_eq!(output, expected)
}

#[test]
fn escaped_double_quotes() {
    let args = r#"first\"second"#;

    let output = parse_args(args);
    let expected = vec![r#"first"second"#.to_string()];

    assert_eq!(output, expected);
}

#[test]
fn escaped_double_quotes_inside_single_quotes() {
    let args = r#"'sin\"gle'"#;

    let output = parse_args(args);
    let expected = vec![r#"sin\"gle"#.to_string()];

    assert_eq!(output, expected)
}

#[test]
fn multiple_args() {
    let args = r#"first second"#;

    let output = parse_args(args);
    let expected = vec![r#"first"#.to_string(), r#"second"#.to_string()];

    assert_eq!(output, expected)
}

#[test]
fn double_quotes_inside_single_quotes() {
    let args = r#"'first"second' '"first second'"#;

    let output = parse_args(args);
    let expected = vec![
        r#"first"second"#.to_string(),
        r#""first second"#.to_string(),
    ];

    assert_eq!(output, expected);
}

#[test]
fn multiple_args_double_quotes_whitespace() {
    let args = r#""first  second"   "first""#;

    let output = parse_args(args);
    let expected = vec![r#"first  second"#.to_string(), r#"first"#.to_string()];

    assert_eq!(output, expected);
}

#[test]
fn single_quoted_backslash() {
    let args = r#""/'f \21\'""#;

    let output = parse_args(args);
    let expected = vec![r#"/'f \21\'"#.to_string()];

    assert_eq!(output, expected)
}

#[test]
fn single_quoted_backslash2() {
    let args = r#""/'f  \78'""#;

    let output = parse_args(args);
    let expected = vec![r#"/'f  \78'"#.to_string()];

    assert_eq!(output, expected)
}

#[test]
fn non_quoted_backslash_space() {
    let args = r#"first\ \ \second"#;

    let output = parse_args(args);
    let expected = vec![r#"first  second"#.to_string()];

    assert_eq!(output, expected)
}

#[test]
fn double_quoted_backslash() {
    let args = r#""test'world'\\n'example""#;

    let output = parse_args(args);
    let expected = vec![r#"test'world'\n'example"#.to_string()];

    assert_eq!(output, expected)
}

#[test]
fn double_quoted_backslash2() {
    let args = r#""mixed\"quote'test'\\""#;

    let output = parse_args(args);
    let expected = vec![r#"mixed"quote'test'\"#.to_string()];

    assert_eq!(output, expected);
}

#[test]
fn double_quoted_backslash3() {
    let args = r#""example\"insidequotes"script\""#;

    let output = parse_args(args);
    let expected = vec![r#"example"insidequotesscript""#.to_string()];

    assert_eq!(output, expected)
}

#[test]
fn stdout_redirect() {
    let args = r#"'hello james' 1> /tmp/foo/foo.md"#;

    let output = parse_args(args);
    let expected = vec![
        r#"hello james"#.to_string(),
        "1>".to_string(),
        "/tmp/foo/foo.md".to_string(),
    ];

    assert_eq!(output, expected)
}

fn words(ws: &[&str]) -> Vec<String> {
    ws.iter().map(|w| w.to_string()).collect()
}

#[test]
fn plain_words_come_back_in_order() {
    assert_eq!(parse_args("ls -la /tmp x"), words(&["ls", "-la", "/tmp", "x"]));
    assert_eq!(parse_args("one"), words(&["one"]));
}

#[test]
fn quoted_and_escaped_examples() {
    assert_eq!(parse_args("'a b' c"), words(&["a b", "c"]));
    assert_eq!(parse_args("\"a\\\"b\" c"), words(&["a\"b", "c"]));
    assert_eq!(parse_args("a\\ b"), words(&["a b"]));
}

#[test]
fn empty_and_blank_lines_give_one_empty_word() {
    assert_eq!(parse_args(""), words(&[""]));
    assert_eq!(parse_args("   "), words(&[""]));
}

#[test]
fn trailing_space_leaves_empty_last_word() {
    assert_eq!(parse_args("a "), words(&["a", ""]));
    assert_eq!(parse_args("exit 2 ''"), words(&["exit", "2", ""]));
}

#[test]
fn runs_of_spaces_make_no_empty_words() {
    assert_eq!(parse_args("a   b"), words(&["a", "b"]));
    assert_eq!(parse_args("  a b"), words(&["a", "b"]));
}

#[test]
fn unterminated_quote_takes_rest_of_line() {
    assert_eq!(parse_args("a 'b c"), words(&["a", "b c"]));
    assert_eq!(parse_args("\"x  y"), words(&["x  y"]));
}

#[test]
fn backslash_inside_single_quotes_is_literal() {
    assert_eq!(parse_args(r#"'a\'b"#), words(&[r#"a\b"#]));
    assert_eq!(parse_args(r#"'a\nb'"#), words(&[r#"a\nb"#]));
}

#[test]
fn backslash_in_double_quotes() {
    assert_eq!(parse_args(r#""\$HOME""#), words(&["$HOME"]));
    assert_eq!(parse_args(r#""a\\\\b""#), words(&[r#"a\\b"#]));
    assert_eq!(parse_args(r#""a\xb""#), words(&[r#"a\xb"#]));
    assert_eq!(parse_args(r#""a\"#), words(&[r#"a\"#]));
}

#[test]
fn backslash_outside_quotes() {
    assert_eq!(parse_args(r#"a\\b"#), words(&[r#"a\b"#]));
    assert_eq!(parse_args(r#"a\"#), words(&["a"]));
    assert_eq!(parse_args(r#"\\ x"#), words(&["\\", "x"]));
}

#[test]
fn adjacent_quotes_join_one_word() {
    assert_eq!(parse_args(r#"a'b c'"d e"f"#), words(&["ab cd ef"]));
    assert_eq!(parse_args("''"), words(&[""]));
}
