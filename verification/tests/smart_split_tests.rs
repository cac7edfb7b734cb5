use micah::smart_split::{tokenize, SmartSplit, TokenError};

fn compare_iterator_to_vec(s: &str, v: Vec<&str>) {
    let mut split = SmartSplit::new(s);
    for expected in v.iter() {
        let token = split
            .next()
            .expect("tokenizing should not fail")
            .expect("a token should remain");
        assert_eq!(token, *expected);
    }
    assert_eq!(split.next(), Ok(None));
}

#[test]
fn test_smart_split() {
    compare_iterator_to_vec("a b c", vec!["a", "b", "c"]);
    compare_iterator_to_vec("a     b    c", vec!["a", "b", "c"]);
    compare_iterator_to_vec("a 'b c'", vec!["a", "'b c'"]);
    compare_iterator_to_vec("'a b' c", vec!["'a b'", "c"]);
    compare_iterator_to_vec("a '\\'b c'", vec!["a", "'\\'b c'"]);
    compare_iterator_to_vec("'a b\\'' c", vec!["'a b\\''", "c"]);
    compare_iterator_to_vec("'\"a\" ' b c", vec!["'\"a\" '", "b", "c"]);
}

#[test]
fn tokenize_splits_on_whitespace() {
    assert_eq!(tokenize("a b c").unwrap(), vec!["a", "b", "c"]);
}

#[test]
fn tokenize_collapses_repeated_whitespace() {
    assert_eq!(tokenize("a     b    c").unwrap(), vec!["a", "b", "c"]);
}

#[test]
fn commas_are_pure_separators() {
    assert_eq!(tokenize("a,b, c ,,d").unwrap(), vec!["a", "b", "c", "d"]);
}

#[test]
fn quoted_spans_keep_internal_separators() {
    assert_eq!(tokenize("a 'b c'").unwrap(), vec!["a", "'b c'"]);
    assert_eq!(tokenize("a \"b, c\"").unwrap(), vec!["a", "\"b, c\""]);
}

#[test]
fn escaped_quote_keeps_the_span_open() {
    assert_eq!(tokenize("'a b\\'' c").unwrap(), vec!["'a b\\''", "c"]);
}

#[test]
fn quotes_of_the_other_kind_nest_verbatim() {
    assert_eq!(tokenize("'\"a\" ' b c").unwrap(), vec!["'\"a\" '", "b", "c"]);
}

#[test]
fn unterminated_quote_is_an_error_not_a_panic() {
    assert_eq!(tokenize("a 'open"), Err(TokenError::UnterminatedQuote));
    assert_eq!(tokenize("\"open"), Err(TokenError::UnterminatedQuote));
}

#[test]
fn dangling_escape_is_an_error_not_a_panic() {
    assert_eq!(tokenize("a b\\"), Err(TokenError::DanglingEscape));
    assert_eq!(tokenize("'a \\"), Err(TokenError::UnterminatedQuote));
}

#[test]
fn escape_outside_quotes_consumes_a_separator() {
    assert_eq!(tokenize("a\\ b c").unwrap(), vec!["a\\ b", "c"]);
}

#[test]
fn empty_and_separator_only_lines_yield_no_tokens() {
    assert_eq!(tokenize("").unwrap(), Vec::<String>::new());
    assert_eq!(tokenize("  , \t ,").unwrap(), Vec::<String>::new());
}
