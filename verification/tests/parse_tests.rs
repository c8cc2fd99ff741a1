use snippets::parse::parse_log_entry;

#[test]
fn parse_valid_line() {
    let entry = parse_log_entry("1 true hello").expect("the line matches the layout");
    assert_eq!(entry.foo, 1);
    assert!(entry.bar);
    assert_eq!(entry.baz, "hello");
}

#[test]
fn parse_false_flag() {
    let entry = parse_log_entry("12 false abc").expect("the line matches the layout");
    assert_eq!(entry.foo, 12);
    assert!(!entry.bar);
    assert_eq!(entry.baz, "abc");
}

#[test]
fn parse_rejects_malformed_number() {
    assert!(parse_log_entry("abc false x").is_none());
}

#[test]
fn parse_rejects_bad_flag() {
    assert!(parse_log_entry("1 maybe hello").is_none());
    assert!(parse_log_entry("1 truethat hello").is_none());
}

#[test]
fn parse_rejects_missing_fields() {
    assert!(parse_log_entry("").is_none());
    assert!(parse_log_entry("1").is_none());
    assert!(parse_log_entry("1 true").is_none());
    assert!(parse_log_entry("1 true ").is_none());
    assert!(parse_log_entry("true hello").is_none());
}

#[test]
fn parse_rejects_extra_material() {
    assert!(parse_log_entry("1 true hello world").is_none());
    assert!(parse_log_entry(" 1 true hello").is_none());
    assert!(parse_log_entry("1 true hello ").is_none());
}

#[test]
fn parse_allows_any_field_separator_run() {
    let entry = parse_log_entry("7   true\thello").expect("runs of whitespace separate fields");
    assert_eq!(entry.foo, 7);
    assert!(entry.bar);
    assert_eq!(entry.baz, "hello");
}

#[test]
fn parse_number_at_word_limit() {
    let line = format!("{} true x", usize::MAX);
    let entry = parse_log_entry(&line).expect("the largest word-sized number is accepted");
    assert_eq!(entry.foo, usize::MAX);

    let over = format!("{}0 true x", usize::MAX);
    assert!(parse_log_entry(&over).is_none());
}

#[test]
fn parse_keeps_unusual_token() {
    let entry = parse_log_entry("42 false a%b_c!").expect("any non-blank token is accepted");
    assert_eq!(entry.foo, 42);
    assert_eq!(entry.baz, "a%b_c!");
}
