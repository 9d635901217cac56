use shell_lang::valid_delimiters;

#[test]
fn balanced_brackets_are_accepted() {
    assert!(valid_delimiters(""));
    assert!(valid_delimiters("no brackets at all"));
    assert!(valid_delimiters("(a { b [ c ] } d)"));
    assert!(valid_delimiters("{ 1\n2\n }"));
}

#[test]
fn open_brackets_keep_the_buffer_incomplete() {
    assert!(!valid_delimiters("("));
    assert!(!valid_delimiters("{ 1\n2"));
    assert!(!valid_delimiters("f(a, g(b)"));
}

#[test]
fn mismatched_partners_are_rejected() {
    assert!(!valid_delimiters("(]"));
    assert!(!valid_delimiters("{ [ } ]"));
    assert!(!valid_delimiters(")("));
}
