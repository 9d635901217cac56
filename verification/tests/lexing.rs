use shell_lang::lexer::{Bool, LexError, Lexer, Token};

fn toks(src: &str) -> Vec<Token> {
    Lexer::new().tokenize(src).expect("tokenize failed")
}

#[test]
fn word_run_swallows_operator_characters() {
    // "a-1" is one maximal word run, so it stays a single shell word.
    assert_eq!(toks("a-1"), vec![Token::ShellWord("a-1".to_string()), Token::Eof]);
}

#[test]
fn spaced_operator_tokenizes_separately() {
    // The same characters with spaces fall into three tokens.
    assert_eq!(
        toks("a - 1"),
        vec![
            Token::Identifier("a".to_string()),
            Token::Sub,
            Token::Number("1".to_string()),
            Token::Eof,
        ]
    );
}

#[test]
fn numbers_keep_their_spelling() {
    assert_eq!(toks("5"), vec![Token::Number("5".to_string()), Token::Eof]);
    assert_eq!(toks("-5"), vec![Token::Number("-5".to_string()), Token::Eof]);
    assert_eq!(toks("1.25"), vec![Token::Number("1.25".to_string()), Token::Eof]);
    // two dots disqualify the run from the number shape
    assert_eq!(toks("1.2.3"), vec![Token::ShellWord("1.2.3".to_string()), Token::Eof]);
    // a bare minus is the subtraction operator, not a number
    assert_eq!(toks("-"), vec![Token::Sub, Token::Eof]);
}

#[test]
fn string_literals_read_verbatim() {
    assert_eq!(
        toks("\"hello world\""),
        vec![Token::String("hello world".to_string()), Token::Eof]
    );
    // an unterminated string consumes to end of input
    assert_eq!(toks("\"abc"), vec![Token::String("abc".to_string()), Token::Eof]);
    // empty string
    assert_eq!(toks("\"\""), vec![Token::String(String::new()), Token::Eof]);
}

#[test]
fn quoted_word_is_marked_shell_word() {
    assert_eq!(toks("'true"), vec![Token::ShellWord("true".to_string()), Token::Eof]);
}

#[test]
fn keywords_and_operators_lex_to_dedicated_tokens() {
    assert_eq!(
        toks("if while function for true false and or not"),
        vec![
            Token::If,
            Token::While,
            Token::Function,
            Token::For,
            Token::Bool(Bool::True),
            Token::Bool(Bool::False),
            Token::And,
            Token::Or,
            Token::Not,
            Token::Eof,
        ]
    );
    assert_eq!(
        toks("&& || | <- -> >> >= <= == ="),
        vec![
            Token::AndThen,
            Token::OrElse,
            Token::Pipe,
            Token::RedirectIn,
            Token::RedirectOut,
            Token::RedirectOutAppend,
            Token::GreaterThanEqual,
            Token::LessThanEqual,
            Token::EqualTo,
            Token::Equals,
            Token::Eof,
        ]
    );
}

#[test]
fn bang_is_always_its_own_token() {
    // `!` is a structural singleton: it never joins a word run, so
    // "a != b" lexes as `a`, `!`, `=`, `b`.
    assert_eq!(
        toks("a != b"),
        vec![
            Token::Identifier("a".to_string()),
            Token::Not,
            Token::Equals,
            Token::Identifier("b".to_string()),
            Token::Eof,
        ]
    );
    // inside a word run the same characters stay one shell word
    assert_eq!(toks("a!=b"), vec![Token::ShellWord("a!=b".to_string()), Token::Eof]);
}

#[test]
fn newline_is_a_token_and_blanks_are_not() {
    assert_eq!(
        toks("1\n2"),
        vec![
            Token::Number("1".to_string()),
            Token::Newline,
            Token::Number("2".to_string()),
            Token::Eof,
        ]
    );
    assert_eq!(toks(" \t "), vec![Token::Eof]);
    assert_eq!(toks(""), vec![Token::Eof]);
}

#[test]
fn groupers_and_comma_are_singletons() {
    assert_eq!(
        toks("([{,}])"),
        vec![
            Token::OpenParen,
            Token::OpenBracket,
            Token::OpenBrace,
            Token::Comma,
            Token::CloseBrace,
            Token::CloseBracket,
            Token::CloseParen,
            Token::Eof,
        ]
    );
}

#[test]
fn unknown_character_is_reported_with_position() {
    assert_eq!(
        Lexer::new().tokenize("ab #"),
        Err(LexError { ch: '#', pos: 3 })
    );
}

#[test]
fn unicode_letters_join_word_runs() {
    // a word of non-ASCII letters is still one run; it has neither the
    // number nor the ASCII identifier shape, so it stays a shell word
    assert_eq!(toks("caf\u{e9}"), vec![Token::ShellWord("caf\u{e9}".to_string()), Token::Eof]);
    // a character that is not alphanumeric at all is a lex failure
    assert_eq!(
        Lexer::new().tokenize("\u{2764}"),
        Err(LexError { ch: '\u{2764}', pos: 0 })
    );
}

#[test]
fn shell_paths_and_flags_stay_words() {
    assert_eq!(
        toks("ls -la /tmp/x.txt"),
        vec![
            Token::Identifier("ls".to_string()),
            Token::ShellWord("-la".to_string()),
            Token::ShellWord("/tmp/x.txt".to_string()),
            Token::Eof,
        ]
    );
}
