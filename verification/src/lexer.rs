//! The lexer: one left-to-right scan that turns source text into an
//! `Eof`-terminated token sequence.  The scan is specified by the
//! recursive model [`spec_tokenize`], and `Lexer::tokenize` is proved
//! to return exactly that model's outcome.

use vstd::prelude::*;

verus! {

/// Spelling of a boolean literal.
#[derive(Debug, PartialEq)]
pub enum Bool {
    True,
    False,
}

/// One token of the source language.  The token sequence produced by
/// [`Lexer::tokenize`] is the sole interface between the lexer and the
/// parser.
///
/// A `Number` token keeps the spelling of the literal (a word matching
/// the signed-decimal shape); `ShellWord` carries bare text that is
/// neither a recognized literal nor identifier-shaped, such as paths,
/// flags and globs.
#[derive(Debug, PartialEq)]
pub enum Token {
    // literal types
    Number(String),
    Bool(Bool),
    String(String),
    Identifier(String),
    ShellWord(String),
    // keywords
    If,
    While,
    Function,
    For,
    // grouping and operators
    Equals,            // =
    OpenParen,         // (
    CloseParen,        // )
    OpenBrace,         // {
    CloseBrace,        // }
    OpenBracket,       // [
    CloseBracket,      // ]
    Add,               // +
    Sub,               // -
    Mul,               // *
    Div,               // /
    Mod,               // %
    And,               // and
    Or,                // or
    AndThen,           // &&
    OrElse,            // ||
    Pipe,              // |
    RedirectIn,        // <-
    RedirectOut,       // ->
    RedirectOutAppend, // >>
    GreaterThan,       // >
    GreaterThanEqual,  // >=
    LessThan,          // <
    LessThanEqual,     // <=
    EqualTo,           // ==
    NotEqualTo,        // !=
    // unary
    Not,               // not / !
    // other
    Comma,             // ,
    Newline,           // \n
    Eof,               // end of input
}

/// Mathematical model of a [`Token`]: the same variants over character
/// sequences, with the boolean spelling replaced by the boolean itself.
pub ghost enum SpecToken {
    Number(Seq<char>),
    Bool(bool),
    Str(Seq<char>),
    Identifier(Seq<char>),
    ShellWord(Seq<char>),
    If,
    While,
    Function,
    For,
    Equals,
    OpenParen,
    CloseParen,
    OpenBrace,
    CloseBrace,
    OpenBracket,
    CloseBracket,
    Add,
    Sub,
    Mul,
    Div,
    Mod,
    And,
    Or,
    AndThen,
    OrElse,
    Pipe,
    RedirectIn,
    RedirectOut,
    RedirectOutAppend,
    GreaterThan,
    GreaterThanEqual,
    LessThan,
    LessThanEqual,
    EqualTo,
    NotEqualTo,
    Not,
    Comma,
    Newline,
    Eof,
}

impl View for Token {
    type V = SpecToken;

    open spec fn view(&self) -> SpecToken {
        match self {
            Token::Number(x) => SpecToken::Number(x@),
            Token::Bool(b) => match b {
                Bool::True => SpecToken::Bool(true),
                Bool::False => SpecToken::Bool(false),
            },
            Token::String(x) => SpecToken::Str(x@),
            Token::Identifier(x) => SpecToken::Identifier(x@),
            Token::ShellWord(x) => SpecToken::ShellWord(x@),
            Token::If => SpecToken::If,
            Token::While => SpecToken::While,
            Token::Function => SpecToken::Function,
            Token::For => SpecToken::For,
            Token::Equals => SpecToken::Equals,
            Token::OpenParen => SpecToken::OpenParen,
            Token::CloseParen => SpecToken::CloseParen,
            Token::OpenBrace => SpecToken::OpenBrace,
            Token::CloseBrace => SpecToken::CloseBrace,
            Token::OpenBracket => SpecToken::OpenBracket,
            Token::CloseBracket => SpecToken::CloseBracket,
            Token::Add => SpecToken::Add,
            Token::Sub => SpecToken::Sub,
            Token::Mul => SpecToken::Mul,
            Token::Div => SpecToken::Div,
            Token::Mod => SpecToken::Mod,
            Token::And => SpecToken::And,
            Token::Or => SpecToken::Or,
            Token::AndThen => SpecToken::AndThen,
            Token::OrElse => SpecToken::OrElse,
            Token::Pipe => SpecToken::Pipe,
            Token::RedirectIn => SpecToken::RedirectIn,
            Token::RedirectOut => SpecToken::RedirectOut,
            Token::RedirectOutAppend => SpecToken::RedirectOutAppend,
            Token::GreaterThan => SpecToken::GreaterThan,
            Token::GreaterThanEqual => SpecToken::GreaterThanEqual,
            Token::LessThan => SpecToken::LessThan,
            Token::LessThanEqual => SpecToken::LessThanEqual,
            Token::EqualTo => SpecToken::EqualTo,
            Token::NotEqualTo => SpecToken::NotEqualTo,
            Token::Not => SpecToken::Not,
            Token::Comma => SpecToken::Comma,
            Token::Newline => SpecToken::Newline,
            Token::Eof => SpecToken::Eof,
        }
    }
}

impl Clone for Token {
    /// A clone carries the same model as the token it copies.
    fn clone(&self) -> (r: Token)
        ensures
            r@ == self@,
    {
        match self {
            Token::Number(x) => Token::Number(x.clone()),
            Token::Bool(b) => Token::Bool(
                match b {
                    Bool::True => Bool::True,
                    Bool::False => Bool::False,
                },
            ),
            Token::String(x) => Token::String(x.clone()),
            Token::Identifier(x) => Token::Identifier(x.clone()),
            Token::ShellWord(x) => Token::ShellWord(x.clone()),
            Token::If => Token::If,
            Token::While => Token::While,
            Token::Function => Token::Function,
            Token::For => Token::For,
            Token::Equals => Token::Equals,
            Token::OpenParen => Token::OpenParen,
            Token::CloseParen => Token::CloseParen,
            Token::OpenBrace => Token::OpenBrace,
            Token::CloseBrace => Token::CloseBrace,
            Token::OpenBracket => Token::OpenBracket,
            Token::CloseBracket => Token::CloseBracket,
            Token::Add => Token::Add,
            Token::Sub => Token::Sub,
            Token::Mul => Token::Mul,
            Token::Div => Token::Div,
            Token::Mod => Token::Mod,
            Token::And => Token::And,
            Token::Or => Token::Or,
            Token::AndThen => Token::AndThen,
            Token::OrElse => Token::OrElse,
            Token::Pipe => Token::Pipe,
            Token::RedirectIn => Token::RedirectIn,
            Token::RedirectOut => Token::RedirectOut,
            Token::RedirectOutAppend => Token::RedirectOutAppend,
            Token::GreaterThan => Token::GreaterThan,
            Token::GreaterThanEqual => Token::GreaterThanEqual,
            Token::LessThan => Token::LessThan,
            Token::LessThanEqual => Token::LessThanEqual,
            Token::EqualTo => Token::EqualTo,
            Token::NotEqualTo => Token::NotEqualTo,
            Token::Not => Token::Not,
            Token::Comma => Token::Comma,
            Token::Newline => Token::Newline,
            Token::Eof => Token::Eof,
        }
    }
}

/// Model of a token sequence, element by element.
pub open spec fn toks_view(ts: Seq<Token>) -> Seq<SpecToken> {
    ts.map_values(|t: Token| t@)
}

/// Failure of one `tokenize` call: the unrecognized character and its
/// position (in characters) in the input.
#[derive(Debug, PartialEq)]
pub struct LexError {
    pub ch: char,
    pub pos: usize,
}

/// Mathematical model of a [`LexError`].
pub ghost struct SpecLexError {
    pub ch: char,
    pub pos: int,
}

impl View for LexError {
    type V = SpecLexError;

    open spec fn view(&self) -> SpecLexError {
        SpecLexError { ch: self.ch, pos: self.pos as int }
    }
}

// ---------------------------------------------------------------------
// Character classes
// ---------------------------------------------------------------------

/// The operator and joining symbols that may stand inside a word run:
/// `_ ' + - * / % = < > & | ! .`
pub open spec fn sym_char(c: char) -> bool {
    c == '_' || c == '\'' || c == '+' || c == '-' || c == '*' || c == '/' || c == '%' || c == '='
        || c == '<' || c == '>' || c == '&' || c == '|' || c == '!' || c == '.'
}

/// ASCII letters and digits.
pub open spec fn ascii_alnum(c: char) -> bool {
    ('a' <= c && c <= 'z') || ('A' <= c && c <= 'Z') || ('0' <= c && c <= '9')
}

/// Whether a character beyond ASCII counts as alphanumeric.  This names
/// the verdict of the standard library's Unicode tables; it depends on
/// the character alone.
pub uninterp spec fn unicode_alphanumeric(c: char) -> bool;

/// A letter or digit: decided by the ASCII ranges below 128 and by the
/// Unicode categories above.
pub open spec fn alphanumeric(c: char) -> bool {
    if (c as u32) < 128 {
        ascii_alnum(c)
    } else {
        unicode_alphanumeric(c)
    }
}

/// Relies on char::is_alphanumeric of std: on ASCII input it accepts
/// exactly the letters and digits, and beyond ASCII its verdict is a
/// function of the character alone.
#[verifier::external_body]
fn char_alphanumeric(c: char) -> (r: bool)
    ensures
        r == alphanumeric(c),
        (c as u32) >= 128 ==> r == unicode_alphanumeric(c),
{
    c.is_alphanumeric()
}

/// A character that may stand inside a word run: alphanumeric or one of
/// the word symbols.
pub open spec fn word_char(c: char) -> bool {
    sym_char(c) || alphanumeric(c)
}

/// ASCII decimal digit.
pub open spec fn digit_char(c: char) -> bool {
    '0' <= c && c <= '9'
}

/// ASCII letter or underscore: what may open an identifier.
pub open spec fn ident_start_char(c: char) -> bool {
    ('a' <= c && c <= 'z') || ('A' <= c && c <= 'Z') || c == '_'
}

/// ASCII letter, digit or underscore: what may continue an identifier.
pub open spec fn ident_char(c: char) -> bool {
    ident_start_char(c) || digit_char(c)
}

// ---------------------------------------------------------------------
// Word shapes
// ---------------------------------------------------------------------

/// A non-empty run of ASCII digits.
pub open spec fn all_digits(s: Seq<char>) -> bool {
    s.len() > 0 && forall|i: int| 0 <= i < s.len() ==> digit_char(#[trigger] s[i])
}

/// Digits with an optional fraction introduced by a single dot: the
/// unsigned part of the signed-decimal shape.
pub open spec fn number_body_shape(body: Seq<char>) -> bool {
    all_digits(body) || exists|j: int|
        0 < j < body.len() && body[j] == '.' && all_digits(#[trigger] body.take(j))
            && all_digits(body.skip(j + 1))
}

/// The signed-decimal shape: an optional leading minus, digits, and an
/// optional fraction introduced by a single dot.
pub open spec fn is_number_shape(s: Seq<char>) -> bool {
    s.len() > 0 && number_body_shape(
        if s[0] == '-' {
            s.drop_first()
        } else {
            s
        },
    )
}

/// The conventional identifier shape: a letter or underscore, then
/// letters, digits and underscores.
pub open spec fn is_ident_shape(s: Seq<char>) -> bool {
    s.len() > 0 && ident_start_char(s[0]) && forall|i: int|
        1 <= i < s.len() ==> ident_char(#[trigger] s[i])
}

// ---------------------------------------------------------------------
// The fixed spelling table
// ---------------------------------------------------------------------

/// Dedicated token for a one-character word, if its spelling is in the
/// fixed operator table.
pub open spec fn spelling1(c: char) -> Option<SpecToken> {
    if c == '+' {
        Some(SpecToken::Add)
    } else if c == '-' {
        Some(SpecToken::Sub)
    } else if c == '*' {
        Some(SpecToken::Mul)
    } else if c == '/' {
        Some(SpecToken::Div)
    } else if c == '%' {
        Some(SpecToken::Mod)
    } else if c == '=' {
        Some(SpecToken::Equals)
    } else if c == '|' {
        Some(SpecToken::Pipe)
    } else if c == '>' {
        Some(SpecToken::GreaterThan)
    } else if c == '<' {
        Some(SpecToken::LessThan)
    } else {
        None
    }
}

/// Dedicated token for a two-character word, if its spelling is in the
/// fixed operator and keyword table.
pub open spec fn spelling2(c0: char, c1: char) -> Option<SpecToken> {
    if c0 == '|' && c1 == '|' {
        Some(SpecToken::OrElse)
    } else if c0 == '&' && c1 == '&' {
        Some(SpecToken::AndThen)
    } else if c0 == '>' && c1 == '=' {
        Some(SpecToken::GreaterThanEqual)
    } else if c0 == '<' && c1 == '=' {
        Some(SpecToken::LessThanEqual)
    } else if c0 == '=' && c1 == '=' {
        Some(SpecToken::EqualTo)
    } else if c0 == '!' && c1 == '=' {
        Some(SpecToken::NotEqualTo)
    } else if c0 == '<' && c1 == '-' {
        Some(SpecToken::RedirectIn)
    } else if c0 == '-' && c1 == '>' {
        Some(SpecToken::RedirectOut)
    } else if c0 == '>' && c1 == '>' {
        Some(SpecToken::RedirectOutAppend)
    } else if c0 == 'o' && c1 == 'r' {
        Some(SpecToken::Or)
    } else if c0 == 'i' && c1 == 'f' {
        Some(SpecToken::If)
    } else {
        None
    }
}

/// Dedicated token for a three-character word, if its spelling is in the
/// fixed keyword table.
pub open spec fn spelling3(c0: char, c1: char, c2: char) -> Option<SpecToken> {
    if c0 == 'n' && c1 == 'o' && c2 == 't' {
        Some(SpecToken::Not)
    } else if c0 == 'a' && c1 == 'n' && c2 == 'd' {
        Some(SpecToken::And)
    } else if c0 == 'f' && c1 == 'o' && c2 == 'r' {
        Some(SpecToken::For)
    } else {
        None
    }
}

/// The fixed table of operator and keyword spellings: the dedicated
/// token of a word, or nothing when the word is not in the table.
pub open spec fn spelling_of(s: Seq<char>) -> Option<SpecToken> {
    if s.len() == 1 {
        spelling1(s[0])
    } else if s.len() == 2 {
        spelling2(s[0], s[1])
    } else if s.len() == 3 {
        spelling3(s[0], s[1], s[2])
    } else if s.len() == 4 && s[0] == 't' && s[1] == 'r' && s[2] == 'u' && s[3] == 'e' {
        Some(SpecToken::Bool(true))
    } else if s.len() == 5 && s[0] == 'w' && s[1] == 'h' && s[2] == 'i' && s[3] == 'l' && s[4]
        == 'e' {
        Some(SpecToken::While)
    } else if s.len() == 5 && s[0] == 'f' && s[1] == 'a' && s[2] == 'l' && s[3] == 's' && s[4]
        == 'e' {
        Some(SpecToken::Bool(false))
    } else if s.len() == 8 && s[0] == 'f' && s[1] == 'u' && s[2] == 'n' && s[3] == 'c' && s[4]
        == 't' && s[5] == 'i' && s[6] == 'o' && s[7] == 'n' {
        Some(SpecToken::Function)
    } else {
        None
    }
}

/// Classification of a maximal word run, in order: the fixed spelling
/// table; a leading single quote, which is stripped and marks a shell
/// word; the signed-decimal number shape; the identifier shape; and
/// otherwise a shell word as it stands.
pub open spec fn spec_classify_word(s: Seq<char>) -> SpecToken {
    match spelling_of(s) {
        Some(t) => t,
        None => if s.len() > 0 && s[0] == '\'' {
            SpecToken::ShellWord(s.drop_first())
        } else if is_number_shape(s) {
            SpecToken::Number(s)
        } else if is_ident_shape(s) {
            SpecToken::Identifier(s)
        } else {
            SpecToken::ShellWord(s)
        },
    }
}

// ---------------------------------------------------------------------
// The scan
// ---------------------------------------------------------------------

/// End of the maximal word run that starts at `i`: the first position at
/// or after `i` holding no word character.
pub open spec fn word_end(s: Seq<char>, i: int) -> int
    decreases s.len() - i,
{
    if i < 0 || i >= s.len() || !word_char(s[i]) {
        i
    } else {
        word_end(s, i + 1)
    }
}

/// The maximal word run lies between its start and the end of the input.
pub proof fn lemma_word_end_bounds(s: Seq<char>, i: int)
    requires
        0 <= i <= s.len(),
    ensures
        i <= word_end(s, i) <= s.len(),
    decreases s.len() - i,
{
    if i < s.len() && word_char(s[i]) {
        lemma_word_end_bounds(s, i + 1);
    }
}

/// End of a string literal's contents that start at `i`: the position of
/// the closing double quote, or the end of the input when the literal is
/// unterminated.
pub open spec fn str_end(s: Seq<char>, i: int) -> int
    decreases s.len() - i,
{
    if i < 0 || i >= s.len() || s[i] == '"' {
        i
    } else {
        str_end(s, i + 1)
    }
}

/// The contents of a string literal lie between its start and the end of
/// the input.
pub proof fn lemma_str_end_bounds(s: Seq<char>, i: int)
    requires
        0 <= i <= s.len(),
    ensures
        i <= str_end(s, i) <= s.len(),
    decreases s.len() - i,
{
    if i < s.len() && s[i] != '"' {
        lemma_str_end_bounds(s, i + 1);
    }
}

/// Prepends a token to a scan result that may have failed.
pub open spec fn cons_tok(
    t: SpecToken,
    r: Result<Seq<SpecToken>, SpecLexError>,
) -> Result<Seq<SpecToken>, SpecLexError> {
    match r {
        Ok(ts) => Ok(seq![t] + ts),
        Err(e) => Err(e),
    }
}

/// The tokens of `s` from position `i` onward: one left-to-right scan.
///
/// Structural singletons and the newline each yield their dedicated
/// token; space and tab are discarded; a double quote opens a string
/// literal read verbatim to the closing quote or the end of the input;
/// a word character opens a maximal word run, classified by
/// [`spec_classify_word`]; any other character is a failure naming that
/// character.  The scan always ends with a single `Eof` token.
pub open spec fn spec_tokenize_from(s: Seq<char>, i: int) -> Result<Seq<SpecToken>, SpecLexError>
    decreases s.len() - i,
{
    if i < 0 || i >= s.len() {
        Ok(seq![SpecToken::Eof])
    } else {
        let c = s[i];
        if c == '(' {
            cons_tok(SpecToken::OpenParen, spec_tokenize_from(s, i + 1))
        } else if c == ')' {
            cons_tok(SpecToken::CloseParen, spec_tokenize_from(s, i + 1))
        } else if c == '[' {
            cons_tok(SpecToken::OpenBracket, spec_tokenize_from(s, i + 1))
        } else if c == ']' {
            cons_tok(SpecToken::CloseBracket, spec_tokenize_from(s, i + 1))
        } else if c == '{' {
            cons_tok(SpecToken::OpenBrace, spec_tokenize_from(s, i + 1))
        } else if c == '}' {
            cons_tok(SpecToken::CloseBrace, spec_tokenize_from(s, i + 1))
        } else if c == ',' {
            cons_tok(SpecToken::Comma, spec_tokenize_from(s, i + 1))
        } else if c == '!' {
            cons_tok(SpecToken::Not, spec_tokenize_from(s, i + 1))
        } else if c == ' ' || c == '\t' {
            spec_tokenize_from(s, i + 1)
        } else if c == '\n' {
            cons_tok(SpecToken::Newline, spec_tokenize_from(s, i + 1))
        } else if c == '"' {
            let j = str_end(s, i + 1);
            proof {
                lemma_str_end_bounds(s, i + 1);
            }
            cons_tok(
                SpecToken::Str(s.subrange(i + 1, j)),
                spec_tokenize_from(
                    s,
                    if j < s.len() {
                        j + 1
                    } else {
                        j
                    },
                ),
            )
        } else if word_char(c) {
            let j = word_end(s, i);
            proof {
                lemma_word_end_bounds(s, i + 1);
            }
            cons_tok(spec_classify_word(s.subrange(i, j)), spec_tokenize_from(s, j))
        } else {
            Err(SpecLexError { ch: c, pos: i })
        }
    }
}

/// The tokens of a whole input, or the first unrecognized character.
pub open spec fn spec_tokenize(s: Seq<char>) -> Result<Seq<SpecToken>, SpecLexError> {
    spec_tokenize_from(s, 0)
}

} // verus!

verus! {

// ---------------------------------------------------------------------
// Executable character tests
// ---------------------------------------------------------------------

/// Whether `c` may stand inside a word run.
fn is_word_char_ch(c: char) -> (r: bool)
    ensures
        r == word_char(c),
{
    c == '_' || c == '\'' || c == '+' || c == '-' || c == '*' || c == '/' || c == '%' || c == '='
        || c == '<' || c == '>' || c == '&' || c == '|' || c == '!' || c == '.'
        || char_alphanumeric(c)
}

/// Whether `c` is an ASCII decimal digit.
fn is_digit_ch(c: char) -> (r: bool)
    ensures
        r == digit_char(c),
{
    '0' <= c && c <= '9'
}

/// Whether `c` may open an identifier.
fn is_ident_start_ch(c: char) -> (r: bool)
    ensures
        r == ident_start_char(c),
{
    ('a' <= c && c <= 'z') || ('A' <= c && c <= 'Z') || c == '_'
}

/// Whether `c` may continue an identifier.
fn is_ident_ch(c: char) -> (r: bool)
    ensures
        r == ident_char(c),
{
    is_ident_start_ch(c) || is_digit_ch(c)
}

// ---------------------------------------------------------------------
// Executable word shape tests
// ---------------------------------------------------------------------

/// Whether the word has the signed-decimal shape.
fn word_is_number(w: &str) -> (r: bool)
    ensures
        r == is_number_shape(w@),
{
    let ghost s = w@;
    let n = w.unicode_len();
    if n == 0 {
        return false;
    }
    let start: usize = if w.get_char(0) == '-' {
        1
    } else {
        0
    };
    let ghost body = if s[0] == '-' {
        s.drop_first()
    } else {
        s
    };
    let mut k: usize = start;
    while k < n && is_digit_ch(w.get_char(k))
        invariant
            start <= k <= n,
            n == s.len(),
            s == w@,
            n > 0,
            start <= 1,
            (start == 1) == (s[0] == '-'),
            body == (if s[0] == '-' {
                s.drop_first()
            } else {
                s
            }),
            forall|t: int| start <= t < k ==> digit_char(#[trigger] s[t]),
        decreases n - k,
    {
        k += 1;
    }
    proof {
        assert(body.len() == n - start);
        assert(forall|t: int| 0 <= t < body.len() ==> #[trigger] body[t] == s[t + start]);
    }
    if k == start {
        // no integer digits at all
        proof {
            assert(!is_number_shape(s)) by {
                if body.len() > 0 {
                    assert(body[0] == s[start as int]);
                    assert(!digit_char(body[0]));
                    assert(!all_digits(body));
                    assert forall|j: int| 0 < j < body.len() && body[j] == '.' implies !(
                    all_digits(#[trigger] body.take(j)) && all_digits(body.skip(j + 1))) by {
                        assert(body.take(j)[0] == body[0]);
                    }
                }
            }
        }
        return false;
    }
    if k == n {
        // digits to the end
        proof {
            assert(all_digits(body)) by {
                assert(forall|t: int| 0 <= t < body.len() ==> digit_char(#[trigger] body[t]));
            }
        }
        return true;
    }
    let ghost p = k - start;
    if w.get_char(k) != '.' {
        // the run of digits stops at a character that opens no fraction
        proof {
            assert(!is_number_shape(s)) by {
                assert(body[p] == s[k as int]);
                assert(!digit_char(body[p]));
                assert(!all_digits(body));
                assert forall|j: int| 0 < j < body.len() && body[j] == '.' implies !(all_digits(
                    #[trigger] body.take(j),
                ) && all_digits(body.skip(j + 1))) by {
                    if j < p {
                        assert(digit_char(body[j]));
                        assert(false);
                    } else if j == p {
                        assert(false);
                    } else {
                        assert(body.take(j)[p] == body[p]);
                    }
                }
            }
        }
        return false;
    }
    let fs = k + 1;
    let mut m: usize = fs;
    while m < n && is_digit_ch(w.get_char(m))
        invariant
            fs <= m <= n,
            n == s.len(),
            s == w@,
            forall|t: int| fs <= t < m ==> digit_char(#[trigger] s[t]),
        decreases n - m,
    {
        m += 1;
    }
    if m == n && m > fs {
        // digits, a dot, then digits to the end
        proof {
            assert(body[p] == '.');
            assert(0 < p < body.len());
            assert(all_digits(body.take(p))) by {
                assert(forall|t: int|
                    0 <= t < p ==> #[trigger] body.take(p)[t] == s[t + start]);
            }
            assert(all_digits(body.skip(p + 1))) by {
                assert(body.skip(p + 1).len() == n - fs);
                assert(forall|t: int|
                    0 <= t < body.skip(p + 1).len() ==> #[trigger] body.skip(p + 1)[t] == s[t
                        + fs]);
            }
            assert(number_body_shape(body)) by {
                assert(0 < p < body.len() && body[p] == '.' && all_digits(body.take(p))
                    && all_digits(body.skip(p + 1)));
            }
            assert(is_number_shape(s));
        }
        true
    } else {
        // the fraction is empty or stops before the end
        proof {
            assert(!is_number_shape(s)) by {
                assert(body[p] == '.');
                assert(!digit_char('.'));
                assert(!all_digits(body));
                assert forall|j: int| 0 < j < body.len() && body[j] == '.' implies !(all_digits(
                    #[trigger] body.take(j),
                ) && all_digits(body.skip(j + 1))) by {
                    if j < p {
                        assert(digit_char(body[j]));
                        assert(false);
                    } else if j == p {
                        if body.len() == p + 1 {
                            assert(body.skip(p + 1).len() == 0);
                        } else if m == fs {
                            assert(body.skip(p + 1)[0] == s[fs as int]);
                            assert(!digit_char(s[fs as int]));
                        } else {
                            assert(body.skip(p + 1)[m - fs] == s[m as int]);
                            assert(!digit_char(s[m as int]));
                        }
                    } else {
                        assert(body.take(j)[p] == body[p]);
                    }
                }
            }
        }
        false
    }
}

/// Whether the word has the identifier shape.
fn word_is_ident(w: &str) -> (r: bool)
    ensures
        r == is_ident_shape(w@),
{
    let ghost s = w@;
    let n = w.unicode_len();
    if n == 0 {
        return false;
    }
    if !is_ident_start_ch(w.get_char(0)) {
        return false;
    }
    let mut k: usize = 1;
    while k < n && is_ident_ch(w.get_char(k))
        invariant
            1 <= k <= n,
            n == s.len(),
            s == w@,
            forall|t: int| 1 <= t < k ==> ident_char(#[trigger] s[t]),
        decreases n - k,
    {
        k += 1;
    }
    if k == n {
        true
    } else {
        assert(!ident_char(s[k as int]));
        false
    }
}

} // verus!

verus! {

/// Looks a word up in the fixed operator and keyword table.
fn spelling_lookup(w: &str) -> (t: Option<Token>)
    ensures
        match t {
            Some(tok) => spelling_of(w@) == Some(tok@),
            None => spelling_of(w@) is None,
        },
{
    let n = w.unicode_len();
    if n == 1 {
        let c = w.get_char(0);
        if c == '+' {
            Some(Token::Add)
        } else if c == '-' {
            Some(Token::Sub)
        } else if c == '*' {
            Some(Token::Mul)
        } else if c == '/' {
            Some(Token::Div)
        } else if c == '%' {
            Some(Token::Mod)
        } else if c == '=' {
            Some(Token::Equals)
        } else if c == '|' {
            Some(Token::Pipe)
        } else if c == '>' {
            Some(Token::GreaterThan)
        } else if c == '<' {
            Some(Token::LessThan)
        } else {
            None
        }
    } else if n == 2 {
        let c0 = w.get_char(0);
        let c1 = w.get_char(1);
        if c0 == '|' && c1 == '|' {
            Some(Token::OrElse)
        } else if c0 == '&' && c1 == '&' {
            Some(Token::AndThen)
        } else if c0 == '>' && c1 == '=' {
            Some(Token::GreaterThanEqual)
        } else if c0 == '<' && c1 == '=' {
            Some(Token::LessThanEqual)
        } else if c0 == '=' && c1 == '=' {
            Some(Token::EqualTo)
        } else if c0 == '!' && c1 == '=' {
            Some(Token::NotEqualTo)
        } else if c0 == '<' && c1 == '-' {
            Some(Token::RedirectIn)
        } else if c0 == '-' && c1 == '>' {
            Some(Token::RedirectOut)
        } else if c0 == '>' && c1 == '>' {
            Some(Token::RedirectOutAppend)
        } else if c0 == 'o' && c1 == 'r' {
            Some(Token::Or)
        } else if c0 == 'i' && c1 == 'f' {
            Some(Token::If)
        } else {
            None
        }
    } else if n == 3 {
        let c0 = w.get_char(0);
        let c1 = w.get_char(1);
        let c2 = w.get_char(2);
        if c0 == 'n' && c1 == 'o' && c2 == 't' {
            Some(Token::Not)
        } else if c0 == 'a' && c1 == 'n' && c2 == 'd' {
            Some(Token::And)
        } else if c0 == 'f' && c1 == 'o' && c2 == 'r' {
            Some(Token::For)
        } else {
            None
        }
    } else if n == 4 {
        if w.get_char(0) == 't' && w.get_char(1) == 'r' && w.get_char(2) == 'u' && w.get_char(3)
            == 'e' {
            Some(Token::Bool(Bool::True))
        } else {
            None
        }
    } else if n == 5 {
        let c0 = w.get_char(0);
        if c0 == 'w' && w.get_char(1) == 'h' && w.get_char(2) == 'i' && w.get_char(3) == 'l'
            && w.get_char(4) == 'e' {
            Some(Token::While)
        } else if c0 == 'f' && w.get_char(1) == 'a' && w.get_char(2) == 'l' && w.get_char(3) == 's'
            && w.get_char(4) == 'e' {
            Some(Token::Bool(Bool::False))
        } else {
            None
        }
    } else if n == 8 {
        if w.get_char(0) == 'f' && w.get_char(1) == 'u' && w.get_char(2) == 'n' && w.get_char(3)
            == 'c' && w.get_char(4) == 't' && w.get_char(5) == 'i' && w.get_char(6) == 'o'
            && w.get_char(7) == 'n' {
            Some(Token::Function)
        } else {
            None
        }
    } else {
        None
    }
}

/// Classifies one maximal word run, as [`spec_classify_word`] says.
fn classify_word(w: &str) -> (t: Token)
    requires
        w@.len() > 0,
    ensures
        t@ == spec_classify_word(w@),
{
    match spelling_lookup(w) {
        Some(t) => t,
        None => {
            if w.get_char(0) == '\'' {
                let rest = w.substring_char(1, w.unicode_len());
                proof {
                    assert(rest@ =~= w@.drop_first());
                }
                Token::ShellWord(rest.to_owned())
            } else if word_is_number(w) {
                Token::Number(w.to_owned())
            } else if word_is_ident(w) {
                Token::Identifier(w.to_owned())
            } else {
                Token::ShellWord(w.to_owned())
            }
        },
    }
}

// ---------------------------------------------------------------------
// The lexer
// ---------------------------------------------------------------------

/// Prepends an already-produced prefix of tokens to the outcome of the
/// remaining scan.
pub open spec fn lex_cont(
    pre: Seq<SpecToken>,
    r: Result<Seq<SpecToken>, SpecLexError>,
) -> Result<Seq<SpecToken>, SpecLexError> {
    match r {
        Ok(ts) => Ok(pre + ts),
        Err(e) => Err(e),
    }
}

/// Emitting one token moves it from the step to the prefix.
proof fn lemma_lex_step(pre: Seq<SpecToken>, t: SpecToken, r: Result<Seq<SpecToken>, SpecLexError>)
    ensures
        lex_cont(pre, cons_tok(t, r)) == lex_cont(pre.push(t), r),
{
    match r {
        Ok(ts) => {
            assert(pre + (seq![t] + ts) =~= pre.push(t) + ts);
        },
        Err(_) => {},
    }
}

/// Pushing a token pushes its model.
proof fn lemma_toks_view_push(ts: Seq<Token>, t: Token)
    ensures
        toks_view(ts.push(t)) == toks_view(ts).push(t@),
{
    assert(toks_view(ts.push(t)) =~= toks_view(ts).push(t@));
}

/// The lexer.  The shapes it recognizes — the operator table, the
/// signed-decimal numbers and the identifiers — are fixed predicates,
/// so the lexer itself carries no state.
pub struct Lexer {}

impl Lexer {
    /// Creates a lexer.
    pub fn new() -> (r: Lexer) {
        Lexer {  }
    }

    /// Turns source text into its token sequence, or reports the first
    /// unrecognized character and its position.  On success the sequence
    /// is exactly the model scan [`spec_tokenize`] of the input, and it
    /// always ends with a single `Eof` token.
    pub fn tokenize(&self, source_code: &str) -> (r: Result<Vec<Token>, LexError>)
        ensures
            match r {
                Ok(v) => spec_tokenize(source_code@) == Ok::<Seq<SpecToken>, SpecLexError>(
                    toks_view(v@),
                ),
                Err(e) => spec_tokenize(source_code@) == Err::<Seq<SpecToken>, SpecLexError>(e@),
            },
            match r {
                Ok(v) => v@.len() >= 1 && v@[v@.len() - 1]@ == SpecToken::Eof,
                Err(_) => true,
            },
    {
        let ghost s = source_code@;
        let n = source_code.unicode_len();
        let mut tokens: Vec<Token> = Vec::new();
        let mut i: usize = 0;
        proof {
            assert(toks_view(tokens@) =~= Seq::<SpecToken>::empty());
            match spec_tokenize_from(s, 0) {
                Ok(ts) => {
                    assert(toks_view(tokens@) + ts =~= ts);
                },
                Err(_) => {},
            }
        }
        while i < n
            invariant
                0 <= i <= n,
                n == s.len(),
                s == source_code@,
                spec_tokenize(s) == lex_cont(toks_view(tokens@), spec_tokenize_from(s, i as int)),
            decreases n - i,
        {
            let ghost toks0 = tokens@;
            let ghost pre = toks_view(tokens@);
            let ghost i0 = i as int;
            let c = source_code.get_char(i);
            if c == '(' {
                tokens.push(Token::OpenParen);
                i += 1;
                proof {
                    lemma_toks_view_push(toks0, Token::OpenParen);
                    lemma_lex_step(pre, SpecToken::OpenParen, spec_tokenize_from(s, i as int));
                }
            } else if c == ')' {
                tokens.push(Token::CloseParen);
                i += 1;
                proof {
                    lemma_toks_view_push(toks0, Token::CloseParen);
                    lemma_lex_step(pre, SpecToken::CloseParen, spec_tokenize_from(s, i as int));
                }
            } else if c == '[' {
                tokens.push(Token::OpenBracket);
                i += 1;
                proof {
                    lemma_toks_view_push(toks0, Token::OpenBracket);
                    lemma_lex_step(pre, SpecToken::OpenBracket, spec_tokenize_from(s, i as int));
                }
            } else if c == ']' {
                tokens.push(Token::CloseBracket);
                i += 1;
                proof {
                    lemma_toks_view_push(toks0, Token::CloseBracket);
                    lemma_lex_step(pre, SpecToken::CloseBracket, spec_tokenize_from(s, i as int));
                }
            } else if c == '{' {
                tokens.push(Token::OpenBrace);
                i += 1;
                proof {
                    lemma_toks_view_push(toks0, Token::OpenBrace);
                    lemma_lex_step(pre, SpecToken::OpenBrace, spec_tokenize_from(s, i as int));
                }
            } else if c == '}' {
                tokens.push(Token::CloseBrace);
                i += 1;
                proof {
                    lemma_toks_view_push(toks0, Token::CloseBrace);
                    lemma_lex_step(pre, SpecToken::CloseBrace, spec_tokenize_from(s, i as int));
                }
            } else if c == ',' {
                tokens.push(Token::Comma);
                i += 1;
                proof {
                    lemma_toks_view_push(toks0, Token::Comma);
                    lemma_lex_step(pre, SpecToken::Comma, spec_tokenize_from(s, i as int));
                }
            } else if c == '!' {
                tokens.push(Token::Not);
                i += 1;
                proof {
                    lemma_toks_view_push(toks0, Token::Not);
                    lemma_lex_step(pre, SpecToken::Not, spec_tokenize_from(s, i as int));
                }
            } else if c == ' ' || c == '\t' {
                i += 1;
            } else if c == '\n' {
                tokens.push(Token::Newline);
                i += 1;
                proof {
                    lemma_toks_view_push(toks0, Token::Newline);
                    lemma_lex_step(pre, SpecToken::Newline, spec_tokenize_from(s, i as int));
                }
            } else if c == '"' {
                let mut j = i + 1;
                while j < n && source_code.get_char(j) != '"'
                    invariant
                        i + 1 <= j <= n,
                        n == s.len(),
                        s == source_code@,
                        str_end(s, i0 + 1) == str_end(s, j as int),
                    decreases n - j,
                {
                    proof {
                        assert(str_end(s, j as int) == str_end(s, j + 1));
                    }
                    j += 1;
                }
                proof {
                    assert(str_end(s, j as int) == j as int);
                }
                let contents = source_code.substring_char(i + 1, j);
                let t = Token::String(contents.to_owned());
                tokens.push(t);
                i = if j < n {
                    j + 1
                } else {
                    j
                };
                proof {
                    lemma_toks_view_push(toks0, t);
                    lemma_lex_step(pre, t@, spec_tokenize_from(s, i as int));
                }
            } else if is_word_char_ch(c) {
                let mut j = i;
                while j < n && is_word_char_ch(source_code.get_char(j))
                    invariant
                        i <= j <= n,
                        n == s.len(),
                        s == source_code@,
                        word_end(s, i0) == word_end(s, j as int),
                    decreases n - j,
                {
                    proof {
                        assert(word_end(s, j as int) == word_end(s, j + 1));
                    }
                    j += 1;
                }
                proof {
                    assert(word_end(s, j as int) == j as int);
                    assert(word_end(s, i0) == word_end(s, i0 + 1));
                    lemma_word_end_bounds(s, i0 + 1);
                }
                let word = source_code.substring_char(i, j);
                let t = classify_word(word);
                tokens.push(t);
                i = j;
                proof {
                    lemma_toks_view_push(toks0, t);
                    lemma_lex_step(pre, t@, spec_tokenize_from(s, i as int));
                }
            } else {
                let e = LexError { ch: c, pos: i };
                proof {
                    assert(spec_tokenize_from(s, i0) == Err::<Seq<SpecToken>, SpecLexError>(e@));
                }
                return Err(e);
            }
        }
        let ghost toks_fin = tokens@;
        tokens.push(Token::Eof);
        proof {
            lemma_toks_view_push(toks_fin, Token::Eof);
            assert(spec_tokenize_from(s, n as int) == Ok::<Seq<SpecToken>, SpecLexError>(
                seq![SpecToken::Eof],
            ));
            assert(toks_view(toks_fin) + seq![SpecToken::Eof] =~= toks_view(toks_fin).push(
                SpecToken::Eof,
            ));
        }
        Ok(tokens)
    }
}

} // verus!
