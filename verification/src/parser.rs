//! The parser: precedence climbing over the token sequence, with a
//! fixed total order of binding strengths, one prefix form and one
//! infix form per token, and a lookahead/lookbehind rule that decides
//! whether a leading word opens a shell-style command call.  The whole
//! grammar is specified by the recursive model functions below, and
//! `Parser::produce_ast` is proved to return exactly the model's tree.

use vstd::prelude::*;

use crate::ast::{Ast, BinaryOp, Expr, SpecExpr, UnaryOp, lemma_view_exprs_cons, lemma_view_exprs_nil, view_expr, view_exprs};
use crate::lexer::{Bool, SpecToken, Token, toks_view};
use crate::values::{SpecValue, Value};

verus! {

// ---------------------------------------------------------------------
// Precedence
// ---------------------------------------------------------------------

/// Binding strength of the infix and postfix forms, loosest to tightest.
/// Shell chaining binds loosest so that it combines whole statements;
/// assignment binds looser than pipes and redirects so that `x = a | b`
/// assigns the pipeline; bare command arguments bind tighter than the
/// redirects but looser than the keyword boolean operators and all the
/// algebraic operators.
#[derive(Debug, Clone, Copy, PartialEq, Eq, PartialOrd, Ord)]
pub enum Precedence {
    Lowest,
    OrElse,
    AndThen,
    Assignment,
    Pipe,
    Redirect,
    CommandArg,
    Or,
    And,
    Equality,
    Comparison,
    Term,
    Factor,
    Unary,
    CallOrIndex,
    Primary,
}

/// Numeric position of a precedence level in the total order.
pub open spec fn prec_rank(p: Precedence) -> int {
    match p {
        Precedence::Lowest => 0,
        Precedence::OrElse => 1,
        Precedence::AndThen => 2,
        Precedence::Assignment => 3,
        Precedence::Pipe => 4,
        Precedence::Redirect => 5,
        Precedence::CommandArg => 6,
        Precedence::Or => 7,
        Precedence::And => 8,
        Precedence::Equality => 9,
        Precedence::Comparison => 10,
        Precedence::Term => 11,
        Precedence::Factor => 12,
        Precedence::Unary => 13,
        Precedence::CallOrIndex => 14,
        Precedence::Primary => 15,
    }
}

impl Precedence {
    /// The next tighter level; `Primary` is already the tightest.
    pub open spec fn spec_next_higher(self) -> Precedence {
        match self {
            Precedence::Lowest => Precedence::OrElse,
            Precedence::OrElse => Precedence::AndThen,
            Precedence::AndThen => Precedence::Assignment,
            Precedence::Assignment => Precedence::Pipe,
            Precedence::Pipe => Precedence::Redirect,
            Precedence::Redirect => Precedence::CommandArg,
            Precedence::CommandArg => Precedence::Or,
            Precedence::Or => Precedence::And,
            Precedence::And => Precedence::Equality,
            Precedence::Equality => Precedence::Comparison,
            Precedence::Comparison => Precedence::Term,
            Precedence::Term => Precedence::Factor,
            Precedence::Factor => Precedence::Unary,
            Precedence::Unary => Precedence::CallOrIndex,
            Precedence::CallOrIndex => Precedence::Primary,
            Precedence::Primary => Precedence::Primary,
        }
    }

    /// Steps a level to the next tighter one.  Used to parse the right
    /// operand of a binary operator one level tighter than the operator
    /// itself, which makes every operator chain left-associative.
    pub fn next_higher(self) -> (r: Precedence)
        ensures
            r == self.spec_next_higher(),
            prec_rank(r) == if self is Primary {
                15int
            } else {
                prec_rank(self) + 1
            },
    {
        match self {
            Precedence::Lowest => Precedence::OrElse,
            Precedence::OrElse => Precedence::AndThen,
            Precedence::AndThen => Precedence::Assignment,
            Precedence::Assignment => Precedence::Pipe,
            Precedence::Pipe => Precedence::Redirect,
            Precedence::Redirect => Precedence::CommandArg,
            Precedence::CommandArg => Precedence::Or,
            Precedence::Or => Precedence::And,
            Precedence::And => Precedence::Equality,
            Precedence::Equality => Precedence::Comparison,
            Precedence::Comparison => Precedence::Term,
            Precedence::Term => Precedence::Factor,
            Precedence::Factor => Precedence::Unary,
            Precedence::Unary => Precedence::CallOrIndex,
            Precedence::CallOrIndex => Precedence::Primary,
            Precedence::Primary => Precedence::Primary,
        }
    }

    /// The rank of this level, for executable comparisons.
    fn rank(self) -> (r: u8)
        ensures
            r as int == prec_rank(self),
    {
        match self {
            Precedence::Lowest => 0,
            Precedence::OrElse => 1,
            Precedence::AndThen => 2,
            Precedence::Assignment => 3,
            Precedence::Pipe => 4,
            Precedence::Redirect => 5,
            Precedence::CommandArg => 6,
            Precedence::Or => 7,
            Precedence::And => 8,
            Precedence::Equality => 9,
            Precedence::Comparison => 10,
            Precedence::Term => 11,
            Precedence::Factor => 12,
            Precedence::Unary => 13,
            Precedence::CallOrIndex => 14,
            Precedence::Primary => 15,
        }
    }
}

// ---------------------------------------------------------------------
// Errors
// ---------------------------------------------------------------------

/// Failure of one parse call.  Every failure is terminal for the call:
/// the parser performs no recovery and returns no partial tree.
#[derive(Debug, PartialEq)]
pub enum ParseError {
    /// A token that opens no expression stood where a prefix form was
    /// needed; also reported for the keyword forms whose grammar is
    /// deliberately unimplemented.
    UnexpectedPrefix { found: Token, at: usize },
    /// A token that continues no expression stood after a complete left
    /// operand.
    UnexpectedInfix { found: Token, at: usize },
    /// A closing delimiter was missing where one was required.
    MissingDelimiter { expected: Token, found: Token, at: usize },
    /// The left side of `=` was not a plain identifier.
    InvalidAssignmentTarget { at: usize },
    /// A call argument list held a token other than `,` or `)` after an
    /// argument.
    MalformedArgumentList { found: Token, at: usize },
}

/// Mathematical model of a [`ParseError`].
pub ghost enum SpecParseError {
    UnexpectedPrefix { found: SpecToken, at: int },
    UnexpectedInfix { found: SpecToken, at: int },
    MissingDelimiter { expected: SpecToken, found: SpecToken, at: int },
    InvalidAssignmentTarget { at: int },
    MalformedArgumentList { found: SpecToken, at: int },
}

impl View for ParseError {
    type V = SpecParseError;

    open spec fn view(&self) -> SpecParseError {
        match self {
            ParseError::UnexpectedPrefix { found, at } => SpecParseError::UnexpectedPrefix {
                found: found@,
                at: *at as int,
            },
            ParseError::UnexpectedInfix { found, at } => SpecParseError::UnexpectedInfix {
                found: found@,
                at: *at as int,
            },
            ParseError::MissingDelimiter { expected, found, at } => SpecParseError::MissingDelimiter {
                expected: expected@,
                found: found@,
                at: *at as int,
            },
            ParseError::InvalidAssignmentTarget { at } => SpecParseError::InvalidAssignmentTarget {
                at: *at as int,
            },
            ParseError::MalformedArgumentList { found, at } => SpecParseError::MalformedArgumentList {
                found: found@,
                at: *at as int,
            },
        }
    }
}

// ---------------------------------------------------------------------
// Token classes of the grammar
// ---------------------------------------------------------------------

/// A literal-class token: one that can stand alone as a value or as a
/// bare command argument.
pub open spec fn is_literal_tok(t: SpecToken) -> bool {
    t is Number || t is Bool || t is Str || t is Identifier || t is ShellWord
}

/// A shell-chaining operator.
pub open spec fn is_shell_op_tok(t: SpecToken) -> bool {
    t is AndThen || t is OrElse || t is Pipe || t is RedirectIn || t is RedirectOut
        || t is RedirectOutAppend
}

/// A keyword token.
pub open spec fn is_keyword_tok(t: SpecToken) -> bool {
    t is If || t is While || t is Function || t is For
}

/// An opening grouper.
pub open spec fn is_open_grouper_tok(t: SpecToken) -> bool {
    t is OpenParen || t is OpenBrace || t is OpenBracket
}

/// Whether a word standing right after `t` may open a command call:
/// `t` separates statements, chains commands, opens a group, or is a
/// keyword or comma.
pub open spec fn starts_command_after(t: SpecToken) -> bool {
    t is Newline || is_shell_op_tok(t) || is_keyword_tok(t) || is_open_grouper_tok(t) || t is Comma
}

/// Binding strength of a token when it stands in infix position.
/// Literal-class tokens carry the bare-argument level; tokens that
/// continue no expression carry the loosest level.
pub open spec fn tok_prec(t: SpecToken) -> Precedence {
    match t {
        SpecToken::OrElse => Precedence::OrElse,
        SpecToken::AndThen => Precedence::AndThen,
        SpecToken::Equals => Precedence::Assignment,
        SpecToken::Pipe => Precedence::Pipe,
        SpecToken::RedirectIn => Precedence::Redirect,
        SpecToken::RedirectOut => Precedence::Redirect,
        SpecToken::RedirectOutAppend => Precedence::Redirect,
        SpecToken::Number(_) => Precedence::CommandArg,
        SpecToken::Bool(_) => Precedence::CommandArg,
        SpecToken::Str(_) => Precedence::CommandArg,
        SpecToken::Identifier(_) => Precedence::CommandArg,
        SpecToken::ShellWord(_) => Precedence::CommandArg,
        SpecToken::Or => Precedence::Or,
        SpecToken::And => Precedence::And,
        SpecToken::EqualTo => Precedence::Equality,
        SpecToken::NotEqualTo => Precedence::Equality,
        SpecToken::GreaterThan => Precedence::Comparison,
        SpecToken::GreaterThanEqual => Precedence::Comparison,
        SpecToken::LessThan => Precedence::Comparison,
        SpecToken::LessThanEqual => Precedence::Comparison,
        SpecToken::Add => Precedence::Term,
        SpecToken::Sub => Precedence::Term,
        SpecToken::Mul => Precedence::Factor,
        SpecToken::Div => Precedence::Factor,
        SpecToken::Mod => Precedence::Factor,
        SpecToken::OpenParen => Precedence::CallOrIndex,
        SpecToken::OpenBracket => Precedence::CallOrIndex,
        _ => Precedence::Lowest,
    }
}

/// A token sequence as the parser assumes it from the lexer: non-empty
/// and ending with `Eof`.
pub open spec fn wf_tokens(ts: Seq<SpecToken>) -> bool {
    ts.len() >= 1 && ts[ts.len() - 1] is Eof
}

// ---------------------------------------------------------------------
// The model parser
// ---------------------------------------------------------------------
//
// One spec function per parsing form, each returning the parsed tree
// and the position after it, or the first failure.  Positions that a
// run reached from a well-formed token sequence can never leave the
// sequence — the `Eof` sentinel stops every loop first — so the
// out-of-range arms below only keep the functions total.

/// Prefix form at `pos`: a literal, a possibly command-opening word, a
/// parenthesized expression, a block, or unary negation.
pub open spec fn sp_nud(ts: Seq<SpecToken>, pos: int) -> Result<(SpecExpr, int), SpecParseError>
    decreases ts.len() - pos, 2int,
{
    if pos < 0 || pos >= ts.len() {
        Err(SpecParseError::UnexpectedPrefix { found: SpecToken::Eof, at: pos })
    } else {
        match ts[pos] {
            SpecToken::Number(x) => Ok((SpecExpr::Literal(SpecValue::Number(x)), pos + 1)),
            SpecToken::Str(x) => Ok((SpecExpr::Literal(SpecValue::Str(x)), pos + 1)),
            SpecToken::Bool(b) => Ok((SpecExpr::Literal(SpecValue::Boolean(b)), pos + 1)),
            SpecToken::Identifier(x) => sp_name(ts, pos, SpecExpr::Identifier(x)),
            SpecToken::ShellWord(x) => sp_name(ts, pos, SpecExpr::ShellWord(x)),
            SpecToken::OpenParen => match sp_parse_expr(ts, pos + 1, Precedence::Lowest) {
                Ok((e, p1)) => if 0 <= p1 < ts.len() {
                    if ts[p1] is CloseParen {
                        Ok((e, p1 + 1))
                    } else {
                        Err(SpecParseError::MissingDelimiter {
                            expected: SpecToken::CloseParen,
                            found: ts[p1],
                            at: p1,
                        })
                    }
                } else {
                    Err(SpecParseError::MissingDelimiter {
                        expected: SpecToken::CloseParen,
                        found: SpecToken::Eof,
                        at: p1,
                    })
                },
                Err(e) => Err(e),
            },
            SpecToken::OpenBrace => {
                let p1 = if pos + 1 < ts.len() && ts[pos + 1] is Newline {
                    pos + 2
                } else {
                    pos + 1
                };
                match sp_block_items(ts, p1) {
                    Ok((items, p2)) => Ok((SpecExpr::Block(items), p2)),
                    Err(e) => Err(e),
                }
            },
            SpecToken::Not => match sp_parse_expr(ts, pos + 1, Precedence::Unary) {
                Ok((e, p1)) => Ok(
                    (SpecExpr::UnaryOp { op: UnaryOp::Not, expr: Box::new(e) }, p1),
                ),
                Err(e) => Err(e),
            },
            _ => Err(SpecParseError::UnexpectedPrefix { found: ts[pos], at: pos }),
        }
    }
}

/// A word in prefix position: a command call when the next token is
/// literal-class and the previous token (if any) separates statements,
/// chains commands, opens a group, or is a keyword or comma; otherwise
/// a plain value reference.  The lookahead only counts when a further
/// token follows it.
pub open spec fn sp_name(ts: Seq<SpecToken>, pos: int, word: SpecExpr) -> Result<
    (SpecExpr, int),
    SpecParseError,
>
    decreases ts.len() - pos, 1int,
{
    let next_is_lit = pos + 2 < ts.len() && is_literal_tok(ts[pos + 1]);
    let prev_ok = pos <= 0 || starts_command_after(ts[pos - 1]);
    if next_is_lit && prev_ok {
        match sp_collect_args(ts, pos + 1, Precedence::CommandArg) {
            Ok((args, p2)) => Ok(
                (SpecExpr::CommandCall { command: Box::new(word), args }, p2),
            ),
            Err(e) => Err(e),
        }
    } else {
        Ok((word, pos + 1))
    }
}

/// Greedy collection of bare command arguments: literal-class tokens,
/// each parsed at the given level, until the next token's own level
/// drops below it.
pub open spec fn sp_collect_args(ts: Seq<SpecToken>, pos: int, prec: Precedence) -> Result<
    (Seq<SpecExpr>, int),
    SpecParseError,
>
    decreases ts.len() - pos, 4int,
{
    if pos < 0 || pos >= ts.len() || !is_literal_tok(ts[pos]) {
        Ok((Seq::empty(), pos))
    } else if prec_rank(tok_prec(ts[pos])) < prec_rank(prec) {
        Ok((Seq::empty(), pos))
    } else {
        match sp_parse_expr(ts, pos, prec) {
            Ok((e, p2)) => if pos < p2 <= ts.len() {
                match sp_collect_args(ts, p2, prec) {
                    Ok((rest, p3)) => Ok((seq![e] + rest, p3)),
                    Err(er) => Err(er),
                }
            } else {
                Ok((seq![e], p2))
            },
            Err(e) => Err(e),
        }
    }
}

/// Items of a block: expressions at the loosest level, each followed by
/// an optional newline, up to the closing brace (which is consumed).
pub open spec fn sp_block_items(ts: Seq<SpecToken>, pos: int) -> Result<
    (Seq<SpecExpr>, int),
    SpecParseError,
>
    decreases ts.len() - pos, 4int,
{
    if pos < 0 || pos >= ts.len() {
        Err(SpecParseError::UnexpectedPrefix { found: SpecToken::Eof, at: pos })
    } else if ts[pos] is CloseBrace {
        Ok((Seq::empty(), pos + 1))
    } else {
        match sp_parse_expr(ts, pos, Precedence::Lowest) {
            Ok((e, p2)) => {
                let p3 = if 0 <= p2 < ts.len() && ts[p2] is Newline {
                    p2 + 1
                } else {
                    p2
                };
                if pos < p3 <= ts.len() {
                    match sp_block_items(ts, p3) {
                        Ok((rest, p4)) => Ok((seq![e] + rest, p4)),
                        Err(er) => Err(er),
                    }
                } else {
                    Ok((seq![e], p3))
                }
            },
            Err(e) => Err(e),
        }
    }
}

/// The right operand and node of one generic binary operator whose
/// token stands at `pos` with level `prec`.  The right side is parsed
/// at the operator's own level: the strict folding condition already
/// stops an equal operator there, which keeps chains left-associative,
/// while a genuinely tighter operator still binds into the right
/// operand — `Term` then `Factor` gives the usual arithmetic shapes.
pub open spec fn sp_binop(
    ts: Seq<SpecToken>,
    pos: int,
    left: SpecExpr,
    op: BinaryOp,
    prec: Precedence,
) -> Result<(SpecExpr, int), SpecParseError>
    decreases ts.len() - pos, 1int,
{
    if pos < 0 || pos >= ts.len() {
        Err(SpecParseError::UnexpectedInfix { found: SpecToken::Eof, at: pos })
    } else {
        match sp_parse_expr(ts, pos + 1, prec) {
            Ok((right, p2)) => Ok(
                (SpecExpr::BinaryOp { left: Box::new(left), op, right: Box::new(right) }, p2),
            ),
            Err(e) => Err(e),
        }
    }
}

/// Infix or postfix form at `pos` with `left` already parsed: shell
/// chaining, a generic binary operator, assignment, or a parenthesized
/// argument list.
pub open spec fn sp_led(ts: Seq<SpecToken>, pos: int, left: SpecExpr) -> Result<
    (SpecExpr, int),
    SpecParseError,
>
    decreases ts.len() - pos, 2int,
{
    if pos < 0 || pos >= ts.len() {
        Err(SpecParseError::UnexpectedInfix { found: SpecToken::Eof, at: pos })
    } else {
        match ts[pos] {
            SpecToken::AndThen => match sp_parse_expr(
                ts,
                pos + 1,
                Precedence::AndThen.spec_next_higher(),
            ) {
                Ok((right, p2)) => Ok(
                    (SpecExpr::AndThen { left: Box::new(left), right: Box::new(right) }, p2),
                ),
                Err(e) => Err(e),
            },
            SpecToken::OrElse => match sp_parse_expr(
                ts,
                pos + 1,
                Precedence::OrElse.spec_next_higher(),
            ) {
                Ok((right, p2)) => Ok(
                    (SpecExpr::OrElse { left: Box::new(left), right: Box::new(right) }, p2),
                ),
                Err(e) => Err(e),
            },
            SpecToken::Add => sp_binop(ts, pos, left, BinaryOp::Add, Precedence::Term),
            SpecToken::Sub => sp_binop(ts, pos, left, BinaryOp::Sub, Precedence::Term),
            SpecToken::Mul => sp_binop(ts, pos, left, BinaryOp::Mul, Precedence::Factor),
            SpecToken::Div => sp_binop(ts, pos, left, BinaryOp::Div, Precedence::Factor),
            SpecToken::Mod => sp_binop(ts, pos, left, BinaryOp::Mod, Precedence::Factor),
            SpecToken::EqualTo => sp_binop(ts, pos, left, BinaryOp::Eq, Precedence::Equality),
            SpecToken::NotEqualTo => sp_binop(ts, pos, left, BinaryOp::Neq, Precedence::Equality),
            SpecToken::LessThan => sp_binop(ts, pos, left, BinaryOp::Lt, Precedence::Comparison),
            SpecToken::GreaterThan => sp_binop(ts, pos, left, BinaryOp::Gt, Precedence::Comparison),
            SpecToken::LessThanEqual => sp_binop(
                ts,
                pos,
                left,
                BinaryOp::Le,
                Precedence::Comparison,
            ),
            SpecToken::GreaterThanEqual => sp_binop(
                ts,
                pos,
                left,
                BinaryOp::Ge,
                Precedence::Comparison,
            ),
            SpecToken::And => sp_binop(ts, pos, left, BinaryOp::And, Precedence::And),
            SpecToken::Or => sp_binop(ts, pos, left, BinaryOp::Or, Precedence::Or),
            SpecToken::Equals => match left {
                SpecExpr::Identifier(name) => match sp_parse_expr(
                    ts,
                    pos + 1,
                    Precedence::Lowest,
                ) {
                    Ok((value, p2)) => Ok(
                        (SpecExpr::Assign { name, value: Box::new(value) }, p2),
                    ),
                    Err(e) => Err(e),
                },
                _ => Err(SpecParseError::InvalidAssignmentTarget { at: pos }),
            },
            SpecToken::OpenParen => {
                if pos + 1 < ts.len() && ts[pos + 1] is CloseParen {
                    Ok(
                        (
                            SpecExpr::Call { callee: Box::new(left), args: Seq::empty() },
                            pos + 2,
                        ),
                    )
                } else {
                    match sp_call_args(ts, pos + 1) {
                        Ok((args, p2)) => Ok(
                            (SpecExpr::Call { callee: Box::new(left), args }, p2),
                        ),
                        Err(e) => Err(e),
                    }
                }
            },
            _ => Err(SpecParseError::UnexpectedInfix { found: ts[pos], at: pos }),
        }
    }
}

/// Comma-separated call arguments after an opening parenthesis known
/// not to close immediately; the closing parenthesis is consumed.
pub open spec fn sp_call_args(ts: Seq<SpecToken>, pos: int) -> Result<
    (Seq<SpecExpr>, int),
    SpecParseError,
>
    decreases ts.len() - pos, 4int,
{
    match sp_parse_expr(ts, pos, Precedence::Lowest) {
        Ok((e, p2)) => if 0 <= p2 < ts.len() {
            if ts[p2] is Comma {
                if pos < p2 + 1 <= ts.len() {
                    match sp_call_args(ts, p2 + 1) {
                        Ok((rest, p3)) => Ok((seq![e] + rest, p3)),
                        Err(er) => Err(er),
                    }
                } else {
                    Ok((seq![e], p2 + 1))
                }
            } else if ts[p2] is CloseParen {
                Ok((seq![e], p2 + 1))
            } else {
                Err(SpecParseError::MalformedArgumentList { found: ts[p2], at: p2 })
            }
        } else {
            Err(SpecParseError::MalformedArgumentList { found: SpecToken::Eof, at: p2 })
        },
        Err(e) => Err(e),
    }
}

/// Folds infix and postfix forms into `left` while the coming token
/// binds tighter than `prec` — or, as the one special case, while the
/// requested level is `CallOrIndex`, which lets postfix call parsing
/// continue unconditionally.
pub open spec fn sp_led_loop(
    ts: Seq<SpecToken>,
    pos: int,
    prec: Precedence,
    left: SpecExpr,
) -> Result<(SpecExpr, int), SpecParseError>
    decreases ts.len() - pos, 3int,
{
    if pos < 0 || pos >= ts.len() {
        Ok((left, pos))
    } else if prec_rank(prec) < prec_rank(tok_prec(ts[pos])) || prec is CallOrIndex {
        match sp_led(ts, pos, left) {
            Ok((e2, p2)) => if pos < p2 <= ts.len() {
                sp_led_loop(ts, p2, prec, e2)
            } else {
                Ok((e2, p2))
            },
            Err(e) => Err(e),
        }
    } else {
        Ok((left, pos))
    }
}

/// One expression at `pos`, parsed at the given minimal binding level:
/// a prefix form, then every infix form that binds tighter.
pub open spec fn sp_parse_expr(ts: Seq<SpecToken>, pos: int, prec: Precedence) -> Result<
    (SpecExpr, int),
    SpecParseError,
>
    decreases ts.len() - pos, 3int,
{
    match sp_nud(ts, pos) {
        Ok((left, p1)) => if pos < p1 <= ts.len() {
            sp_led_loop(ts, p1, prec, left)
        } else {
            Ok((left, p1))
        },
        Err(e) => Err(e),
    }
}

/// The tree of a whole token sequence: one expression parsed at the
/// loosest level.  Tokens after that expression are not inspected.
pub open spec fn sp_produce_ast(ts: Seq<SpecToken>) -> Result<SpecExpr, SpecParseError> {
    match sp_parse_expr(ts, 0, Precedence::Lowest) {
        Ok((e, _)) => Ok(e),
        Err(e) => Err(e),
    }
}

} // verus!

verus! {

// ---------------------------------------------------------------------
// The parser
// ---------------------------------------------------------------------

/// The parser: the token sequence of the current call and a cursor into
/// it.  Both are reset at the end of every `produce_ast` call, so one
/// parser value can serve any number of inputs in turn.
pub struct Parser {
    tokens: Vec<Token>,
    current: usize,
}

impl Parser {
    /// Model of the retained token sequence.
    spec fn ts(&self) -> Seq<SpecToken> {
        toks_view(self.tokens@)
    }

    /// Mid-parse well-formedness: the retained sequence ends with `Eof`
    /// and the cursor still points at a token.
    spec fn wf(&self) -> bool {
        wf_tokens(self.ts()) && self.current < self.tokens@.len()
    }

    /// The parser holds no tokens and its cursor is at the start, ready
    /// for the next call.
    pub closed spec fn is_reset(&self) -> bool {
        self.tokens@.len() == 0 && self.current == 0
    }

    /// Creates a parser, ready for its first call.
    pub fn new() -> (r: Parser)
        ensures
            r.is_reset(),
    {
        Parser { tokens: Vec::new(), current: 0 }
    }

    /// Whether the current token is literal-class: a bare command
    /// argument candidate.
    fn is_arg(&self) -> (r: bool)
        requires
            self.wf(),
        ensures
            r == is_literal_tok(self.ts()[self.current as int]),
    {
        matches!(
            self.tokens[self.current],
            Token::Number(_)
                | Token::Bool(_)
                | Token::String(_)
                | Token::Identifier(_)
                | Token::ShellWord(_)
        )
    }

    /// Whether the current token is the closing parenthesis.
    fn at_is_close_paren(&self) -> (r: bool)
        requires
            self.wf(),
        ensures
            r == (self.ts()[self.current as int] is CloseParen),
    {
        matches!(self.tokens[self.current], Token::CloseParen)
    }

    /// Whether the current token is the closing brace.
    fn at_is_close_brace(&self) -> (r: bool)
        requires
            self.wf(),
        ensures
            r == (self.ts()[self.current as int] is CloseBrace),
    {
        matches!(self.tokens[self.current], Token::CloseBrace)
    }

    /// Whether the current token is a newline.
    fn at_is_newline(&self) -> (r: bool)
        requires
            self.wf(),
        ensures
            r == (self.ts()[self.current as int] is Newline),
    {
        matches!(self.tokens[self.current], Token::Newline)
    }

    /// Whether the current token is a comma.
    fn at_is_comma(&self) -> (r: bool)
        requires
            self.wf(),
        ensures
            r == (self.ts()[self.current as int] is Comma),
    {
        matches!(self.tokens[self.current], Token::Comma)
    }

    /// A copy of the current token, for an error report.
    fn clone_at(&self) -> (t: Token)
        requires
            self.wf(),
        ensures
            t@ == self.ts()[self.current as int],
    {
        self.tokens[self.current].clone()
    }

    /// Advances the cursor past the current token, which is never the
    /// `Eof` sentinel — so the cursor stays on a token.
    fn eat(&mut self)
        requires
            old(self).wf(),
            !(old(self).ts()[old(self).current as int] is Eof),
        ensures
            final(self).tokens == old(self).tokens,
            final(self).current == old(self).current + 1,
            final(self).wf(),
    {
        let n = self.tokens.len();
        proof {
            assert(old(self).current != n - 1);
        }
        self.current = self.current + 1;
    }

    /// Binding strength of a token in infix position.
    fn get_token_precedence(&self, token: &Token) -> (p: Precedence)
        ensures
            p == tok_prec(token@),
    {
        match token {
            Token::OrElse => Precedence::OrElse,
            Token::AndThen => Precedence::AndThen,
            Token::Equals => Precedence::Assignment,
            Token::Pipe => Precedence::Pipe,
            Token::RedirectIn | Token::RedirectOut | Token::RedirectOutAppend => Precedence::Redirect,
            Token::Number(_)
                | Token::Bool(_)
                | Token::String(_)
                | Token::Identifier(_)
                | Token::ShellWord(_) => Precedence::CommandArg,
            Token::Or => Precedence::Or,
            Token::And => Precedence::And,
            Token::EqualTo | Token::NotEqualTo => Precedence::Equality,
            Token::GreaterThan | Token::GreaterThanEqual | Token::LessThan | Token::LessThanEqual => Precedence::Comparison,
            Token::Add | Token::Sub => Precedence::Term,
            Token::Mul | Token::Div | Token::Mod => Precedence::Factor,
            Token::OpenParen | Token::OpenBracket => Precedence::CallOrIndex,
            _ => Precedence::Lowest,
        }
    }

    /// Binding strength of the current token.
    fn get_precedence(&self) -> (p: Precedence)
        requires
            self.wf(),
        ensures
            p == tok_prec(self.ts()[self.current as int]),
    {
        self.get_token_precedence(&self.tokens[self.current])
    }

    /// One-token lookahead: whether a literal-class token follows the
    /// current one, counting the lookahead only when a further token
    /// follows it.
    fn next_is_literal(&self) -> (r: bool)
        requires
            self.wf(),
        ensures
            r == (self.current + 2 < self.ts().len() && is_literal_tok(
                self.ts()[self.current + 1],
            )),
    {
        let l = self.tokens.len();
        if l >= 3 && self.current < l - 2 {
            matches!(
                self.tokens[self.current + 1],
                Token::Number(_)
                    | Token::Bool(_)
                    | Token::String(_)
                    | Token::Identifier(_)
                    | Token::ShellWord(_)
            )
        } else {
            false
        }
    }

    /// One-token lookbehind: whether the token before the current one —
    /// if any — lets a word open a command call.
    fn prev_allows_command(&self) -> (r: bool)
        requires
            self.wf(),
        ensures
            r == (self.current == 0 || starts_command_after(self.ts()[self.current - 1])),
    {
        if self.current == 0 {
            true
        } else {
            matches!(
                self.tokens[self.current - 1],
                Token::Newline
                    | Token::AndThen
                    | Token::OrElse
                    | Token::Pipe
                    | Token::RedirectIn
                    | Token::RedirectOut
                    | Token::RedirectOutAppend
                    | Token::If
                    | Token::While
                    | Token::Function
                    | Token::For
                    | Token::OpenParen
                    | Token::OpenBrace
                    | Token::OpenBracket
                    | Token::Comma
            )
        }
    }
}

} // verus!

verus! {

impl Parser {
    /// Prefix form at the cursor; mirrors [`sp_nud`].
    fn nud(&mut self) -> (r: Result<Expr, ParseError>)
        requires
            old(self).wf(),
        ensures
            final(self).tokens == old(self).tokens,
            match r {
                Ok(e) => ({
                    &&& sp_nud(old(self).ts(), old(self).current as int) == Ok::<
                        (SpecExpr, int),
                        SpecParseError,
                    >((view_expr(e), final(self).current as int))
                    &&& old(self).current < final(self).current
                    &&& final(self).wf()
                }),
                Err(pe) => sp_nud(old(self).ts(), old(self).current as int) == Err::<
                    (SpecExpr, int),
                    SpecParseError,
                >(pe@),
            },
        decreases old(self).tokens@.len() - old(self).current, 2int,
    {
        match &self.tokens[self.current] {
            Token::Number(x) => {
                let s = x.clone();
                self.eat();
                let e = Expr::Literal(Value::Number(s));
                Ok(e)
            },
            Token::String(x) => {
                let s = x.clone();
                self.eat();
                let e = Expr::Literal(Value::String(s));
                Ok(e)
            },
            Token::Bool(b) => {
                let v = matches!(b, Bool::True);
                self.eat();
                let e = Expr::Literal(Value::Boolean(v));
                Ok(e)
            },
            Token::Identifier(x) => {
                let nm = x.clone();
                if self.next_is_literal() && self.prev_allows_command() {
                    self.eat();
                    match self.collect_args(Precedence::CommandArg) {
                        Ok(args) => {
                            let e = Expr::CommandCall {
                                command: Box::new(Expr::Identifier(nm)),
                                args,
                            };
                            proof {
                                assert(view_expr(Expr::Identifier(nm)) == SpecExpr::Identifier(
                                    nm@,
                                ));
                            }
                            Ok(e)
                        },
                        Err(e) => Err(e),
                    }
                } else {
                    self.eat();
                    let e = Expr::Identifier(nm);
                    Ok(e)
                }
            },
            Token::ShellWord(x) => {
                let nm = x.clone();
                if self.next_is_literal() && self.prev_allows_command() {
                    self.eat();
                    match self.collect_args(Precedence::CommandArg) {
                        Ok(args) => {
                            let e = Expr::CommandCall {
                                command: Box::new(Expr::ShellWord(nm)),
                                args,
                            };
                            proof {
                                assert(view_expr(Expr::ShellWord(nm)) == SpecExpr::ShellWord(
                                    nm@,
                                ));
                            }
                            Ok(e)
                        },
                        Err(e) => Err(e),
                    }
                } else {
                    self.eat();
                    let e = Expr::ShellWord(nm);
                    Ok(e)
                }
            },
            Token::OpenParen => {
                self.eat();
                match self.parse_expression(Precedence::Lowest) {
                    Ok(expr) => {
                        if self.at_is_close_paren() {
                            self.eat();
                            Ok(expr)
                        } else {
                            Err(
                                ParseError::MissingDelimiter {
                                    expected: Token::CloseParen,
                                    found: self.clone_at(),
                                    at: self.current,
                                },
                            )
                        }
                    },
                    Err(e) => Err(e),
                }
            },
            Token::OpenBrace => {
                self.eat();
                if self.at_is_newline() {
                    self.eat();
                }
                match self.block_items() {
                    Ok(items) => {
                        let e = Expr::Block(items);
                        Ok(e)
                    },
                    Err(e) => Err(e),
                }
            },
            Token::Not => {
                self.eat();
                match self.parse_expression(Precedence::Unary) {
                    Ok(right) => {
                        let e = Expr::UnaryOp { op: UnaryOp::Not, expr: Box::new(right) };
                        Ok(e)
                    },
                    Err(e) => Err(e),
                }
            },
            _ => Err(
                ParseError::UnexpectedPrefix { found: self.clone_at(), at: self.current },
            ),
        }
    }

    /// Greedy bare-argument collection; mirrors [`sp_collect_args`].
    fn collect_args(&mut self, prec: Precedence) -> (r: Result<Vec<Expr>, ParseError>)
        requires
            old(self).wf(),
        ensures
            final(self).tokens == old(self).tokens,
            match r {
                Ok(args) => ({
                    &&& sp_collect_args(old(self).ts(), old(self).current as int, prec) == Ok::<
                        (Seq<SpecExpr>, int),
                        SpecParseError,
                    >((view_exprs(args@), final(self).current as int))
                    &&& old(self).current <= final(self).current
                    &&& final(self).wf()
                }),
                Err(pe) => sp_collect_args(old(self).ts(), old(self).current as int, prec)
                    == Err::<(Seq<SpecExpr>, int), SpecParseError>(pe@),
            },
        decreases old(self).tokens@.len() - old(self).current, 4int,
    {
        if !self.is_arg() {
            let args: Vec<Expr> = Vec::new();
            proof {
                lemma_view_exprs_nil();
            }
            return Ok(args);
        }
        let tp = self.get_precedence();
        if tp.rank() < prec.rank() {
            let args: Vec<Expr> = Vec::new();
            proof {
                lemma_view_exprs_nil();
            }
            return Ok(args);
        }
        let e = match self.parse_expression(prec) {
            Ok(e) => e,
            Err(er) => {
                return Err(er);
            },
        };
        let mut rest = match self.collect_args(prec) {
            Ok(v) => v,
            Err(er) => {
                return Err(er);
            },
        };
        let ghost rest0 = rest@;
        rest.insert(0, e);
        proof {
            assert(rest0.insert(0, e) =~= seq![e] + rest0);
            lemma_view_exprs_cons(e, rest0);
        }
        Ok(rest)
    }

    /// Block items up to the closing brace; mirrors [`sp_block_items`].
    fn block_items(&mut self) -> (r: Result<Vec<Expr>, ParseError>)
        requires
            old(self).wf(),
        ensures
            final(self).tokens == old(self).tokens,
            match r {
                Ok(items) => ({
                    &&& sp_block_items(old(self).ts(), old(self).current as int) == Ok::<
                        (Seq<SpecExpr>, int),
                        SpecParseError,
                    >((view_exprs(items@), final(self).current as int))
                    &&& old(self).current < final(self).current
                    &&& final(self).wf()
                }),
                Err(pe) => sp_block_items(old(self).ts(), old(self).current as int) == Err::<
                    (Seq<SpecExpr>, int),
                    SpecParseError,
                >(pe@),
            },
        decreases old(self).tokens@.len() - old(self).current, 4int,
    {
        if self.at_is_close_brace() {
            self.eat();
            let items: Vec<Expr> = Vec::new();
            proof {
                lemma_view_exprs_nil();
            }
            return Ok(items);
        }
        let e = match self.parse_expression(Precedence::Lowest) {
            Ok(e) => e,
            Err(er) => {
                return Err(er);
            },
        };
        if self.at_is_newline() {
            self.eat();
        }
        let mut rest = match self.block_items() {
            Ok(v) => v,
            Err(er) => {
                return Err(er);
            },
        };
        let ghost rest0 = rest@;
        rest.insert(0, e);
        proof {
            assert(rest0.insert(0, e) =~= seq![e] + rest0);
            lemma_view_exprs_cons(e, rest0);
        }
        Ok(rest)
    }

    /// The right operand and node of one generic binary operator;
    /// mirrors [`sp_binop`].
    fn led_binop(&mut self, left: Expr, op: BinaryOp, prec: Precedence) -> (r: Result<
        Expr,
        ParseError,
    >)
        requires
            old(self).wf(),
            !(old(self).ts()[old(self).current as int] is Eof),
        ensures
            final(self).tokens == old(self).tokens,
            match r {
                Ok(e) => ({
                    &&& sp_binop(
                        old(self).ts(),
                        old(self).current as int,
                        view_expr(left),
                        op,
                        prec,
                    ) == Ok::<(SpecExpr, int), SpecParseError>(
                        (view_expr(e), final(self).current as int),
                    )
                    &&& old(self).current < final(self).current
                    &&& final(self).wf()
                }),
                Err(pe) => sp_binop(
                    old(self).ts(),
                    old(self).current as int,
                    view_expr(left),
                    op,
                    prec,
                ) == Err::<(SpecExpr, int), SpecParseError>(pe@),
            },
        decreases old(self).tokens@.len() - old(self).current, 1int,
    {
        self.eat();
        match self.parse_expression(prec) {
            Ok(right) => Ok(Expr::BinaryOp { left: Box::new(left), op, right: Box::new(right) }),
            Err(er) => Err(er),
        }
    }

    /// Infix or postfix form at the cursor; mirrors [`sp_led`].
    fn led(&mut self, left: Expr) -> (r: Result<Expr, ParseError>)
        requires
            old(self).wf(),
        ensures
            final(self).tokens == old(self).tokens,
            match r {
                Ok(e) => ({
                    &&& sp_led(old(self).ts(), old(self).current as int, view_expr(left)) == Ok::<
                        (SpecExpr, int),
                        SpecParseError,
                    >((view_expr(e), final(self).current as int))
                    &&& old(self).current < final(self).current
                    &&& final(self).wf()
                }),
                Err(pe) => sp_led(old(self).ts(), old(self).current as int, view_expr(left))
                    == Err::<(SpecExpr, int), SpecParseError>(pe@),
            },
        decreases old(self).tokens@.len() - old(self).current, 2int,
    {
        match &self.tokens[self.current] {
            Token::AndThen => {
                self.eat();
                match self.parse_expression(Precedence::AndThen.next_higher()) {
                    Ok(right) => Ok(
                        Expr::AndThen { left: Box::new(left), right: Box::new(right) },
                    ),
                    Err(er) => Err(er),
                }
            },
            Token::OrElse => {
                self.eat();
                match self.parse_expression(Precedence::OrElse.next_higher()) {
                    Ok(right) => Ok(
                        Expr::OrElse { left: Box::new(left), right: Box::new(right) },
                    ),
                    Err(er) => Err(er),
                }
            },
            Token::Add => self.led_binop(left, BinaryOp::Add, Precedence::Term),
            Token::Sub => self.led_binop(left, BinaryOp::Sub, Precedence::Term),
            Token::Mul => self.led_binop(left, BinaryOp::Mul, Precedence::Factor),
            Token::Div => self.led_binop(left, BinaryOp::Div, Precedence::Factor),
            Token::Mod => self.led_binop(left, BinaryOp::Mod, Precedence::Factor),
            Token::EqualTo => self.led_binop(left, BinaryOp::Eq, Precedence::Equality),
            Token::NotEqualTo => self.led_binop(left, BinaryOp::Neq, Precedence::Equality),
            Token::LessThan => self.led_binop(left, BinaryOp::Lt, Precedence::Comparison),
            Token::GreaterThan => self.led_binop(left, BinaryOp::Gt, Precedence::Comparison),
            Token::LessThanEqual => self.led_binop(left, BinaryOp::Le, Precedence::Comparison),
            Token::GreaterThanEqual => self.led_binop(left, BinaryOp::Ge, Precedence::Comparison),
            Token::And => self.led_binop(left, BinaryOp::And, Precedence::And),
            Token::Or => self.led_binop(left, BinaryOp::Or, Precedence::Or),
            Token::Equals => {
                match left {
                    Expr::Identifier(name) => {
                        self.eat();
                        match self.parse_expression(Precedence::Lowest) {
                            Ok(value) => Ok(Expr::Assign { name, value: Box::new(value) }),
                            Err(er) => Err(er),
                        }
                    },
                    _ => Err(ParseError::InvalidAssignmentTarget { at: self.current }),
                }
            },
            Token::OpenParen => {
                self.eat();
                if self.at_is_close_paren() {
                    self.eat();
                    let no_args: Vec<Expr> = Vec::new();
                    proof {
                        lemma_view_exprs_nil();
                        assert(view_exprs(no_args@) == Seq::<SpecExpr>::empty());
                    }
                    Ok(Expr::Call { callee: Box::new(left), args: no_args })
                } else {
                    match self.call_args() {
                        Ok(args) => Ok(Expr::Call { callee: Box::new(left), args }),
                        Err(er) => Err(er),
                    }
                }
            },
            _ => Err(
                ParseError::UnexpectedInfix { found: self.clone_at(), at: self.current },
            ),
        }
    }

    /// Comma-separated call arguments; mirrors [`sp_call_args`].
    fn call_args(&mut self) -> (r: Result<Vec<Expr>, ParseError>)
        requires
            old(self).wf(),
        ensures
            final(self).tokens == old(self).tokens,
            match r {
                Ok(args) => ({
                    &&& sp_call_args(old(self).ts(), old(self).current as int) == Ok::<
                        (Seq<SpecExpr>, int),
                        SpecParseError,
                    >((view_exprs(args@), final(self).current as int))
                    &&& old(self).current < final(self).current
                    &&& final(self).wf()
                }),
                Err(pe) => sp_call_args(old(self).ts(), old(self).current as int) == Err::<
                    (Seq<SpecExpr>, int),
                    SpecParseError,
                >(pe@),
            },
        decreases old(self).tokens@.len() - old(self).current, 4int,
    {
        let e = match self.parse_expression(Precedence::Lowest) {
            Ok(e) => e,
            Err(er) => {
                return Err(er);
            },
        };
        if self.at_is_comma() {
            self.eat();
            let mut rest = match self.call_args() {
                Ok(v) => v,
                Err(er) => {
                    return Err(er);
                },
            };
            let ghost rest0 = rest@;
            rest.insert(0, e);
            proof {
                assert(rest0.insert(0, e) =~= seq![e] + rest0);
                lemma_view_exprs_cons(e, rest0);
            }
            Ok(rest)
        } else if self.at_is_close_paren() {
            self.eat();
            let mut args: Vec<Expr> = Vec::new();
            args.push(e);
            proof {
                assert(args@ =~= seq![e] + Seq::<Expr>::empty());
                lemma_view_exprs_nil();
                lemma_view_exprs_cons(e, Seq::<Expr>::empty());
                assert(view_exprs(args@) =~= seq![view_expr(e)]);
            }
            Ok(args)
        } else {
            Err(
                ParseError::MalformedArgumentList { found: self.clone_at(), at: self.current },
            )
        }
    }

    /// Folds infix forms while the coming token binds tighter; mirrors
    /// [`sp_led_loop`].
    fn led_fold(&mut self, precedence: Precedence, left: Expr) -> (r: Result<Expr, ParseError>)
        requires
            old(self).wf(),
        ensures
            final(self).tokens == old(self).tokens,
            match r {
                Ok(e) => ({
                    &&& sp_led_loop(
                        old(self).ts(),
                        old(self).current as int,
                        precedence,
                        view_expr(left),
                    ) == Ok::<(SpecExpr, int), SpecParseError>(
                        (view_expr(e), final(self).current as int),
                    )
                    &&& old(self).current <= final(self).current
                    &&& final(self).wf()
                }),
                Err(pe) => sp_led_loop(
                    old(self).ts(),
                    old(self).current as int,
                    precedence,
                    view_expr(left),
                ) == Err::<(SpecExpr, int), SpecParseError>(pe@),
            },
        decreases old(self).tokens@.len() - old(self).current, 3int,
    {
        let tp = self.get_precedence();
        if precedence.rank() < tp.rank() || matches!(precedence, Precedence::CallOrIndex) {
            let e2 = match self.led(left) {
                Ok(e) => e,
                Err(er) => {
                    return Err(er);
                },
            };
            self.led_fold(precedence, e2)
        } else {
            Ok(left)
        }
    }

    /// One expression at the given minimal binding level; mirrors
    /// [`sp_parse_expr`].
    fn parse_expression(&mut self, precedence: Precedence) -> (r: Result<Expr, ParseError>)
        requires
            old(self).wf(),
        ensures
            final(self).tokens == old(self).tokens,
            match r {
                Ok(e) => ({
                    &&& sp_parse_expr(old(self).ts(), old(self).current as int, precedence)
                        == Ok::<(SpecExpr, int), SpecParseError>(
                        (view_expr(e), final(self).current as int),
                    )
                    &&& old(self).current < final(self).current
                    &&& final(self).wf()
                }),
                Err(pe) => sp_parse_expr(old(self).ts(), old(self).current as int, precedence)
                    == Err::<(SpecExpr, int), SpecParseError>(pe@),
            },
        decreases old(self).tokens@.len() - old(self).current, 3int,
    {
        let left = match self.nud() {
            Ok(e) => e,
            Err(er) => {
                return Err(er);
            },
        };
        self.led_fold(precedence, left)
    }

    /// Turns an `Eof`-terminated token sequence into one syntax tree:
    /// the model parse [`sp_produce_ast`] of the sequence, whose result
    /// depends on the given tokens alone.  The retained sequence and the
    /// cursor are reset before the call returns, whether it succeeds or
    /// fails, so the parser can serve the next input with no residue of
    /// this one.
    pub fn produce_ast(&mut self, tokens: Vec<Token>) -> (r: Result<Ast, ParseError>)
        requires
            wf_tokens(toks_view(tokens@)),
        ensures
            match r {
                Ok(ast) => sp_produce_ast(toks_view(tokens@)) == Ok::<SpecExpr, SpecParseError>(
                    view_expr(ast.expr),
                ),
                Err(e) => sp_produce_ast(toks_view(tokens@)) == Err::<SpecExpr, SpecParseError>(
                    e@,
                ),
            },
            final(self).is_reset(),
    {
        self.tokens = tokens;
        self.current = 0;
        let result = self.parse_expression(Precedence::Lowest);
        self.tokens.clear();
        self.current = 0;
        match result {
            Ok(expr) => Ok(Ast { expr }),
            Err(e) => Err(e),
        }
    }
}

} // verus!
