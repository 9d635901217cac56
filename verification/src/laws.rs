//! Laws of the grammar, each proved over the model parser for every
//! payload: operator precedence and associativity, the command-call
//! disambiguation rule, the chaining order of `&&` and `||`, and the
//! failures owed to unclosed blocks and bad assignment targets.

use vstd::prelude::*;

use crate::ast::{BinaryOp, SpecExpr};
use crate::lexer::SpecToken;
use crate::parser::{
    Precedence, SpecParseError, sp_binop, sp_block_items, sp_collect_args, sp_led, sp_led_loop,
    sp_name, sp_nud, sp_parse_expr, sp_produce_ast,
};
use crate::values::SpecValue;

verus! {

/// A term-level operator token and its tag: `+` or `-`.
pub open spec fn term_op_token(t: SpecToken, op: BinaryOp) -> bool {
    (t is Add && op == BinaryOp::Add) || (t is Sub && op == BinaryOp::Sub)
}

/// A factor-level operator token and its tag: `*`, `/` or `%`.
pub open spec fn factor_op_token(t: SpecToken, op: BinaryOp) -> bool {
    (t is Mul && op == BinaryOp::Mul) || (t is Div && op == BinaryOp::Div) || (t is Mod && op
        == BinaryOp::Mod)
}

/// A factor operator binds tighter than a term operator: for any number
/// spellings `a`, `b`, `c`, a term operator `t1` and a factor operator
/// `t2`, the tokens of `a t1 b t2 c` parse as `t1(a, t2(b, c))` — never
/// as `t2(t1(a, b), c)`.
pub proof fn law_factor_binds_tighter(
    a: Seq<char>,
    b: Seq<char>,
    c: Seq<char>,
    t1: SpecToken,
    o1: BinaryOp,
    t2: SpecToken,
    o2: BinaryOp,
)
    requires
        term_op_token(t1, o1),
        factor_op_token(t2, o2),
    ensures
        sp_produce_ast(
            seq![
                SpecToken::Number(a),
                t1,
                SpecToken::Number(b),
                t2,
                SpecToken::Number(c),
                SpecToken::Eof,
            ],
        ) == Ok::<SpecExpr, SpecParseError>(
            SpecExpr::BinaryOp {
                left: Box::new(SpecExpr::Literal(SpecValue::Number(a))),
                op: o1,
                right: Box::new(
                    SpecExpr::BinaryOp {
                        left: Box::new(SpecExpr::Literal(SpecValue::Number(b))),
                        op: o2,
                        right: Box::new(SpecExpr::Literal(SpecValue::Number(c))),
                    },
                ),
            },
        ),
{
    let ts = seq![
        SpecToken::Number(a),
        t1,
        SpecToken::Number(b),
        t2,
        SpecToken::Number(c),
        SpecToken::Eof,
    ];
    let na = SpecExpr::Literal(SpecValue::Number(a));
    let nb = SpecExpr::Literal(SpecValue::Number(b));
    let nc = SpecExpr::Literal(SpecValue::Number(c));
    let inner = SpecExpr::BinaryOp { left: Box::new(nb), op: o2, right: Box::new(nc) };
    let outer = SpecExpr::BinaryOp { left: Box::new(na), op: o1, right: Box::new(inner) };
    assert(sp_nud(ts, 4) == Ok::<(SpecExpr, int), SpecParseError>((nc, 5)));
    assert(sp_led_loop(ts, 5, Precedence::Factor, nc) == Ok::<(SpecExpr, int), SpecParseError>(
        (nc, 5),
    ));
    assert(sp_parse_expr(ts, 4, Precedence::Factor) == Ok::<(SpecExpr, int), SpecParseError>(
        (nc, 5),
    ));
    assert(sp_binop(ts, 3, nb, o2, Precedence::Factor) == Ok::<(SpecExpr, int), SpecParseError>(
        (inner, 5),
    ));
    assert(sp_led(ts, 3, nb) == Ok::<(SpecExpr, int), SpecParseError>((inner, 5)));
    assert(sp_nud(ts, 2) == Ok::<(SpecExpr, int), SpecParseError>((nb, 3)));
    assert(sp_led_loop(ts, 5, Precedence::Term, inner) == Ok::<(SpecExpr, int), SpecParseError>(
        (inner, 5),
    ));
    assert(sp_led_loop(ts, 3, Precedence::Term, nb) == Ok::<(SpecExpr, int), SpecParseError>(
        (inner, 5),
    ));
    assert(sp_parse_expr(ts, 2, Precedence::Term) == Ok::<(SpecExpr, int), SpecParseError>(
        (inner, 5),
    ));
    assert(sp_binop(ts, 1, na, o1, Precedence::Term) == Ok::<(SpecExpr, int), SpecParseError>(
        (outer, 5),
    ));
    assert(sp_led(ts, 1, na) == Ok::<(SpecExpr, int), SpecParseError>((outer, 5)));
    assert(sp_nud(ts, 0) == Ok::<(SpecExpr, int), SpecParseError>((na, 1)));
    assert(sp_led_loop(ts, 5, Precedence::Lowest, outer) == Ok::<(SpecExpr, int), SpecParseError>(
        (outer, 5),
    ));
    assert(sp_led_loop(ts, 1, Precedence::Lowest, na) == Ok::<(SpecExpr, int), SpecParseError>(
        (outer, 5),
    ));
    assert(sp_parse_expr(ts, 0, Precedence::Lowest) == Ok::<(SpecExpr, int), SpecParseError>(
        (outer, 5),
    ));
}

/// Operators of one level fold leftward: for any number spellings and
/// term operators `t1`, `t2`, the tokens of `a t1 b t2 c` parse as
/// `t2(t1(a, b), c)` — never as `t1(a, t2(b, c))`.
pub proof fn law_term_ops_left_associative(
    a: Seq<char>,
    b: Seq<char>,
    c: Seq<char>,
    t1: SpecToken,
    o1: BinaryOp,
    t2: SpecToken,
    o2: BinaryOp,
)
    requires
        term_op_token(t1, o1),
        term_op_token(t2, o2),
    ensures
        sp_produce_ast(
            seq![
                SpecToken::Number(a),
                t1,
                SpecToken::Number(b),
                t2,
                SpecToken::Number(c),
                SpecToken::Eof,
            ],
        ) == Ok::<SpecExpr, SpecParseError>(
            SpecExpr::BinaryOp {
                left: Box::new(
                    SpecExpr::BinaryOp {
                        left: Box::new(SpecExpr::Literal(SpecValue::Number(a))),
                        op: o1,
                        right: Box::new(SpecExpr::Literal(SpecValue::Number(b))),
                    },
                ),
                op: o2,
                right: Box::new(SpecExpr::Literal(SpecValue::Number(c))),
            },
        ),
{
    let ts = seq![
        SpecToken::Number(a),
        t1,
        SpecToken::Number(b),
        t2,
        SpecToken::Number(c),
        SpecToken::Eof,
    ];
    let na = SpecExpr::Literal(SpecValue::Number(a));
    let nb = SpecExpr::Literal(SpecValue::Number(b));
    let nc = SpecExpr::Literal(SpecValue::Number(c));
    let inner = SpecExpr::BinaryOp { left: Box::new(na), op: o1, right: Box::new(nb) };
    let outer = SpecExpr::BinaryOp { left: Box::new(inner), op: o2, right: Box::new(nc) };
    assert(sp_nud(ts, 2) == Ok::<(SpecExpr, int), SpecParseError>((nb, 3)));
    assert(sp_led_loop(ts, 3, Precedence::Term, nb) == Ok::<(SpecExpr, int), SpecParseError>(
        (nb, 3),
    ));
    assert(sp_parse_expr(ts, 2, Precedence::Term) == Ok::<(SpecExpr, int), SpecParseError>(
        (nb, 3),
    ));
    assert(sp_binop(ts, 1, na, o1, Precedence::Term) == Ok::<(SpecExpr, int), SpecParseError>(
        (inner, 3),
    ));
    assert(sp_led(ts, 1, na) == Ok::<(SpecExpr, int), SpecParseError>((inner, 3)));
    assert(sp_nud(ts, 4) == Ok::<(SpecExpr, int), SpecParseError>((nc, 5)));
    assert(sp_led_loop(ts, 5, Precedence::Term, nc) == Ok::<(SpecExpr, int), SpecParseError>(
        (nc, 5),
    ));
    assert(sp_parse_expr(ts, 4, Precedence::Term) == Ok::<(SpecExpr, int), SpecParseError>(
        (nc, 5),
    ));
    assert(sp_binop(ts, 3, inner, o2, Precedence::Term) == Ok::<(SpecExpr, int), SpecParseError>(
        (outer, 5),
    ));
    assert(sp_led(ts, 3, inner) == Ok::<(SpecExpr, int), SpecParseError>((outer, 5)));
    assert(sp_nud(ts, 0) == Ok::<(SpecExpr, int), SpecParseError>((na, 1)));
    assert(sp_led_loop(ts, 5, Precedence::Lowest, outer) == Ok::<(SpecExpr, int), SpecParseError>(
        (outer, 5),
    ));
    assert(sp_led_loop(ts, 3, Precedence::Lowest, inner) == Ok::<(SpecExpr, int), SpecParseError>(
        (outer, 5),
    ));
    assert(sp_led_loop(ts, 1, Precedence::Lowest, na) == Ok::<(SpecExpr, int), SpecParseError>(
        (outer, 5),
    ));
    assert(sp_parse_expr(ts, 0, Precedence::Lowest) == Ok::<(SpecExpr, int), SpecParseError>(
        (outer, 5),
    ));
}

/// A word at the start of the input followed by a bare word opens a
/// command call: the tokens of `x w` parse as a `CommandCall` whose
/// command is the identifier `x` and whose sole argument is the shell
/// word `w`.
pub proof fn law_leading_word_opens_command(x: Seq<char>, w: Seq<char>)
    ensures
        sp_produce_ast(seq![SpecToken::Identifier(x), SpecToken::ShellWord(w), SpecToken::Eof])
            == Ok::<SpecExpr, SpecParseError>(
            SpecExpr::CommandCall {
                command: Box::new(SpecExpr::Identifier(x)),
                args: seq![SpecExpr::ShellWord(w)],
            },
        ),
{
    let ts = seq![SpecToken::Identifier(x), SpecToken::ShellWord(w), SpecToken::Eof];
    let cmd = SpecExpr::Identifier(x);
    let arg = SpecExpr::ShellWord(w);
    let call = SpecExpr::CommandCall { command: Box::new(cmd), args: seq![arg] };
    assert(sp_nud(ts, 1) == Ok::<(SpecExpr, int), SpecParseError>((arg, 2))) by {
        assert(sp_name(ts, 1, arg) == Ok::<(SpecExpr, int), SpecParseError>((arg, 2)));
    }
    assert(sp_led_loop(ts, 2, Precedence::CommandArg, arg) == Ok::<
        (SpecExpr, int),
        SpecParseError,
    >((arg, 2)));
    assert(sp_parse_expr(ts, 1, Precedence::CommandArg) == Ok::<(SpecExpr, int), SpecParseError>(
        (arg, 2),
    ));
    assert(sp_collect_args(ts, 2, Precedence::CommandArg) == Ok::<
        (Seq<SpecExpr>, int),
        SpecParseError,
    >((Seq::empty(), 2)));
    assert(seq![arg] + Seq::<SpecExpr>::empty() =~= seq![arg]);
    assert(sp_collect_args(ts, 1, Precedence::CommandArg) == Ok::<
        (Seq<SpecExpr>, int),
        SpecParseError,
    >((seq![arg], 2)));
    assert(sp_name(ts, 0, cmd) == Ok::<(SpecExpr, int), SpecParseError>((call, 2)));
    assert(sp_nud(ts, 0) == Ok::<(SpecExpr, int), SpecParseError>((call, 2)));
    assert(sp_led_loop(ts, 2, Precedence::Lowest, call) == Ok::<(SpecExpr, int), SpecParseError>(
        (call, 2),
    ));
    assert(sp_parse_expr(ts, 0, Precedence::Lowest) == Ok::<(SpecExpr, int), SpecParseError>(
        (call, 2),
    ));
}

/// A word followed by an operator is a plain value reference, never a
/// command: the tokens of `x + n` parse as an ordinary binary node over
/// the identifier `x`.
pub proof fn law_word_before_operator_is_reference(x: Seq<char>, n: Seq<char>)
    ensures
        sp_produce_ast(
            seq![SpecToken::Identifier(x), SpecToken::Add, SpecToken::Number(n), SpecToken::Eof],
        ) == Ok::<SpecExpr, SpecParseError>(
            SpecExpr::BinaryOp {
                left: Box::new(SpecExpr::Identifier(x)),
                op: BinaryOp::Add,
                right: Box::new(SpecExpr::Literal(SpecValue::Number(n))),
            },
        ),
{
    let ts = seq![SpecToken::Identifier(x), SpecToken::Add, SpecToken::Number(n), SpecToken::Eof];
    let ident = SpecExpr::Identifier(x);
    let num = SpecExpr::Literal(SpecValue::Number(n));
    let node = SpecExpr::BinaryOp { left: Box::new(ident), op: BinaryOp::Add, right: Box::new(num) };
    assert(sp_name(ts, 0, ident) == Ok::<(SpecExpr, int), SpecParseError>((ident, 1)));
    assert(sp_nud(ts, 0) == Ok::<(SpecExpr, int), SpecParseError>((ident, 1)));
    assert(sp_nud(ts, 2) == Ok::<(SpecExpr, int), SpecParseError>((num, 3)));
    assert(sp_led_loop(ts, 3, Precedence::Term, num) == Ok::<(SpecExpr, int), SpecParseError>(
        (num, 3),
    ));
    assert(sp_parse_expr(ts, 2, Precedence::Term) == Ok::<(SpecExpr, int), SpecParseError>(
        (num, 3),
    ));
    assert(sp_binop(ts, 1, ident, BinaryOp::Add, Precedence::Term) == Ok::<
        (SpecExpr, int),
        SpecParseError,
    >((node, 3)));
    assert(sp_led(ts, 1, ident) == Ok::<(SpecExpr, int), SpecParseError>((node, 3)));
    assert(sp_led_loop(ts, 3, Precedence::Lowest, node) == Ok::<(SpecExpr, int), SpecParseError>(
        (node, 3),
    ));
    assert(sp_led_loop(ts, 1, Precedence::Lowest, ident) == Ok::<(SpecExpr, int), SpecParseError>(
        (node, 3),
    ));
    assert(sp_parse_expr(ts, 0, Precedence::Lowest) == Ok::<(SpecExpr, int), SpecParseError>(
        (node, 3),
    ));
}

/// `||` stands outermost over `&&`: for any names `a`, `b`, `c`, the
/// tokens of `a && b || c` parse as `OrElse(AndThen(a, b), c)`.
pub proof fn law_or_else_outermost(a: Seq<char>, b: Seq<char>, c: Seq<char>)
    ensures
        sp_produce_ast(
            seq![
                SpecToken::Identifier(a),
                SpecToken::AndThen,
                SpecToken::Identifier(b),
                SpecToken::OrElse,
                SpecToken::Identifier(c),
                SpecToken::Eof,
            ],
        ) == Ok::<SpecExpr, SpecParseError>(
            SpecExpr::OrElse {
                left: Box::new(
                    SpecExpr::AndThen {
                        left: Box::new(SpecExpr::Identifier(a)),
                        right: Box::new(SpecExpr::Identifier(b)),
                    },
                ),
                right: Box::new(SpecExpr::Identifier(c)),
            },
        ),
{
    let ts = seq![
        SpecToken::Identifier(a),
        SpecToken::AndThen,
        SpecToken::Identifier(b),
        SpecToken::OrElse,
        SpecToken::Identifier(c),
        SpecToken::Eof,
    ];
    let ia = SpecExpr::Identifier(a);
    let ib = SpecExpr::Identifier(b);
    let ic = SpecExpr::Identifier(c);
    let and_node = SpecExpr::AndThen { left: Box::new(ia), right: Box::new(ib) };
    let or_node = SpecExpr::OrElse { left: Box::new(and_node), right: Box::new(ic) };
    assert(sp_name(ts, 2, ib) == Ok::<(SpecExpr, int), SpecParseError>((ib, 3)));
    assert(sp_nud(ts, 2) == Ok::<(SpecExpr, int), SpecParseError>((ib, 3)));
    assert(sp_led_loop(ts, 3, Precedence::Assignment, ib) == Ok::<
        (SpecExpr, int),
        SpecParseError,
    >((ib, 3)));
    assert(sp_parse_expr(ts, 2, Precedence::Assignment) == Ok::<(SpecExpr, int), SpecParseError>(
        (ib, 3),
    ));
    assert(sp_led(ts, 1, ia) == Ok::<(SpecExpr, int), SpecParseError>((and_node, 3)));
    assert(sp_name(ts, 4, ic) == Ok::<(SpecExpr, int), SpecParseError>((ic, 5)));
    assert(sp_nud(ts, 4) == Ok::<(SpecExpr, int), SpecParseError>((ic, 5)));
    assert(sp_led_loop(ts, 5, Precedence::AndThen, ic) == Ok::<(SpecExpr, int), SpecParseError>(
        (ic, 5),
    ));
    assert(sp_parse_expr(ts, 4, Precedence::AndThen) == Ok::<(SpecExpr, int), SpecParseError>(
        (ic, 5),
    ));
    assert(sp_led(ts, 3, and_node) == Ok::<(SpecExpr, int), SpecParseError>((or_node, 5)));
    assert(sp_name(ts, 0, ia) == Ok::<(SpecExpr, int), SpecParseError>((ia, 1)));
    assert(sp_nud(ts, 0) == Ok::<(SpecExpr, int), SpecParseError>((ia, 1)));
    assert(sp_led_loop(ts, 5, Precedence::Lowest, or_node) == Ok::<
        (SpecExpr, int),
        SpecParseError,
    >((or_node, 5)));
    assert(sp_led_loop(ts, 3, Precedence::Lowest, and_node) == Ok::<
        (SpecExpr, int),
        SpecParseError,
    >((or_node, 5)));
    assert(sp_led_loop(ts, 1, Precedence::Lowest, ia) == Ok::<(SpecExpr, int), SpecParseError>(
        (or_node, 5),
    ));
    assert(sp_parse_expr(ts, 0, Precedence::Lowest) == Ok::<(SpecExpr, int), SpecParseError>(
        (or_node, 5),
    ));
}

/// A block that never closes is a parse failure, not a silently
/// truncated tree: the tokens of `{ n` end in an unexpected-prefix
/// failure at the `Eof` sentinel.
pub proof fn law_unclosed_block_fails(n: Seq<char>)
    ensures
        sp_produce_ast(seq![SpecToken::OpenBrace, SpecToken::Number(n), SpecToken::Eof]) == Err::<
            SpecExpr,
            SpecParseError,
        >(SpecParseError::UnexpectedPrefix { found: SpecToken::Eof, at: 2 }),
{
    let ts = seq![SpecToken::OpenBrace, SpecToken::Number(n), SpecToken::Eof];
    let num = SpecExpr::Literal(SpecValue::Number(n));
    let failure = SpecParseError::UnexpectedPrefix { found: SpecToken::Eof, at: 2 };
    assert(sp_nud(ts, 2) == Err::<(SpecExpr, int), SpecParseError>(failure));
    assert(sp_parse_expr(ts, 2, Precedence::Lowest) == Err::<(SpecExpr, int), SpecParseError>(
        failure,
    ));
    assert(sp_block_items(ts, 2) == Err::<(Seq<SpecExpr>, int), SpecParseError>(failure));
    assert(sp_nud(ts, 1) == Ok::<(SpecExpr, int), SpecParseError>((num, 2)));
    assert(sp_led_loop(ts, 2, Precedence::Lowest, num) == Ok::<(SpecExpr, int), SpecParseError>(
        (num, 2),
    ));
    assert(sp_parse_expr(ts, 1, Precedence::Lowest) == Ok::<(SpecExpr, int), SpecParseError>(
        (num, 2),
    ));
    assert(sp_block_items(ts, 1) == Err::<(Seq<SpecExpr>, int), SpecParseError>(failure));
    assert(sp_nud(ts, 0) == Err::<(SpecExpr, int), SpecParseError>(failure));
    assert(sp_parse_expr(ts, 0, Precedence::Lowest) == Err::<(SpecExpr, int), SpecParseError>(
        failure,
    ));
}

/// Only a plain identifier may stand left of `=`: for any number
/// spellings `v`, `w`, the tokens of `v = w` fail with the
/// invalid-assignment-target error at the `=` token.
pub proof fn law_literal_assignment_target_fails(v: Seq<char>, w: Seq<char>)
    ensures
        sp_produce_ast(
            seq![SpecToken::Number(v), SpecToken::Equals, SpecToken::Number(w), SpecToken::Eof],
        ) == Err::<SpecExpr, SpecParseError>(SpecParseError::InvalidAssignmentTarget { at: 1 }),
{
    let ts = seq![SpecToken::Number(v), SpecToken::Equals, SpecToken::Number(w), SpecToken::Eof];
    let nv = SpecExpr::Literal(SpecValue::Number(v));
    let failure = SpecParseError::InvalidAssignmentTarget { at: 1 };
    assert(sp_nud(ts, 0) == Ok::<(SpecExpr, int), SpecParseError>((nv, 1)));
    assert(sp_led(ts, 1, nv) == Err::<(SpecExpr, int), SpecParseError>(failure));
    assert(sp_led_loop(ts, 1, Precedence::Lowest, nv) == Err::<(SpecExpr, int), SpecParseError>(
        failure,
    ));
    assert(sp_parse_expr(ts, 0, Precedence::Lowest) == Err::<(SpecExpr, int), SpecParseError>(
        failure,
    ));
}

} // verus!
