use shell_lang::ast::{Ast, BinaryOp, Expr, UnaryOp};
use shell_lang::lexer::{Lexer, Token};
use shell_lang::parser::{ParseError, Parser, Precedence};
use shell_lang::values::Value;

fn parse(src: &str) -> Result<Ast, ParseError> {
    let lexer = Lexer::new();
    let mut parser = Parser::new();
    parser.produce_ast(lexer.tokenize(src).expect("tokenize failed"))
}

fn expr(src: &str) -> Expr {
    parse(src).expect("parse failed").expr
}

fn num(s: &str) -> Expr {
    Expr::Literal(Value::Number(s.to_string()))
}

fn ident(s: &str) -> Expr {
    Expr::Identifier(s.to_string())
}

fn binop(l: Expr, op: BinaryOp, r: Expr) -> Expr {
    Expr::BinaryOp { left: Box::new(l), op, right: Box::new(r) }
}

#[test]
fn factor_binds_tighter_than_term() {
    assert_eq!(
        expr("1 + 2 * 3"),
        binop(num("1"), BinaryOp::Add, binop(num("2"), BinaryOp::Mul, num("3")))
    );
}

#[test]
fn division_and_modulo_bind_tighter_too() {
    assert_eq!(
        expr("1 - 6 / 2"),
        binop(num("1"), BinaryOp::Sub, binop(num("6"), BinaryOp::Div, num("2")))
    );
    assert_eq!(
        expr("1 + 7 % 3"),
        binop(num("1"), BinaryOp::Add, binop(num("7"), BinaryOp::Mod, num("3")))
    );
}

#[test]
fn subtraction_is_left_associative() {
    assert_eq!(
        expr("1 - 2 - 3"),
        binop(binop(num("1"), BinaryOp::Sub, num("2")), BinaryOp::Sub, num("3"))
    );
}

#[test]
fn parentheses_override_precedence() {
    assert_eq!(
        expr("(1 + 2) * 3"),
        binop(binop(num("1"), BinaryOp::Add, num("2")), BinaryOp::Mul, num("3"))
    );
}

#[test]
fn leading_word_with_bare_argument_is_a_command_call() {
    assert_eq!(
        expr("echo hello"),
        Expr::CommandCall {
            command: Box::new(ident("echo")),
            args: vec![ident("hello")],
        }
    );
}

#[test]
fn command_call_collects_shell_word_arguments() {
    assert_eq!(
        expr("ls -la /tmp"),
        Expr::CommandCall {
            command: Box::new(ident("ls")),
            args: vec![
                Expr::ShellWord("-la".to_string()),
                Expr::ShellWord("/tmp".to_string()),
            ],
        }
    );
}

#[test]
fn word_before_operator_is_a_value_reference() {
    assert_eq!(expr("x + 1"), binop(ident("x"), BinaryOp::Add, num("1")));
    assert_eq!(expr("x"), ident("x"));
}

#[test]
fn or_else_is_outermost_over_and_then() {
    assert_eq!(
        expr("a && b || c"),
        Expr::OrElse {
            left: Box::new(Expr::AndThen {
                left: Box::new(ident("a")),
                right: Box::new(ident("b")),
            }),
            right: Box::new(ident("c")),
        }
    );
}

#[test]
fn block_collects_newline_separated_expressions() {
    assert_eq!(
        expr("{ 1\n2\n }"),
        Expr::Block(vec![num("1"), num("2")])
    );
}

#[test]
fn empty_block_parses() {
    assert_eq!(expr("{}"), Expr::Block(vec![]));
}

#[test]
fn unclosed_block_is_a_failure() {
    assert_eq!(
        parse("{ 1\n2"),
        Err(ParseError::UnexpectedPrefix { found: Token::Eof, at: 4 })
    );
}

#[test]
fn assignment_to_literal_fails() {
    assert_eq!(
        parse("1 = 2"),
        Err(ParseError::InvalidAssignmentTarget { at: 1 })
    );
}

#[test]
fn assignment_to_identifier_succeeds() {
    assert_eq!(
        expr("x = 1 + 2"),
        Expr::Assign {
            name: "x".to_string(),
            value: Box::new(binop(num("1"), BinaryOp::Add, num("2"))),
        }
    );
}

#[test]
fn assignment_binds_looser_than_arithmetic() {
    // `x = a` with a trailing operator chain assigns the whole chain
    assert_eq!(
        expr("x = y * 2"),
        Expr::Assign {
            name: "x".to_string(),
            value: Box::new(binop(ident("y"), BinaryOp::Mul, num("2"))),
        }
    );
}

#[test]
fn call_syntax_collects_comma_separated_arguments() {
    assert_eq!(
        expr("f(1, 2)"),
        Expr::Call {
            callee: Box::new(ident("f")),
            args: vec![num("1"), num("2")],
        }
    );
    assert_eq!(
        expr("f()"),
        Expr::Call { callee: Box::new(ident("f")), args: vec![] }
    );
}

#[test]
fn missing_close_paren_is_reported() {
    assert_eq!(
        parse("(1 + 2"),
        Err(ParseError::MissingDelimiter {
            expected: Token::CloseParen,
            found: Token::Eof,
            at: 4,
        })
    );
}

#[test]
fn malformed_argument_list_is_reported() {
    assert_eq!(
        parse("f(1}"),
        Err(ParseError::MalformedArgumentList { found: Token::CloseBrace, at: 3 })
    );
}

#[test]
fn literal_after_literal_is_an_infix_failure() {
    assert_eq!(
        parse("1 2"),
        Err(ParseError::UnexpectedInfix { found: Token::Number("2".to_string()), at: 1 })
    );
}

#[test]
fn unimplemented_keyword_forms_fail_in_prefix_position() {
    assert_eq!(
        parse("if"),
        Err(ParseError::UnexpectedPrefix { found: Token::If, at: 0 })
    );
    assert_eq!(
        parse("while"),
        Err(ParseError::UnexpectedPrefix { found: Token::While, at: 0 })
    );
}

#[test]
fn negation_parses_at_unary_level() {
    assert_eq!(
        expr("!true"),
        Expr::UnaryOp {
            op: UnaryOp::Not,
            expr: Box::new(Expr::Literal(Value::Boolean(true))),
        }
    );
    assert_eq!(
        expr("not false"),
        Expr::UnaryOp {
            op: UnaryOp::Not,
            expr: Box::new(Expr::Literal(Value::Boolean(false))),
        }
    );
}

#[test]
fn comparison_and_keyword_logic_build_binary_nodes() {
    assert_eq!(
        expr("a < b and c"),
        binop(
            binop(ident("a"), BinaryOp::Lt, ident("b")),
            BinaryOp::And,
            ident("c"),
        )
    );
    assert_eq!(expr("a == b"), binop(ident("a"), BinaryOp::Eq, ident("b")));
}

#[test]
fn string_literal_parses_to_string_value() {
    assert_eq!(
        expr("\"hi there\""),
        Expr::Literal(Value::String("hi there".to_string()))
    );
}

#[test]
fn one_parser_serves_many_inputs_without_residue() {
    let lexer = Lexer::new();
    let mut parser = Parser::new();
    let first = parser
        .produce_ast(lexer.tokenize("1 + 2 * 3").unwrap())
        .unwrap();
    let second = parser
        .produce_ast(lexer.tokenize("echo hello").unwrap())
        .unwrap();
    assert_eq!(
        first.expr,
        binop(num("1"), BinaryOp::Add, binop(num("2"), BinaryOp::Mul, num("3")))
    );
    assert_eq!(
        second.expr,
        Expr::CommandCall {
            command: Box::new(ident("echo")),
            args: vec![ident("hello")],
        }
    );
    // and a failing parse leaves no residue either
    assert!(parse("1 = 2").is_err());
    let third = parser.produce_ast(lexer.tokenize("x").unwrap()).unwrap();
    assert_eq!(third.expr, ident("x"));
}

#[test]
fn next_higher_steps_through_the_order() {
    assert_eq!(Precedence::Lowest.next_higher(), Precedence::OrElse);
    assert_eq!(Precedence::Term.next_higher(), Precedence::Factor);
    assert_eq!(Precedence::Primary.next_higher(), Precedence::Primary);
    assert!(Precedence::Term < Precedence::Factor);
    assert!(Precedence::OrElse < Precedence::AndThen);
}

#[test]
fn keyword_logic_binds_into_a_bare_argument() {
    // `and` sits just above the bare-argument level, so it is consumed
    // while the first argument is parsed: the whole `a and b` becomes
    // the command's single argument.
    assert_eq!(
        expr("cmd a and b"),
        Expr::CommandCall {
            command: Box::new(ident("cmd")),
            args: vec![binop(ident("a"), BinaryOp::And, ident("b"))],
        }
    );
}

#[test]
fn pipe_and_redirect_have_no_infix_form_yet() {
    assert_eq!(
        parse("a | b"),
        Err(ParseError::UnexpectedInfix { found: Token::Pipe, at: 1 })
    );
    assert_eq!(
        parse("a -> b"),
        Err(ParseError::UnexpectedInfix { found: Token::RedirectOut, at: 1 })
    );
}

#[test]
fn block_can_stand_inside_an_expression() {
    assert_eq!(
        expr("{ 1 } + 2"),
        binop(Expr::Block(vec![num("1")]), BinaryOp::Add, num("2"))
    );
}
