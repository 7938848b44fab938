use able_script::ast::{BinOpKind, Block, Expr, ExprKind, Iden, Span, Stmt, StmtKind};
use able_script::error::{Error, ErrorKind};
use able_script::parser::Parser;
use able_script::spans::lie_in_order;
use able_script::token::{Lexeme, Token};
use able_script::variables::{Abool, Value};

fn word(text: &str) -> Token {
    match text {
        "functio" => Token::Functio,
        "bff" => Token::Bff,
        "var" => Token::Var,
        "print" => Token::Print,
        "melo" => Token::Melo,
        "if" => Token::If,
        "loop" => Token::Loop,
        "break" => Token::Break,
        "hopback" => Token::HopBack,
        "true" => Token::Bool(true),
        "false" => Token::Bool(false),
        "always" => Token::Abool(Abool::Always),
        "sometimes" => Token::Abool(Abool::Sometimes),
        "never" => Token::Abool(Abool::Never),
        "nul" => Token::Nul,
        "not" => Token::Not,
        _ => Token::Identifier(text.to_string()),
    }
}

fn mark(c: u8) -> Token {
    match c {
        b'(' => Token::LeftParen,
        b')' => Token::RightParen,
        b'[' => Token::LeftBracket,
        b']' => Token::RightBracket,
        b'{' => Token::LeftCurly,
        b'}' => Token::RightCurly,
        b';' => Token::Semicolon,
        b'.' => Token::Dot,
        b',' => Token::Comma,
        b'+' => Token::Plus,
        b'-' => Token::Minus,
        b'*' => Token::Star,
        b'/' => Token::FwdSlash,
        b'=' => Token::Equal,
        b'<' => Token::LessThan,
        b'>' => Token::GreaterThan,
        b'&' => Token::And,
        b'|' => Token::Or,
        b'\'' => Token::Char,
        _ => Token::Error,
    }
}

/// Splits a source text into tokens with their byte ranges.
fn lex(source: &str) -> Vec<Lexeme> {
    let bytes = source.as_bytes();
    let mut tokens = Vec::new();
    let mut i = 0;
    while i < bytes.len() {
        let c = bytes[i];
        let start = i;
        if c == b' ' || c == b'\n' || c == b'\t' {
            i += 1;
            continue;
        }
        let token = if c.is_ascii_alphabetic() || c == b'_' {
            while i < bytes.len() && (bytes[i].is_ascii_alphanumeric() || bytes[i] == b'_') {
                i += 1;
            }
            word(&source[start..i])
        } else if c.is_ascii_digit() {
            while i < bytes.len() && bytes[i].is_ascii_digit() {
                i += 1;
            }
            Token::Integer(source[start..i].parse().unwrap())
        } else if c == b'"' {
            i += 1;
            while bytes[i] != b'"' {
                i += 1;
            }
            i += 1;
            Token::String(source[start + 1..i - 1].to_string())
        } else if (c == b'=' || c == b'!') && i + 1 < bytes.len() && bytes[i + 1] == b'=' {
            i += 2;
            if c == b'=' {
                Token::EqualEqual
            } else {
                Token::NotEqual
            }
        } else {
            i += 1;
            mark(c)
        };
        tokens.push(Lexeme::new(token, Span::new(start, i)));
    }
    tokens
}

fn parse(source: &str) -> Result<Vec<Stmt>, Error> {
    Parser::new(lex(source)).init()
}

fn variable(name: &str, start: usize, end: usize) -> Expr {
    Expr::new(ExprKind::Variable(name.to_string()), Span::new(start, end))
}

fn number(i: i32, start: usize, end: usize) -> Expr {
    Expr::new(ExprKind::Literal(Value::Int(i)), Span::new(start, end))
}

fn binop(kind: BinOpKind, lhs: Expr, rhs: Expr, start: usize, end: usize) -> Expr {
    Expr::new(
        ExprKind::BinOp { lhs: Box::new(lhs), rhs: Box::new(rhs), kind },
        Span::new(start, end),
    )
}

fn iden(name: &str, start: usize, end: usize) -> Iden {
    Iden::new(name.to_string(), Span::new(start, end))
}

fn unexpected(token: Token, start: usize, end: usize) -> Result<Vec<Stmt>, Error> {
    Err(Error::new(ErrorKind::UnexpectedToken(token), Span::new(start, end)))
}

#[test]
fn no_tokens_no_statements() {
    assert_eq!(parse(""), Ok(vec![]));
    assert_eq!(Parser::new(Vec::new()).init(), Ok(vec![]));
}

#[test]
fn a_bare_declaration() {
    assert_eq!(
        parse("var x;"),
        Ok(vec![Stmt::new(StmtKind::Var { iden: iden("x", 4, 5), init: None }, Span::new(0, 6))])
    );
}

#[test]
fn a_declaration_with_a_value() {
    assert_eq!(
        parse("var x = 1;"),
        Ok(vec![Stmt::new(
            StmtKind::Var { iden: iden("x", 4, 5), init: Some(number(1, 8, 9)) },
            Span::new(0, 10),
        )])
    );
}

#[test]
fn a_function_definition() {
    assert_eq!(
        parse("functio f(a, b) { }"),
        Ok(vec![Stmt::new(
            StmtKind::Functio {
                iden: iden("f", 8, 9),
                args: vec![iden("a", 10, 11), iden("b", 13, 14)],
                body: Block { block: vec![] },
            },
            Span::new(0, 19),
        )])
    );
}

#[test]
fn a_function_definition_without_parameters() {
    assert_eq!(
        parse("functio f() { break; }"),
        Ok(vec![Stmt::new(
            StmtKind::Functio {
                iden: iden("f", 8, 9),
                args: vec![],
                body: Block { block: vec![Stmt::new(StmtKind::Break, Span::new(14, 20))] },
            },
            Span::new(0, 22),
        )])
    );
}

#[test]
fn no_comma_after_the_last_parameter() {
    assert_eq!(parse("functio f(a,) { }"), unexpected(Token::RightParen, 12, 13));
    assert_eq!(parse("functio f(,) { }"), unexpected(Token::Comma, 10, 11));
    assert_eq!(parse("functio f(a b) { }"), unexpected(Token::Identifier("b".to_string()), 12, 13));
    assert_eq!(parse("functio f(a, 1) { }"), unexpected(Token::Integer(1), 13, 14));
    assert_eq!(parse("functio 1() { }"), unexpected(Token::Integer(1), 8, 9));
    assert_eq!(parse("functio f { }"), unexpected(Token::LeftCurly, 10, 11));
}

#[test]
fn a_missing_parenthesis_is_found_at_the_brace() {
    assert_eq!(parse("if (x { }"), unexpected(Token::LeftCurly, 6, 7));
}

#[test]
fn a_conditional() {
    assert_eq!(
        parse("if (x) { y print; }"),
        Ok(vec![Stmt::new(
            StmtKind::If {
                cond: variable("x", 4, 5),
                body: Block {
                    block: vec![Stmt::new(StmtKind::Print(variable("y", 9, 10)), Span::new(9, 17))],
                },
            },
            Span::new(0, 19),
        )])
    );
}

#[test]
fn operators_bind_from_left_to_right() {
    let sum = binop(BinOpKind::Add, variable("a", 8, 9), variable("b", 12, 13), 10, 13);
    let product = binop(BinOpKind::Multiply, sum, variable("c", 16, 17), 14, 17);
    assert_eq!(
        parse("var x = a + b * c;"),
        Ok(vec![Stmt::new(
            StmtKind::Var { iden: iden("x", 4, 5), init: Some(product) },
            Span::new(0, 18),
        )])
    );
}

#[test]
fn every_operator_has_its_kind() {
    let cases = [
        ("+", BinOpKind::Add),
        ("-", BinOpKind::Subtract),
        ("*", BinOpKind::Multiply),
        ("/", BinOpKind::Divide),
        (">", BinOpKind::Greater),
        ("<", BinOpKind::Less),
        ("&", BinOpKind::And),
        ("|", BinOpKind::Or),
    ];
    for (text, kind) in cases {
        let source = format!("1 {} 2 print;", text);
        assert_eq!(
            parse(&source),
            Ok(vec![Stmt::new(
                StmtKind::Print(binop(kind, number(1, 0, 1), number(2, 4, 5), 2, 5)),
                Span::new(0, 12),
            )])
        );
    }
    assert_eq!(
        parse("1 == 2 print;"),
        Ok(vec![Stmt::new(
            StmtKind::Print(binop(BinOpKind::Equal, number(1, 0, 1), number(2, 5, 6), 2, 6)),
            Span::new(0, 13),
        )])
    );
    assert_eq!(
        parse("1 != 2 print;"),
        Ok(vec![Stmt::new(
            StmtKind::Print(binop(BinOpKind::NotEqual, number(1, 0, 1), number(2, 5, 6), 2, 6)),
            Span::new(0, 13),
        )])
    );
}

#[test]
fn parentheses_group_the_right_operand() {
    let product = binop(BinOpKind::Multiply, variable("b", 13, 14), variable("c", 17, 18), 15, 18);
    let sum = binop(BinOpKind::Add, variable("a", 8, 9), product, 10, 19);
    assert_eq!(
        parse("var x = a + (b * c);"),
        Ok(vec![Stmt::new(
            StmtKind::Var { iden: iden("x", 4, 5), init: Some(sum) },
            Span::new(0, 20),
        )])
    );
}

#[test]
fn an_operator_needs_a_left_operand() {
    assert_eq!(parse("var x = + 1;"), Err(Error::new(ErrorKind::MissingLhs, Span::new(8, 9))));
    assert_eq!(
        parse("var x = 1 + * 2;"),
        Err(Error::new(ErrorKind::MissingLhs, Span::new(12, 13)))
    );
    assert_eq!(parse("(/ 1) print;"), Err(Error::new(ErrorKind::MissingLhs, Span::new(1, 2))));
    assert_eq!(parse("f(== 1);"), Err(Error::new(ErrorKind::MissingLhs, Span::new(2, 4))));
    assert_eq!(parse("if (& a) { }"), Err(Error::new(ErrorKind::MissingLhs, Span::new(4, 5))));
}

#[test]
fn negation_takes_one_operand() {
    let negated = Expr::new(ExprKind::Not(Box::new(variable("a", 12, 13))), Span::new(8, 13));
    assert_eq!(
        parse("var x = not a;"),
        Ok(vec![Stmt::new(
            StmtKind::Var { iden: iden("x", 4, 5), init: Some(negated) },
            Span::new(0, 14),
        )])
    );
}

#[test]
fn negation_hands_the_buffer_to_its_operand() {
    let sum = binop(BinOpKind::Add, variable("a", 0, 1), variable("b", 8, 9), 6, 9);
    let negated = Expr::new(ExprKind::Not(Box::new(sum)), Span::new(2, 9));
    assert_eq!(
        parse("a not + b print;"),
        Ok(vec![Stmt::new(StmtKind::Print(negated), Span::new(0, 16))])
    );
}

#[test]
fn a_value_replaces_the_buffer() {
    assert_eq!(
        parse("a b print;"),
        Ok(vec![Stmt::new(StmtKind::Print(variable("b", 2, 3)), Span::new(0, 10))])
    );
}

#[test]
fn literals_of_every_kind() {
    let source = "f(1, \"two\", true, sometimes, nul, g);";
    let args = vec![
        number(1, 2, 3),
        Expr::new(ExprKind::Literal(Value::Str("two".to_string())), Span::new(5, 10)),
        Expr::new(ExprKind::Literal(Value::Bool(true)), Span::new(12, 16)),
        Expr::new(ExprKind::Literal(Value::Abool(Abool::Sometimes)), Span::new(18, 27)),
        Expr::new(ExprKind::Literal(Value::Nul), Span::new(29, 32)),
        variable("g", 34, 35),
    ];
    assert_eq!(
        parse(source),
        Ok(vec![Stmt::new(StmtKind::Call { iden: iden("f", 0, 1), args }, Span::new(0, 37))])
    );
}

#[test]
fn a_call_without_arguments() {
    assert_eq!(
        parse("f();"),
        Ok(vec![Stmt::new(StmtKind::Call { iden: iden("f", 0, 1), args: vec![] }, Span::new(0, 4))])
    );
}

#[test]
fn a_call_may_end_in_a_comma_but_not_begin_with_one() {
    assert_eq!(
        parse("f(a,);"),
        Ok(vec![Stmt::new(
            StmtKind::Call { iden: iden("f", 0, 1), args: vec![variable("a", 2, 3)] },
            Span::new(0, 6),
        )])
    );
    assert_eq!(parse("f(,);"), unexpected(Token::Comma, 2, 3));
    assert_eq!(parse("f(a,,b);"), unexpected(Token::Comma, 4, 5));
}

#[test]
fn an_argument_may_be_an_expression() {
    let sum = binop(BinOpKind::Add, variable("a", 2, 3), number(2, 6, 7), 4, 7);
    assert_eq!(
        parse("f(a + 2, b);"),
        Ok(vec![Stmt::new(
            StmtKind::Call { iden: iden("f", 0, 1), args: vec![sum, variable("b", 9, 10)] },
            Span::new(0, 12),
        )])
    );
}

#[test]
fn only_a_bare_variable_can_be_called() {
    assert_eq!(parse("1 + 2 (3);"), unexpected(Token::LeftParen, 6, 7));
    assert_eq!(parse("\"f\" ();"), unexpected(Token::LeftParen, 4, 5));
    assert_eq!(parse("a + b ();"), unexpected(Token::LeftParen, 6, 7));
}

#[test]
fn an_expression_may_not_be_empty() {
    assert_eq!(parse("var x = ;"), unexpected(Token::Semicolon, 8, 9));
    assert_eq!(parse("if () { }"), unexpected(Token::RightParen, 4, 5));
    assert_eq!(parse("() print;"), unexpected(Token::RightParen, 1, 2));
}

#[test]
fn a_print_statement() {
    assert_eq!(
        parse("\"hello\" print;"),
        Ok(vec![Stmt::new(
            StmtKind::Print(Expr::new(
                ExprKind::Literal(Value::Str("hello".to_string())),
                Span::new(0, 7),
            )),
            Span::new(0, 14),
        )])
    );
}

#[test]
fn a_statement_in_parentheses() {
    let sum = binop(BinOpKind::Add, number(1, 1, 2), number(2, 5, 6), 3, 6);
    assert_eq!(
        parse("(1 + 2) print;"),
        Ok(vec![Stmt::new(StmtKind::Print(sum), Span::new(0, 14))])
    );
}

#[test]
fn a_curse() {
    assert_eq!(
        parse("melo x;"),
        Ok(vec![Stmt::new(StmtKind::Melo(iden("x", 5, 6)), Span::new(0, 7))])
    );
    assert_eq!(parse("melo 1;"), unexpected(Token::Integer(1), 5, 6));
    assert_eq!(parse("melo x y"), unexpected(Token::Identifier("y".to_string()), 7, 8));
}

#[test]
fn a_loop_with_its_controls() {
    assert_eq!(
        parse("loop { hopback; break; }"),
        Ok(vec![Stmt::new(
            StmtKind::Loop {
                body: Block {
                    block: vec![
                        Stmt::new(StmtKind::HopBack, Span::new(7, 15)),
                        Stmt::new(StmtKind::Break, Span::new(16, 22)),
                    ],
                },
            },
            Span::new(0, 24),
        )])
    );
}

#[test]
fn blocks_nest() {
    let inner = Stmt::new(
        StmtKind::If {
            cond: variable("a", 11, 12),
            body: Block { block: vec![Stmt::new(StmtKind::Break, Span::new(16, 22))] },
        },
        Span::new(7, 24),
    );
    assert_eq!(
        parse("loop { if (a) { break; } }"),
        Ok(vec![Stmt::new(StmtKind::Loop { body: Block { block: vec![inner] } }, Span::new(0, 26))])
    );
}

#[test]
fn bare_keywords_need_their_semicolon() {
    assert_eq!(parse("break;"), Ok(vec![Stmt::new(StmtKind::Break, Span::new(0, 6))]));
    assert_eq!(parse("hopback;"), Ok(vec![Stmt::new(StmtKind::HopBack, Span::new(0, 8))]));
    assert_eq!(parse("break break"), unexpected(Token::Break, 6, 11));
    assert_eq!(parse("hopback 1;"), unexpected(Token::Integer(1), 8, 9));
}

#[test]
fn tokens_that_begin_no_statement() {
    assert_eq!(parse(")"), unexpected(Token::RightParen, 0, 1));
    assert_eq!(parse("nul print;"), unexpected(Token::Nul, 0, 3));
    assert_eq!(parse("+ 1;"), unexpected(Token::Plus, 0, 1));
    assert_eq!(parse("print;"), unexpected(Token::Print, 0, 5));
    assert_eq!(parse("var x; }"), unexpected(Token::RightCurly, 7, 8));
    assert_eq!(parse("bff x;"), unexpected(Token::Bff, 0, 3));
    assert_eq!(parse("'a' print;"), unexpected(Token::Char, 0, 1));
    assert_eq!(parse("a ; print;"), unexpected(Token::Semicolon, 2, 3));
}

#[test]
fn the_tokens_may_not_run_out_in_a_construct() {
    let eof = |at: usize| Err(Error::new(ErrorKind::UnexpectedEof, Span::new(at, at)));
    assert_eq!(parse("var"), eof(3));
    assert_eq!(parse("var x"), eof(5));
    assert_eq!(parse("var x = 1"), eof(9));
    assert_eq!(parse("var x = 1 +"), eof(11));
    assert_eq!(parse("var x = not"), eof(11));
    assert_eq!(parse("x"), eof(1));
    assert_eq!(parse("x print"), eof(7));
    assert_eq!(parse("f(a"), eof(3));
    assert_eq!(parse("f()"), eof(3));
    assert_eq!(parse("if"), eof(2));
    assert_eq!(parse("if (a)"), eof(6));
    assert_eq!(parse("loop {"), eof(6));
    assert_eq!(parse("loop { break;"), eof(13));
    assert_eq!(parse("functio"), eof(7));
    assert_eq!(parse("functio f("), eof(10));
    assert_eq!(parse("functio f(a"), eof(11));
    assert_eq!(parse("functio f(a,"), eof(12));
    assert_eq!(parse("melo x"), eof(6));
    assert_eq!(parse("break"), eof(5));
    assert_eq!(Error::unexpected_eof(4), Error::new(ErrorKind::UnexpectedEof, Span::new(4, 4)));
}

#[test]
fn the_first_error_ends_the_parse() {
    assert_eq!(parse("var a; var b = ; var c"), unexpected(Token::Semicolon, 15, 16));
}

#[test]
fn statements_come_in_their_order_with_spans_in_bounds() {
    let source = "var a = 1; a print; loop { f(a); break; } melo a;";
    let ast = parse(source).unwrap();
    assert_eq!(ast.len(), 4);
    let mut last_end = 0;
    for stmt in &ast {
        assert!(last_end <= stmt.span.start);
        assert!(stmt.span.start <= stmt.span.end);
        assert!(stmt.span.end <= source.len());
        last_end = stmt.span.end;
    }
    assert_eq!(ast[0].span, Span::new(0, 10));
    assert_eq!(ast[1].span, Span::new(11, 19));
    assert_eq!(ast[2].span, Span::new(20, 41));
    assert_eq!(ast[3].span, Span::new(42, 49));
}

#[test]
fn tokens_are_equal_by_kind_and_value() {
    assert_eq!(Token::Semicolon, Token::Semicolon);
    assert_ne!(Token::Semicolon, Token::Comma);
    assert_eq!(Token::Identifier("a".to_string()), Token::Identifier("a".to_string()));
    assert_ne!(Token::Identifier("a".to_string()), Token::Identifier("b".to_string()));
    assert_ne!(Token::Identifier("a".to_string()), Token::String("a".to_string()));
    assert_eq!(Token::Integer(3), Token::Integer(3));
    assert_ne!(Token::Integer(3), Token::Integer(4));
    assert_eq!(Token::Bool(true), Token::Bool(true));
    assert_ne!(Token::Bool(true), Token::Bool(false));
    assert_eq!(Token::Abool(Abool::Never), Token::Abool(Abool::Never));
    assert_ne!(Token::Abool(Abool::Never), Token::Abool(Abool::Always));
    assert_ne!(Token::Nul, Token::Error);
}

#[test]
fn operators_come_from_their_tokens() {
    assert_eq!(BinOpKind::from_token(Token::Plus), Ok(BinOpKind::Add));
    assert_eq!(BinOpKind::from_token(Token::Minus), Ok(BinOpKind::Subtract));
    assert_eq!(BinOpKind::from_token(Token::Star), Ok(BinOpKind::Multiply));
    assert_eq!(BinOpKind::from_token(Token::FwdSlash), Ok(BinOpKind::Divide));
    assert_eq!(BinOpKind::from_token(Token::EqualEqual), Ok(BinOpKind::Equal));
    assert_eq!(BinOpKind::from_token(Token::NotEqual), Ok(BinOpKind::NotEqual));
    assert_eq!(BinOpKind::from_token(Token::LessThan), Ok(BinOpKind::Less));
    assert_eq!(BinOpKind::from_token(Token::GreaterThan), Ok(BinOpKind::Greater));
    assert_eq!(BinOpKind::from_token(Token::And), Ok(BinOpKind::And));
    assert_eq!(BinOpKind::from_token(Token::Or), Ok(BinOpKind::Or));
    assert_eq!(BinOpKind::from_token(Token::Equal), Err(ErrorKind::UnexpectedToken(Token::Equal)));
    assert_eq!(BinOpKind::from_token(Token::Not), Err(ErrorKind::UnexpectedToken(Token::Not)));
}

#[test]
fn a_copy_of_a_tree_equals_the_tree() {
    let source =
        "functio f(a, b) { if (a + (not b)) { f(a, 1); } loop { break; } } var x = \"s\"; melo x;";
    let ast = parse(source).unwrap();
    assert_eq!(ast.len(), 3);
    let copy = ast.clone();
    assert_eq!(copy, ast);
    assert_eq!(ast[0].kind.clone(), ast[0].kind);
}

fn expr_in(e: &Expr, lo: usize, hi: usize) -> bool {
    lo <= e.span.start
        && e.span.start <= e.span.end
        && e.span.end <= hi
        && match &e.kind {
            ExprKind::BinOp { lhs, rhs, .. } => {
                expr_in(lhs, lo, e.span.start) && expr_in(rhs, e.span.start, e.span.end)
            }
            ExprKind::Not(operand) => {
                expr_in(operand, lo, e.span.end) && e.span.start <= operand.span.start
            }
            _ => true,
        }
}

fn iden_in(iden: &Iden, lo: usize, hi: usize) -> bool {
    lo <= iden.span.start && iden.span.start <= iden.span.end && iden.span.end <= hi
}

fn stmts_in(stmts: &[Stmt], lo: usize, hi: usize) -> bool {
    stmts.iter().all(|s| stmt_in(s, lo, hi))
        && stmts.windows(2).all(|pair| pair[0].span.end <= pair[1].span.start)
}

fn stmt_in(s: &Stmt, lo: usize, hi: usize) -> bool {
    let (start, end) = (s.span.start, s.span.end);
    lo <= start
        && start <= end
        && end <= hi
        && match &s.kind {
            StmtKind::If { cond, body } => {
                expr_in(cond, start, end) && stmts_in(&body.block, start, end)
            }
            StmtKind::Loop { body } => stmts_in(&body.block, start, end),
            StmtKind::Break | StmtKind::HopBack => true,
            StmtKind::Var { iden, init } => {
                iden_in(iden, start, end) && init.iter().all(|e| expr_in(e, start, end))
            }
            StmtKind::Functio { iden, args, body } => {
                iden_in(iden, start, end)
                    && args.iter().all(|a| iden_in(a, start, end))
                    && args.windows(2).all(|pair| pair[0].span.end <= pair[1].span.start)
                    && stmts_in(&body.block, start, end)
            }
            StmtKind::Call { iden, args } => {
                iden_in(iden, start, end) && args.iter().all(|a| expr_in(a, start, end))
            }
            StmtKind::Print(e) => expr_in(e, start, end),
            StmtKind::Melo(iden) => iden_in(iden, start, end),
        }
}

#[test]
fn every_node_lies_within_its_statement() {
    let sources = [
        "var a = 1 + 2 * (3 - b) / not c; a print;",
        "functio f(a, b, c) { if (a == b) { f(a + 1, b, (c)); } loop { hopback; break; } }",
        "a not + b print; f(); f(a,); melo f; (a) print;",
        "if ((a | b) & not (c != d)) { var x; var y = \"text\" + nul; }",
        "loop { loop { loop { x print; } } } break; hopback;",
    ];
    for source in sources {
        let ast = parse(source).unwrap();
        assert!(stmts_in(&ast, 0, source.len()));
    }
}

#[test]
fn one_statement_in_the_tree_for_each_in_the_source() {
    assert_eq!(parse("break;").unwrap().len(), 1);
    assert_eq!(parse("break; hopback;").unwrap().len(), 2);
    assert_eq!(parse("var a; var b; var c; var d; var e;").unwrap().len(), 5);
    assert_eq!(parse("loop { var a; var b; } if (a) { var c; }").unwrap().len(), 2);
    let mut source = String::new();
    for n in 0..100 {
        source.push_str("x print; ");
        assert_eq!(parse(&source).unwrap().len(), n + 1);
    }
}

#[test]
fn trees_are_equal_by_what_they_hold() {
    let tree = |source: &str| parse(source).unwrap();
    assert_eq!(tree("var x = a + b;"), tree("var x = a + b;"));
    assert_ne!(tree("var x = a + b;"), tree("var x = a - b;"));
    assert_ne!(tree("var x = a + b;"), tree("var x = a + c;"));
    assert_ne!(tree("var x = a + b;"), tree("var y = a + b;"));
    assert_ne!(tree("var x = a + b;"), tree("var x = a +  b;"));
    assert_ne!(tree("var x = a + b;"), tree("var x = a;"));
    assert_ne!(tree("var x = a;"), tree("var x;"));
    assert_ne!(tree("var x = not a;"), tree("var x = not b;"));
    assert_ne!(tree("var x = 1;"), tree("var x = 2;"));
    assert_ne!(tree("var x = 1;"), tree("var x = a;"));
    assert_ne!(tree("x print;"), tree("melo x;"));
    assert_ne!(tree("f(a);"), tree("f(b);"));
    assert_ne!(tree("f(a);"), tree("f(a, b);"));
    assert_ne!(tree("f(a);"), tree("g(a);"));
    assert_ne!(tree("break;"), tree("hopback;"));
    assert_ne!(tree("break;"), tree("break; break;"));
    assert_ne!(tree("loop { break; }"), tree("loop { hopback; }"));
    assert_ne!(tree("loop { break; }"), tree("loop { }"));
    assert_ne!(tree("if (a) { break; }"), tree("if (b) { break; }"));
    assert_ne!(tree("if (a) { break; }"), tree("if (a) { hopback; }"));
    assert_ne!(tree("functio f(a) { }"), tree("functio f(b) { }"));
    assert_ne!(tree("functio f(a) { }"), tree("functio f(a, b) { }"));
    assert_ne!(tree("functio f(a) { }"), tree("functio g(a) { }"));
    assert_ne!(tree("functio f(a) { }"), tree("functio f(a) { break; }"));
    assert_eq!(
        tree("functio f(a) { if (a) { f(1, \"x\"); } }"),
        tree("functio f(a) { if (a) { f(1, \"x\"); } }")
    );
}

#[test]
fn tokens_in_order_are_told_from_tokens_out_of_order() {
    let source = "var a = 1; a print;";
    let tokens = lex(source);
    assert!(lie_in_order(&tokens, source.len()));
    assert!(lie_in_order(&tokens, source.len() + 10));
    assert!(!lie_in_order(&tokens, source.len() - 1));
    assert!(lie_in_order(&Vec::new(), 0));
    let at = |start: usize, end: usize| Lexeme::new(Token::Semicolon, Span::new(start, end));
    assert!(lie_in_order(&vec![at(0, 0), at(0, 0), at(0, 3), at(3, 3)], 3));
    assert!(!lie_in_order(&vec![at(2, 1)], 3));
    assert!(!lie_in_order(&vec![at(0, 2), at(1, 3)], 3));
    assert!(!lie_in_order(&vec![at(0, 1), at(2, 3), at(1, 2)], 3));
    assert!(!lie_in_order(&vec![at(0, 1), at(1, 4)], 3));
    let mut swapped = lex(source);
    swapped.swap(1, 2);
    assert!(!lie_in_order(&swapped, source.len()));
}

#[test]
fn a_failed_parse_stops_where_the_error_was_detected() {
    let mut parser = Parser::new(lex("var x = + 1;"));
    assert_eq!(parser.init(), Err(Error::new(ErrorKind::MissingLhs, Span::new(8, 9))));
    assert_eq!(parser.init(), unexpected(Token::Semicolon, 11, 12));
    assert_eq!(parser.init(), Ok(vec![]));
}

#[test]
fn an_operator_without_a_left_operand_pulls_nothing_more() {
    let mut parser = Parser::new(lex("var x = + y print;"));
    assert_eq!(parser.init(), Err(Error::new(ErrorKind::MissingLhs, Span::new(8, 9))));
    assert_eq!(
        parser.init(),
        Ok(vec![Stmt::new(StmtKind::Print(variable("y", 10, 11)), Span::new(10, 18))])
    );
    let mut parser = Parser::new(lex("a + * b print;"));
    assert_eq!(parser.init(), Err(Error::new(ErrorKind::MissingLhs, Span::new(4, 5))));
    assert_eq!(
        parser.init(),
        Ok(vec![Stmt::new(StmtKind::Print(variable("b", 6, 7)), Span::new(6, 14))])
    );
}

#[test]
fn a_token_that_begins_nothing_pulls_nothing_more() {
    let mut parser = Parser::new(lex("; break;"));
    assert_eq!(parser.init(), unexpected(Token::Semicolon, 0, 1));
    assert_eq!(parser.init(), Ok(vec![Stmt::new(StmtKind::Break, Span::new(2, 8))]));
    let mut parser = Parser::new(lex("var x = } break;"));
    assert_eq!(parser.init(), unexpected(Token::RightCurly, 8, 9));
    assert_eq!(parser.init(), Ok(vec![Stmt::new(StmtKind::Break, Span::new(10, 16))]));
    let mut parser = Parser::new(lex("if (x { } hopback;"));
    assert_eq!(parser.init(), unexpected(Token::LeftCurly, 6, 7));
    assert_eq!(parser.init(), unexpected(Token::RightCurly, 8, 9));
    assert_eq!(parser.init(), Ok(vec![Stmt::new(StmtKind::HopBack, Span::new(10, 18))]));
}

#[test]
fn a_parser_at_the_end_of_its_tokens_reads_nothing() {
    let mut parser = Parser::new(lex("break; hopback;"));
    assert_eq!(parser.init().unwrap().len(), 2);
    assert_eq!(parser.init(), Ok(vec![]));
    let mut parser = Parser::new(lex("var x"));
    assert_eq!(parser.init(), Err(Error::new(ErrorKind::UnexpectedEof, Span::new(5, 5))));
    assert_eq!(parser.init(), Ok(vec![]));
}
