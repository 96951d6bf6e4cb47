use compilador_rust_c::ast::{BinOp, Expr, Stmt, UnOp};
use compilador_rust_c::compile;
use compilador_rust_c::diag::{DiagKind, Phase};
use compilador_rust_c::lexer::Lexer;
use compilador_rust_c::parser::Parser;
use compilador_rust_c::token::Token;

fn run(src: &str) -> compilador_rust_c::CompilerOutput {
    compile(src.as_bytes().to_vec())
}

fn token_kinds(src: &str) -> Vec<Token> {
    run(src).tokens.into_iter().map(|(t, _)| t).collect()
}

#[test]
fn declaration_with_addition() {
    let out = run("var x = 1 + 2;");
    let kinds: Vec<Token> = out.tokens.iter().map(|(t, _)| t.clone()).collect();
    assert_eq!(
        kinds,
        vec![
            Token::Var,
            Token::Ident(b"x".to_vec()),
            Token::Assign,
            Token::IntLit(1),
            Token::Plus,
            Token::IntLit(2),
            Token::Semi,
            Token::End,
        ]
    );
    for (_, line) in &out.tokens {
        assert_eq!(*line, 1);
    }
    assert!(out.error.is_none());
    let ast = out.ast.expect("parse should succeed");
    assert_eq!(
        ast,
        vec![Stmt::VarDecl {
            name: b"x".to_vec(),
            init: Expr::Binary(
                BinOp::Add,
                Box::new(Expr::IntLit(1)),
                Box::new(Expr::IntLit(2)),
            ),
        }]
    );
}

#[test]
fn conditional_without_else() {
    let out = run("if (x) { y; }");
    assert!(out.error.is_none());
    let ast = out.ast.expect("parse should succeed");
    assert_eq!(
        ast,
        vec![Stmt::If {
            cond: Expr::Var(b"x".to_vec()),
            then_branch: vec![Stmt::ExprStmt(Expr::Var(b"y".to_vec()))],
            else_branch: None,
        }]
    );
}

#[test]
fn conditional_with_else() {
    let out = run("if (x) { y; } else { z; }");
    let ast = out.ast.expect("parse should succeed");
    assert_eq!(
        ast,
        vec![Stmt::If {
            cond: Expr::Var(b"x".to_vec()),
            then_branch: vec![Stmt::ExprStmt(Expr::Var(b"y".to_vec()))],
            else_branch: Some(vec![Stmt::ExprStmt(Expr::Var(b"z".to_vec()))]),
        }]
    );
}

#[test]
fn missing_initializer_fails_at_semicolon_line() {
    let out = run("var x = ;");
    assert!(out.ast.is_none());
    let d = out.error.expect("parse should fail");
    assert_eq!(d.phase, Phase::Syntactic);
    assert_eq!(d.kind, DiagKind::ExpectedExpression);
    assert_eq!(d.line, 1);
    assert_eq!(d.message(), "expected an expression");
    // the complete token stream still comes back, closed by End
    assert_eq!(out.tokens.last().unwrap().0, Token::End);
}

#[test]
fn missing_initializer_on_later_line() {
    let out = run("var x =\n;");
    let d = out.error.expect("parse should fail");
    assert_eq!(d.phase, Phase::Syntactic);
    assert_eq!(d.kind, DiagKind::ExpectedExpression);
    assert_eq!(d.line, 2);
}

#[test]
fn unterminated_string_fails_on_opening_line() {
    let out = run("\"abc");
    let d = out.error.expect("lexing should fail");
    assert_eq!(d.phase, Phase::Lexical);
    assert_eq!(d.kind, DiagKind::UnterminatedString);
    assert_eq!(d.line, 1);
    // only tokens recognized before the failure: none here
    assert!(out.tokens.is_empty());
    assert!(out.ast.is_none());
}

#[test]
fn unterminated_string_keeps_earlier_tokens() {
    let out = run("x ;\n\"abc");
    let d = out.error.expect("lexing should fail");
    assert_eq!(d.phase, Phase::Lexical);
    assert_eq!(d.line, 2);
    let kinds: Vec<Token> = out.tokens.into_iter().map(|(t, _)| t).collect();
    assert_eq!(kinds, vec![Token::Ident(b"x".to_vec()), Token::Semi]);
}

#[test]
fn whitespace_and_comments_yield_only_end() {
    let out = run("   // just a comment\n\t\r\n  // another\n");
    assert_eq!(token_kinds("   // just a comment\n\t\r\n  // another\n"), vec![Token::End]);
    assert!(out.error.is_none());
    assert_eq!(out.ast.expect("parse should succeed"), vec![]);
}

#[test]
fn lexing_is_deterministic() {
    let a = run("var x = 1 + 2; // twice");
    let b = run("var x = 1 + 2; // twice");
    assert_eq!(a.tokens, b.tokens);
    assert_eq!(a.ast, b.ast);
    assert_eq!(a.error, b.error);
}

#[test]
fn parse_failure_is_idempotent() {
    let out = run("var x = ;");
    let tokens = out.tokens;
    let mut p1 = Parser::new(&tokens);
    let r1 = p1.parse();
    let mut p2 = Parser::new(&tokens);
    let r2 = p2.parse();
    assert_eq!(r1.unwrap_err(), r2.unwrap_err());
}

#[test]
fn relexing_concatenated_lexemes_keeps_categories() {
    // lexemes of `x = 1 + 2 ;` concatenated without the spaces
    let first = token_kinds("x = 1 + 2 ;");
    let second = token_kinds("x=1+2;");
    assert_eq!(first, second);
}

#[test]
fn precedence_multiplication_binds_tighter() {
    let ast = run("x = 1 + 2 * 3;").ast.expect("parse should succeed");
    assert_eq!(
        ast,
        vec![Stmt::Assign {
            name: b"x".to_vec(),
            value: Expr::Binary(
                BinOp::Add,
                Box::new(Expr::IntLit(1)),
                Box::new(Expr::Binary(
                    BinOp::Mul,
                    Box::new(Expr::IntLit(2)),
                    Box::new(Expr::IntLit(3)),
                )),
            ),
        }]
    );
}

#[test]
fn binary_operators_are_left_associative() {
    let ast = run("x = 1 - 2 - 3;").ast.expect("parse should succeed");
    assert_eq!(
        ast,
        vec![Stmt::Assign {
            name: b"x".to_vec(),
            value: Expr::Binary(
                BinOp::Sub,
                Box::new(Expr::Binary(
                    BinOp::Sub,
                    Box::new(Expr::IntLit(1)),
                    Box::new(Expr::IntLit(2)),
                )),
                Box::new(Expr::IntLit(3)),
            ),
        }]
    );
}

#[test]
fn unary_binds_tighter_than_binary() {
    let ast = run("x = -1 + !true;").ast.expect("parse should succeed");
    assert_eq!(
        ast,
        vec![Stmt::Assign {
            name: b"x".to_vec(),
            value: Expr::Binary(
                BinOp::Add,
                Box::new(Expr::Unary(UnOp::Neg, Box::new(Expr::IntLit(1)))),
                Box::new(Expr::Unary(UnOp::Not, Box::new(Expr::BoolLit(true)))),
            ),
        }]
    );
}

#[test]
fn grouping_resets_precedence() {
    let ast = run("x = (1 + 2) * 3;").ast.expect("parse should succeed");
    assert_eq!(
        ast,
        vec![Stmt::Assign {
            name: b"x".to_vec(),
            value: Expr::Binary(
                BinOp::Mul,
                Box::new(Expr::Group(Box::new(Expr::Binary(
                    BinOp::Add,
                    Box::new(Expr::IntLit(1)),
                    Box::new(Expr::IntLit(2)),
                )))),
                Box::new(Expr::IntLit(3)),
            ),
        }]
    );
}

#[test]
fn two_character_operators_win_longest_match() {
    assert_eq!(
        token_kinds("a <= b >= c == d != e && f || g"),
        vec![
            Token::Ident(b"a".to_vec()),
            Token::Le,
            Token::Ident(b"b".to_vec()),
            Token::Ge,
            Token::Ident(b"c".to_vec()),
            Token::EqEq,
            Token::Ident(b"d".to_vec()),
            Token::NotEq,
            Token::Ident(b"e".to_vec()),
            Token::AndAnd,
            Token::Ident(b"f".to_vec()),
            Token::OrOr,
            Token::Ident(b"g".to_vec()),
            Token::End,
        ]
    );
}

#[test]
fn float_literal_is_decoded() {
    let kinds = token_kinds("1.25");
    assert_eq!(kinds, vec![Token::FloatLit(1, 25, 2), Token::End]);
    let kinds = token_kinds("3.05");
    assert_eq!(kinds, vec![Token::FloatLit(3, 5, 2), Token::End]);
}

#[test]
fn integer_then_lone_dot_is_unrecognized() {
    let out = run("x = 1.;");
    let d = out.error.expect("lexing should fail");
    assert_eq!(d.phase, Phase::Lexical);
    assert_eq!(d.kind, DiagKind::UnrecognizedChar(b'.'));
}

#[test]
fn second_decimal_point_is_malformed() {
    let out = run("x = 1.2.3;");
    let d = out.error.expect("lexing should fail");
    assert_eq!(d.phase, Phase::Lexical);
    assert_eq!(d.kind, DiagKind::MalformedNumber);
    assert_eq!(d.message(), "malformed numeric literal");
}

#[test]
fn oversized_integer_is_malformed() {
    let out = run("x = 99999999999999999999;");
    let d = out.error.expect("lexing should fail");
    assert_eq!(d.kind, DiagKind::MalformedNumber);
    // 19 digits still fit
    let out = run("x = 9999999999999999999;");
    assert!(out.error.is_none());
    assert!(out.tokens.iter().any(|(t, _)| *t == Token::IntLit(9999999999999999999)));
}

#[test]
fn string_literal_contents_are_kept() {
    let out = run("print \"hi there\";");
    assert!(out.error.is_none());
    assert_eq!(
        out.ast.unwrap(),
        vec![Stmt::Print(Expr::StrLit(b"hi there".to_vec()))]
    );
}

#[test]
fn unrecognized_character_fails_lexing() {
    let out = run("x = 1 @ 2;");
    let d = out.error.expect("lexing should fail");
    assert_eq!(d.phase, Phase::Lexical);
    assert_eq!(d.kind, DiagKind::UnrecognizedChar(b'@'));
    assert_eq!(d.message(), "unrecognized character");
}

#[test]
fn lone_ampersand_is_unrecognized() {
    let out = run("a & b;");
    let d = out.error.expect("lexing should fail");
    assert_eq!(d.kind, DiagKind::UnrecognizedChar(b'&'));
}

#[test]
fn while_loop_parses() {
    let ast = run("while (x < 3) { x = x + 1; }").ast.expect("parse should succeed");
    assert_eq!(ast.len(), 1);
    match &ast[0] {
        Stmt::While { cond, body } => {
            assert_eq!(
                *cond,
                Expr::Binary(
                    BinOp::Less,
                    Box::new(Expr::Var(b"x".to_vec())),
                    Box::new(Expr::IntLit(3)),
                )
            );
            assert_eq!(body.len(), 1);
        }
        other => panic!("expected a loop, got {:?}", other),
    }
}

#[test]
fn bare_block_and_print() {
    let ast = run("{ print 1; print 2; }").ast.expect("parse should succeed");
    assert_eq!(
        ast,
        vec![Stmt::Block(vec![
            Stmt::Print(Expr::IntLit(1)),
            Stmt::Print(Expr::IntLit(2)),
        ])]
    );
}

#[test]
fn unclosed_block_is_premature_end() {
    let out = run("{ x;");
    let d = out.error.expect("parse should fail");
    assert_eq!(d.phase, Phase::Syntactic);
    assert_eq!(d.kind, DiagKind::ExpectedRBrace);
}

#[test]
fn missing_semicolon_is_reported() {
    let out = run("print 1");
    let d = out.error.expect("parse should fail");
    assert_eq!(d.kind, DiagKind::ExpectedSemicolon);
    assert_eq!(d.message(), "expected ';'");
}

#[test]
fn var_without_identifier_is_reported() {
    let out = run("var = 1;");
    let d = out.error.expect("parse should fail");
    assert_eq!(d.kind, DiagKind::ExpectedIdentifier);
}

#[test]
fn var_without_assignment_is_reported() {
    let out = run("var x 1;");
    let d = out.error.expect("parse should fail");
    assert_eq!(d.kind, DiagKind::ExpectedAssign);
}

#[test]
fn conditional_without_parenthesis_is_reported() {
    let out = run("if x { y; }");
    let d = out.error.expect("parse should fail");
    assert_eq!(d.kind, DiagKind::ExpectedLParen);
    let out = run("if (x { y; }");
    let d = out.error.expect("parse should fail");
    assert_eq!(d.kind, DiagKind::ExpectedRParen);
}

#[test]
fn deep_nesting_is_rejected_not_overflowed() {
    let mut src = String::from("x = ");
    for _ in 0..400 {
        src.push('(');
    }
    src.push('1');
    for _ in 0..400 {
        src.push(')');
    }
    src.push(';');
    let out = run(&src);
    let d = out.error.expect("parse should fail");
    assert_eq!(d.phase, Phase::Syntactic);
    assert_eq!(d.kind, DiagKind::DepthExceeded);
    assert_eq!(d.message(), "nesting too deep");
}

#[test]
fn moderate_nesting_is_accepted() {
    let mut src = String::from("x = ");
    for _ in 0..40 {
        src.push('(');
    }
    src.push('1');
    for _ in 0..40 {
        src.push(')');
    }
    src.push(';');
    let out = run(&src);
    assert!(out.error.is_none());
    assert!(out.ast.is_some());
}

#[test]
fn line_numbers_follow_newlines_and_comments() {
    let out = run("var x = 1;\n// note\ny = 2;");
    assert!(out.error.is_none());
    let lines: Vec<u64> = out.tokens.iter().map(|(_, l)| *l).collect();
    assert_eq!(lines, vec![1, 1, 1, 1, 1, 3, 3, 3, 3, 3]);
}

#[test]
fn pull_based_lexer_stays_on_end() {
    let mut lx = Lexer::new(b"x".to_vec());
    let (t1, l1) = lx.next_token().unwrap();
    assert_eq!(t1, Token::Ident(b"x".to_vec()));
    assert_eq!(l1, 1);
    assert_eq!(lx.next_token().unwrap(), (Token::End, 1));
    assert_eq!(lx.next_token().unwrap(), (Token::End, 1));
    assert_eq!(lx.next_token().unwrap(), (Token::End, 1));
}

#[test]
fn keywords_are_not_identifiers() {
    assert_eq!(
        token_kinds("var variable whilex true falsey"),
        vec![
            Token::Var,
            Token::Ident(b"variable".to_vec()),
            Token::Ident(b"whilex".to_vec()),
            Token::BoolLit(true),
            Token::Ident(b"falsey".to_vec()),
            Token::End,
        ]
    );
}

#[test]
fn statement_count_never_exceeds_consumed_tokens() {
    let out = run("x; y; z; { a; b; }");
    let ast = out.ast.expect("parse should succeed");
    // non-End token count bounds the statement count
    assert!(ast.len() <= out.tokens.len() - 1);
}

#[test]
fn loop_body_must_be_a_block() {
    let out = run("while (x) y;");
    let d = out.error.expect("parse should fail");
    assert_eq!(d.kind, DiagKind::ExpectedLBrace);
    assert_eq!(d.message(), "expected '{'");
}

#[test]
fn float_literal_in_expression() {
    let ast = run("var f = 1.5 + 2.25;").ast.expect("parse should succeed");
    assert_eq!(
        ast,
        vec![Stmt::VarDecl {
            name: b"f".to_vec(),
            init: Expr::Binary(
                BinOp::Add,
                Box::new(Expr::FloatLit(1, 5, 1)),
                Box::new(Expr::FloatLit(2, 25, 2)),
            ),
        }]
    );
}
