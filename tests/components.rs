use rutox::ast::{Expr, Stmt};
use rutox::ast_printer::AstPrinter;
use rutox::env::Env;
use rutox::error::RutoxError;
use rutox::interpreter::Interpreter;
use rutox::location::SrcLocation;
use rutox::number::Number;
use rutox::parser::Parser;
use rutox::pipeline::run_line;
use rutox::scanner::Scanner;
use rutox::token::TokenKind;
use rutox::value::LoxObj;

fn tokens_of(source: &str) -> Vec<rutox::token::Token> {
    Scanner::new(source.to_string()).scan_tokens().ok().unwrap()
}

fn expression_of(source: &str) -> Expr {
    Parser::new(tokens_of(source)).parse_expression().ok().unwrap()
}

fn number(n: i64) -> LoxObj {
    LoxObj::Number(Number::from_integer(n).unwrap(), SrcLocation::new(1, 1))
}

#[test]
fn location_constructor_and_text() {
    let l = SrcLocation::new(3, 14);
    assert_eq!(l.line, 3);
    assert_eq!(l.col, 14);
    assert_eq!(l.render(), "3:14");
}

#[test]
fn scanner_produces_kinds_and_locations() {
    let tokens = tokens_of("var x = 12.5; // note\nprint x >= \"hi\";");
    let kinds: Vec<TokenKind> = tokens.iter().map(|t| t.kind).collect();
    assert_eq!(
        kinds,
        vec![
            TokenKind::Var,
            TokenKind::Identifier,
            TokenKind::Equal,
            TokenKind::Number,
            TokenKind::Semicolon,
            TokenKind::Print,
            TokenKind::Identifier,
            TokenKind::GreaterEqual,
            TokenKind::String,
            TokenKind::Semicolon,
            TokenKind::Eof,
        ]
    );
    assert_eq!(tokens[1].text, "x");
    assert_eq!(tokens[3].number.render(), "12.5");
    assert_eq!(tokens[3].lexeme, "12.5");
    assert_eq!(tokens[8].text, "hi");
    assert_eq!(tokens[8].lexeme, "\"hi\"");
    assert_eq!(tokens[5].location.line, 2);
    assert_eq!(tokens[5].location.col, 5);
    assert_eq!(tokens[3].describe(), "<Number(12.5) at 1:12>");
    assert_eq!(tokens[0].describe(), "<var at 1:3>");
    assert_eq!(TokenKind::LParen.name(), "LParen");
}

#[test]
fn dot_without_digit_is_not_part_of_number() {
    let tokens = tokens_of("1.");
    assert_eq!(tokens[0].kind, TokenKind::Number);
    assert_eq!(tokens[0].lexeme, "1");
    assert_eq!(tokens[1].kind, TokenKind::Dot);
    assert_eq!(tokens[2].kind, TokenKind::Eof);
}

#[test]
fn rendered_numbers_scan_back() {
    for text in ["0", "7", "12.5", "0.000001", "999999999999.999999"] {
        let tokens = tokens_of(text);
        assert_eq!(tokens.len(), 2);
        assert_eq!(tokens[0].kind, TokenKind::Number);
        assert_eq!(tokens[0].number.render(), text);
        let again = tokens_of(&tokens[0].number.render());
        assert_eq!(again[0].number.scaled(), tokens[0].number.scaled());
    }
}

#[test]
fn printer_shows_precedence() {
    let e = expression_of("1 + 2 * -3 == (4)");
    assert_eq!(AstPrinter::render(&e), "(== (+ 1 (* 2 (- 3))) (group 4 ))");
    let e = expression_of("a = b or c and !d");
    assert_eq!(AstPrinter::render(&e), "(= a (or b (and c (! d))))");
    let e = expression_of("\"s\" + nil");
    assert_eq!(AstPrinter::render(&e), "(+ \"s\" nil)");
}

#[test]
fn parser_builds_statements() {
    let stmts = Parser::new(tokens_of("var a; { print a; } if (a) a = 1; else print 2;"))
        .parse()
        .ok()
        .unwrap();
    assert_eq!(stmts.len(), 3);
    assert!(matches!(stmts[0], Stmt::Var(_, None, _)));
    match &stmts[1] {
        Stmt::Block(inner, _) => assert_eq!(inner.len(), 1),
        _ => panic!("expected a block"),
    }
    assert!(matches!(stmts[2], Stmt::If(_, _, Some(_), _)));
}

#[test]
fn parser_errors_name_the_expectation() {
    let error = Parser::new(tokens_of("print 1")).parse().err().unwrap();
    assert_eq!(error.render(), "SyntaxError: Expect `;` after print value.\n");
    let error = Parser::new(tokens_of("1 = 2;")).parse().err().unwrap();
    assert_eq!(
        error.render(),
        "SyntaxError: Expect assignment target to be a variable.\n"
    );
    let error = Parser::new(tokens_of("(1;")).parse_expression().err().unwrap();
    assert_eq!(error.render(), "SyntaxError: Expect `)` after expression.");
    let error = Parser::new(tokens_of("{ print 1;")).parse().err().unwrap();
    assert_eq!(error.render(), "SyntaxError: Expect `}` after block.\n");
}

#[test]
fn environment_scopes() {
    let mut env = Env::default();
    env.define("x", number(1));
    assert!(env.get("x").unwrap().is_equal(&number(1)));
    assert!(env.get("y").is_none());
    let mut inner = Env::new(Box::new(env));
    inner.define("x", number(2));
    assert!(inner.get("x").unwrap().is_equal(&number(2)));
    inner.exit_scope();
    assert!(inner.get("x").unwrap().is_equal(&number(1)));
    inner.enter_scope();
    assert!(inner.assign("x", number(3)).is_ok());
    assert!(inner.assign("z", number(3)).is_err());
    inner.exit_scope();
    assert!(inner.get("x").unwrap().is_equal(&number(3)));
}

#[test]
fn numbers_do_fixed_point_arithmetic() {
    let a = Number::from_integer(7).unwrap();
    let b = Number::from_integer(2).unwrap();
    assert_eq!(a.div(&b).ok().unwrap().render(), "3.5");
    assert_eq!(a.mul(&b).ok().unwrap().render(), "14");
    assert_eq!(a.sub(&b).ok().unwrap().render(), "5");
    assert_eq!(a.neg().render(), "-7");
    assert_eq!(a.neg().whole(), -7);
    assert!(b.lt(&a));
    assert!(Number::from_integer(1_000_000_000_000).is_none());
    assert!(Number::from_scaled(-5).unwrap().render() == "-0.000005");
}

#[test]
fn details_show_the_source_around_the_error() {
    let source = "var a = 1;\nprint a +;\nprint 3;";
    let mut interpreter = Interpreter::new();
    let error = rutox::pipeline::run(&mut interpreter, source.to_string()).err().unwrap();
    assert_eq!(error.location().line, 2);
    let expected = "  --> main.lox:2:10\n   | \n 1 | var a = 1;\n 2 | print a +;\n   |          ^ the error occurred here\n 3 | print 3;\n   | ";
    assert_eq!(error.details("main.lox", source), expected);
}

#[test]
fn details_on_the_first_line() {
    let error = RutoxError::Runtime("boom".to_string(), SrcLocation::new(1, 3));
    assert_eq!(
        error.details("f", "abc"),
        "  --> f:1:3\n   | \n 1 | abc\n   |   ^ the error occurred here\n   | "
    );
    assert_eq!(error.render(), "RuntimeError: boom.");
    let bug = RutoxError::Programmer("bad".to_string(), SrcLocation::new(1, 1));
    assert_eq!(bug.render(), "ProgrammerError: bad.\nThis is a bug in rutox.");
}

#[test]
fn repl_lines_keep_variables() {
    let mut interpreter = Interpreter::new();
    assert!(run_line(&mut interpreter, "var a = 2;".to_string()).ok().unwrap().is_none());
    let value = run_line(&mut interpreter, "a * 3".to_string()).ok().unwrap().unwrap();
    assert_eq!(value.render(), "6");
    assert!(run_line(&mut interpreter, "print a;".to_string()).ok().unwrap().is_none());
    assert_eq!(interpreter.take_output(), vec!["2".to_string()]);
}
