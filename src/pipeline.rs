use vstd::prelude::*;
use crate::ast::{stmts_view, Stmt};
use crate::error::RutoxError;
use crate::interpreter::{eval as eval_expr, exec_stmts, obj_result, unit_result, Interpreter};
use crate::parser::{parse_expression_from, parse_tokens, Parser};
use crate::scanner::{scan, views, Scanner};
use crate::token::Token;
use crate::value::{LoxObj, Obj};

verus! {

/// Scans a source text, reads it as one expression and evaluates it in
/// fresh scopes.
pub fn eval(source: String) -> (r: Result<LoxObj, RutoxError>)
    ensures
        match scan(source@) {
            Err(d) => r is Err && r->Err_0@ == d,
            Ok(tvs) => exists|ts: Seq<Token>|
                #![trigger views(ts)]
                views(ts) == tvs && match parse_expression_from(ts, 0) {
                    Err(d) => r is Err && r->Err_0@ == d,
                    Ok(e) => obj_result(r) == eval_expr(seq![Map::<Seq<char>, Obj>::empty()], e).0,
                },
        },
{
    let mut scanner = Scanner::new(source);
    let tokens = scanner.scan_tokens()?;
    let ghost ts = tokens@;
    let mut parser = Parser::new(tokens);
    let expr = parser.parse_expression()?;
    let mut interpreter = Interpreter::new();
    let r = interpreter.evaluate(&expr);
    assert(views(ts) == views(ts));
    r
}

/// Scans and parses a source text, then executes its statements with
/// `interpreter`. Nothing runs when the text does not scan or parse.
pub fn run(interpreter: &mut Interpreter, source: String) -> (r: Result<(), RutoxError>)
    ensures
        match scan(source@) {
            Err(d) => {
                &&& r is Err && r->Err_0@ == d
                &&& final(interpreter).scopes() == old(interpreter).scopes()
                &&& final(interpreter).printed() == old(interpreter).printed()
            },
            Ok(tvs) => exists|ts: Seq<Token>|
                #![trigger views(ts)]
                views(ts) == tvs && match parse_tokens(ts) {
                    Err(d) => {
                        &&& r is Err && r->Err_0@ == d
                        &&& final(interpreter).scopes() == old(interpreter).scopes()
                        &&& final(interpreter).printed() == old(interpreter).printed()
                    },
                    Ok(svs) => exists|ss: Seq<Stmt>|
                        #![trigger stmts_view(ss)]
                        stmts_view(ss) == svs && ({
                            let (res, env, out) = exec_stmts(old(interpreter).scopes(), ss);
                            &&& unit_result(r) == res
                            &&& final(interpreter).scopes() == env
                            &&& final(interpreter).printed() == old(interpreter).printed() + out
                        }),
                },
        },
{
    let mut scanner = Scanner::new(source);
    let tokens = scanner.scan_tokens()?;
    let ghost ts = tokens@;
    let mut parser = Parser::new(tokens);
    let stmts = match parser.parse() {
        Ok(stmts) => stmts,
        Err(e) => {
            assert(views(ts) == views(ts));
            return Err(e);
        },
    };
    let ghost ss = stmts@;
    let r = interpreter.interpret(stmts);
    assert(views(ts) == views(ts));
    assert(stmts_view(ss) == stmts_view(ss));
    r
}

/// Runs one line of interactive input with `interpreter`. A line that is a
/// single expression is evaluated and its value returned; any other line
/// is parsed and executed as statements, and nothing is returned.
pub fn run_line(interpreter: &mut Interpreter, source: String) -> (r: Result<Option<LoxObj>, RutoxError>)
    ensures
        match scan(source@) {
            Err(d) => {
                &&& r is Err && r->Err_0@ == d
                &&& final(interpreter).scopes() == old(interpreter).scopes()
                &&& final(interpreter).printed() == old(interpreter).printed()
            },
            Ok(tvs) => exists|ts: Seq<Token>|
                #![trigger views(ts)]
                views(ts) == tvs && match parse_expression_from(ts, 0) {
                    Ok(e) => {
                        let (res, env) = eval_expr(old(interpreter).scopes(), e);
                        &&& match r {
                            Ok(Some(v)) => res == Ok::<Obj, crate::error::Diag>(v@),
                            Ok(None) => false,
                            Err(x) => res == Err::<Obj, crate::error::Diag>(x@),
                        }
                        &&& final(interpreter).scopes() == env
                        &&& final(interpreter).printed() == old(interpreter).printed()
                    },
                    Err(_) => match parse_tokens(ts) {
                        Err(d) => {
                            &&& r is Err && r->Err_0@ == d
                            &&& final(interpreter).scopes() == old(interpreter).scopes()
                            &&& final(interpreter).printed() == old(interpreter).printed()
                        },
                        Ok(svs) => exists|ss: Seq<Stmt>|
                            #![trigger stmts_view(ss)]
                            stmts_view(ss) == svs && ({
                                let (res, env, out) = exec_stmts(old(interpreter).scopes(), ss);
                                &&& r is Ok ==> r->Ok_0 is None
                                &&& unit_result(
                                    match r {
                                        Ok(_) => Ok(()),
                                        Err(x) => Err(x),
                                    },
                                ) == res
                                &&& final(interpreter).scopes() == env
                                &&& final(interpreter).printed() == old(interpreter).printed()
                                    + out
                            }),
                    },
                },
        },
{
    let mut scanner = Scanner::new(source);
    let tokens = scanner.scan_tokens()?;
    let ghost ts = tokens@;
    let mut parser = Parser::new(tokens);
    match parser.parse_expression() {
        Ok(expr) => {
            let r = interpreter.evaluate(&expr);
            assert(views(ts) == views(ts));
            return match r {
                Ok(v) => Ok(Some(v)),
                Err(e) => Err(e),
            };
        },
        Err(_) => {},
    }
    let mut parser = Parser::new(parser.into_tokens());
    let stmts = match parser.parse() {
        Ok(stmts) => stmts,
        Err(e) => {
            assert(views(ts) == views(ts));
            return Err(e);
        },
    };
    let ghost ss = stmts@;
    let r = interpreter.interpret(stmts);
    assert(views(ts) == views(ts));
    assert(stmts_view(ss) == stmts_view(ss));
    match r {
        Ok(()) => Ok(None),
        Err(e) => Err(e),
    }
}

} // verus!
