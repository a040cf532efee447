use rutox::error::RutoxError;
use rutox::interpreter::Interpreter;
use rutox::pipeline::{eval, run};
use rutox::value::LoxObj;

fn eval_to_string(input: &str) -> String {
    eval(input.to_string()).ok().unwrap().render()
}

fn get_error(input: String) -> String {
    eval(input).err().unwrap().render()
}

fn run_program(source: &str) -> (Result<(), RutoxError>, Vec<String>) {
    let mut interpreter = Interpreter::new();
    let result = run(&mut interpreter, source.to_string());
    (result, interpreter.take_output())
}

#[test]
fn it_knows_math() {
    let input = "1.0 + 1.0 * 2.0 - 3.0 / 4.0";

    let result = eval_to_string(input);

    assert_eq!(result, "2.25");
}

#[test]
fn it_understands_equality() {
    let result = eval_to_string("1.0 == 1.0");
    assert_eq!(result, "true");

    let result = eval_to_string("1.0 != 2.0");
    assert_eq!(result, "true");

    let result = eval_to_string("\"hi\" == \"hi\"");
    assert_eq!(result, "true");

    let result = eval_to_string("\"hi\" != \"hello\"");
    assert_eq!(result, "true");

    let result = eval_to_string("true == true");
    assert_eq!(result, "true");

    let result = eval_to_string("false == false");
    assert_eq!(result, "true");

    let result = eval_to_string("true != false");
    assert_eq!(result, "true");

    let result = eval_to_string("nil == nil");
    assert_eq!(result, "true");

    let result = eval_to_string("nil != false");
    assert_eq!(result, "true");
}

#[test]
fn it_understands_comparison() {
    let result = eval_to_string("1.0 < 2.0");
    assert_eq!(result, "true");

    let result = eval_to_string("1.0 <= 2.0");
    assert_eq!(result, "true");

    let result = eval_to_string("2.0 > 1.0");
    assert_eq!(result, "true");

    let result = eval_to_string("2.0 >= 1.0");
    assert_eq!(result, "true");

    let result = eval_to_string("1.0 > 2.0");
    assert_eq!(result, "false");

    let result = eval_to_string("1.0 >= 2.0");
    assert_eq!(result, "false");

    let result = eval_to_string("2 < 1");
    assert_eq!(result, "false");

    let result = eval_to_string("2 <= 1");
    assert_eq!(result, "false");

    let result = eval_to_string(r#""b" > "a""#);
    assert_eq!(result, "true");

    let result = eval_to_string(r#""b" >= "a""#);
    assert_eq!(result, "true");

    let result = eval_to_string(r#""b" >= "b""#);
    assert_eq!(result, "true");

    let result = eval_to_string(r#""b" < "a""#);
    assert_eq!(result, "false");

    let result = eval_to_string(r#""b" <= "b""#);
    assert_eq!(result, "true");

    let result = eval_to_string(r#""a" < "b""#);
    assert_eq!(result, "true");

    let result = eval_to_string(r#""a" <= "b""#);
    assert_eq!(result, "true");

    for op in ["<", "<=", ">", ">="] {
        let error = get_error(format!("1 {op} true"));
        assert!(error.contains("RuntimeError"));
        assert!(error.contains("Cannot compare number 1 and boolean true."));

        let error = get_error(format!(r#"1 {op} "hi""#));
        assert!(error.contains("RuntimeError"));
        assert!(error.contains("Cannot compare number 1 and string \"hi\"."));

        let error = get_error(format!("1 {op} nil"));
        assert!(error.contains("RuntimeError"));
        assert!(error.contains("Cannot compare number 1 and nil."));

        let error = get_error(format!(r#""hi" {op} false"#));
        assert!(error.contains("RuntimeError"));
        assert!(error.contains("Cannot compare string \"hi\" and boolean false."));

        let error = get_error(format!(r#""hi" {op} nil"#));
        assert!(error.contains("RuntimeError"));
        assert!(error.contains("Cannot compare string \"hi\" and nil."));

        let error = get_error(format!("true {op} nil"));
        assert!(error.contains("RuntimeError"));
        assert!(error.contains("Cannot compare boolean true and nil."));
    }
}

#[test]
fn truthiness_table() {
    assert_eq!(eval_to_string("!false"), "true");
    assert_eq!(eval_to_string("!nil"), "true");
    assert_eq!(eval_to_string("!true"), "false");
    assert_eq!(eval_to_string("!0"), "false");
    assert_eq!(eval_to_string("!\"\""), "false");
    assert_eq!(eval_to_string("!\"text\""), "false");
    assert_eq!(eval_to_string("!12.5"), "false");
}

#[test]
fn equality_across_kinds_is_false() {
    assert_eq!(eval_to_string("nil == false"), "false");
    assert_eq!(eval_to_string("0 == false"), "false");
    assert_eq!(eval_to_string("\"1\" == 1"), "false");
    assert_eq!(eval_to_string("nil != 0"), "true");
    assert_eq!(eval_to_string("3 == 3"), "true");
}

#[test]
fn ordering_on_mismatched_kinds_fails() {
    let error = eval("true < false".to_string()).err().unwrap();
    assert!(matches!(error, RutoxError::Runtime(_, _)));
    assert_eq!(error.render(), "RuntimeError: Cannot compare boolean true and boolean false.");
    assert_eq!(eval_to_string("\"abc\" < \"abd\""), "true");
    assert_eq!(eval_to_string("\"ab\" < \"abc\""), "true");
    assert_eq!(eval_to_string("-2 < -1.5"), "true");
}

#[test]
fn shadowing_in_a_block() {
    let (result, out) = run_program("var x = 1; { var x = 2; print x; } print x;");
    assert!(result.is_ok());
    assert_eq!(out, vec!["2".to_string(), "1".to_string()]);
}

#[test]
fn outer_mutation_from_a_block() {
    let (result, out) = run_program("var x = 1; { x = 2; } print x;");
    assert!(result.is_ok());
    assert_eq!(out, vec!["2".to_string()]);
}

#[test]
fn precedence_of_operators() {
    assert_eq!(eval_to_string("1.0 + 1.0 * 2.0 - 3.0 / 4.0"), "2.25");
    assert_eq!(eval_to_string("(1 + 2) * 3"), "9");
    assert_eq!(eval_to_string("-2 * -3"), "6");
    assert_eq!(eval_to_string("1 < 2 == true"), "true");
}

#[test]
fn logical_operators_short_circuit() {
    assert_eq!(eval_to_string("false and (undefined_var)"), "false");
    assert_eq!(eval_to_string("true or (undefined_var)"), "true");
    assert_eq!(eval_to_string("nil or \"fallback\""), "fallback");
    assert_eq!(eval_to_string("1 and 2"), "2");
    let error = get_error("true and undefined_var".to_string());
    assert_eq!(error, "RuntimeError: Undefined variable `undefined_var`.");
}

#[test]
fn assignment_to_undefined_variable_fails() {
    let (result, out) = run_program("x = 1;");
    let error = result.err().unwrap();
    assert!(matches!(error, RutoxError::Runtime(_, _)));
    assert!(error.render().contains("`x`"));
    assert!(out.is_empty());
}

#[test]
fn every_syntax_error_is_reported() {
    let (result, out) = run_program("var = 1;\nprint 2;\nprint ;\nvar y = 3;");
    assert!(out.is_empty());
    match result.err().unwrap() {
        RutoxError::Multiple(errors) => {
            assert_eq!(errors.len(), 2);
            assert!(matches!(errors[0], RutoxError::Syntax(_, _)));
            assert!(matches!(errors[1], RutoxError::Syntax(_, _)));
            assert_eq!(errors[0].location().line, 1);
            assert_eq!(errors[1].location().line, 3);
        }
        _ => panic!("expected several syntax errors"),
    }
}

#[test]
fn runtime_error_stops_the_program() {
    let (result, out) = run_program("print 1; print -\"a\"; print 3;");
    assert_eq!(out, vec!["1".to_string()]);
    assert_eq!(
        result.err().unwrap().render(),
        "RuntimeError: Unary operator `-` can only be applied to numbers, but got a."
    );
}

#[test]
fn if_else_branches() {
    let (result, out) =
        run_program("var a = 0; if (a) print \"yes\"; else print \"no\"; if (nil) print 1; else { print 2; }");
    assert!(result.is_ok());
    assert_eq!(out, vec!["yes".to_string(), "2".to_string()]);
}

#[test]
fn strings_concatenate_and_repeat() {
    assert_eq!(eval_to_string("\"ab\" + \"cd\""), "abcd");
    assert_eq!(eval_to_string("\"ab\" * 3"), "ababab");
    assert_eq!(eval_to_string("\"ab\" * 2.9"), "abab");
    assert_eq!(eval_to_string("\"ab\" * -1"), "");
    assert_eq!(
        get_error("\"a\" + 1".to_string()),
        "RuntimeError: Cannot add string \"a\" and number 1."
    );
    assert_eq!(
        get_error("2 * \"a\"".to_string()),
        "RuntimeError: Cannot multiply number 2 and string \"a\"."
    );
    assert_eq!(
        get_error("\"a\" * 2000000000".to_string()),
        "RuntimeError: Repeated string is too long."
    );
}

#[test]
fn arithmetic_errors() {
    assert_eq!(get_error("1 / 0".to_string()), "RuntimeError: Division by zero.");
    assert_eq!(
        get_error("999999999999 * 999999999999".to_string()),
        "RuntimeError: Number out of range."
    );
    assert_eq!(
        get_error("nil - 1".to_string()),
        "RuntimeError: Cannot subtract nil and number 1."
    );
    assert_eq!(
        get_error("true / 1".to_string()),
        "RuntimeError: Cannot divide boolean true and number 1."
    );
}

#[test]
fn number_formatting() {
    assert_eq!(eval_to_string("1 / 3"), "0.333333");
    assert_eq!(eval_to_string("-7 / 2"), "-3.5");
    assert_eq!(eval_to_string("0.10"), "0.1");
    assert_eq!(eval_to_string("12.0000001"), "12");
    assert_eq!(eval_to_string("100"), "100");
}

#[test]
fn lexer_errors() {
    let error = eval("\"open".to_string()).err().unwrap();
    assert_eq!(error.render(), "SyntaxError: Unterminated string.");
    let error = eval("1 # 2".to_string()).err().unwrap();
    assert_eq!(error.render(), "SyntaxError: Unexpected character: `#`.");
    assert_eq!(error.location().line, 1);
    assert_eq!(error.location().col, 3);
    let error = eval("1000000000000".to_string()).err().unwrap();
    assert_eq!(error.render(), "SyntaxError: Number literal out of range.");
}

#[test]
fn values_render_for_print() {
    let (result, out) = run_program("print nil; print true; print \"s\"; print 4.50;");
    assert!(result.is_ok());
    assert_eq!(out, vec!["nil", "true", "s", "4.5"]);
}

#[test]
fn value_description() {
    let v = eval("\"hi\"".to_string()).ok().unwrap();
    assert_eq!(v.describe(), "string \"hi\"");
    assert!(matches!(v, LoxObj::String(_, _)));
}
