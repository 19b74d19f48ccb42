use bytecode::common::BinaryOp;
use bytecode::compiler::{CompileError, Compiler};
use bytecode::scanner::{Scanner, Token, TokenType};
use bytecode::value::Value;
use bytecode::vm::{RuntimeError, RuntimeErrorKind};
use bytecode::{interpret, InterpretError};

fn arithmetic(op: BinaryOp, left: Value, right: Value) -> Value {
    let Value::Number(a) = left;
    let Value::Number(b) = right;
    let (a, b) = (f64::from_bits(a), f64::from_bits(b));
    Value::Number(
        match op {
            BinaryOp::Add => a + b,
            BinaryOp::Subtract => a - b,
            BinaryOp::Multiply => a * b,
            BinaryOp::Divide => a / b,
        }
        .to_bits(),
    )
}

fn diagnostics(source: &str) -> Vec<String> {
    match Compiler::compile(source) {
        Ok(_) => panic!("compiled"),
        Err(error) => error.diagnostics,
    }
}

#[test]
fn an_empty_source_compiles_to_a_return() {
    let chunk = Compiler::compile("").unwrap();
    assert_eq!(chunk.code(), &vec![0]);
    assert_eq!(chunk.line_at(0), Some(1));
    assert!(chunk.constants().is_empty());
}

#[test]
fn blanks_and_comments_compile_to_a_return_on_the_last_line() {
    let chunk = Compiler::compile("  // nothing here\n\n\t// nor here\n").unwrap();
    assert_eq!(chunk.code(), &vec![0]);
    assert_eq!(chunk.line_at(0), Some(4));
}

#[test]
fn a_token_where_the_input_should_end_is_reported() {
    assert_eq!(diagnostics("+"), vec!["[line 1] Error at '+': Expect end of expression."]);
    assert_eq!(
        diagnostics("\n\n  <= ;"),
        vec!["[line 3] Error at '<=': Expect end of expression."]
    );
    assert_eq!(
        diagnostics("\"text\""),
        vec!["[line 1] Error at '\"text\"': Expect end of expression."]
    );
}

#[test]
fn a_lexical_error_is_reported_with_its_message() {
    assert_eq!(diagnostics("@"), vec!["[line 1] Error: Unexpected character: @"]);
    assert_eq!(diagnostics("\n\"abc"), vec!["[line 2] Error: unterminated string"]);
}

#[test]
fn only_the_first_error_is_reported() {
    assert_eq!(diagnostics("@ # $ +"), vec!["[line 1] Error: Unexpected character: @"]);
    assert_eq!(diagnostics("+ @ \"abc"), vec!["[line 1] Error at '+': Expect end of expression."]);
    assert_eq!(diagnostics("@"), diagnostics("@ @"));
}

#[test]
fn compile_errors_compare_by_their_diagnostics() {
    let error = Compiler::compile("-").unwrap_err();
    assert_eq!(
        error,
        CompileError {
            diagnostics: vec!["[line 1] Error at '-': Expect end of expression.".to_string()],
        }
    );
}

#[test]
fn interpret_reports_what_does_not_compile() {
    assert_eq!(
        interpret("(", arithmetic),
        Err(InterpretError::Compile(CompileError {
            diagnostics: vec!["[line 1] Error at '(': Expect end of expression.".to_string()],
        }))
    );
}

#[test]
fn interpret_runs_what_compiles() {
    assert_eq!(
        interpret("// nothing to compute\n", arithmetic),
        Err(InterpretError::Runtime(RuntimeError {
            kind: RuntimeErrorKind::StackUnderflow,
            offset: 0,
            line: Some(2),
        }))
    );
}

#[test]
fn a_token_is_traced_with_its_line_its_category_and_its_text() {
    let mut scanner = Scanner::new("\n<= +");
    let first = scanner.scan_token();
    assert_eq!(
        Compiler::trace(&first, 1, scanner.lexeme(&first).unwrap()),
        "   2LessEqual    '<='"
    );
    let second = scanner.scan_token();
    assert_eq!(
        Compiler::trace(&second, scanner.line(), scanner.lexeme(&second).unwrap()),
        "   | Plus         '+'"
    );
    let wide = Token { typ: TokenType::GreaterEqual, start: 0, end: 0, line: 123456, error: None };
    assert_eq!(Compiler::trace(&wide, 0, "a longer text"), "123456GreaterEqual 'a longer text'");
}
