use minic::ast::lexer::{tokenize, Lexer, TokenKind};
use minic::ast::parser::Parser;
use minic::ast::semantics::RuntimeError;
use minic::diagnostics::DiagnosticBag;
use minic::interpreter::interpret;

#[test]
fn tokenize_collects_what_the_lexer_hands_out() {
    let source = "int a = 0x1f;\n";
    let mut lexer = Lexer::new(source);
    let mut expected = Vec::new();
    while let Some(token) = lexer.next_token() {
        expected.push(token);
    }
    assert_eq!(tokenize(source), expected);
    assert_eq!(tokenize("").len(), 1);
    assert_eq!(tokenize("").last().unwrap().kind, TokenKind::Eof);
}

#[test]
fn a_program_is_read_to_its_end() {
    let mut parser = Parser::new(
        tokenize("int a; int f() { return 1; } int b = 2;"),
        DiagnosticBag::new(),
    );
    let ast = parser.parse_program();
    assert_eq!(ast.program_units.len(), 3);
    assert!(parser.next_program_unit().is_none());
    assert_eq!(parser.diagnostics().len(), 0);
}

#[test]
fn a_program_without_findings_is_run() {
    let run = interpret("int a = 5, b = a + 10; int main() { a = a+b; b = b + (a = a + b); a; }");
    assert_eq!(run.diagnostics.len(), 0);
    assert_eq!(run.ast.program_units.len(), 2);
    assert_eq!(run.tokens.last().unwrap().kind, TokenKind::Eof);
    let evaluator = run.evaluator.unwrap();
    assert_eq!(evaluator.failure(), None);
    assert_eq!(evaluator.result(), Some(35));
    assert_eq!(evaluator.variable("a"), Some(Some(35)));
    assert_eq!(evaluator.variable("b"), Some(Some(50)));
}

#[test]
fn a_program_with_findings_is_not_run() {
    let run = interpret("int a = 1 + ; int main() { a = 2; }");
    assert!(run.diagnostics.len() >= 1);
    assert_eq!(run.diagnostics.diagnostics[0].span.start, 12);
    assert_eq!(run.diagnostics.diagnostics[0].span.end, 13);
    assert_eq!(run.diagnostics.diagnostics[0].span.literal, ";");
    assert!(run.evaluator.is_none());
}

#[test]
fn a_failed_run_is_reported_by_the_evaluator() {
    let run = interpret("int main() { return 1 / 0; }");
    assert_eq!(run.diagnostics.len(), 0);
    assert_eq!(run.evaluator.unwrap().failure(), Some(RuntimeError::DivisionByZero));
}

#[test]
fn an_empty_source_is_an_empty_program() {
    let run = interpret("");
    assert_eq!(run.tokens.len(), 1);
    assert_eq!(run.ast.program_units.len(), 0);
    assert_eq!(run.diagnostics.len(), 0);
    let evaluator = run.evaluator.unwrap();
    assert_eq!(evaluator.result(), None);
    assert_eq!(evaluator.failure(), None);
}
