use minic::ast::evaluator::ASTEvaluator;
use minic::ast::lexer::{Lexer, Token, TokenKind};
use minic::ast::parser::Parser;
use minic::ast::semantics::RuntimeError;
use minic::ast::statement::ASTStatement;
use minic::ast::visitor::ASTVisitor;
use minic::ast::Ast;
use minic::diagnostics::DiagnosticBag;

fn tokenize(source: &str) -> Vec<Token> {
    let mut lexer = Lexer::new(source);
    let mut tokens = Vec::new();
    while let Some(token) = lexer.next_token() {
        tokens.push(token);
    }
    tokens
}

fn parse_statements(source: &str) -> (Vec<ASTStatement>, DiagnosticBag) {
    let mut parser = Parser::new(tokenize(source), DiagnosticBag::new());
    let mut statements = Vec::new();
    while let Some(statement) = parser.next_statement() {
        statements.push(statement);
    }
    (statements, parser.into_diagnostics())
}

fn run_statements(source: &str) -> ASTEvaluator {
    let (statements, bag) = parse_statements(source);
    assert_eq!(bag.len(), 0);
    let mut evaluator = ASTEvaluator::new();
    for statement in &statements {
        evaluator.visit_statement(statement);
    }
    evaluator
}

fn run_program(source: &str) -> ASTEvaluator {
    let mut parser = Parser::new(tokenize(source), DiagnosticBag::new());
    let mut ast = Ast::new();
    while let Some(unit) = parser.next_program_unit() {
        ast.add_program_unit(unit);
    }
    assert_eq!(parser.diagnostics().len(), 0);
    let mut evaluator = ASTEvaluator::new();
    ast.visit(&mut evaluator);
    evaluator
}

#[test]
fn multiplication_binds_tighter_than_addition() {
    let evaluator = run_statements("1+2*3;");
    assert_eq!(evaluator.result(), Some(7));
    assert_eq!(evaluator.failure(), None);
}

#[test]
fn parentheses_group() {
    let evaluator = run_statements("(1+2)*3;");
    assert_eq!(evaluator.result(), Some(9));
}

#[test]
fn subtraction_groups_from_the_left() {
    let evaluator = run_statements("10-4-3;");
    assert_eq!(evaluator.result(), Some(3));
}

#[test]
fn assignment_groups_from_the_right() {
    let evaluator = run_statements("int a, b; a=b=5;");
    assert_eq!(evaluator.variable("a"), Some(Some(5)));
    assert_eq!(evaluator.variable("b"), Some(Some(5)));
    assert_eq!(evaluator.result(), Some(5));
}

#[test]
fn division_rounds_toward_zero() {
    let evaluator = run_statements("7/2;");
    assert_eq!(evaluator.result(), Some(3));
    let evaluator = run_statements("int a = 0 - 7; a / 2;");
    assert_eq!(evaluator.result(), Some(-3));
}

#[test]
fn division_by_zero_fails() {
    let (statements, _) = parse_statements("1/0; 5;");
    let mut evaluator = ASTEvaluator::new();
    for statement in &statements {
        evaluator.visit_statement(statement);
    }
    assert_eq!(evaluator.failure(), Some(RuntimeError::DivisionByZero));
}

#[test]
fn missing_operand_gives_a_diagnostic_at_the_semicolon() {
    let (statements, bag) = parse_statements("1 + ;");
    assert_eq!(statements.len(), 1);
    assert_eq!(bag.len(), 1);
    let diagnostic = &bag.diagnostics[0];
    assert_eq!(diagnostic.span.start, 4);
    assert_eq!(diagnostic.span.end, 5);
    assert_eq!(diagnostic.span.literal, ";");
    assert_eq!(diagnostic.message, "Expected expression, found: SemiColon");
}

#[test]
fn declarations_and_assignments_run_in_order() {
    let source = "int a = 5, b = a + 10; a = a+b; b = b + (a = a + b); a;";
    let mut parser = Parser::new(tokenize(source), DiagnosticBag::new());
    let unit = parser.next_program_unit().unwrap();
    let mut statements = Vec::new();
    while let Some(statement) = parser.next_statement() {
        statements.push(statement);
    }
    assert_eq!(parser.diagnostics().len(), 0);
    assert_eq!(statements.len(), 3);
    let mut evaluator = ASTEvaluator::new();
    evaluator.visit_program_unit(&unit);
    assert_eq!(evaluator.variable("a"), Some(Some(5)));
    assert_eq!(evaluator.variable("b"), Some(Some(15)));
    evaluator.visit_statement(&statements[0]);
    assert_eq!(evaluator.variable("a"), Some(Some(20)));
    evaluator.visit_statement(&statements[1]);
    assert_eq!(evaluator.variable("a"), Some(Some(35)));
    assert_eq!(evaluator.variable("b"), Some(Some(50)));
    evaluator.visit_statement(&statements[2]);
    assert_eq!(evaluator.result(), Some(35));
    assert_eq!(evaluator.variable("a"), Some(Some(35)));
}

#[test]
fn main_is_run_when_it_is_registered() {
    let evaluator = run_program("int main() { return 2 + 3; }");
    assert_eq!(evaluator.failure(), None);
    assert_eq!(evaluator.result(), Some(5));
}

#[test]
fn other_functions_wait_for_a_call() {
    let evaluator = run_program("int f() { return 1 / 0; }");
    assert_eq!(evaluator.failure(), None);
    assert_eq!(evaluator.result(), None);
}

#[test]
fn calling_an_unknown_function_fails() {
    let evaluator = run_program("int main() { return g(); }");
    assert_eq!(evaluator.failure(), Some(RuntimeError::UnknownFunction));
}

#[test]
fn arguments_are_bound_in_order() {
    let evaluator =
        run_program("int sub(int x, int y) { return x - y; } int main() { return sub(10, 4); }");
    assert_eq!(evaluator.failure(), None);
    assert_eq!(evaluator.result(), Some(6));
    assert_eq!(evaluator.variable("x"), Some(Some(10)));
    assert_eq!(evaluator.variable("y"), Some(Some(4)));
}

#[test]
fn endless_recursion_is_stopped() {
    let evaluator = run_program("int main() { return main(); }");
    assert_eq!(evaluator.failure(), Some(RuntimeError::CallDepthExceeded));
}

#[test]
fn return_does_not_end_the_body() {
    let evaluator = run_program("int a; int main() { return 1; a = 7; }");
    assert_eq!(evaluator.variable("a"), Some(Some(7)));
    assert_eq!(evaluator.result(), Some(7));
}

#[test]
fn evaluation_is_repeatable() {
    let source = "int f(int x) { return x * x; } int main() { return f(3) + f(4); }";
    let first = run_program(source);
    let second = run_program(source);
    assert_eq!(first.result(), Some(25));
    assert_eq!(first.result(), second.result());
    assert_eq!(first.failure(), second.failure());
}

#[test]
fn tokens_of_a_declaration() {
    let tokens = tokenize("int a");
    assert_eq!(tokens.len(), 4);
    assert!(matches!(tokens[0].kind, TokenKind::VarType(_)));
    assert_eq!(tokens[1].kind, TokenKind::WhiteSpace);
    assert_eq!(tokens[2].kind, TokenKind::Identifier("a".to_string()));
    assert_eq!(tokens[3].kind, TokenKind::Eof);
}
