use minic::ast::evaluator::ASTEvaluator;
use minic::ast::expression::{
    ASTBinaryOperator, ASTBinaryOperatorKind, ASTExpression, ASTExpressionKind,
};
use minic::ast::lexer::{Lexer, TextSpan, Token, TokenKind};
use minic::ast::parser::Parser;
use minic::ast::semantics::RuntimeError;
use minic::ast::statement::{ASTStatement, ASTStatementKind};
use minic::ast::visitor::ASTVisitor;
use minic::ast::Ast;
use minic::diagnostics::DiagnosticBag;

fn tokenize(source: &str) -> Vec<Token> {
    let mut lexer = Lexer::new(source);
    let mut tokens = Vec::new();
    while let Some(token) = lexer.next_token() {
        tokens.push(token);
    }
    tokens
}

fn statements_of(source: &str) -> Vec<ASTStatement> {
    let mut parser = Parser::new(tokenize(source), DiagnosticBag::new());
    let mut statements = Vec::new();
    while let Some(statement) = parser.next_statement() {
        statements.push(statement);
    }
    statements
}

fn run_statements(source: &str) -> ASTEvaluator {
    let mut evaluator = ASTEvaluator::new();
    for statement in &statements_of(source) {
        evaluator.visit_statement(statement);
    }
    evaluator
}

fn program(source: &str) -> Ast {
    let mut parser = Parser::new(tokenize(source), DiagnosticBag::new());
    let mut ast = Ast::new();
    while let Some(unit) = parser.next_program_unit() {
        ast.add_program_unit(unit);
    }
    assert_eq!(parser.diagnostics().len(), 0);
    ast
}

fn run_program(source: &str) -> ASTEvaluator {
    let mut evaluator = ASTEvaluator::new();
    program(source).visit(&mut evaluator);
    evaluator
}

fn operator(kind: ASTBinaryOperatorKind, sign: &str) -> ASTBinaryOperator {
    let token_kind = match kind {
        ASTBinaryOperatorKind::Add => TokenKind::Plus,
        ASTBinaryOperatorKind::Sub => TokenKind::Minus,
        ASTBinaryOperatorKind::Mul => TokenKind::Asterisk,
        ASTBinaryOperatorKind::Div => TokenKind::Slash,
        ASTBinaryOperatorKind::Equal => TokenKind::Equal,
    };
    ASTBinaryOperator::new(kind, Token::new(token_kind, TextSpan::new(0, 1, sign.to_string())))
}

fn value_of(kind: ASTBinaryOperatorKind, left: i64, right: i64) -> ASTEvaluator {
    let expr = ASTExpression::binary(
        operator(kind, "?"),
        ASTExpression::number(left),
        ASTExpression::number(right),
    );
    let mut evaluator = ASTEvaluator::new();
    evaluator.visit_expression(&expr);
    evaluator
}

#[test]
fn a_fresh_evaluator_holds_nothing() {
    let evaluator = ASTEvaluator::new();
    assert_eq!(evaluator.result(), None);
    assert_eq!(evaluator.last_value, None);
    assert_eq!(evaluator.failure(), None);
    assert_eq!(evaluator.variable("a"), None);
}

#[test]
fn the_four_operations() {
    assert_eq!(value_of(ASTBinaryOperatorKind::Add, 7, 2).result(), Some(9));
    assert_eq!(value_of(ASTBinaryOperatorKind::Sub, 7, 2).result(), Some(5));
    assert_eq!(value_of(ASTBinaryOperatorKind::Mul, 7, 2).result(), Some(14));
    assert_eq!(value_of(ASTBinaryOperatorKind::Div, 7, 2).result(), Some(3));
    assert_eq!(value_of(ASTBinaryOperatorKind::Equal, 7, 2).result(), Some(2));
}

#[test]
fn quotients_round_toward_zero() {
    assert_eq!(value_of(ASTBinaryOperatorKind::Div, -7, 2).result(), Some(-3));
    assert_eq!(value_of(ASTBinaryOperatorKind::Div, 7, -2).result(), Some(-3));
    assert_eq!(value_of(ASTBinaryOperatorKind::Div, -7, -2).result(), Some(3));
    assert_eq!(value_of(ASTBinaryOperatorKind::Div, 0, 5).result(), Some(0));
    assert_eq!(value_of(ASTBinaryOperatorKind::Div, 1, 5).result(), Some(0));
    assert_eq!(value_of(ASTBinaryOperatorKind::Div, -1, 5).result(), Some(0));
}

#[test]
fn arithmetic_wraps_around() {
    assert_eq!(value_of(ASTBinaryOperatorKind::Add, i64::MAX, 1).result(), Some(i64::MIN));
    assert_eq!(value_of(ASTBinaryOperatorKind::Sub, i64::MIN, 1).result(), Some(i64::MAX));
    assert_eq!(value_of(ASTBinaryOperatorKind::Mul, i64::MAX, 2).result(), Some(-2));
    assert_eq!(value_of(ASTBinaryOperatorKind::Div, i64::MIN, -1).result(), Some(i64::MIN));
}

#[test]
fn division_by_zero_is_a_failure() {
    let evaluator = value_of(ASTBinaryOperatorKind::Div, 7, 0);
    assert_eq!(evaluator.failure(), Some(RuntimeError::DivisionByZero));
}

#[test]
fn reading_an_undeclared_variable_is_a_failure() {
    let evaluator = run_statements("x;");
    assert_eq!(evaluator.failure(), Some(RuntimeError::UndeclaredVariable));
}

#[test]
fn reading_a_variable_without_a_value_is_a_failure() {
    let evaluator = run_statements("int x; x;");
    assert_eq!(evaluator.variable("x"), Some(None));
    assert_eq!(evaluator.failure(), Some(RuntimeError::UninitializedVariable));
}

#[test]
fn an_operand_without_a_value_is_a_failure() {
    let evaluator = run_program("int f() { return; } int main() { return f() + 1; }");
    assert_eq!(evaluator.failure(), Some(RuntimeError::MissingValue));
    let evaluator = run_program("int f() { return; } int main() { return 1 + f(); }");
    assert_eq!(evaluator.failure(), Some(RuntimeError::MissingValue));
}

#[test]
fn an_argument_without_a_value_is_a_failure() {
    let evaluator = run_program(
        "int f() { return; } int g(int a) { return a; } int main() { return g(f()); }",
    );
    assert_eq!(evaluator.failure(), Some(RuntimeError::MissingValue));
}

#[test]
fn an_unknown_function_is_a_failure() {
    let evaluator = run_statements("f(1);");
    assert_eq!(evaluator.failure(), Some(RuntimeError::UnknownFunction));
}

#[test]
fn a_function_registered_behind_main_is_unknown_to_it() {
    let evaluator = run_program("int main() { return f(); } int f() { return 1; }");
    assert_eq!(evaluator.failure(), Some(RuntimeError::UnknownFunction));
}

#[test]
fn calls_that_never_end_are_a_failure() {
    let evaluator = run_program("int f() { return g(); } int g() { return f(); } int main() { return f(); }");
    assert_eq!(evaluator.failure(), Some(RuntimeError::CallDepthExceeded));
}

#[test]
fn calls_as_deep_as_there_are_functions_succeed() {
    let evaluator = run_program(
        "int a() { return 1; } int b() { return a() + 1; } int c() { return b() + 1; } int main() { return c() + 1; }",
    );
    assert_eq!(evaluator.failure(), None);
    assert_eq!(evaluator.result(), Some(4));
}

#[test]
fn a_failure_stops_the_run() {
    let statements = statements_of("int a = 1; a = 1 / 0; a = 5; 7;");
    let mut evaluator = ASTEvaluator::new();
    for statement in &statements {
        evaluator.visit_statement(statement);
    }
    assert_eq!(evaluator.failure(), Some(RuntimeError::DivisionByZero));
    assert_eq!(evaluator.variable("a"), Some(Some(1)));
}

#[test]
fn an_error_node_counts_as_zero() {
    let evaluator = run_statements("1 + ;");
    assert_eq!(evaluator.failure(), None);
    assert_eq!(evaluator.result(), Some(1));
}

#[test]
fn a_statement_starts_from_zero() {
    let evaluator = run_program("int f() {} int main() { 5; f(); }");
    assert_eq!(evaluator.failure(), None);
    assert_eq!(evaluator.result(), Some(0));
}

#[test]
fn an_empty_return_leaves_no_value() {
    let evaluator = run_program("int main() { 5; return; }");
    assert_eq!(evaluator.failure(), None);
    assert_eq!(evaluator.result(), None);
}

#[test]
fn assigning_what_has_no_value_unsets_the_variable() {
    let evaluator = run_program("int a = 1; int f() { return; } int main() { a = f(); }");
    assert_eq!(evaluator.failure(), None);
    assert_eq!(evaluator.variable("a"), Some(None));
}

#[test]
fn assignment_declares_the_variable() {
    let evaluator = run_statements("a = 3; a + 1;");
    assert_eq!(evaluator.failure(), None);
    assert_eq!(evaluator.variable("a"), Some(Some(3)));
    assert_eq!(evaluator.result(), Some(4));
}

#[test]
fn parameters_are_ordinary_variables() {
    let evaluator = run_program(
        "int x = 1; int f(int x) { return x; } int main() { return f(9) + x; }",
    );
    assert_eq!(evaluator.failure(), None);
    assert_eq!(evaluator.variable("x"), Some(Some(9)));
    assert_eq!(evaluator.result(), Some(18));
}

#[test]
fn arguments_left_over_wait_for_the_next_call() {
    let evaluator = run_program(
        "int f(int a) { return a; } int g(int b) { return b; } int main() { f(1, 2); return g(); }",
    );
    assert_eq!(evaluator.failure(), None);
    assert_eq!(evaluator.variable("a"), Some(Some(2)));
    assert_eq!(evaluator.variable("b"), Some(Some(1)));
    assert_eq!(evaluator.result(), Some(1));
}

#[test]
fn with_too_few_arguments_the_last_parameters_are_bound() {
    let evaluator = run_program("int f(int a, int b) { return b; } int main() { return f(7); }");
    assert_eq!(evaluator.failure(), None);
    assert_eq!(evaluator.result(), Some(7));
    assert_eq!(evaluator.variable("a"), None);
    assert_eq!(evaluator.variable("b"), Some(Some(7)));
}

#[test]
fn the_function_registered_last_is_called() {
    let evaluator =
        run_program("int f() { return 1; } int f() { return 2; } int main() { return f(); }");
    assert_eq!(evaluator.failure(), None);
    assert_eq!(evaluator.result(), Some(2));
}

#[test]
fn top_level_declarations_run_at_once() {
    let evaluator = run_program("int a = 2 * 3, b; int c = a + 1;");
    assert_eq!(evaluator.variable("a"), Some(Some(6)));
    assert_eq!(evaluator.variable("b"), Some(None));
    assert_eq!(evaluator.variable("c"), Some(Some(7)));
}

#[test]
fn the_same_program_gives_the_same_result_twice() {
    let ast = program("int a = 4; int sq(int x) { return x * x; } int main() { a = sq(a) + sq(3); return a / 2; }");
    let mut first = ASTEvaluator::new();
    ast.visit(&mut first);
    let mut second = ASTEvaluator::new();
    ast.visit(&mut second);
    assert_eq!(first.result(), Some(12));
    assert_eq!(first.result(), second.result());
    assert_eq!(first.failure(), second.failure());
    assert_eq!(first.variable("a"), second.variable("a"));
    assert_eq!(first.variable("x"), second.variable("x"));
}

#[test]
fn dispatchers_reach_the_method_of_the_variant() {
    let statements = statements_of("int a = 2; a * 21; return a; return;");
    let mut evaluator = ASTEvaluator::new();
    evaluator.do_visit_statement(&statements[0]);
    assert_eq!(evaluator.variable("a"), Some(Some(2)));
    evaluator.do_visit_statement(&statements[1]);
    assert_eq!(evaluator.result(), Some(42));
    evaluator.do_visit_statement(&statements[2]);
    assert_eq!(evaluator.result(), Some(2));
    evaluator.do_visit_statement(&statements[3]);
    assert_eq!(evaluator.result(), None);
    match &statements[1].kind {
        ASTStatementKind::Expression(expr) => {
            evaluator.do_visit_expression(expr);
            assert_eq!(evaluator.result(), Some(42));
            match &expr.kind {
                ASTExpressionKind::Binary(binary) => {
                    evaluator.visit_number(&minic::ast::expression::ASTNumberExpression::new(5));
                    assert_eq!(evaluator.result(), Some(5));
                    evaluator.visit_binary_expression(binary);
                    assert_eq!(evaluator.result(), Some(42));
                }
                other => panic!("no binary expression: {:?}", other),
            }
        }
        other => panic!("no expression: {:?}", other),
    }
    let ast = program("int main() { return 3; } int b = 4;");
    let mut evaluator = ASTEvaluator::new();
    evaluator.do_visit_program_unit(&ast.program_units[0]);
    assert_eq!(evaluator.result(), Some(3));
    evaluator.do_visit_program_unit(&ast.program_units[1]);
    assert_eq!(evaluator.variable("b"), Some(Some(4)));
}
