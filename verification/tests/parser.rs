use minic::ast::expression::{ASTBinaryOperatorKind, ASTExpression, ASTExpressionKind};
use minic::ast::lexer::{Lexer, TextSpan, Token, TokenKind, VartypeKind};
use minic::ast::parser::{Counter, Parser};
use minic::ast::program_unit::ASTProgramunitKind;
use minic::ast::statement::{ASTDeclaration, ASTStatement, ASTStatementKind};
use minic::ast::{GrammarVartype, LeftValue};
use minic::diagnostics::{DiagnosticBag, DiagnosticKind};

fn tokenize(source: &str) -> Vec<Token> {
    let mut lexer = Lexer::new(source);
    let mut tokens = Vec::new();
    while let Some(token) = lexer.next_token() {
        tokens.push(token);
    }
    tokens
}

fn parser_for(source: &str) -> Parser {
    Parser::new(tokenize(source), DiagnosticBag::new())
}

fn expression_of(statement: &ASTStatement) -> &ASTExpression {
    match &statement.kind {
        ASTStatementKind::Expression(expr) => expr,
        other => panic!("no expression statement: {:?}", other),
    }
}

/// The expression written with every operation in parentheses.
fn shape(expr: &ASTExpression) -> String {
    match &expr.kind {
        ASTExpressionKind::Number(number) => format!("{}", number.value()),
        ASTExpressionKind::Variable(variable) => variable.name.clone(),
        ASTExpressionKind::Binary(binary) => {
            let sign = match binary.operator.kind {
                ASTBinaryOperatorKind::Add => "+",
                ASTBinaryOperatorKind::Sub => "-",
                ASTBinaryOperatorKind::Mul => "*",
                ASTBinaryOperatorKind::Div => "/",
                ASTBinaryOperatorKind::Equal => "=",
            };
            format!("({}{}{})", shape(&binary.left), sign, shape(&binary.right))
        }
        ASTExpressionKind::Assignment(assignment) => {
            let LeftValue::Variable(name) = &assignment.name;
            format!("({}={})", name, shape(&assignment.expr))
        }
        ASTExpressionKind::FunctionCall(call) => {
            let arguments: Vec<String> = call.param_list.iter().map(shape).collect();
            format!("{}({})", call.name, arguments.join(","))
        }
        ASTExpressionKind::Error(span) => format!("<error {}..{}>", span.start, span.end),
    }
}

fn shape_of_statement(source: &str) -> String {
    let mut parser = parser_for(source);
    let statement = parser.next_statement().unwrap();
    assert_eq!(parser.diagnostics().len(), 0);
    shape(expression_of(&statement))
}

#[test]
fn product_binds_tighter_than_sum() {
    assert_eq!(shape_of_statement("1+2*3;"), "(1+(2*3))");
    assert_eq!(shape_of_statement("1*2+3;"), "((1*2)+3)");
    assert_eq!(shape_of_statement("(1+2)*3;"), "((1+2)*3)");
}

#[test]
fn arithmetic_groups_from_the_left() {
    assert_eq!(shape_of_statement("1-2-3;"), "((1-2)-3)");
    assert_eq!(shape_of_statement("8/4/2;"), "((8/4)/2)");
    assert_eq!(shape_of_statement("1-2+3;"), "((1-2)+3)");
}

#[test]
fn assignment_chains_from_the_right() {
    assert_eq!(shape_of_statement("a=b=5;"), "(a=(b=5))");
    assert_eq!(shape_of_statement("a=b+1;"), "(a=(b+1))");
}

#[test]
fn the_operator_keeps_its_token() {
    let mut parser = parser_for("1 + 2;");
    let statement = parser.next_statement().unwrap();
    match &expression_of(&statement).kind {
        ASTExpressionKind::Binary(binary) => {
            assert_eq!(binary.operator.kind, ASTBinaryOperatorKind::Add);
            assert_eq!(binary.operator.precedence(), 2);
            assert!(!binary.operator.right_combined());
            assert_eq!(
                binary.operator.token,
                Token::new(TokenKind::Plus, TextSpan::new(2, 3, "+".to_string()))
            );
        }
        other => panic!("no binary expression: {:?}", other),
    }
}

#[test]
fn calls_take_their_arguments() {
    assert_eq!(shape_of_statement("f();"), "f()");
    assert_eq!(shape_of_statement("f(1);"), "f(1)");
    assert_eq!(shape_of_statement("f(1, a+2, g(3));"), "f(1,(a+2),g(3))");
    assert_eq!(shape_of_statement("1 + f(2) * 3;"), "(1+(f(2)*3))");
}

#[test]
fn a_statement_swallows_the_token_behind_its_expression() {
    let mut parser = parser_for("1 2 3");
    let first = parser.next_statement().unwrap();
    assert_eq!(shape(expression_of(&first)), "1");
    let second = parser.next_statement().unwrap();
    assert_eq!(shape(expression_of(&second)), "3");
    assert!(parser.next_statement().is_none());
    assert_eq!(parser.diagnostics().len(), 0);
}

#[test]
fn a_token_that_starts_no_expression_becomes_an_error_node() {
    let mut parser = parser_for("1 + ;");
    let statement = parser.next_statement().unwrap();
    assert_eq!(shape(expression_of(&statement)), "(1+<error 4..5>)");
    assert!(parser.next_statement().is_none());
    let bag = parser.into_diagnostics();
    assert_eq!(bag.len(), 1);
    assert_eq!(bag.diagnostics[0].span, TextSpan::new(4, 5, ";".to_string()));
    assert_eq!(bag.diagnostics[0].kind, DiagnosticKind::Error);
    assert_eq!(bag.diagnostics[0].message, "Expected expression, found: SemiColon");
}

#[test]
fn several_errors_are_found_in_one_pass() {
    let mut parser = parser_for("+ ; * ;");
    while parser.next_statement().is_some() {}
    let bag = parser.into_diagnostics();
    assert_eq!(bag.len(), 2);
    assert_eq!(bag.diagnostics[0].message, "Expected expression, found: Plus");
    assert_eq!(bag.diagnostics[0].span.start, 0);
    assert_eq!(bag.diagnostics[1].message, "Expected expression, found: Asterisk");
    assert_eq!(bag.diagnostics[1].span.start, 4);
}

#[test]
fn assignment_to_what_is_no_variable_is_an_error_node() {
    let mut parser = parser_for("1 = 2;");
    let statement = parser.next_statement().unwrap();
    assert_eq!(shape(expression_of(&statement)), "<error 2..3>");
    let bag = parser.into_diagnostics();
    assert_eq!(bag.len(), 1);
    assert_eq!(bag.diagnostics[0].message, "Invalid assignment target");
    assert_eq!(bag.diagnostics[0].span, TextSpan::new(2, 3, "=".to_string()));
}

#[test]
fn declaration_list_with_and_without_values() {
    let mut parser = parser_for("int a, b = 2 + 3, c;");
    let unit = parser.next_program_unit().unwrap();
    assert!(parser.next_program_unit().is_none());
    assert_eq!(parser.diagnostics().len(), 0);
    let list = match unit.kind {
        ASTProgramunitKind::Declaration(list) => list,
        other => panic!("no declaration list: {:?}", other),
    };
    assert!(matches!(list.vartype, GrammarVartype::Direct(VartypeKind::Int)));
    assert_eq!(list.declare_list.len(), 3);
    assert!(matches!(&list.declare_list[0], ASTDeclaration::VariableDeclareDirect(name) if name == "a"));
    match &list.declare_list[1] {
        ASTDeclaration::VariableDeclareWithInit(name, expr) => {
            assert_eq!(name, "b");
            assert_eq!(shape(expr), "(2+3)");
        }
        other => panic!("no value: {:?}", other),
    }
    assert!(matches!(&list.declare_list[2], ASTDeclaration::VariableDeclareDirect(name) if name == "c"));
}

#[test]
fn declaration_list_as_a_statement() {
    let mut parser = parser_for("double x = 1; x;");
    let first = parser.next_statement().unwrap();
    match &first.kind {
        ASTStatementKind::Declaration(list) => {
            assert!(matches!(list.vartype, GrammarVartype::Direct(VartypeKind::Double)));
            assert_eq!(list.declare_list.len(), 1);
        }
        other => panic!("no declaration list: {:?}", other),
    }
    let second = parser.next_statement().unwrap();
    assert_eq!(shape(expression_of(&second)), "x");
    assert!(parser.next_statement().is_none());
}

#[test]
fn return_with_and_without_a_value() {
    let mut parser = parser_for("return; return 1 + 2;");
    let first = parser.next_statement().unwrap();
    assert!(matches!(first.kind, ASTStatementKind::EmptyReturn));
    let second = parser.next_statement().unwrap();
    match &second.kind {
        ASTStatementKind::Return(expr) => assert_eq!(shape(expr), "(1+2)"),
        other => panic!("no return: {:?}", other),
    }
    assert!(parser.next_statement().is_none());
    assert_eq!(parser.diagnostics().len(), 0);
}

#[test]
fn function_with_parameters_and_body() {
    let mut parser = parser_for("int add(int a, float b) { int c = a + b; return c; }");
    let unit = parser.next_program_unit().unwrap();
    assert!(parser.next_program_unit().is_none());
    assert_eq!(parser.diagnostics().len(), 0);
    let function = match unit.kind {
        ASTProgramunitKind::Function(function) => function,
        other => panic!("no function: {:?}", other),
    };
    assert_eq!(function.name, "add");
    assert_eq!(function.params.len(), 2);
    assert_eq!(function.params[0].name, "a");
    assert!(matches!(function.params[0].param_type, GrammarVartype::Direct(VartypeKind::Int)));
    assert_eq!(function.params[1].name, "b");
    assert!(matches!(function.params[1].param_type, GrammarVartype::Direct(VartypeKind::Float)));
    assert!(matches!(function.function_type.returntype, GrammarVartype::Direct(VartypeKind::Int)));
    assert_eq!(function.function_type.arguments.len(), 2);
    assert!(matches!(function.function_type.arguments[1], GrammarVartype::Direct(VartypeKind::Float)));
    assert_eq!(function.statements.len(), 2);
    assert!(matches!(function.statements[0].kind, ASTStatementKind::Declaration(_)));
    assert!(matches!(function.statements[1].kind, ASTStatementKind::Return(_)));
}

#[test]
fn function_with_an_empty_body() {
    let mut parser = parser_for("int f() {} int g() { return; }");
    let first = parser.next_program_unit().unwrap();
    let second = parser.next_program_unit().unwrap();
    assert!(parser.next_program_unit().is_none());
    assert_eq!(parser.diagnostics().len(), 0);
    match (first.kind, second.kind) {
        (ASTProgramunitKind::Function(f), ASTProgramunitKind::Function(g)) => {
            assert_eq!(f.name, "f");
            assert_eq!(f.statements.len(), 0);
            assert_eq!(g.name, "g");
            assert_eq!(g.statements.len(), 1);
        }
        other => panic!("no two functions: {:?}", other),
    }
}

#[test]
fn body_without_its_closing_brace_ends_at_the_end_marker() {
    let mut parser = parser_for("int f() { 1;");
    let unit = parser.next_program_unit().unwrap();
    assert!(parser.next_program_unit().is_none());
    let bag = parser.into_diagnostics();
    assert_eq!(bag.len(), 1);
    assert_eq!(bag.diagnostics[0].message, "Unexpected token: Eof expected: RightBrace");
    match unit.kind {
        ASTProgramunitKind::Function(function) => assert_eq!(function.statements.len(), 1),
        other => panic!("no function: {:?}", other),
    }
}

#[test]
fn parameters_without_their_closing_parenthesis_end_at_the_end_marker() {
    let mut parser = parser_for("int f(int a");
    let unit = parser.next_program_unit().unwrap();
    assert!(parser.next_program_unit().is_none());
    let bag = parser.into_diagnostics();
    assert_eq!(bag.len(), 3);
    assert_eq!(bag.diagnostics[0].message, "Unexpected token: Eof expected: RightParen");
    assert_eq!(bag.diagnostics[1].message, "Unexpected token: Eof expected: LeftBrace");
    assert_eq!(bag.diagnostics[2].message, "Unexpected token: Eof expected: RightBrace");
    match unit.kind {
        ASTProgramunitKind::Function(function) => {
            assert_eq!(function.params.len(), 1);
            assert_eq!(function.statements.len(), 0);
        }
        other => panic!("no function: {:?}", other),
    }
}

#[test]
fn a_missing_type_keyword_is_reported_and_read_as_int() {
    let mut parser = parser_for("a = 1;");
    let unit = parser.next_program_unit().unwrap();
    let bag = parser.into_diagnostics();
    assert_eq!(bag.len(), 2);
    assert_eq!(
        bag.diagnostics[0].message,
        "Unexpected token: Identifier(\"a\") expected: VarType(Int)"
    );
    assert_eq!(bag.diagnostics[0].span, TextSpan::new(0, 1, "a".to_string()));
    assert_eq!(
        bag.diagnostics[1].message,
        "Unexpected token: Equal expected: Identifier(\"\")"
    );
    match unit.kind {
        ASTProgramunitKind::Declaration(list) => {
            assert!(matches!(list.vartype, GrammarVartype::Direct(VartypeKind::Int)));
            assert_eq!(list.declare_list.len(), 1);
            assert!(
                matches!(&list.declare_list[0], ASTDeclaration::VariableDeclareDirect(name) if name == "=")
            );
        }
        other => panic!("no declaration list: {:?}", other),
    }
}

#[test]
fn the_end_marker_ends_the_units() {
    let mut parser = parser_for("   ");
    assert!(parser.next_program_unit().is_none());
    assert!(parser.next_statement().is_none());
    assert_eq!(parser.diagnostics().len(), 0);
}

#[test]
fn a_unit_can_be_read_at_the_end_marker() {
    let mut parser = parser_for("");
    let unit = parser.parse_program_unit();
    assert!(matches!(unit.kind, ASTProgramunitKind::Declaration(_)));
    assert_eq!(parser.diagnostics().len(), 2);
}

#[test]
fn findings_are_added_to_the_bag_that_was_given() {
    let mut bag = DiagnosticBag::new();
    bag.report_warning("earlier".to_string(), TextSpan::new(0, 0, String::new()));
    let mut parser = Parser::new(tokenize(");"), bag);
    parser.next_statement();
    let bag = parser.into_diagnostics();
    assert_eq!(bag.len(), 2);
    assert_eq!(bag.diagnostics[0].message, "earlier");
    assert_eq!(bag.diagnostics[0].kind, DiagnosticKind::Warning);
    assert_eq!(bag.diagnostics[1].message, "Expected expression, found: RightParen");
}

#[test]
fn counter_counts() {
    let mut counter = Counter::new();
    assert_eq!(counter.count(), 0);
    counter.increment();
    counter.increment();
    assert_eq!(counter.count(), 2);
}

#[test]
fn blanks_are_dropped_before_reading() {
    let token = |kind: TokenKind, at: usize| Token::new(kind, TextSpan::new(at, at + 1, "?".to_string()));
    let tokens = vec![
        token(TokenKind::WhiteSpace, 0),
        token(TokenKind::Number(4), 1),
        token(TokenKind::WhiteSpace, 2),
        token(TokenKind::Slash, 3),
        token(TokenKind::WhiteSpace, 4),
        token(TokenKind::Number(2), 5),
        token(TokenKind::SemiColon, 6),
        token(TokenKind::Eof, 7),
    ];
    let mut parser = Parser::new(tokens, DiagnosticBag::new());
    let statement = parser.next_statement().unwrap();
    assert_eq!(shape(expression_of(&statement)), "(4/2)");
    assert!(parser.next_statement().is_none());
    assert_eq!(parser.diagnostics().len(), 0);
}

#[test]
fn an_end_marker_inside_the_tokens_ends_the_units() {
    let token = |kind: TokenKind, at: usize| Token::new(kind, TextSpan::new(at, at + 1, "?".to_string()));
    let tokens = vec![
        token(TokenKind::LeftParen, 0),
        token(TokenKind::Eof, 1),
        token(TokenKind::Number(2), 2),
        token(TokenKind::Eof, 3),
    ];
    let mut parser = Parser::new(tokens, DiagnosticBag::new());
    let statement = parser.next_statement().unwrap();
    assert_eq!(shape(expression_of(&statement)), "<error 1..2>");
    assert!(parser.next_statement().is_none());
    assert_eq!(parser.diagnostics().len(), 1);
}
