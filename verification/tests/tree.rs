use minic::ast::expression::{
    ASTAssignment, ASTBinaryOperator, ASTBinaryOperatorKind, ASTExpression, ASTExpressionKind,
    ASTFuncionCall, ASTNumberExpression, ASTVariableExpression,
};
use minic::ast::lexer::{TextSpan, Token, TokenKind, VartypeKind};
use minic::ast::program_unit::{ASTFunction, ASTFunctonParam, ASTProgramunit, ASTProgramunitKind};
use minic::ast::statement::{ASTDeclaration, ASTDeclarationList, ASTStatement, ASTStatementKind};
use minic::ast::{Ast, GrammarFunctiontype, GrammarVartype, LeftValue};
use minic::diagnostics::{Diagnostic, DiagnosticBag, DiagnosticKind};

fn plus() -> ASTBinaryOperator {
    ASTBinaryOperator::new(
        ASTBinaryOperatorKind::Add,
        Token::new(TokenKind::Plus, TextSpan::new(1, 2, "+".to_string())),
    )
}

#[test]
fn expressions_are_built_from_their_parts() {
    assert!(matches!(ASTExpression::number(5).kind, ASTExpressionKind::Number(n) if n.value() == 5));
    assert!(matches!(
        ASTExpression::variable("a".to_string()).kind,
        ASTExpressionKind::Variable(v) if v.name == "a"
    ));
    let sum = ASTExpression::binary(plus(), ASTExpression::number(1), ASTExpression::number(2));
    match sum.kind {
        ASTExpressionKind::Binary(binary) => {
            assert!(matches!(binary.left.kind, ASTExpressionKind::Number(n) if n.value == 1));
            assert!(matches!(binary.right.kind, ASTExpressionKind::Number(n) if n.value == 2));
            assert_eq!(binary.operator.kind, ASTBinaryOperatorKind::Add);
        }
        other => panic!("no binary expression: {:?}", other),
    }
    let assignment =
        ASTExpression::assignment(ASTExpression::variable("a".to_string()), ASTExpression::number(3));
    match assignment.kind {
        ASTExpressionKind::Assignment(assignment) => {
            assert!(matches!(&assignment.name, LeftValue::Variable(name) if name == "a"));
            assert!(matches!(assignment.expr.kind, ASTExpressionKind::Number(n) if n.value == 3));
        }
        other => panic!("no assignment: {:?}", other),
    }
    let call = ASTExpression::function_call("f".to_string(), vec![ASTExpression::number(1)]);
    assert!(matches!(
        call.kind,
        ASTExpressionKind::FunctionCall(c) if c.name == "f" && c.param_list.len() == 1
    ));
    let error = ASTExpression::error(TextSpan::new(2, 3, ";".to_string()));
    assert!(matches!(error.kind, ASTExpressionKind::Error(span) if span.start == 2 && span.end == 3));
    let made = ASTExpression::new(ASTExpressionKind::Number(ASTNumberExpression::new(9)));
    assert!(matches!(made.kind, ASTExpressionKind::Number(n) if n.value == 9));
    assert_eq!(ASTVariableExpression::new("v".to_string()).name, "v");
    assert_eq!(ASTFuncionCall::new("g".to_string(), Vec::new()).name, "g");
    let target = ASTAssignment::new(ASTExpression::variable("t".to_string()), ASTExpression::number(0));
    assert!(matches!(target.name, LeftValue::Variable(name) if name == "t"));
    assert!(matches!(
        LeftValue::variable(ASTExpression::variable("u".to_string())),
        LeftValue::Variable(name) if name == "u"
    ));
    assert_eq!(LeftValue::Variable("w".to_string()).to_text(), "w");
}

#[test]
fn precedence_and_grouping_of_the_operators() {
    let token = || Token::new(TokenKind::Bad, TextSpan::new(0, 0, String::new()));
    let precedence = |kind| ASTBinaryOperator::new(kind, token()).precedence();
    let right = |kind| ASTBinaryOperator::new(kind, token()).right_combined();
    assert_eq!(precedence(ASTBinaryOperatorKind::Equal), 1);
    assert_eq!(precedence(ASTBinaryOperatorKind::Add), 2);
    assert_eq!(precedence(ASTBinaryOperatorKind::Sub), 2);
    assert_eq!(precedence(ASTBinaryOperatorKind::Mul), 3);
    assert_eq!(precedence(ASTBinaryOperatorKind::Div), 3);
    assert!(right(ASTBinaryOperatorKind::Equal));
    assert!(!right(ASTBinaryOperatorKind::Add));
    assert!(!right(ASTBinaryOperatorKind::Sub));
    assert!(!right(ASTBinaryOperatorKind::Mul));
    assert!(!right(ASTBinaryOperatorKind::Div));
}

#[test]
fn a_copy_of_an_expression_has_the_same_shape() {
    let expr = ASTExpression::function_call(
        "f".to_string(),
        vec![
            ASTExpression::binary(plus(), ASTExpression::number(1), ASTExpression::variable("a".to_string())),
            ASTExpression::assignment(ASTExpression::variable("b".to_string()), ASTExpression::number(2)),
            ASTExpression::error(TextSpan::new(0, 1, "?".to_string())),
        ],
    );
    assert_eq!(format!("{:?}", expr.clone()), format!("{:?}", expr));
}

#[test]
fn statements_are_built_from_their_parts() {
    assert!(matches!(
        ASTStatement::expression(ASTExpression::number(1)).kind,
        ASTStatementKind::Expression(_)
    ));
    assert!(matches!(
        ASTStatement::return_statement(ASTExpression::number(1)).kind,
        ASTStatementKind::Return(_)
    ));
    assert!(matches!(ASTStatement::empty_return().kind, ASTStatementKind::EmptyReturn));
    assert!(matches!(
        ASTStatement::new(ASTStatementKind::EmptyReturn).kind,
        ASTStatementKind::EmptyReturn
    ));
    let mut list = ASTDeclarationList::new(GrammarVartype::new(&VartypeKind::Float));
    assert_eq!(list.declare_list.len(), 0);
    list.declare_list.push(ASTDeclaration::VariableDeclareDirect("a".to_string()));
    list.declare_list
        .push(ASTDeclaration::VariableDeclareWithInit("b".to_string(), ASTExpression::number(1)));
    let statement = ASTStatement::declaration(list);
    let copy = statement.clone();
    assert_eq!(format!("{:?}", copy), format!("{:?}", statement));
    match statement.kind {
        ASTStatementKind::Declaration(list) => {
            assert!(matches!(list.vartype, GrammarVartype::Direct(VartypeKind::Float)));
            assert_eq!(list.declare_list.len(), 2);
        }
        other => panic!("no declaration list: {:?}", other),
    }
}

#[test]
fn types_are_built_from_their_parts() {
    assert!(matches!(GrammarVartype::new(&VartypeKind::Int), GrammarVartype::Direct(VartypeKind::Int)));
    let reference = GrammarVartype::reference(GrammarVartype::new(&VartypeKind::Double));
    assert!(matches!(
        &reference,
        GrammarVartype::Ref(inner) if matches!(**inner, GrammarVartype::Direct(VartypeKind::Double))
    ));
    let function = GrammarVartype::function(
        vec![GrammarVartype::new(&VartypeKind::Int), reference],
        GrammarVartype::new(&VartypeKind::Float),
    );
    assert_eq!(format!("{:?}", function.clone()), format!("{:?}", function));
    match function {
        GrammarVartype::Function(function) => {
            assert_eq!(function.arguments.len(), 2);
            assert!(matches!(function.returntype, GrammarVartype::Direct(VartypeKind::Float)));
        }
        other => panic!("no function type: {:?}", other),
    }
    let plain = GrammarFunctiontype::new(Vec::new(), GrammarVartype::new(&VartypeKind::Int));
    assert_eq!(plain.arguments.len(), 0);
}

#[test]
fn functions_and_units_are_built_from_their_parts() {
    let param = ASTFunctonParam::new(GrammarVartype::new(&VartypeKind::Int), "a".to_string());
    assert_eq!(param.name, "a");
    let mut function = ASTFunction::new(
        GrammarFunctiontype::new(
            vec![GrammarVartype::new(&VartypeKind::Int)],
            GrammarVartype::new(&VartypeKind::Int),
        ),
        vec![param],
    );
    assert_eq!(function.name, "");
    assert_eq!(function.statements.len(), 0);
    assert_eq!(function.params.len(), 1);
    function.name = "f".to_string();
    function.statements.push(ASTStatement::empty_return());
    assert_eq!(format!("{:?}", function.clone()), format!("{:?}", function));
    assert!(matches!(ASTProgramunit::function(function).kind, ASTProgramunitKind::Function(_)));
    let list = ASTDeclarationList::new(GrammarVartype::new(&VartypeKind::Int));
    assert!(matches!(ASTProgramunit::declaration(list).kind, ASTProgramunitKind::Declaration(_)));
    let mut ast = Ast::new();
    assert_eq!(ast.program_units.len(), 0);
    ast.add_program_unit(ASTProgramunit::declaration(ASTDeclarationList::new(GrammarVartype::new(
        &VartypeKind::Int,
    ))));
    assert_eq!(ast.program_units.len(), 1);
}

#[test]
fn the_bag_keeps_its_findings_in_order() {
    let mut bag = DiagnosticBag::new();
    assert_eq!(bag.len(), 0);
    bag.report_error("first".to_string(), TextSpan::new(0, 1, "a".to_string()));
    bag.report_warning("second".to_string(), TextSpan::new(1, 2, "b".to_string()));
    let token = Token::new(TokenKind::Number(8), TextSpan::new(2, 3, "8".to_string()));
    bag.report_unexpected_token(&TokenKind::SemiColon, &token);
    bag.report_expected_expression(&token);
    bag.report_invalid_assignment_target(&token);
    assert_eq!(bag.len(), 5);
    assert_eq!(bag.diagnostics[0].message, "first");
    assert_eq!(bag.diagnostics[0].kind, DiagnosticKind::Error);
    assert_eq!(bag.diagnostics[1].message, "second");
    assert_eq!(bag.diagnostics[1].kind, DiagnosticKind::Warning);
    assert_eq!(bag.diagnostics[1].span, TextSpan::new(1, 2, "b".to_string()));
    assert_eq!(bag.diagnostics[2].message, "Unexpected token: Number(8) expected: SemiColon");
    assert_eq!(bag.diagnostics[2].span, token.span);
    assert_eq!(bag.diagnostics[3].message, "Expected expression, found: Number(8)");
    assert_eq!(bag.diagnostics[4].message, "Invalid assignment target");
    let diagnostic =
        Diagnostic::new("m".to_string(), TextSpan::new(3, 4, "x".to_string()), DiagnosticKind::Warning);
    assert_eq!(diagnostic.message, "m");
    assert_eq!(diagnostic.span.literal, "x");
    assert_eq!(diagnostic.kind, DiagnosticKind::Warning);
}
