//! The traversal protocol: one method for each kind of node, and
//! dispatchers that hand a node to the method of its variant.

use vstd::prelude::*;
use crate::ast::expression::{
    ASTAssignment,
    ASTBinaryExpression,
    ASTExpression,
    ASTExpressionKind,
    ASTFuncionCall,
    ASTNumberExpression,
    ASTVariableExpression,
    ExprView,
};
use crate::ast::lexer::{TextSpan};
use crate::ast::program_unit::{
    ASTFunction,
    ASTProgramunit,
    ASTProgramunitKind,
    FunctionView,
    UnitView,
};
use crate::ast::statement::{
    ASTDeclaration,
    ASTDeclarationList,
    ASTStatement,
    ASTStatementKind,
    DeclListView,
    DeclView,
    StmtView,
};

verus! {

/// What a visitor was shown: which of its methods was called, on which node.
pub enum Visit {
    /// `visit_program_unit`.
    ProgramUnit(UnitView),
    /// `visit_function`.
    Function(FunctionView),
    /// `visit_declaration_list`.
    DeclarationList(DeclListView),
    /// `visit_declaration`.
    Declaration(DeclView),
    /// `visit_statement`.
    Statement(StmtView),
    /// `visit_return`.
    Return(ExprView),
    /// `visit_empty_return`.
    EmptyReturn,
    /// `visit_expression`.
    Expression(ExprView),
    /// The method of the expression's variant: `visit_number`,
    /// `visit_variable`, `visit_binary_expression`, `visit_assignment`,
    /// `visit_function_call` or `visit_error`.
    Node(ExprView),
}

/// The visit that a program unit is dispatched to.
pub open spec fn route_program_unit(unit: UnitView) -> Visit {
    match unit {
        UnitView::Function(function) => Visit::Function(function),
        UnitView::Declaration(list) => Visit::DeclarationList(list),
    }
}

/// The visit that a statement is dispatched to.
pub open spec fn route_statement(statement: StmtView) -> Visit {
    match statement {
        StmtView::Expression(expr) => Visit::Expression(expr),
        StmtView::Declaration(list) => Visit::DeclarationList(list),
        StmtView::Return(expr) => Visit::Return(expr),
        StmtView::EmptyReturn => Visit::EmptyReturn,
    }
}

/// A consumer of the tree. An implementation says with `visited` what each
/// visit does to it, and with `ready` in which states it can be shown a
/// node.
pub trait ASTVisitor: Sized {
    /// Whether the visitor can be shown a node.
    spec fn ready(&self) -> bool;

    /// Whether `after` is this visitor after the visit `visit`.
    spec fn visited(self, visit: Visit, after: Self) -> bool;

    /// Hands a program unit to the method of its variant.
    fn do_visit_program_unit(&mut self, program_unit: &ASTProgramunit)
        requires
            old(self).ready(),
        ensures
            final(self).ready(),
            old(self).visited(route_program_unit(program_unit@), *final(self)),
    {
        match &program_unit.kind {
            ASTProgramunitKind::Function(function) => {
                self.visit_function(function);
            },
            ASTProgramunitKind::Declaration(declaration_list) => {
                self.visit_declaration_list(declaration_list);
            },
        }
    }

    /// Hands a statement to the method of its variant.
    fn do_visit_statement(&mut self, statement: &ASTStatement)
        requires
            old(self).ready(),
        ensures
            final(self).ready(),
            old(self).visited(route_statement(statement@), *final(self)),
    {
        match &statement.kind {
            ASTStatementKind::Expression(expr) => {
                self.visit_expression(expr);
            },
            ASTStatementKind::Declaration(declaration_list) => {
                self.visit_declaration_list(declaration_list);
            },
            ASTStatementKind::Return(expr) => {
                self.visit_return(expr);
            },
            ASTStatementKind::EmptyReturn => {
                self.visit_empty_return();
            },
        }
    }

    /// Hands an expression to the method of its variant.
    fn do_visit_expression(&mut self, expr: &ASTExpression)
        requires
            old(self).ready(),
        ensures
            final(self).ready(),
            old(self).visited(Visit::Node(expr@), *final(self)),
    {
        match &expr.kind {
            ASTExpressionKind::Number(number) => {
                self.visit_number(number);
            },
            ASTExpressionKind::Binary(binary) => {
                self.visit_binary_expression(binary);
            },
            ASTExpressionKind::Variable(variable) => {
                self.visit_variable(variable);
            },
            ASTExpressionKind::Assignment(assignment) => {
                self.visit_assignment(assignment);
            },
            ASTExpressionKind::Error(span) => {
                self.visit_error(span);
            },
            ASTExpressionKind::FunctionCall(function_call) => {
                self.visit_function_call(function_call);
            },
        }
    }

    fn visit_statement(&mut self, statement: &ASTStatement)
        requires
            old(self).ready(),
        ensures
            final(self).ready(),
            old(self).visited(Visit::Statement(statement@), *final(self)),
    ;

    fn visit_expression(&mut self, expr: &ASTExpression)
        requires
            old(self).ready(),
        ensures
            final(self).ready(),
            old(self).visited(Visit::Expression(expr@), *final(self)),
    ;

    fn visit_assignment(&mut self, assignment: &ASTAssignment)
        requires
            old(self).ready(),
        ensures
            final(self).ready(),
            old(self).visited(Visit::Node(assignment@), *final(self)),
    ;

    fn visit_number(&mut self, number: &ASTNumberExpression)
        requires
            old(self).ready(),
        ensures
            final(self).ready(),
            old(self).visited(Visit::Node(number@), *final(self)),
    ;

    fn visit_binary_expression(&mut self, binary: &ASTBinaryExpression)
        requires
            old(self).ready(),
        ensures
            final(self).ready(),
            old(self).visited(Visit::Node(binary@), *final(self)),
    ;

    fn visit_error(&mut self, span: &TextSpan)
        requires
            old(self).ready(),
        ensures
            final(self).ready(),
            old(self).visited(Visit::Node(ExprView::Error(span@)), *final(self)),
    ;

    fn visit_variable(&mut self, variable: &ASTVariableExpression)
        requires
            old(self).ready(),
        ensures
            final(self).ready(),
            old(self).visited(Visit::Node(variable@), *final(self)),
    ;

    fn visit_declaration_list(&mut self, declaration_list: &ASTDeclarationList)
        requires
            old(self).ready(),
        ensures
            final(self).ready(),
            old(self).visited(Visit::DeclarationList(declaration_list@), *final(self)),
    ;

    fn visit_declaration(&mut self, declaration: &ASTDeclaration)
        requires
            old(self).ready(),
        ensures
            final(self).ready(),
            old(self).visited(Visit::Declaration(declaration@), *final(self)),
    ;

    fn visit_program_unit(&mut self, program_unit: &ASTProgramunit)
        requires
            old(self).ready(),
        ensures
            final(self).ready(),
            old(self).visited(Visit::ProgramUnit(program_unit@), *final(self)),
    ;

    fn visit_function(&mut self, function: &ASTFunction)
        requires
            old(self).ready(),
        ensures
            final(self).ready(),
            old(self).visited(Visit::Function(function@), *final(self)),
    ;

    fn visit_return(&mut self, expr: &ASTExpression)
        requires
            old(self).ready(),
        ensures
            final(self).ready(),
            old(self).visited(Visit::Return(expr@), *final(self)),
    ;

    fn visit_empty_return(&mut self)
        requires
            old(self).ready(),
        ensures
            final(self).ready(),
            old(self).visited(Visit::EmptyReturn, *final(self)),
    ;

    fn visit_function_call(&mut self, function_call: &ASTFuncionCall)
        requires
            old(self).ready(),
        ensures
            final(self).ready(),
            old(self).visited(Visit::Node(function_call@), *final(self)),
    ;
}

/// Whether `states` are the states of a visitor that is shown the program
/// units `units` in order: the state before each unit, in which it is ready,
/// and the state after the last.
pub open spec fn visit_chain<V: ASTVisitor>(units: Seq<UnitView>, states: Seq<V>) -> bool {
    &&& states.len() == units.len() + 1
    &&& forall|i: int|
        0 <= i < units.len() ==> (#[trigger] states[i]).ready() && states[i].visited(
            Visit::ProgramUnit(units[i]),
            states[i + 1],
        )
}

/// Whether `after` is the visitor `before` after it was shown the program
/// units `units` in order, ready before each.
pub open spec fn visited_units<V: ASTVisitor>(before: V, units: Seq<UnitView>, after: V) -> bool {
    exists|states: Seq<V>|
        #[trigger] visit_chain(units, states) && states.first() == before && states.last() == after
}

} // verus!
