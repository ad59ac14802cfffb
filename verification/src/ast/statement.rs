//! Statements and declarations.

use vstd::prelude::*;
use crate::ast::{GrammarVartype, TypeView};
use crate::ast::expression::{ASTExpression, ExprView};

verus! {

/// What a statement is.
#[derive(Debug)]
pub enum ASTStatementKind {
    Expression(ASTExpression),
    Declaration(ASTDeclarationList),
    Return(ASTExpression),
    EmptyReturn,
}

/// A statement.
#[derive(Debug)]
pub struct ASTStatement {
    pub kind: ASTStatementKind,
}

/// One declared variable, with or without a first value.
#[derive(Debug)]
pub enum ASTDeclaration {
    VariableDeclareDirect(String),
    VariableDeclareWithInit(String, ASTExpression),
}

/// The variables declared after one type keyword.
#[derive(Debug)]
pub struct ASTDeclarationList {
    pub vartype: GrammarVartype,
    pub declare_list: Vec<ASTDeclaration>,
}

/// The mathematical value of an [`ASTDeclaration`].
pub enum DeclView {
    VariableDeclareDirect(Seq<char>),
    VariableDeclareWithInit(Seq<char>, ExprView),
}

/// The mathematical value of an [`ASTDeclarationList`].
pub struct DeclListView {
    pub vartype: TypeView,
    pub declare_list: Seq<DeclView>,
}

/// The mathematical value of an [`ASTStatement`].
pub enum StmtView {
    Expression(ExprView),
    Declaration(DeclListView),
    Return(ExprView),
    EmptyReturn,
}

impl View for ASTDeclaration {
    type V = DeclView;

    open spec fn view(&self) -> DeclView {
        match *self {
            ASTDeclaration::VariableDeclareDirect(name) => DeclView::VariableDeclareDirect(name@),
            ASTDeclaration::VariableDeclareWithInit(name, expr) => DeclView::VariableDeclareWithInit(
                name@,
                expr@,
            ),
        }
    }
}

impl View for ASTDeclarationList {
    type V = DeclListView;

    open spec fn view(&self) -> DeclListView {
        DeclListView {
            vartype: self.vartype@,
            declare_list: self.declare_list@.map_values(|declaration: ASTDeclaration| declaration@),
        }
    }
}

impl View for ASTStatement {
    type V = StmtView;

    open spec fn view(&self) -> StmtView {
        match self.kind {
            ASTStatementKind::Expression(expr) => StmtView::Expression(expr@),
            ASTStatementKind::Declaration(list) => StmtView::Declaration(list@),
            ASTStatementKind::Return(expr) => StmtView::Return(expr@),
            ASTStatementKind::EmptyReturn => StmtView::EmptyReturn,
        }
    }
}

impl Clone for ASTDeclaration {
    fn clone(&self) -> (copy: Self)
        ensures
            copy@ == self@,
    {
        match self {
            ASTDeclaration::VariableDeclareDirect(name) => ASTDeclaration::VariableDeclareDirect(
                name.clone(),
            ),
            ASTDeclaration::VariableDeclareWithInit(name, expr) => {
                ASTDeclaration::VariableDeclareWithInit(name.clone(), expr.clone())
            },
        }
    }
}

impl Clone for ASTDeclarationList {
    fn clone(&self) -> (copy: Self)
        ensures
            copy@ == self@,
    {
        let mut declare_list: Vec<ASTDeclaration> = Vec::new();
        let mut i: usize = 0;
        while i < self.declare_list.len()
            invariant
                i <= self.declare_list.len(),
                declare_list@.len() == i,
                forall|j: int| 0 <= j < i ==> (#[trigger] declare_list@[j])@ == self.declare_list@[j]@,
            decreases self.declare_list.len() - i,
        {
            declare_list.push(self.declare_list[i].clone());
            i += 1;
        }
        let copy = ASTDeclarationList { vartype: self.vartype.clone(), declare_list };
        assert(copy@.declare_list =~= self@.declare_list);
        copy
    }
}

impl Clone for ASTStatement {
    fn clone(&self) -> (copy: Self)
        ensures
            copy@ == self@,
    {
        match &self.kind {
            ASTStatementKind::Expression(expr) => ASTStatement::expression(expr.clone()),
            ASTStatementKind::Declaration(list) => ASTStatement::declaration(list.clone()),
            ASTStatementKind::Return(expr) => ASTStatement::return_statement(expr.clone()),
            ASTStatementKind::EmptyReturn => ASTStatement::empty_return(),
        }
    }
}

impl ASTStatement {
    /// The statement of the given kind.
    pub fn new(kind: ASTStatementKind) -> (statement: Self)
        ensures
            statement.kind == kind,
    {
        ASTStatement { kind }
    }

    /// The statement that an expression is.
    pub fn expression(expr: ASTExpression) -> (statement: Self)
        ensures
            statement.kind == ASTStatementKind::Expression(expr),
            statement@ == StmtView::Expression(expr@),
    {
        ASTStatement::new(ASTStatementKind::Expression(expr))
    }

    /// The statement that a declaration list is.
    pub fn declaration(declaration_list: ASTDeclarationList) -> (statement: Self)
        ensures
            statement.kind == ASTStatementKind::Declaration(declaration_list),
            statement@ == StmtView::Declaration(declaration_list@),
    {
        ASTStatement::new(ASTStatementKind::Declaration(declaration_list))
    }

    /// The return of the value of `expr`.
    pub fn return_statement(expr: ASTExpression) -> (statement: Self)
        ensures
            statement.kind == ASTStatementKind::Return(expr),
            statement@ == StmtView::Return(expr@),
    {
        ASTStatement::new(ASTStatementKind::Return(expr))
    }

    /// The return of nothing.
    pub fn empty_return() -> (statement: Self)
        ensures
            statement.kind == ASTStatementKind::EmptyReturn,
            statement@ == StmtView::EmptyReturn,
    {
        ASTStatement::new(ASTStatementKind::EmptyReturn)
    }
}

impl ASTDeclarationList {
    /// A list for `vartype` that declares nothing yet.
    pub fn new(vartype: GrammarVartype) -> (list: Self)
        ensures
            list.vartype == vartype,
            list.declare_list@ == Seq::<ASTDeclaration>::empty(),
            list@ == (DeclListView { vartype: vartype@, declare_list: Seq::empty() }),
    {
        let list = Self { vartype, declare_list: Vec::new() };
        assert(list@.declare_list =~= Seq::<DeclView>::empty());
        list
    }
}

} // verus!
