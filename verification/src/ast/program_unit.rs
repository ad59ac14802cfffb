//! The units of a program: functions and top-level declarations.

use vstd::prelude::*;
use crate::ast::{FunctionTypeView, GrammarFunctiontype, GrammarVartype, TypeView};
use crate::ast::statement::{ASTDeclarationList, ASTStatement, DeclListView, StmtView};

verus! {

/// What a program unit is.
#[derive(Debug)]
pub enum ASTProgramunitKind {
    Function(ASTFunction),
    Declaration(ASTDeclarationList),
}

/// A unit of a program: a function or a declaration list.
#[derive(Debug)]
pub struct ASTProgramunit {
    pub kind: ASTProgramunitKind,
}

/// A function: its type, its name, its parameters and its body.
#[derive(Debug)]
pub struct ASTFunction {
    pub function_type: GrammarFunctiontype,
    pub name: String,
    pub statements: Vec<ASTStatement>,
    pub params: Vec<ASTFunctonParam>,
}

/// A parameter of a function.
#[derive(Debug)]
pub struct ASTFunctonParam {
    pub param_type: GrammarVartype,
    pub name: String,
}

/// The mathematical value of an [`ASTFunctonParam`].
pub struct ParamView {
    pub param_type: TypeView,
    pub name: Seq<char>,
}

/// The mathematical value of an [`ASTFunction`].
pub struct FunctionView {
    pub function_type: FunctionTypeView,
    pub name: Seq<char>,
    pub statements: Seq<StmtView>,
    pub params: Seq<ParamView>,
}

/// The mathematical value of an [`ASTProgramunit`].
pub enum UnitView {
    Function(FunctionView),
    Declaration(DeclListView),
}

impl View for ASTFunctonParam {
    type V = ParamView;

    open spec fn view(&self) -> ParamView {
        ParamView { param_type: self.param_type@, name: self.name@ }
    }
}

impl View for ASTFunction {
    type V = FunctionView;

    open spec fn view(&self) -> FunctionView {
        FunctionView {
            function_type: self.function_type@,
            name: self.name@,
            statements: self.statements@.map_values(|statement: ASTStatement| statement@),
            params: self.params@.map_values(|param: ASTFunctonParam| param@),
        }
    }
}

impl View for ASTProgramunit {
    type V = UnitView;

    open spec fn view(&self) -> UnitView {
        match self.kind {
            ASTProgramunitKind::Function(function) => UnitView::Function(function@),
            ASTProgramunitKind::Declaration(list) => UnitView::Declaration(list@),
        }
    }
}

impl Clone for ASTFunctonParam {
    fn clone(&self) -> (copy: Self)
        ensures
            copy@ == self@,
    {
        ASTFunctonParam { param_type: self.param_type.clone(), name: self.name.clone() }
    }
}

impl Clone for ASTFunction {
    fn clone(&self) -> (copy: Self)
        ensures
            copy@ == self@,
    {
        let mut statements: Vec<ASTStatement> = Vec::new();
        let mut i: usize = 0;
        while i < self.statements.len()
            invariant
                i <= self.statements.len(),
                statements@.len() == i,
                forall|j: int| 0 <= j < i ==> (#[trigger] statements@[j])@ == self.statements@[j]@,
            decreases self.statements.len() - i,
        {
            statements.push(self.statements[i].clone());
            i += 1;
        }
        let mut params: Vec<ASTFunctonParam> = Vec::new();
        let mut k: usize = 0;
        while k < self.params.len()
            invariant
                k <= self.params.len(),
                params@.len() == k,
                forall|j: int| 0 <= j < k ==> (#[trigger] params@[j])@ == self.params@[j]@,
            decreases self.params.len() - k,
        {
            params.push(self.params[k].clone());
            k += 1;
        }
        let copy = ASTFunction {
            function_type: self.function_type.clone(),
            name: self.name.clone(),
            statements,
            params,
        };
        assert(copy@.statements =~= self@.statements);
        assert(copy@.params =~= self@.params);
        copy
    }
}

impl ASTProgramunit {
    /// The unit that a function is.
    pub fn function(function: ASTFunction) -> (unit: Self)
        ensures
            unit.kind == ASTProgramunitKind::Function(function),
            unit@ == UnitView::Function(function@),
    {
        ASTProgramunit { kind: ASTProgramunitKind::Function(function) }
    }

    /// The unit that a declaration list is.
    pub fn declaration(declaration_list: ASTDeclarationList) -> (unit: Self)
        ensures
            unit.kind == ASTProgramunitKind::Declaration(declaration_list),
            unit@ == UnitView::Declaration(declaration_list@),
    {
        ASTProgramunit { kind: ASTProgramunitKind::Declaration(declaration_list) }
    }
}

impl ASTFunction {
    /// A function of the given type and parameters, with no name and no body
    /// yet.
    pub fn new(function_type: GrammarFunctiontype, params: Vec<ASTFunctonParam>) -> (function: Self)
        ensures
            function.function_type == function_type,
            function.params == params,
            function.name@ == Seq::<char>::empty(),
            function.statements@ == Seq::<ASTStatement>::empty(),
    {
        Self { function_type, name: String::new(), statements: Vec::new(), params }
    }
}

impl ASTFunctonParam {
    /// The parameter `name` of the type `param_type`.
    pub fn new(param_type: GrammarVartype, name: String) -> (param: Self)
        ensures
            param.param_type == param_type,
            param.name == name,
    {
        Self { param_type, name }
    }
}

} // verus!
