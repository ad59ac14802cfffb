//! Tokens, the tree, its traversal, the parser and the evaluator.

use vstd::prelude::*;
use crate::ast::expression::{ASTExpression, ASTExpressionKind};
use crate::ast::lexer::VartypeKind;
use crate::ast::printer::{lemma_visit_chain_prints, line_views, render_units, ASTPrinter};
use crate::ast::program_unit::{ASTProgramunit, UnitView};
use crate::ast::visitor::{visit_chain, visited_units, ASTVisitor, Visit};

pub mod environment;
pub mod evaluator;
pub mod expression;
pub mod grammar;
pub mod lexer;
pub mod parser;
pub mod printer;
pub mod program_unit;
pub mod semantics;
pub mod statement;
pub mod visitor;

verus! {

/// A program: its units in the order of the source.
#[derive(Debug)]
pub struct Ast {
    pub program_units: Vec<ASTProgramunit>,
}

impl View for Ast {
    type V = Seq<UnitView>;

    open spec fn view(&self) -> Seq<UnitView> {
        self.program_units@.map_values(|unit: ASTProgramunit| unit@)
    }
}

impl Ast {
    /// A program without units.
    pub fn new() -> (ast: Self)
        ensures
            ast@ == Seq::<UnitView>::empty(),
    {
        let ast = Self { program_units: Vec::new() };
        assert(ast@ =~= Seq::<UnitView>::empty());
        ast
    }

    /// Adds a unit behind the others.
    pub fn add_program_unit(&mut self, program_unit: ASTProgramunit)
        ensures
            final(self)@ == old(self)@.push(program_unit@),
    {
        self.program_units.push(program_unit);
        assert(self@ =~= old(self)@.push(program_unit@));
    }

    /// Shows every program unit to the visitor, in order.
    pub fn visit<V: ASTVisitor>(&self, visitor: &mut V)
        requires
            old(visitor).ready(),
        ensures
            final(visitor).ready(),
            visited_units(*old(visitor), self@, *final(visitor)),
    {
        let ghost mut states: Seq<V> = seq![*visitor];
        let mut i: usize = 0;
        while i < self.program_units.len()
            invariant
                i <= self.program_units.len(),
                visitor.ready(),
                states.len() == i + 1,
                states.first() == *old(visitor),
                states.last() == *visitor,
                visit_chain(self@.take(i as int), states),
            decreases self.program_units.len() - i,
        {
            visitor.visit_program_unit(&self.program_units[i]);
            proof {
                let earlier = states;
                states = states.push(*visitor);
                assert forall|k: int| 0 <= k < i + 1 implies (#[trigger] states[k]).ready()
                    && states[k].visited(
                    Visit::ProgramUnit(self@.take(i + 1)[k]),
                    states[k + 1],
                ) by {
                    if k < i {
                        assert(earlier[k].ready());
                        assert(self@.take(i as int)[k] == self@.take(i + 1)[k]);
                    }
                }
            }
            i += 1;
        }
        assert(self@.take(i as int) =~= self@);
    }

    /// The tree written down: the lines of every program unit, in order.
    pub fn visualize(&self) -> (lines: Vec<String>)
        ensures
            line_views(lines@) == render_units(self@, 0),
    {
        let mut printer = ASTPrinter::new();
        let ghost before = printer;
        self.visit(&mut printer);
        proof {
            let states = choose|states: Seq<ASTPrinter>|
                #[trigger] visit_chain(self@, states) && states.first() == before && states.last()
                    == printer;
            lemma_visit_chain_prints(self@, states);
            assert(line_views(printer.lines@) =~= render_units(self@, 0));
        }
        printer.lines
    }
}

/// The type of a function: the types of its parameters and of its result.
#[derive(Debug)]
pub struct GrammarFunctiontype {
    pub arguments: Vec<GrammarVartype>,
    pub returntype: GrammarVartype,
}

/// A type of the language.
#[derive(Debug)]
pub enum GrammarVartype {
    Direct(VartypeKind),
    Ref(Box<GrammarVartype>),
    Function(Box<GrammarFunctiontype>),
}

/// The mathematical value of a [`GrammarVartype`].
pub enum TypeView {
    Direct(VartypeKind),
    Ref(Box<TypeView>),
    Function(Seq<TypeView>, Box<TypeView>),
}

/// The mathematical value of a [`GrammarFunctiontype`].
pub struct FunctionTypeView {
    pub arguments: Seq<TypeView>,
    pub returntype: TypeView,
}

/// The mathematical value of a type.
pub open spec fn type_view(vartype: GrammarVartype) -> TypeView
    decreases vartype,
{
    match vartype {
        GrammarVartype::Direct(kind) => TypeView::Direct(kind),
        GrammarVartype::Ref(inner) => TypeView::Ref(Box::new(type_view(*inner))),
        GrammarVartype::Function(function) => TypeView::Function(
            types_view(function.arguments@),
            Box::new(type_view(function.returntype)),
        ),
    }
}

/// The mathematical values of types, in order.
pub open spec fn types_view(types: Seq<GrammarVartype>) -> Seq<TypeView>
    decreases types,
{
    if types.len() == 0 {
        Seq::empty()
    } else {
        types_view(types.drop_last()).push(type_view(types.last()))
    }
}

/// The view of a sequence of types is the sequence of their views.
pub proof fn lemma_types_view(types: Seq<GrammarVartype>)
    ensures
        types_view(types).len() == types.len(),
        forall|i: int| 0 <= i < types.len() ==> types_view(types)[i] == type_view(#[trigger] types[i]),
    decreases types.len(),
{
    if types.len() > 0 {
        let front = types.drop_last();
        lemma_types_view(front);
        assert forall|i: int| 0 <= i < types.len() implies types_view(types)[i] == type_view(
            #[trigger] types[i],
        ) by {
            if i < front.len() {
                assert(front[i] == types[i]);
            }
        }
    }
}

/// Pushing a type pushes its view.
pub proof fn lemma_types_view_push(types: Seq<GrammarVartype>, vartype: GrammarVartype)
    ensures
        types_view(types.push(vartype)) == types_view(types).push(type_view(vartype)),
{
    assert(types.push(vartype).drop_last() =~= types);
}

impl View for GrammarVartype {
    type V = TypeView;

    open spec fn view(&self) -> TypeView {
        type_view(*self)
    }
}

impl View for GrammarFunctiontype {
    type V = FunctionTypeView;

    open spec fn view(&self) -> FunctionTypeView {
        FunctionTypeView {
            arguments: types_view(self.arguments@),
            returntype: type_view(self.returntype),
        }
    }
}

impl Clone for GrammarVartype {
    fn clone(&self) -> (copy: Self)
        ensures
            copy@ == self@,
        decreases self,
    {
        match self {
            GrammarVartype::Direct(kind) => GrammarVartype::Direct(*kind),
            GrammarVartype::Ref(inner) => GrammarVartype::Ref(Box::new((&**inner).clone())),
            GrammarVartype::Function(function) => {
                let arguments = clone_types(&function.arguments);
                GrammarVartype::Function(
                    Box::new(
                        GrammarFunctiontype {
                            arguments,
                            returntype: function.returntype.clone(),
                        },
                    ),
                )
            },
        }
    }
}

/// A copy of every type, in order.
fn clone_types(types: &Vec<GrammarVartype>) -> (copy: Vec<GrammarVartype>)
    ensures
        types_view(copy@) == types_view(types@),
    decreases types,
{
    let mut copy: Vec<GrammarVartype> = Vec::new();
    let mut i: usize = 0;
    while i < types.len()
        invariant
            i <= types.len(),
            copy@.len() == i,
            forall|j: int| 0 <= j < i ==> type_view(#[trigger] copy@[j]) == type_view(types@[j]),
        decreases types.len() - i,
    {
        copy.push(types[i].clone());
        i += 1;
    }
    proof {
        lemma_types_view(copy@);
        lemma_types_view(types@);
        assert forall|k: int| 0 <= k < types@.len() implies types_view(copy@)[k] == types_view(
            types@,
        )[k] by {
            assert(type_view(copy@[k]) == type_view(types@[k]));
        }
        assert(types_view(copy@) =~= types_view(types@));
    }
    copy
}

impl Clone for GrammarFunctiontype {
    fn clone(&self) -> (copy: Self)
        ensures
            copy@ == self@,
    {
        GrammarFunctiontype {
            arguments: clone_types(&self.arguments),
            returntype: self.returntype.clone(),
        }
    }
}

impl GrammarFunctiontype {
    /// The type of a function from `arguments` to `returntype`.
    pub fn new(arguments: Vec<GrammarVartype>, returntype: GrammarVartype) -> (function: Self)
        ensures
            function.arguments == arguments,
            function.returntype == returntype,
    {
        GrammarFunctiontype { arguments, returntype }
    }
}

impl GrammarVartype {
    /// The type that a type keyword names.
    pub fn new(vartype: &VartypeKind) -> (made: Self)
        ensures
            made == GrammarVartype::Direct(*vartype),
    {
        GrammarVartype::Direct(*vartype)
    }

    /// The type of a reference to `vartype`.
    pub fn reference(vartype: GrammarVartype) -> (made: Self)
        ensures
            made == GrammarVartype::Ref(Box::new(vartype)),
    {
        GrammarVartype::Ref(Box::new(vartype))
    }

    /// The type of a function from `arguments` to `returntype`.
    pub fn function(arguments: Vec<GrammarVartype>, returntype: GrammarVartype) -> (made: Self)
        ensures
            made == GrammarVartype::Function(Box::new(GrammarFunctiontype { arguments, returntype })),
    {
        GrammarVartype::Function(Box::new(GrammarFunctiontype::new(arguments, returntype)))
    }
}

/// What an assignment writes to.
#[derive(Debug)]
pub enum LeftValue {
    Variable(String),
}

impl View for LeftValue {
    type V = Seq<char>;

    /// The name of the variable.
    open spec fn view(&self) -> Seq<char> {
        match *self {
            LeftValue::Variable(name) => name@,
        }
    }
}

impl Clone for LeftValue {
    fn clone(&self) -> (copy: Self)
        ensures
            copy == *self,
    {
        match self {
            LeftValue::Variable(name) => LeftValue::Variable(name.clone()),
        }
    }
}

impl LeftValue {
    /// The name of the variable.
    pub fn to_text(&self) -> (text: String)
        ensures
            text@ == self@,
    {
        match self {
            LeftValue::Variable(name) => name.clone(),
        }
    }

    /// The target that a variable expression names. Only a variable can be
    /// assigned to.
    pub fn variable(name: ASTExpression) -> (target: Self)
        requires
            name.kind is Variable,
        ensures
            target == LeftValue::Variable(name.kind->Variable_0.name),
    {
        match name.kind {
            ASTExpressionKind::Variable(variable) => LeftValue::Variable(variable.name),
            _ => LeftValue::Variable(String::new()),
        }
    }
}

} // verus!
