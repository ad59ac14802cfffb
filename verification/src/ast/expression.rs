//! Expressions: the nodes, their mathematical values and their constructors.

use vstd::prelude::*;
use crate::ast::LeftValue;
use crate::ast::lexer::{TextSpan, TextSpanView, Token, TokenView};

verus! {

/// What an expression is.
#[derive(Debug)]
pub enum ASTExpressionKind {
    Number(ASTNumberExpression),
    Variable(ASTVariableExpression),
    Binary(ASTBinaryExpression),
    Error(TextSpan),
    Assignment(ASTAssignment),
    FunctionCall(ASTFuncionCall),
}

/// An expression.
#[derive(Debug)]
pub struct ASTExpression {
    pub kind: ASTExpressionKind,
}

/// The use of a variable.
#[derive(Debug)]
pub struct ASTVariableExpression {
    pub name: String,
}

/// A number literal.
#[derive(Debug)]
pub struct ASTNumberExpression {
    pub value: i64,
}

/// The binary operators. `Equal` is assignment: the parser reads it as an
/// operator and makes an assignment of it.
#[derive(Debug, PartialEq, Eq, Clone, Copy, Structural)]
pub enum ASTBinaryOperatorKind {
    Add,
    Sub,
    Mul,
    Div,
    Equal,
}

/// A binary operator with the token it was read from.
#[derive(Debug)]
pub struct ASTBinaryOperator {
    pub kind: ASTBinaryOperatorKind,
    pub token: Token,
}

/// An operator between two expressions.
#[derive(Debug)]
pub struct ASTBinaryExpression {
    pub left: Box<ASTExpression>,
    pub right: Box<ASTExpression>,
    pub operator: ASTBinaryOperator,
}

/// The assignment of a value to a variable.
#[derive(Debug)]
pub struct ASTAssignment {
    pub name: LeftValue,
    pub expr: Box<ASTExpression>,
}

/// A call of a function by name.
#[derive(Debug)]
pub struct ASTFuncionCall {
    pub name: String,
    pub param_list: Vec<ASTExpression>,
}

/// The mathematical value of an [`ASTBinaryOperator`].
pub struct OperatorView {
    pub kind: ASTBinaryOperatorKind,
    pub token: TokenView,
}

/// The mathematical value of an expression: a tree whose leaves are numbers,
/// names and the spans of what could not be parsed.
pub enum ExprView {
    Number(i64),
    Variable(Seq<char>),
    Binary(Box<ExprView>, OperatorView, Box<ExprView>),
    Assignment(Seq<char>, Box<ExprView>),
    FunctionCall(Seq<char>, Seq<ExprView>),
    Error(TextSpanView),
}

/// The mathematical value of an expression.
pub open spec fn expr_view(expr: ASTExpression) -> ExprView
    decreases expr,
{
    match expr.kind {
        ASTExpressionKind::Number(number) => ExprView::Number(number.value),
        ASTExpressionKind::Variable(variable) => ExprView::Variable(variable.name@),
        ASTExpressionKind::Binary(binary) => ExprView::Binary(
            Box::new(expr_view(*binary.left)),
            binary.operator@,
            Box::new(expr_view(*binary.right)),
        ),
        ASTExpressionKind::Error(span) => ExprView::Error(span@),
        ASTExpressionKind::Assignment(assignment) => ExprView::Assignment(
            assignment.name@,
            Box::new(expr_view(*assignment.expr)),
        ),
        ASTExpressionKind::FunctionCall(call) => ExprView::FunctionCall(
            call.name@,
            exprs_view(call.param_list@),
        ),
    }
}

/// The mathematical values of expressions, in order.
pub open spec fn exprs_view(exprs: Seq<ASTExpression>) -> Seq<ExprView>
    decreases exprs,
{
    if exprs.len() == 0 {
        Seq::empty()
    } else {
        exprs_view(exprs.drop_last()).push(expr_view(exprs.last()))
    }
}

/// The view of a sequence of expressions is the sequence of their views.
pub proof fn lemma_exprs_view(exprs: Seq<ASTExpression>)
    ensures
        exprs_view(exprs).len() == exprs.len(),
        forall|i: int| 0 <= i < exprs.len() ==> exprs_view(exprs)[i] == expr_view(#[trigger] exprs[i]),
    decreases exprs.len(),
{
    if exprs.len() > 0 {
        let front = exprs.drop_last();
        lemma_exprs_view(front);
        assert forall|i: int| 0 <= i < exprs.len() implies exprs_view(exprs)[i] == expr_view(
            #[trigger] exprs[i],
        ) by {
            if i < front.len() {
                assert(front[i] == exprs[i]);
            }
        }
    }
}

/// Pushing an expression pushes its view.
pub proof fn lemma_exprs_view_push(exprs: Seq<ASTExpression>, expr: ASTExpression)
    ensures
        exprs_view(exprs.push(expr)) == exprs_view(exprs).push(expr_view(expr)),
{
    assert(exprs.push(expr).drop_last() =~= exprs);
}

impl View for ASTBinaryOperator {
    type V = OperatorView;

    open spec fn view(&self) -> OperatorView {
        OperatorView { kind: self.kind, token: self.token@ }
    }
}

impl View for ASTExpression {
    type V = ExprView;

    open spec fn view(&self) -> ExprView {
        expr_view(*self)
    }
}

impl View for ASTNumberExpression {
    type V = ExprView;

    open spec fn view(&self) -> ExprView {
        ExprView::Number(self.value)
    }
}

impl View for ASTVariableExpression {
    type V = ExprView;

    open spec fn view(&self) -> ExprView {
        ExprView::Variable(self.name@)
    }
}

impl View for ASTBinaryExpression {
    type V = ExprView;

    open spec fn view(&self) -> ExprView {
        ExprView::Binary(
            Box::new(expr_view(*self.left)),
            self.operator@,
            Box::new(expr_view(*self.right)),
        )
    }
}

impl View for ASTAssignment {
    type V = ExprView;

    open spec fn view(&self) -> ExprView {
        ExprView::Assignment(self.name@, Box::new(expr_view(*self.expr)))
    }
}

impl View for ASTFuncionCall {
    type V = ExprView;

    open spec fn view(&self) -> ExprView {
        ExprView::FunctionCall(self.name@, exprs_view(self.param_list@))
    }
}

impl Clone for ASTBinaryOperator {
    fn clone(&self) -> (copy: Self)
        ensures
            copy == *self,
    {
        ASTBinaryOperator { kind: self.kind, token: self.token.clone() }
    }
}

impl Clone for ASTExpression {
    fn clone(&self) -> (copy: Self)
        ensures
            copy@ == self@,
        decreases self,
    {
        match &self.kind {
            ASTExpressionKind::Number(number) => ASTExpression::number(number.value),
            ASTExpressionKind::Variable(variable) => ASTExpression::variable(variable.name.clone()),
            ASTExpressionKind::Binary(binary) => {
                let left = (&*binary.left).clone();
                let right = (&*binary.right).clone();
                ASTExpression::binary(binary.operator.clone(), left, right)
            },
            ASTExpressionKind::Error(span) => ASTExpression::error(span.clone()),
            ASTExpressionKind::Assignment(assignment) => {
                let expr = (&*assignment.expr).clone();
                ASTExpression::new(
                    ASTExpressionKind::Assignment(
                        ASTAssignment { name: assignment.name.clone(), expr: Box::new(expr) },
                    ),
                )
            },
            ASTExpressionKind::FunctionCall(call) => {
                let param_list = clone_expressions(&call.param_list);
                ASTExpression::function_call(call.name.clone(), param_list)
            },
        }
    }
}

/// A copy of every expression, in order.
pub fn clone_expressions(exprs: &Vec<ASTExpression>) -> (copy: Vec<ASTExpression>)
    ensures
        exprs_view(copy@) == exprs_view(exprs@),
    decreases exprs,
{
    let mut copy: Vec<ASTExpression> = Vec::new();
    let mut i: usize = 0;
    while i < exprs.len()
        invariant
            i <= exprs.len(),
            copy@.len() == i,
            forall|j: int| 0 <= j < i ==> expr_view(#[trigger] copy@[j]) == expr_view(exprs@[j]),
        decreases exprs.len() - i,
    {
        copy.push(exprs[i].clone());
        i += 1;
    }
    proof {
        lemma_exprs_view(copy@);
        lemma_exprs_view(exprs@);
        assert forall|k: int| 0 <= k < exprs@.len() implies exprs_view(copy@)[k] == exprs_view(
            exprs@,
        )[k] by {
            assert(expr_view(copy@[k]) == expr_view(exprs@[k]));
        }
        assert(exprs_view(copy@) =~= exprs_view(exprs@));
    }
    copy
}

impl ASTExpression {
    /// The expression of the given kind.
    pub fn new(kind: ASTExpressionKind) -> (expr: Self)
        ensures
            expr.kind == kind,
    {
        ASTExpression { kind }
    }

    /// The number literal of `number`.
    pub fn number(number: i64) -> (expr: Self)
        ensures
            expr.kind == ASTExpressionKind::Number(ASTNumberExpression { value: number }),
            expr@ == ExprView::Number(number),
    {
        ASTExpression::new(ASTExpressionKind::Number(ASTNumberExpression::new(number)))
    }

    /// The operator `operator` between `left` and `right`.
    pub fn binary(operator: ASTBinaryOperator, left: ASTExpression, right: ASTExpression) -> (expr:
        Self)
        ensures
            expr.kind == ASTExpressionKind::Binary(
                ASTBinaryExpression { left: Box::new(left), right: Box::new(right), operator },
            ),
            expr@ == ExprView::Binary(Box::new(left@), operator@, Box::new(right@)),
    {
        ASTExpression::new(ASTExpressionKind::Binary(ASTBinaryExpression::new(left, right, operator)))
    }

    /// The use of the variable `name`.
    pub fn variable(name: String) -> (expr: Self)
        ensures
            expr.kind == ASTExpressionKind::Variable(ASTVariableExpression { name }),
            expr@ == ExprView::Variable(name@),
    {
        ASTExpression::new(ASTExpressionKind::Variable(ASTVariableExpression::new(name)))
    }

    /// The assignment of `expr` to the variable that `name` is. Only a
    /// variable can be assigned to.
    pub fn assignment(name: ASTExpression, expr: ASTExpression) -> (made: Self)
        requires
            name.kind is Variable,
        ensures
            made.kind == ASTExpressionKind::Assignment(
                ASTAssignment {
                    name: LeftValue::Variable(name.kind->Variable_0.name),
                    expr: Box::new(expr),
                },
            ),
            made@ == ExprView::Assignment(name@->Variable_0, Box::new(expr@)),
    {
        ASTExpression::new(ASTExpressionKind::Assignment(ASTAssignment::new(name, expr)))
    }

    /// The call of the function `name` on `param_list`.
    pub fn function_call(name: String, param_list: Vec<ASTExpression>) -> (expr: Self)
        ensures
            expr.kind == ASTExpressionKind::FunctionCall(ASTFuncionCall { name, param_list }),
            expr@ == ExprView::FunctionCall(name@, exprs_view(param_list@)),
    {
        ASTExpression::new(ASTExpressionKind::FunctionCall(ASTFuncionCall::new(name, param_list)))
    }

    /// The node for what could not be read at `span`.
    pub fn error(span: TextSpan) -> (expr: Self)
        ensures
            expr.kind == ASTExpressionKind::Error(span),
            expr@ == ExprView::Error(span@),
    {
        ASTExpression::new(ASTExpressionKind::Error(span))
    }
}

impl ASTVariableExpression {
    /// The use of the variable `name`.
    pub fn new(name: String) -> (variable: Self)
        ensures
            variable.name == name,
    {
        ASTVariableExpression { name }
    }
}

impl ASTNumberExpression {
    /// The number literal of `value`.
    pub fn new(value: i64) -> (number: Self)
        ensures
            number.value == value,
    {
        ASTNumberExpression { value }
    }

    /// The number.
    pub fn value(&self) -> (value: i64)
        ensures
            value == self.value,
    {
        self.value
    }
}

/// How tightly an operator binds: assignment least, then sum and difference,
/// then product and quotient.
pub open spec fn precedence_of(kind: ASTBinaryOperatorKind) -> u8 {
    match kind {
        ASTBinaryOperatorKind::Add => 2,
        ASTBinaryOperatorKind::Sub => 2,
        ASTBinaryOperatorKind::Mul => 3,
        ASTBinaryOperatorKind::Div => 3,
        ASTBinaryOperatorKind::Equal => 1,
    }
}

/// Whether a chain of the operator groups from the right. Only assignment
/// does.
pub open spec fn right_associative(kind: ASTBinaryOperatorKind) -> bool {
    kind == ASTBinaryOperatorKind::Equal
}

impl ASTBinaryOperator {
    /// The operator of the given kind, read from `token`.
    pub fn new(kind: ASTBinaryOperatorKind, token: Token) -> (operator: Self)
        ensures
            operator.kind == kind,
            operator.token == token,
    {
        ASTBinaryOperator { kind, token }
    }

    /// How tightly the operator binds.
    pub fn precedence(&self) -> (precedence: u8)
        ensures
            precedence == precedence_of(self.kind),
    {
        match self.kind {
            ASTBinaryOperatorKind::Add => 2,
            ASTBinaryOperatorKind::Sub => 2,
            ASTBinaryOperatorKind::Mul => 3,
            ASTBinaryOperatorKind::Div => 3,
            ASTBinaryOperatorKind::Equal => 1,
        }
    }

    /// Whether a chain of the operator groups from the right.
    pub fn right_combined(&self) -> (right: bool)
        ensures
            right == right_associative(self.kind),
    {
        match self.kind {
            ASTBinaryOperatorKind::Equal => true,
            _ => false,
        }
    }
}

impl ASTBinaryExpression {
    /// The operator `operator` between `left` and `right`.
    fn new(left: ASTExpression, right: ASTExpression, operator: ASTBinaryOperator) -> (binary: Self)
        ensures
            binary == (ASTBinaryExpression { left: Box::new(left), right: Box::new(right), operator }),
    {
        ASTBinaryExpression { left: Box::new(left), right: Box::new(right), operator }
    }
}

impl ASTAssignment {
    /// The assignment of `expr` to the variable that `name` is. Only a
    /// variable can be assigned to.
    pub fn new(name: ASTExpression, expr: ASTExpression) -> (assignment: Self)
        requires
            name.kind is Variable,
        ensures
            assignment == (ASTAssignment {
                name: LeftValue::Variable(name.kind->Variable_0.name),
                expr: Box::new(expr),
            }),
    {
        ASTAssignment { name: LeftValue::variable(name), expr: Box::new(expr) }
    }
}

impl ASTFuncionCall {
    /// The call of the function `name` on `param_list`.
    pub fn new(name: String, param_list: Vec<ASTExpression>) -> (call: Self)
        ensures
            call.name == name,
            call.param_list == param_list,
    {
        ASTFuncionCall { name, param_list }
    }
}

} // verus!
