//! What a program means: the state of a run and how each node of the tree
//! changes it.
//!
//! All names live in one flat namespace: a call binds its parameters as
//! ordinary variables and leaves them bound. `return` records a value and
//! does not end the body. A failure stops the run: once a state holds one,
//! nothing changes it.
//!
//! The language has no conditional: what a body does never depends on a
//! value. A chain of calls that is longer than the number of functions
//! registered repeats a function, so it would repeat itself for ever and no
//! run that ends well holds one. The meaning is therefore defined with a
//! limit on the depth of calls, a run starts with the number of registered
//! functions as its limit, and a chain that goes beyond it is a failure.

use vstd::prelude::*;
use vstd::wrapping::i64_specs;
use crate::ast::expression::{ASTBinaryOperatorKind, ExprView};
use crate::ast::program_unit::{FunctionView, ParamView, UnitView};
use crate::ast::statement::{DeclView, StmtView};

verus! {

/// Why a run failed.
#[derive(Debug, PartialEq, Eq, Clone, Copy, Structural)]
pub enum RuntimeError {
    /// A variable was read that was never declared.
    UndeclaredVariable,
    /// A variable was read that has no value yet.
    UninitializedVariable,
    /// A function was called that is not registered.
    UnknownFunction,
    /// The right side of a division was zero.
    DivisionByZero,
    /// An operand or an argument gave no value.
    MissingValue,
    /// A chain of calls was longer than the number of registered functions.
    CallDepthExceeded,
}

/// The state of a run.
pub struct EvalState {
    /// The value of what was evaluated last.
    pub last_value: Option<i64>,
    /// The variables: a declared name is bound, to nothing until it is
    /// assigned.
    pub variables: Map<Seq<char>, Option<i64>>,
    /// The registered functions, oldest first.
    pub functions: Seq<FunctionView>,
    /// The values of the arguments of the call that is being made.
    pub arguments: Seq<i64>,
    /// Why the run failed, if it did.
    pub failure: Option<RuntimeError>,
}

/// The state of a run that has not begun.
pub open spec fn initial_state() -> EvalState {
    EvalState {
        last_value: None,
        variables: Map::empty(),
        functions: Seq::empty(),
        arguments: Seq::empty(),
        failure: None,
    }
}

/// The state `state` after the failure `error`.
pub open spec fn fail(state: EvalState, error: RuntimeError) -> EvalState {
    EvalState { failure: Some(error), ..state }
}

/// The state `state` with `value` as what was evaluated last.
pub open spec fn with_value(state: EvalState, value: Option<i64>) -> EvalState {
    EvalState { last_value: value, ..state }
}

/// The state `state` with `name` bound to what was evaluated last.
pub open spec fn bind_last(state: EvalState, name: Seq<char>) -> EvalState {
    EvalState { variables: state.variables.insert(name, state.last_value), ..state }
}

/// The quotient of two integers, rounded toward zero.
pub open spec fn truncated_quotient(x: int, d: int) -> int {
    if x == 0 {
        0
    } else if x > 0 && d > 0 {
        x / d
    } else if x < 0 && d < 0 {
        (-x) / (-d)
    } else if x < 0 {
        -((-x) / d)
    } else {
        -(x / (-d))
    }
}

/// The value of a binary operation in 64-bit arithmetic that wraps around;
/// nothing where a division has zero on its right. Assignment as an operator
/// gives its right side.
pub open spec fn apply_operator(kind: ASTBinaryOperatorKind, left: i64, right: i64) -> Option<i64> {
    match kind {
        ASTBinaryOperatorKind::Add => Some(i64_specs::wrapping_add(left, right)),
        ASTBinaryOperatorKind::Sub => Some(i64_specs::wrapping_sub(left, right)),
        ASTBinaryOperatorKind::Mul => Some(i64_specs::wrapping_mul(left, right)),
        ASTBinaryOperatorKind::Div => if right == 0 {
            None
        } else if left == i64::MIN && right == -1 {
            Some(i64::MIN)
        } else {
            Some(truncated_quotient(left as int, right as int) as i64)
        },
        ASTBinaryOperatorKind::Equal => Some(right),
    }
}

/// The function of the name `name` that was registered last.
pub open spec fn find_function(functions: Seq<FunctionView>, name: Seq<char>) -> Option<
    FunctionView,
>
    decreases functions.len(),
{
    if functions.len() == 0 {
        None
    } else if functions.last().name == name {
        Some(functions.last())
    } else {
        find_function(functions.drop_last(), name)
    }
}

/// Reading the variable `name`.
pub open spec fn read_variable(state: EvalState, name: Seq<char>) -> EvalState {
    if !state.variables.dom().contains(name) {
        fail(state, RuntimeError::UndeclaredVariable)
    } else {
        match state.variables[name] {
            Some(value) => with_value(state, Some(value)),
            None => fail(state, RuntimeError::UninitializedVariable),
        }
    }
}

/// Binding the parameters of a function to the argument values, the last
/// parameter to the value given last, as far as there are values.
pub open spec fn bind_parameters(state: EvalState, params: Seq<ParamView>) -> EvalState
    decreases params.len(),
{
    if params.len() == 0 {
        state
    } else if state.arguments.len() == 0 {
        bind_parameters(state, params.drop_last())
    } else {
        bind_parameters(
            EvalState {
                variables: state.variables.insert(
                    params.last().name,
                    Some(state.arguments.last()),
                ),
                arguments: state.arguments.drop_last(),
                ..state
            },
            params.drop_last(),
        )
    }
}

/// Evaluating an expression, with calls nested at most `depth` deep.
pub open spec fn eval_expression(state: EvalState, expr: ExprView, depth: nat) -> EvalState
    decreases depth, 1nat, expr,
{
    if state.failure is Some {
        state
    } else {
        match expr {
            ExprView::Number(number) => with_value(state, Some(number)),
            ExprView::Variable(name) => read_variable(state, name),
            ExprView::Binary(left, operator, right) => {
                let after_left = eval_expression(state, *left, depth);
                if after_left.failure is Some {
                    after_left
                } else if after_left.last_value is None {
                    fail(after_left, RuntimeError::MissingValue)
                } else {
                    let after_right = eval_expression(after_left, *right, depth);
                    if after_right.failure is Some {
                        after_right
                    } else if after_right.last_value is None {
                        fail(after_right, RuntimeError::MissingValue)
                    } else {
                        match apply_operator(
                            operator.kind,
                            after_left.last_value.unwrap(),
                            after_right.last_value.unwrap(),
                        ) {
                            Some(value) => with_value(after_right, Some(value)),
                            None => fail(after_right, RuntimeError::DivisionByZero),
                        }
                    }
                }
            },
            ExprView::Assignment(name, value) => {
                let after = eval_expression(state, *value, depth);
                if after.failure is Some {
                    after
                } else {
                    bind_last(after, name)
                }
            },
            ExprView::FunctionCall(name, arguments) => {
                let after = eval_arguments(state, arguments, depth);
                if after.failure is Some {
                    after
                } else {
                    match find_function(after.functions, name) {
                        None => fail(after, RuntimeError::UnknownFunction),
                        Some(function) => if depth == 0 {
                            fail(after, RuntimeError::CallDepthExceeded)
                        } else {
                            interpret_function(after, function, (depth - 1) as nat)
                        },
                    }
                }
            },
            ExprView::Error(_) => with_value(state, Some(0)),
        }
    }
}

/// Evaluating the arguments of a call from the left, each value going on top
/// of the argument values.
pub open spec fn eval_arguments(state: EvalState, arguments: Seq<ExprView>, depth: nat) -> EvalState
    decreases depth, 1nat, arguments,
{
    if state.failure is Some || arguments.len() == 0 {
        state
    } else {
        let after = eval_expression(with_value(state, None), arguments[0], depth);
        if after.failure is Some {
            after
        } else {
            match after.last_value {
                None => fail(after, RuntimeError::MissingValue),
                Some(value) => eval_arguments(
                    EvalState { arguments: after.arguments.push(value), ..after },
                    arguments.drop_first(),
                    depth,
                ),
            }
        }
    }
}

/// Running a function: its parameters are bound, then its statements run in
/// order, all of them.
pub open spec fn interpret_function(state: EvalState, function: FunctionView, depth: nat)
    -> EvalState
    decreases depth, 6nat, function,
{
    if state.failure is Some {
        state
    } else {
        execute_statements(bind_parameters(state, function.params), function.statements, depth)
    }
}

/// Running statements in order.
pub open spec fn execute_statements(state: EvalState, statements: Seq<StmtView>, depth: nat)
    -> EvalState
    decreases depth, 5nat, statements,
{
    if statements.len() == 0 {
        state
    } else {
        execute_statements(
            execute_statement(state, statements[0], depth),
            statements.drop_first(),
            depth,
        )
    }
}

/// Running one statement. It starts from the value zero.
pub open spec fn execute_statement(state: EvalState, statement: StmtView, depth: nat) -> EvalState
    decreases depth, 4nat, statement,
{
    if state.failure is Some {
        state
    } else {
        let start = with_value(state, Some(0));
        match statement {
            StmtView::Expression(expr) => eval_expression(start, expr, depth),
            StmtView::Declaration(list) => execute_declarations(start, list.declare_list, depth),
            StmtView::Return(expr) => eval_expression(start, expr, depth),
            StmtView::EmptyReturn => with_value(start, None),
        }
    }
}

/// Running the declarations of a list in order.
pub open spec fn execute_declarations(state: EvalState, declarations: Seq<DeclView>, depth: nat)
    -> EvalState
    decreases depth, 3nat, declarations,
{
    if declarations.len() == 0 {
        state
    } else {
        execute_declarations(
            execute_declaration(state, declarations[0], depth),
            declarations.drop_first(),
            depth,
        )
    }
}

/// Running one declaration: the name is bound, to the value of the
/// expression where there is one, else to nothing.
pub open spec fn execute_declaration(state: EvalState, declaration: DeclView, depth: nat)
    -> EvalState
    decreases depth, 2nat, declaration,
{
    if state.failure is Some {
        state
    } else {
        match declaration {
            DeclView::VariableDeclareDirect(name) => EvalState {
                variables: state.variables.insert(name, None),
                ..state
            },
            DeclView::VariableDeclareWithInit(name, expr) => {
                let after = eval_expression(state, expr, depth);
                if after.failure is Some {
                    after
                } else {
                    bind_last(after, name)
                }
            },
        }
    }
}

/// The depth of calls that a run from `state` may reach.
pub open spec fn depth_limit(state: EvalState) -> nat {
    state.functions.len()
}

/// Registering a function. The function `main` is run at once.
pub open spec fn register_function(state: EvalState, function: FunctionView) -> EvalState {
    if state.failure is Some {
        state
    } else {
        let registered = EvalState { functions: state.functions.push(function), ..state };
        if function.name == "main"@ {
            interpret_function(registered, function, state.functions.len())
        } else {
            registered
        }
    }
}

/// Running a program unit: a function is registered, a declaration list is
/// run.
pub open spec fn execute_unit(state: EvalState, unit: UnitView) -> EvalState {
    match unit {
        UnitView::Function(function) => register_function(state, function),
        UnitView::Declaration(list) => execute_declarations(
            state,
            list.declare_list,
            depth_limit(state),
        ),
    }
}

/// Running program units in order.
pub open spec fn execute_units(state: EvalState, units: Seq<UnitView>) -> EvalState
    decreases units.len(),
{
    if units.len() == 0 {
        state
    } else {
        execute_unit(execute_units(state, units.drop_last()), units.last())
    }
}

/// Division rounds toward zero: the quotient times the divisor lies between
/// zero and the dividend, less than one divisor away from it.
pub proof fn lemma_division_truncates(x: int, d: int)
    requires
        d != 0,
    ensures
        ({
            let remainder = x - truncated_quotient(x, d) * d;
            &&& x >= 0 ==> 0 <= remainder
            &&& x <= 0 ==> remainder <= 0
            &&& d > 0 ==> -d < remainder < d
            &&& d < 0 ==> d < remainder < -d
        }),
{
    if x > 0 && d > 0 {
        lemma_quotient_of_naturals(x, d);
    } else if x < 0 && d < 0 {
        lemma_quotient_of_naturals(-x, -d);
        assert(((-x) / (-d)) * d == -(((-x) / (-d)) * (-d))) by (nonlinear_arith);
    } else if x < 0 {
        lemma_quotient_of_naturals(-x, d);
        assert((-((-x) / d)) * d == -(((-x) / d) * d)) by (nonlinear_arith);
    } else if x > 0 {
        lemma_quotient_of_naturals(x, -d);
        assert((-(x / (-d))) * d == (x / (-d)) * (-d)) by (nonlinear_arith);
    }
}

/// The quotient of a natural number by a positive one leaves a remainder
/// that is less than the divisor.
proof fn lemma_quotient_of_naturals(x: int, d: int)
    requires
        x >= 0,
        d > 0,
    ensures
        0 <= x - (x / d) * d < d,
{
    assert(0 <= x - (x / d) * d < d) by (nonlinear_arith)
        requires
            x >= 0,
            d > 0,
    ;
}

/// Binding parameters leaves the functions and the failure alone.
pub proof fn lemma_bind_parameters_keeps(state: EvalState, params: Seq<ParamView>)
    ensures
        bind_parameters(state, params).functions == state.functions,
        bind_parameters(state, params).failure == state.failure,
        bind_parameters(state, params).last_value == state.last_value,
    decreases params.len(),
{
    if params.len() > 0 {
        if state.arguments.len() == 0 {
            lemma_bind_parameters_keeps(state, params.drop_last());
        } else {
            lemma_bind_parameters_keeps(
                EvalState {
                    variables: state.variables.insert(
                        params.last().name,
                        Some(state.arguments.last()),
                    ),
                    arguments: state.arguments.drop_last(),
                    ..state
                },
                params.drop_last(),
            );
        }
    }
}

/// Evaluating an expression registers no function and forgets none.
pub proof fn lemma_eval_expression_keeps_functions(state: EvalState, expr: ExprView, depth: nat)
    ensures
        eval_expression(state, expr, depth).functions == state.functions,
    decreases depth, 1nat, expr,
{
    if state.failure is None {
        match expr {
            ExprView::Binary(left, operator, right) => {
                lemma_eval_expression_keeps_functions(state, *left, depth);
                let after_left = eval_expression(state, *left, depth);
                lemma_eval_expression_keeps_functions(after_left, *right, depth);
            },
            ExprView::Assignment(name, value) => {
                lemma_eval_expression_keeps_functions(state, *value, depth);
            },
            ExprView::FunctionCall(name, arguments) => {
                lemma_eval_arguments_keeps_functions(state, arguments, depth);
                let after = eval_arguments(state, arguments, depth);
                if after.failure is None && depth > 0 {
                    match find_function(after.functions, name) {
                        Some(function) => {
                            lemma_interpret_function_keeps_functions(
                                after,
                                function,
                                (depth - 1) as nat,
                            );
                        },
                        None => {},
                    }
                }
            },
            _ => {},
        }
    }
}

/// Evaluating arguments registers no function and forgets none.
pub proof fn lemma_eval_arguments_keeps_functions(
    state: EvalState,
    arguments: Seq<ExprView>,
    depth: nat,
)
    ensures
        eval_arguments(state, arguments, depth).functions == state.functions,
    decreases depth, 1nat, arguments,
{
    if state.failure is None && arguments.len() > 0 {
        lemma_eval_expression_keeps_functions(with_value(state, None), arguments[0], depth);
        let after = eval_expression(with_value(state, None), arguments[0], depth);
        if after.failure is None {
            match after.last_value {
                Some(value) => {
                    lemma_eval_arguments_keeps_functions(
                        EvalState { arguments: after.arguments.push(value), ..after },
                        arguments.drop_first(),
                        depth,
                    );
                },
                None => {},
            }
        }
    }
}

/// Running a function registers no function and forgets none.
pub proof fn lemma_interpret_function_keeps_functions(
    state: EvalState,
    function: FunctionView,
    depth: nat,
)
    ensures
        interpret_function(state, function, depth).functions == state.functions,
    decreases depth, 6nat, function,
{
    if state.failure is None {
        lemma_bind_parameters_keeps(state, function.params);
        lemma_execute_statements_keeps_functions(
            bind_parameters(state, function.params),
            function.statements,
            depth,
        );
    }
}

/// Running statements registers no function and forgets none.
pub proof fn lemma_execute_statements_keeps_functions(
    state: EvalState,
    statements: Seq<StmtView>,
    depth: nat,
)
    ensures
        execute_statements(state, statements, depth).functions == state.functions,
    decreases depth, 5nat, statements,
{
    if statements.len() > 0 {
        lemma_execute_statement_keeps_functions(state, statements[0], depth);
        lemma_execute_statements_keeps_functions(
            execute_statement(state, statements[0], depth),
            statements.drop_first(),
            depth,
        );
    }
}

/// Running a statement registers no function and forgets none.
pub proof fn lemma_execute_statement_keeps_functions(
    state: EvalState,
    statement: StmtView,
    depth: nat,
)
    ensures
        execute_statement(state, statement, depth).functions == state.functions,
    decreases depth, 4nat, statement,
{
    if state.failure is None {
        let start = with_value(state, Some(0));
        match statement {
            StmtView::Expression(expr) => lemma_eval_expression_keeps_functions(start, expr, depth),
            StmtView::Declaration(list) => lemma_execute_declarations_keeps_functions(
                start,
                list.declare_list,
                depth,
            ),
            StmtView::Return(expr) => lemma_eval_expression_keeps_functions(start, expr, depth),
            StmtView::EmptyReturn => {},
        }
    }
}

/// Running declarations registers no function and forgets none.
pub proof fn lemma_execute_declarations_keeps_functions(
    state: EvalState,
    declarations: Seq<DeclView>,
    depth: nat,
)
    ensures
        execute_declarations(state, declarations, depth).functions == state.functions,
    decreases depth, 3nat, declarations,
{
    if declarations.len() > 0 {
        lemma_execute_declaration_keeps_functions(state, declarations[0], depth);
        lemma_execute_declarations_keeps_functions(
            execute_declaration(state, declarations[0], depth),
            declarations.drop_first(),
            depth,
        );
    }
}

/// Running a declaration registers no function and forgets none.
pub proof fn lemma_execute_declaration_keeps_functions(
    state: EvalState,
    declaration: DeclView,
    depth: nat,
)
    ensures
        execute_declaration(state, declaration, depth).functions == state.functions,
    decreases depth, 2nat, declaration,
{
    if state.failure is None {
        match declaration {
            DeclView::VariableDeclareWithInit(name, expr) => {
                lemma_eval_expression_keeps_functions(state, expr, depth);
            },
            _ => {},
        }
    }
}

/// A call of a function that is not registered fails the run, whatever its
/// arguments are.
pub proof fn lemma_unknown_function_fails(
    state: EvalState,
    name: Seq<char>,
    arguments: Seq<ExprView>,
    depth: nat,
)
    requires
        find_function(state.functions, name) is None,
    ensures
        eval_expression(state, ExprView::FunctionCall(name, arguments), depth).failure is Some
            || state.failure is Some,
        state.failure is None && eval_arguments(state, arguments, depth).failure is None
            ==> eval_expression(state, ExprView::FunctionCall(name, arguments), depth).failure
            == Some(RuntimeError::UnknownFunction),
{
    lemma_eval_arguments_keeps_functions(state, arguments, depth);
}

/// Registering the function `main` runs it at once, with every registered
/// function within its reach.
pub proof fn lemma_main_is_run(state: EvalState, function: FunctionView)
    requires
        state.failure is None,
        function.name == "main"@,
    ensures
        register_function(state, function) == interpret_function(
            EvalState { functions: state.functions.push(function), ..state },
            function,
            state.functions.len(),
        ),
        register_function(state, function).functions == state.functions.push(function),
{
    lemma_interpret_function_keeps_functions(
        EvalState { functions: state.functions.push(function), ..state },
        function,
        state.functions.len(),
    );
}

/// A failure is final: statements leave a failed run as it is.
pub proof fn lemma_failed_statements(state: EvalState, statements: Seq<StmtView>, depth: nat)
    requires
        state.failure is Some,
    ensures
        execute_statements(state, statements, depth) == state,
    decreases statements.len(),
{
    if statements.len() > 0 {
        assert(execute_statement(state, statements[0], depth) == state);
        lemma_failed_statements(state, statements.drop_first(), depth);
    }
}

/// A failure is final: declarations leave a failed run as it is.
pub proof fn lemma_failed_declarations(state: EvalState, declarations: Seq<DeclView>, depth: nat)
    requires
        state.failure is Some,
    ensures
        execute_declarations(state, declarations, depth) == state,
    decreases declarations.len(),
{
    if declarations.len() > 0 {
        assert(execute_declaration(state, declarations[0], depth) == state);
        lemma_failed_declarations(state, declarations.drop_first(), depth);
    }
}

/// A failure is final: program units leave a failed run as it is.
pub proof fn lemma_failed_units(state: EvalState, units: Seq<UnitView>)
    requires
        state.failure is Some,
    ensures
        execute_units(state, units) == state,
    decreases units.len(),
{
    if units.len() > 0 {
        lemma_failed_units(state, units.drop_last());
        match units.last() {
            UnitView::Declaration(list) => {
                lemma_failed_declarations(state, list.declare_list, depth_limit(state));
            },
            _ => {},
        }
    }
}

} // verus!
