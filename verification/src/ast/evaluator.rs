//! The evaluator: a visitor that runs the tree.

use vstd::prelude::*;
use vstd::string::*;
use crate::ast::LeftValue;
use crate::ast::environment::VariableTable;
use crate::ast::expression::{
    exprs_view,
    lemma_exprs_view,
    ASTAssignment,
    ASTBinaryExpression,
    ASTBinaryOperatorKind,
    ASTExpression,
    ASTExpressionKind,
    ASTFuncionCall,
    ASTNumberExpression,
    ASTVariableExpression,
};
use crate::ast::lexer::TextSpan;
use crate::ast::program_unit::{
    ASTFunction,
    ASTFunctonParam,
    ASTProgramunit,
    ASTProgramunitKind,
    FunctionView,
    UnitView,
};
use crate::ast::semantics::{
    apply_operator,
    bind_parameters,
    depth_limit,
    eval_arguments,
    eval_expression,
    execute_declaration,
    execute_declarations,
    execute_statement,
    execute_statements,
    execute_unit,
    execute_units,
    fail,
    find_function,
    initial_state,
    interpret_function,
    lemma_failed_declarations,
    read_variable,
    register_function,
    with_value,
    EvalState,
    RuntimeError,
};
use crate::ast::statement::{
    ASTDeclaration,
    ASTDeclarationList,
    ASTStatement,
    ASTStatementKind,
};
use crate::ast::visitor::{visit_chain, visited_units, ASTVisitor, Visit};

verus! {

/// What a visit does to the state of a run. A visit from outside starts with
/// the number of registered functions as the limit on the depth of calls.
pub open spec fn step(state: EvalState, visit: Visit) -> EvalState {
    let depth = depth_limit(state);
    match visit {
        Visit::ProgramUnit(unit) => execute_unit(state, unit),
        Visit::Function(function) => register_function(state, function),
        Visit::DeclarationList(list) => execute_declarations(state, list.declare_list, depth),
        Visit::Declaration(declaration) => execute_declaration(state, declaration, depth),
        Visit::Statement(statement) => execute_statement(state, statement, depth),
        Visit::Return(expr) => eval_expression(state, expr, depth),
        Visit::EmptyReturn => if state.failure is Some {
            state
        } else {
            with_value(state, None)
        },
        Visit::Expression(expr) => eval_expression(state, expr, depth),
        Visit::Node(expr) => eval_expression(state, expr, depth),
    }
}

/// The state of one run: the last value, the variables, the functions and
/// the values of the arguments on their way into a call.
pub struct ASTEvaluator {
    pub last_value: Option<i64>,
    variable_map: VariableTable,
    function_map: Vec<ASTFunction>,
    argument_transition: Vec<i64>,
    failure: Option<RuntimeError>,
}

impl View for ASTEvaluator {
    type V = EvalState;

    closed spec fn view(&self) -> EvalState {
        EvalState {
            last_value: self.last_value,
            variables: self.variable_map@,
            functions: self.function_map@.map_values(|function: ASTFunction| function@),
            arguments: self.argument_transition@,
            failure: self.failure,
        }
    }
}

/// The quotient of `left` by `right`, rounded toward zero and wrapped around.
fn wrapping_quotient(left: i64, right: i64) -> (quotient: i64)
    requires
        right != 0,
    ensures
        Some(quotient) == apply_operator(ASTBinaryOperatorKind::Div, left, right),
{
    let ghost x = left as int;
    let ghost d = right as int;
    proof {
        if x > 0 && d > 0 {
            assert(0 <= x / d <= x) by (nonlinear_arith)
                requires
                    x > 0,
                    d > 0,
            ;
        } else if x < 0 && d < 0 {
            assert(0 <= (-x) / (-d) <= -x) by (nonlinear_arith)
                requires
                    x < 0,
                    d < 0,
            ;
            assert(d == -1 ==> (-x) / (-d) == -x) by (nonlinear_arith)
                requires
                    x < 0,
                    d < 0,
            ;
            assert(d < -1 ==> (-x) / (-d) < -x) by (nonlinear_arith)
                requires
                    x < 0,
                    d < 0,
            ;
        } else if x < 0 {
            assert(0 <= (-x) / d <= -x) by (nonlinear_arith)
                requires
                    x < 0,
                    d > 0,
            ;
        } else if x > 0 {
            assert(0 <= x / (-d) <= x) by (nonlinear_arith)
                requires
                    x > 0,
                    d < 0,
            ;
        }
    }
    match left.checked_div(right) {
        Some(quotient) => quotient,
        None => i64::MIN,
    }
}

impl ASTEvaluator {
    /// The variables are a well-formed table.
    pub closed spec fn wf(&self) -> bool {
        self.variable_map.wf()
    }

    /// A run that has not begun.
    pub fn new() -> (evaluator: Self)
        ensures
            evaluator.wf(),
            evaluator@ == initial_state(),
    {
        let evaluator = Self {
            last_value: None,
            variable_map: VariableTable::new(),
            function_map: Vec::new(),
            argument_transition: Vec::new(),
            failure: None,
        };
        assert(evaluator@.functions =~= Seq::<FunctionView>::empty());
        evaluator
    }

    /// The value of what was evaluated last.
    pub fn result(&self) -> (value: Option<i64>)
        ensures
            value == self@.last_value,
    {
        self.last_value
    }

    /// Why the run failed, if it did.
    pub fn failure(&self) -> (failure: Option<RuntimeError>)
        ensures
            failure == self@.failure,
    {
        self.failure
    }

    /// What the variable `name` holds: nothing where it was never declared,
    /// `Some(None)` where it has no value yet.
    pub fn variable(&self, name: &str) -> (value: Option<Option<i64>>)
        requires
            self.wf(),
        ensures
            value == if self@.variables.dom().contains(name@) {
                Some(self@.variables[name@])
            } else {
                None
            },
    {
        self.variable_map.get(&String::from_str(name))
    }

    /// How many functions are registered: the limit on the depth of calls.
    fn depth(&self) -> (depth: usize)
        ensures
            depth == depth_limit(self@),
    {
        self.function_map.len()
    }

    /// Records a failure.
    fn fail(&mut self, error: RuntimeError)
        ensures
            final(self)@ == fail(old(self)@, error),
            final(self).wf() == old(self).wf(),
    {
        self.failure = Some(error);
    }

    /// The value of a binary operation; nothing for a division by zero.
    fn apply(kind: ASTBinaryOperatorKind, left: i64, right: i64) -> (value: Option<i64>)
        ensures
            value == apply_operator(kind, left, right),
    {
        match kind {
            ASTBinaryOperatorKind::Add => Some(left.wrapping_add(right)),
            ASTBinaryOperatorKind::Sub => Some(left.wrapping_sub(right)),
            ASTBinaryOperatorKind::Mul => Some(left.wrapping_mul(right)),
            ASTBinaryOperatorKind::Div => if right == 0 {
                None
            } else {
                Some(wrapping_quotient(left, right))
            },
            ASTBinaryOperatorKind::Equal => Some(right),
        }
    }

    /// A copy of the function of the name `name` that was registered last.
    fn find_function(&self, name: &String) -> (function: Option<ASTFunction>)
        ensures
            match find_function(self@.functions, name@) {
                Some(found) => function is Some && function.unwrap()@ == found,
                None => function is None,
            },
    {
        let ghost all = self@.functions;
        let mut i: usize = self.function_map.len();
        assert(all.take(i as int) =~= all);
        while i > 0
            invariant
                i <= self.function_map.len(),
                all == self@.functions,
                find_function(all, name@) == find_function(all.take(i as int), name@),
            decreases i,
        {
            proof {
                assert(all.take(i as int).drop_last() =~= all.take(i - 1));
                assert(all.take(i as int).last() == self.function_map@[i - 1]@);
            }
            i -= 1;
            if self.function_map[i].name == *name {
                return Some(self.function_map[i].clone());
            }
        }
        None
    }

    /// Reads the variable `name` as the last value.
    fn read_variable(&mut self, name: &String)
        requires
            old(self).wf(),
            old(self)@.failure is None,
        ensures
            final(self).wf(),
            final(self)@ == read_variable(old(self)@, name@),
    {
        match self.variable_map.get(name) {
            None => self.fail(RuntimeError::UndeclaredVariable),
            Some(None) => self.fail(RuntimeError::UninitializedVariable),
            Some(Some(value)) => {
                self.last_value = Some(value);
            },
        }
    }

    /// Evaluates an expression, with calls nested at most `depth` deep.
    fn evaluate_expression(&mut self, expr: &ASTExpression, depth: usize)
        requires
            old(self).wf(),
        ensures
            final(self).wf(),
            final(self)@ == eval_expression(old(self)@, expr@, depth as nat),
        decreases depth, 1nat, expr,
    {
        if self.failure.is_some() {
            return ;
        }
        match &expr.kind {
            ASTExpressionKind::Number(number) => {
                self.last_value = Some(number.value);
            },
            ASTExpressionKind::Variable(variable) => {
                self.read_variable(&variable.name);
            },
            ASTExpressionKind::Binary(binary) => {
                self.evaluate_binary(binary, depth);
            },
            ASTExpressionKind::Assignment(assignment) => {
                self.evaluate_assignment(assignment, depth);
            },
            ASTExpressionKind::FunctionCall(call) => {
                self.evaluate_call(call, depth);
            },
            ASTExpressionKind::Error(_) => {
                self.last_value = Some(0);
            },
        }
    }

    /// Evaluates an operator between two expressions: the left side, then
    /// the right, then the operation.
    fn evaluate_binary(&mut self, binary: &ASTBinaryExpression, depth: usize)
        requires
            old(self).wf(),
        ensures
            final(self).wf(),
            final(self)@ == eval_expression(old(self)@, binary@, depth as nat),
        decreases depth, 1nat, binary,
    {
        if self.failure.is_some() {
            return ;
        }
        self.evaluate_expression(&binary.left, depth);
        if self.failure.is_some() {
            return ;
        }
        let left = match self.last_value {
            Some(value) => value,
            None => {
                self.fail(RuntimeError::MissingValue);
                return ;
            },
        };
        self.evaluate_expression(&binary.right, depth);
        if self.failure.is_some() {
            return ;
        }
        let right = match self.last_value {
            Some(value) => value,
            None => {
                self.fail(RuntimeError::MissingValue);
                return ;
            },
        };
        match Self::apply(binary.operator.kind, left, right) {
            Some(value) => {
                self.last_value = Some(value);
            },
            None => self.fail(RuntimeError::DivisionByZero),
        }
    }

    /// Evaluates an assignment: the value, then the binding of the variable.
    fn evaluate_assignment(&mut self, assignment: &ASTAssignment, depth: usize)
        requires
            old(self).wf(),
        ensures
            final(self).wf(),
            final(self)@ == eval_expression(old(self)@, assignment@, depth as nat),
        decreases depth, 1nat, assignment,
    {
        if self.failure.is_some() {
            return ;
        }
        self.evaluate_expression(&assignment.expr, depth);
        if self.failure.is_some() {
            return ;
        }
        match &assignment.name {
            LeftValue::Variable(name) => {
                self.variable_map.insert(name.clone(), self.last_value);
            },
        }
    }

    /// Evaluates a call: the arguments, then the function of that name.
    fn evaluate_call(&mut self, call: &ASTFuncionCall, depth: usize)
        requires
            old(self).wf(),
        ensures
            final(self).wf(),
            final(self)@ == eval_expression(old(self)@, call@, depth as nat),
        decreases depth, 1nat, call,
    {
        if self.failure.is_some() {
            return ;
        }
        self.evaluate_arguments(&call.param_list, depth);
        if self.failure.is_some() {
            return ;
        }
        match self.find_function(&call.name) {
            None => self.fail(RuntimeError::UnknownFunction),
            Some(function) => {
                if depth == 0 {
                    self.fail(RuntimeError::CallDepthExceeded);
                } else {
                    self.visit_intepret_function(&function, depth - 1);
                }
            },
        }
    }

    /// Evaluates the arguments of a call from the left and keeps their values
    /// for the call.
    fn evaluate_arguments(&mut self, arguments: &Vec<ASTExpression>, depth: usize)
        requires
            old(self).wf(),
        ensures
            final(self).wf(),
            final(self)@ == eval_arguments(old(self)@, exprs_view(arguments@), depth as nat),
        decreases depth, 1nat, arguments,
    {
        let ghost all = exprs_view(arguments@);
        let mut i: usize = 0;
        proof {
            lemma_exprs_view(arguments@);
            assert(all.skip(0) =~= all);
        }
        while i < arguments.len()
            invariant
                i <= arguments.len(),
                self.wf(),
                all == exprs_view(arguments@),
                all.len() == arguments@.len(),
                forall|k: int| 0 <= k < arguments@.len() ==> all[k] == (#[trigger] arguments@[k])@,
                eval_arguments(old(self)@, all, depth as nat) == eval_arguments(
                    self@,
                    all.skip(i as int),
                    depth as nat,
                ),
            decreases arguments.len() - i,
        {
            proof {
                assert(all.skip(i as int)[0] == arguments@[i as int]@);
                assert(all.skip(i as int).drop_first() =~= all.skip(i + 1));
            }
            if self.failure.is_some() {
                proof {
                    assert(eval_arguments(self@, all.skip(i as int), depth as nat) == self@);
                }
                return ;
            }
            self.last_value = None;
            self.evaluate_expression(&arguments[i], depth);
            if self.failure.is_some() {
                return ;
            }
            match self.last_value {
                Some(value) => {
                    self.argument_transition.push(value);
                },
                None => {
                    self.fail(RuntimeError::MissingValue);
                    return ;
                },
            }
            i += 1;
        }
    }

    /// Binds the parameters, the last first, to the argument values, the last
    /// first.
    fn bind_parameters(&mut self, params: &Vec<ASTFunctonParam>)
        requires
            old(self).wf(),
        ensures
            final(self).wf(),
            final(self)@ == bind_parameters(
                old(self)@,
                params@.map_values(|param: ASTFunctonParam| param@),
            ),
    {
        let ghost all = params@.map_values(|param: ASTFunctonParam| param@);
        let mut i: usize = params.len();
        assert(all.take(i as int) =~= all);
        while i > 0
            invariant
                i <= params.len(),
                self.wf(),
                all == params@.map_values(|param: ASTFunctonParam| param@),
                bind_parameters(old(self)@, all) == bind_parameters(self@, all.take(i as int)),
            decreases i,
        {
            proof {
                assert(all.take(i as int).drop_last() =~= all.take(i - 1));
                assert(all.take(i as int).last() == params@[i - 1]@);
            }
            i -= 1;
            match self.argument_transition.pop() {
                Some(argument) => {
                    self.variable_map.insert(params[i].name.clone(), Some(argument));
                },
                None => {},
            }
        }
    }

    /// Runs a function: binds its parameters and runs its statements.
    fn visit_intepret_function(&mut self, function: &ASTFunction, depth: usize)
        requires
            old(self).wf(),
        ensures
            final(self).wf(),
            final(self)@ == interpret_function(old(self)@, function@, depth as nat),
        decreases depth, 6nat, function,
    {
        if self.failure.is_some() {
            return ;
        }
        self.bind_parameters(&function.params);
        self.execute_statements(&function.statements, depth);
    }

    /// Runs statements in order.
    fn execute_statements(&mut self, statements: &Vec<ASTStatement>, depth: usize)
        requires
            old(self).wf(),
        ensures
            final(self).wf(),
            final(self)@ == execute_statements(
                old(self)@,
                statements@.map_values(|statement: ASTStatement| statement@),
                depth as nat,
            ),
        decreases depth, 5nat, statements,
    {
        let ghost all = statements@.map_values(|statement: ASTStatement| statement@);
        let mut i: usize = 0;
        assert(all.skip(0) =~= all);
        while i < statements.len()
            invariant
                i <= statements.len(),
                self.wf(),
                all == statements@.map_values(|statement: ASTStatement| statement@),
                execute_statements(old(self)@, all, depth as nat) == execute_statements(
                    self@,
                    all.skip(i as int),
                    depth as nat,
                ),
            decreases statements.len() - i,
        {
            proof {
                assert(all.skip(i as int)[0] == statements@[i as int]@);
                assert(all.skip(i as int).drop_first() =~= all.skip(i + 1));
            }
            self.execute_statement(&statements[i], depth);
            i += 1;
        }
    }

    /// Runs one statement.
    fn execute_statement(&mut self, statement: &ASTStatement, depth: usize)
        requires
            old(self).wf(),
        ensures
            final(self).wf(),
            final(self)@ == execute_statement(old(self)@, statement@, depth as nat),
        decreases depth, 4nat, statement,
    {
        if self.failure.is_some() {
            return ;
        }
        self.last_value = Some(0);
        match &statement.kind {
            ASTStatementKind::Expression(expr) => {
                self.evaluate_expression(expr, depth);
            },
            ASTStatementKind::Declaration(list) => {
                self.execute_declarations(&list.declare_list, depth);
            },
            ASTStatementKind::Return(expr) => {
                self.evaluate_expression(expr, depth);
            },
            ASTStatementKind::EmptyReturn => {
                self.last_value = None;
            },
        }
    }

    /// Runs declarations in order.
    fn execute_declarations(&mut self, declarations: &Vec<ASTDeclaration>, depth: usize)
        requires
            old(self).wf(),
        ensures
            final(self).wf(),
            final(self)@ == execute_declarations(
                old(self)@,
                declarations@.map_values(|declaration: ASTDeclaration| declaration@),
                depth as nat,
            ),
        decreases depth, 3nat, declarations,
    {
        let ghost all = declarations@.map_values(|declaration: ASTDeclaration| declaration@);
        let mut i: usize = 0;
        assert(all.skip(0) =~= all);
        while i < declarations.len()
            invariant
                i <= declarations.len(),
                self.wf(),
                all == declarations@.map_values(|declaration: ASTDeclaration| declaration@),
                execute_declarations(old(self)@, all, depth as nat) == execute_declarations(
                    self@,
                    all.skip(i as int),
                    depth as nat,
                ),
            decreases declarations.len() - i,
        {
            proof {
                assert(all.skip(i as int)[0] == declarations@[i as int]@);
                assert(all.skip(i as int).drop_first() =~= all.skip(i + 1));
            }
            self.execute_declaration(&declarations[i], depth);
            i += 1;
        }
    }

    /// Runs one declaration.
    fn execute_declaration(&mut self, declaration: &ASTDeclaration, depth: usize)
        requires
            old(self).wf(),
        ensures
            final(self).wf(),
            final(self)@ == execute_declaration(old(self)@, declaration@, depth as nat),
        decreases depth, 2nat, declaration,
    {
        if self.failure.is_some() {
            return ;
        }
        match declaration {
            ASTDeclaration::VariableDeclareDirect(name) => {
                self.variable_map.insert(name.clone(), None);
            },
            ASTDeclaration::VariableDeclareWithInit(name, expr) => {
                self.evaluate_expression(expr, depth);
                if self.failure.is_some() {
                    return ;
                }
                self.variable_map.insert(name.clone(), self.last_value);
            },
        }
    }

    /// Registers a function and, where it is `main`, runs it.
    fn register_function(&mut self, function: &ASTFunction)
        requires
            old(self).wf(),
        ensures
            final(self).wf(),
            final(self)@ == register_function(old(self)@, function@),
    {
        if self.failure.is_some() {
            return ;
        }
        let depth = self.function_map.len();
        self.function_map.push(function.clone());
        assert(self@.functions =~= old(self)@.functions.push(function@));
        if function.name == String::from_str("main") {
            self.visit_intepret_function(function, depth);
        }
    }
}

impl ASTVisitor for ASTEvaluator {
    open spec fn ready(&self) -> bool {
        self.wf()
    }

    open spec fn visited(self, visit: Visit, after: Self) -> bool {
        after@ == step(self@, visit)
    }

    fn visit_statement(&mut self, statement: &ASTStatement) {
        let depth = self.depth();
        self.execute_statement(statement, depth);
    }

    fn visit_expression(&mut self, expr: &ASTExpression) {
        let depth = self.depth();
        self.evaluate_expression(expr, depth);
    }

    fn visit_assignment(&mut self, assignment: &ASTAssignment) {
        let depth = self.depth();
        self.evaluate_assignment(assignment, depth);
    }

    fn visit_number(&mut self, number: &ASTNumberExpression) {
        if self.failure.is_some() {
            return ;
        }
        self.last_value = Some(number.value);
    }

    fn visit_binary_expression(&mut self, binary: &ASTBinaryExpression) {
        let depth = self.depth();
        self.evaluate_binary(binary, depth);
    }

    fn visit_error(&mut self, span: &TextSpan) {
        if self.failure.is_some() {
            return ;
        }
        self.last_value = Some(0);
    }

    fn visit_variable(&mut self, variable: &ASTVariableExpression) {
        if self.failure.is_some() {
            return ;
        }
        self.read_variable(&variable.name);
    }

    fn visit_declaration_list(&mut self, declaration_list: &ASTDeclarationList) {
        let depth = self.depth();
        self.execute_declarations(&declaration_list.declare_list, depth);
    }

    fn visit_declaration(&mut self, declaration: &ASTDeclaration) {
        let depth = self.depth();
        self.execute_declaration(declaration, depth);
    }

    fn visit_program_unit(&mut self, program_unit: &ASTProgramunit) {
        match &program_unit.kind {
            ASTProgramunitKind::Function(function) => {
                self.visit_function(function);
            },
            ASTProgramunitKind::Declaration(declaration_list) => {
                self.visit_declaration_list(declaration_list);
            },
        }
    }

    fn visit_function(&mut self, function: &ASTFunction) {
        self.register_function(function);
    }

    fn visit_return(&mut self, expr: &ASTExpression) {
        self.visit_expression(expr);
    }

    fn visit_empty_return(&mut self) {
        if self.failure.is_some() {
            return ;
        }
        self.last_value = None;
    }

    fn visit_function_call(&mut self, function_call: &ASTFuncionCall) {
        let depth = self.depth();
        self.evaluate_call(function_call, depth);
    }
}

/// A failure is final: no visit changes the state of a failed run.
pub proof fn lemma_failure_is_final(state: EvalState, visit: Visit)
    requires
        state.failure is Some,
    ensures
        step(state, visit) == state,
{
    let depth = depth_limit(state);
    match visit {
        Visit::ProgramUnit(unit) => {
            match unit {
                UnitView::Function(function) => {
                    assert(register_function(state, function) == state);
                },
                UnitView::Declaration(list) => {
                    lemma_failed_declarations(state, list.declare_list, depth);
                },
            }
        },
        Visit::Function(function) => {
            assert(register_function(state, function) == state);
        },
        Visit::DeclarationList(list) => {
            lemma_failed_declarations(state, list.declare_list, depth);
        },
        Visit::Declaration(declaration) => {
            assert(execute_declaration(state, declaration, depth) == state);
        },
        Visit::Statement(statement) => {
            assert(execute_statement(state, statement, depth) == state);
        },
        Visit::Return(expr) => {
            assert(eval_expression(state, expr, depth) == state);
        },
        Visit::EmptyReturn => {},
        Visit::Expression(expr) => {
            assert(eval_expression(state, expr, depth) == state);
        },
        Visit::Node(expr) => {
            assert(eval_expression(state, expr, depth) == state);
        },
    }
}

/// Showing one program unit to an evaluator executes the unit.
pub proof fn lemma_visited_unit_executes(before: ASTEvaluator, unit: UnitView, after: ASTEvaluator)
    requires
        before.visited(Visit::ProgramUnit(unit), after),
    ensures
        after@ == execute_unit(before@, unit),
{
}

/// The last state of a chain of visits is the first with the units
/// executed in order.
pub proof fn lemma_visit_chain_executes(units: Seq<UnitView>, states: Seq<ASTEvaluator>)
    requires
        visit_chain(units, states),
    ensures
        states.last()@ == execute_units(states.first()@, units),
    decreases units.len(),
{
    if units.len() > 0 {
        let last = units.len() - 1;
        assert(states[last].ready());
        assert forall|i: int| 0 <= i < last implies (#[trigger] states.drop_last()[i]).ready()
            && states.drop_last()[i].visited(
            Visit::ProgramUnit(units.drop_last()[i]),
            states.drop_last()[i + 1],
        ) by {
            assert(states[i].ready());
        }
        lemma_visit_chain_executes(units.drop_last(), states.drop_last());
        lemma_visited_unit_executes(states[last], units.last(), states.last());
    }
}

/// Showing program units to an evaluator runs them: the state after is the
/// state before with the units executed in order.
pub proof fn lemma_visited_units_executes(
    before: ASTEvaluator,
    units: Seq<UnitView>,
    after: ASTEvaluator,
)
    requires
        visited_units(before, units, after),
    ensures
        after@ == execute_units(before@, units),
{
    let states = choose|states: Seq<ASTEvaluator>|
        #[trigger] visit_chain(units, states) && states.first() == before && states.last() == after;
    lemma_visit_chain_executes(units, states);
}

/// Running is deterministic: two evaluators in the same state that are shown
/// the same program end in the same state, with the same last value, the same
/// variables and the same failure.
pub proof fn lemma_evaluation_deterministic(
    first: ASTEvaluator,
    second: ASTEvaluator,
    units: Seq<UnitView>,
    first_after: ASTEvaluator,
    second_after: ASTEvaluator,
)
    requires
        first@ == second@,
        visited_units(first, units, first_after),
        visited_units(second, units, second_after),
    ensures
        first_after@ == second_after@,
{
    lemma_visited_units_executes(first, units, first_after);
    lemma_visited_units_executes(second, units, second_after);
}

} // verus!
