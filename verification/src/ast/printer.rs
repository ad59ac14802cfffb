//! The printer: a visitor that writes the tree down, one node a line, each
//! level two columns deeper than the level above.

use vstd::prelude::*;
use vstd::string::*;
use crate::ast::{GrammarVartype, LeftValue, TypeView};
use crate::ast::expression::{
    exprs_view,
    lemma_exprs_view,
    ASTAssignment,
    ASTBinaryExpression,
    ASTBinaryOperatorKind,
    ASTExpression,
    ASTExpressionKind,
    ASTFuncionCall,
    ASTNumberExpression,
    ASTVariableExpression,
    ExprView,
};
use crate::ast::lexer::{TextSpan, TextSpanView};
use crate::ast::program_unit::{
    ASTFunction,
    ASTProgramunit,
    ASTProgramunitKind,
    FunctionView,
    UnitView,
};
use crate::ast::statement::{
    ASTDeclaration,
    ASTDeclarationList,
    ASTStatement,
    ASTStatementKind,
    DeclListView,
    DeclView,
    StmtView,
};
use crate::ast::visitor::{visit_chain, ASTVisitor, Visit};
use crate::text::{append_repeated, number_text, number_to_string, repeated};

verus! {

/// How much deeper a level is written than the level above.
pub const LEVEL_INDENT: usize = 2;

/// The text that `{:?}` gives for a span.
pub uninterp spec fn text_span_debug(span: TextSpanView) -> Seq<char>;

/// The text that `{:?}` gives for a type.
pub uninterp spec fn vartype_debug(vartype: TypeView) -> Seq<char>;

/// The `Debug` formatting of a span, through `format!`. The text is a
/// function of the span's offsets and text alone.
#[verifier::external_body]
fn span_debug_text(span: &TextSpan) -> (text: String)
    ensures
        text@ == text_span_debug(span@),
{
    format!("{:?}", span)
}

/// The `Debug` formatting of a type, through `format!`. The text is a
/// function of the type alone.
#[verifier::external_body]
fn vartype_debug_text(vartype: &GrammarVartype) -> (text: String)
    ensures
        text@ == vartype_debug(vartype@),
{
    format!("{:?}", vartype)
}

/// The name of an operator.
pub open spec fn operator_name(kind: ASTBinaryOperatorKind) -> Seq<char> {
    match kind {
        ASTBinaryOperatorKind::Add => "Add"@,
        ASTBinaryOperatorKind::Sub => "Sub"@,
        ASTBinaryOperatorKind::Mul => "Mul"@,
        ASTBinaryOperatorKind::Div => "Div"@,
        ASTBinaryOperatorKind::Equal => "Equal"@,
    }
}

/// The indentation of the level below `indent`.
pub open spec fn deeper(indent: usize) -> usize {
    if indent <= usize::MAX - LEVEL_INDENT {
        (indent + LEVEL_INDENT) as usize
    } else {
        usize::MAX
    }
}

/// A line: `text` behind `indent` blanks.
pub open spec fn line(indent: usize, text: Seq<char>) -> Seq<char> {
    repeated(' ', indent as nat) + text
}

/// The lines of an expression.
pub open spec fn render_expression(expr: ExprView, indent: usize) -> Seq<Seq<char>>
    decreases expr,
{
    match expr {
        ExprView::Number(number) => seq![line(indent, "Number: "@ + number_text(number))],
        ExprView::Variable(name) => seq![line(indent, "Variable: "@ + name)],
        ExprView::Binary(left, operator, right) => seq![
            line(indent, "Binary Expression:"@),
            line(deeper(indent), "Operator: "@ + operator_name(operator.kind)),
        ] + render_expression(*left, deeper(indent)) + render_expression(*right, deeper(indent)),
        ExprView::Assignment(name, value) => seq![
            line(indent, "Assignment:"@),
            line(deeper(indent), "Name: "@ + name),
        ] + render_expression(*value, deeper(indent)),
        ExprView::FunctionCall(name, arguments) => seq![line(indent, "Function call: "@ + name)]
            + render_expressions(arguments, deeper(indent)),
        ExprView::Error(span) => seq![line(indent, "Error: "@ + text_span_debug(span))],
    }
}

/// The lines of expressions, one after the other.
pub open spec fn render_expressions(exprs: Seq<ExprView>, indent: usize) -> Seq<Seq<char>>
    decreases exprs,
{
    if exprs.len() == 0 {
        Seq::empty()
    } else {
        render_expressions(exprs.drop_last(), indent) + render_expression(exprs.last(), indent)
    }
}

/// The lines of a declaration.
pub open spec fn render_declaration(declaration: DeclView, indent: usize) -> Seq<Seq<char>> {
    match declaration {
        DeclView::VariableDeclareDirect(name) => seq![line(indent, "Variable: "@ + name)],
        DeclView::VariableDeclareWithInit(name, expr) => seq![line(indent, "Variable: "@ + name)]
            + render_expression(expr, indent),
    }
}

/// The lines of declarations, one after the other.
pub open spec fn render_declarations(declarations: Seq<DeclView>, indent: usize) -> Seq<Seq<char>>
    decreases declarations.len(),
{
    if declarations.len() == 0 {
        Seq::empty()
    } else {
        render_declarations(declarations.drop_last(), indent) + render_declaration(
            declarations.last(),
            indent,
        )
    }
}

/// The lines of a declaration list.
pub open spec fn render_declaration_list(list: DeclListView, indent: usize) -> Seq<Seq<char>> {
    seq![
        line(indent, "Declaration List:"@),
        line(deeper(indent), "Vartype: "@ + vartype_debug(list.vartype)),
    ] + render_declarations(list.declare_list, deeper(indent))
}

/// The lines of a statement, under its heading.
pub open spec fn render_statement(statement: StmtView, indent: usize) -> Seq<Seq<char>> {
    seq![line(indent, "Statement:"@)] + match statement {
        StmtView::Expression(expr) => seq![line(deeper(indent), "Expression:"@)]
            + render_expression(expr, deeper(deeper(indent))),
        StmtView::Declaration(list) => render_declaration_list(list, deeper(indent)),
        StmtView::Return(expr) => seq![line(deeper(indent), "Return:"@)] + render_expression(
            expr,
            deeper(deeper(indent)),
        ),
        StmtView::EmptyReturn => seq![line(deeper(indent), "Empty Return"@)],
    }
}

/// The lines of statements, one after the other.
pub open spec fn render_statements(statements: Seq<StmtView>, indent: usize) -> Seq<Seq<char>>
    decreases statements.len(),
{
    if statements.len() == 0 {
        Seq::empty()
    } else {
        render_statements(statements.drop_last(), indent) + render_statement(
            statements.last(),
            indent,
        )
    }
}

/// The lines of a function: its name and its statements.
pub open spec fn render_function(function: FunctionView, indent: usize) -> Seq<Seq<char>> {
    seq![line(indent, "Function: "@ + function.name)] + render_statements(
        function.statements,
        deeper(indent),
    )
}

/// The lines of what the dispatchers hand on: of a function, a declaration
/// list, a return, an expression under its heading, or a bare expression.
pub open spec fn render_visit(visit: Visit, indent: usize) -> Seq<Seq<char>> {
    match visit {
        Visit::ProgramUnit(unit) => seq![line(indent, "Program Unit:"@)] + match unit {
            UnitView::Function(function) => render_function(function, deeper(indent)),
            UnitView::Declaration(list) => render_declaration_list(list, deeper(indent)),
        },
        Visit::Function(function) => render_function(function, indent),
        Visit::DeclarationList(list) => render_declaration_list(list, indent),
        Visit::Declaration(declaration) => render_declaration(declaration, indent),
        Visit::Statement(statement) => render_statement(statement, indent),
        Visit::Return(expr) => seq![line(indent, "Return:"@)] + render_expression(
            expr,
            deeper(indent),
        ),
        Visit::EmptyReturn => seq![line(indent, "Empty Return"@)],
        Visit::Expression(expr) => seq![line(indent, "Expression:"@)] + render_expression(
            expr,
            deeper(indent),
        ),
        Visit::Node(expr) => render_expression(expr, indent),
    }
}

/// The lines of program units, one after the other.
pub open spec fn render_units(units: Seq<UnitView>, indent: usize) -> Seq<Seq<char>>
    decreases units.len(),
{
    if units.len() == 0 {
        Seq::empty()
    } else {
        render_units(units.drop_last(), indent) + render_visit(
            Visit::ProgramUnit(units.last()),
            indent,
        )
    }
}

/// The texts of lines.
pub open spec fn line_views(lines: Seq<String>) -> Seq<Seq<char>> {
    lines.map_values(|text: String| text@)
}

/// A visitor that collects the lines of what it is shown.
pub struct ASTPrinter {
    pub indent: usize,
    pub lines: Vec<String>,
}

/// The indentation of the level below `indent`.
fn indent_deeper(indent: usize) -> (inner: usize)
    ensures
        inner == deeper(indent),
{
    if indent <= usize::MAX - LEVEL_INDENT {
        indent + LEVEL_INDENT
    } else {
        usize::MAX
    }
}

/// Adds the line of `heading` and `text` at `indent`.
fn push_line(lines: &mut Vec<String>, indent: usize, heading: &str, text: &str)
    ensures
        line_views(final(lines)@) == line_views(old(lines)@).push(line(indent, heading@ + text@)),
{
    proof {
        reveal_strlit(" ");
    }
    let mut made = String::new();
    append_repeated(&mut made, " ", indent);
    made.append(heading);
    made.append(text);
    assert(made@ =~= line(indent, heading@ + text@));
    lines.push(made);
    assert(line_views(lines@) =~= line_views(old(lines)@).push(line(indent, heading@ + text@)));
}

/// The name of an operator.
fn operator_text(kind: ASTBinaryOperatorKind) -> (text: &'static str)
    ensures
        text@ == operator_name(kind),
{
    match kind {
        ASTBinaryOperatorKind::Add => "Add",
        ASTBinaryOperatorKind::Sub => "Sub",
        ASTBinaryOperatorKind::Mul => "Mul",
        ASTBinaryOperatorKind::Div => "Div",
        ASTBinaryOperatorKind::Equal => "Equal",
    }
}

/// Adds the lines of an expression.
fn expression_lines(lines: &mut Vec<String>, expr: &ASTExpression, indent: usize)
    ensures
        line_views(final(lines)@) == line_views(old(lines)@) + render_expression(expr@, indent),
    decreases expr,
{
    match &expr.kind {
        ASTExpressionKind::Number(number) => {
            push_line(lines, indent, "Number: ", number_to_string(number.value).as_str());
            assert(line_views(lines@) =~= line_views(old(lines)@) + render_expression(
                expr@,
                indent,
            ));
        },
        ASTExpressionKind::Variable(variable) => {
            push_line(lines, indent, "Variable: ", variable.name.as_str());
            assert(line_views(lines@) =~= line_views(old(lines)@) + render_expression(
                expr@,
                indent,
            ));
        },
        ASTExpressionKind::Binary(binary) => {
            binary_lines(lines, binary, indent);
        },
        ASTExpressionKind::Assignment(assignment) => {
            assignment_lines(lines, assignment, indent);
        },
        ASTExpressionKind::FunctionCall(call) => {
            call_lines(lines, call, indent);
        },
        ASTExpressionKind::Error(span) => {
            push_line(lines, indent, "Error: ", span_debug_text(span).as_str());
            assert(line_views(lines@) =~= line_views(old(lines)@) + render_expression(
                expr@,
                indent,
            ));
        },
    }
}

/// Adds the lines of an operator between two expressions.
fn binary_lines(lines: &mut Vec<String>, binary: &ASTBinaryExpression, indent: usize)
    ensures
        line_views(final(lines)@) == line_views(old(lines)@) + render_expression(binary@, indent),
    decreases binary,
{
    proof {
        reveal_strlit("");
        assert("Binary Expression:"@ + ""@ =~= "Binary Expression:"@);
    }
    let inner = indent_deeper(indent);
    push_line(lines, indent, "Binary Expression:", "");
    push_line(lines, inner, "Operator: ", operator_text(binary.operator.kind));
    expression_lines(lines, &binary.left, inner);
    expression_lines(lines, &binary.right, inner);
    assert(line_views(lines@) =~= line_views(old(lines)@) + render_expression(binary@, indent));
}

/// Adds the lines of an assignment.
fn assignment_lines(lines: &mut Vec<String>, assignment: &ASTAssignment, indent: usize)
    ensures
        line_views(final(lines)@) == line_views(old(lines)@) + render_expression(
            assignment@,
            indent,
        ),
    decreases assignment,
{
    proof {
        reveal_strlit("");
        assert("Assignment:"@ + ""@ =~= "Assignment:"@);
    }
    let inner = indent_deeper(indent);
    push_line(lines, indent, "Assignment:", "");
    match &assignment.name {
        LeftValue::Variable(name) => {
            push_line(lines, inner, "Name: ", name.as_str());
        },
    }
    expression_lines(lines, &assignment.expr, inner);
    assert(line_views(lines@) =~= line_views(old(lines)@) + render_expression(
        assignment@,
        indent,
    ));
}

/// Adds the lines of a call.
fn call_lines(lines: &mut Vec<String>, call: &ASTFuncionCall, indent: usize)
    ensures
        line_views(final(lines)@) == line_views(old(lines)@) + render_expression(call@, indent),
    decreases call,
{
    push_line(lines, indent, "Function call: ", call.name.as_str());
    expressions_lines(lines, &call.param_list, indent_deeper(indent));
    assert(line_views(lines@) =~= line_views(old(lines)@) + render_expression(call@, indent));
}

/// Adds the lines of expressions, one after the other.
fn expressions_lines(lines: &mut Vec<String>, exprs: &Vec<ASTExpression>, indent: usize)
    ensures
        line_views(final(lines)@) == line_views(old(lines)@) + render_expressions(
            exprs_view(exprs@),
            indent,
        ),
    decreases exprs,
{
    let ghost all = exprs_view(exprs@);
    let mut i: usize = 0;
    proof {
        lemma_exprs_view(exprs@);
        assert(all.take(0) =~= Seq::<ExprView>::empty());
        assert(line_views(lines@) =~= line_views(old(lines)@) + render_expressions(
            all.take(0),
            indent,
        ));
    }
    while i < exprs.len()
        invariant
            i <= exprs.len(),
            all == exprs_view(exprs@),
            all.len() == exprs@.len(),
            forall|k: int| 0 <= k < exprs@.len() ==> all[k] == (#[trigger] exprs@[k])@,
            line_views(lines@) == line_views(old(lines)@) + render_expressions(
                all.take(i as int),
                indent,
            ),
        decreases exprs.len() - i,
    {
        expression_lines(lines, &exprs[i], indent);
        proof {
            assert(all.take(i + 1).drop_last() =~= all.take(i as int));
            assert(all.take(i + 1).last() == exprs@[i as int]@);
            assert(line_views(lines@) =~= line_views(old(lines)@) + render_expressions(
                all.take(i + 1),
                indent,
            ));
        }
        i += 1;
    }
    assert(all.take(i as int) =~= all);
}

/// Adds the lines of a declaration.
fn declaration_lines(lines: &mut Vec<String>, declaration: &ASTDeclaration, indent: usize)
    ensures
        line_views(final(lines)@) == line_views(old(lines)@) + render_declaration(
            declaration@,
            indent,
        ),
{
    match declaration {
        ASTDeclaration::VariableDeclareDirect(name) => {
            push_line(lines, indent, "Variable: ", name.as_str());
            assert(line_views(lines@) =~= line_views(old(lines)@) + render_declaration(
                declaration@,
                indent,
            ));
        },
        ASTDeclaration::VariableDeclareWithInit(name, expr) => {
            push_line(lines, indent, "Variable: ", name.as_str());
            expression_lines(lines, expr, indent);
            assert(line_views(lines@) =~= line_views(old(lines)@) + render_declaration(
                declaration@,
                indent,
            ));
        },
    }
}

/// Adds the lines of a declaration list.
fn declaration_list_lines(lines: &mut Vec<String>, list: &ASTDeclarationList, indent: usize)
    ensures
        line_views(final(lines)@) == line_views(old(lines)@) + render_declaration_list(
            list@,
            indent,
        ),
{
    proof {
        reveal_strlit("");
        assert(""@ =~= Seq::<char>::empty());
        assert("Declaration List:"@ + ""@ =~= "Declaration List:"@);
    }
    let inner = indent_deeper(indent);
    push_line(lines, indent, "Declaration List:", "");
    push_line(lines, inner, "Vartype: ", vartype_debug_text(&list.vartype).as_str());
    let ghost head = line_views(lines@);
    let ghost all = list@.declare_list;
    let mut i: usize = 0;
    proof {
        assert(all.take(0) =~= Seq::<DeclView>::empty());
        assert(line_views(lines@) =~= head + render_declarations(all.take(0), inner));
    }
    while i < list.declare_list.len()
        invariant
            i <= list.declare_list.len(),
            all == list@.declare_list,
            line_views(lines@) == head + render_declarations(all.take(i as int), inner),
        decreases list.declare_list.len() - i,
    {
        declaration_lines(lines, &list.declare_list[i], inner);
        proof {
            assert(all.take(i + 1).drop_last() =~= all.take(i as int));
            assert(all.take(i + 1).last() == list.declare_list@[i as int]@);
            assert(line_views(lines@) =~= head + render_declarations(all.take(i + 1), inner));
        }
        i += 1;
    }
    proof {
        assert(all.take(i as int) =~= all);
        assert(line_views(lines@) =~= line_views(old(lines)@) + render_declaration_list(
            list@,
            indent,
        ));
    }
}

/// Adds the lines of an expression under the heading `heading`.
fn headed_expression_lines(
    lines: &mut Vec<String>,
    heading: &str,
    expr: &ASTExpression,
    indent: usize,
)
    ensures
        line_views(final(lines)@) == line_views(old(lines)@) + (seq![line(indent, heading@)]
            + render_expression(expr@, deeper(indent))),
{
    proof {
        reveal_strlit("");
        assert(""@ =~= Seq::<char>::empty());
        assert(heading@ + ""@ =~= heading@);
    }
    push_line(lines, indent, heading, "");
    expression_lines(lines, expr, indent_deeper(indent));
    assert(line_views(lines@) =~= line_views(old(lines)@) + (seq![line(indent, heading@)]
        + render_expression(expr@, deeper(indent))));
}

/// Adds the line of an empty return.
fn empty_return_lines(lines: &mut Vec<String>, indent: usize)
    ensures
        line_views(final(lines)@) == line_views(old(lines)@) + seq![
            line(indent, "Empty Return"@),
        ],
{
    proof {
        reveal_strlit("");
        assert(""@ =~= Seq::<char>::empty());
        assert("Empty Return"@ + ""@ =~= "Empty Return"@);
    }
    push_line(lines, indent, "Empty Return", "");
    assert(line_views(lines@) =~= line_views(old(lines)@) + seq![line(indent, "Empty Return"@)]);
}

/// Adds the lines of a statement, under its heading.
fn statement_lines(lines: &mut Vec<String>, statement: &ASTStatement, indent: usize)
    ensures
        line_views(final(lines)@) == line_views(old(lines)@) + render_visit(
            Visit::Statement(statement@),
            indent,
        ),
{
    proof {
        reveal_strlit("");
        assert(""@ =~= Seq::<char>::empty());
        assert("Statement:"@ + ""@ =~= "Statement:"@);
    }
    let inner = indent_deeper(indent);
    push_line(lines, indent, "Statement:", "");
    match &statement.kind {
        ASTStatementKind::Expression(expr) => {
            headed_expression_lines(lines, "Expression:", expr, inner);
        },
        ASTStatementKind::Declaration(list) => {
            declaration_list_lines(lines, list, inner);
        },
        ASTStatementKind::Return(expr) => {
            headed_expression_lines(lines, "Return:", expr, inner);
        },
        ASTStatementKind::EmptyReturn => {
            empty_return_lines(lines, inner);
        },
    }
    assert(line_views(lines@) =~= line_views(old(lines)@) + render_visit(
        Visit::Statement(statement@),
        indent,
    ));
}

/// Adds the lines of a function.
fn function_lines(lines: &mut Vec<String>, function: &ASTFunction, indent: usize)
    ensures
        line_views(final(lines)@) == line_views(old(lines)@) + render_function(function@, indent),
{
    let inner = indent_deeper(indent);
    push_line(lines, indent, "Function: ", function.name.as_str());
    let ghost head = line_views(lines@);
    let ghost all = function@.statements;
    let mut i: usize = 0;
    proof {
        assert(all.take(0) =~= Seq::<StmtView>::empty());
        assert(line_views(lines@) =~= head + render_statements(all.take(0), inner));
    }
    while i < function.statements.len()
        invariant
            i <= function.statements.len(),
            all == function@.statements,
            line_views(lines@) == head + render_statements(all.take(i as int), inner),
        decreases function.statements.len() - i,
    {
        statement_lines(lines, &function.statements[i], inner);
        proof {
            assert(all.take(i + 1).drop_last() =~= all.take(i as int));
            assert(all.take(i + 1).last() == function.statements@[i as int]@);
            assert(line_views(lines@) =~= head + render_statements(all.take(i + 1), inner));
        }
        i += 1;
    }
    proof {
        assert(all.take(i as int) =~= all);
        assert(line_views(lines@) =~= line_views(old(lines)@) + render_function(
            function@,
            indent,
        ));
    }
}

/// Adds the lines of a program unit, under its heading.
fn program_unit_lines(lines: &mut Vec<String>, unit: &ASTProgramunit, indent: usize)
    ensures
        line_views(final(lines)@) == line_views(old(lines)@) + render_visit(
            Visit::ProgramUnit(unit@),
            indent,
        ),
{
    proof {
        reveal_strlit("");
        assert(""@ =~= Seq::<char>::empty());
        assert("Program Unit:"@ + ""@ =~= "Program Unit:"@);
    }
    let inner = indent_deeper(indent);
    push_line(lines, indent, "Program Unit:", "");
    match &unit.kind {
        ASTProgramunitKind::Function(function) => {
            function_lines(lines, function, inner);
        },
        ASTProgramunitKind::Declaration(list) => {
            declaration_list_lines(lines, list, inner);
        },
    }
    assert(line_views(lines@) =~= line_views(old(lines)@) + render_visit(
        Visit::ProgramUnit(unit@),
        indent,
    ));
}

impl ASTPrinter {
    /// A printer that has written nothing, at the left margin.
    pub fn new() -> (printer: Self)
        ensures
            printer.indent == 0,
            line_views(printer.lines@) == Seq::<Seq<char>>::empty(),
    {
        let printer = Self { indent: 0, lines: Vec::new() };
        assert(line_views(printer.lines@) =~= Seq::<Seq<char>>::empty());
        printer
    }
}

impl ASTVisitor for ASTPrinter {
    open spec fn ready(&self) -> bool {
        true
    }

    open spec fn visited(self, visit: Visit, after: Self) -> bool {
        after.indent == self.indent && line_views(after.lines@) == line_views(self.lines@)
            + render_visit(visit, self.indent)
    }

    fn visit_statement(&mut self, statement: &ASTStatement) {
        statement_lines(&mut self.lines, statement, self.indent);
    }

    fn visit_expression(&mut self, expr: &ASTExpression) {
        headed_expression_lines(&mut self.lines, "Expression:", expr, self.indent);
    }

    fn visit_assignment(&mut self, assignment: &ASTAssignment) {
        assignment_lines(&mut self.lines, assignment, self.indent);
    }

    fn visit_number(&mut self, number: &ASTNumberExpression) {
        push_line(
            &mut self.lines,
            self.indent,
            "Number: ",
            number_to_string(number.value).as_str(),
        );
        assert(line_views(self.lines@) =~= line_views(old(self).lines@) + render_visit(
            Visit::Node(number@),
            self.indent,
        ));
    }

    fn visit_binary_expression(&mut self, binary: &ASTBinaryExpression) {
        binary_lines(&mut self.lines, binary, self.indent);
    }

    fn visit_error(&mut self, span: &TextSpan) {
        push_line(&mut self.lines, self.indent, "Error: ", span_debug_text(span).as_str());
        assert(line_views(self.lines@) =~= line_views(old(self).lines@) + render_visit(
            Visit::Node(ExprView::Error(span@)),
            self.indent,
        ));
    }

    fn visit_variable(&mut self, variable: &ASTVariableExpression) {
        push_line(&mut self.lines, self.indent, "Variable: ", variable.name.as_str());
        assert(line_views(self.lines@) =~= line_views(old(self).lines@) + render_visit(
            Visit::Node(variable@),
            self.indent,
        ));
    }

    fn visit_declaration_list(&mut self, declaration_list: &ASTDeclarationList) {
        declaration_list_lines(&mut self.lines, declaration_list, self.indent);
    }

    fn visit_declaration(&mut self, declaration: &ASTDeclaration) {
        declaration_lines(&mut self.lines, declaration, self.indent);
    }

    fn visit_program_unit(&mut self, program_unit: &ASTProgramunit) {
        program_unit_lines(&mut self.lines, program_unit, self.indent);
    }

    fn visit_function(&mut self, function: &ASTFunction) {
        function_lines(&mut self.lines, function, self.indent);
    }

    fn visit_return(&mut self, expr: &ASTExpression) {
        headed_expression_lines(&mut self.lines, "Return:", expr, self.indent);
    }

    fn visit_empty_return(&mut self) {
        empty_return_lines(&mut self.lines, self.indent);
    }

    fn visit_function_call(&mut self, function_call: &ASTFuncionCall) {
        call_lines(&mut self.lines, function_call, self.indent);
    }
}

/// The last state of a chain of visits holds the lines of the first and the
/// lines of the units in order.
pub proof fn lemma_visit_chain_prints(units: Seq<UnitView>, states: Seq<ASTPrinter>)
    requires
        visit_chain(units, states),
    ensures
        states.last().indent == states.first().indent,
        line_views(states.last().lines@) == line_views(states.first().lines@) + render_units(
            units,
            states.first().indent,
        ),
    decreases units.len(),
{
    if units.len() > 0 {
        let last = units.len() - 1;
        assert(states[last].ready());
        assert forall|i: int| 0 <= i < last implies (#[trigger] states.drop_last()[i]).ready()
            && states.drop_last()[i].visited(
            Visit::ProgramUnit(units.drop_last()[i]),
            states.drop_last()[i + 1],
        ) by {
            assert(states[i].ready());
        }
        lemma_visit_chain_prints(units.drop_last(), states.drop_last());
        assert(states[last].visited(Visit::ProgramUnit(units.last()), states.last()));
        assert(line_views(states.last().lines@) =~= line_views(states.first().lines@)
            + render_units(units, states.first().indent));
    } else {
        assert(line_views(states.last().lines@) =~= line_views(states.first().lines@)
            + render_units(units, states.first().indent));
    }
}

} // verus!
