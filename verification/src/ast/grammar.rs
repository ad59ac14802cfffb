//! The grammar, as mathematical functions from a token sequence and an offset
//! into it to what stands there, where the reading ends and what was found
//! wrong on the way.
//!
//! A token sequence is read as if its last token, the end marker, went on for
//! ever: stepping over the last token stays on it.

use vstd::prelude::*;
use crate::ast::{FunctionTypeView, TypeView};
use crate::ast::expression::{
    precedence_of,
    right_associative,
    ASTBinaryOperatorKind,
    ExprView,
    OperatorView,
};
use crate::ast::lexer::{TokenKindView, TokenView, VartypeKind};
use crate::ast::program_unit::{FunctionView, ParamView, UnitView};
use crate::ast::statement::{DeclListView, DeclView, StmtView};
use crate::diagnostics::{
    expected_expression,
    invalid_assignment_target,
    unexpected_token,
    DiagnosticView,
};

verus! {

/// What was read: its value, the offset behind it, and the findings of the
/// reading, oldest first.
pub struct Parsed<T> {
    pub value: T,
    pub position: nat,
    pub diagnostics: Seq<DiagnosticView>,
}

/// A token sequence that a parser can read: it ends with the end marker.
pub open spec fn well_formed(tokens: Seq<TokenView>) -> bool {
    tokens.len() > 0 && tokens.last().kind is Eof
}

/// The token `offset` places behind `pos`, the last token standing for all
/// that would follow it.
pub open spec fn peek(tokens: Seq<TokenView>, pos: nat, offset: nat) -> TokenView {
    if pos + offset < tokens.len() {
        tokens[(pos + offset) as int]
    } else {
        tokens.last()
    }
}

/// The offset behind the token at `pos`.
pub open spec fn advance(tokens: Seq<TokenView>, pos: nat) -> nat {
    if pos + 1 < tokens.len() {
        pos + 1
    } else {
        pos
    }
}

/// Whether the end marker stands at `pos`.
pub open spec fn at_end(tokens: Seq<TokenView>, pos: nat) -> bool {
    peek(tokens, pos, 0).kind is Eof
}

/// The binary operator that a token is, if it is one.
pub open spec fn binary_operator(kind: TokenKindView) -> Option<ASTBinaryOperatorKind> {
    match kind {
        TokenKindView::Plus => Some(ASTBinaryOperatorKind::Add),
        TokenKindView::Minus => Some(ASTBinaryOperatorKind::Sub),
        TokenKindView::Asterisk => Some(ASTBinaryOperatorKind::Mul),
        TokenKindView::Slash => Some(ASTBinaryOperatorKind::Div),
        TokenKindView::Equal => Some(ASTBinaryOperatorKind::Equal),
        _ => None,
    }
}

/// Whether an operator continues an expression that is read with the least
/// precedence `min`: it binds tighter, or as tightly and groups from the
/// right.
pub open spec fn accepts(kind: ASTBinaryOperatorKind, min: u8) -> bool {
    precedence_of(kind) > min || (precedence_of(kind) == min && right_associative(kind))
}

/// What an operator makes of its two sides. Assignment takes the name of the
/// variable on its left; with anything else there it is an error node at the
/// operator, with a finding.
pub open spec fn combine(
    operator: TokenView,
    kind: ASTBinaryOperatorKind,
    left: Parsed<ExprView>,
    right: Parsed<ExprView>,
) -> Parsed<ExprView> {
    let diagnostics = left.diagnostics + right.diagnostics;
    if kind == ASTBinaryOperatorKind::Equal {
        match left.value {
            ExprView::Variable(name) => Parsed {
                value: ExprView::Assignment(name, Box::new(right.value)),
                position: right.position,
                diagnostics,
            },
            _ => Parsed {
                value: ExprView::Error(operator.span),
                position: right.position,
                diagnostics: diagnostics.push(invalid_assignment_target(operator.span)),
            },
        }
    } else {
        Parsed {
            value: ExprView::Binary(
                Box::new(left.value),
                OperatorView { kind, token: operator },
                Box::new(right.value),
            ),
            position: right.position,
            diagnostics,
        }
    }
}

/// A primary expression: a number, an expression in parentheses (whatever
/// follows it is stepped over as the closing parenthesis), a call, or a
/// variable. Any other token is stepped over and gives an error node with a
/// finding.
pub open spec fn parse_primary(tokens: Seq<TokenView>, pos: nat) -> Parsed<ExprView>
    decreases tokens.len() - pos, 1nat,
    when well_formed(tokens) && pos < tokens.len()
{
    let token = tokens[pos as int];
    match token.kind {
        TokenKindView::Number(number) => Parsed {
            value: ExprView::Number(number),
            position: advance(tokens, pos),
            diagnostics: Seq::empty(),
        },
        TokenKindView::LeftParen => {
            let inner = parse_binary(tokens, pos + 1, 0);
            Parsed {
                value: inner.value,
                position: advance(tokens, inner.position),
                diagnostics: inner.diagnostics,
            }
        },
        TokenKindView::Identifier(name) => {
            if peek(tokens, pos, 1).kind is LeftParen {
                if peek(tokens, pos, 2).kind is RightParen {
                    Parsed {
                        value: ExprView::FunctionCall(name, Seq::empty()),
                        position: advance(tokens, pos + 2),
                        diagnostics: Seq::empty(),
                    }
                } else {
                    let arguments = parse_arguments(tokens, pos + 2, Seq::empty(), Seq::empty());
                    Parsed {
                        value: ExprView::FunctionCall(name, arguments.value),
                        position: arguments.position,
                        diagnostics: arguments.diagnostics,
                    }
                }
            } else {
                Parsed {
                    value: ExprView::Variable(name),
                    position: advance(tokens, pos),
                    diagnostics: Seq::empty(),
                }
            }
        },
        _ => Parsed {
            value: ExprView::Error(token.span),
            position: advance(tokens, pos),
            diagnostics: seq![expected_expression(token.kind, token.span)],
        },
    }
}

/// An expression of operators that bind at least as tightly as `min` asks: a
/// primary expression and what the operators behind it make of it.
pub open spec fn parse_binary(tokens: Seq<TokenView>, pos: nat, min: u8) -> Parsed<ExprView>
    decreases tokens.len() - pos, 2nat,
    when well_formed(tokens) && pos < tokens.len()
{
    let left = parse_primary(tokens, pos);
    if pos <= left.position < tokens.len() {
        climb(tokens, left, min)
    } else {
        // Reading never moves back: see `lemma_parse_binary`.
        left
    }
}

/// What the operators behind `left` make of it. An operator that `min`
/// accepts takes as its right side an expression read with the operator's own
/// precedence as the least, and the result is the left side of what follows.
pub open spec fn climb(tokens: Seq<TokenView>, left: Parsed<ExprView>, min: u8) -> Parsed<ExprView>
    decreases tokens.len() - left.position, 0nat,
    when well_formed(tokens) && left.position < tokens.len()
{
    let operator = tokens[left.position as int];
    match binary_operator(operator.kind) {
        Some(kind) => {
            if accepts(kind, min) {
                let right = parse_binary(tokens, left.position + 1, precedence_of(kind));
                if left.position < right.position < tokens.len() {
                    climb(tokens, combine(operator, kind, left, right), min)
                } else {
                    // Reading never moves back: see `lemma_parse_binary`.
                    left
                }
            } else {
                left
            }
        },
        None => left,
    }
}

/// The arguments of a call, from the first on: expressions, each followed by
/// one token that is stepped over, a comma where another argument follows.
pub open spec fn parse_arguments(
    tokens: Seq<TokenView>,
    pos: nat,
    arguments: Seq<ExprView>,
    diagnostics: Seq<DiagnosticView>,
) -> Parsed<Seq<ExprView>>
    decreases tokens.len() - pos, 3nat,
    when well_formed(tokens) && pos < tokens.len()
{
    let argument = parse_binary(tokens, pos, 0);
    let arguments = arguments.push(argument.value);
    let diagnostics = diagnostics + argument.diagnostics;
    if pos <= argument.position < tokens.len() && tokens[argument.position as int].kind is Comma {
        parse_arguments(tokens, argument.position + 1, arguments, diagnostics)
    } else {
        Parsed { value: arguments, position: advance(tokens, argument.position), diagnostics }
    }
}

/// An expression: operators of any precedence.
pub open spec fn parse_expression(tokens: Seq<TokenView>, pos: nat) -> Parsed<ExprView> {
    parse_binary(tokens, pos, 0)
}

/// Reading a primary expression ends inside the sequence, not before its
/// start, and behind it unless the start is the last token.
pub proof fn lemma_parse_primary(tokens: Seq<TokenView>, pos: nat)
    requires
        well_formed(tokens),
        pos < tokens.len(),
    ensures
        pos <= parse_primary(tokens, pos).position < tokens.len(),
        pos + 1 < tokens.len() ==> pos < parse_primary(tokens, pos).position,
    decreases tokens.len() - pos, 1nat,
{
    match tokens[pos as int].kind {
        TokenKindView::LeftParen => {
            lemma_parse_binary(tokens, pos + 1, 0);
        },
        TokenKindView::Identifier(name) => {
            if peek(tokens, pos, 1).kind is LeftParen && !(peek(tokens, pos, 2).kind is RightParen) {
                lemma_parse_arguments(tokens, pos + 2, Seq::empty(), Seq::empty());
            }
        },
        _ => {},
    }
}

/// Reading an expression ends inside the sequence, not before its start, and
/// behind it unless the start is the last token.
pub proof fn lemma_parse_binary(tokens: Seq<TokenView>, pos: nat, min: u8)
    requires
        well_formed(tokens),
        pos < tokens.len(),
    ensures
        pos <= parse_binary(tokens, pos, min).position < tokens.len(),
        pos + 1 < tokens.len() ==> pos < parse_binary(tokens, pos, min).position,
        parse_binary(tokens, pos, min) == climb(tokens, parse_primary(tokens, pos), min),
    decreases tokens.len() - pos, 2nat,
{
    lemma_parse_primary(tokens, pos);
    lemma_climb(tokens, parse_primary(tokens, pos), min);
}

/// The operators behind an expression move the reading forward or leave it.
pub proof fn lemma_climb(tokens: Seq<TokenView>, left: Parsed<ExprView>, min: u8)
    requires
        well_formed(tokens),
        left.position < tokens.len(),
    ensures
        left.position <= climb(tokens, left, min).position < tokens.len(),
        match binary_operator(tokens[left.position as int].kind) {
            Some(kind) => accepts(kind, min) ==> climb(tokens, left, min) == climb(
                tokens,
                combine(
                    tokens[left.position as int],
                    kind,
                    left,
                    parse_binary(tokens, left.position + 1, precedence_of(kind)),
                ),
                min,
            ),
            None => true,
        },
    decreases tokens.len() - left.position, 0nat,
{
    let operator = tokens[left.position as int];
    match binary_operator(operator.kind) {
        Some(kind) => {
            if accepts(kind, min) {
                lemma_parse_binary(tokens, left.position + 1, precedence_of(kind));
                let right = parse_binary(tokens, left.position + 1, precedence_of(kind));
                lemma_climb(tokens, combine(operator, kind, left, right), min);
            }
        },
        None => {},
    }
}

/// Reading the arguments of a call ends inside the sequence and, unless the
/// start is the last token, behind its start.
pub proof fn lemma_parse_arguments(
    tokens: Seq<TokenView>,
    pos: nat,
    arguments: Seq<ExprView>,
    diagnostics: Seq<DiagnosticView>,
)
    requires
        well_formed(tokens),
        pos < tokens.len(),
    ensures
        pos <= parse_arguments(tokens, pos, arguments, diagnostics).position < tokens.len(),
        pos + 1 < tokens.len() ==> pos < parse_arguments(
            tokens,
            pos,
            arguments,
            diagnostics,
        ).position,
    decreases tokens.len() - pos, 3nat,
{
    lemma_parse_binary(tokens, pos, 0);
    let argument = parse_binary(tokens, pos, 0);
    if tokens[argument.position as int].kind is Comma {
        lemma_parse_arguments(
            tokens,
            argument.position + 1,
            arguments.push(argument.value),
            diagnostics + argument.diagnostics,
        );
    }
}

/// The type that a token names, `int` where it names none.
pub open spec fn vartype_of(token: TokenView) -> TypeView {
    match token.kind {
        TokenKindView::VarType(kind) => TypeView::Direct(kind),
        _ => TypeView::Direct(VartypeKind::Int),
    }
}

/// The finding for a token that stands where a type keyword should.
pub open spec fn vartype_diagnostics(token: TokenView) -> Seq<DiagnosticView> {
    if token.kind is VarType {
        Seq::empty()
    } else {
        seq![
            unexpected_token(TokenKindView::VarType(VartypeKind::Int), token.kind, token.span),
        ]
    }
}

/// The name that a token gives: an identifier's name, of any other token the
/// text as written.
pub open spec fn name_of(token: TokenView) -> Seq<char> {
    match token.kind {
        TokenKindView::Identifier(name) => name,
        _ => token.span.literal,
    }
}

/// The finding for a token that stands where an identifier should.
pub open spec fn name_diagnostics(token: TokenView) -> Seq<DiagnosticView> {
    if token.kind is Identifier {
        Seq::empty()
    } else {
        seq![unexpected_token(TokenKindView::Identifier(Seq::empty()), token.kind, token.span)]
    }
}

/// The finding for a token that stands where the token `expected` should.
pub open spec fn expected_diagnostics(expected: TokenKindView, token: TokenView) -> Seq<
    DiagnosticView,
> {
    if token.kind == expected {
        Seq::empty()
    } else {
        seq![unexpected_token(expected, token.kind, token.span)]
    }
}

/// One declaration: a name, and behind `=` the expression for its first
/// value.
pub open spec fn parse_declaration(tokens: Seq<TokenView>, pos: nat) -> Parsed<DeclView> {
    let name = peek(tokens, pos, 0);
    let next = advance(tokens, pos);
    if peek(tokens, next, 0).kind is Equal {
        let init = parse_expression(tokens, advance(tokens, next));
        Parsed {
            value: DeclView::VariableDeclareWithInit(name_of(name), init.value),
            position: init.position,
            diagnostics: name_diagnostics(name) + init.diagnostics,
        }
    } else {
        Parsed {
            value: DeclView::VariableDeclareDirect(name_of(name)),
            position: next,
            diagnostics: name_diagnostics(name),
        }
    }
}

/// Reading a declaration ends inside the sequence and not before its start.
pub proof fn lemma_parse_declaration(tokens: Seq<TokenView>, pos: nat)
    requires
        well_formed(tokens),
        pos < tokens.len(),
    ensures
        pos <= parse_declaration(tokens, pos).position < tokens.len(),
{
    let next = advance(tokens, pos);
    if peek(tokens, next, 0).kind is Equal {
        lemma_parse_binary(tokens, advance(tokens, next), 0);
    }
}

/// The declarations of a list, from the first on: each is followed by one
/// token that is stepped over, a comma where another declaration follows.
pub open spec fn parse_declarations(
    tokens: Seq<TokenView>,
    pos: nat,
    declarations: Seq<DeclView>,
    diagnostics: Seq<DiagnosticView>,
) -> Parsed<Seq<DeclView>>
    decreases tokens.len() - pos,
    when well_formed(tokens) && pos < tokens.len()
    via parse_declarations_decreases
{
    let declaration = parse_declaration(tokens, pos);
    let declarations = declarations.push(declaration.value);
    let diagnostics = diagnostics + declaration.diagnostics;
    if peek(tokens, declaration.position, 0).kind is Comma {
        parse_declarations(tokens, declaration.position + 1, declarations, diagnostics)
    } else {
        Parsed {
            value: declarations,
            position: advance(tokens, declaration.position),
            diagnostics,
        }
    }
}

#[via_fn]
proof fn parse_declarations_decreases(
    tokens: Seq<TokenView>,
    pos: nat,
    declarations: Seq<DeclView>,
    diagnostics: Seq<DiagnosticView>,
) {
    lemma_parse_declaration(tokens, pos);
}

/// Reading declarations ends inside the sequence and, unless the start is the
/// last token, behind its start.
pub proof fn lemma_parse_declarations(
    tokens: Seq<TokenView>,
    pos: nat,
    declarations: Seq<DeclView>,
    diagnostics: Seq<DiagnosticView>,
)
    requires
        well_formed(tokens),
        pos < tokens.len(),
    ensures
        pos <= parse_declarations(tokens, pos, declarations, diagnostics).position < tokens.len(),
        pos + 1 < tokens.len() ==> pos < parse_declarations(
            tokens,
            pos,
            declarations,
            diagnostics,
        ).position,
    decreases tokens.len() - pos,
{
    lemma_parse_declaration(tokens, pos);
    let declaration = parse_declaration(tokens, pos);
    if peek(tokens, declaration.position, 0).kind is Comma {
        lemma_parse_declarations(
            tokens,
            declaration.position + 1,
            declarations.push(declaration.value),
            diagnostics + declaration.diagnostics,
        );
    }
}

/// A declaration list: a type keyword and the declarations behind it.
pub open spec fn parse_declaration_list(tokens: Seq<TokenView>, pos: nat) -> Parsed<DeclListView> {
    let vartype = peek(tokens, pos, 0);
    let declarations = parse_declarations(
        tokens,
        advance(tokens, pos),
        Seq::empty(),
        vartype_diagnostics(vartype),
    );
    Parsed {
        value: DeclListView { vartype: vartype_of(vartype), declare_list: declarations.value },
        position: declarations.position,
        diagnostics: declarations.diagnostics,
    }
}

/// A statement: a declaration list where a type keyword stands; behind
/// `return` nothing, where `;` follows at once, or an expression; else an
/// expression. Behind the expression one token is stepped over, whatever it
/// is.
pub open spec fn parse_statement(tokens: Seq<TokenView>, pos: nat) -> Parsed<StmtView> {
    match peek(tokens, pos, 0).kind {
        TokenKindView::VarType(_) => {
            let list = parse_declaration_list(tokens, pos);
            Parsed {
                value: StmtView::Declaration(list.value),
                position: list.position,
                diagnostics: list.diagnostics,
            }
        },
        TokenKindView::Return => {
            let next = advance(tokens, pos);
            if peek(tokens, next, 0).kind is SemiColon {
                Parsed {
                    value: StmtView::EmptyReturn,
                    position: advance(tokens, next),
                    diagnostics: Seq::empty(),
                }
            } else {
                let expr = parse_expression(tokens, next);
                Parsed {
                    value: StmtView::Return(expr.value),
                    position: advance(tokens, expr.position),
                    diagnostics: expr.diagnostics,
                }
            }
        },
        _ => {
            let expr = parse_expression(tokens, pos);
            Parsed {
                value: StmtView::Expression(expr.value),
                position: advance(tokens, expr.position),
                diagnostics: expr.diagnostics,
            }
        },
    }
}

/// Reading a statement ends inside the sequence and, unless the start is the
/// last token, behind its start.
pub proof fn lemma_parse_statement(tokens: Seq<TokenView>, pos: nat)
    requires
        well_formed(tokens),
        pos < tokens.len(),
    ensures
        pos <= parse_statement(tokens, pos).position < tokens.len(),
        pos + 1 < tokens.len() ==> pos < parse_statement(tokens, pos).position,
{
    lemma_parse_binary(tokens, pos, 0);
    lemma_parse_binary(tokens, advance(tokens, pos), 0);
    lemma_parse_declarations(
        tokens,
        advance(tokens, pos),
        Seq::empty(),
        vartype_diagnostics(peek(tokens, pos, 0)),
    );
}

/// One parameter of a function: a type keyword and a name.
pub open spec fn parse_param(tokens: Seq<TokenView>, pos: nat) -> Parsed<ParamView> {
    let vartype = peek(tokens, pos, 0);
    let name = peek(tokens, pos, 1);
    Parsed {
        value: ParamView { param_type: vartype_of(vartype), name: name_of(name) },
        position: advance(tokens, advance(tokens, pos)),
        diagnostics: vartype_diagnostics(vartype) + name_diagnostics(name),
    }
}

/// The parameters of a function, up to the closing parenthesis, which is
/// stepped over. A comma before a parameter is stepped over. The end marker
/// ends the list with a finding.
pub open spec fn parse_params(
    tokens: Seq<TokenView>,
    pos: nat,
    params: Seq<ParamView>,
    diagnostics: Seq<DiagnosticView>,
) -> Parsed<Seq<ParamView>>
    decreases tokens.len() - pos,
    when well_formed(tokens) && pos < tokens.len()
{
    let token = tokens[pos as int];
    if token.kind is RightParen {
        Parsed { value: params, position: advance(tokens, pos), diagnostics }
    } else if token.kind is Eof {
        Parsed {
            value: params,
            position: pos,
            diagnostics: diagnostics + expected_diagnostics(TokenKindView::RightParen, token),
        }
    } else {
        let start = if token.kind is Comma {
            pos + 1
        } else {
            pos
        };
        let param = parse_param(tokens, start);
        parse_params(
            tokens,
            param.position,
            params.push(param.value),
            diagnostics + param.diagnostics,
        )
    }
}

/// Reading parameters ends inside the sequence and not before its start.
pub proof fn lemma_parse_params(
    tokens: Seq<TokenView>,
    pos: nat,
    params: Seq<ParamView>,
    diagnostics: Seq<DiagnosticView>,
)
    requires
        well_formed(tokens),
        pos < tokens.len(),
    ensures
        pos <= parse_params(tokens, pos, params, diagnostics).position < tokens.len(),
    decreases tokens.len() - pos,
{
    let token = tokens[pos as int];
    if !(token.kind is RightParen) && !(token.kind is Eof) {
        let start = if token.kind is Comma {
            pos + 1
        } else {
            pos
        };
        let param = parse_param(tokens, start);
        lemma_parse_params(
            tokens,
            param.position,
            params.push(param.value),
            diagnostics + param.diagnostics,
        );
    }
}

/// The statements of a function's body, up to the closing brace, which is
/// stepped over. The end marker ends the body with a finding.
pub open spec fn parse_body(
    tokens: Seq<TokenView>,
    pos: nat,
    statements: Seq<StmtView>,
    diagnostics: Seq<DiagnosticView>,
) -> Parsed<Seq<StmtView>>
    decreases tokens.len() - pos,
    when well_formed(tokens) && pos < tokens.len()
    via parse_body_decreases
{
    let token = tokens[pos as int];
    if token.kind is RightBrace {
        Parsed { value: statements, position: advance(tokens, pos), diagnostics }
    } else if token.kind is Eof {
        Parsed {
            value: statements,
            position: pos,
            diagnostics: diagnostics + expected_diagnostics(TokenKindView::RightBrace, token),
        }
    } else {
        let statement = parse_statement(tokens, pos);
        parse_body(
            tokens,
            statement.position,
            statements.push(statement.value),
            diagnostics + statement.diagnostics,
        )
    }
}

#[via_fn]
proof fn parse_body_decreases(
    tokens: Seq<TokenView>,
    pos: nat,
    statements: Seq<StmtView>,
    diagnostics: Seq<DiagnosticView>,
) {
    lemma_parse_statement(tokens, pos);
}

/// Reading a body ends inside the sequence and not before its start.
pub proof fn lemma_parse_body(
    tokens: Seq<TokenView>,
    pos: nat,
    statements: Seq<StmtView>,
    diagnostics: Seq<DiagnosticView>,
)
    requires
        well_formed(tokens),
        pos < tokens.len(),
    ensures
        pos <= parse_body(tokens, pos, statements, diagnostics).position < tokens.len(),
    decreases tokens.len() - pos,
{
    let token = tokens[pos as int];
    if !(token.kind is RightBrace) && !(token.kind is Eof) {
        lemma_parse_statement(tokens, pos);
        let statement = parse_statement(tokens, pos);
        lemma_parse_body(
            tokens,
            statement.position,
            statements.push(statement.value),
            diagnostics + statement.diagnostics,
        );
    }
}

/// A function: the type of its result, its name, its parameters in
/// parentheses and its body in braces.
pub open spec fn parse_function(tokens: Seq<TokenView>, pos: nat) -> Parsed<FunctionView> {
    let vartype = peek(tokens, pos, 0);
    let name = peek(tokens, pos, 1);
    let open_paren = peek(tokens, pos, 2);
    let params = parse_params(
        tokens,
        advance(tokens, advance(tokens, advance(tokens, pos))),
        Seq::empty(),
        vartype_diagnostics(vartype) + name_diagnostics(name) + expected_diagnostics(
            TokenKindView::LeftParen,
            open_paren,
        ),
    );
    let open_brace = peek(tokens, params.position, 0);
    let body = parse_body(
        tokens,
        advance(tokens, params.position),
        Seq::empty(),
        params.diagnostics + expected_diagnostics(TokenKindView::LeftBrace, open_brace),
    );
    Parsed {
        value: FunctionView {
            function_type: FunctionTypeView {
                arguments: params.value.map_values(|param: ParamView| param.param_type),
                returntype: vartype_of(vartype),
            },
            name: name_of(name),
            statements: body.value,
            params: params.value,
        },
        position: body.position,
        diagnostics: body.diagnostics,
    }
}

/// A program unit: a function where the token two places on is an opening
/// parenthesis, else a declaration list.
pub open spec fn parse_program_unit(tokens: Seq<TokenView>, pos: nat) -> Parsed<UnitView> {
    if peek(tokens, pos, 2).kind is LeftParen {
        let function = parse_function(tokens, pos);
        Parsed {
            value: UnitView::Function(function.value),
            position: function.position,
            diagnostics: function.diagnostics,
        }
    } else {
        let list = parse_declaration_list(tokens, pos);
        Parsed {
            value: UnitView::Declaration(list.value),
            position: list.position,
            diagnostics: list.diagnostics,
        }
    }
}

/// Reading a program unit ends inside the sequence and, unless the end
/// marker stands at its start, behind its start.
pub proof fn lemma_parse_program_unit(tokens: Seq<TokenView>, pos: nat)
    requires
        well_formed(tokens),
        pos < tokens.len(),
    ensures
        pos <= parse_program_unit(tokens, pos).position < tokens.len(),
        !at_end(tokens, pos) ==> pos < parse_program_unit(tokens, pos).position,
{
    let vartype = peek(tokens, pos, 0);
    lemma_parse_declarations(tokens, advance(tokens, pos), Seq::empty(), vartype_diagnostics(vartype));
    let start = advance(tokens, advance(tokens, advance(tokens, pos)));
    let head = vartype_diagnostics(vartype) + name_diagnostics(peek(tokens, pos, 1))
        + expected_diagnostics(TokenKindView::LeftParen, peek(tokens, pos, 2));
    lemma_parse_params(tokens, start, Seq::empty(), head);
    let params = parse_params(tokens, start, Seq::empty(), head);
    lemma_parse_body(
        tokens,
        advance(tokens, params.position),
        Seq::empty(),
        params.diagnostics + expected_diagnostics(
            TokenKindView::LeftBrace,
            peek(tokens, params.position, 0),
        ),
    );
}

/// The program units from `pos` up to the end marker.
pub open spec fn parse_units(
    tokens: Seq<TokenView>,
    pos: nat,
    units: Seq<UnitView>,
    diagnostics: Seq<DiagnosticView>,
) -> Parsed<Seq<UnitView>>
    decreases tokens.len() - pos,
    when well_formed(tokens) && pos < tokens.len()
    via parse_units_decreases
{
    if at_end(tokens, pos) {
        Parsed { value: units, position: pos, diagnostics }
    } else {
        let unit = parse_program_unit(tokens, pos);
        parse_units(tokens, unit.position, units.push(unit.value), diagnostics + unit.diagnostics)
    }
}

#[via_fn]
proof fn parse_units_decreases(
    tokens: Seq<TokenView>,
    pos: nat,
    units: Seq<UnitView>,
    diagnostics: Seq<DiagnosticView>,
) {
    lemma_parse_program_unit(tokens, pos);
}

} // verus!
