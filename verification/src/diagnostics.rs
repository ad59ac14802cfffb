//! The records of what was wrong with a source text, and the bag that
//! collects them in the order in which they were found.

use vstd::prelude::*;
use vstd::string::*;
use crate::ast::lexer::{TextSpan, TextSpanView, Token, TokenKind, TokenKindView};

pub mod printer;

verus! {

/// How grave a diagnostic is.
#[derive(Debug, PartialEq, Eq, Clone, Copy, Structural)]
pub enum DiagnosticKind {
    Error,
    Warning,
}

/// One finding: what is wrong, where, and how grave it is.
#[derive(Debug)]
pub struct Diagnostic {
    pub message: String,
    pub span: TextSpan,
    pub kind: DiagnosticKind,
}

/// The mathematical value of a [`Diagnostic`].
pub struct DiagnosticView {
    pub message: Seq<char>,
    pub span: TextSpanView,
    pub kind: DiagnosticKind,
}

impl View for Diagnostic {
    type V = DiagnosticView;

    open spec fn view(&self) -> DiagnosticView {
        DiagnosticView { message: self.message@, span: self.span@, kind: self.kind }
    }
}

impl Diagnostic {
    /// The finding `message` at `span`.
    pub fn new(message: String, span: TextSpan, kind: DiagnosticKind) -> (diagnostic: Self)
        ensures
            diagnostic.message == message,
            diagnostic.span == span,
            diagnostic.kind == kind,
    {
        Self { message, span, kind }
    }
}

/// The findings of one run, oldest first.
#[derive(Debug)]
pub struct DiagnosticBag {
    pub diagnostics: Vec<Diagnostic>,
}

impl View for DiagnosticBag {
    type V = Seq<DiagnosticView>;

    open spec fn view(&self) -> Seq<DiagnosticView> {
        self.diagnostics@.map_values(|diagnostic: Diagnostic| diagnostic@)
    }
}

/// The text that `{:?}` gives for a token kind.
pub uninterp spec fn token_kind_debug(kind: TokenKindView) -> Seq<char>;

/// The message for a token that stands where another kind was expected.
pub open spec fn unexpected_token_message(expected: TokenKindView, found: TokenKindView) -> Seq<
    char,
> {
    "Unexpected token: "@ + token_kind_debug(found) + " expected: "@ + token_kind_debug(expected)
}

/// The message for a token that cannot start an expression.
pub open spec fn expected_expression_message(found: TokenKindView) -> Seq<char> {
    "Expected expression, found: "@ + token_kind_debug(found)
}

/// The diagnostic for a token that stands where `expected` should.
pub open spec fn unexpected_token(expected: TokenKindView, token_kind: TokenKindView, span: TextSpanView)
    -> DiagnosticView {
    DiagnosticView {
        message: unexpected_token_message(expected, token_kind),
        span,
        kind: DiagnosticKind::Error,
    }
}

/// The diagnostic for a token that cannot start an expression.
pub open spec fn expected_expression(token_kind: TokenKindView, span: TextSpanView) -> DiagnosticView {
    DiagnosticView {
        message: expected_expression_message(token_kind),
        span,
        kind: DiagnosticKind::Error,
    }
}

/// The diagnostic for an assignment whose left side is no variable.
pub open spec fn invalid_assignment_target(span: TextSpanView) -> DiagnosticView {
    DiagnosticView { message: "Invalid assignment target"@, span, kind: DiagnosticKind::Error }
}

/// The `Debug` formatting of a token kind, through `format!`. The text is a
/// function of the kind alone.
#[verifier::external_body]
fn debug_text(kind: &TokenKind) -> (text: String)
    ensures
        text@ == token_kind_debug(kind@),
{
    format!("{:?}", kind)
}

impl DiagnosticBag {
    /// A bag without findings.
    pub fn new() -> (bag: Self)
        ensures
            bag@ == Seq::<DiagnosticView>::empty(),
    {
        let bag = Self { diagnostics: Vec::new() };
        assert(bag@ =~= Seq::<DiagnosticView>::empty());
        bag
    }

    /// Adds one finding of the given kind.
    fn report(&mut self, message: String, span: TextSpan, kind: DiagnosticKind)
        ensures
            final(self)@ == old(self)@.push(
                DiagnosticView { message: message@, span: span@, kind },
            ),
    {
        self.diagnostics.push(Diagnostic::new(message, span, kind));
        assert(self@ =~= old(self)@.push(DiagnosticView { message: message@, span: span@, kind }));
    }

    /// Adds an error.
    pub fn report_error(&mut self, message: String, span: TextSpan)
        ensures
            final(self)@ == old(self)@.push(
                DiagnosticView { message: message@, span: span@, kind: DiagnosticKind::Error },
            ),
    {
        self.report(message, span, DiagnosticKind::Error);
    }

    /// Adds a warning.
    pub fn report_warning(&mut self, message: String, span: TextSpan)
        ensures
            final(self)@ == old(self)@.push(
                DiagnosticView { message: message@, span: span@, kind: DiagnosticKind::Warning },
            ),
    {
        self.report(message, span, DiagnosticKind::Warning);
    }

    /// Adds the error of a token that stands where `expected` should.
    pub fn report_unexpected_token(&mut self, expected: &TokenKind, token: &Token)
        ensures
            final(self)@ == old(self)@.push(unexpected_token(expected@, token.kind@, token.span@)),
    {
        let mut message = String::from_str("Unexpected token: ");
        message.append(debug_text(&token.kind).as_str());
        message.append(" expected: ");
        message.append(debug_text(expected).as_str());
        self.report_error(message, token.span.clone());
    }

    /// Adds the error of a token that cannot start an expression.
    pub fn report_expected_expression(&mut self, token: &Token)
        ensures
            final(self)@ == old(self)@.push(expected_expression(token.kind@, token.span@)),
    {
        let mut message = String::from_str("Expected expression, found: ");
        message.append(debug_text(&token.kind).as_str());
        self.report_error(message, token.span.clone());
    }

    /// Adds the error of an assignment, at its operator `token`, whose left
    /// side is no variable.
    pub fn report_invalid_assignment_target(&mut self, token: &Token)
        ensures
            final(self)@ == old(self)@.push(invalid_assignment_target(token.span@)),
    {
        self.report_error(String::from_str("Invalid assignment target"), token.span.clone());
    }

    /// How many findings there are.
    pub fn len(&self) -> (count: usize)
        ensures
            count == self@.len(),
    {
        self.diagnostics.len()
    }
}

} // verus!
