//! A whole run: from source text to its tokens, its tree, its findings and,
//! where there are no findings, the state in which the program ends.

use vstd::prelude::*;
use crate::ast::Ast;
use crate::ast::evaluator::{lemma_visited_units_executes, ASTEvaluator};
use crate::ast::grammar::{parse_units, Parsed};
use crate::ast::lexer::{token_views, tokenize, tokens_from, Token, TokenView};
use crate::ast::parser::{without_whitespace, Parser};
use crate::ast::program_unit::UnitView;
use crate::ast::semantics::{execute_units, initial_state, EvalState};
use crate::diagnostics::DiagnosticBag;

verus! {

/// The tokens that the parser reads of a source text: all but the blanks.
pub open spec fn significant_tokens(source: Seq<char>) -> Seq<TokenView> {
    without_whitespace(tokens_from(source, 0))
}

/// The program that a source text is: its units and the findings of reading
/// them.
pub open spec fn program_of(source: Seq<char>) -> Parsed<Seq<UnitView>> {
    parse_units(significant_tokens(source), 0, Seq::empty(), Seq::empty())
}

/// The state in which the program of a source text ends.
pub open spec fn final_state_of(source: Seq<char>) -> EvalState {
    execute_units(initial_state(), program_of(source).value)
}

/// What a run made of a source text.
pub struct Interpretation {
    /// All tokens, blanks included.
    pub tokens: Vec<Token>,
    /// The tree.
    pub ast: Ast,
    /// The findings of the parser.
    pub diagnostics: DiagnosticBag,
    /// The evaluator after the run; none where there are findings.
    pub evaluator: Option<ASTEvaluator>,
}

/// A copy of every token, in order.
fn copy_of(tokens: &Vec<Token>) -> (copy: Vec<Token>)
    ensures
        copy@ == tokens@,
{
    let mut copy: Vec<Token> = Vec::new();
    let mut i: usize = 0;
    while i < tokens.len()
        invariant
            i <= tokens.len(),
            copy@ == tokens@.take(i as int),
        decreases tokens.len() - i,
    {
        copy.push(tokens[i].clone());
        assert(copy@ =~= tokens@.take(i + 1));
        i += 1;
    }
    assert(tokens@.take(i as int) =~= tokens@);
    copy
}

/// Runs a source text: tokenizes it, parses it to the end and, where the
/// parser found nothing wrong, evaluates the tree. With any finding nothing is
/// evaluated.
pub fn interpret(source: &str) -> (run: Interpretation)
    ensures
        token_views(run.tokens@) == tokens_from(source@, 0),
        run.ast@ == program_of(source@).value,
        run.diagnostics@ == program_of(source@).diagnostics,
        run.diagnostics@.len() > 0 <==> run.evaluator is None,
        run.evaluator matches Some(evaluator) ==> evaluator.wf() && evaluator@ == final_state_of(
            source@,
        ),
{
    let tokens = tokenize(source);
    let mut parser = Parser::new(copy_of(&tokens), DiagnosticBag::new());
    let ast = parser.parse_program();
    let diagnostics = parser.into_diagnostics();
    assert(diagnostics@ =~= program_of(source@).diagnostics);
    let evaluator = if diagnostics.len() > 0 {
        None
    } else {
        let mut evaluator = ASTEvaluator::new();
        let ghost fresh = evaluator;
        ast.visit(&mut evaluator);
        proof {
            lemma_visited_units_executes(fresh, ast@, evaluator);
        }
        Some(evaluator)
    };
    Interpretation { tokens, ast, diagnostics, evaluator }
}

} // verus!
