//! The parser: from tokens to program units, by recursive descent with
//! precedence climbing. It never gives up: what it cannot read becomes an
//! error node or a default, with a finding in the diagnostics bag.

use vstd::prelude::*;
use vstd::string::*;
use crate::ast::{lemma_types_view_push, types_view, Ast, GrammarFunctiontype, GrammarVartype};
use crate::ast::expression::{
    exprs_view,
    lemma_exprs_view_push,
    ASTBinaryOperator,
    ASTBinaryOperatorKind,
    ASTExpression,
    ASTExpressionKind,
};
use crate::ast::grammar::{
    advance,
    at_end,
    binary_operator,
    climb,
    combine,
    expected_diagnostics,
    lemma_climb,
    lemma_parse_binary,
    lemma_parse_declaration,
    lemma_parse_params,
    lemma_parse_primary,
    lemma_parse_program_unit,
    lemma_parse_statement,
    name_diagnostics,
    name_of,
    parse_arguments,
    parse_binary,
    parse_body,
    parse_declaration,
    parse_declaration_list,
    parse_declarations,
    parse_expression,
    parse_function,
    parse_param,
    parse_params,
    parse_primary,
    parse_program_unit,
    parse_statement,
    parse_units,
    peek,
    vartype_diagnostics,
    vartype_of,
    well_formed,
    Parsed,
};
use crate::ast::lexer::{token_views, Token, TokenKind, TokenKindView, TokenView, VartypeKind};
use crate::ast::program_unit::{ASTFunction, ASTFunctonParam, ASTProgramunit, ParamView};
use crate::ast::statement::{
    ASTDeclaration,
    ASTDeclarationList,
    ASTStatement,
    StmtView,
};
use crate::diagnostics::{DiagnosticBag, DiagnosticView};

verus! {

/// A counter that only goes up.
pub struct Counter {
    count: usize,
}

impl View for Counter {
    type V = nat;

    closed spec fn view(&self) -> nat {
        self.count as nat
    }
}

impl Counter {
    /// A counter at zero.
    pub fn new() -> (counter: Self)
        ensures
            counter@ == 0,
    {
        Self { count: 0 }
    }

    /// Counts one up.
    pub fn increment(&mut self)
        requires
            old(self)@ < usize::MAX,
        ensures
            final(self)@ == old(self)@ + 1,
    {
        self.count = self.count + 1;
    }

    /// The count.
    pub fn count(&self) -> (count: usize)
        ensures
            count == self@,
    {
        self.count
    }
}

/// The tokens of a sequence that are no blanks, in order.
pub open spec fn without_whitespace(tokens: Seq<TokenView>) -> Seq<TokenView> {
    tokens.filter(|token: TokenView| !(token.kind is WhiteSpace))
}

/// A reader of one token sequence, with the bag for its findings.
pub struct Parser {
    tokens: Vec<Token>,
    current: Counter,
    diagnostics_bag: DiagnosticBag,
}

impl Parser {
    /// The tokens that are read.
    pub closed spec fn tokens(&self) -> Seq<TokenView> {
        token_views(self.tokens@)
    }

    /// The offset of the token that is read next.
    pub closed spec fn position(&self) -> nat {
        self.current@
    }

    /// The findings so far, oldest first.
    pub closed spec fn findings(&self) -> Seq<DiagnosticView> {
        self.diagnostics_bag@
    }

    /// The tokens end with the end marker and the reader stands on one of
    /// them.
    pub open spec fn wf(&self) -> bool {
        well_formed(self.tokens()) && self.position() < self.tokens().len()
    }

    /// Whether this reader is `before` after the reading `parsed`: it stands
    /// where the reading ended and has the findings of the reading added.
    pub open spec fn follows<T>(&self, before: &Parser, parsed: Parsed<T>) -> bool {
        &&& self.tokens() == before.tokens()
        &&& self.position() == parsed.position
        &&& self.findings() == before.findings() + parsed.diagnostics
    }

    /// Whether this reader is `before` untouched.
    pub open spec fn same_as(&self, before: &Parser) -> bool {
        &&& self.tokens() == before.tokens()
        &&& self.position() == before.position()
        &&& self.findings() == before.findings()
    }

    /// A reader at the start of `tokens` without their blanks. The tokens are
    /// a whole source: they end with the end marker.
    pub fn new(tokens: Vec<Token>, diagnostics_bag: DiagnosticBag) -> (parser: Self)
        requires
            tokens@.len() > 0,
            tokens@.last().kind is Eof,
        ensures
            parser.wf(),
            parser.tokens() == without_whitespace(token_views(tokens@)),
            parser.position() == 0,
            parser.findings() == diagnostics_bag@,
    {
        let ghost all = token_views(tokens@);
        let mut kept: Vec<Token> = Vec::new();
        let mut i: usize = 0;
        proof {
            reveal(Seq::filter);
            assert(all.take(0) =~= Seq::<TokenView>::empty());
            assert(token_views(kept@) =~= without_whitespace(all.take(0)));
        }
        while i < tokens.len()
            invariant
                i <= tokens.len(),
                all == token_views(tokens@),
                token_views(kept@) == without_whitespace(all.take(i as int)),
            decreases tokens.len() - i,
        {
            proof {
                reveal(Seq::filter);
                assert(all.take(i + 1).drop_last() =~= all.take(i as int));
                assert(all.take(i + 1).last() == tokens@[i as int]@);
            }
            let is_blank = match &tokens[i].kind {
                TokenKind::WhiteSpace => true,
                _ => false,
            };
            if !is_blank {
                let ghost before = token_views(kept@);
                kept.push(tokens[i].clone());
                assert(token_views(kept@) =~= before.push(tokens@[i as int]@));
            }
            i += 1;
        }
        proof {
            reveal(Seq::filter);
            assert(all.take(tokens.len() as int) =~= all);
            assert(all.last() == tokens@.last()@);
        }
        Self { tokens: kept, current: Counter::new(), diagnostics_bag }
    }

    /// The bag of findings.
    pub fn diagnostics(&self) -> (bag: &DiagnosticBag)
        ensures
            bag@ == self.findings(),
    {
        &self.diagnostics_bag
    }

    /// Ends the reading and hands the bag of findings back.
    pub fn into_diagnostics(self) -> (bag: DiagnosticBag)
        ensures
            bag@ == self.findings(),
    {
        self.diagnostics_bag
    }

    /// All program units up to the end marker.
    pub fn parse_program(&mut self) -> (ast: Ast)
        requires
            old(self).wf(),
        ensures
            final(self).wf(),
            ast@ == parse_units(
                old(self).tokens(),
                old(self).position(),
                Seq::empty(),
                Seq::empty(),
            ).value,
            final(self).follows(
                old(self),
                parse_units(old(self).tokens(), old(self).position(), Seq::empty(), Seq::empty()),
            ),
    {
        let ghost tokens = self.tokens();
        let ghost pos = self.position();
        let ghost before = self.findings();
        let mut ast = Ast::new();
        let ghost mut found = Seq::<DiagnosticView>::empty();
        assert(self.findings() =~= before + found);
        loop
            invariant_except_break
                self.wf(),
                self.tokens() == tokens,
                self.findings() == before + found,
                parse_units(tokens, pos, Seq::empty(), Seq::empty()) == parse_units(
                    tokens,
                    self.position(),
                    ast@,
                    found,
                ),
            ensures
                self.wf(),
                self.tokens() == tokens,
                self.findings() == before + found,
                self.position() == parse_units(tokens, pos, Seq::empty(), Seq::empty()).position,
                found == parse_units(tokens, pos, Seq::empty(), Seq::empty()).diagnostics,
                ast@ == parse_units(tokens, pos, Seq::empty(), Seq::empty()).value,
            decreases tokens.len() - self.position(),
        {
            let ghost from = self.position();
            match self.next_program_unit() {
                Some(unit) => {
                    proof {
                        let parsed = parse_program_unit(tokens, from);
                        lemma_parse_program_unit(tokens, from);
                        assert(self.findings() =~= before + (found + parsed.diagnostics));
                        found = found + parsed.diagnostics;
                    }
                    ast.add_program_unit(unit);
                },
                None => {
                    break ;
                },
            }
        }
        ast
    }

    /// The next program unit, or nothing where the end marker stands.
    pub fn next_program_unit(&mut self) -> (unit: Option<ASTProgramunit>)
        requires
            old(self).wf(),
        ensures
            final(self).wf(),
            at_end(old(self).tokens(), old(self).position()) ==> unit is None && final(self).same_as(old(self)),
            !at_end(old(self).tokens(), old(self).position()) ==> unit is Some && unit.unwrap()@
                == parse_program_unit(old(self).tokens(), old(self).position()).value && final(self).follows(old(self), parse_program_unit(old(self).tokens(), old(self).position())),
    {
        if self.is_at_end() {
            return None;
        }
        Some(self.parse_program_unit())
    }

    /// The program unit that starts at the reader.
    pub fn parse_program_unit(&mut self) -> (unit: ASTProgramunit)
        requires
            old(self).wf(),
        ensures
            final(self).wf(),
            unit@ == parse_program_unit(old(self).tokens(), old(self).position()).value,
            final(self).follows(
                old(self),
                parse_program_unit(old(self).tokens(), old(self).position()),
            ),
    {
        let is_function = match &self.peek(2).kind {
            TokenKind::LeftParen => true,
            _ => false,
        };
        if is_function {
            let function = self.parse_function();
            ASTProgramunit::function(function)
        } else {
            let declaration_list = self.parse_declaration_list();
            ASTProgramunit::declaration(declaration_list)
        }
    }

    /// The next statement, or nothing where the end marker stands.
    pub fn next_statement(&mut self) -> (statement: Option<ASTStatement>)
        requires
            old(self).wf(),
        ensures
            final(self).wf(),
            at_end(old(self).tokens(), old(self).position()) ==> statement is None && final(self).same_as(old(self)),
            !at_end(old(self).tokens(), old(self).position()) ==> statement is Some
                && statement.unwrap()@ == parse_statement(
                old(self).tokens(),
                old(self).position(),
            ).value && final(self).follows(
                old(self),
                parse_statement(old(self).tokens(), old(self).position()),
            ),
    {
        if self.is_at_end() {
            return None;
        }
        Some(self.parse_statement())
    }

    /// Whether the end marker stands at the reader.
    fn is_at_end(&self) -> (end: bool)
        requires
            self.wf(),
        ensures
            end == at_end(self.tokens(), self.position()),
    {
        match &self.current().kind {
            TokenKind::Eof => true,
            _ => false,
        }
    }

    /// The statement that starts at the reader.
    fn parse_statement(&mut self) -> (statement: ASTStatement)
        requires
            old(self).wf(),
        ensures
            final(self).wf(),
            statement@ == parse_statement(old(self).tokens(), old(self).position()).value,
            final(self).follows(
                old(self),
                parse_statement(old(self).tokens(), old(self).position()),
            ),
    {
        let ghost tokens = self.tokens();
        let ghost pos = self.position();
        proof {
            lemma_parse_statement(tokens, pos);
            lemma_parse_binary(tokens, pos, 0);
            lemma_parse_binary(tokens, advance(tokens, pos), 0);
        }
        let leading: u8 = match &self.current().kind {
            TokenKind::VarType(_) => 0,
            TokenKind::Return => 1,
            _ => 2,
        };
        if leading == 0 {
            let declaration_list = self.parse_declaration_list();
            ASTStatement::declaration(declaration_list)
        } else if leading == 1 {
            self.consume();
            let empty = match &self.current().kind {
                TokenKind::SemiColon => true,
                _ => false,
            };
            if empty {
                self.consume();
                assert(self.findings() =~= old(self).findings() + Seq::<DiagnosticView>::empty());
                return ASTStatement::empty_return();
            }
            let expr = self.parse_expression();
            self.consume();
            ASTStatement::return_statement(expr)
        } else {
            let expr = self.parse_expression();
            self.consume();
            ASTStatement::expression(expr)
        }
    }

    /// The type keyword at the reader, `int` with a finding where none
    /// stands there. The token is stepped over.
    fn expect_vartype(&mut self) -> (vartype: GrammarVartype)
        requires
            old(self).wf(),
        ensures
            final(self).wf(),
            final(self).tokens() == old(self).tokens(),
            final(self).position() == advance(old(self).tokens(), old(self).position()),
            final(self).findings() == old(self).findings() + vartype_diagnostics(
                peek(old(self).tokens(), old(self).position(), 0),
            ),
            vartype@ == vartype_of(peek(old(self).tokens(), old(self).position(), 0)),
    {
        let token = self.current().clone();
        match self.parse_vartype() {
            Some(vartype) => {
                assert(self.findings() =~= old(self).findings() + Seq::<DiagnosticView>::empty());
                vartype
            },
            None => {
                self.diagnostics_bag.report_unexpected_token(
                    &TokenKind::VarType(VartypeKind::Int),
                    &token,
                );
                assert(self.findings() =~= old(self).findings() + vartype_diagnostics(token@));
                GrammarVartype::new(&VartypeKind::Int)
            },
        }
    }

    /// The name at the reader: an identifier's name, else with a finding the
    /// text of the token that stands there. The token is stepped over.
    fn expect_name(&mut self) -> (name: String)
        requires
            old(self).wf(),
        ensures
            final(self).wf(),
            final(self).tokens() == old(self).tokens(),
            final(self).position() == advance(old(self).tokens(), old(self).position()),
            final(self).findings() == old(self).findings() + name_diagnostics(
                peek(old(self).tokens(), old(self).position(), 0),
            ),
            name@ == name_of(peek(old(self).tokens(), old(self).position(), 0)),
    {
        let token = self.consume();
        match &token.kind {
            TokenKind::Identifier(name) => {
                assert(self.findings() =~= old(self).findings() + Seq::<DiagnosticView>::empty());
                name.clone()
            },
            _ => {
                let expected = TokenKind::Identifier(String::new());
                self.diagnostics_bag.report_unexpected_token(&expected, &token);
                assert(self.findings() =~= old(self).findings() + name_diagnostics(token@));
                token.span.literal.clone()
            },
        }
    }

    /// One parameter of a function: a type keyword and a name.
    fn parse_function_params(&mut self) -> (param: ASTFunctonParam)
        requires
            old(self).wf(),
        ensures
            final(self).wf(),
            param@ == parse_param(old(self).tokens(), old(self).position()).value,
            final(self).follows(old(self), parse_param(old(self).tokens(), old(self).position())),
    {
        let var_type = self.expect_vartype();
        let name = self.expect_name();
        assert(self.findings() =~= old(self).findings() + parse_param(
            old(self).tokens(),
            old(self).position(),
        ).diagnostics);
        ASTFunctonParam::new(var_type, name)
    }

    /// The function that starts at the reader.
    fn parse_function(&mut self) -> (function: ASTFunction)
        requires
            old(self).wf(),
        ensures
            final(self).wf(),
            function@ == parse_function(old(self).tokens(), old(self).position()).value,
            final(self).follows(
                old(self),
                parse_function(old(self).tokens(), old(self).position()),
            ),
    {
        let ghost tokens = self.tokens();
        let ghost pos = self.position();
        let ghost before = self.findings();
        let var_type = self.expect_vartype();
        let name = self.expect_name();
        self.consume_and_check(TokenKind::LeftParen);
        let ghost head = vartype_diagnostics(peek(tokens, pos, 0)) + name_diagnostics(
            peek(tokens, pos, 1),
        ) + expected_diagnostics(TokenKindView::LeftParen, peek(tokens, pos, 2));
        assert(self.findings() =~= before + head);
        let ghost params_start = self.position();
        let mut params: Vec<ASTFunctonParam> = Vec::new();
        let mut arguments: Vec<GrammarVartype> = Vec::new();
        let ghost mut found = head;
        assert(params@.map_values(|param: ASTFunctonParam| param@) =~= Seq::<ParamView>::empty());
        loop
            invariant_except_break
                self.wf(),
                self.tokens() == tokens,
                self.findings() == before + found,
                parse_params(tokens, params_start, Seq::empty(), head) == parse_params(
                    tokens,
                    self.position(),
                    params@.map_values(|param: ASTFunctonParam| param@),
                    found,
                ),
                types_view(arguments@) == params@.map_values(|param: ASTFunctonParam| param@).map_values(
                    |param: ParamView| param.param_type,
                ),
            ensures
                self.wf(),
                self.tokens() == tokens,
                self.findings() == before + found,
                self.position() == parse_params(tokens, params_start, Seq::empty(), head).position,
                found == parse_params(tokens, params_start, Seq::empty(), head).diagnostics,
                params@.map_values(|param: ASTFunctonParam| param@) == parse_params(
                    tokens,
                    params_start,
                    Seq::empty(),
                    head,
                ).value,
                types_view(arguments@) == params@.map_values(|param: ASTFunctonParam| param@).map_values(
                    |param: ParamView| param.param_type,
                ),
            decreases tokens.len() - self.position(),
        {
            let current_token = self.current().clone();
            match &current_token.kind {
                TokenKind::RightParen => {
                    self.consume();
                    break ;
                },
                TokenKind::Eof => {
                    self.diagnostics_bag.report_unexpected_token(
                        &TokenKind::RightParen,
                        &current_token,
                    );
                    proof {
                        let extra = expected_diagnostics(TokenKindView::RightParen, current_token@);
                        assert(self.findings() =~= before + (found + extra));
                        found = found + extra;
                    }
                    break ;
                },
                TokenKind::Comma => {
                    self.consume();
                },
                _ => {},
            }
            let ghost start = self.position();
            let ghost done = params@.map_values(|param: ASTFunctonParam| param@);
            let param = self.parse_function_params();
            proof {
                let parsed = parse_param(tokens, start);
                assert(self.findings() =~= before + (found + parsed.diagnostics));
                found = found + parsed.diagnostics;
                lemma_types_view_push(arguments@, param.param_type);
            }
            arguments.push(param.param_type.clone());
            params.push(param);
            proof {
                assert(params@.map_values(|param: ASTFunctonParam| param@) =~= done.push(param@));
                assert(params@.map_values(|param: ASTFunctonParam| param@).map_values(
                    |param: ParamView| param.param_type,
                ) =~= done.map_values(|param: ParamView| param.param_type).push(
                    param@.param_type,
                ));
            }
        }
        let ghost parsed_params = parse_params(tokens, params_start, Seq::empty(), head);
        proof {
            lemma_parse_params(tokens, params_start, Seq::empty(), head);
        }
        self.consume_and_check(TokenKind::LeftBrace);
        let ghost body_head = parsed_params.diagnostics + expected_diagnostics(
            TokenKindView::LeftBrace,
            peek(tokens, parsed_params.position, 0),
        );
        assert(self.findings() =~= before + body_head);
        let ghost body_start = self.position();
        let mut statements: Vec<ASTStatement> = Vec::new();
        proof {
            found = body_head;
        }
        assert(statements@.map_values(|statement: ASTStatement| statement@) =~= Seq::<
            StmtView,
        >::empty());
        loop
            invariant_except_break
                self.wf(),
                self.tokens() == tokens,
                self.findings() == before + found,
                parse_body(tokens, body_start, Seq::empty(), body_head) == parse_body(
                    tokens,
                    self.position(),
                    statements@.map_values(|statement: ASTStatement| statement@),
                    found,
                ),
            ensures
                self.wf(),
                self.tokens() == tokens,
                self.findings() == before + found,
                self.position() == parse_body(tokens, body_start, Seq::empty(), body_head).position,
                found == parse_body(tokens, body_start, Seq::empty(), body_head).diagnostics,
                statements@.map_values(|statement: ASTStatement| statement@) == parse_body(
                    tokens,
                    body_start,
                    Seq::empty(),
                    body_head,
                ).value,
            decreases tokens.len() - self.position(),
        {
            let current_token = self.current().clone();
            match &current_token.kind {
                TokenKind::RightBrace => {
                    self.consume();
                    break ;
                },
                TokenKind::Eof => {
                    self.diagnostics_bag.report_unexpected_token(
                        &TokenKind::RightBrace,
                        &current_token,
                    );
                    proof {
                        let extra = expected_diagnostics(TokenKindView::RightBrace, current_token@);
                        assert(self.findings() =~= before + (found + extra));
                        found = found + extra;
                    }
                    break ;
                },
                _ => {},
            }
            let ghost start = self.position();
            let ghost done = statements@.map_values(|statement: ASTStatement| statement@);
            let statement = self.parse_statement();
            proof {
                let parsed = parse_statement(tokens, start);
                lemma_parse_statement(tokens, start);
                assert(self.findings() =~= before + (found + parsed.diagnostics));
                found = found + parsed.diagnostics;
            }
            statements.push(statement);
            assert(statements@.map_values(|statement: ASTStatement| statement@) =~= done.push(
                statement@,
            ));
        }
        let mut function = ASTFunction::new(GrammarFunctiontype::new(arguments, var_type), params);
        function.name = name;
        function.statements = statements;
        function
    }

    /// The declaration list that starts at the reader.
    fn parse_declaration_list(&mut self) -> (list: ASTDeclarationList)
        requires
            old(self).wf(),
        ensures
            final(self).wf(),
            list@ == parse_declaration_list(old(self).tokens(), old(self).position()).value,
            final(self).follows(
                old(self),
                parse_declaration_list(old(self).tokens(), old(self).position()),
            ),
    {
        let ghost tokens = self.tokens();
        let ghost pos = self.position();
        let ghost before = self.findings();
        let vartype = self.expect_vartype();
        let ghost head = vartype_diagnostics(peek(tokens, pos, 0));
        let ghost start = self.position();
        let mut declaration_list = ASTDeclarationList::new(vartype);
        let ghost mut found = head;
        loop
            invariant_except_break
                self.wf(),
                self.tokens() == tokens,
                self.findings() == before + found,
                declaration_list@.vartype == vartype_of(peek(tokens, pos, 0)),
                parse_declarations(tokens, start, Seq::empty(), head) == parse_declarations(
                    tokens,
                    self.position(),
                    declaration_list@.declare_list,
                    found,
                ),
            ensures
                self.wf(),
                self.tokens() == tokens,
                self.findings() == before + found,
                declaration_list@.vartype == vartype_of(peek(tokens, pos, 0)),
                self.position() == parse_declarations(tokens, start, Seq::empty(), head).position,
                found == parse_declarations(tokens, start, Seq::empty(), head).diagnostics,
                declaration_list@.declare_list == parse_declarations(
                    tokens,
                    start,
                    Seq::empty(),
                    head,
                ).value,
            decreases tokens.len() - self.position(),
        {
            let ghost from = self.position();
            let ghost done = declaration_list@.declare_list;
            let declaration = self.parse_declaration();
            proof {
                let parsed = parse_declaration(tokens, from);
                lemma_parse_declaration(tokens, from);
                assert(self.findings() =~= before + (found + parsed.diagnostics));
                found = found + parsed.diagnostics;
            }
            declaration_list.declare_list.push(declaration);
            assert(declaration_list@.declare_list =~= done.push(declaration@));
            let separator = self.consume();
            match &separator.kind {
                TokenKind::Comma => {},
                _ => {
                    break ;
                },
            }
        }
        declaration_list
    }

    /// One declaration: a name, with the expression for its first value
    /// behind `=`.
    fn parse_declaration(&mut self) -> (declaration: ASTDeclaration)
        requires
            old(self).wf(),
        ensures
            final(self).wf(),
            declaration@ == parse_declaration(old(self).tokens(), old(self).position()).value,
            final(self).follows(
                old(self),
                parse_declaration(old(self).tokens(), old(self).position()),
            ),
    {
        let ghost tokens = self.tokens();
        let ghost pos = self.position();
        let ghost before = self.findings();
        let name = self.expect_name();
        let with_init = match &self.current().kind {
            TokenKind::Equal => true,
            _ => false,
        };
        if with_init {
            self.consume();
            let ghost from = self.position();
            let expr = self.parse_expression();
            proof {
                let init = parse_expression(tokens, from);
                assert(self.findings() =~= before + (name_diagnostics(peek(tokens, pos, 0))
                    + init.diagnostics));
            }
            ASTDeclaration::VariableDeclareWithInit(name, expr)
        } else {
            ASTDeclaration::VariableDeclareDirect(name)
        }
    }

    /// The expression that starts at the reader.
    fn parse_expression(&mut self) -> (expr: ASTExpression)
        requires
            old(self).wf(),
        ensures
            final(self).wf(),
            expr@ == parse_expression(old(self).tokens(), old(self).position()).value,
            final(self).follows(
                old(self),
                parse_expression(old(self).tokens(), old(self).position()),
            ),
    {
        self.parse_binary_expression(0)
    }

    /// The type keyword at the reader, if one stands there. The token is
    /// stepped over either way.
    fn parse_vartype(&mut self) -> (vartype: Option<GrammarVartype>)
        requires
            old(self).wf(),
        ensures
            final(self).wf(),
            final(self).tokens() == old(self).tokens(),
            final(self).position() == advance(old(self).tokens(), old(self).position()),
            final(self).findings() == old(self).findings(),
            match peek(old(self).tokens(), old(self).position(), 0).kind {
                TokenKindView::VarType(kind) => vartype == Some(GrammarVartype::Direct(kind)),
                _ => vartype is None,
            },
    {
        let token = self.consume();
        match &token.kind {
            TokenKind::VarType(vartype) => Some(GrammarVartype::new(vartype)),
            _ => None,
        }
    }

    /// The binary operator at the reader, if one stands there.
    fn parse_binary_operator(&self) -> (operator: Option<ASTBinaryOperator>)
        requires
            self.wf(),
        ensures
            match binary_operator(peek(self.tokens(), self.position(), 0).kind) {
                Some(kind) => operator is Some && operator.unwrap().kind == kind
                    && operator.unwrap().token@ == peek(self.tokens(), self.position(), 0),
                None => operator is None,
            },
    {
        let token = self.current();
        let kind = match &token.kind {
            TokenKind::Plus => Some(ASTBinaryOperatorKind::Add),
            TokenKind::Minus => Some(ASTBinaryOperatorKind::Sub),
            TokenKind::Asterisk => Some(ASTBinaryOperatorKind::Mul),
            TokenKind::Slash => Some(ASTBinaryOperatorKind::Div),
            TokenKind::Equal => Some(ASTBinaryOperatorKind::Equal),
            _ => None,
        };
        match kind {
            Some(kind) => Some(ASTBinaryOperator::new(kind, token.clone())),
            None => None,
        }
    }

    /// The expression that starts at the reader, of operators that bind at
    /// least as tightly as `precedence` asks.
    fn parse_binary_expression(&mut self, precedence: u8) -> (expr: ASTExpression)
        requires
            old(self).wf(),
        ensures
            final(self).wf(),
            expr@ == parse_binary(old(self).tokens(), old(self).position(), precedence).value,
            final(self).follows(
                old(self),
                parse_binary(old(self).tokens(), old(self).position(), precedence),
            ),
        decreases old(self).tokens().len() - old(self).position(), 2nat,
    {
        let ghost tokens = self.tokens();
        let ghost pos = self.position();
        let ghost before = self.findings();
        let mut left = self.parse_primary_expression();
        let ghost mut read = parse_primary(tokens, pos);
        proof {
            lemma_parse_primary(tokens, pos);
            lemma_parse_binary(tokens, pos, precedence);
        }
        loop
            invariant_except_break
                self.wf(),
                self.tokens() == tokens,
                self.findings() == before + read.diagnostics,
                self.position() == read.position,
                left@ == read.value,
                pos <= read.position,
                tokens == old(self).tokens(),
                pos == old(self).position(),
                climb(tokens, read, precedence) == parse_binary(tokens, pos, precedence),
            ensures
                self.wf(),
                self.tokens() == tokens,
                self.findings() == before + read.diagnostics,
                self.position() == read.position,
                left@ == read.value,
                read == parse_binary(tokens, pos, precedence),
            decreases tokens.len() - self.position(),
        {
            proof {
                lemma_climb(tokens, read, precedence);
            }
            let operator = match self.parse_binary_operator() {
                Some(operator) => operator,
                None => {
                    break ;
                },
            };
            let operator_precedence = operator.precedence();
            if operator_precedence < precedence || (operator_precedence == precedence
                && !operator.right_combined()) {
                break ;
            }
            self.consume();
            let ghost from = self.position();
            let right = self.parse_binary_expression(operator_precedence);
            proof {
                let parsed = parse_binary(tokens, from, operator_precedence);
                lemma_parse_binary(tokens, from, operator_precedence);
                let combined = combine(operator.token@, operator.kind, read, parsed);
                assert(before + read.diagnostics + parsed.diagnostics =~= before + (
                read.diagnostics + parsed.diagnostics));
                read = combined;
            }
            let is_assignment = match operator.kind {
                ASTBinaryOperatorKind::Equal => true,
                _ => false,
            };
            if is_assignment {
                let is_variable = match &left.kind {
                    ASTExpressionKind::Variable(_) => true,
                    _ => false,
                };
                if is_variable {
                    left = ASTExpression::assignment(left, right);
                } else {
                    self.diagnostics_bag.report_invalid_assignment_target(&operator.token);
                    assert(self.findings() =~= before + read.diagnostics);
                    left = ASTExpression::error(operator.token.span.clone());
                }
            } else {
                left = ASTExpression::binary(operator, left, right);
            }
        }
        left
    }

    /// The arguments of a call whose opening parenthesis has been stepped
    /// over and whose closing parenthesis does not follow at once.
    fn parse_arguments(&mut self) -> (arguments: Vec<ASTExpression>)
        requires
            old(self).wf(),
        ensures
            final(self).wf(),
            exprs_view(arguments@) == parse_arguments(
                old(self).tokens(),
                old(self).position(),
                Seq::empty(),
                Seq::empty(),
            ).value,
            final(self).follows(
                old(self),
                parse_arguments(
                    old(self).tokens(),
                    old(self).position(),
                    Seq::empty(),
                    Seq::empty(),
                ),
            ),
        decreases old(self).tokens().len() - old(self).position(), 3nat,
    {
        let ghost tokens = self.tokens();
        let ghost pos = self.position();
        let ghost before = self.findings();
        let mut arguments: Vec<ASTExpression> = Vec::new();
        let ghost mut found = Seq::<DiagnosticView>::empty();
        assert(self.findings() =~= before + found);
        loop
            invariant_except_break
                self.wf(),
                self.tokens() == tokens,
                self.findings() == before + found,
                pos <= self.position(),
                tokens == old(self).tokens(),
                pos == old(self).position(),
                parse_arguments(tokens, pos, Seq::empty(), Seq::empty()) == parse_arguments(
                    tokens,
                    self.position(),
                    exprs_view(arguments@),
                    found,
                ),
            ensures
                self.wf(),
                self.tokens() == tokens,
                self.findings() == before + found,
                self.position() == parse_arguments(
                    tokens,
                    pos,
                    Seq::empty(),
                    Seq::empty(),
                ).position,
                found == parse_arguments(tokens, pos, Seq::empty(), Seq::empty()).diagnostics,
                exprs_view(arguments@) == parse_arguments(
                    tokens,
                    pos,
                    Seq::empty(),
                    Seq::empty(),
                ).value,
            decreases tokens.len() - self.position(),
        {
            let ghost from = self.position();
            let argument = self.parse_binary_expression(0);
            proof {
                let parsed = parse_binary(tokens, from, 0);
                lemma_parse_binary(tokens, from, 0);
                lemma_exprs_view_push(arguments@, argument);
                assert(self.findings() =~= before + (found + parsed.diagnostics));
                found = found + parsed.diagnostics;
            }
            arguments.push(argument);
            let separator = self.consume();
            match &separator.kind {
                TokenKind::Comma => {},
                _ => {
                    break ;
                },
            }
        }
        arguments
    }

    /// The primary expression that starts at the reader.
    fn parse_primary_expression(&mut self) -> (expr: ASTExpression)
        requires
            old(self).wf(),
        ensures
            final(self).wf(),
            expr@ == parse_primary(old(self).tokens(), old(self).position()).value,
            final(self).follows(
                old(self),
                parse_primary(old(self).tokens(), old(self).position()),
            ),
        decreases old(self).tokens().len() - old(self).position(), 1nat,
    {
        let ghost tokens = self.tokens();
        let ghost pos = self.position();
        let ghost before = self.findings();
        let token = self.current().clone();
        match &token.kind {
            TokenKind::Number(number) => {
                self.consume();
                assert(self.findings() =~= before + Seq::<DiagnosticView>::empty());
                ASTExpression::number(*number)
            },
            TokenKind::LeftParen => {
                self.consume();
                let expr = self.parse_binary_expression(0);
                proof {
                    lemma_parse_binary(tokens, pos + 1, 0);
                }
                self.consume();
                expr
            },
            TokenKind::Identifier(name) => {
                let is_call = match &self.peek(1).kind {
                    TokenKind::LeftParen => true,
                    _ => false,
                };
                if is_call {
                    self.consume();
                    self.consume();
                    let no_arguments = match &self.current().kind {
                        TokenKind::RightParen => true,
                        _ => false,
                    };
                    if no_arguments {
                        self.consume();
                        assert(self.findings() =~= before + Seq::<DiagnosticView>::empty());
                        ASTExpression::function_call(name.clone(), Vec::new())
                    } else {
                        let arguments = self.parse_arguments();
                        ASTExpression::function_call(name.clone(), arguments)
                    }
                } else {
                    self.consume();
                    assert(self.findings() =~= before + Seq::<DiagnosticView>::empty());
                    ASTExpression::variable(name.clone())
                }
            },
            _ => {
                self.diagnostics_bag.report_expected_expression(&token);
                self.consume();
                assert(self.findings() =~= before + parse_primary(tokens, pos).diagnostics);
                ASTExpression::error(token.span.clone())
            },
        }
    }

    /// The token `offset` places on, the last token standing for all that
    /// would follow it.
    fn peek(&self, offset: usize) -> (token: &Token)
        requires
            self.wf(),
        ensures
            token@ == peek(self.tokens(), self.position(), offset as nat),
    {
        let last = self.tokens.len() - 1;
        let index = if offset > last - self.current.count() {
            last
        } else {
            self.current.count() + offset
        };
        &self.tokens[index]
    }

    /// The token at the reader.
    fn current(&self) -> (token: &Token)
        requires
            self.wf(),
        ensures
            token@ == peek(self.tokens(), self.position(), 0),
            token@ == self.tokens()[self.position() as int],
    {
        self.peek(0)
    }

    /// Steps over the token at the reader and hands it out. On the last token
    /// the reader stays.
    fn consume(&mut self) -> (token: Token)
        requires
            old(self).wf(),
        ensures
            final(self).wf(),
            final(self).tokens() == old(self).tokens(),
            final(self).findings() == old(self).findings(),
            final(self).position() == advance(old(self).tokens(), old(self).position()),
            token@ == peek(old(self).tokens(), old(self).position(), 0),
    {
        let token = self.current().clone();
        let count = self.current.count();
        let length = self.tokens.len();
        assert(self.tokens().len() == length);
        if count + 1 < length {
            self.current.increment();
        }
        token
    }

    /// Steps over the token at the reader, with a finding where it is not of
    /// the kind `kind`.
    fn consume_and_check(&mut self, kind: TokenKind) -> (token: Token)
        requires
            old(self).wf(),
        ensures
            final(self).wf(),
            final(self).tokens() == old(self).tokens(),
            final(self).position() == advance(old(self).tokens(), old(self).position()),
            final(self).findings() == old(self).findings() + expected_diagnostics(
                kind@,
                peek(old(self).tokens(), old(self).position(), 0),
            ),
            token@ == peek(old(self).tokens(), old(self).position(), 0),
    {
        let token = self.consume();
        if !token.kind.same_as(&kind) {
            self.diagnostics_bag.report_unexpected_token(&kind, &token);
            assert(self.findings() =~= old(self).findings() + expected_diagnostics(kind@, token@));
        } else {
            assert(self.findings() =~= old(self).findings() + Seq::<DiagnosticView>::empty());
        }
        token
    }
}

} // verus!
