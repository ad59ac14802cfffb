//! The tokenizer: from source text to spanned tokens.
//!
//! Offsets count characters of the source. The grammar is made of ASCII
//! characters only, and in ASCII text a character offset is a byte offset
//! (`lemma_ascii_offset_is_byte_offset`).

use vstd::prelude::*;
use vstd::string::*;
use vstd::wrapping::i64_specs;
use crate::text::{decimal_digit, decimal_text, number_text, number_to_string};

verus! {

/// The type keywords of the language.
#[derive(Debug, PartialEq, Eq, Clone, Copy, Structural)]
pub enum VartypeKind {
    Int,
    Float,
    Double,
}

/// What a token is. `Number` carries the decoded value of the literal,
/// `Identifier` the name as written.
#[derive(Debug, PartialEq)]
pub enum TokenKind {
    Number(i64),
    Plus,
    Minus,
    Asterisk,
    Slash,
    LeftParen,
    RightParen,
    LeftBrace,
    RightBrace,
    Equal,
    Comma,
    SemiColon,
    WhiteSpace,
    Eof,
    Bad,
    Return,
    Identifier(String),
    VarType(VartypeKind),
}

/// The mathematical value of a [`TokenKind`]: the same variants, with the
/// identifier's name as a sequence of characters.
pub enum TokenKindView {
    Number(i64),
    Plus,
    Minus,
    Asterisk,
    Slash,
    LeftParen,
    RightParen,
    LeftBrace,
    RightBrace,
    Equal,
    Comma,
    SemiColon,
    WhiteSpace,
    Eof,
    Bad,
    Return,
    Identifier(Seq<char>),
    VarType(VartypeKind),
}

impl View for TokenKind {
    type V = TokenKindView;

    open spec fn view(&self) -> TokenKindView {
        match *self {
            TokenKind::Number(n) => TokenKindView::Number(n),
            TokenKind::Plus => TokenKindView::Plus,
            TokenKind::Minus => TokenKindView::Minus,
            TokenKind::Asterisk => TokenKindView::Asterisk,
            TokenKind::Slash => TokenKindView::Slash,
            TokenKind::LeftParen => TokenKindView::LeftParen,
            TokenKind::RightParen => TokenKindView::RightParen,
            TokenKind::LeftBrace => TokenKindView::LeftBrace,
            TokenKind::RightBrace => TokenKindView::RightBrace,
            TokenKind::Equal => TokenKindView::Equal,
            TokenKind::Comma => TokenKindView::Comma,
            TokenKind::SemiColon => TokenKindView::SemiColon,
            TokenKind::WhiteSpace => TokenKindView::WhiteSpace,
            TokenKind::Eof => TokenKindView::Eof,
            TokenKind::Bad => TokenKindView::Bad,
            TokenKind::Return => TokenKindView::Return,
            TokenKind::Identifier(name) => TokenKindView::Identifier(name@),
            TokenKind::VarType(kind) => TokenKindView::VarType(kind),
        }
    }
}

impl Clone for TokenKind {
    fn clone(&self) -> (copy: Self)
        ensures
            copy == *self,
    {
        match self {
            TokenKind::Number(n) => TokenKind::Number(*n),
            TokenKind::Plus => TokenKind::Plus,
            TokenKind::Minus => TokenKind::Minus,
            TokenKind::Asterisk => TokenKind::Asterisk,
            TokenKind::Slash => TokenKind::Slash,
            TokenKind::LeftParen => TokenKind::LeftParen,
            TokenKind::RightParen => TokenKind::RightParen,
            TokenKind::LeftBrace => TokenKind::LeftBrace,
            TokenKind::RightBrace => TokenKind::RightBrace,
            TokenKind::Equal => TokenKind::Equal,
            TokenKind::Comma => TokenKind::Comma,
            TokenKind::SemiColon => TokenKind::SemiColon,
            TokenKind::WhiteSpace => TokenKind::WhiteSpace,
            TokenKind::Eof => TokenKind::Eof,
            TokenKind::Bad => TokenKind::Bad,
            TokenKind::Return => TokenKind::Return,
            TokenKind::Identifier(name) => TokenKind::Identifier(name.clone()),
            TokenKind::VarType(kind) => TokenKind::VarType(*kind),
        }
    }
}

impl VartypeKind {
    /// The keyword of the type.
    pub open spec fn text(self) -> Seq<char> {
        match self {
            VartypeKind::Int => "int"@,
            VartypeKind::Float => "float"@,
            VartypeKind::Double => "double"@,
        }
    }

    /// The keyword of the type.
    pub fn to_text(&self) -> (text: String)
        ensures
            text@ == self.text(),
    {
        match self {
            VartypeKind::Int => String::from_str("int"),
            VartypeKind::Float => String::from_str("float"),
            VartypeKind::Double => String::from_str("double"),
        }
    }
}

/// The text that shows a token kind to a reader: its name, with the value of
/// a number in parentheses and the name of an identifier behind a colon; of
/// a type keyword the keyword itself.
pub open spec fn token_kind_text(kind: TokenKindView) -> Seq<char> {
    match kind {
        TokenKindView::Number(number) => "Number("@ + number_text(number) + ")"@,
        TokenKindView::Plus => "Plus"@,
        TokenKindView::Minus => "Minus"@,
        TokenKindView::Asterisk => "Asterisk"@,
        TokenKindView::Slash => "Slash"@,
        TokenKindView::LeftParen => "LeftParen"@,
        TokenKindView::RightParen => "RightParen"@,
        TokenKindView::LeftBrace => "LeftBrace"@,
        TokenKindView::RightBrace => "RightBrace"@,
        TokenKindView::Equal => "Equal"@,
        TokenKindView::Comma => "Comma"@,
        TokenKindView::SemiColon => "SemiColon"@,
        TokenKindView::WhiteSpace => "WhiteSpace"@,
        TokenKindView::Eof => "Eof"@,
        TokenKindView::Bad => "Bad"@,
        TokenKindView::Return => "Return"@,
        TokenKindView::Identifier(name) => "Identifier:"@ + name,
        TokenKindView::VarType(vartype) => vartype.text(),
    }
}

impl TokenKind {
    /// The text that shows the kind to a reader.
    pub fn to_text(&self) -> (text: String)
        ensures
            text@ == token_kind_text(self@),
    {
        match self {
            TokenKind::Number(number) => {
                let mut text = String::from_str("Number(");
                text.append(number_to_string(*number).as_str());
                text.append(")");
                text
            },
            TokenKind::Plus => String::from_str("Plus"),
            TokenKind::Minus => String::from_str("Minus"),
            TokenKind::Asterisk => String::from_str("Asterisk"),
            TokenKind::Slash => String::from_str("Slash"),
            TokenKind::LeftParen => String::from_str("LeftParen"),
            TokenKind::RightParen => String::from_str("RightParen"),
            TokenKind::LeftBrace => String::from_str("LeftBrace"),
            TokenKind::RightBrace => String::from_str("RightBrace"),
            TokenKind::Equal => String::from_str("Equal"),
            TokenKind::Comma => String::from_str("Comma"),
            TokenKind::SemiColon => String::from_str("SemiColon"),
            TokenKind::WhiteSpace => String::from_str("WhiteSpace"),
            TokenKind::Eof => String::from_str("Eof"),
            TokenKind::Bad => String::from_str("Bad"),
            TokenKind::Return => String::from_str("Return"),
            TokenKind::Identifier(name) => {
                let mut text = String::from_str("Identifier:");
                text.append(name.as_str());
                text
            },
            TokenKind::VarType(vartype) => vartype.to_text(),
        }
    }

    /// Whether the two kinds are the same, names and values included.
    pub fn same_as(&self, other: &TokenKind) -> (same: bool)
        ensures
            same == (self@ == other@),
    {
        match (self, other) {
            (TokenKind::Number(a), TokenKind::Number(b)) => *a == *b,
            (TokenKind::Plus, TokenKind::Plus) => true,
            (TokenKind::Minus, TokenKind::Minus) => true,
            (TokenKind::Asterisk, TokenKind::Asterisk) => true,
            (TokenKind::Slash, TokenKind::Slash) => true,
            (TokenKind::LeftParen, TokenKind::LeftParen) => true,
            (TokenKind::RightParen, TokenKind::RightParen) => true,
            (TokenKind::LeftBrace, TokenKind::LeftBrace) => true,
            (TokenKind::RightBrace, TokenKind::RightBrace) => true,
            (TokenKind::Equal, TokenKind::Equal) => true,
            (TokenKind::Comma, TokenKind::Comma) => true,
            (TokenKind::SemiColon, TokenKind::SemiColon) => true,
            (TokenKind::WhiteSpace, TokenKind::WhiteSpace) => true,
            (TokenKind::Eof, TokenKind::Eof) => true,
            (TokenKind::Bad, TokenKind::Bad) => true,
            (TokenKind::Return, TokenKind::Return) => true,
            (TokenKind::Identifier(a), TokenKind::Identifier(b)) => *a == *b,
            (TokenKind::VarType(a), TokenKind::VarType(b)) => *a == *b,
            _ => false,
        }
    }
}

/// A half-open range of the source, with the text it covers.
#[derive(Debug, PartialEq)]
pub struct TextSpan {
    pub start: usize,
    pub end: usize,
    pub literal: String,
}

/// The mathematical value of a [`TextSpan`].
pub struct TextSpanView {
    pub start: nat,
    pub end: nat,
    pub literal: Seq<char>,
}

impl View for TextSpan {
    type V = TextSpanView;

    open spec fn view(&self) -> TextSpanView {
        TextSpanView { start: self.start as nat, end: self.end as nat, literal: self.literal@ }
    }
}

impl Clone for TextSpan {
    fn clone(&self) -> (copy: Self)
        ensures
            copy == *self,
    {
        TextSpan { start: self.start, end: self.end, literal: self.literal.clone() }
    }
}

impl TextSpan {
    /// The span from `start` to `end` that covers the text `literal`.
    pub fn new(start: usize, end: usize, literal: String) -> (span: Self)
        ensures
            span.start == start,
            span.end == end,
            span.literal == literal,
    {
        Self { start, end, literal }
    }

    /// The number of characters between the two ends.
    pub fn length(&self) -> (length: usize)
        requires
            self.start <= self.end,
        ensures
            length == self.end - self.start,
    {
        self.end - self.start
    }
}

/// A token: what it is and where it stood.
#[derive(Debug, PartialEq)]
pub struct Token {
    pub kind: TokenKind,
    pub span: TextSpan,
}

/// The mathematical value of a [`Token`].
pub struct TokenView {
    pub kind: TokenKindView,
    pub span: TextSpanView,
}

impl View for Token {
    type V = TokenView;

    open spec fn view(&self) -> TokenView {
        TokenView { kind: self.kind@, span: self.span@ }
    }
}

impl Clone for Token {
    fn clone(&self) -> (copy: Self)
        ensures
            copy == *self,
    {
        Token { kind: self.kind.clone(), span: self.span.clone() }
    }
}

impl Token {
    /// The token of the given kind at `span`.
    pub fn new(kind: TokenKind, span: TextSpan) -> (token: Self)
        ensures
            token.kind == kind,
            token.span == span,
    {
        Self { kind, span }
    }
}

/// Whether `c` has the Unicode property Alphabetic, as `char::is_alphabetic`
/// reports it.
pub uninterp spec fn char_is_alphabetic(c: char) -> bool;

/// Whether `c` is alphabetic or numeric in Unicode's sense, as
/// `char::is_alphanumeric` reports it.
pub uninterp spec fn char_is_alphanumeric(c: char) -> bool;

/// Whether `c` has the Unicode property White_Space, as `char::is_whitespace`
/// reports it.
pub uninterp spec fn char_is_whitespace(c: char) -> bool;

/// The value of `c` as a digit in `radix` (at most 36): `0`-`9` count from
/// zero, letters of either case from ten.
pub open spec fn digit_of(c: char, radix: int) -> Option<int> {
    let value: int = if '0' <= c <= '9' {
        c as int - '0' as int
    } else if 'a' <= c <= 'z' {
        c as int - 'a' as int + 10
    } else if 'A' <= c <= 'Z' {
        c as int - 'A' as int + 10
    } else {
        36
    };
    if value < radix {
        Some(value)
    } else {
        None
    }
}

/// The classes of characters that a token is a greedy run of.
pub enum CharClass {
    Digit(int),
    Alphanumeric,
    WhiteSpace,
}

/// Whether `c` is of the class `class`.
pub open spec fn in_class(c: char, class: CharClass) -> bool {
    match class {
        CharClass::Digit(radix) => digit_of(c, radix) is Some,
        CharClass::Alphanumeric => char_is_alphanumeric(c),
        CharClass::WhiteSpace => char_is_whitespace(c),
    }
}

/// Where the longest run of characters of `class` that starts at `pos` ends.
pub open spec fn run_end(source: Seq<char>, pos: int, class: CharClass) -> int
    decreases source.len() - pos,
{
    if 0 <= pos < source.len() && in_class(source[pos], class) {
        run_end(source, pos + 1, class)
    } else {
        pos
    }
}

/// The value of a digit string in `radix`, accumulated from the left as
/// `value * radix + digit` in wrapping 64-bit arithmetic.
pub open spec fn digits_value(digits: Seq<char>, radix: int) -> i64
    decreases digits.len(),
{
    if digits.len() == 0 {
        0
    } else {
        let digit = digit_of(digits.last(), radix);
        i64_specs::wrapping_add(
            i64_specs::wrapping_mul(digits_value(digits.drop_last(), radix), radix as i64),
            digit.unwrap_or(0) as i64,
        )
    }
}

/// The value of a digit string in `radix` as an unbounded integer.
pub open spec fn digits_number(digits: Seq<char>, radix: int) -> int
    decreases digits.len(),
{
    if digits.len() == 0 {
        0
    } else {
        digits_number(digits.drop_last(), radix) * radix + digit_of(digits.last(), radix).unwrap_or(
            0,
        )
    }
}

/// A token's kind and the offset just behind it.
pub struct Scanned {
    pub kind: TokenKindView,
    pub end: int,
}

/// The number literal that starts at `pos`: `0x` and hexadecimal digits, `0`
/// and octal digits, or decimal digits.
pub open spec fn scan_number(source: Seq<char>, pos: int) -> Scanned {
    if source[pos] == '0' {
        if pos + 1 < source.len() && source[pos + 1] == 'x' {
            let end = run_end(source, pos + 2, CharClass::Digit(16));
            Scanned {
                kind: TokenKindView::Number(digits_value(source.subrange(pos + 2, end), 16)),
                end,
            }
        } else {
            let end = run_end(source, pos + 1, CharClass::Digit(8));
            Scanned {
                kind: TokenKindView::Number(digits_value(source.subrange(pos + 1, end), 8)),
                end,
            }
        }
    } else {
        let end = run_end(source, pos, CharClass::Digit(10));
        Scanned { kind: TokenKindView::Number(digits_value(source.subrange(pos, end), 10)), end }
    }
}

/// The kind of a word: a keyword of the language or an identifier.
pub open spec fn word_kind(word: Seq<char>) -> TokenKindView {
    if word == "int"@ {
        TokenKindView::VarType(VartypeKind::Int)
    } else if word == "float"@ {
        TokenKindView::VarType(VartypeKind::Float)
    } else if word == "double"@ {
        TokenKindView::VarType(VartypeKind::Double)
    } else if word == "return"@ {
        TokenKindView::Return
    } else {
        TokenKindView::Identifier(word)
    }
}

/// The kind of a single character that starts no number, word or blank.
pub open spec fn punctuation_kind(c: char) -> TokenKindView {
    if c == '+' {
        TokenKindView::Plus
    } else if c == '-' {
        TokenKindView::Minus
    } else if c == '*' {
        TokenKindView::Asterisk
    } else if c == '/' {
        TokenKindView::Slash
    } else if c == '(' {
        TokenKindView::LeftParen
    } else if c == ')' {
        TokenKindView::RightParen
    } else if c == '{' {
        TokenKindView::LeftBrace
    } else if c == '}' {
        TokenKindView::RightBrace
    } else if c == '=' {
        TokenKindView::Equal
    } else if c == ';' {
        TokenKindView::SemiColon
    } else if c == ',' {
        TokenKindView::Comma
    } else {
        TokenKindView::Bad
    }
}

/// The token that starts at `pos`, for `pos` inside the source: a number where
/// a decimal digit stands, else a run of blanks, else a word where a letter
/// stands, else one character of punctuation.
pub open spec fn scan(source: Seq<char>, pos: int) -> Scanned {
    let c = source[pos];
    if digit_of(c, 10) is Some {
        scan_number(source, pos)
    } else if char_is_whitespace(c) {
        Scanned {
            kind: TokenKindView::WhiteSpace,
            end: run_end(source, pos + 1, CharClass::WhiteSpace),
        }
    } else if char_is_alphabetic(c) {
        let end = run_end(source, pos + 1, CharClass::Alphanumeric);
        Scanned { kind: word_kind(source.subrange(pos, end)), end }
    } else {
        Scanned { kind: punctuation_kind(c), end: pos + 1 }
    }
}

/// The token at `pos`: the scanned token with the text it covers, or the end
/// marker, an empty span behind the last character.
pub open spec fn token_at(source: Seq<char>, pos: int) -> TokenView {
    if 0 <= pos < source.len() {
        let scanned = scan(source, pos);
        TokenView {
            kind: scanned.kind,
            span: TextSpanView {
                start: pos as nat,
                end: scanned.end as nat,
                literal: source.subrange(pos, scanned.end),
            },
        }
    } else {
        TokenView {
            kind: TokenKindView::Eof,
            span: TextSpanView {
                start: source.len(),
                end: source.len(),
                literal: Seq::empty(),
            },
        }
    }
}

/// The tokens from `pos` to the end of the source, the end marker last.
pub open spec fn tokens_from(source: Seq<char>, pos: int) -> Seq<TokenView>
    decreases source.len() - pos,
    when 0 <= pos
    via tokens_from_decreases
{
    if pos < source.len() {
        seq![token_at(source, pos)] + tokens_from(source, scan(source, pos).end)
    } else {
        seq![token_at(source, pos)]
    }
}

#[via_fn]
proof fn tokens_from_decreases(source: Seq<char>, pos: int) {
    if pos < source.len() {
        lemma_scan_advances(source, pos);
    }
}

/// The mathematical values of the tokens of a sequence.
pub open spec fn token_views(tokens: Seq<Token>) -> Seq<TokenView> {
    tokens.map_values(|token: Token| token@)
}

/// A run ends at or behind its start, inside the source, on a character that
/// is not of the class; every character before it is.
pub proof fn lemma_run_end(source: Seq<char>, pos: int, class: CharClass)
    requires
        0 <= pos <= source.len(),
    ensures
        pos <= run_end(source, pos, class) <= source.len(),
        forall|i: int| pos <= i < run_end(source, pos, class) ==> in_class(source[i], class),
        run_end(source, pos, class) < source.len() ==> !in_class(
            source[run_end(source, pos, class)],
            class,
        ),
    decreases source.len() - pos,
{
    if pos < source.len() && in_class(source[pos], class) {
        lemma_run_end(source, pos + 1, class);
    }
}

/// Every token inside the source covers at least one character and ends
/// inside the source.
pub proof fn lemma_scan_advances(source: Seq<char>, pos: int)
    requires
        0 <= pos < source.len(),
    ensures
        pos < scan(source, pos).end <= source.len(),
{
    lemma_run_end(source, pos + 1, CharClass::Digit(10));
    lemma_run_end(source, pos + 1, CharClass::Digit(8));
    lemma_run_end(source, pos + 1, CharClass::WhiteSpace);
    lemma_run_end(source, pos + 1, CharClass::Alphanumeric);
    if pos + 1 < source.len() {
        lemma_run_end(source, pos + 2, CharClass::Digit(16));
    }
}

/// The tokens of a source text follow one another without a gap, from the
/// start to the end of the text, and the end marker is the last of them and
/// no other.
pub proof fn lemma_tokens_from(source: Seq<char>, pos: int)
    requires
        0 <= pos <= source.len(),
    ensures
        tokens_from(source, pos).len() > 0,
        tokens_from(source, pos)[0].span.start == pos,
        tokens_from(source, pos).last() == token_at(source, source.len() as int),
        tokens_from(source, pos).last().kind is Eof,
        forall|i: int|
            0 <= i < tokens_from(source, pos).len() - 1 ==> !((#[trigger] tokens_from(
                source,
                pos,
            )[i]).kind is Eof),
        forall|i: int|
            0 <= i < tokens_from(source, pos).len() ==> pos <= (#[trigger] tokens_from(
                source,
                pos,
            )[i]).span.start <= tokens_from(source, pos)[i].span.end <= source.len(),
        forall|i: int|
            0 <= i < tokens_from(source, pos).len() - 1 ==> (#[trigger] tokens_from(
                source,
                pos,
            )[i]).span.end == tokens_from(source, pos)[i + 1].span.start,
    decreases source.len() - pos,
{
    if pos < source.len() {
        lemma_scan_advances(source, pos);
        let next = scan(source, pos).end;
        lemma_tokens_from(source, next);
        let rest = tokens_from(source, next);
        let all = tokens_from(source, pos);
        assert(all == seq![token_at(source, pos)] + rest);
        assert(all[0] == token_at(source, pos));
        assert forall|i: int| 1 <= i < all.len() implies all[i] == rest[i - 1] by {}
        assert(all.last() == rest.last());
        assert forall|i: int| 0 <= i < all.len() - 1 implies !((#[trigger] all[i]).kind is Eof) by {
            if i > 0 {
                assert(all[i] == rest[i - 1]);
            }
        }
        assert forall|i: int| 0 <= i < all.len() implies pos <= (#[trigger] all[i]).span.start
            <= all[i].span.end <= source.len() by {
            if i > 0 {
                assert(all[i] == rest[i - 1]);
            }
        }
        assert forall|i: int| 0 <= i < all.len() - 1 implies (#[trigger] all[i]).span.end == all[i
            + 1].span.start by {
            assert(all[i + 1] == rest[i]);
            if i > 0 {
                assert(all[i] == rest[i - 1]);
            }
        }
    }
}

/// A cursor over a source text that hands out its tokens one by one.
pub struct Lexer<'a> {
    input: &'a str,
    length: usize,
    current_pos: usize,
    finished: bool,
}

impl<'a> Lexer<'a> {
    /// The characters of the source.
    pub closed spec fn source(&self) -> Seq<char> {
        self.input@
    }

    /// The offset of the next token.
    pub closed spec fn position(&self) -> nat {
        self.current_pos as nat
    }

    /// Whether the end marker has been handed out.
    pub closed spec fn finished(&self) -> bool {
        self.finished
    }

    /// The cursor stands inside the source or at its end, and the end marker
    /// is handed out only there.
    pub closed spec fn wf(&self) -> bool {
        &&& self.length == self.input@.len()
        &&& self.current_pos <= self.length
        &&& self.finished ==> self.current_pos == self.length
    }

    /// A cursor at the start of `input`.
    pub fn new(input: &'a str) -> (lexer: Self)
        ensures
            lexer.wf(),
            lexer.source() == input@,
            lexer.position() == 0,
            !lexer.finished(),
    {
        Self { input, length: input.unicode_len(), current_pos: 0, finished: false }
    }

    /// The kind of a word: a keyword or an identifier.
    fn get_token_kind(&self, input: &String) -> (kind: TokenKind)
        ensures
            kind@ == word_kind(input@),
    {
        let int_word = String::from_str("int");
        let float_word = String::from_str("float");
        let double_word = String::from_str("double");
        let return_word = String::from_str("return");
        if *input == int_word {
            TokenKind::VarType(VartypeKind::Int)
        } else if *input == float_word {
            TokenKind::VarType(VartypeKind::Float)
        } else if *input == double_word {
            TokenKind::VarType(VartypeKind::Double)
        } else if *input == return_word {
            TokenKind::Return
        } else {
            TokenKind::Identifier(input.clone())
        }
    }

    /// Hands out the next token and moves behind it. At the end of the source
    /// the end marker comes once, and nothing after it.
    pub fn next_token(&mut self) -> (token: Option<Token>)
        requires
            old(self).wf(),
        ensures
            final(self).wf(),
            final(self).source() == old(self).source(),
            old(self).finished() ==> token is None && *final(self) == *old(self),
            !old(self).finished() ==> token is Some && token.unwrap()@ == token_at(
                old(self).source(),
                old(self).position() as int,
            ),
            !old(self).finished() && old(self).position() < old(self).source().len() ==> {
                &&& !final(self).finished()
                &&& final(self).position() == scan(
                    old(self).source(),
                    old(self).position() as int,
                ).end
            },
            !old(self).finished() && old(self).position() >= old(self).source().len() ==> {
                &&& final(self).finished()
                &&& final(self).position() == old(self).position()
            },
    {
        if self.finished {
            return None;
        }
        if self.current_pos == self.length {
            self.finished = true;
            return Some(
                Token::new(TokenKind::Eof, TextSpan::new(self.length, self.length, String::new())),
            );
        }
        let c = self.input.get_char(self.current_pos);
        let start = self.current_pos;
        let kind;
        if Self::is_number_start(&c) {
            let number = self.consumer_number();
            kind = TokenKind::Number(number);
        } else if Self::is_whitespace(&c) {
            self.consumer_whitespace();
            kind = TokenKind::WhiteSpace;
        } else if Self::is_character_start(&c) {
            let literal = self.consumer_literals();
            kind = self.get_token_kind(&literal);
        } else {
            kind = self.consumer_punctuation();
        }
        let end = self.current_pos;
        proof {
            lemma_scan_advances(self.input@, start as int);
        }
        let literal = self.input.substring_char(start, end).to_owned();
        let span = TextSpan::new(start, end, literal);
        Some(Token::new(kind, span))
    }

    /// Steps over the current character and hands it out.
    fn consume(&mut self) -> (c: Option<char>)
        requires
            old(self).wf(),
        ensures
            final(self).wf(),
            final(self).input == old(self).input,
            final(self).finished == old(self).finished,
            old(self).current_pos < old(self).length ==> c == Some(
                old(self).input@[old(self).current_pos as int],
            ) && final(self).current_pos == old(self).current_pos + 1,
            old(self).current_pos >= old(self).length ==> c is None && final(self).current_pos
                == old(self).current_pos,
    {
        if self.current_pos >= self.length {
            return None;
        }
        let c = self.current_char();
        self.current_pos += 1;
        c
    }

    /// Steps over one character and hands out its kind as punctuation.
    fn consumer_punctuation(&mut self) -> (kind: TokenKind)
        requires
            old(self).wf(),
            old(self).current_pos < old(self).length,
        ensures
            final(self).wf(),
            final(self).input == old(self).input,
            final(self).finished == old(self).finished,
            final(self).current_pos == old(self).current_pos + 1,
            kind@ == punctuation_kind(old(self).input@[old(self).current_pos as int]),
    {
        let c = self.consume();
        match c {
            Some('+') => TokenKind::Plus,
            Some('-') => TokenKind::Minus,
            Some('*') => TokenKind::Asterisk,
            Some('/') => TokenKind::Slash,
            Some('(') => TokenKind::LeftParen,
            Some(')') => TokenKind::RightParen,
            Some('{') => TokenKind::LeftBrace,
            Some('}') => TokenKind::RightBrace,
            Some('=') => TokenKind::Equal,
            Some(';') => TokenKind::SemiColon,
            Some(',') => TokenKind::Comma,
            _ => TokenKind::Bad,
        }
    }

    /// Steps over the digits of `radix` that stand at the cursor and hands out
    /// their value.
    fn consumer_number_radix(&mut self, radix: u32) -> (number: i64)
        requires
            old(self).wf(),
            radix == 8 || radix == 10 || radix == 16,
        ensures
            final(self).wf(),
            final(self).input == old(self).input,
            final(self).finished == old(self).finished,
            final(self).current_pos == run_end(
                old(self).input@,
                old(self).current_pos as int,
                CharClass::Digit(radix as int),
            ),
            number == digits_value(
                old(self).input@.subrange(
                    old(self).current_pos as int,
                    final(self).current_pos as int,
                ),
                radix as int,
            ),
    {
        let ghost source = self.input@;
        let ghost start = self.current_pos as int;
        let ghost class = CharClass::Digit(radix as int);
        let mut number: i64 = 0;
        assert(source.subrange(start, start) =~= Seq::<char>::empty());
        loop
            invariant
                self.wf(),
                self.input == old(self).input,
                self.finished == old(self).finished,
                self.input@ == source,
                start == old(self).current_pos,
                class == CharClass::Digit(radix as int),
                radix == 8 || radix == 10 || radix == 16,
                start <= self.current_pos,
                run_end(source, start, class) == run_end(source, self.current_pos as int, class),
                number == digits_value(source.subrange(start, self.current_pos as int), radix as int),
            ensures
                self.current_pos == run_end(source, start, class),
            decreases self.length - self.current_pos,
        {
            let digit = match self.current_char() {
                Some(c) => Self::to_digit(c, radix),
                None => None,
            };
            match digit {
                Some(d) => {
                    let ghost before = source.subrange(start, self.current_pos as int);
                    let ghost after = source.subrange(start, self.current_pos as int + 1);
                    assert(after.drop_last() =~= before);
                    assert(after.last() == source[self.current_pos as int]);
                    self.consume();
                    number = number.wrapping_mul(radix as i64).wrapping_add(d as i64);
                },
                None => {
                    break ;
                },
            }
        }
        number
    }

    /// Steps over decimal digits and hands out their value.
    fn consumer_number_radix_10(&mut self) -> (number: i64)
        requires
            old(self).wf(),
        ensures
            final(self).wf(),
            final(self).input == old(self).input,
            final(self).finished == old(self).finished,
            final(self).current_pos == run_end(
                old(self).input@,
                old(self).current_pos as int,
                CharClass::Digit(10),
            ),
            number == digits_value(
                old(self).input@.subrange(
                    old(self).current_pos as int,
                    final(self).current_pos as int,
                ),
                10,
            ),
    {
        self.consumer_number_radix(10)
    }

    /// Steps over octal digits and hands out their value.
    fn consumer_number_radix_8(&mut self) -> (number: i64)
        requires
            old(self).wf(),
        ensures
            final(self).wf(),
            final(self).input == old(self).input,
            final(self).finished == old(self).finished,
            final(self).current_pos == run_end(
                old(self).input@,
                old(self).current_pos as int,
                CharClass::Digit(8),
            ),
            number == digits_value(
                old(self).input@.subrange(
                    old(self).current_pos as int,
                    final(self).current_pos as int,
                ),
                8,
            ),
    {
        self.consumer_number_radix(8)
    }

    /// Steps over hexadecimal digits and hands out their value.
    fn consumer_number_radix_16(&mut self) -> (number: i64)
        requires
            old(self).wf(),
        ensures
            final(self).wf(),
            final(self).input == old(self).input,
            final(self).finished == old(self).finished,
            final(self).current_pos == run_end(
                old(self).input@,
                old(self).current_pos as int,
                CharClass::Digit(16),
            ),
            number == digits_value(
                old(self).input@.subrange(
                    old(self).current_pos as int,
                    final(self).current_pos as int,
                ),
                16,
            ),
    {
        self.consumer_number_radix(16)
    }

    /// Steps over a number literal and hands out its value.
    fn consumer_number(&mut self) -> (number: i64)
        requires
            old(self).wf(),
            old(self).current_pos < old(self).length,
        ensures
            final(self).wf(),
            final(self).input == old(self).input,
            final(self).finished == old(self).finished,
            final(self).current_pos == scan_number(
                old(self).input@,
                old(self).current_pos as int,
            ).end,
            TokenKindView::Number(number) == scan_number(
                old(self).input@,
                old(self).current_pos as int,
            ).kind,
    {
        if self.current_char() == Some('0') {
            self.consume();
            if self.current_char() == Some('x') {
                self.consume();
                return self.consumer_number_radix_16();
            }
            return self.consumer_number_radix_8();
        }
        self.consumer_number_radix_10()
    }

    /// Steps over a run of blanks.
    fn consumer_whitespace(&mut self)
        requires
            old(self).wf(),
            old(self).current_pos < old(self).length,
        ensures
            final(self).wf(),
            final(self).input == old(self).input,
            final(self).finished == old(self).finished,
            final(self).current_pos == run_end(
                old(self).input@,
                old(self).current_pos + 1,
                CharClass::WhiteSpace,
            ),
    {
        self.consume();
        self.consume_run(false);
    }

    /// Steps over a word and hands it out.
    fn consumer_literals(&mut self) -> (literal: String)
        requires
            old(self).wf(),
            old(self).current_pos < old(self).length,
        ensures
            final(self).wf(),
            final(self).input == old(self).input,
            final(self).finished == old(self).finished,
            final(self).current_pos == run_end(
                old(self).input@,
                old(self).current_pos + 1,
                CharClass::Alphanumeric,
            ),
            literal@ == old(self).input@.subrange(
                old(self).current_pos as int,
                final(self).current_pos as int,
            ),
    {
        let start = self.current_pos;
        self.consume();
        self.consume_run(true);
        proof {
            lemma_run_end(self.input@, start + 1, CharClass::Alphanumeric);
        }
        self.input.substring_char(start, self.current_pos).to_owned()
    }

    /// Steps over the letters and digits, or over the blanks, that stand at
    /// the cursor.
    fn consume_run(&mut self, word: bool)
        requires
            old(self).wf(),
        ensures
            final(self).wf(),
            final(self).input == old(self).input,
            final(self).finished == old(self).finished,
            final(self).current_pos == run_end(
                old(self).input@,
                old(self).current_pos as int,
                if word {
                    CharClass::Alphanumeric
                } else {
                    CharClass::WhiteSpace
                },
            ),
    {
        let ghost source = self.input@;
        let ghost start = self.current_pos as int;
        let ghost class = if word {
            CharClass::Alphanumeric
        } else {
            CharClass::WhiteSpace
        };
        loop
            invariant
                self.wf(),
                self.input == old(self).input,
                self.finished == old(self).finished,
                self.input@ == source,
                class == if word {
                    CharClass::Alphanumeric
                } else {
                    CharClass::WhiteSpace
                },
                run_end(source, start, class) == run_end(source, self.current_pos as int, class),
            ensures
                self.current_pos == run_end(source, start, class),
            decreases self.length - self.current_pos,
        {
            let more = match self.current_char() {
                Some(c) => if word {
                    Self::is_literal(&c)
                } else {
                    Self::is_whitespace(&c)
                },
                None => false,
            };
            if more {
                self.consume();
            } else {
                break ;
            }
        }
    }

    /// The digit that `c` is in `radix`, if it is one.
    fn to_digit(c: char, radix: u32) -> (digit: Option<u32>)
        requires
            radix <= 36,
        ensures
            digit matches Some(d) ==> digit_of(c, radix as int) == Some(d as int),
            digit is None ==> digit_of(c, radix as int) is None,
    {
        let value: u32 = if '0' <= c && c <= '9' {
            c as u32 - '0' as u32
        } else if 'a' <= c && c <= 'z' {
            c as u32 - 'a' as u32 + 10
        } else if 'A' <= c && c <= 'Z' {
            c as u32 - 'A' as u32 + 10
        } else {
            36
        };
        if value < radix {
            Some(value)
        } else {
            None
        }
    }

    /// Whether the character is a decimal digit.
    fn is_number_start(c: &char) -> (start: bool)
        ensures
            start == (digit_of(*c, 10) is Some),
    {
        Self::to_digit(*c, 10).is_some()
    }

    /// `char::is_alphabetic`: whether the character is a letter in Unicode's
    /// sense. The answer is a function of the character alone.
    #[verifier::external_body]
    fn is_character_start(c: &char) -> (start: bool)
        ensures
            start == char_is_alphabetic(*c),
    {
        c.is_alphabetic()
    }

    /// `char::is_alphanumeric`: whether the character is a letter or a number
    /// in Unicode's sense. The answer is a function of the character alone.
    #[verifier::external_body]
    fn is_literal(c: &char) -> (literal: bool)
        ensures
            literal == char_is_alphanumeric(*c),
    {
        c.is_alphanumeric()
    }

    /// `char::is_whitespace`: whether the character is a blank in Unicode's
    /// sense. The answer is a function of the character alone.
    #[verifier::external_body]
    fn is_whitespace(c: &char) -> (blank: bool)
        ensures
            blank == char_is_whitespace(*c),
    {
        c.is_whitespace()
    }

    /// The character at the cursor, if there is one.
    fn current_char(&self) -> (c: Option<char>)
        requires
            self.wf(),
        ensures
            self.current_pos < self.length ==> c == Some(self.input@[self.current_pos as int]),
            self.current_pos >= self.length ==> c is None,
    {
        if self.current_pos < self.length {
            Some(self.input.get_char(self.current_pos))
        } else {
            None
        }
    }
}

/// All tokens of a source text, the end marker last.
pub fn tokenize(input: &str) -> (tokens: Vec<Token>)
    ensures
        token_views(tokens@) == tokens_from(input@, 0),
        tokens@.len() > 0,
        tokens@.last().kind is Eof,
{
    let mut lexer = Lexer::new(input);
    let mut tokens: Vec<Token> = Vec::new();
    let ghost source = input@;
    assert(token_views(tokens@) + tokens_from(source, 0) =~= tokens_from(source, 0));
    loop
        invariant_except_break
            lexer.wf(),
            lexer.source() == source,
            !lexer.finished(),
            lexer.position() <= source.len(),
            tokens_from(source, 0) == token_views(tokens@) + tokens_from(
                source,
                lexer.position() as int,
            ),
        ensures
            token_views(tokens@) == tokens_from(source, 0),
        decreases source.len() - lexer.position(),
    {
        let ghost pos = lexer.position() as int;
        let ghost before = token_views(tokens@);
        match lexer.next_token() {
            Some(token) => {
                tokens.push(token);
                proof {
                    assert(token_views(tokens@) =~= before.push(token@));
                    if pos < source.len() {
                        lemma_scan_advances(source, pos);
                        assert(tokens_from(source, 0) =~= token_views(tokens@) + tokens_from(
                            source,
                            lexer.position() as int,
                        ));
                    } else {
                        assert(tokens_from(source, 0) =~= token_views(tokens@));
                    }
                }
                if lexer.finished {
                    break ;
                }
            },
            None => {
                break ;
            },
        }
    }
    proof {
        lemma_tokens_from(source, 0);
        assert(tokens@.last()@ == token_views(tokens@).last());
    }
    tokens
}

/// A digit string has no negative number.
pub proof fn lemma_digits_number_natural(digits: Seq<char>, radix: int)
    requires
        0 < radix,
    ensures
        0 <= digits_number(digits, radix),
    decreases digits.len(),
{
    if digits.len() > 0 {
        lemma_digits_number_natural(digits.drop_last(), radix);
        assert(0 <= digits_number(digits.drop_last(), radix) * radix) by (nonlinear_arith)
            requires
                0 <= digits_number(digits.drop_last(), radix),
                0 < radix,
        ;
    }
}

/// The value of a digit string is its number where the number fits in 64
/// bits: nothing wraps around.
pub proof fn lemma_digits_value_fits(digits: Seq<char>, radix: int)
    requires
        2 <= radix <= 36,
        digits_number(digits, radix) <= i64::MAX,
    ensures
        digits_value(digits, radix) == digits_number(digits, radix),
    decreases digits.len(),
{
    if digits.len() > 0 {
        let front = digits_number(digits.drop_last(), radix);
        lemma_digits_number_natural(digits.drop_last(), radix);
        assert(front <= front * radix) by (nonlinear_arith)
            requires
                0 <= front,
                2 <= radix,
        ;
        lemma_digits_value_fits(digits.drop_last(), radix);
        assert(i64_specs::wrapping_mul(front as i64, radix as i64) == front * radix);
    }
}

/// A decimal literal is made of decimal digits and starts with `0` only
/// where it is the literal of zero.
pub proof fn lemma_decimal_text_digits(n: nat)
    ensures
        decimal_text(n).len() > 0,
        forall|i: int|
            0 <= i < decimal_text(n).len() ==> digit_of(#[trigger] decimal_text(n)[i], 10) is Some,
        n > 0 ==> decimal_text(n)[0] != '0',
        n == 0 ==> decimal_text(n) == seq!['0'],
    decreases n,
{
    if n >= 10 {
        lemma_decimal_text_digits(n / 10);
    }
}

/// A run reaches the end of the source where every character from its start
/// on is of the class.
pub proof fn lemma_run_to_end(source: Seq<char>, pos: int, class: CharClass)
    requires
        0 <= pos <= source.len(),
        forall|i: int| pos <= i < source.len() ==> in_class(#[trigger] source[i], class),
    ensures
        run_end(source, pos, class) == source.len(),
    decreases source.len() - pos,
{
    if pos < source.len() {
        lemma_run_to_end(source, pos + 1, class);
    }
}

/// The digits of a decimal literal that fits in 64 bits give its number.
pub proof fn lemma_decimal_text_value(n: nat)
    requires
        n <= i64::MAX,
    ensures
        digits_value(decimal_text(n), 10) == n,
    decreases n,
{
    let text = decimal_text(n);
    if n < 10 {
        assert(text.drop_last() =~= Seq::<char>::empty());
        assert(digits_value(text.drop_last(), 10) == 0);
        assert(digit_of(text.last(), 10) == Some(n as int));
    } else {
        lemma_decimal_text_value(n / 10);
        assert(text.drop_last() =~= decimal_text(n / 10));
        assert(text.last() == decimal_digit(n % 10));
        assert(digit_of(text.last(), 10) == Some((n % 10) as int));
        let front = (n / 10) as i64;
        assert(front * 10 + n % 10 == n);
        assert(i64_specs::wrapping_mul(front, 10) == front * 10);
    }
}

/// Tokenizing the decimal literal of a number that fits in 64 bits gives one
/// number token, which covers the literal and holds the number, and the end
/// marker.
pub proof fn lemma_decimal_literal(n: nat)
    requires
        n <= i64::MAX,
    ensures
        tokens_from(decimal_text(n), 0) == seq![
            TokenView {
                kind: TokenKindView::Number(n as i64),
                span: TextSpanView {
                    start: 0,
                    end: decimal_text(n).len(),
                    literal: decimal_text(n),
                },
            },
            token_at(decimal_text(n), decimal_text(n).len() as int),
        ],
        token_at(decimal_text(n), decimal_text(n).len() as int).kind is Eof,
{
    let text = decimal_text(n);
    let length = text.len() as int;
    lemma_decimal_text_digits(n);
    lemma_decimal_text_value(n);
    if n == 0 {
        assert(run_end(text, 1, CharClass::Digit(8)) == 1);
        assert(text.subrange(1, 1) =~= Seq::<char>::empty());
        assert(digits_value(text.subrange(1, 1), 8) == 0);
    } else {
        assert forall|i: int| 0 <= i < text.len() implies in_class(
            #[trigger] text[i],
            CharClass::Digit(10),
        ) by {
            assert(digit_of(text[i], 10) is Some);
        }
        lemma_run_to_end(text, 0, CharClass::Digit(10));
    }
    assert(scan(text, 0).end == length);
    assert(text.subrange(0, length) =~= text);
    assert(scan(text, 0).kind == TokenKindView::Number(n as i64));
    assert(tokens_from(text, length) == seq![token_at(text, length)]);
    assert(tokens_from(text, 0) == seq![token_at(text, 0)] + tokens_from(text, length));
    assert(seq![token_at(text, 0)] + seq![token_at(text, length)] =~= seq![
        token_at(text, 0),
        token_at(text, length),
    ]);
}

} // verus!
