use minic::ast::lexer::{Lexer, TextSpan, Token, TokenKind, VartypeKind};

fn tokenize(source: &str) -> Vec<Token> {
    let mut lexer = Lexer::new(source);
    let mut tokens = Vec::new();
    while let Some(token) = lexer.next_token() {
        tokens.push(token);
    }
    tokens
}

fn kinds(source: &str) -> Vec<TokenKind> {
    tokenize(source).into_iter().map(|token| token.kind).collect()
}

#[test]
fn octal_literal() {
    assert_eq!(kinds("010"), vec![TokenKind::Number(8), TokenKind::Eof]);
}

#[test]
fn hexadecimal_literal() {
    assert_eq!(kinds("0x10"), vec![TokenKind::Number(16), TokenKind::Eof]);
    assert_eq!(kinds("0xfF"), vec![TokenKind::Number(255), TokenKind::Eof]);
}

#[test]
fn decimal_literal() {
    assert_eq!(kinds("10"), vec![TokenKind::Number(10), TokenKind::Eof]);
}

#[test]
fn decimal_literals_hold_their_number() {
    for n in [0i64, 1, 9, 10, 99, 100, 12345, 1000000007, i64::MAX] {
        let text = n.to_string();
        let tokens = tokenize(&text);
        assert_eq!(tokens.len(), 2);
        assert_eq!(tokens[0].kind, TokenKind::Number(n));
        assert_eq!(tokens[0].span, TextSpan::new(0, text.len(), text.clone()));
        assert_eq!(tokens[1].kind, TokenKind::Eof);
    }
}

#[test]
fn zero_alone_is_a_number() {
    assert_eq!(kinds("0"), vec![TokenKind::Number(0), TokenKind::Eof]);
}

#[test]
fn hexadecimal_prefix_without_digits_is_zero() {
    assert_eq!(kinds("0x"), vec![TokenKind::Number(0), TokenKind::Eof]);
}

#[test]
fn octal_literal_stops_at_a_digit_that_is_not_octal() {
    assert_eq!(kinds("09"), vec![TokenKind::Number(0), TokenKind::Number(9), TokenKind::Eof]);
}

#[test]
fn literal_that_does_not_fit_wraps_around() {
    assert_eq!(kinds("9223372036854775808"), vec![TokenKind::Number(i64::MIN), TokenKind::Eof]);
    assert_eq!(kinds("18446744073709551617"), vec![TokenKind::Number(1), TokenKind::Eof]);
}

#[test]
fn keywords_and_identifiers() {
    assert_eq!(
        kinds("int float double return integer x1"),
        vec![
            TokenKind::VarType(VartypeKind::Int),
            TokenKind::WhiteSpace,
            TokenKind::VarType(VartypeKind::Float),
            TokenKind::WhiteSpace,
            TokenKind::VarType(VartypeKind::Double),
            TokenKind::WhiteSpace,
            TokenKind::Return,
            TokenKind::WhiteSpace,
            TokenKind::Identifier("integer".to_string()),
            TokenKind::WhiteSpace,
            TokenKind::Identifier("x1".to_string()),
            TokenKind::Eof,
        ]
    );
}

#[test]
fn punctuation() {
    assert_eq!(
        kinds("+-*/(){}=;,"),
        vec![
            TokenKind::Plus,
            TokenKind::Minus,
            TokenKind::Asterisk,
            TokenKind::Slash,
            TokenKind::LeftParen,
            TokenKind::RightParen,
            TokenKind::LeftBrace,
            TokenKind::RightBrace,
            TokenKind::Equal,
            TokenKind::SemiColon,
            TokenKind::Comma,
            TokenKind::Eof,
        ]
    );
}

#[test]
fn unknown_characters_are_bad_tokens() {
    assert_eq!(kinds("@#"), vec![TokenKind::Bad, TokenKind::Bad, TokenKind::Eof]);
}

#[test]
fn blanks_are_one_token() {
    let tokens = tokenize("a \t\n b");
    assert_eq!(tokens.len(), 4);
    assert_eq!(tokens[1].kind, TokenKind::WhiteSpace);
    assert_eq!(tokens[1].span, TextSpan::new(1, 5, " \t\n ".to_string()));
    assert_eq!(tokens[2].span, TextSpan::new(5, 6, "b".to_string()));
}

#[test]
fn a_letter_is_no_blank_and_a_blank_no_letter() {
    assert_eq!(kinds(" "), vec![TokenKind::WhiteSpace, TokenKind::Eof]);
    assert_eq!(kinds("a"), vec![TokenKind::Identifier("a".to_string()), TokenKind::Eof]);
    assert_eq!(
        kinds("a+"),
        vec![TokenKind::Identifier("a".to_string()), TokenKind::Plus, TokenKind::Eof]
    );
}

#[test]
fn spans_follow_one_another() {
    let source = "int a = 0x1f + b2;";
    let tokens = tokenize(source);
    let mut position = 0;
    for token in &tokens {
        assert_eq!(token.span.start, position);
        assert!(token.span.start <= token.span.end);
        assert_eq!(token.span.literal, &source[token.span.start..token.span.end]);
        assert_eq!(token.span.length(), token.span.literal.len());
        position = token.span.end;
    }
    assert_eq!(position, source.len());
}

#[test]
fn end_marker_comes_once() {
    let mut lexer = Lexer::new("a");
    assert_eq!(
        lexer.next_token(),
        Some(Token::new(TokenKind::Identifier("a".to_string()), TextSpan::new(0, 1, "a".to_string())))
    );
    assert_eq!(
        lexer.next_token(),
        Some(Token::new(TokenKind::Eof, TextSpan::new(1, 1, String::new())))
    );
    assert_eq!(lexer.next_token(), None);
    assert_eq!(lexer.next_token(), None);
}

#[test]
fn empty_source_is_the_end_marker() {
    let tokens = tokenize("");
    assert_eq!(tokens, vec![Token::new(TokenKind::Eof, TextSpan::new(0, 0, String::new()))]);
}

#[test]
fn letters_beyond_ascii_make_words() {
    let tokens = tokenize("é1 ü");
    assert_eq!(tokens[0].kind, TokenKind::Identifier("é1".to_string()));
    assert_eq!(tokens[0].span, TextSpan::new(0, 2, "é1".to_string()));
    assert_eq!(tokens[1].kind, TokenKind::WhiteSpace);
    assert_eq!(tokens[2].kind, TokenKind::Identifier("ü".to_string()));
    assert_eq!(tokens[3].kind, TokenKind::Eof);
}

#[test]
fn kinds_compare_by_value() {
    assert!(TokenKind::Number(3).same_as(&TokenKind::Number(3)));
    assert!(!TokenKind::Number(3).same_as(&TokenKind::Number(4)));
    assert!(TokenKind::Identifier("a".to_string()).same_as(&TokenKind::Identifier("a".to_string())));
    assert!(!TokenKind::Identifier("a".to_string()).same_as(&TokenKind::Identifier("b".to_string())));
    assert!(!TokenKind::Plus.same_as(&TokenKind::Minus));
    assert!(TokenKind::Eof.same_as(&TokenKind::Eof));
    assert_eq!(TokenKind::Plus.clone(), TokenKind::Plus);
}

#[test]
fn kinds_are_shown_by_name() {
    assert_eq!(TokenKind::Number(8).to_text(), "Number(8)");
    assert_eq!(TokenKind::Number(-8).to_text(), "Number(-8)");
    assert_eq!(TokenKind::Plus.to_text(), "Plus");
    assert_eq!(TokenKind::Minus.to_text(), "Minus");
    assert_eq!(TokenKind::Asterisk.to_text(), "Asterisk");
    assert_eq!(TokenKind::Slash.to_text(), "Slash");
    assert_eq!(TokenKind::LeftParen.to_text(), "LeftParen");
    assert_eq!(TokenKind::RightParen.to_text(), "RightParen");
    assert_eq!(TokenKind::LeftBrace.to_text(), "LeftBrace");
    assert_eq!(TokenKind::RightBrace.to_text(), "RightBrace");
    assert_eq!(TokenKind::Equal.to_text(), "Equal");
    assert_eq!(TokenKind::Comma.to_text(), "Comma");
    assert_eq!(TokenKind::SemiColon.to_text(), "SemiColon");
    assert_eq!(TokenKind::WhiteSpace.to_text(), "WhiteSpace");
    assert_eq!(TokenKind::Eof.to_text(), "Eof");
    assert_eq!(TokenKind::Bad.to_text(), "Bad");
    assert_eq!(TokenKind::Return.to_text(), "Return");
    assert_eq!(TokenKind::Identifier("abc".to_string()).to_text(), "Identifier:abc");
    assert_eq!(TokenKind::VarType(VartypeKind::Int).to_text(), "int");
    assert_eq!(TokenKind::VarType(VartypeKind::Float).to_text(), "float");
    assert_eq!(TokenKind::VarType(VartypeKind::Double).to_text(), "double");
    assert_eq!(VartypeKind::Double.to_text(), "double");
}
