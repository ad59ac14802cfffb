use minic::ast::lexer::{Lexer, TextSpan, Token};
use minic::ast::parser::Parser;
use minic::ast::printer::ASTPrinter;
use minic::ast::visitor::ASTVisitor;
use minic::ast::Ast;
use minic::diagnostics::printer::DiagnosticsPrinter;
use minic::diagnostics::{Diagnostic, DiagnosticBag, DiagnosticKind};
use minic::text::{number_to_string, SourceText};

fn tokenize(source: &str) -> Vec<Token> {
    let mut lexer = Lexer::new(source);
    let mut tokens = Vec::new();
    while let Some(token) = lexer.next_token() {
        tokens.push(token);
    }
    tokens
}

fn program(source: &str) -> (Ast, DiagnosticBag) {
    let mut parser = Parser::new(tokenize(source), DiagnosticBag::new());
    let mut ast = Ast::new();
    while let Some(unit) = parser.next_program_unit() {
        ast.add_program_unit(unit);
    }
    (ast, parser.into_diagnostics())
}

fn render(source: &str, message: &str, start: usize, end: usize) -> String {
    let text = SourceText::new(source.to_string());
    let diagnostic = Diagnostic::new(
        message.to_string(),
        TextSpan::new(start, end, String::new()),
        DiagnosticKind::Error,
    );
    let diagnostics = vec![diagnostic];
    let printer = DiagnosticsPrinter::new(&text, &diagnostics);
    let rendered = printer.stringify_diagnostic(&diagnostics[0]);
    assert_eq!(printer.stringify_all(), vec![rendered.clone()]);
    rendered
}

#[test]
fn the_tree_is_written_level_by_level() {
    let (ast, bag) = program("int a = 5, b; int main(int c) { a = a + 1; return f(a, 2) * 3; return; }");
    assert_eq!(bag.len(), 0);
    let expected = vec![
        "Program Unit:",
        "  Declaration List:",
        "    Vartype: Direct(Int)",
        "    Variable: a",
        "    Number: 5",
        "    Variable: b",
        "Program Unit:",
        "  Function: main",
        "    Statement:",
        "      Expression:",
        "        Assignment:",
        "          Name: a",
        "          Binary Expression:",
        "            Operator: Add",
        "            Variable: a",
        "            Number: 1",
        "    Statement:",
        "      Return:",
        "        Binary Expression:",
        "          Operator: Mul",
        "          Function call: f",
        "            Variable: a",
        "            Number: 2",
        "          Number: 3",
        "    Statement:",
        "      Empty Return",
    ];
    assert_eq!(ast.visualize(), expected);
}

#[test]
fn an_error_node_is_written_with_its_span() {
    let mut parser = Parser::new(tokenize("1 + ;"), DiagnosticBag::new());
    let statement = parser.next_statement().unwrap();
    let mut printer = ASTPrinter::new();
    printer.indent = 1;
    printer.visit_statement(&statement);
    assert_eq!(printer.indent, 1);
    let expected = vec![
        " Statement:",
        "   Expression:",
        "     Binary Expression:",
        "       Operator: Add",
        "       Number: 1",
        "       Error: TextSpan { start: 4, end: 5, literal: \";\" }",
    ];
    assert_eq!(printer.lines, expected);
}

#[test]
fn the_printer_answers_every_visit() {
    let mut parser = Parser::new(tokenize("double x = 0 - 12; return x / 3;"), DiagnosticBag::new());
    let declaration = parser.next_statement().unwrap();
    let returning = parser.next_statement().unwrap();
    let mut printer = ASTPrinter::new();
    printer.do_visit_statement(&declaration);
    printer.do_visit_statement(&returning);
    printer.visit_empty_return();
    let expected = vec![
        "Declaration List:",
        "  Vartype: Direct(Double)",
        "  Variable: x",
        "  Binary Expression:",
        "    Operator: Sub",
        "    Number: 0",
        "    Number: 12",
        "Return:",
        "  Binary Expression:",
        "    Operator: Div",
        "    Variable: x",
        "    Number: 3",
        "Empty Return",
    ];
    assert_eq!(printer.lines, expected);
}

#[test]
fn numbers_are_written_in_decimal() {
    assert_eq!(number_to_string(0), "0");
    assert_eq!(number_to_string(7), "7");
    assert_eq!(number_to_string(-7), "-7");
    assert_eq!(number_to_string(1234567890), "1234567890");
    assert_eq!(number_to_string(i64::MAX), "9223372036854775807");
    assert_eq!(number_to_string(i64::MIN), "-9223372036854775808");
}

#[test]
fn a_finding_is_shown_under_its_line() {
    assert_eq!(
        render("1 + ;", "Expected expression, found: SemiColon", 4, 5),
        "1 + ;\n    ^\n    |\n    +--Expected expression, found: SemiColon"
    );
}

#[test]
fn the_findings_of_the_parser_are_shown() {
    let source = "int a = 1;\nint b = 2 + ;\n";
    let (_, bag) = program(source);
    assert_eq!(bag.len(), 1);
    let text = SourceText::new(source.to_string());
    let printer = DiagnosticsPrinter::new(&text, &bag.diagnostics);
    assert_eq!(
        printer.stringify_all()[0],
        "b = 2 + ;\n        ^\n        |\n        +--Expected expression, found: SemiColon"
    );
}

#[test]
fn at_most_eight_characters_are_shown_on_either_side() {
    assert_eq!(
        render("0123456789abcdefghijklmnopqrstuvwxyz", "here", 12, 15),
        "456789abcdefghijklm\n        ^^^\n        |\n        +--here"
    );
}

#[test]
fn only_the_line_of_the_finding_is_shown() {
    assert_eq!(render("ab\ncd + ;\nef", "m", 8, 9), "cd + ;\n     ^\n     |\n     +--m");
    assert_eq!(render("ab\ncd + ;\nef", "m", 0, 2), "ab\n^^\n|\n+--m");
    assert_eq!(render("ab\ncd + ;\nef", "m", 10, 11), "ef\n^\n|\n+--m");
}

#[test]
fn an_empty_span_gets_no_caret() {
    assert_eq!(render("a + ", "end", 4, 4), "a + \n    \n    |\n    +--end");
}

#[test]
fn a_span_behind_the_text_counts_as_its_end() {
    assert_eq!(render("ab", "far", 10, 12), "ab\n  ^^\n  |\n  +--far");
}

#[test]
fn a_span_that_runs_over_the_line_is_cut_at_its_end() {
    assert_eq!(render("abc\ndef", "long", 1, 6), "abc\n ^^^^^\n |\n +--long");
}

#[test]
fn lines_of_a_text() {
    let text = SourceText::new("ab\ncd\n".to_string());
    assert_eq!(text.len(), 6);
    assert_eq!(text.line_start(0), 0);
    assert_eq!(text.line_end(0), 2);
    assert_eq!(text.line_start(2), 0);
    assert_eq!(text.line_end(2), 2);
    assert_eq!(text.line_start(3), 3);
    assert_eq!(text.line_end(3), 5);
    assert_eq!(text.line_start(5), 3);
    assert_eq!(text.line_start(6), 6);
    assert_eq!(text.line_end(6), 6);
    assert_eq!(text.line_start(60), 6);
    assert_eq!(text.slice(3, 5), "cd");
    assert_eq!(text.slice(0, 0), "");
}
