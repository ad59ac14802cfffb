//! Rendering diagnostics against the source text: the line of the finding
//! with up to eight characters on either side of its span, carets under the
//! span, and the message under the carets.

use vstd::prelude::*;
use vstd::string::*;
use crate::ast::lexer::TextSpanView;
use crate::diagnostics::{Diagnostic, DiagnosticView};
use crate::text::{
    append_repeated,
    lemma_line_end,
    lemma_line_start,
    line_end_of,
    line_start_of,
    repeated,
    SourceText,
};

verus! {

/// How many characters of the line are shown on either side of a span.
pub const PREFIX_LENGTH: usize = 8;

/// The number of characters that a span covers.
pub open spec fn span_length(span: TextSpanView) -> nat {
    if span.start <= span.end {
        (span.end - span.start) as nat
    } else {
        0
    }
}

/// What of the text is shown for a span, and where the span starts in it.
pub struct Excerpt {
    /// The offset of the first character shown.
    pub start: int,
    /// The offset behind the last character shown.
    pub end: int,
    /// How many characters are shown before the span.
    pub indent: nat,
}

/// The part of the span's line that is shown: the span as far as it lies in
/// the line, and up to eight characters of the line on either side. A span
/// that starts behind the text counts as starting at its end.
pub open spec fn excerpt(text: Seq<char>, span: TextSpanView) -> Excerpt {
    let position = if span.start <= text.len() {
        span.start as int
    } else {
        text.len() as int
    };
    let line_start = line_start_of(text, position);
    let line_end = line_end_of(text, position);
    let span_end = if position + span_length(span) <= line_end {
        position + span_length(span)
    } else {
        line_end
    };
    let start = if position - line_start <= PREFIX_LENGTH {
        line_start
    } else {
        position - PREFIX_LENGTH
    };
    let end = if span_end + PREFIX_LENGTH <= line_end {
        span_end + PREFIX_LENGTH
    } else {
        line_end
    };
    Excerpt { start, end, indent: (position - start) as nat }
}

/// The rendering of a diagnostic: four lines, the excerpt of the source, the
/// carets under the span, a bar under the first caret, and the message.
pub open spec fn rendering(text: Seq<char>, diagnostic: DiagnosticView) -> Seq<char> {
    let shown = excerpt(text, diagnostic.span);
    let indent = repeated(' ', shown.indent);
    text.subrange(shown.start, shown.end) + seq!['\n'] + indent + repeated(
        '^',
        span_length(diagnostic.span),
    ) + seq!['\n'] + indent + seq!['|', '\n'] + indent + seq!['+', '-', '-'] + diagnostic.message
}

/// A renderer of the diagnostics of one source text.
pub struct DiagnosticsPrinter<'a> {
    text: &'a SourceText,
    diagnostic: &'a [Diagnostic],
}

impl<'a> DiagnosticsPrinter<'a> {
    /// The source text.
    pub closed spec fn text(&self) -> Seq<char> {
        self.text@
    }

    /// The diagnostics.
    pub closed spec fn diagnostics(&self) -> Seq<Diagnostic> {
        self.diagnostic@
    }

    /// The source text is well formed.
    pub closed spec fn wf(&self) -> bool {
        self.text.wf()
    }

    /// A renderer of `diagnostic` against `text`.
    pub fn new(text: &'a SourceText, diagnostic: &'a [Diagnostic]) -> (printer: Self)
        requires
            text.wf(),
        ensures
            printer.wf(),
            printer.text() == text@,
            printer.diagnostics() == diagnostic@,
    {
        Self { text, diagnostic }
    }

    /// The renderings of all diagnostics, in order.
    pub fn stringify_all(&self) -> (texts: Vec<String>)
        requires
            self.wf(),
        ensures
            texts@.len() == self.diagnostics().len(),
            forall|i: int|
                0 <= i < texts@.len() ==> (#[trigger] texts@[i])@ == rendering(
                    self.text(),
                    self.diagnostics()[i]@,
                ),
    {
        let mut texts: Vec<String> = Vec::new();
        let mut i: usize = 0;
        while i < self.diagnostic.len()
            invariant
                self.wf(),
                i <= self.diagnostic@.len(),
                texts@.len() == i,
                forall|k: int|
                    0 <= k < i ==> (#[trigger] texts@[k])@ == rendering(
                        self.text(),
                        self.diagnostics()[k]@,
                    ),
            decreases self.diagnostic@.len() - i,
        {
            texts.push(self.stringify_diagnostic(&self.diagnostic[i]));
            i += 1;
        }
        texts
    }

    /// The rendering of a diagnostic against the source text.
    pub fn stringify_diagnostic(&self, diagnostic: &Diagnostic) -> (text: String)
        requires
            self.wf(),
        ensures
            text@ == rendering(self.text(), diagnostic@),
    {
        let length = self.text.len();
        let position = if diagnostic.span.start <= length {
            diagnostic.span.start
        } else {
            length
        };
        proof {
            lemma_line_start(self.text@, position as int);
            lemma_line_end(self.text@, position as int);
        }
        let line_start = self.text.line_start(position);
        let line_end = self.text.line_end(position);
        let span_length = if diagnostic.span.start <= diagnostic.span.end {
            diagnostic.span.end - diagnostic.span.start
        } else {
            0
        };
        let span_end = if span_length <= line_end - position {
            position + span_length
        } else {
            line_end
        };
        let start = if position - line_start <= PREFIX_LENGTH {
            line_start
        } else {
            position - PREFIX_LENGTH
        };
        let end = if PREFIX_LENGTH <= line_end - span_end {
            span_end + PREFIX_LENGTH
        } else {
            line_end
        };
        let indent = position - start;
        proof {
            reveal_strlit("\n");
            reveal_strlit(" ");
            reveal_strlit("^");
            reveal_strlit("|\n");
            reveal_strlit("+--");
            assert("\n"@ =~= seq!['\n']);
            assert("|\n"@ =~= seq!['|', '\n']);
            assert("+--"@ =~= seq!['+', '-', '-']);
        }
        let mut text = self.text.slice(start, end);
        text.append("\n");
        append_repeated(&mut text, " ", indent);
        append_repeated(&mut text, "^", span_length);
        text.append("\n");
        append_repeated(&mut text, " ", indent);
        text.append("|\n");
        append_repeated(&mut text, " ", indent);
        text.append("+--");
        text.append(diagnostic.message.as_str());
        text
    }
}

} // verus!
