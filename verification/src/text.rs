//! A source text and the lines it is made of, and the decimal text of
//! numbers.
//!
//! Offsets into a text count characters.

use vstd::prelude::*;
use vstd::string::*;
use vstd::utf8::{encode_utf8, is_ascii_chars, is_ascii_chars_encode_utf8};

verus! {

/// Where the line that holds the offset `position` starts: behind the last
/// line break before `position`, or at the start of the text.
pub open spec fn line_start_of(text: Seq<char>, position: int) -> int
    decreases position,
{
    if position <= 0 {
        0
    } else if text[position - 1] == '\n' {
        position
    } else {
        line_start_of(text, position - 1)
    }
}

/// Where the line that holds the offset `position` ends: at the first line
/// break at or behind `position`, or at the end of the text.
pub open spec fn line_end_of(text: Seq<char>, position: int) -> int
    decreases text.len() - position,
{
    if 0 <= position < text.len() && text[position] != '\n' {
        line_end_of(text, position + 1)
    } else {
        position
    }
}

/// A line starts at or before every offset of it, inside the text.
pub proof fn lemma_line_start(text: Seq<char>, position: int)
    requires
        0 <= position,
    ensures
        0 <= line_start_of(text, position) <= position,
    decreases position,
{
    if position > 0 && text[position - 1] != '\n' {
        lemma_line_start(text, position - 1);
    }
}

/// A line ends at or behind every offset of it, inside the text.
pub proof fn lemma_line_end(text: Seq<char>, position: int)
    requires
        0 <= position <= text.len(),
    ensures
        position <= line_end_of(text, position) <= text.len(),
    decreases text.len() - position,
{
    if position < text.len() && text[position] != '\n' {
        lemma_line_end(text, position + 1);
    }
}

/// The character of a decimal digit.
pub open spec fn decimal_digit(digit: nat) -> char {
    if digit == 0 {
        '0'
    } else if digit == 1 {
        '1'
    } else if digit == 2 {
        '2'
    } else if digit == 3 {
        '3'
    } else if digit == 4 {
        '4'
    } else if digit == 5 {
        '5'
    } else if digit == 6 {
        '6'
    } else if digit == 7 {
        '7'
    } else if digit == 8 {
        '8'
    } else {
        '9'
    }
}

/// The decimal literal of a number: its digits, the most significant first,
/// with no leading zero but for zero itself.
pub open spec fn decimal_text(n: nat) -> Seq<char>
    decreases n,
{
    if n < 10 {
        seq![decimal_digit(n)]
    } else {
        decimal_text(n / 10).push(decimal_digit(n % 10))
    }
}

/// The decimal text of a 64-bit number: a minus sign where it is negative,
/// and the decimal literal of its magnitude.
pub open spec fn number_text(n: i64) -> Seq<char> {
    if n < 0 {
        seq!['-'] + decimal_text((-n) as nat)
    } else {
        decimal_text(n as nat)
    }
}

/// `count` times the character `c`.
pub open spec fn repeated(c: char, count: nat) -> Seq<char> {
    Seq::new(count, |i: int| c)
}

/// Appends `count` times the one character of `piece`.
pub fn append_repeated(line: &mut String, piece: &str, count: usize)
    requires
        piece@.len() == 1,
    ensures
        final(line)@ == old(line)@ + repeated(piece@[0], count as nat),
{
    let mut i: usize = 0;
    assert(line@ =~= old(line)@ + repeated(piece@[0], 0));
    while i < count
        invariant
            i <= count,
            piece@.len() == 1,
            line@ == old(line)@ + repeated(piece@[0], i as nat),
        decreases count - i,
    {
        line.append(piece);
        assert(line@ =~= old(line)@ + repeated(piece@[0], (i + 1) as nat));
        i += 1;
    }
}

/// The text of one decimal digit.
fn digit_text(digit: u64) -> (text: &'static str)
    requires
        digit < 10,
    ensures
        text@ == seq![decimal_digit(digit as nat)],
{
    proof {
        reveal_strlit("0");
        reveal_strlit("1");
        reveal_strlit("2");
        reveal_strlit("3");
        reveal_strlit("4");
        reveal_strlit("5");
        reveal_strlit("6");
        reveal_strlit("7");
        reveal_strlit("8");
        reveal_strlit("9");
    }
    let text = if digit == 0 {
        "0"
    } else if digit == 1 {
        "1"
    } else if digit == 2 {
        "2"
    } else if digit == 3 {
        "3"
    } else if digit == 4 {
        "4"
    } else if digit == 5 {
        "5"
    } else if digit == 6 {
        "6"
    } else if digit == 7 {
        "7"
    } else if digit == 8 {
        "8"
    } else {
        "9"
    };
    assert(text@ =~= seq![decimal_digit(digit as nat)]);
    text
}

/// Appends the decimal literal of `n`.
pub fn append_decimal(text: &mut String, n: u64)
    ensures
        final(text)@ == old(text)@ + decimal_text(n as nat),
    decreases n,
{
    if n >= 10 {
        append_decimal(text, n / 10);
    }
    text.append(digit_text(n % 10));
    assert(text@ =~= old(text)@ + decimal_text(n as nat));
}

/// The decimal text of a number.
pub fn number_to_string(n: i64) -> (text: String)
    ensures
        text@ == number_text(n),
{
    let mut text = String::new();
    if n < 0 {
        proof {
            reveal_strlit("-");
        }
        text.append("-");
        let magnitude: u64 = (-(n + 1)) as u64 + 1;
        append_decimal(&mut text, magnitude);
        assert(text@ =~= seq!['-'] + decimal_text((-n) as nat));
    } else {
        append_decimal(&mut text, n as u64);
        assert(text@ =~= decimal_text(n as nat));
    }
    text
}

/// In a text of ASCII characters an offset counted in characters is the
/// offset counted in bytes: the first `offset` characters take `offset`
/// bytes.
pub proof fn lemma_ascii_offset_is_byte_offset(text: Seq<char>, offset: int)
    requires
        is_ascii_chars(text),
        0 <= offset <= text.len(),
    ensures
        encode_utf8(text.subrange(0, offset)).len() == offset,
{
    let front = text.subrange(0, offset);
    assert(is_ascii_chars(front)) by {
        assert forall|i: int| 0 <= i < front.len() implies '\0' <= #[trigger] front[i]
            <= '\u{7f}' by {
            assert(front[i] == text[i]);
        }
    }
    is_ascii_chars_encode_utf8(front);
}

/// A source text.
pub struct SourceText {
    text: String,
    length: usize,
}

impl View for SourceText {
    type V = Seq<char>;

    closed spec fn view(&self) -> Seq<char> {
        self.text@
    }
}

impl SourceText {
    /// The length is the number of characters.
    pub closed spec fn wf(&self) -> bool {
        self.length == self.text@.len()
    }

    /// The source text `text`.
    pub fn new(text: String) -> (source: Self)
        ensures
            source.wf(),
            source@ == text@,
    {
        let length = text.as_str().unicode_len();
        Self { text, length }
    }

    /// The number of characters of the text.
    pub fn len(&self) -> (length: usize)
        requires
            self.wf(),
        ensures
            length == self@.len(),
    {
        self.length
    }

    /// The offset at which the line that holds `position` starts. An offset
    /// behind the text counts as its end.
    pub fn line_start(&self, position: usize) -> (start: usize)
        requires
            self.wf(),
        ensures
            start == line_start_of(
                self@,
                if position <= self@.len() {
                    position as int
                } else {
                    self@.len() as int
                },
            ),
    {
        let mut start = if position <= self.length {
            position
        } else {
            self.length
        };
        let ghost from = start as int;
        while start > 0 && self.text.as_str().get_char(start - 1) != '\n'
            invariant
                self.wf(),
                start <= from <= self@.len(),
                line_start_of(self@, from) == line_start_of(self@, start as int),
            decreases start,
        {
            start -= 1;
        }
        start
    }

    /// The offset at which the line that holds `position` ends. An offset
    /// behind the text counts as its end.
    pub fn line_end(&self, position: usize) -> (end: usize)
        requires
            self.wf(),
        ensures
            end == line_end_of(
                self@,
                if position <= self@.len() {
                    position as int
                } else {
                    self@.len() as int
                },
            ),
    {
        let mut end = if position <= self.length {
            position
        } else {
            self.length
        };
        let ghost from = end as int;
        while end < self.length && self.text.as_str().get_char(end) != '\n'
            invariant
                self.wf(),
                from <= end <= self@.len(),
                line_end_of(self@, from) == line_end_of(self@, end as int),
            decreases self.length - end,
        {
            end += 1;
        }
        end
    }

    /// The characters from `start` to `end`.
    pub fn slice(&self, start: usize, end: usize) -> (part: String)
        requires
            self.wf(),
            start <= end <= self@.len(),
        ensures
            part@ == self@.subrange(start as int, end as int),
    {
        self.text.as_str().substring_char(start, end).to_owned()
    }
}

} // verus!
