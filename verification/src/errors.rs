//! Locating a compile error in its source text and laying out the report
//! shown to the user.
use vstd::prelude::*;

use vstd::utf8::encode_utf8;

use crate::alias::ModuleAlias;
use crate::text::{
    chars_of, decimal_of_nat, decimal_u64, extend_chars, lemma_decimal_len_u64, lemma_split_on_nonempty, repeat_char,
    repeat_chars, split_chars, split_on, string_from_chars,
};

verus! {

/// An error found while compiling a module: where it is (a window of
/// character positions in the source) and what it says.
pub trait CompileError {
    /// The first and last character positions of the error.
    spec fn window_model(&self) -> (usize, usize);

    /// What the error says.
    spec fn message_model(&self) -> Seq<char>;

    fn get_position_window(&self) -> (r: (usize, usize))
        ensures
            r == self.window_model(),
    ;

    fn get_message(&self) -> (r: String)
        ensures
            r@ == self.message_model(),
    ;
}

/// Line (counted from 0) and the character columns `start..end` of an
/// error within that line.
#[derive(Debug)]
pub struct ErrorCoordinates {
    pub line: usize,
    pub start: usize,
    pub end: usize,
}

/// The lines of `s`, cut at every `\n`.
pub open spec fn lines_of(s: Seq<char>) -> Seq<Seq<char>> {
    split_on(s, '\n')
}

/// Length in characters of each line of `s`.
pub open spec fn line_lengths(s: Seq<char>) -> Seq<nat> {
    lines_of(s).map_values(|l: Seq<char>| l.len())
}

/// The line holding position `pos`: the number of line breaks before it.
pub open spec fn line_of(s: Seq<char>, pos: int) -> int {
    lines_of(s.take(pos)).len() - 1
}

/// The column of position `pos`: its distance from the start of its line.
pub open spec fn column_of(s: Seq<char>, pos: int) -> int {
    lines_of(s.take(pos)).last().len() as int
}

/// The coordinates of the window `start..=end`. A single position is
/// underlined to the end of its line, as is a window that spans lines;
/// otherwise the window ends after the column of `end`.
pub open spec fn error_window(s: Seq<char>, start: int, end: int) -> (int, int, int) {
    let line = line_of(s, start);
    let first = column_of(s, start);
    if start == end {
        (line, first, line_lengths(s)[line] as int)
    } else if line_of(s, end) != line {
        (line, first, line_lengths(s)[line] as int)
    } else {
        (line, first, column_of(s, end) + 1)
    }
}

proof fn lemma_split_bounds(s: Seq<char>)
    ensures
        1 <= split_on(s, '\n').len() <= s.len() + 1,
        split_on(s, '\n').last().len() <= s.len(),
    decreases s.len(),
{
    if s.len() > 0 {
        lemma_split_bounds(s.drop_last());
    }
}

/// The lines of a prefix agree with the lines of the whole text, except that
/// the last line of the prefix may be cut short.
proof fn lemma_prefix_lines(s: Seq<char>, p: int)
    requires
        0 <= p <= s.len(),
    ensures
        lines_of(s.take(p)).len() <= lines_of(s).len(),
        forall|i: int| 0 <= i < lines_of(s.take(p)).len() - 1 ==> lines_of(s.take(p))[i] == lines_of(s)[i],
        lines_of(s.take(p)).last().len() <= lines_of(s)[lines_of(s.take(p)).len() - 1].len(),
    decreases s.len(),
{
    lemma_split_on_nonempty(s.take(p), '\n');
    if p == s.len() {
        assert(s.take(p) =~= s);
    } else {
        let d = s.drop_last();
        assert(s.take(p) =~= d.take(p));
        lemma_prefix_lines(d, p);
        lemma_split_on_nonempty(d, '\n');
    }
}

/// A position lies within its line: its line exists and its column is at
/// most the length of that line.
pub proof fn law_position_within_line(s: Seq<char>, pos: int)
    requires
        0 <= pos <= s.len(),
    ensures
        0 <= line_of(s, pos) < line_lengths(s).len(),
        0 <= column_of(s, pos) <= line_lengths(s)[line_of(s, pos)],
{
    lemma_prefix_lines(s, pos);
    lemma_split_on_nonempty(s.take(pos), '\n');
}

/// Length of each line of `source`.
fn get_lines_length(source: &str) -> (r: Vec<usize>)
    ensures
        r@.len() == line_lengths(source@).len(),
        forall|i: int| 0 <= i < r@.len() ==> r@[i] as nat == line_lengths(source@)[i],
{
    let chars = chars_of(source);
    let mut lines_length: Vec<usize> = Vec::new();
    let mut current_line_length: usize = 0;
    let mut i: usize = 0;
    while i < chars.len()
        invariant
            i <= chars@.len(),
            chars@ == source@,
            lines_length@.len() + 1 == lines_of(chars@.take(i as int)).len(),
            forall|j: int| 0 <= j < lines_length@.len() ==> lines_length@[j] as nat == lines_of(chars@.take(i as int))[j].len(),
            current_line_length as nat == lines_of(chars@.take(i as int)).last().len(),
        decreases chars@.len() - i,
    {
        let ghost t = chars@.take(i as int + 1);
        proof {
            assert(t.drop_last() =~= chars@.take(i as int));
            lemma_split_bounds(chars@.take(i as int));
            lemma_split_on_nonempty(chars@.take(i as int), '\n');
        }
        if chars[i] == '\n' {
            lines_length.push(current_line_length);
            current_line_length = 0;
        } else {
            current_line_length = current_line_length + 1;
        }
        i = i + 1;
    }
    assert(chars@.take(chars@.len() as int) =~= chars@);
    lines_length.push(current_line_length);
    lines_length
}

/// Line and column of position `pos` of `file_contents`.
fn get_position_coordinates(file_contents: &str, pos: usize) -> (r: (usize, usize))
    requires
        pos <= file_contents@.len(),
    ensures
        r.0 == line_of(file_contents@, pos as int),
        r.1 == column_of(file_contents@, pos as int),
        r.1 <= pos,
{
    let chars = chars_of(file_contents);
    let mut line: usize = 0;
    let mut row: usize = 0;
    let mut counter: usize = 0;
    assert(chars@.take(0) =~= Seq::<char>::empty());
    while counter < pos
        invariant
            counter <= pos <= chars@.len(),
            chars@ == file_contents@,
            line == line_of(chars@, counter as int),
            row == column_of(chars@, counter as int),
        decreases pos - counter,
    {
        let ghost t = chars@.take(counter as int + 1);
        proof {
            assert(t.drop_last() =~= chars@.take(counter as int));
            lemma_split_bounds(chars@.take(counter as int));
            lemma_split_on_nonempty(chars@.take(counter as int), '\n');
        }
        if chars[counter] == '\n' {
            line = line + 1;
            row = 0;
        } else {
            row = row + 1;
        }
        counter = counter + 1;
    }
    proof {
        lemma_split_bounds(chars@.take(pos as int));
    }
    (line, row)
}

/// The line and columns to underline for an error between positions
/// `start` and `end` of `source`.
pub fn adjust_error_window(source: &str, start: usize, end: usize) -> (r: ErrorCoordinates)
    requires
        start <= source@.len(),
        start != end ==> end <= source@.len(),
        source@.len() < usize::MAX,
    ensures
        (r.line as int, r.start as int, r.end as int) == error_window(source@, start as int, end as int),
{
    proof {
        law_position_within_line(source@, start as int);
    }
    let lines_length = get_lines_length(source);
    let (start_line, start_offset) = get_position_coordinates(source, start);
    if start == end {
        return ErrorCoordinates { line: start_line, start: start_offset, end: lines_length[start_line] };
    }
    let (end_line, end_offset) = get_position_coordinates(source, end);
    proof {
        law_position_within_line(source@, end as int);
    }
    let end = if start_line != end_line {
        lines_length[start_line]
    } else {
        end_offset + 1
    };
    ErrorCoordinates { line: start_line, start: start_offset, end }
}

} // verus!

verus! {

/// Colours used by the error report.
#[derive(Debug, Clone, Copy, PartialEq, Eq)]
pub enum ReportColor {
    Red,
    Blue,
    Yellow,
}

/// A piece of the error report, printed in `color` (the default colour for `None`).
#[derive(Debug)]
pub struct ReportSegment {
    pub color: Option<ReportColor>,
    pub text: String,
}

impl View for ReportSegment {
    type V = (Option<ReportColor>, Seq<char>);

    open spec fn view(&self) -> (Option<ReportColor>, Seq<char>) {
        (self.color, self.text@)
    }
}

/// `Error at line <line> (in <alias>):`
pub open spec fn header_text(line: nat, alias: Seq<char>) -> Seq<char> {
    "Error at line "@ + decimal_of_nat(line) + " (in "@ + alias + "):"@
}

/// The source lines `first..=last`, each as a blue `<n> | ` margin and the
/// line itself.
pub open spec fn code_segments(lines: Seq<Seq<char>>, first: nat, last: nat) -> Seq<(Option<ReportColor>, Seq<char>)> {
    Seq::new(((last - first + 1) * 2) as nat, |k: int| {
        let n = first + k / 2;
        if k % 2 == 0 {
            (Some(ReportColor::Blue), decimal_of_nat(n as nat) + " | "@)
        } else {
            (None::<ReportColor>, lines[n] + "\n"@)
        }
    })
}

/// The report for an error at `line`, columns `start..end`: a red header, a
/// rule as long as the header in bytes less one, the line and up to two
/// lines before it, then in yellow a caret with a tilde under each column of
/// the window and the message, both indented past the margin.
pub open spec fn error_report_text(alias: Seq<char>, source: Seq<char>, line: nat, start: nat, end: nat, msg: Seq<char>) -> Seq<(Option<ReportColor>, Seq<char>)> {
    let header = header_text(line, alias);
    let sidebar = decimal_of_nat(line).len() + 3;
    let spaces = repeat_char(' ', start + sidebar);
    let first: nat = if line >= 2 { (line - 2) as nat } else { 0 };
    seq![
        (Some(ReportColor::Red), header + "\n"@),
        (None::<ReportColor>, repeat_char('=', (encode_utf8(header).len() - 1) as nat) + "\n\n"@),
    ] + code_segments(lines_of(source), first, line) + seq![
        (Some(ReportColor::Yellow), spaces + "^"@ + repeat_char('~', (end - start) as nat) + "\n"@),
        (Some(ReportColor::Yellow), spaces + msg + "\n\n"@),
    ]
}

fn push_str(out: &mut Vec<char>, s: &str)
    ensures
        final(out)@ == old(out)@ + s@,
{
    let cs = chars_of(s);
    extend_chars(out, cs.as_slice());
}

fn segment(color: Option<ReportColor>, text: &[char]) -> (r: ReportSegment)
    ensures
        r@ == (color, text@),
{
    ReportSegment { color, text: string_from_chars(text) }
}

/// The report for the error `error_msg` at `pos` in `contents`.
fn show_error(contents: &str, alias: &ModuleAlias, pos: &ErrorCoordinates, error_msg: &str) -> (r: Vec<ReportSegment>)
    requires
        pos.line < lines_of(contents@).len(),
        pos.start <= pos.end,
        pos.start + 64 < usize::MAX,
    ensures
        r@.map_values(|s: ReportSegment| s@) == error_report_text(alias@, contents@, pos.line as nat, pos.start as nat, pos.end as nat, error_msg@),
{
    let ghost spec = error_report_text(alias@, contents@, pos.line as nat, pos.start as nat, pos.end as nat, error_msg@);
    let mut out: Vec<ReportSegment> = Vec::new();
    // Header
    let mut header: Vec<char> = Vec::new();
    push_str(&mut header, "Error at line ");
    let line_digits = decimal_u64(pos.line as u64);
    extend_chars(&mut header, line_digits.as_slice());
    push_str(&mut header, " (in ");
    let alias_text = alias.as_string();
    push_str(&mut header, alias_text.as_str());
    push_str(&mut header, "):");
    let header_string = string_from_chars(header.as_slice());
    let header_str = header_string.as_str();
    let header_bytes = header_str.as_bytes().len();
    assert(header@ =~= header_text(pos.line as nat, alias@));
    assert(header_str@ == header@);
    assert(header@.len() > 0);
    assert(encode_utf8(header@).len() >= 1);
    assert(header_bytes == encode_utf8(header@).len());
    let mut first_line: Vec<char> = Vec::new();
    extend_chars(&mut first_line, header.as_slice());
    push_str(&mut first_line, "\n");
    out.push(segment(Some(ReportColor::Red), first_line.as_slice()));
    let mut rule = repeat_chars('=', header_bytes - 1);
    push_str(&mut rule, "\n\n");
    out.push(segment(None, rule.as_slice()));
    assert(out@.map_values(|s: ReportSegment| s@) =~= spec.take(2));
    // Source lines
    let source_chars = chars_of(contents);
    let lines = split_chars(source_chars.as_slice(), '\n');
    let first: usize = if pos.line >= 2 { pos.line - 2 } else { 0 };
    let ghost code = code_segments(lines_of(contents@), first as nat, pos.line as nat);
    let mut line = first;
    let n_lines = lines.len();
    while line <= pos.line
        invariant
            first <= line <= pos.line + 1,
            pos.line < lines@.len(),
            n_lines == lines@.len(),
            lines@.map_values(|p: Vec<char>| p@) == lines_of(contents@),
            code == code_segments(lines_of(contents@), first as nat, pos.line as nat),
            spec == error_report_text(alias@, contents@, pos.line as nat, pos.start as nat, pos.end as nat, error_msg@),
            out@.map_values(|s: ReportSegment| s@) == spec.take(2) + code.take(2 * (line - first)),
        decreases pos.line + 1 - line,
    {
        let ghost before = out@.map_values(|s: ReportSegment| s@);
        let mut margin = decimal_u64(line as u64);
        push_str(&mut margin, " | ");
        let seg1 = segment(Some(ReportColor::Blue), margin.as_slice());
        let mut text: Vec<char> = Vec::new();
        extend_chars(&mut text, lines[line].as_slice());
        push_str(&mut text, "\n");
        let seg2 = segment(None, text.as_slice());
        out.push(seg1);
        out.push(seg2);
        proof {
            let k = 2 * (line - first);
            assert(lines@[line as int]@ == lines_of(contents@)[line as int]);
            assert(code[k] == (Some(ReportColor::Blue), decimal_of_nat(line as nat) + " | "@));
            assert(code[k + 1] == (None::<ReportColor>, lines_of(contents@)[line as int] + "\n"@));
            assert(seg1@ == code[k]);
            assert(seg2@ == code[k + 1]);
            assert(code.take(k + 2) =~= code.take(k).push(code[k]).push(code[k + 1]));
            assert(out@.map_values(|s: ReportSegment| s@) =~= before.push(seg1@).push(seg2@));
        }
        line = line + 1;
        assert(out@.map_values(|s: ReportSegment| s@) =~= spec.take(2) + code.take(2 * (line - first)));
    }
    assert(code.take(2 * (line - first)) =~= code);
    // Caret line and message
    proof {
        lemma_decimal_len_u64(pos.line as u64);
    }
    let sidebar_len = line_digits.len() + 3;
    let spaces = repeat_chars(' ', pos.start + sidebar_len);
    let mut caret: Vec<char> = Vec::new();
    extend_chars(&mut caret, spaces.as_slice());
    push_str(&mut caret, "^");
    let tildes = repeat_chars('~', pos.end - pos.start);
    extend_chars(&mut caret, tildes.as_slice());
    push_str(&mut caret, "\n");
    let seg_caret = segment(Some(ReportColor::Yellow), caret.as_slice());
    let mut message = spaces;
    push_str(&mut message, error_msg);
    push_str(&mut message, "\n\n");
    let seg_message = segment(Some(ReportColor::Yellow), message.as_slice());
    let ghost before = out@.map_values(|s: ReportSegment| s@);
    out.push(seg_caret);
    out.push(seg_message);
    proof {
        let header_s = header_text(pos.line as nat, alias@);
        let sp = repeat_char(' ', pos.start as nat + decimal_of_nat(pos.line as nat).len() + 3);
        let tail = seq![
            (Some(ReportColor::Yellow), sp + "^"@ + repeat_char('~', (pos.end - pos.start) as nat) + "\n"@),
            (Some(ReportColor::Yellow), sp + error_msg@ + "\n\n"@),
        ];
        assert(seg_caret@ == tail[0]);
        assert(seg_message@ == tail[1]);
        assert(before == spec.take(2) + code);
        assert(spec == spec.take(2) + code + tail);
        assert(out@.map_values(|s: ReportSegment| s@) =~= before.push(seg_caret@).push(seg_message@));
    }
    assert(out@.map_values(|s: ReportSegment| s@) =~= spec);
    out
}

} // verus!

verus! {

/// The report for an error between positions `start` and `end` of `source`
/// (a module known as `alias`). There is none when a position needed to
/// place the window lies past the end of the source, or when the window
/// ends before its first column.
pub fn error_report(alias: &ModuleAlias, source: &str, start: usize, end: usize, error_msg: &str) -> (r: Option<Vec<ReportSegment>>)
    requires
        source@.len() + 64 < usize::MAX,
    ensures
        r is Some <==> {
            &&& start <= source@.len()
            &&& start != end ==> end <= source@.len()
            &&& error_window(source@, start as int, end as int).1 <= error_window(source@, start as int, end as int).2
        },
        r matches Some(v) ==> ({
            let w = error_window(source@, start as int, end as int);
            v@.map_values(|s: ReportSegment| s@) == error_report_text(alias@, source@, w.0 as nat, w.1 as nat, w.2 as nat, error_msg@)
        }),
{
    let n = chars_of(source).len();
    if start > n || (start != end && end > n) {
        return None;
    }
    let window = adjust_error_window(source, start, end);
    if window.start > window.end {
        return None;
    }
    proof {
        law_position_within_line(source@, start as int);
        lemma_prefix_lines(source@, start as int);
        lemma_split_bounds(source@.take(start as int));
    }
    Some(show_error(source, alias, &window, error_msg))
}

/// The report for `error`, found in `source` of the module `alias`; none
/// when the error's window cannot be placed in the source.
pub fn show_error_in_file<E: CompileError>(alias: &ModuleAlias, source: &String, error: &E) -> (r: Option<Vec<ReportSegment>>)
    requires
        source@.len() + 64 < usize::MAX,
    ensures
        ({
            let (start, end) = error.window_model();
            &&& r is Some <==> {
                &&& start <= source@.len()
                &&& start != end ==> end <= source@.len()
                &&& error_window(source@, start as int, end as int).1 <= error_window(source@, start as int, end as int).2
            }
            &&& r matches Some(v) ==> ({
                let w = error_window(source@, start as int, end as int);
                v@.map_values(|s: ReportSegment| s@) == error_report_text(
                    alias@,
                    source@,
                    w.0 as nat,
                    w.1 as nat,
                    w.2 as nat,
                    error.message_model(),
                )
            })
        }),
{
    let (start, end) = error.get_position_window();
    let error_msg = error.get_message();
    error_report(alias, source.as_str(), start, end, error_msg.as_str())
}

} // verus!

verus! {

/// The message of a parse error: its text, and the expected token where
/// there is one.
pub open spec fn parse_error_message(msg: Seq<char>, expected: Option<crate::parsing::scanner::TokenModel>) -> Seq<
    char,
> {
    match expected {
        Some(t) => msg + " (Expected token <"@ + crate::parsing::token_text::token_text(t) + ">)"@,
        None => msg,
    }
}

impl CompileError for crate::parsing::parser::ParseError {
    /// The characters of the token the error is at.
    open spec fn window_model(&self) -> (usize, usize) {
        (self.error_at.first, self.error_at.last)
    }

    /// The message, followed by the expected token where there is one.
    open spec fn message_model(&self) -> Seq<char> {
        parse_error_message(self.error_msg@, self@.expected)
    }

    /// The characters of the token the error is at.
    fn get_position_window(&self) -> (r: (usize, usize))
        ensures
            r == (self.error_at.first, self.error_at.last),
    {
        (self.error_at.first, self.error_at.last)
    }

    /// `<message>`, followed by ` (Expected token <T>)` where a token was
    /// expected.
    fn get_message(&self) -> (r: String)
        ensures
            r@ == parse_error_message(self.error_msg@, self@.expected),
    {
        let mut m = chars_of(self.error_msg);
        match &self.expected {
            Some(t) => {
                let shown = crate::parsing::token_text::token_debug_text(t);
                let a = chars_of(" (Expected token <");
                extend_chars(&mut m, a.as_slice());
                let b = chars_of(shown.as_str());
                extend_chars(&mut m, b.as_slice());
                let c = chars_of(">)");
                extend_chars(&mut m, c.as_slice());
            },
            None => {},
        }
        string_from_chars(m.as_slice())
    }
}

impl CompileError for crate::parsing::scanner::ScanningError {
    /// The one position the scanning error points at.
    open spec fn window_model(&self) -> (usize, usize) {
        (self.1, self.1)
    }

    /// `Scanning error: <message>`.
    open spec fn message_model(&self) -> Seq<char> {
        "Scanning error: "@ + self.0@
    }

    /// The one position the scanning error points at.
    fn get_position_window(&self) -> (r: (usize, usize))
        ensures
            r == (self.1, self.1),
    {
        (self.1, self.1)
    }

    /// `Scanning error: <message>`.
    fn get_message(&self) -> (r: String)
        ensures
            r@ == "Scanning error: "@ + self.0@,
    {
        let mut m = chars_of("Scanning error: ");
        let text = chars_of(self.0);
        extend_chars(&mut m, text.as_slice());
        string_from_chars(m.as_slice())
    }
}

} // verus!
