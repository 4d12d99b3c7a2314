//! What a report says: the lines of a run, piece by piece, with the colour of each
//! piece. Putting the pieces on a terminal is left to the caller.

use crate::outcome::{Elapsed, Outcome};
use crate::tally::{names_view, RunSummary};
use vstd::prelude::*;

verus! {

/// The width, in bytes, to which the label of a test is filled up.
pub const LABEL_WIDTH: usize = 10;

/// A colour of the report.
#[derive(Clone, Copy, Debug, PartialEq, Eq, Structural)]
pub enum Tint {
    Green,
    Yellow,
    Red,
}

/// How a piece is shown: its colour, and whether it is bold.
#[derive(Clone, Copy, Debug, PartialEq, Eq, Structural)]
pub struct Paint {
    pub tint: Tint,
    pub bold: bool,
}

/// One piece of a line.
#[derive(Clone, Debug, PartialEq, Eq)]
pub enum Piece {
    /// Text, shown as it is.
    Plain(String),
    /// Text, shown in a colour.
    Painted(String, Paint),
    /// A number, shown in base ten, in a colour where one is given.
    Number(u64, Option<Paint>),
    /// A time, shown in seconds with its fraction.
    Seconds(Elapsed),
    /// A time, shown in seconds with two decimal places.
    RoundedSeconds(Elapsed),
}

/// What a piece holds.
pub enum PieceView {
    Plain(Seq<char>),
    Painted(Seq<char>, Paint),
    Number(u64, Option<Paint>),
    Seconds(Elapsed),
    RoundedSeconds(Elapsed),
}

impl View for Piece {
    type V = PieceView;

    open spec fn view(&self) -> PieceView {
        match *self {
            Piece::Plain(text) => PieceView::Plain(text@),
            Piece::Painted(text, paint) => PieceView::Painted(text@, paint),
            Piece::Number(value, paint) => PieceView::Number(value, paint),
            Piece::Seconds(time) => PieceView::Seconds(time),
            Piece::RoundedSeconds(time) => PieceView::RoundedSeconds(time),
        }
    }
}

/// One line of a report: a rule across the terminal, or pieces of text.
#[derive(Clone, Debug, PartialEq, Eq)]
pub enum Line {
    Rule,
    Text(Vec<Piece>),
}

/// What a line of a report holds.
pub enum LineView {
    Rule,
    Text(Seq<PieceView>),
}

impl View for Line {
    type V = LineView;

    open spec fn view(&self) -> LineView {
        match *self {
            Line::Rule => LineView::Rule,
            Line::Text(pieces) => LineView::Text(line_view(pieces@)),
        }
    }
}

/// The length of `text` in bytes when encoded as UTF-8.
pub open spec fn byte_len(text: Seq<char>) -> nat {
    vstd::utf8::encode_utf8(text).len()
}

/// `count` times the character `c`.
pub open spec fn repeated(c: char, count: nat) -> Seq<char> {
    Seq::new(count, |i: int| c)
}

/// `text` followed by as many spaces as it is short of `width` bytes; `text` itself where
/// it has `width` bytes or more.
pub open spec fn padded(text: Seq<char>, width: nat) -> Seq<char> {
    if byte_len(text) >= width {
        text
    } else {
        text + repeated(' ', (width - byte_len(text)) as nat)
    }
}

/// The label of the test `name`: the name in square brackets, filled up to `LABEL_WIDTH`.
pub open spec fn label_of(name: Seq<char>) -> Seq<char> {
    padded(seq!['['] + name + seq![']'], LABEL_WIDTH as nat)
}

/// The word that a report shows for an outcome.
pub open spec fn word_of(outcome: Outcome) -> Seq<char> {
    match outcome {
        Outcome::Passed(_) => "OK"@,
        Outcome::TimedOut => "TLE"@,
        Outcome::WrongAnswer => "WRONG ANSWER"@,
    }
}

/// How the word for an outcome is shown: `OK` in green, `TLE` in bold yellow and
/// `WRONG ANSWER` in bold red.
pub open spec fn paint_of(outcome: Outcome) -> Paint {
    match outcome {
        Outcome::Passed(_) => Paint { tint: Tint::Green, bold: false },
        Outcome::TimedOut => Paint { tint: Tint::Yellow, bold: true },
        Outcome::WrongAnswer => Paint { tint: Tint::Red, bold: true },
    }
}

/// What a line holds, piece by piece.
pub open spec fn line_view(line: Seq<Piece>) -> Seq<PieceView> {
    Seq::new(line.len(), |i: int| line[i]@)
}

/// What some lines hold, line by line.
pub open spec fn lines_view(lines: Seq<Line>) -> Seq<LineView> {
    Seq::new(lines.len(), |i: int| lines[i]@)
}

/// The line for one test: its label and the word for its outcome, and then, for a test
/// that passed, the time it took, and for one that timed out, the whole seconds of
/// `exec_time`.
pub open spec fn outcome_line_of(name: Seq<char>, outcome: Outcome, exec_time: Elapsed) -> Seq<
    PieceView,
> {
    let head = seq![
        PieceView::Plain(label_of(name)),
        PieceView::Plain(" "@),
        PieceView::Painted(word_of(outcome), paint_of(outcome)),
    ];
    match outcome {
        Outcome::Passed(taken) => head + seq![
            PieceView::Plain(" - "@),
            PieceView::Seconds(taken),
            PieceView::Plain("s"@),
        ],
        Outcome::TimedOut => head + seq![
            PieceView::Plain(" - "@),
            PieceView::Number(exec_time.secs, None),
            PieceView::Plain("s"@),
        ],
        Outcome::WrongAnswer => head,
    }
}

/// The line that says how many workers run.
pub open spec fn threads_line_of(packs: u64) -> Seq<PieceView> {
    seq![PieceView::Plain("Threads: "@), PieceView::Number(packs, None)]
}

/// The line that says how many tests the catalog holds.
pub open spec fn test_count_line_of(tests: u64) -> Seq<PieceView> {
    seq![PieceView::Plain("Test count: "@), PieceView::Number(tests, None)]
}

/// The line with the counts of a run, each in the colour of its outcome.
pub open spec fn summary_line_of(passed: u64, timed_out: u64, wrong_answer: u64) -> Seq<PieceView> {
    seq![
        PieceView::Plain("OK - "@),
        PieceView::Number(passed, Some(Paint { tint: Tint::Green, bold: false })),
        PieceView::Plain(" | TLE - "@),
        PieceView::Number(timed_out, Some(Paint { tint: Tint::Yellow, bold: false })),
        PieceView::Plain(" | FAILED - "@),
        PieceView::Number(wrong_answer, Some(Paint { tint: Tint::Red, bold: false })),
    ]
}

/// The line with the time that the whole run took.
pub open spec fn total_time_line_of(total: Elapsed) -> Seq<PieceView> {
    seq![
        PieceView::Plain("Total testing time - "@),
        PieceView::RoundedSeconds(total),
        PieceView::Plain("s"@),
    ]
}

/// `names` in order, with a comma and a space between one and the next.
pub open spec fn joined(names: Seq<Seq<char>>) -> Seq<char>
    decreases names.len(),
{
    if names.len() == 0 {
        Seq::empty()
    } else if names.len() == 1 {
        names[0]
    } else {
        joined(names.drop_last()) + seq![',', ' '] + names.last()
    }
}

/// The line that names the tests with a wrong answer.
pub open spec fn failed_line_of(failed_names: Seq<Seq<char>>) -> Seq<PieceView> {
    seq![
        PieceView::Painted("Failed tests:"@, Paint { tint: Tint::Red, bold: false }),
        PieceView::Plain(" "@),
        PieceView::Plain(joined(failed_names)),
    ]
}

/// What a report opens with, before any test is run.
pub open spec fn opening_of(packs: u64, tests: u64) -> Seq<LineView> {
    seq![
        LineView::Rule,
        LineView::Text(threads_line_of(packs)),
        LineView::Text(test_count_line_of(tests)),
        LineView::Rule,
    ]
}

/// What a report closes with, after every test is run: the counts and the total time, and
/// the failed names too where they are asked for.
pub open spec fn closing_of(
    passed: u64,
    timed_out: u64,
    wrong_answer: u64,
    failed_names: Seq<Seq<char>>,
    total: Elapsed,
    print_failed: bool,
) -> Seq<LineView> {
    let counts = seq![
        LineView::Rule,
        LineView::Text(summary_line_of(passed, timed_out, wrong_answer)),
        LineView::Text(total_time_line_of(total)),
    ];
    if print_failed {
        counts + seq![LineView::Rule, LineView::Text(failed_line_of(failed_names))]
    } else {
        counts
    }
}

/// The bytes of two texts joined are the bytes of the one and then of the other.
proof fn lemma_byte_len_of_joined(left: Seq<char>, right: Seq<char>)
    ensures
        byte_len(left + right) == byte_len(left) + byte_len(right),
    decreases left.len(),
{
    if left.len() == 0 {
        assert(left + right =~= right);
    } else {
        lemma_byte_len_of_joined(left.drop_first(), right);
        assert((left + right).drop_first() =~= left.drop_first() + right);
    }
}

/// Padding fills a text up to `width` bytes and never cuts it: the padded text has
/// `width` bytes, or those of `text` where they are more, and starts with `text`.
pub proof fn lemma_padded_width(text: Seq<char>, width: nat)
    ensures
        byte_len(padded(text, width)) == if byte_len(text) >= width {
            byte_len(text)
        } else {
            width
        },
        padded(text, width).len() >= text.len(),
        padded(text, width).take(text.len() as int) == text,
{
    if byte_len(text) < width {
        let fill = repeated(' ', (width - byte_len(text)) as nat);
        lemma_byte_len_of_joined(text, fill);
        vstd::utf8::is_ascii_chars_encode_utf8(fill);
    }
    assert(padded(text, width).take(text.len() as int) =~= text);
}

/// Appends `count` times the one-character string `piece` to `text`.
fn append_repeated(text: String, piece: &str, count: usize) -> (out: String)
    requires
        piece@.len() == 1,
    ensures
        out@ == text@ + repeated(piece@[0], count as nat),
{
    let mut out = text;
    let mut done: usize = 0;
    assert(out@ =~= text@ + repeated(piece@[0], 0));
    while done < count
        invariant
            done <= count,
            piece@.len() == 1,
            out@ == text@ + repeated(piece@[0], done as nat),
        decreases count - done,
    {
        out.append(piece);
        done = done + 1;
        assert(out@ =~= text@ + repeated(piece@[0], done as nat));
    }
    out
}

/// Fills `text` up with spaces on the right to `width` bytes. A text of `width` bytes or
/// more is returned as it is.
pub fn pad_right(text: String, width: usize) -> (out: String)
    ensures
        out@ == padded(text@, width as nat),
{
    let len = text.as_str().as_bytes().len();
    if len >= width {
        text
    } else {
        proof {
            reveal_strlit(" ");
        }
        append_repeated(text, " ", width - len)
    }
}

/// A rule of `width` equals signs.
pub fn spacer(width: u16) -> (out: String)
    ensures
        out@ == repeated('=', width as nat),
{
    proof {
        reveal_strlit("=");
    }
    append_repeated(String::new(), "=", width as usize)
}

/// The label of the test `name` in a report line.
pub fn test_label(name: &str) -> (out: String)
    ensures
        out@ == label_of(name@),
{
    proof {
        reveal_strlit("[");
        reveal_strlit("]");
    }
    let mut text = String::from_str("[");
    text.append(name);
    text.append("]");
    assert(text@ =~= seq!['['] + name@ + seq![']']);
    pad_right(text, LABEL_WIDTH)
}

/// The word that a report shows for `outcome`.
pub fn outcome_word(outcome: Outcome) -> (word: &'static str)
    ensures
        word@ == word_of(outcome),
{
    match outcome {
        Outcome::Passed(_) => "OK",
        Outcome::TimedOut => "TLE",
        Outcome::WrongAnswer => "WRONG ANSWER",
    }
}

/// How the word for `outcome` is shown.
pub fn outcome_paint(outcome: Outcome) -> (paint: Paint)
    ensures
        paint == paint_of(outcome),
{
    match outcome {
        Outcome::Passed(_) => Paint { tint: Tint::Green, bold: false },
        Outcome::TimedOut => Paint { tint: Tint::Yellow, bold: true },
        Outcome::WrongAnswer => Paint { tint: Tint::Red, bold: true },
    }
}

/// The line that reports the outcome of the test `name`, whose run took `exec_time`.
pub fn outcome_line(name: &str, outcome: Outcome, exec_time: Elapsed) -> (line: Vec<Piece>)
    ensures
        line_view(line@) == outcome_line_of(name@, outcome, exec_time),
{
    let mut line: Vec<Piece> = Vec::new();
    line.push(Piece::Plain(test_label(name)));
    line.push(Piece::Plain(String::from_str(" ")));
    line.push(Piece::Painted(String::from_str(outcome_word(outcome)), outcome_paint(outcome)));
    match outcome {
        Outcome::Passed(taken) => {
            line.push(Piece::Plain(String::from_str(" - ")));
            line.push(Piece::Seconds(taken));
            line.push(Piece::Plain(String::from_str("s")));
        },
        Outcome::TimedOut => {
            line.push(Piece::Plain(String::from_str(" - ")));
            line.push(Piece::Number(exec_time.secs, None));
            line.push(Piece::Plain(String::from_str("s")));
        },
        Outcome::WrongAnswer => {},
    }
    assert(line_view(line@) =~= outcome_line_of(name@, outcome, exec_time));
    line
}

/// The line that says how many workers run: `Threads:` and the number of packs.
pub fn threads_line(packs: usize) -> (line: Vec<Piece>)
    ensures
        line_view(line@) == threads_line_of(packs as u64),
{
    let mut line: Vec<Piece> = Vec::new();
    line.push(Piece::Plain(String::from_str("Threads: ")));
    line.push(Piece::Number(packs as u64, None));
    assert(line_view(line@) =~= threads_line_of(packs as u64));
    line
}

/// The line that says how many tests the catalog holds.
pub fn test_count_line(tests: usize) -> (line: Vec<Piece>)
    ensures
        line_view(line@) == test_count_line_of(tests as u64),
{
    let mut line: Vec<Piece> = Vec::new();
    line.push(Piece::Plain(String::from_str("Test count: ")));
    line.push(Piece::Number(tests as u64, None));
    assert(line_view(line@) =~= test_count_line_of(tests as u64));
    line
}

/// The line with the counts of a finished run.
pub fn summary_line(summary: &RunSummary) -> (line: Vec<Piece>)
    ensures
        line_view(line@) == summary_line_of(
            summary.passed as u64,
            summary.timed_out as u64,
            summary.wrong_answer as u64,
        ),
{
    let mut line: Vec<Piece> = Vec::new();
    line.push(Piece::Plain(String::from_str("OK - ")));
    line.push(Piece::Number(summary.passed as u64, Some(Paint { tint: Tint::Green, bold: false })));
    line.push(Piece::Plain(String::from_str(" | TLE - ")));
    line.push(
        Piece::Number(summary.timed_out as u64, Some(Paint { tint: Tint::Yellow, bold: false })),
    );
    line.push(Piece::Plain(String::from_str(" | FAILED - ")));
    line.push(
        Piece::Number(summary.wrong_answer as u64, Some(Paint { tint: Tint::Red, bold: false })),
    );
    assert(line_view(line@) =~= summary_line_of(
        summary.passed as u64,
        summary.timed_out as u64,
        summary.wrong_answer as u64,
    ));
    line
}

/// The line with the time that the whole run took.
pub fn total_time_line(total: Elapsed) -> (line: Vec<Piece>)
    ensures
        line_view(line@) == total_time_line_of(total),
{
    let mut line: Vec<Piece> = Vec::new();
    line.push(Piece::Plain(String::from_str("Total testing time - ")));
    line.push(Piece::RoundedSeconds(total));
    line.push(Piece::Plain(String::from_str("s")));
    assert(line_view(line@) =~= total_time_line_of(total));
    line
}

/// Joins `names` with a comma and a space between one and the next.
pub fn join_names(names: &Vec<String>) -> (text: String)
    ensures
        text@ == joined(names_view(names@)),
{
    let mut text = String::new();
    let mut i: usize = 0;
    proof {
        reveal_strlit(", ");
        assert(names_view(names@).take(0) =~= Seq::<Seq<char>>::empty());
    }
    while i < names.len()
        invariant
            i <= names@.len(),
            text@ == joined(names_view(names@).take(i as int)),
            ", "@ == seq![',', ' '],
        decreases names@.len() - i,
    {
        let ghost all = names_view(names@);
        assert(all.take(i + 1).drop_last() =~= all.take(i as int));
        assert(all.take(i + 1).last() == names@[i as int]@);
        if i > 0 {
            text.append(", ");
        }
        text.append(names[i].as_str());
        i = i + 1;
        assert(text@ =~= joined(all.take(i as int)));
    }
    assert(names_view(names@).take(i as int) =~= names_view(names@));
    text
}

/// The line that names the tests with a wrong answer.
pub fn failed_line(failed_names: &Vec<String>) -> (line: Vec<Piece>)
    ensures
        line_view(line@) == failed_line_of(names_view(failed_names@)),
{
    let mut line: Vec<Piece> = Vec::new();
    line.push(
        Piece::Painted(String::from_str("Failed tests:"), Paint { tint: Tint::Red, bold: false }),
    );
    line.push(Piece::Plain(String::from_str(" ")));
    line.push(Piece::Plain(join_names(failed_names)));
    assert(line_view(line@) =~= failed_line_of(names_view(failed_names@)));
    line
}

/// The lines that a report opens with: a rule, the number of packs, the number of tests
/// and a rule.
pub fn opening(packs: usize, tests: usize) -> (lines: Vec<Line>)
    ensures
        lines_view(lines@) == opening_of(packs as u64, tests as u64),
{
    let mut lines: Vec<Line> = Vec::new();
    lines.push(Line::Rule);
    lines.push(Line::Text(threads_line(packs)));
    lines.push(Line::Text(test_count_line(tests)));
    lines.push(Line::Rule);
    assert(lines_view(lines@) =~= opening_of(packs as u64, tests as u64));
    lines
}

/// The lines that a report closes with: a rule, the counts and the time that the whole
/// run took; then, where `print_failed` is set, a rule and the names of the tests with a
/// wrong answer.
pub fn closing(summary: &RunSummary, total: Elapsed, print_failed: bool) -> (lines: Vec<Line>)
    ensures
        lines_view(lines@) == closing_of(
            summary.passed as u64,
            summary.timed_out as u64,
            summary.wrong_answer as u64,
            names_view(summary.failed_names@),
            total,
            print_failed,
        ),
{
    let mut lines: Vec<Line> = Vec::new();
    lines.push(Line::Rule);
    lines.push(Line::Text(summary_line(summary)));
    lines.push(Line::Text(total_time_line(total)));
    if print_failed {
        lines.push(Line::Rule);
        lines.push(Line::Text(failed_line(&summary.failed_names)));
    }
    assert(lines_view(lines@) =~= closing_of(
        summary.passed as u64,
        summary.timed_out as u64,
        summary.wrong_answer as u64,
        names_view(summary.failed_names@),
        total,
        print_failed,
    ));
    lines
}

} // verus!
