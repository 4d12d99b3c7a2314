use judge_harness::outcome::{Elapsed, Outcome};
use judge_harness::report::{
    closing, failed_line, join_names, opening, outcome_line, outcome_paint, outcome_word,
    pad_right, spacer, summary_line, test_count_line, test_label, threads_line, total_time_line,
    Line, Paint, Piece, Tint, LABEL_WIDTH,
};
use judge_harness::tally::RunSummary;

#[test]
fn a_short_text_is_filled_up_with_spaces() {
    assert_eq!(pad_right("[a]".to_string(), 10), "[a]       ");
    assert_eq!(pad_right("".to_string(), 3), "   ");
    assert_eq!(pad_right("ab".to_string(), 3), "ab ");
}

#[test]
fn a_text_that_is_wide_enough_stays_as_it_is() {
    assert_eq!(pad_right("abc".to_string(), 3), "abc");
    assert_eq!(pad_right("abcdef".to_string(), 3), "abcdef");
    assert_eq!(pad_right("abc".to_string(), 0), "abc");
    assert_eq!(pad_right("".to_string(), 0), "");
}

#[test]
fn the_width_is_counted_in_bytes() {
    assert_eq!(pad_right("\u{e9}".to_string(), 3), "\u{e9} ");
    assert_eq!(pad_right("\u{17c}\u{f3}\u{142}".to_string(), 6), "\u{17c}\u{f3}\u{142}");
    assert_eq!(pad_right("\u{1f600}".to_string(), 5), "\u{1f600} ");
    for width in 0..12 {
        let out = pad_right("\u{17c}a".to_string(), width);
        assert_eq!(out.len(), width.max(3));
        assert!(out.starts_with("\u{17c}a"));
    }
}

#[test]
fn a_rule_is_made_of_equals_signs() {
    assert_eq!(spacer(0), "");
    assert_eq!(spacer(1), "=");
    assert_eq!(spacer(5), "=====");
    assert_eq!(spacer(80), "=".repeat(80));
    assert_eq!(spacer(u16::MAX).len(), 65535);
}

#[test]
fn a_label_is_the_name_in_brackets_filled_up_to_ten() {
    assert_eq!(LABEL_WIDTH, 10);
    assert_eq!(test_label("a"), "[a]       ");
    assert_eq!(test_label(""), "[]        ");
    assert_eq!(test_label("12345678"), "[12345678]");
    assert_eq!(test_label("123456789"), "[123456789]");
    assert_eq!(test_label("test42"), "[test42]  ");
}

#[test]
fn each_outcome_has_its_word() {
    assert_eq!(outcome_word(Outcome::Passed(Elapsed { secs: 0, nanos: 0 })), "OK");
    assert_eq!(outcome_word(Outcome::TimedOut), "TLE");
    assert_eq!(outcome_word(Outcome::WrongAnswer), "WRONG ANSWER");
}

fn plain(text: &str) -> Piece {
    Piece::Plain(text.to_string())
}

const GREEN: Paint = Paint { tint: Tint::Green, bold: false };
const YELLOW: Paint = Paint { tint: Tint::Yellow, bold: false };
const RED: Paint = Paint { tint: Tint::Red, bold: false };

#[test]
fn each_outcome_has_its_colour() {
    assert_eq!(outcome_paint(Outcome::Passed(Elapsed { secs: 0, nanos: 0 })), GREEN);
    assert_eq!(outcome_paint(Outcome::TimedOut), Paint { tint: Tint::Yellow, bold: true });
    assert_eq!(outcome_paint(Outcome::WrongAnswer), Paint { tint: Tint::Red, bold: true });
}

#[test]
fn a_passed_test_is_shown_with_its_time() {
    let taken = Elapsed { secs: 1, nanos: 500_000_000 };
    let line = outcome_line("a", Outcome::Passed(taken), Elapsed { secs: 9, nanos: 9 });
    assert_eq!(
        line,
        vec![
            plain("[a]       "),
            plain(" "),
            Piece::Painted("OK".to_string(), GREEN),
            plain(" - "),
            Piece::Seconds(taken),
            plain("s"),
        ]
    );
}

#[test]
fn a_timed_out_test_is_shown_with_its_whole_seconds() {
    let line = outcome_line("slow", Outcome::TimedOut, Elapsed { secs: 32, nanos: 999_999_999 });
    assert_eq!(
        line,
        vec![
            plain("[slow]    "),
            plain(" "),
            Piece::Painted("TLE".to_string(), Paint { tint: Tint::Yellow, bold: true }),
            plain(" - "),
            Piece::Number(32, None),
            plain("s"),
        ]
    );
}

#[test]
fn a_wrong_answer_is_shown_without_a_time() {
    let line = outcome_line("a_long_name", Outcome::WrongAnswer, Elapsed { secs: 1, nanos: 0 });
    assert_eq!(
        line,
        vec![
            plain("[a_long_name]"),
            plain(" "),
            Piece::Painted("WRONG ANSWER".to_string(), Paint { tint: Tint::Red, bold: true }),
        ]
    );
}

#[test]
fn a_report_opens_with_the_numbers_of_packs_and_tests() {
    assert_eq!(threads_line(2), vec![plain("Threads: "), Piece::Number(2, None)]);
    assert_eq!(test_count_line(5), vec![plain("Test count: "), Piece::Number(5, None)]);
    assert_eq!(
        opening(2, 5),
        vec![
            Line::Rule,
            Line::Text(vec![plain("Threads: "), Piece::Number(2, None)]),
            Line::Text(vec![plain("Test count: "), Piece::Number(5, None)]),
            Line::Rule,
        ]
    );
    assert_eq!(opening(0, 0)[1], Line::Text(vec![plain("Threads: "), Piece::Number(0, None)]));
}

fn summary_of(passed: usize, timed_out: usize, failed: &[&str]) -> RunSummary {
    RunSummary {
        passed,
        timed_out,
        wrong_answer: failed.len(),
        failed_names: failed.iter().map(|n| n.to_string()).collect(),
    }
}

#[test]
fn the_counts_are_shown_each_in_its_colour() {
    let line = summary_line(&summary_of(3, 1, &["x"]));
    assert_eq!(
        line,
        vec![
            plain("OK - "),
            Piece::Number(3, Some(GREEN)),
            plain(" | TLE - "),
            Piece::Number(1, Some(YELLOW)),
            plain(" | FAILED - "),
            Piece::Number(1, Some(RED)),
        ]
    );
}

#[test]
fn the_total_time_is_shown_with_two_decimal_places() {
    let total = Elapsed { secs: 12, nanos: 345_000_000 };
    assert_eq!(
        total_time_line(total),
        vec![plain("Total testing time - "), Piece::RoundedSeconds(total), plain("s")]
    );
}

#[test]
fn names_are_joined_with_a_comma_and_a_space() {
    let names = |list: &[&str]| -> Vec<String> { list.iter().map(|n| n.to_string()).collect() };
    assert_eq!(join_names(&names(&[])), "");
    assert_eq!(join_names(&names(&["a"])), "a");
    assert_eq!(join_names(&names(&["a", "b"])), "a, b");
    assert_eq!(join_names(&names(&["t3", "t1", "t2"])), "t3, t1, t2");
    assert_eq!(join_names(&names(&["", ""])), ", ");
    assert_eq!(join_names(&names(&["x", "", "y"])), "x, , y");
}

#[test]
fn the_failed_names_are_listed_after_a_red_heading() {
    let names: Vec<String> = vec!["b".to_string(), "a".to_string()];
    assert_eq!(
        failed_line(&names),
        vec![Piece::Painted("Failed tests:".to_string(), RED), plain(" "), plain("b, a")]
    );
    assert_eq!(
        failed_line(&Vec::new()),
        vec![Piece::Painted("Failed tests:".to_string(), RED), plain(" "), plain("")]
    );
}

#[test]
fn a_report_closes_with_the_counts_and_the_total_time() {
    let summary = summary_of(0, 0, &[]);
    let total = Elapsed { secs: 0, nanos: 0 };
    assert_eq!(
        closing(&summary, total, false),
        vec![
            Line::Rule,
            Line::Text(summary_line(&summary)),
            Line::Text(total_time_line(total)),
        ]
    );
    assert_eq!(
        closing(&summary, total, false)[1],
        Line::Text(vec![
            plain("OK - "),
            Piece::Number(0, Some(GREEN)),
            plain(" | TLE - "),
            Piece::Number(0, Some(YELLOW)),
            plain(" | FAILED - "),
            Piece::Number(0, Some(RED)),
        ])
    );
}

#[test]
fn the_failed_names_close_the_report_where_they_are_asked_for() {
    let summary = summary_of(1, 2, &["p", "q"]);
    let total = Elapsed { secs: 3, nanos: 4 };
    assert_eq!(
        closing(&summary, total, true),
        vec![
            Line::Rule,
            Line::Text(summary_line(&summary)),
            Line::Text(total_time_line(total)),
            Line::Rule,
            Line::Text(vec![
                Piece::Painted("Failed tests:".to_string(), RED),
                plain(" "),
                plain("p, q"),
            ]),
        ]
    );
}
