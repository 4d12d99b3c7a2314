use judge_harness::outcome::{
    classify, is_whitespace_char, outputs_match, strip_whitespace, Elapsed, Outcome,
};

fn text(chars: &[char]) -> String {
    chars.iter().collect()
}

const TAKEN: Elapsed = Elapsed { secs: 1, nanos: 250_000_000 };

#[test]
fn answers_that_differ_in_whitespace_only_pass() {
    assert_eq!(text(&strip_whitespace("1 2\n3")), "123");
    assert_eq!(text(&strip_whitespace("12\n3 ")), "123");
    assert_eq!(classify(Some("1 2\n3"), "12\n3 ", TAKEN), Outcome::Passed(TAKEN));
}

#[test]
fn another_answer_is_a_wrong_answer() {
    assert_eq!(classify(Some("4"), "5", TAKEN), Outcome::WrongAnswer);
}

#[test]
fn a_stopped_run_is_timed_out_whatever_was_expected() {
    assert_eq!(classify(None, "5", TAKEN), Outcome::TimedOut);
    assert_eq!(classify(None, "", TAKEN), Outcome::TimedOut);
    assert_eq!(classify(None, " \n", Elapsed { secs: 40, nanos: 0 }), Outcome::TimedOut);
}

#[test]
fn a_passed_run_carries_its_time() {
    let taken = Elapsed { secs: 0, nanos: 17 };
    match classify(Some("ok"), "ok\n", taken) {
        Outcome::Passed(kept) => {
            assert_eq!(kept.secs, 0);
            assert_eq!(kept.nanos, 17);
        }
        other => panic!("expected a pass, got {other:?}"),
    }
}

#[test]
fn whitespace_is_removed_everywhere_not_only_at_the_ends() {
    assert_eq!(text(&strip_whitespace("  a b\tc\r\nd  ")), "abcd");
    assert_eq!(text(&strip_whitespace("")), "");
    assert_eq!(text(&strip_whitespace(" \t\n\r\u{b}\u{c}")), "");
    assert_eq!(text(&strip_whitespace("a\u{a0}b\u{2003}c\u{3000}d\u{85}e")), "abcde");
    assert_eq!(text(&strip_whitespace("\u{17c}\u{f3} \u{142}\t1")), "\u{17c}\u{f3}\u{142}1");
}

#[test]
fn characters_that_are_no_whitespace_stay() {
    assert_eq!(text(&strip_whitespace("a\u{200b}b")), "a\u{200b}b");
    assert_eq!(text(&strip_whitespace("a\u{180e}b")), "a\u{180e}b");
    assert_eq!(text(&strip_whitespace("a\u{feff}b\0c")), "a\u{feff}b\0c");
}

#[test]
fn whitespace_is_what_the_standard_library_calls_whitespace() {
    for code in 0..=0x10FFFFu32 {
        if let Some(c) = char::from_u32(code) {
            assert_eq!(is_whitespace_char(c), c.is_whitespace(), "U+{code:04X}");
        }
    }
}

#[test]
fn matching_looks_at_what_is_left_in_order() {
    assert!(outputs_match("1 2 3", "123"));
    assert!(outputs_match("", " \n"));
    assert!(outputs_match("a\nb\n", "a b"));
    assert!(!outputs_match("12", "21"));
    assert!(!outputs_match("1", "11"));
    assert!(!outputs_match("11", "1"));
    assert!(!outputs_match("", "0"));
    assert!(!outputs_match("abc", "ABC"));
}

#[test]
fn an_empty_answer_passes_where_nothing_is_expected() {
    assert_eq!(classify(Some(""), "", TAKEN), Outcome::Passed(TAKEN));
    assert_eq!(classify(Some("\n"), "", TAKEN), Outcome::Passed(TAKEN));
    assert_eq!(classify(Some(""), "x", TAKEN), Outcome::WrongAnswer);
}

#[test]
fn a_run_passes_exactly_if_the_stripped_answers_are_the_same() {
    let samples =
        ["", " ", "1", "1 ", " 1", "1 2", "12", "2 1", "1\n2\n", "a b c", "abc", "ab c d"];
    for actual in samples {
        for expected in samples {
            let same = strip_whitespace(actual) == strip_whitespace(expected);
            let outcome = classify(Some(actual), expected, TAKEN);
            assert_eq!(outcome == Outcome::Passed(TAKEN), same);
            assert_eq!(outcome == Outcome::WrongAnswer, !same);
        }
    }
}
