//! The outcome of one run: how an answer is compared with the expected one, and how a run
//! is classified.

use vstd::prelude::*;

verus! {

/// The wall-clock time of one run: whole seconds, and the nanoseconds beyond them.
#[derive(Clone, Copy, Debug, PartialEq, Eq, Structural)]
pub struct Elapsed {
    pub secs: u64,
    pub nanos: u32,
}

/// How one run ended. A run that was stopped for taking too long and one that was stopped
/// for using too much memory are both `TimedOut`.
#[derive(Clone, Copy, Debug, PartialEq, Eq, Structural)]
pub enum Outcome {
    /// The answer matched; the run took this long.
    Passed(Elapsed),
    /// The run was stopped because it went over a limit.
    TimedOut,
    /// The run ended within its limits with another answer.
    WrongAnswer,
}

/// Whether `c` has the Unicode property `White_Space`.
pub open spec fn is_whitespace(c: char) -> bool {
    let u = c as u32;
    ||| 0x09 <= u <= 0x0D
    ||| u == 0x20
    ||| u == 0x85
    ||| u == 0xA0
    ||| u == 0x1680
    ||| 0x2000 <= u <= 0x200A
    ||| u == 0x2028
    ||| u == 0x2029
    ||| u == 0x202F
    ||| u == 0x205F
    ||| u == 0x3000
}

/// `text` with every whitespace character taken out, wherever it stands.
pub open spec fn without_whitespace(text: Seq<char>) -> Seq<char> {
    text.filter(|c: char| !is_whitespace(c))
}

/// Whether two answers are the same but for whitespace.
pub open spec fn answers_match(actual: Seq<char>, expected: Seq<char>) -> bool {
    without_whitespace(actual) == without_whitespace(expected)
}

/// The outcome of a run that took `elapsed` and printed `output`, where `None` stands for
/// a run that was stopped at a limit, against the answer `expected`.
pub open spec fn verdict(
    output: Option<Seq<char>>,
    expected: Seq<char>,
    elapsed: Elapsed,
) -> Outcome {
    match output {
        None => Outcome::TimedOut,
        Some(actual) => if answers_match(actual, expected) {
            Outcome::Passed(elapsed)
        } else {
            Outcome::WrongAnswer
        },
    }
}

/// What a captured output holds, as a sequence of characters.
pub open spec fn output_view(output: Option<&str>) -> Option<Seq<char>> {
    match output {
        None => None,
        Some(text) => Some(text@),
    }
}

/// Text that holds whitespace only leaves nothing.
proof fn lemma_whitespace_leaves_nothing(gap: Seq<char>)
    requires
        forall|i: int| 0 <= i < gap.len() ==> is_whitespace(#[trigger] gap[i]),
    ensures
        without_whitespace(gap) == Seq::<char>::empty(),
    decreases gap.len(),
{
    reveal(Seq::filter);
    if gap.len() > 0 {
        lemma_whitespace_leaves_nothing(gap.drop_last());
    }
    assert(without_whitespace(gap) =~= Seq::<char>::empty());
}

/// Whitespace counts nowhere: whatever whitespace stands between two pieces of text, at
/// the start, in the middle or at the end, what is left is what the two pieces leave.
pub proof fn lemma_whitespace_is_ignored(before: Seq<char>, gap: Seq<char>, after: Seq<char>)
    requires
        forall|i: int| 0 <= i < gap.len() ==> is_whitespace(#[trigger] gap[i]),
    ensures
        without_whitespace(before + gap + after) == without_whitespace(before + after),
        answers_match(before + gap + after, before + after),
{
    let keep = |c: char| !is_whitespace(c);
    lemma_whitespace_leaves_nothing(gap);
    Seq::filter_distributes_over_add(before, gap, keep);
    Seq::filter_distributes_over_add(before + gap, after, keep);
    Seq::filter_distributes_over_add(before, after, keep);
    assert(without_whitespace(before) + Seq::<char>::empty() =~= without_whitespace(before));
}

/// Nothing but whitespace is taken out: text without whitespace stays as it is, and what
/// is left of any text holds no whitespace.
pub proof fn lemma_only_whitespace_is_removed(text: Seq<char>)
    ensures
        (forall|i: int| 0 <= i < text.len() ==> !is_whitespace(#[trigger] text[i]))
            ==> without_whitespace(text) == text,
        forall|i: int|
            0 <= i < without_whitespace(text).len() ==> !is_whitespace(
                #[trigger] without_whitespace(text)[i],
            ),
        without_whitespace(without_whitespace(text)) == without_whitespace(text),
    decreases text.len(),
{
    let keep = |c: char| !is_whitespace(c);
    reveal(Seq::filter);
    if text.len() > 0 {
        let front = text.drop_last();
        lemma_only_whitespace_is_removed(front);
        assert(text =~= front.push(text.last()));
        front.lemma_filter_push(text.last(), keep);
        without_whitespace(front).lemma_filter_push(text.last(), keep);
        if forall|i: int| 0 <= i < text.len() ==> !is_whitespace(#[trigger] text[i]) {
            assert forall|i: int| 0 <= i < front.len() implies !is_whitespace(
                #[trigger] front[i],
            ) by {
                assert(front[i] == text[i]);
            }
            assert(!is_whitespace(text[text.len() - 1]));
        }
    }
}

/// Tells whether `c` is whitespace.
pub fn is_whitespace_char(c: char) -> (b: bool)
    ensures
        b == is_whitespace(c),
{
    let u: u32 = c as u32;
    (0x09 <= u && u <= 0x0D) || u == 0x20 || u == 0x85 || u == 0xA0 || u == 0x1680 || (0x2000 <= u
        && u <= 0x200A) || u == 0x2028 || u == 0x2029 || u == 0x202F || u == 0x205F || u == 0x3000
}

/// Returns the characters of `text` that are not whitespace, in order.
pub fn strip_whitespace(text: &str) -> (kept: Vec<char>)
    ensures
        kept@ == without_whitespace(text@),
{
    let mut kept: Vec<char> = Vec::new();
    proof {
        reveal(Seq::filter);
        assert(text@.take(0) =~= Seq::<char>::empty());
    }
    for c in it: text.chars()
        invariant
            it.seq() == text@,
            kept@ == without_whitespace(text@.take(it.index())),
    {
        proof {
            let k = it.index();
            assert(text@.take(k + 1) =~= text@.take(k).push(c));
            text@.take(k).lemma_filter_push(c, |c: char| !is_whitespace(c));
        }
        if !is_whitespace_char(c) {
            kept.push(c);
        }
    }
    proof {
        assert(text@.take(text@.len() as int) =~= text@);
    }
    kept
}

/// Tells whether two sequences of characters are the same.
fn same_chars(left: &Vec<char>, right: &Vec<char>) -> (same: bool)
    ensures
        same == (left@ == right@),
{
    if left.len() != right.len() {
        return false;
    }
    let mut i: usize = 0;
    while i < left.len()
        invariant
            left@.len() == right@.len(),
            i <= left@.len(),
            left@.take(i as int) == right@.take(i as int),
        decreases left@.len() - i,
    {
        if left[i] != right[i] {
            return false;
        }
        assert(left@.take(i + 1) =~= left@.take(i as int).push(left@[i as int]));
        assert(right@.take(i + 1) =~= right@.take(i as int).push(right@[i as int]));
        i = i + 1;
    }
    assert(left@.take(i as int) =~= left@);
    assert(right@.take(i as int) =~= right@);
    true
}

/// Compares an answer with the expected one, whitespace aside.
pub fn outputs_match(actual: &str, expected: &str) -> (same: bool)
    ensures
        same == answers_match(actual@, expected@),
{
    let left = strip_whitespace(actual);
    let right = strip_whitespace(expected);
    same_chars(&left, &right)
}

/// Classifies one run. `output` is what the subject printed, or `None` where it was stopped
/// for going over its time or memory limit; `expected` is the expected answer and `elapsed`
/// the wall-clock time of the run.
///
/// A stopped run is `TimedOut` whatever it had printed. Any other run is `Passed` with
/// `elapsed` exactly if its output and `expected` are the same once every whitespace
/// character is removed from both, and `WrongAnswer` if they are not.
pub fn classify(output: Option<&str>, expected: &str, elapsed: Elapsed) -> (outcome: Outcome)
    ensures
        outcome == verdict(output_view(output), expected@, elapsed),
        outcome is TimedOut <==> output is None,
        outcome is Passed <==> (output matches Some(actual) && without_whitespace(actual@)
            == without_whitespace(expected@)),
        outcome is WrongAnswer <==> (output matches Some(actual) && without_whitespace(actual@)
            != without_whitespace(expected@)),
        outcome matches Outcome::Passed(taken) ==> taken == elapsed,
{
    match output {
        None => Outcome::TimedOut,
        Some(actual) => {
            if outputs_match(actual, expected) {
                Outcome::Passed(elapsed)
            } else {
                Outcome::WrongAnswer
            }
        },
    }
}

} // verus!
