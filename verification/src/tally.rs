//! The counts of a run: how many tests passed, timed out or gave a wrong answer, and the
//! names of those that gave a wrong answer.

use crate::catalog::Test;
use crate::outcome::Outcome;
use crate::partition::{lemma_packs_cover_catalog, packs_of};
use vstd::prelude::*;

verus! {

/// The counts of a run as mathematical values.
pub struct Tally {
    pub passed: nat,
    pub timed_out: nat,
    pub wrong_answer: nat,
    pub failed_names: Seq<Seq<char>>,
}

impl Tally {
    /// The tally before any outcome is recorded.
    pub open spec fn empty() -> Tally {
        Tally { passed: 0, timed_out: 0, wrong_answer: 0, failed_names: Seq::empty() }
    }

    /// The number of outcomes recorded.
    pub open spec fn total(self) -> nat {
        self.passed + self.timed_out + self.wrong_answer
    }

    /// The tally after one more outcome: the counter of its kind goes up by one, and the
    /// name of a test with a wrong answer is added at the end of the failed names.
    pub open spec fn record(self, outcome: Outcome, name: Seq<char>) -> Tally {
        match outcome {
            Outcome::Passed(_) => Tally { passed: self.passed + 1, ..self },
            Outcome::TimedOut => Tally { timed_out: self.timed_out + 1, ..self },
            Outcome::WrongAnswer => Tally {
                wrong_answer: self.wrong_answer + 1,
                failed_names: self.failed_names.push(name),
                ..self
            },
        }
    }
}

/// The tally of a sequence of outcomes, each with the name of its test, recorded in order.
pub open spec fn tally_of(events: Seq<(Outcome, Seq<char>)>) -> Tally
    decreases events.len(),
{
    if events.len() == 0 {
        Tally::empty()
    } else {
        tally_of(events.drop_last()).record(events.last().0, events.last().1)
    }
}

/// The names of the tests, among `events`, that gave a wrong answer, in order.
pub open spec fn wrong_answer_names(events: Seq<(Outcome, Seq<char>)>) -> Seq<Seq<char>> {
    events.filter(|e: (Outcome, Seq<char>)| e.0 is WrongAnswer).map_values(
        |e: (Outcome, Seq<char>)| e.1,
    )
}

/// The outcomes of a list of results, each with the name of its test.
pub open spec fn events_of(results: Seq<(Test, Outcome)>) -> Seq<(Outcome, Seq<char>)> {
    Seq::new(results.len(), |i: int| (results[i].1, results[i].0.name@))
}

/// What a list of names holds.
pub open spec fn names_view(names: Seq<String>) -> Seq<Seq<char>> {
    Seq::new(names.len(), |i: int| names[i]@)
}

/// Aggregate consistency: after `n` outcomes the three counters add up to `n`, each counts
/// the outcomes of its kind, and the failed names are the names of the tests with a wrong
/// answer, one for each, in the order in which they were recorded.
pub proof fn lemma_tally_is_consistent(events: Seq<(Outcome, Seq<char>)>)
    ensures
        tally_of(events).passed + tally_of(events).timed_out + tally_of(events).wrong_answer
            == events.len(),
        tally_of(events).failed_names.len() == tally_of(events).wrong_answer,
        tally_of(events).passed == events.filter(|e: (Outcome, Seq<char>)| e.0 is Passed).len(),
        tally_of(events).timed_out == events.filter(
            |e: (Outcome, Seq<char>)| e.0 is TimedOut,
        ).len(),
        tally_of(events).wrong_answer == events.filter(
            |e: (Outcome, Seq<char>)| e.0 is WrongAnswer,
        ).len(),
        tally_of(events).failed_names == wrong_answer_names(events),
    decreases events.len(),
{
    reveal(Seq::filter);
    if events.len() > 0 {
        let before = events.drop_last();
        lemma_tally_is_consistent(before);
        assert(events =~= before.push(events.last()));
        before.lemma_filter_push(events.last(), |e: (Outcome, Seq<char>)| e.0 is Passed);
        before.lemma_filter_push(events.last(), |e: (Outcome, Seq<char>)| e.0 is TimedOut);
        before.lemma_filter_push(events.last(), |e: (Outcome, Seq<char>)| e.0 is WrongAnswer);
    }
    assert(tally_of(events).failed_names =~= wrong_answer_names(events));
}

/// A whole run accounts for every test: when a catalog of `n` tests is split into packs and
/// every test of every pack gets one outcome, in whatever order the workers record them,
/// the three counters add up to `n` and there is one failed name for each wrong answer.
pub proof fn lemma_run_accounts_for_every_test<T>(
    catalog: Seq<T>,
    max_n: nat,
    events: Seq<(Outcome, Seq<char>)>,
)
    requires
        events.len() == packs_of(catalog, max_n).flatten().len(),
    ensures
        tally_of(events).passed + tally_of(events).timed_out + tally_of(events).wrong_answer
            == catalog.len(),
        tally_of(events).failed_names.len() == tally_of(events).wrong_answer,
{
    lemma_packs_cover_catalog(catalog, max_n);
    lemma_tally_is_consistent(events);
}

/// The counts of a run while it is under way. Counters only go up and names are only
/// added; the number of failed names is always the number of wrong answers.
pub struct RunState {
    passed: usize,
    timed_out: usize,
    wrong_answer: usize,
    failed_names: Vec<String>,
}

/// The counts of a finished run.
#[derive(Clone, Debug, PartialEq, Eq)]
pub struct RunSummary {
    pub passed: usize,
    pub timed_out: usize,
    pub wrong_answer: usize,
    pub failed_names: Vec<String>,
}

impl View for RunSummary {
    type V = Tally;

    open spec fn view(&self) -> Tally {
        Tally {
            passed: self.passed as nat,
            timed_out: self.timed_out as nat,
            wrong_answer: self.wrong_answer as nat,
            failed_names: names_view(self.failed_names@),
        }
    }
}

impl View for RunState {
    type V = Tally;

    closed spec fn view(&self) -> Tally {
        Tally {
            passed: self.passed as nat,
            timed_out: self.timed_out as nat,
            wrong_answer: self.wrong_answer as nat,
            failed_names: names_view(self.failed_names@),
        }
    }
}

impl RunState {
    /// The state is well formed: there is one failed name for each wrong answer, and the
    /// number of recorded outcomes fits the counters' type.
    pub closed spec fn wf(&self) -> bool {
        &&& self.failed_names@.len() == self.wrong_answer
        &&& self.passed + self.timed_out + self.wrong_answer <= usize::MAX
    }

    /// At every moment of a run there is one failed name for each wrong answer, and the
    /// number of outcomes recorded fits in `usize`.
    pub proof fn lemma_state_is_consistent(&self)
        requires
            self.wf(),
        ensures
            self@.failed_names.len() == self@.wrong_answer,
            self@.total() <= usize::MAX,
    {
    }

    /// The state at the start of a run: nothing recorded.
    pub fn new() -> (state: RunState)
        ensures
            state.wf(),
            state@ == Tally::empty(),
    {
        let state = RunState { passed: 0, timed_out: 0, wrong_answer: 0, failed_names: Vec::new() };
        assert(state@.failed_names =~= Seq::empty());
        state
    }

    /// The number of outcomes recorded so far.
    pub fn recorded(&self) -> (count: usize)
        requires
            self.wf(),
        ensures
            count == self@.total(),
    {
        self.passed + self.timed_out + self.wrong_answer
    }

    /// Records the outcome of the test named `test_name`: exactly one counter goes up by
    /// one, and for a wrong answer the name is added at the end of the failed names. No
    /// counter ever goes down and no name is ever taken away.
    pub fn record_outcome(&mut self, outcome: Outcome, test_name: &str)
        requires
            old(self).wf(),
            old(self)@.total() < usize::MAX,
        ensures
            final(self).wf(),
            final(self)@ == old(self)@.record(outcome, test_name@),
            final(self)@.total() == old(self)@.total() + 1,
            final(self)@.passed >= old(self)@.passed,
            final(self)@.timed_out >= old(self)@.timed_out,
            final(self)@.wrong_answer >= old(self)@.wrong_answer,
            old(self)@.failed_names.is_prefix_of(final(self)@.failed_names),
    {
        match outcome {
            Outcome::Passed(_) => {
                self.passed = self.passed + 1;
            },
            Outcome::TimedOut => {
                self.timed_out = self.timed_out + 1;
            },
            Outcome::WrongAnswer => {
                self.wrong_answer = self.wrong_answer + 1;
                self.failed_names.push(test_name.to_owned());
                assert(names_view(self.failed_names@) =~= names_view(old(self).failed_names@).push(
                    test_name@,
                ));
            },
        }
    }

    /// Closes the run and hands out its counts.
    pub fn finalize(self) -> (summary: RunSummary)
        requires
            self.wf(),
        ensures
            summary@ == self@,
            summary.failed_names@.len() == summary.wrong_answer,
            summary.passed + summary.timed_out + summary.wrong_answer == self@.total(),
    {
        RunSummary {
            passed: self.passed,
            timed_out: self.timed_out,
            wrong_answer: self.wrong_answer,
            failed_names: self.failed_names,
        }
    }
}

/// Tallies the results of a run, in order.
pub fn summarize(results: &Vec<(Test, Outcome)>) -> (summary: RunSummary)
    ensures
        summary@ == tally_of(events_of(results@)),
        summary.passed + summary.timed_out + summary.wrong_answer == results@.len(),
        summary.failed_names@.len() == summary.wrong_answer,
{
    let mut state = RunState::new();
    let mut i: usize = 0;
    assert(events_of(results@).take(0) =~= Seq::empty());
    while i < results.len()
        invariant
            i <= results@.len(),
            state.wf(),
            state@ == tally_of(events_of(results@).take(i as int)),
            state@.total() == i,
        decreases results@.len() - i,
    {
        let ghost events = events_of(results@);
        assert(events.take(i + 1).drop_last() =~= events.take(i as int));
        state.record_outcome(results[i].1, results[i].0.name.as_str());
        i = i + 1;
    }
    assert(events_of(results@).take(i as int) =~= events_of(results@));
    state.finalize()
}

} // verus!
