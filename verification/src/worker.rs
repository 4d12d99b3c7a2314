//! One worker: it owns a pack and takes its tests in order, one at a time. The worker
//! says what to run next and classifies what the run gave; running the subject is left
//! to the caller.

use crate::catalog::Test;
use crate::limits::Limits;
use crate::outcome::{classify, output_view, verdict, Elapsed, Outcome};
use crate::report::{line_view, outcome_line, outcome_line_of, Piece};
use crate::tally::RunState;
use vstd::prelude::*;

verus! {

/// What a worker asks its caller to run: the subject on one test, under the limits.
#[derive(Clone, Debug, PartialEq, Eq)]
pub struct Launch {
    /// The name of the test.
    pub name: String,
    /// The command line, meant for a shell.
    pub command: String,
    /// The limits that the run is held to.
    pub limits: Limits,
    /// The file that holds the expected answer.
    pub expected: String,
}

/// The command line that runs the subject on one test: the subject as it was given, with
/// its standard input taken from the file `input`. It is meant for a shell, which reads
/// the arguments that `executable` may hold.
pub open spec fn command_of(executable: Seq<char>, input: Seq<char>) -> Seq<char> {
    executable + seq![' ', '<', ' '] + input
}

/// The command line that runs `executable` with its standard input taken from `input`.
pub fn subject_command(executable: &str, input: &str) -> (command: String)
    ensures
        command@ == command_of(executable@, input@),
{
    proof {
        reveal_strlit(" < ");
    }
    let mut command = executable.to_owned();
    command.append(" < ");
    command.append(input);
    assert(command@ =~= command_of(executable@, input@));
    command
}

/// A worker and the pack it owns. Every test of the pack gets one outcome, in pack order.
pub struct Worker {
    executable: String,
    limits: Limits,
    pack: Vec<Test>,
    outcomes: Vec<Outcome>,
}

impl Worker {
    /// The subject that the worker has run.
    pub closed spec fn executable(&self) -> Seq<char> {
        self.executable@
    }

    /// The limits that every run is held to.
    pub closed spec fn limits(&self) -> Limits {
        self.limits
    }

    /// The tests of the pack, in order.
    pub closed spec fn pack(&self) -> Seq<Test> {
        self.pack@
    }

    /// The outcomes so far: the `i`-th is that of the `i`-th test of the pack.
    pub closed spec fn outcomes(&self) -> Seq<Outcome> {
        self.outcomes@
    }

    /// There is at most one outcome for each test of the pack.
    pub open spec fn wf(&self) -> bool {
        self.outcomes().len() <= self.pack().len()
    }

    /// Every test of the pack has its outcome.
    pub open spec fn is_done(&self) -> bool {
        self.outcomes().len() == self.pack().len()
    }

    /// The test to run next, where the pack is not done.
    pub open spec fn current_test(&self) -> Test
        recommends
            self.wf(),
            !self.is_done(),
    {
        self.pack()[self.outcomes().len() as int]
    }

    /// A worker that runs `executable` on the tests of `pack` under `limits`, with no
    /// test run yet.
    pub fn new(pack: Vec<Test>, executable: String, limits: Limits) -> (worker: Worker)
        ensures
            worker.wf(),
            worker.pack() == pack@,
            worker.executable() == executable@,
            worker.limits() == limits,
            worker.outcomes() == Seq::<Outcome>::empty(),
    {
        Worker { executable, limits, pack, outcomes: Vec::new() }
    }

    /// What to run next: the subject on the first test of the pack without an outcome, or
    /// `None` when the pack is done.
    pub fn next_launch(&self) -> (launch: Option<Launch>)
        requires
            self.wf(),
        ensures
            launch is None <==> self.is_done(),
            launch matches Some(run) ==> run.name@ == self.current_test().name@,
            launch matches Some(run) ==> run.command@ == command_of(
                self.executable(),
                self.current_test().input@,
            ),
            launch matches Some(run) ==> run.limits == self.limits(),
            launch matches Some(run) ==> run.expected@ == self.current_test().output@,
    {
        let position = self.outcomes.len();
        if position < self.pack.len() {
            let test = &self.pack[position];
            Some(
                Launch {
                    name: test.name.clone(),
                    command: subject_command(self.executable.as_str(), test.input.as_str()),
                    limits: self.limits,
                    expected: test.output.clone(),
                },
            )
        } else {
            None
        }
    }

    /// Takes what the run of the current test gave, classifies it as `classify` does, and
    /// moves on to the next test. The outcome is handed back and kept, one for each test.
    /// When the pack is done already, nothing changes and `None` is returned.
    pub fn complete(&mut self, output: Option<&str>, expected: &str, elapsed: Elapsed) -> (outcome:
        Option<Outcome>)
        requires
            old(self).wf(),
        ensures
            final(self).wf(),
            final(self).pack() == old(self).pack(),
            final(self).executable() == old(self).executable(),
            final(self).limits() == old(self).limits(),
            old(self).is_done() ==> outcome is None && final(self).outcomes() == old(
                self,
            ).outcomes(),
            !old(self).is_done() ==> outcome == Some(
                verdict(output_view(output), expected@, elapsed),
            ) && final(self).outcomes() == old(self).outcomes().push(
                verdict(output_view(output), expected@, elapsed),
            ),
    {
        if self.outcomes.len() < self.pack.len() {
            let outcome = classify(output, expected, elapsed);
            self.outcomes.push(outcome);
            Some(outcome)
        } else {
            None
        }
    }

    /// One whole step of a worker: takes what the run of the current test gave, in
    /// `exec_time`, classifies it as `complete` does, records the outcome in `state` and
    /// hands back the line that reports it. Each test so causes one line and one change to
    /// the counts. When the pack is done already, nothing changes and `None` is returned.
    pub fn settle(
        &mut self,
        state: &mut RunState,
        output: Option<&str>,
        expected: &str,
        exec_time: Elapsed,
    ) -> (line: Option<Vec<Piece>>)
        requires
            old(self).wf(),
            old(state).wf(),
            old(state)@.total() < usize::MAX,
        ensures
            final(self).wf(),
            final(state).wf(),
            final(self).pack() == old(self).pack(),
            final(self).executable() == old(self).executable(),
            final(self).limits() == old(self).limits(),
            old(self).is_done() ==> line is None && final(self).outcomes() == old(
                self,
            ).outcomes() && final(state)@ == old(state)@,
            !old(self).is_done() ==> final(self).outcomes() == old(self).outcomes().push(
                verdict(output_view(output), expected@, exec_time),
            ),
            !old(self).is_done() ==> final(state)@ == old(state)@.record(
                verdict(output_view(output), expected@, exec_time),
                old(self).current_test().name@,
            ),
            !old(self).is_done() ==> line is Some && line_view(line->0@) == outcome_line_of(
                old(self).current_test().name@,
                verdict(output_view(output), expected@, exec_time),
                exec_time,
            ),
    {
        let position = self.outcomes.len();
        match self.complete(output, expected, exec_time) {
            None => None,
            Some(outcome) => {
                let name = self.pack[position].name.as_str();
                state.record_outcome(outcome, name);
                Some(outcome_line(name, outcome, exec_time))
            },
        }
    }

    /// Ends the worker and hands out each test that was run with its outcome, in pack
    /// order.
    pub fn finish(self) -> (results: Vec<(Test, Outcome)>)
        requires
            self.wf(),
        ensures
            results@.len() == self.outcomes().len(),
            forall|i: int|
                0 <= i < results@.len() ==> (#[trigger] results@[i]).0 == self.pack()[i]
                    && results@[i].1 == self.outcomes()[i],
    {
        let ghost pack = self.pack@;
        let outcomes = self.outcomes;
        let mut results: Vec<(Test, Outcome)> = Vec::new();
        for test in it: self.pack
            invariant
                it.seq() == pack,
                outcomes@.len() <= pack.len(),
                results@.len() == if it.index() <= outcomes@.len() {
                    it.index()
                } else {
                    outcomes@.len() as int
                },
                forall|i: int|
                    0 <= i < results@.len() ==> (#[trigger] results@[i]).0 == pack[i]
                        && results@[i].1 == outcomes@[i],
        {
            let position = results.len();
            if position < outcomes.len() {
                results.push((test, outcomes[position]));
            }
        }
        results
    }
}

} // verus!
