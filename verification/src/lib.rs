//! A judge for programs that read an input and print an answer.
//!
//! A run takes a catalog of tests, each an input file with the answer expected for it,
//! splits the catalog among a bounded number of workers, runs the subject once for each
//! test under a time and a memory limit, compares what it printed with the expected
//! answer, whitespace aside, and counts how many tests passed, timed out or gave a wrong
//! answer.
//!
//! This library holds the rules of such a run: how the catalog is made and split, what a
//! worker runs next, how a run is classified, how the counts are kept and what the report
//! says. Starting the subject, reading files and writing to the terminal are left to the
//! program around it.

pub mod catalog;
pub mod limits;
pub mod outcome;
pub mod partition;
pub mod report;
pub mod tally;
pub mod worker;
