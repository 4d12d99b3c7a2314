//! The catalog: the ordered list of test cases that a run works through, and how it is
//! made from the files of an input and an output directory.

use vstd::prelude::*;

verus! {

/// The directory that holds the inputs, where none is given.
pub const DEFAULT_INPUT_DIR: &'static str = "./in";

/// The directory that holds the expected answers, where none is given.
pub const DEFAULT_OUTPUT_DIR: &'static str = "./out";

/// One test case: its name, the file that holds its input and the file that holds the
/// expected answer. The name is that of the input file without its extension.
#[derive(Clone, Debug, PartialEq, Eq)]
pub struct Test {
    pub name: String,
    pub input: String,
    pub output: String,
}

/// A file of the input directory: its name, its path, the path where the expected answer
/// of a test of that name belongs, and whether a file is there.
#[derive(Clone, Debug, PartialEq, Eq)]
pub struct Candidate {
    pub file_name: String,
    pub input: String,
    pub output: String,
    pub output_exists: bool,
}

/// Why no catalog could be made.
#[derive(Clone, Debug, PartialEq, Eq)]
pub enum CatalogError {
    /// The input file of this name has no expected answer beside it.
    MissingOutput(String),
}

/// The end of the name of an input file.
pub open spec fn input_suffix() -> Seq<char> {
    seq!['.', 'i', 'n']
}

/// The end of the name of a file with an expected answer.
pub open spec fn output_suffix() -> Seq<char> {
    seq!['.', 'o', 'u', 't']
}

/// Whether a file of this name holds the input of a test: the name ends in `.in` and has
/// something before that.
pub open spec fn is_input_name(file_name: Seq<char>) -> bool {
    &&& file_name.len() > input_suffix().len()
    &&& file_name.subrange(file_name.len() - input_suffix().len(), file_name.len() as int)
        == input_suffix()
}

/// The name of the test that an input file holds: the file's name without `.in`.
pub open spec fn stem_of(file_name: Seq<char>) -> Seq<char> {
    file_name.take(file_name.len() - input_suffix().len())
}

/// The name of the file that holds the expected answer of the test `name`.
pub open spec fn output_name_of(name: Seq<char>) -> Seq<char> {
    name + output_suffix()
}

/// The candidates that hold the input of a test, in order.
pub open spec fn inputs_among(found: Seq<Candidate>) -> Seq<Candidate> {
    found.filter(|c: Candidate| is_input_name(c.file_name@))
}

/// Two input files of different names hold tests of different names, so the names of a
/// catalog made from the files of one directory are unique.
pub proof fn lemma_test_names_are_unique(first: Seq<char>, second: Seq<char>)
    requires
        is_input_name(first),
        is_input_name(second),
        first != second,
    ensures
        stem_of(first) != stem_of(second),
{
    if stem_of(first) == stem_of(second) {
        assert(first =~= stem_of(first) + input_suffix());
        assert(second =~= stem_of(second) + input_suffix());
    }
}

/// The candidate at `i` is the first whose expected answer is missing: all before it
/// have theirs.
pub open spec fn first_without_answer(inputs: Seq<Candidate>, i: int) -> bool {
    forall|j: int| 0 <= j < i ==> (#[trigger] inputs[j]).output_exists
}

/// No two of the candidates have the same file name, as it is with the files of one
/// directory.
pub open spec fn file_names_differ(found: Seq<Candidate>) -> bool {
    forall|i: int, j: int|
        0 <= i < j < found.len() ==> (#[trigger] found[i]).file_name@ != (
        #[trigger] found[j]).file_name@
}

/// Every input file among `found` is one of `found`.
proof fn lemma_inputs_are_found(found: Seq<Candidate>, i: int)
    requires
        0 <= i < inputs_among(found).len(),
    ensures
        is_input_name(inputs_among(found)[i].file_name@),
        exists|k: int| 0 <= k < found.len() && #[trigger] found[k] == inputs_among(found)[i],
    decreases found.len(),
{
    reveal(Seq::filter);
    if found.len() > 0 {
        let before = found.drop_last();
        if i < inputs_among(before).len() {
            lemma_inputs_are_found(before, i);
            let k = choose|k: int|
                0 <= k < before.len() && #[trigger] before[k] == inputs_among(before)[i];
            assert(found[k] == inputs_among(found)[i]);
        } else {
            assert(found[found.len() - 1] == inputs_among(found)[i]);
        }
    }
}

/// The names of a catalog are unique: where no two files have the same name, no two of
/// the tests made from them have the same name.
pub proof fn lemma_catalog_names_are_unique(found: Seq<Candidate>)
    requires
        file_names_differ(found),
    ensures
        forall|i: int, j: int|
            0 <= i < j < inputs_among(found).len() ==> stem_of(
                (#[trigger] inputs_among(found)[i]).file_name@,
            ) != stem_of((#[trigger] inputs_among(found)[j]).file_name@),
    decreases found.len(),
{
    reveal(Seq::filter);
    if found.len() > 0 {
        let before = found.drop_last();
        let last = found.last();
        assert(file_names_differ(before)) by {
            assert forall|i: int, j: int| 0 <= i < j < before.len() implies (
            #[trigger] before[i]).file_name@ != (#[trigger] before[j]).file_name@ by {
                assert(before[i] == found[i] && before[j] == found[j]);
            }
        }
        lemma_catalog_names_are_unique(before);
        assert forall|i: int, j: int| 0 <= i < j < inputs_among(found).len() implies stem_of(
            (#[trigger] inputs_among(found)[i]).file_name@,
        ) != stem_of((#[trigger] inputs_among(found)[j]).file_name@) by {
            if j >= inputs_among(before).len() {
                lemma_inputs_are_found(before, i);
                let k = choose|k: int|
                    0 <= k < before.len() && #[trigger] before[k] == inputs_among(before)[i];
                assert(found[k] == before[k]);
                lemma_test_names_are_unique(before[k].file_name@, last.file_name@);
            }
        }
    }
}

/// The name of the test whose input the file `file_name` holds, or `None` where the file
/// is no input file.
pub fn input_stem(file_name: &str) -> (stem: Option<String>)
    ensures
        stem is Some <==> is_input_name(file_name@),
        stem matches Some(name) ==> name@ == stem_of(file_name@),
{
    let len = file_name.unicode_len();
    if len <= 3 {
        return None;
    }
    let ghost tail = file_name@.subrange(len - 3, len as int);
    assert(tail.len() == 3 && tail[0] == file_name@[len - 3] && tail[1] == file_name@[len - 2]
        && tail[2] == file_name@[len - 1]);
    if file_name.get_char(len - 3) == '.' && file_name.get_char(len - 2) == 'i'
        && file_name.get_char(len - 1) == 'n' {
        assert(tail =~= input_suffix());
        let stem = file_name.substring_char(0, len - 3);
        Some(stem.to_owned())
    } else {
        None
    }
}

/// The name of the file that holds the expected answer of the test `name`.
pub fn output_file_name(name: &str) -> (file_name: String)
    ensures
        file_name@ == output_name_of(name@),
{
    proof {
        reveal_strlit(".out");
    }
    let mut file_name = name.to_owned();
    file_name.append(".out");
    file_name
}

/// Makes the catalog from the files found in the input directory, in the order given.
/// Files that are no input files are passed over. Every input file becomes one test,
/// named after the file without its extension. If the expected answer of any of them is
/// missing there is no catalog: the error names the first such input file.
pub fn build_catalog(found: Vec<Candidate>) -> (catalog: Result<Vec<Test>, CatalogError>)
    ensures
        catalog is Ok <==> forall|i: int|
            0 <= i < inputs_among(found@).len() ==> (#[trigger] inputs_among(
                found@,
            )[i]).output_exists,
        catalog matches Ok(tests) ==> tests@.len() == inputs_among(found@).len(),
        catalog matches Ok(tests) ==> forall|i: int|
            0 <= i < tests@.len() ==> (#[trigger] tests@[i]).name@ == stem_of(
                inputs_among(found@)[i].file_name@,
            ) && tests@[i].input == inputs_among(found@)[i].input && tests@[i].output
                == inputs_among(found@)[i].output,
        catalog matches Err(CatalogError::MissingOutput(file_name)) ==> exists|i: int|
            0 <= i < inputs_among(found@).len() && !(#[trigger] inputs_among(
                found@,
            )[i]).output_exists && file_name == inputs_among(found@)[i].file_name
                && first_without_answer(inputs_among(found@), i),
{
    let ghost all = found@;
    let mut tests: Vec<Test> = Vec::new();
    proof {
        reveal(Seq::filter);
    }
    for candidate in it: found
        invariant
            it.seq() == all,
            tests@.len() == inputs_among(all.take(it.index())).len(),
            forall|i: int|
                0 <= i < tests@.len() ==> (#[trigger] tests@[i]).name@ == stem_of(
                    inputs_among(all.take(it.index()))[i].file_name@,
                ) && tests@[i].input == inputs_among(all.take(it.index()))[i].input
                    && tests@[i].output == inputs_among(all.take(it.index()))[i].output,
            forall|i: int|
                0 <= i < tests@.len() ==> (#[trigger] inputs_among(
                    all.take(it.index()),
                )[i]).output_exists,
    {
        let ghost k = it.index();
        let ghost before = inputs_among(all.take(k));
        proof {
            assert(all.take(k + 1) =~= all.take(k).push(candidate));
            all.take(k).lemma_filter_push(candidate, |c: Candidate| is_input_name(c.file_name@));
        }
        match input_stem(candidate.file_name.as_str()) {
            None => {},
            Some(name) => {
                proof {
                    assert(inputs_among(all.take(k + 1)) == before.push(candidate));
                    assert(all =~= all.take(k + 1) + all.skip(k + 1));
                    Seq::filter_distributes_over_add(
                        all.take(k + 1),
                        all.skip(k + 1),
                        |c: Candidate| is_input_name(c.file_name@),
                    );
                    assert(inputs_among(all)[before.len() as int] == candidate);
                    assert forall|j: int| 0 <= j < before.len() implies (#[trigger] inputs_among(
                        all,
                    )[j]).output_exists by {
                        assert(inputs_among(all)[j] == before[j]);
                    }
                }
                if !candidate.output_exists {
                    return Err(CatalogError::MissingOutput(candidate.file_name));
                }
                tests.push(Test { name, input: candidate.input, output: candidate.output });
            },
        }
    }
    proof {
        assert(all.take(all.len() as int) =~= all);
    }
    Ok(tests)
}

} // verus!
