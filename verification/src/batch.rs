//! The decisions of a batch: which files are source documents, how many
//! workers convert them, and how the batch ended.

use crate::error::{SpecError, XlsxError};
use crate::path::{file_name_chars, file_name_of};
use crate::text::{begins_with, finishes_with, lowered, to_lower};
use vstd::prelude::*;

verus! {

/// Whether a file of this name is a source document: the name ends in
/// `.xlsx`, in any mix of upper and lower case, and does not begin with `~$`,
/// as the lock files of spreadsheet editors do.
pub open spec fn eligible(file_name: Seq<char>) -> bool {
    !"~$"@.is_prefix_of(file_name) && ".xlsx"@.is_suffix_of(lowered(file_name))
}

/// Whether the file at this path is a source document, which its file name
/// decides. A path that names no file is none.
pub open spec fn eligible_path(path: Seq<char>) -> bool {
    match file_name_of(path) {
        Some(name) => eligible(name),
        None => false,
    }
}

/// Whether a file that was found is a source document. A file whose name
/// cannot be written as text is none.
pub open spec fn eligible_entry(name: Option<Seq<char>>) -> bool {
    match name {
        Some(n) => eligible_path(n),
        None => false,
    }
}

/// The positions of the source documents among the entries `names`, in
/// ascending order.
pub open spec fn eligible_positions(names: Seq<Option<Seq<char>>>) -> Seq<int>
    decreases names.len(),
{
    if names.len() == 0 {
        Seq::empty()
    } else {
        let before = eligible_positions(names.drop_last());
        if eligible_entry(names.last()) {
            before.push(names.len() - 1)
        } else {
            before
        }
    }
}

/// A single input that is no source document.
pub open spec fn not_a_document() -> SpecError {
    SpecError::InvalidExcel("input file is not an Excel file"@)
}

/// A batch without any source document.
pub open spec fn nothing_found() -> SpecError {
    SpecError::Other("no eligible documents found"@)
}

/// The documents that a batch converts, by their positions among the files
/// found. Where the input is a single file and not a directory, a file that
/// is no source document is a failure. A batch without any source document
/// is a failure too.
pub open spec fn selection(is_directory: bool, names: Seq<Option<Seq<char>>>) -> Result<
    Seq<int>,
    SpecError,
> {
    let kept = eligible_positions(names);
    if !is_directory && kept.len() < names.len() {
        Err(not_a_document())
    } else if kept.len() == 0 {
        Err(nothing_found())
    } else {
        Ok(kept)
    }
}

/// The names of the entries, as models.
pub open spec fn entry_names(names: Seq<Option<String>>) -> Seq<Option<Seq<char>>> {
    Seq::new(
        names.len(),
        |i: int|
            match names[i] {
                Some(n) => Some(n@),
                None => None,
            },
    )
}

/// The model of the outcome of a selection.
pub open spec fn selection_view(r: Result<Vec<usize>, XlsxError>) -> Result<Seq<int>, SpecError> {
    match r {
        Ok(kept) => Ok(Seq::new(kept@.len(), |k: int| kept@[k] as int)),
        Err(e) => Err(e@),
    }
}

/// The number of workers of a batch: the number asked for, or else one less
/// than the number of processors at hand, and at least one.
pub open spec fn workers(requested: Option<usize>, available: usize) -> usize {
    match requested {
        Some(n) => n,
        None => if available > 1 {
            (available - 1) as usize
        } else {
            1
        },
    }
}

/// The number of failures among the first `upto` results.
pub open spec fn failed_count<T, E>(results: Seq<Result<T, E>>, upto: int) -> int
    decreases upto,
{
    if upto <= 0 {
        0
    } else {
        failed_count(results, upto - 1) + if results[upto - 1] is Err {
            1int
        } else {
            0int
        }
    }
}

/// How a batch ended: how many documents succeeded and how many failed.
#[derive(Debug, Clone, Copy, PartialEq, Eq)]
pub struct BatchSummary {
    pub succeeded: usize,
    pub failed: usize,
}

/// The failure of a batch in which a document failed.
pub open spec fn batch_failure() -> SpecError {
    SpecError::Other("errors occurred during processing"@)
}

/// Whether the documents at positions `i` and `j` would be written under one
/// output name.
pub open spec fn collide(names: Seq<Seq<char>>, i: int, j: int) -> bool {
    0 <= i < j < names.len() && names[i] == names[j]
}

/// Whether no two documents would be written under one output name.
pub open spec fn distinct(names: Seq<Seq<char>>) -> bool {
    forall|i: int, j: int| !collide(names, i, j)
}

/// The failure of a batch in which two documents share an output name.
pub open spec fn shared_output_name() -> SpecError {
    SpecError::Config("two source documents share one output name"@)
}

/// The selected positions are positions of `names`, strictly ascending, and
/// a position is among them exactly when its entry is a source document.
pub proof fn lemma_eligible_positions(names: Seq<Option<Seq<char>>>)
    ensures
        eligible_positions(names).len() <= names.len(),
        forall|j: int, k: int|
            0 <= j < k < eligible_positions(names).len() ==> eligible_positions(names)[j]
                < eligible_positions(names)[k],
        forall|k: int|
            0 <= k < eligible_positions(names).len() ==> 0 <= (#[trigger] eligible_positions(
                names,
            )[k]) < names.len(),
        forall|i: int|
            0 <= i < names.len() ==> (eligible_positions(names).contains(i) <==> eligible_entry(
                #[trigger] names[i],
            )),
    decreases names.len(),
{
    let kept = eligible_positions(names);
    if names.len() > 0 {
        let front = names.drop_last();
        let before = eligible_positions(front);
        let last = names.len() - 1;
        lemma_eligible_positions(front);
        assert forall|i: int| 0 <= i < names.len() implies (kept.contains(i) <==> eligible_entry(
            #[trigger] names[i],
        )) by {
            if i < last {
                assert(front[i] == names[i]);
                if before.contains(i) {
                    let k = choose|k: int| 0 <= k < before.len() && before[k] == i;
                    assert(kept[k] == i);
                }
                if kept.contains(i) {
                    let k = choose|k: int| 0 <= k < kept.len() && kept[k] == i;
                    assert(before[k] == i);
                }
            } else {
                if eligible_entry(names.last()) {
                    assert(kept[before.len() as int] == last);
                } else if kept.contains(i) {
                    let k = choose|k: int| 0 <= k < kept.len() && kept[k] == i;
                    assert(before[k] < last);
                }
            }
        }
    }
}

/// Each result is counted once, as a success or as a failure.
pub proof fn lemma_failed_count_bounds<T, E>(results: Seq<Result<T, E>>, upto: int)
    requires
        0 <= upto <= results.len(),
    ensures
        0 <= failed_count(results, upto) <= upto,
        failed_count(results, upto) == 0 <==> forall|i: int|
            0 <= i < upto ==> (#[trigger] results[i]) is Ok,
    decreases upto,
{
    if upto > 0 {
        lemma_failed_count_bounds(results, upto - 1);
        if failed_count(results, upto) == 0 {
            assert forall|i: int| 0 <= i < upto implies (#[trigger] results[i]) is Ok by {
                if i < upto - 1 {
                }
            }
        }
    }
}

/// Whether the file at `path` is a source document. The file name, which is
/// the final component of the path, decides; a directory of whatever name
/// before it does not count.
pub fn is_excel_file(path: &str) -> (r: bool)
    ensures
        r == eligible_path(path@),
{
    let chars = match file_name_chars(path) {
        Some(chars) => chars,
        None => {
            return false;
        },
    };
    if begins_with(&chars, "~$") {
        return false;
    }
    let n: usize = chars.len();
    let mut folded: Vec<char> = Vec::new();
    let mut i: usize = 0;
    while i < n
        invariant
            i <= n == chars.len(),
            folded@ == lowered(chars@.take(i as int)),
        decreases n - i,
    {
        folded.push(to_lower(chars[i]));
        i += 1;
        assert(folded@ =~= lowered(chars@.take(i as int)));
    }
    assert(chars@.take(n as int) =~= chars@);
    finishes_with(&folded, ".xlsx")
}

/// Picks the source documents among the files found, by position. `names`
/// holds the file name or the path of each, `None` where it is no text.
pub fn select_sources(is_directory: bool, names: &Vec<Option<String>>) -> (r: Result<
    Vec<usize>,
    XlsxError,
>)
    ensures
        selection_view(r) == selection(is_directory, entry_names(names@)),
{
    let ghost all = entry_names(names@);
    let total: usize = names.len();
    let mut kept: Vec<usize> = Vec::new();
    let mut i: usize = 0;
    while i < total
        invariant
            i <= total == names.len(),
            all == entry_names(names@),
            kept.len() <= i,
            Seq::new(kept@.len(), |k: int| kept@[k] as int) == eligible_positions(
                all.take(i as int),
            ),
        decreases total - i,
    {
        let keep: bool = match &names[i] {
            Some(name) => is_excel_file(name.as_str()),
            None => false,
        };
        proof {
            let upto = all.take(i + 1);
            assert(upto.drop_last() =~= all.take(i as int));
            assert(upto.last() == all[i as int]);
        }
        if keep {
            kept.push(i);
            assert(Seq::new(kept@.len(), |k: int| kept@[k] as int) =~= eligible_positions(
                all.take(i as int),
            ).push(i as int));
        }
        i += 1;
    }
    assert(all.take(total as int) =~= all);
    if !is_directory && kept.len() < total {
        Err(XlsxError::InvalidExcel(String::from_str("input file is not an Excel file")))
    } else if kept.len() == 0 {
        Err(XlsxError::Other(String::from_str("no eligible documents found")))
    } else {
        Ok(kept)
    }
}

/// Finds two documents that would be written under one output name: of all
/// such pairs the one whose second document comes earliest, and of these the
/// one whose first document comes earliest. `names` holds the output name of
/// each document.
pub fn find_collision(names: &Vec<String>) -> (r: Option<(usize, usize)>)
    ensures
        match r {
            Some((i, j)) => collide(names.deep_view(), i as int, j as int) && forall|a: int, b: int|
                collide(names.deep_view(), a, b) ==> j < b || (j == b && i <= a),
            None => distinct(names.deep_view()),
        },
{
    let ghost all = names.deep_view();
    let total: usize = names.len();
    let mut j: usize = 0;
    while j < total
        invariant
            j <= total == names.len(),
            all == names.deep_view(),
            forall|a: int, b: int| collide(all, a, b) ==> j <= b,
        decreases total - j,
    {
        let mut i: usize = 0;
        while i < j
            invariant
                i <= j < total == names.len(),
                all == names.deep_view(),
                forall|a: int, b: int| collide(all, a, b) ==> j <= b,
                forall|a: int| collide(all, a, j as int) ==> i <= a,
            decreases j - i,
        {
            if names[i] == names[j] {
                assert(all[i as int] == names@[i as int]@);
                assert(all[j as int] == names@[j as int]@);
                return Some((i, j));
            }
            assert(all[i as int] != all[j as int]);
            i += 1;
        }
        j += 1;
    }
    None
}

/// Makes sure that no two documents would be written under one output name,
/// so that no document overwrites another.
pub fn check_output_names(names: &Vec<String>) -> (r: Result<(), XlsxError>)
    ensures
        r is Ok <==> distinct(names.deep_view()),
        r matches Err(e) ==> e@ == shared_output_name(),
{
    match find_collision(names) {
        Some(pair) => {
            assert(collide(names.deep_view(), pair.0 as int, pair.1 as int));
            Err(XlsxError::Config(String::from_str("two source documents share one output name")))
        },
        None => Ok(()),
    }
}

/// The number of workers of a batch, given the number of processors at hand.
pub fn worker_count(requested: Option<usize>, available: usize) -> (n: usize)
    ensures
        n == workers(requested, available),
{
    match requested {
        Some(n) => n,
        None => if available > 1 {
            available - 1
        } else {
            1
        },
    }
}

/// `num_cpus::get`: the number of processors that the current system offers
/// to this process. It depends on the machine, so nothing is stated of it.
#[verifier::external_body]
fn available_processors() -> usize {
    num_cpus::get()
}

/// The number of workers of a batch on this machine: the number asked for,
/// or else what the number of its processors gives, which is at least one.
pub fn resolve_worker_count(requested: Option<usize>) -> (n: usize)
    ensures
        exists|available: usize| n == workers(requested, available),
        requested matches Some(k) ==> n == k,
        requested is None ==> n >= 1,
{
    let available = available_processors();
    let n = worker_count(requested, available);
    assert(n == workers(requested, available));
    n
}

/// Counts the documents that succeeded and those that failed.
pub fn summarize<T, E>(results: &Vec<Result<T, E>>) -> (summary: BatchSummary)
    ensures
        summary.failed == failed_count(results@, results.len() as int),
        summary.succeeded + summary.failed == results.len(),
{
    let total: usize = results.len();
    let mut succeeded: usize = 0;
    let mut failed: usize = 0;
    let mut i: usize = 0;
    while i < total
        invariant
            i <= total == results.len(),
            failed == failed_count(results@, i as int),
            succeeded + failed == i,
        decreases total - i,
    {
        match &results[i] {
            Ok(_) => {
                succeeded += 1;
            },
            Err(_) => {
                failed += 1;
            },
        }
        i += 1;
    }
    BatchSummary { succeeded, failed }
}

/// How the batch ended as a whole: it failed exactly when a document failed.
pub fn batch_result(summary: &BatchSummary) -> (r: Result<(), XlsxError>)
    ensures
        r is Err <==> summary.failed > 0,
        r matches Err(e) ==> e@ == batch_failure(),
{
    if summary.failed > 0 {
        Err(XlsxError::Other(String::from_str("errors occurred during processing")))
    } else {
        Ok(())
    }
}

} // verus!
