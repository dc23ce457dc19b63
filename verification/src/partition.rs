//! Partition of the columns of a table by their visibility marks.

use crate::value::{CellValue, SpecValue};
use vstd::prelude::*;

verus! {

/// Whether a column of mark `mark` belongs to the view of `target`: its mark
/// is `b`, for both views, or the target itself.
pub open spec fn selected(mark: Seq<char>, target: Seq<char>) -> bool {
    mark == "b"@ || mark == target
}

/// The positions of the columns that belong to the view of `target`, in
/// ascending order.
pub open spec fn selected_columns(marks: Seq<Seq<char>>, target: Seq<char>) -> Seq<int>
    decreases marks.len(),
{
    if marks.len() == 0 {
        Seq::empty()
    } else {
        let before = selected_columns(marks.drop_last(), target);
        if selected(marks.last(), target) {
            before.push(marks.len() - 1)
        } else {
            before
        }
    }
}

/// The entries of `row` at the positions `columns`, in the order of `columns`.
pub open spec fn project<T>(row: Seq<T>, columns: Seq<int>) -> Seq<T> {
    Seq::new(columns.len(), |k: int| row[columns[k]])
}

/// Every row of `rows`, projected on `columns`.
pub open spec fn project_rows<T>(rows: Seq<Seq<T>>, columns: Seq<int>) -> Seq<Seq<T>> {
    Seq::new(rows.len(), |r: int| project(rows[r], columns))
}

/// The selected positions are positions of `marks`, strictly ascending, and
/// a position is among them exactly when its mark is selected.
pub proof fn lemma_selected_columns(marks: Seq<Seq<char>>, target: Seq<char>)
    ensures
        selected_columns(marks, target).len() <= marks.len(),
        forall|k: int|
            0 <= k < selected_columns(marks, target).len() ==> 0 <= (#[trigger] selected_columns(
                marks,
                target,
            )[k]) < marks.len(),
        forall|j: int, k: int|
            0 <= j < k < selected_columns(marks, target).len() ==> selected_columns(
                marks,
                target,
            )[j] < selected_columns(marks, target)[k],
        forall|c: int|
            0 <= c < marks.len() ==> (selected_columns(marks, target).contains(c) <==> selected(
                #[trigger] marks[c],
                target,
            )),
        forall|c: int|
            selected_columns(marks, target).contains(c) ==> 0 <= c < marks.len(),
    decreases marks.len(),
{
    let columns = selected_columns(marks, target);
    if marks.len() > 0 {
        let front = marks.drop_last();
        let before = selected_columns(front, target);
        let last = marks.len() - 1;
        lemma_selected_columns(front, target);
        assert forall|c: int| 0 <= c < marks.len() implies (columns.contains(c) <==> selected(
            #[trigger] marks[c],
            target,
        )) by {
            if c < last {
                assert(front[c] == marks[c]);
                if before.contains(c) {
                    let k = choose|k: int| 0 <= k < before.len() && before[k] == c;
                    assert(columns[k] == c);
                }
                if columns.contains(c) {
                    let k = choose|k: int| 0 <= k < columns.len() && columns[k] == c;
                    assert(before[k] == c);
                }
            } else {
                if selected(marks.last(), target) {
                    assert(columns[before.len() as int] == last);
                } else if columns.contains(c) {
                    let k = choose|k: int| 0 <= k < columns.len() && columns[k] == c;
                    assert(before[k] < last);
                }
            }
        }
        assert forall|c: int| columns.contains(c) implies 0 <= c < marks.len() by {
            let k = choose|k: int| 0 <= k < columns.len() && columns[k] == c;
            if k < before.len() {
                assert(before[k] == c);
            }
        }
    }
}

/// A column belongs to the server view exactly when its mark is `b` or `s`,
/// to the client view exactly when its mark is `b` or `c`, and to neither
/// view when its mark is anything else.
pub proof fn lemma_views_by_mark(marks: Seq<Seq<char>>, c: int)
    requires
        0 <= c < marks.len(),
    ensures
        selected_columns(marks, "s"@).contains(c) <==> (marks[c] == "b"@ || marks[c] == "s"@),
        selected_columns(marks, "c"@).contains(c) <==> (marks[c] == "b"@ || marks[c] == "c"@),
        marks[c] != "b"@ && marks[c] != "s"@ && marks[c] != "c"@ ==> !selected_columns(
            marks,
            "s"@,
        ).contains(c) && !selected_columns(marks, "c"@).contains(c),
{
    lemma_selected_columns(marks, "s"@);
    lemma_selected_columns(marks, "c"@);
}

/// The positions held by `indices`, as integers.
pub open spec fn positions(indices: Seq<usize>) -> Seq<int> {
    Seq::new(indices.len(), |k: int| indices[k] as int)
}

/// The columns of `headers`, `types` and of every row of `data` whose mark is
/// `b` or `target`, in their order. Headers, types and rows hold an entry for
/// every mark; what they hold beyond the marks is not read.
pub fn filter_data(
    headers: &[String],
    types: &[String],
    marks: &[String],
    data: &[Vec<CellValue>],
    target: &str,
) -> (r: (Vec<String>, Vec<String>, Vec<Vec<CellValue>>))
    requires
        headers.len() >= marks.len(),
        types.len() >= marks.len(),
        forall|i: int| 0 <= i < data.len() ==> (#[trigger] data@[i]).len() >= marks.len(),
    ensures
        r.0.deep_view() == project(
            headers.deep_view(),
            selected_columns(marks.deep_view(), target@),
        ),
        r.1.deep_view() == project(
            types.deep_view(),
            selected_columns(marks.deep_view(), target@),
        ),
        r.2.deep_view() == project_rows(
            data.deep_view(),
            selected_columns(marks.deep_view(), target@),
        ),
{
    let width: usize = marks.len();
    let both = String::from_str("b");
    let wanted = String::from_str(target);
    let ghost all = marks.deep_view();
    let mut indices: Vec<usize> = Vec::new();
    let mut c: usize = 0;
    while c < width
        invariant
            c <= width == marks.len(),
            all == marks.deep_view(),
            both@ == "b"@,
            wanted@ == target@,
            positions(indices@) == selected_columns(all.take(c as int), target@),
            forall|k: int| 0 <= k < indices.len() ==> (#[trigger] indices@[k]) < c,
        decreases width - c,
    {
        let keep: bool = marks[c] == both || marks[c] == wanted;
        proof {
            let upto = all.take(c + 1);
            assert(upto.drop_last() =~= all.take(c as int));
            assert(upto.last() == marks@[c as int]@);
        }
        if keep {
            indices.push(c);
            assert(positions(indices@) =~= selected_columns(all.take(c as int), target@).push(
                c as int,
            ));
        }
        c += 1;
    }
    assert(all.take(width as int) =~= all);
    let ghost columns = selected_columns(all, target@);
    let count: usize = indices.len();
    let mut out_headers: Vec<String> = Vec::new();
    let mut out_types: Vec<String> = Vec::new();
    let mut k: usize = 0;
    while k < count
        invariant
            k <= count == indices.len(),
            headers.len() >= width,
            types.len() >= width,
            forall|j: int| 0 <= j < indices.len() ==> (#[trigger] indices@[j]) < width,
            out_headers.len() == k,
            out_types.len() == k,
            forall|j: int| 0 <= j < k ==> (#[trigger] out_headers@[j]) == headers@[indices@[j] as int],
            forall|j: int| 0 <= j < k ==> (#[trigger] out_types@[j]) == types@[indices@[j] as int],
        decreases count - k,
    {
        let at: usize = indices[k];
        out_headers.push(headers[at].clone());
        out_types.push(types[at].clone());
        k += 1;
    }
    let mut out_data: Vec<Vec<CellValue>> = Vec::new();
    let mut r: usize = 0;
    while r < data.len()
        invariant
            r <= data.len(),
            count == indices.len(),
            forall|i: int| 0 <= i < data.len() ==> (#[trigger] data@[i]).len() >= width,
            forall|j: int| 0 <= j < indices.len() ==> (#[trigger] indices@[j]) < width,
            out_data.len() == r,
            forall|i: int|
                0 <= i < r ==> (#[trigger] out_data@[i]).len() == count && forall|j: int|
                    0 <= j < count ==> (#[trigger] out_data@[i]@[j]) == data@[i]@[indices@[j] as int],
        decreases data.len() - r,
    {
        let row = &data[r];
        let mut out_row: Vec<CellValue> = Vec::new();
        let mut j: usize = 0;
        while j < count
            invariant
                j <= count == indices.len(),
                row.len() >= width,
                forall|j: int| 0 <= j < indices.len() ==> (#[trigger] indices@[j]) < width,
                out_row.len() == j,
                forall|i: int| 0 <= i < j ==> (#[trigger] out_row@[i]) == row@[indices@[i] as int],
            decreases count - j,
        {
            out_row.push(row[indices[j]].duplicate());
            j += 1;
        }
        out_data.push(out_row);
        r += 1;
    }
    proof {
        assert(positions(indices@) == columns);
        assert forall|j: int| 0 <= j < count implies columns[j] == indices@[j] as int by {
            assert(positions(indices@)[j] == indices@[j] as int);
        }
        assert(out_headers.deep_view() =~= project(headers.deep_view(), columns));
        assert(out_types.deep_view() =~= project(types.deep_view(), columns));
        let want = project_rows::<SpecValue>(data.deep_view(), columns);
        assert forall|i: int| 0 <= i < data.len() implies out_data.deep_view()[i] == want[i] by {
            assert(out_data.deep_view()[i] == out_data@[i].deep_view());
            assert(data.deep_view()[i] == data@[i].deep_view());
            assert(out_data@[i].deep_view() =~= project(data@[i].deep_view(), columns));
        }
        assert(out_data.deep_view() =~= want);
    }
    (out_headers, out_types, out_data)
}

} // verus!
