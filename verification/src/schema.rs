//! The schema of a worksheet: the marks, types and headers of its columns,
//! taken from the three reserved rows that follow the leading row.

use crate::error::{SpecError, XlsxError};
use crate::text::{lowered, normalize, trim, trimmed};
use crate::value::{RawCell, SpecCell};
use vstd::prelude::*;

verus! {

/// The columns of a worksheet, as its reserved rows declare them.
#[derive(Debug, Clone, PartialEq, Eq)]
pub struct Schema {
    /// Per column, the visibility mark: trimmed and in lower case.
    pub marks: Vec<String>,
    /// Per column, the declared type token, trimmed.
    pub types: Vec<String>,
    /// Per column, the name, trimmed and never empty.
    pub headers: Vec<String>,
}

/// The model of a `Schema`.
pub struct SpecSchema {
    pub marks: Seq<Seq<char>>,
    pub types: Seq<Seq<char>>,
    pub headers: Seq<Seq<char>>,
}

impl SpecSchema {
    /// The three sequences run in parallel and no header is empty.
    pub open spec fn wf(self) -> bool {
        &&& self.marks.len() == self.headers.len()
        &&& self.types.len() == self.headers.len()
        &&& forall|c: int| 0 <= c < self.headers.len() ==> (#[trigger] self.headers[c]).len() > 0
    }
}

impl View for Schema {
    type V = SpecSchema;

    open spec fn view(&self) -> SpecSchema {
        SpecSchema {
            marks: self.marks.deep_view(),
            types: self.types.deep_view(),
            headers: self.headers.deep_view(),
        }
    }
}

/// The cell of a row at column `c`; where the row ends before that column,
/// a cell that holds nothing.
pub open spec fn cell_at(row: Seq<SpecCell>, c: int) -> SpecCell {
    if 0 <= c < row.len() {
        row[c]
    } else {
        SpecCell { text: Seq::empty(), float_bits: None }
    }
}

/// The number of columns of a worksheet: the position of the first cell of
/// the header row that is empty once trimmed, or the length of the row where
/// there is no such cell.
pub open spec fn header_count(header_row: Seq<SpecCell>) -> nat
    decreases header_row.len(),
{
    if header_row.len() == 0 || trimmed(header_row[0].text).len() == 0 {
        0
    } else {
        1 + header_count(header_row.drop_first())
    }
}

/// The schema of a table of at least four rows.
pub open spec fn schema_of(rows: Seq<Seq<SpecCell>>) -> SpecSchema
    recommends
        rows.len() >= 4,
{
    let n = header_count(rows[3]);
    SpecSchema {
        marks: Seq::new(n, |c: int| lowered(trimmed(cell_at(rows[1], c).text))),
        types: Seq::new(n, |c: int| trimmed(cell_at(rows[2], c).text)),
        headers: Seq::new(n, |c: int| trimmed(cell_at(rows[3], c).text)),
    }
}

/// The failure of a table that lacks the reserved rows.
pub open spec fn too_few_rows() -> SpecError {
    SpecError::InvalidExcel(
        "must contain mark row, type row, header row, and at least one data row"@,
    )
}

/// What extraction yields: the schema, or the failure of a table of fewer
/// than four rows.
pub open spec fn extracted(rows: Seq<Seq<SpecCell>>) -> Result<SpecSchema, SpecError> {
    if rows.len() < 4 {
        Err(too_few_rows())
    } else {
        Ok(schema_of(rows))
    }
}

/// The model of the outcome of an extraction.
pub open spec fn extraction_view(r: Result<Schema, XlsxError>) -> Result<SpecSchema, SpecError> {
    match r {
        Ok(s) => Ok(s@),
        Err(e) => Err(e@),
    }
}

/// `header_count` is the one position `k` before which no header is empty and
/// at which the row ends or holds an empty header.
pub proof fn lemma_header_count(header_row: Seq<SpecCell>, k: int)
    requires
        0 <= k <= header_row.len(),
        forall|c: int| 0 <= c < k ==> trimmed((#[trigger] header_row[c]).text).len() > 0,
        k < header_row.len() ==> trimmed(header_row[k].text).len() == 0,
    ensures
        header_count(header_row) == k,
    decreases k,
{
    if k > 0 {
        let rest = header_row.drop_first();
        assert(trimmed(header_row[0].text).len() > 0);
        assert forall|c: int| 0 <= c < k - 1 implies trimmed((#[trigger] rest[c]).text).len()
            > 0 by {
            assert(rest[c] == header_row[c + 1]);
        }
        lemma_header_count(rest, k - 1);
    }
}

/// The column count is within the header row, the headers before it are not
/// empty, and the header at it, if there is one, is.
pub proof fn lemma_header_count_bounds(header_row: Seq<SpecCell>)
    ensures
        header_count(header_row) <= header_row.len(),
        forall|c: int|
            0 <= c < header_count(header_row) ==> trimmed((#[trigger] header_row[c]).text).len()
                > 0,
        header_count(header_row) < header_row.len() ==> trimmed(
            header_row[header_count(header_row) as int].text,
        ).len() == 0,
    decreases header_row.len(),
{
    if !(header_row.len() == 0 || trimmed(header_row[0].text).len() == 0) {
        let rest = header_row.drop_first();
        lemma_header_count_bounds(rest);
        assert forall|c: int| 0 <= c < header_count(header_row) implies trimmed(
            (#[trigger] header_row[c]).text,
        ).len() > 0 by {
            if c > 0 {
                assert(header_row[c] == rest[c - 1]);
            }
        }
        if header_count(header_row) < header_row.len() {
            assert(header_row[header_count(header_row) as int] == rest[header_count(rest) as int]);
        }
    }
}

/// The schema of a table is well formed.
pub proof fn lemma_schema_wf(rows: Seq<Seq<SpecCell>>)
    requires
        rows.len() >= 4,
    ensures
        schema_of(rows).wf(),
        schema_of(rows).headers.len() == header_count(rows[3]),
{
    lemma_header_count_bounds(rows[3]);
}

/// Reads the schema of a table from its rows 1 (marks), 2 (types) and 3
/// (headers), cut at the first empty header. A reserved row that ends before
/// the last column stands as if it went on with empty cells.
pub fn extract_schema(rows: &Vec<Vec<RawCell>>) -> (r: Result<Schema, XlsxError>)
    ensures
        extraction_view(r) == extracted(rows.deep_view()),
        r matches Ok(s) ==> s@.wf(),
{
    if rows.len() < 4 {
        return Err(
            XlsxError::InvalidExcel(
                String::from_str(
                    "must contain mark row, type row, header row, and at least one data row",
                ),
            ),
        );
    }
    let ghost table = rows.deep_view();
    let header_row = &rows[3];
    let width: usize = header_row.len();
    assert(table[3] == header_row.deep_view());
    let mut headers: Vec<String> = Vec::new();
    let mut n: usize = 0;
    let mut more: bool = true;
    while more && n < width
        invariant
            n <= width == header_row.len(),
            headers.len() == n,
            forall|c: int| 0 <= c < n ==> (#[trigger] headers@[c])@ == trimmed(header_row@[c]@.text),
            forall|c: int| 0 <= c < n ==> trimmed((#[trigger] header_row@[c])@.text).len() > 0,
            !more ==> n < width && trimmed(header_row@[n as int]@.text).len() == 0,
        decreases width - n + if more { 1int } else { 0int },
    {
        let header = trim(header_row[n].text.as_str());
        if header.as_str().is_empty() {
            more = false;
        } else {
            headers.push(header);
            n += 1;
        }
    }
    proof {
        assert forall|c: int| 0 <= c < n implies trimmed((#[trigger] table[3][c]).text).len()
            > 0 by {
            assert(table[3][c] == header_row@[c]@);
        }
        if n < width {
            assert(table[3][n as int] == header_row@[n as int]@);
        }
        lemma_header_count(table[3], n as int);
    }
    let mark_row = &rows[1];
    let type_row = &rows[2];
    assert(table[1] == mark_row.deep_view());
    assert(table[2] == type_row.deep_view());
    let mut marks: Vec<String> = Vec::new();
    let mut types: Vec<String> = Vec::new();
    let mut c: usize = 0;
    while c < n
        invariant
            c <= n,
            marks.len() == c,
            types.len() == c,
            forall|k: int|
                0 <= k < c ==> (#[trigger] marks@[k])@ == lowered(
                    trimmed(cell_at(mark_row.deep_view(), k).text),
                ),
            forall|k: int|
                0 <= k < c ==> (#[trigger] types@[k])@ == trimmed(
                    cell_at(type_row.deep_view(), k).text,
                ),
        decreases n - c,
    {
        let mark = if c < mark_row.len() {
            normalize(mark_row[c].text.as_str())
        } else {
            normalize("")
        };
        let declared = if c < type_row.len() {
            trim(type_row[c].text.as_str())
        } else {
            trim("")
        };
        proof {
            reveal_strlit("");
            assert(""@ =~= Seq::<char>::empty());
        }
        marks.push(mark);
        types.push(declared);
        c += 1;
    }
    let schema = Schema { marks, types, headers };
    proof {
        let want = schema_of(table);
        assert(schema@.marks =~= want.marks);
        assert(schema@.types =~= want.types);
        assert forall|k: int| 0 <= k < n implies schema@.headers[k] == want.headers[k] by {
            assert(table[3][k] == header_row@[k]@);
        }
        assert(schema@.headers =~= want.headers);
        lemma_schema_wf(table);
    }
    Ok(schema)
}

} // verus!
