//! Conversion of one worksheet, given as a table of cells, into its server
//! and client documents. Every cell under a header is converted, but for the
//! data rows that are entirely empty there; if any of them fails, all
//! failures are reported and no document comes out.

use crate::convert::{
    classify_type, convert_value_as, converted, json_text_valid, outcome_view, type_kind,
    TypeKind,
};
use crate::error::{SpecError, XlsxError};
use crate::json::{OutputJson, SpecOutput};
use crate::partition::{
    filter_data, lemma_selected_columns, project, project_rows, selected_columns,
};
use crate::schema::{
    cell_at, extract_schema, header_count, lemma_header_count, lemma_header_count_bounds,
    lemma_schema_wf, schema_of, too_few_rows, Schema, SpecSchema,
};
use crate::text::trimmed;
use crate::value::{CellValue, RawCell, SpecCell, SpecValue};
use vstd::prelude::*;

verus! {

/// The two documents that come of one worksheet.
#[derive(Debug, Clone, PartialEq, Eq)]
pub struct Document {
    pub server: OutputJson,
    pub client: OutputJson,
}

/// The model of a `Document`.
pub struct SpecDocument {
    pub server: SpecOutput,
    pub client: SpecOutput,
}

impl View for Document {
    type V = SpecDocument;

    open spec fn view(&self) -> SpecDocument {
        SpecDocument { server: self.server@, client: self.client@ }
    }
}

/// Whether a row is entirely empty under the first `width` columns: each of
/// its cells there holds the empty text, or the row ends before it. Such a
/// data row is passed over. What the row holds beyond these columns does not
/// count.
pub open spec fn empty_row(row: Seq<SpecCell>, width: int) -> bool {
    forall|c: int| 0 <= c < width ==> (#[trigger] cell_at(row, c)).text.len() == 0
}

/// The number under which failures report the row at position `r` of the
/// table: data rows start at position 4 and are counted from 5.
pub open spec fn row_number(r: int) -> usize {
    (r + 1) as usize
}

/// What the cell at column `c` of a data row converts to. A row that ends
/// before the column stands as if it went on with empty cells.
pub open spec fn cell_outcome(schema: SpecSchema, row: Seq<SpecCell>, number: usize, c: int)
    -> Result<SpecValue, SpecError> {
    let cell = cell_at(row, c);
    converted(
        cell.text,
        schema.types[c],
        number,
        schema.headers[c],
        cell.float_bits,
        json_text_valid(cell.text),
    )
}

/// The value that a cell leaves in its typed row: what it converts to, or
/// `Null` where it fails.
pub open spec fn cell_value(schema: SpecSchema, row: Seq<SpecCell>, number: usize, c: int)
    -> SpecValue {
    match cell_outcome(schema, row, number, c) {
        Ok(v) => v,
        Err(_) => SpecValue::Null,
    }
}

/// The typed row of a data row: one value per column of the schema.
pub open spec fn typed_row(schema: SpecSchema, row: Seq<SpecCell>, number: usize) -> Seq<
    SpecValue,
> {
    Seq::new(schema.headers.len(), |c: int| cell_value(schema, row, number, c))
}

/// The failures of the first `upto` columns of a data row, in column order.
pub open spec fn row_failures(schema: SpecSchema, row: Seq<SpecCell>, number: usize, upto: int)
    -> Seq<SpecError>
    decreases upto,
{
    if upto <= 0 {
        Seq::empty()
    } else {
        let before = row_failures(schema, row, number, upto - 1);
        match cell_outcome(schema, row, number, upto - 1) {
            Ok(_) => before,
            Err(e) => before.push(e),
        }
    }
}

/// The typed rows of the data rows before position `upto`, in their order.
/// A row that is entirely empty is passed over.
pub open spec fn typed_rows(schema: SpecSchema, table: Seq<Seq<SpecCell>>, upto: int) -> Seq<
    Seq<SpecValue>,
>
    decreases upto,
{
    if upto <= 4 {
        Seq::empty()
    } else {
        let before = typed_rows(schema, table, upto - 1);
        let row = table[upto - 1];
        if empty_row(row, schema.headers.len() as int) {
            before
        } else {
            before.push(typed_row(schema, row, row_number(upto - 1)))
        }
    }
}

/// The failures of the data rows before position `upto`, row by row and
/// within a row in column order.
pub open spec fn failures(schema: SpecSchema, table: Seq<Seq<SpecCell>>, upto: int) -> Seq<
    SpecError,
>
    decreases upto,
{
    if upto <= 4 {
        Seq::empty()
    } else {
        let before = failures(schema, table, upto - 1);
        let row = table[upto - 1];
        if empty_row(row, schema.headers.len() as int) {
            before
        } else {
            before + row_failures(
                schema,
                row,
                row_number(upto - 1),
                schema.headers.len() as int,
            )
        }
    }
}

/// The document of the view of `target`: the columns whose mark is `b` or
/// `target`, and of every typed row the values of these columns.
pub open spec fn view_of(schema: SpecSchema, rows: Seq<Seq<SpecValue>>, target: Seq<char>)
    -> SpecOutput {
    let columns = selected_columns(schema.marks, target);
    SpecOutput {
        headers: project(schema.headers, columns),
        types: project(schema.types, columns),
        data: project_rows(rows, columns),
    }
}

/// What a table converts to: the failure of a table of fewer than four rows;
/// else all failures of its cells, if there is any; else its two documents.
pub open spec fn document_of(table: Seq<Seq<SpecCell>>) -> Result<SpecDocument, Seq<SpecError>> {
    if table.len() < 4 {
        Err(seq![too_few_rows()])
    } else {
        let schema = schema_of(table);
        let failed = failures(schema, table, table.len() as int);
        if failed.len() > 0 {
            Err(failed)
        } else {
            let rows = typed_rows(schema, table, table.len() as int);
            Ok(
                SpecDocument {
                    server: view_of(schema, rows, "s"@),
                    client: view_of(schema, rows, "c"@),
                },
            )
        }
    }
}

/// The model of the outcome of the conversion of a table.
pub open spec fn document_view(r: Result<Document, Vec<XlsxError>>) -> Result<
    SpecDocument,
    Seq<SpecError>,
> {
    match r {
        Ok(d) => Ok(d@),
        Err(es) => Err(es.deep_view()),
    }
}

/// Whether the cell at position `r`, `c` of a table is converted: it lies
/// under a column of the schema, in a data row that is not entirely empty
/// under these columns.
pub open spec fn is_data_cell(table: Seq<Seq<SpecCell>>, r: int, c: int) -> bool {
    &&& 4 <= r < table.len()
    &&& !empty_row(table[r], header_count(table[3]) as int)
    &&& 0 <= c < header_count(table[3])
}

/// Whether two tables hold the same cells in the first `n` columns of all
/// rows but the leading one.
pub open spec fn agree_before(a: Seq<Seq<SpecCell>>, b: Seq<Seq<SpecCell>>, n: int) -> bool {
    &&& a.len() == b.len()
    &&& forall|r: int, c: int|
        1 <= r < a.len() && 0 <= c < n ==> #[trigger] cell_at(a[r], c) == cell_at(b[r], c)
}

/// Every typed row holds one value per column.
pub proof fn lemma_typed_rows_aligned(schema: SpecSchema, table: Seq<Seq<SpecCell>>, upto: int)
    ensures
        forall|i: int|
            0 <= i < typed_rows(schema, table, upto).len() ==> (#[trigger] typed_rows(
                schema,
                table,
                upto,
            )[i]).len() == schema.headers.len(),
    decreases upto,
{
    if upto > 4 {
        lemma_typed_rows_aligned(schema, table, upto - 1);
        let before = typed_rows(schema, table, upto - 1);
        let rows = typed_rows(schema, table, upto);
        assert forall|i: int| 0 <= i < rows.len() implies (#[trigger] rows[i]).len()
            == schema.headers.len() by {
            if i < before.len() {
                assert(rows[i] == before[i]);
            }
        }
    }
}

/// The documents of a table are well formed: types and rows are as long as
/// the headers.
pub proof fn lemma_documents_wf(table: Seq<Seq<SpecCell>>)
    ensures
        document_of(table) matches Ok(document) ==> document.server.wf() && document.client.wf(),
{
    if table.len() >= 4 {
        let schema = schema_of(table);
        lemma_schema_wf(table);
        lemma_typed_rows_aligned(schema, table, table.len() as int);
        lemma_selected_columns(schema.marks, "s"@);
        lemma_selected_columns(schema.marks, "c"@);
    }
}

/// A row is free of failures exactly when each of its cells converts.
pub proof fn lemma_row_failures_empty(
    schema: SpecSchema,
    row: Seq<SpecCell>,
    number: usize,
    upto: int,
)
    ensures
        row_failures(schema, row, number, upto).len() == 0 <==> forall|c: int|
            0 <= c < upto ==> (#[trigger] cell_outcome(schema, row, number, c)) is Ok,
    decreases upto,
{
    if upto > 0 {
        lemma_row_failures_empty(schema, row, number, upto - 1);
        if row_failures(schema, row, number, upto).len() == 0 {
            assert forall|c: int| 0 <= c < upto implies (#[trigger] cell_outcome(
                schema,
                row,
                number,
                c,
            )) is Ok by {
                if c == upto - 1 {
                } else {
                    assert(0 <= c < upto - 1);
                }
            }
        } else {
            if row_failures(schema, row, number, upto - 1).len() == 0 {
                assert(cell_outcome(schema, row, number, upto - 1) is Err);
            }
        }
    }
}

/// A table is free of failures exactly when each cell of each data row that
/// is not entirely empty converts.
pub proof fn lemma_failures_empty(schema: SpecSchema, table: Seq<Seq<SpecCell>>, upto: int)
    requires
        upto <= table.len(),
    ensures
        failures(schema, table, upto).len() == 0 <==> forall|r: int, c: int|
            4 <= r < upto && !empty_row(table[r], schema.headers.len() as int) && 0 <= c
                < schema.headers.len() ==> (#[trigger] cell_outcome(schema, table[r], row_number(r), c)) is Ok,
    decreases upto,
{
    if upto > 4 {
        let row = table[upto - 1];
        let width = schema.headers.len() as int;
        lemma_failures_empty(schema, table, upto - 1);
        if !empty_row(row, width) {
            lemma_row_failures_empty(schema, row, row_number(upto - 1), width);
        }
        if failures(schema, table, upto).len() == 0 {
            assert forall|r: int, c: int|
                4 <= r < upto && !empty_row(table[r], schema.headers.len() as int) && 0 <= c
                    < schema.headers.len() implies (
            #[trigger] cell_outcome(schema, table[r], row_number(r), c)) is Ok by {
                if r == upto - 1 {
                } else {
                    assert(4 <= r < upto - 1);
                }
            }
        } else {
            if failures(schema, table, upto - 1).len() == 0 {
                assert(!empty_row(row, width));
                assert(row_failures(schema, row, row_number(upto - 1), width).len() > 0);
                let c = choose|c: int|
                    0 <= c < width && !((#[trigger] cell_outcome(
                        schema,
                        row,
                        row_number(upto - 1),
                        c,
                    )) is Ok);
                assert(cell_outcome(schema, table[upto - 1], row_number(upto - 1), c) is Err);
            }
        }
    }
}

/// A table yields its documents exactly when it has its reserved rows and
/// every converted cell converts.
pub proof fn lemma_document_ok(table: Seq<Seq<SpecCell>>)
    ensures
        document_of(table) is Ok <==> table.len() >= 4 && forall|r: int, c: int|
            is_data_cell(table, r, c) ==> (#[trigger] cell_outcome(
                schema_of(table),
                table[r],
                row_number(r),
                c,
            )) is Ok,
{
    if table.len() >= 4 {
        lemma_schema_wf(table);
        lemma_failures_empty(schema_of(table), table, table.len() as int);
    }
}

/// If any one converted cell fails, the table yields no document, however
/// many other cells convert.
pub proof fn lemma_failure_suppresses_documents(table: Seq<Seq<SpecCell>>, r: int, c: int)
    requires
        is_data_cell(table, r, c),
        cell_outcome(schema_of(table), table[r], row_number(r), c) is Err,
    ensures
        document_of(table) is Err,
{
    lemma_document_ok(table);
}

proof fn lemma_row_failures_agree(
    schema: SpecSchema,
    a: Seq<SpecCell>,
    b: Seq<SpecCell>,
    number: usize,
    upto: int,
)
    requires
        forall|c: int| 0 <= c < upto ==> #[trigger] cell_at(a, c) == cell_at(b, c),
    ensures
        row_failures(schema, a, number, upto) == row_failures(schema, b, number, upto),
    decreases upto,
{
    if upto > 0 {
        lemma_row_failures_agree(schema, a, b, number, upto - 1);
        assert(cell_at(a, upto - 1) == cell_at(b, upto - 1));
    }
}

proof fn lemma_rows_agree(
    schema: SpecSchema,
    a: Seq<Seq<SpecCell>>,
    b: Seq<Seq<SpecCell>>,
    upto: int,
)
    requires
        upto <= a.len(),
        agree_before(a, b, schema.headers.len() as int),
    ensures
        typed_rows(schema, a, upto) == typed_rows(schema, b, upto),
        failures(schema, a, upto) == failures(schema, b, upto),
    decreases upto,
{
    if upto > 4 {
        let r = upto - 1;
        let width = schema.headers.len() as int;
        lemma_rows_agree(schema, a, b, upto - 1);
        assert forall|c: int| 0 <= c < width implies #[trigger] cell_at(a[r], c) == cell_at(
            b[r],
            c,
        ) by {}
        assert(empty_row(a[r], width) <==> empty_row(b[r], width)) by {
            if empty_row(a[r], width) {
                assert forall|c: int| 0 <= c < width implies (#[trigger] cell_at(
                    b[r],
                    c,
                )).text.len() == 0 by {
                    assert(cell_at(a[r], c) == cell_at(b[r], c));
                }
            }
        }
        lemma_row_failures_agree(schema, a[r], b[r], row_number(r), width);
        assert(typed_row(schema, a[r], row_number(r)) =~= typed_row(schema, b[r], row_number(r)));
    }
}

/// Nothing beyond the first empty header is read: two tables with the same
/// number of columns that hold the same cells in these columns convert to the
/// same outcome, whatever else they hold.
pub proof fn lemma_columns_beyond_headers_ignored(a: Seq<Seq<SpecCell>>, b: Seq<Seq<SpecCell>>)
    requires
        a.len() >= 4,
        header_count(a[3]) == header_count(b[3]),
        agree_before(a, b, header_count(a[3]) as int),
    ensures
        document_of(a) == document_of(b),
{
    let n = header_count(a[3]) as int;
    let sa = schema_of(a);
    let sb = schema_of(b);
    assert forall|c: int| 0 <= c < n implies sa.marks[c] == sb.marks[c] && sa.types[c]
        == sb.types[c] && sa.headers[c] == sb.headers[c] by {
        assert(cell_at(a[1], c) == cell_at(b[1], c));
        assert(cell_at(a[2], c) == cell_at(b[2], c));
        assert(cell_at(a[3], c) == cell_at(b[3], c));
    }
    assert(sa.marks =~= sb.marks);
    assert(sa.types =~= sb.types);
    assert(sa.headers =~= sb.headers);
    lemma_rows_agree(sa, a, b, a.len() as int);
}

/// Whether a row is entirely empty under the first `width` columns.
pub fn is_empty_row(row: &Vec<RawCell>, width: usize) -> (r: bool)
    ensures
        r == empty_row(row.deep_view(), width as int),
{
    let ghost cells = row.deep_view();
    let n: usize = if row.len() < width {
        row.len()
    } else {
        width
    };
    let mut c: usize = 0;
    while c < n
        invariant
            c <= n <= row.len(),
            n <= width,
            cells == row.deep_view(),
            forall|k: int| 0 <= k < c ==> (#[trigger] cell_at(cells, k)).text.len() == 0,
        decreases n - c,
    {
        assert(cell_at(cells, c as int) == row@[c as int]@);
        if !row[c].text.as_str().is_empty() {
            return false;
        }
        c += 1;
    }
    true
}

/// A table with every row cut after its first `n` cells.
pub open spec fn cut_at(table: Seq<Seq<SpecCell>>, n: int) -> Seq<Seq<SpecCell>> {
    Seq::new(
        table.len(),
        |r: int|
            if n < table[r].len() {
                table[r].take(n)
            } else {
                table[r]
            },
    )
}

/// A table converts as the same table does with all columns from the first
/// empty header on deleted: no mark, type, header or cell of such a column
/// changes the outcome.
pub proof fn lemma_cut_at_headers(table: Seq<Seq<SpecCell>>)
    requires
        table.len() >= 4,
    ensures
        document_of(table) == document_of(cut_at(table, header_count(table[3]) as int)),
{
    let n = header_count(table[3]) as int;
    let cut = cut_at(table, n);
    lemma_header_count_bounds(table[3]);
    assert forall|c: int| 0 <= c < n implies trimmed((#[trigger] cut[3][c]).text).len() > 0 by {
        assert(cut[3][c] == table[3][c]);
    }
    lemma_header_count(cut[3], n);
    assert forall|r: int, c: int| 1 <= r < table.len() && 0 <= c < n implies #[trigger] cell_at(
        table[r],
        c,
    ) == cell_at(cut[r], c) by {
        if c < table[r].len() && n < table[r].len() {
            assert(cut[r][c] == table[r][c]);
        }
    }
    lemma_columns_beyond_headers_ignored(table, cut);
}

/// Converts every cell of every data row that is not entirely empty under
/// the columns of the schema. Returns the typed rows, in which a cell that
/// fails leaves `Null`, and all failures in row order.
pub fn convert_rows(schema: &Schema, rows: &Vec<Vec<RawCell>>) -> (r: (
    Vec<Vec<CellValue>>,
    Vec<XlsxError>,
))
    requires
        schema@.types.len() == schema@.headers.len(),
    ensures
        r.0.deep_view() == typed_rows(schema@, rows.deep_view(), rows.len() as int),
        r.1.deep_view() == failures(schema@, rows.deep_view(), rows.len() as int),
        forall|i: int| 0 <= i < r.0.len() ==> (#[trigger] r.0@[i]).len() == schema.headers.len(),
{
    let ghost table = rows.deep_view();
    let ghost model = schema@;
    let width: usize = schema.headers.len();
    let mut data: Vec<Vec<CellValue>> = Vec::new();
    let mut errors: Vec<XlsxError> = Vec::new();
    let total: usize = rows.len();
    if total <= 4 {
        assert(data.deep_view() =~= typed_rows(model, table, total as int));
        assert(errors.deep_view() =~= failures(model, table, total as int));
        return (data, errors);
    }
    let mut kinds: Vec<TypeKind> = Vec::new();
    let mut k: usize = 0;
    while k < width
        invariant
            k <= width == schema.headers.len() == schema.types.len(),
            kinds.len() == k,
            forall|c: int| 0 <= c < k ==> (#[trigger] kinds@[c]) == type_kind(schema.types@[c]@),
        decreases width - k,
    {
        kinds.push(classify_type(schema.types[k].as_str()));
        k += 1;
    }
    let mut r: usize = 4;
    while r < total
        invariant
            4 <= r <= total == rows.len(),
            table == rows.deep_view(),
            model == schema@,
            width == schema.headers.len() == schema.types.len() == kinds.len(),
            forall|c: int| 0 <= c < width ==> (#[trigger] kinds@[c]) == type_kind(
                schema.types@[c]@,
            ),
            data.deep_view() == typed_rows(model, table, r as int),
            errors.deep_view() == failures(model, table, r as int),
            forall|i: int| 0 <= i < data.len() ==> (#[trigger] data@[i]).len() == width,
        decreases total - r,
    {
        let row = &rows[r];
        let ghost cells = row.deep_view();
        assert(table[r as int] == cells);
        if !is_empty_row(row, width) {
            let number: usize = r + 1;
            let ghost earlier = errors.deep_view();
            let mut values: Vec<CellValue> = Vec::new();
            let mut c: usize = 0;
            while c < width
                invariant
                    c <= width == schema.headers.len() == schema.types.len() == kinds.len(),
                    model == schema@,
                    cells == row.deep_view(),
                    number == row_number(r as int),
                    forall|c: int| 0 <= c < width ==> (#[trigger] kinds@[c]) == type_kind(
                        schema.types@[c]@,
                    ),
                    values.len() == c,
                    forall|i: int|
                        0 <= i < c ==> (#[trigger] values@[i])@ == cell_value(
                            model,
                            cells,
                            number,
                            i,
                        ),
                    errors.deep_view() == earlier + row_failures(model, cells, number, c as int),
                decreases width - c,
            {
                let ghost so_far = errors.deep_view();
                let outcome = if c < row.len() {
                    let cell = &row[c];
                    assert(cell_at(cells, c as int) == cell@);
                    convert_value_as(
                        cell.text.as_str(),
                        kinds[c],
                        schema.types[c].as_str(),
                        number,
                        schema.headers[c].as_str(),
                        cell.float_bits,
                    )
                } else {
                    Ok(CellValue::Null)
                };
                assert(outcome_view(outcome) == cell_outcome(model, cells, number, c as int)) by {
                    assert(model.types[c as int] == schema.types@[c as int]@);
                    assert(model.headers[c as int] == schema.headers@[c as int]@);
                }
                match outcome {
                    Ok(v) => {
                        values.push(v);
                    },
                    Err(e) => {
                        errors.push(e);
                        values.push(CellValue::Null);
                        assert(errors.deep_view() =~= so_far.push(e@));
                    },
                }
                c += 1;
                assert(errors.deep_view() =~= earlier + row_failures(
                    model,
                    cells,
                    number,
                    c as int,
                ));
            }
            assert(values.deep_view() =~= typed_row(model, cells, number));
            let ghost before = data.deep_view();
            data.push(values);
            assert(data.deep_view() =~= before.push(typed_row(model, cells, number)));
        }
        r += 1;
    }
    (data, errors)
}

/// Converts a table into its server and client documents. Fails with the one
/// failure of a table of fewer than four rows, or with every failure of a
/// cell, in row order; a table with any such failure yields no document.
pub fn convert_document(rows: &Vec<Vec<RawCell>>) -> (r: Result<Document, Vec<XlsxError>>)
    ensures
        document_view(r) == document_of(rows.deep_view()),
        r matches Ok(document) ==> document@.server.wf() && document@.client.wf(),
{
    let ghost table = rows.deep_view();
    proof {
        lemma_documents_wf(table);
    }
    let schema = match extract_schema(rows) {
        Ok(schema) => schema,
        Err(e) => {
            let mut errors: Vec<XlsxError> = Vec::new();
            errors.push(e);
            assert(errors.deep_view() =~= seq![too_few_rows()]);
            return Err(errors);
        },
    };
    let (data, errors) = convert_rows(&schema, rows);
    if errors.len() > 0 {
        return Err(errors);
    }
    let headers: &[String] = schema.headers.as_slice();
    let types: &[String] = schema.types.as_slice();
    let marks: &[String] = schema.marks.as_slice();
    let typed: &[Vec<CellValue>] = data.as_slice();
    proof {
        assert(headers.deep_view() =~= schema@.headers);
        assert(types.deep_view() =~= schema@.types);
        assert(marks.deep_view() =~= schema@.marks);
        assert(typed.deep_view() =~= data.deep_view());
    }
    let (server_headers, server_types, server_data) = filter_data(
        headers,
        types,
        marks,
        typed,
        "s",
    );
    let (client_headers, client_types, client_data) = filter_data(
        headers,
        types,
        marks,
        typed,
        "c",
    );
    let document = Document {
        server: OutputJson::new(server_headers, server_types, server_data),
        client: OutputJson::new(client_headers, client_types, client_data),
    };
    Ok(document)
}

} // verus!
