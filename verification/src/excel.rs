//! The steps of the conversion of one source document that need no file
//! system: where its documents go, and which of them are written.

use crate::config::{output_name, Config};
use crate::document::{
    cell_outcome, convert_document, document_of, is_data_cell,
    lemma_failure_suppresses_documents, row_number, Document, SpecDocument,
};
use crate::error::{SpecError, XlsxError};
use crate::json::{get_output_paths, output_path, OutputJson, SpecOutput};
use crate::schema::schema_of;
use crate::staleness::{need_regenerate, regeneration, FileStat, SpecStat};
use crate::value::{RawCell, SpecCell};
use vstd::prelude::*;

verus! {

/// Converts source documents for one output directory.
pub struct ExcelProcessor {
    config: Config,
    output_dir: String,
    pretty: bool,
}

/// What becomes of a source document once the file system has been asked.
#[derive(Debug, Clone, Copy, PartialEq, Eq)]
pub enum FileStep {
    /// Its documents are up to date: nothing is read and nothing is written.
    Skip,
    /// Its documents are made anew.
    Convert,
}

/// The documents of one source that are written: a document without columns
/// is not.
#[derive(Debug, Clone, PartialEq, Eq)]
pub struct WritePlan {
    pub server: Option<OutputJson>,
    pub client: Option<OutputJson>,
}

/// The model of a `WritePlan`.
pub struct SpecPlan {
    pub server: Option<SpecOutput>,
    pub client: Option<SpecOutput>,
}

impl WritePlan {
    /// Whether nothing is written: neither view has a column.
    pub fn is_empty(&self) -> (r: bool)
        ensures
            r == (self@.server is None && self@.client is None),
    {
        self.server.is_none() && self.client.is_none()
    }
}

impl View for WritePlan {
    type V = SpecPlan;

    open spec fn view(&self) -> SpecPlan {
        SpecPlan {
            server: match self.server {
                Some(out) => Some(out@),
                None => None,
            },
            client: match self.client {
                Some(out) => Some(out@),
                None => None,
            },
        }
    }
}

/// The failure of a path that names no file.
pub open spec fn invalid_file_name() -> SpecError {
    SpecError::InvalidExcel("invalid file name"@)
}

/// A document, if it has a column.
pub open spec fn written(out: SpecOutput) -> Option<SpecOutput> {
    if out.headers.len() > 0 {
        Some(out)
    } else {
        None
    }
}

/// What is written of the documents of one source.
pub open spec fn plan_of(document: SpecDocument) -> SpecPlan {
    SpecPlan { server: written(document.server), client: written(document.client) }
}

/// What is written for a table: nothing where a cell fails.
pub open spec fn processed(table: Seq<Seq<SpecCell>>) -> Result<SpecPlan, Seq<SpecError>> {
    match document_of(table) {
        Ok(document) => Ok(plan_of(document)),
        Err(failures) => Err(failures),
    }
}

/// The failure under which a source with failing cells is reported.
pub open spec fn conversion_failed() -> SpecError {
    SpecError::Excel("errors occurred during conversion; see the failures reported"@)
}

/// The one failure under which a source that yields no document is reported:
/// the failure of its table, where it lacks the reserved rows, and else the
/// failure that stands for all failures of its cells.
pub open spec fn document_failure(failures: Seq<SpecError>) -> SpecError {
    if failures.len() == 1 && failures[0] is InvalidExcel {
        failures[0]
    } else {
        conversion_failed()
    }
}

/// The step that follows from what the file system says.
pub open spec fn step_of(source: SpecStat, server: SpecStat, client: SpecStat) -> Result<
    FileStep,
    SpecError,
> {
    match regeneration(source, server, client) {
        Ok(true) => Ok(FileStep::Convert),
        Ok(false) => Ok(FileStep::Skip),
        Err(e) => Err(e),
    }
}

/// A source whose two outputs exist and are no older than itself is skipped.
pub proof fn lemma_current_source_skipped(source: i128, server: i128, client: i128)
    requires
        source <= server,
        source <= client,
    ensures
        step_of(
            SpecStat::Modified(source),
            SpecStat::Modified(server),
            SpecStat::Modified(client),
        ) == Ok::<FileStep, SpecError>(FileStep::Skip),
{
}

/// A table in which any one converted cell fails writes nothing, neither for
/// the server nor for the client.
pub proof fn lemma_failure_writes_nothing(table: Seq<Seq<SpecCell>>, r: int, c: int)
    requires
        is_data_cell(table, r, c),
        cell_outcome(schema_of(table), table[r], row_number(r), c) is Err,
    ensures
        processed(table) is Err,
{
    lemma_failure_suppresses_documents(table, r, c);
}

fn to_write(out: OutputJson) -> (r: Option<OutputJson>)
    ensures
        match r {
            Some(kept) => Some(kept@),
            None => None,
        } == written(out@),
{
    if out.is_empty() {
        None
    } else {
        Some(out)
    }
}

/// Folds the failures of a source into the one failure that its conversion
/// ends with.
pub fn document_error(failures: &Vec<XlsxError>) -> (e: XlsxError)
    ensures
        e@ == document_failure(failures.deep_view()),
{
    if failures.len() == 1 {
        if let XlsxError::InvalidExcel(_) = &failures[0] {
            return failures[0].duplicate();
        }
    }
    XlsxError::Excel(String::from_str("errors occurred during conversion; see the failures reported"))
}

impl ExcelProcessor {
    /// The table of output names that the processor holds.
    pub closed spec fn config(&self) -> Map<Seq<char>, Seq<char>> {
        self.config@
    }

    /// The directory under which the processor writes.
    pub closed spec fn directory(&self) -> Seq<char> {
        self.output_dir@
    }

    /// Whether the processor writes documents with line breaks.
    pub closed spec fn is_pretty(&self) -> bool {
        self.pretty
    }

    /// A processor that names outputs by `config` and writes under
    /// `output_dir`.
    pub fn new(config: Config, output_dir: String, pretty: bool) -> (processor: ExcelProcessor)
        ensures
            processor.config() == config@,
            processor.directory() == output_dir@,
            processor.is_pretty() == pretty,
    {
        ExcelProcessor { config, output_dir, pretty }
    }

    /// Whether documents are written with line breaks and indentation.
    pub fn pretty(&self) -> (r: bool)
        ensures
            r == self.is_pretty(),
    {
        self.pretty
    }

    /// The directory under which documents are written.
    pub fn output_dir(&self) -> (r: &str)
        ensures
            r@ == self.directory(),
    {
        self.output_dir.as_str()
    }

    /// The paths of the server and of the client document of the source
    /// document whose file name, or path, is `file_name`. A source without a
    /// file name that is text has none.
    pub fn output_paths(&self, file_name: Option<&str>) -> (r: Result<(String, String), XlsxError>)
        ensures
            match file_name {
                Some(name) => r matches Ok(paths) && {
                    let base = output_name(self.config(), name@);
                    &&& paths.0@ == output_path(self.directory(), "server"@, base)
                    &&& paths.1@ == output_path(self.directory(), "client"@, base)
                },
                None => r matches Err(e) && e@ == invalid_file_name(),
            },
    {
        match file_name {
            Some(name) => {
                let base = self.config.get_output_name(name);
                Ok(get_output_paths(self.output_dir.as_str(), base.as_str()))
            },
            None => Err(XlsxError::InvalidExcel(String::from_str("invalid file name"))),
        }
    }

    /// Decides from what the file system says of a source and of its two
    /// outputs whether the source is converted or skipped.
    pub fn next_step(&self, source: &FileStat, server: &FileStat, client: &FileStat) -> (r:
        Result<FileStep, XlsxError>)
        ensures
            match r {
                Ok(step) => Ok(step),
                Err(e) => Err(e@),
            } == step_of(source@, server@, client@),
    {
        match need_regenerate(source, server, client) {
            Ok(true) => Ok(FileStep::Convert),
            Ok(false) => Ok(FileStep::Skip),
            Err(e) => Err(e),
        }
    }

    /// Converts the table of a source and tells which of its documents are
    /// written. Where a cell fails, all failures are returned and nothing is
    /// written.
    pub fn process_rows(&self, rows: &Vec<Vec<RawCell>>) -> (r: Result<WritePlan, Vec<XlsxError>>)
        ensures
            match r {
                Ok(plan) => Ok(plan@),
                Err(failures) => Err(failures.deep_view()),
            } == processed(rows.deep_view()),
    {
        match convert_document(rows) {
            Ok(document) => {
                let Document { server, client } = document;
                Ok(WritePlan { server: to_write(server), client: to_write(client) })
            },
            Err(failures) => Err(failures),
        }
    }
}

} // verus!
