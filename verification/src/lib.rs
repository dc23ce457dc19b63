//! Conversion of worksheets into JSON documents for a server and a client.
//!
//! A worksheet is a table of text cells. Its first row is free; the next
//! three hold, per column, a visibility mark, a declared type and a header.
//! The rows after them hold the data. Every data cell is converted to a typed
//! value by the declared type of its column, and the columns are then parted
//! by their marks into a server and a client document.
//!
//! The library holds the rules and no input or output: callers hand it the
//! cells of a worksheet and what the file system says of the files, and write
//! the documents that come back.

pub mod batch;
pub mod config;
pub mod convert;
pub mod document;
pub mod error;
pub mod excel;
pub mod json;
pub mod number;
pub mod partition;
pub mod path;
pub mod schema;
pub mod staleness;
pub mod text;
pub mod value;

pub use batch::{
    batch_result, check_output_names, find_collision, is_excel_file, resolve_worker_count,
    select_sources, summarize, worker_count, BatchSummary,
};
pub use config::Config;
pub use convert::{
    classify_type, convert_cell, convert_value_as, convert_value_by_type, TypeKind,
};
pub use document::{convert_document, convert_rows, Document};
pub use error::XlsxError;
pub use excel::{document_error, ExcelProcessor, FileStep, WritePlan};
pub use json::{get_output_paths, OutputJson};
pub use partition::filter_data;
pub use path::join_path;
pub use schema::{extract_schema, Schema};
pub use staleness::{need_regenerate, FileStat};
pub use value::{CellValue, RawCell};
