//! The error type of the library and its mathematical model.

use vstd::prelude::*;

verus! {

/// What can go wrong while documents are converted.
#[derive(Debug, Clone, PartialEq, Eq)]
pub enum XlsxError {
    /// A file could not be read, inspected or written.
    Io(String),
    /// A document could not be opened or decoded, or its conversion failed.
    Excel(String),
    /// An output document could not be written as JSON.
    Json(String),
    /// One cell could not be read as the type its column declares.
    ConvertError { row: usize, header: String, value: String, declared_type: String, message: String },
    /// The table of output names is malformed.
    Config(String),
    /// A document lacks the reserved rows, or a path names no document.
    InvalidExcel(String),
    /// Any other failure, the failure of a batch among them.
    Other(String),
}

/// The model of an `XlsxError`: the same variants over sequences of characters.
pub enum SpecError {
    Io(Seq<char>),
    Excel(Seq<char>),
    Json(Seq<char>),
    ConvertError {
        row: usize,
        header: Seq<char>,
        value: Seq<char>,
        declared_type: Seq<char>,
        message: Seq<char>,
    },
    Config(Seq<char>),
    InvalidExcel(Seq<char>),
    Other(Seq<char>),
}

impl View for XlsxError {
    type V = SpecError;

    open spec fn view(&self) -> SpecError {
        match *self {
            XlsxError::Io(m) => SpecError::Io(m@),
            XlsxError::Excel(m) => SpecError::Excel(m@),
            XlsxError::Json(m) => SpecError::Json(m@),
            XlsxError::ConvertError { row, header, value, declared_type, message } => {
                SpecError::ConvertError {
                    row,
                    header: header@,
                    value: value@,
                    declared_type: declared_type@,
                    message: message@,
                }
            },
            XlsxError::Config(m) => SpecError::Config(m@),
            XlsxError::InvalidExcel(m) => SpecError::InvalidExcel(m@),
            XlsxError::Other(m) => SpecError::Other(m@),
        }
    }
}

impl DeepView for XlsxError {
    type V = SpecError;

    open spec fn deep_view(&self) -> SpecError {
        self@
    }
}

/// The model of the failure of one cell.
pub open spec fn cell_failure(
    row: usize,
    header: Seq<char>,
    value: Seq<char>,
    declared_type: Seq<char>,
    message: Seq<char>,
) -> SpecError {
    SpecError::ConvertError { row, header, value, declared_type, message }
}

impl XlsxError {
    /// The failure of the cell in data row `row` under `header`, whose text
    /// `value` is not of the type `declared_type`.
    pub fn conversion(row: usize, header: &str, value: &str, declared_type: &str, message: &str) -> (e:
        XlsxError)
        ensures
            e@ == cell_failure(row, header@, value@, declared_type@, message@),
    {
        XlsxError::ConvertError {
            row,
            header: String::from_str(header),
            value: String::from_str(value),
            declared_type: String::from_str(declared_type),
            message: String::from_str(message),
        }
    }

    /// A copy of this error.
    pub fn duplicate(&self) -> (e: XlsxError)
        ensures
            e == *self,
    {
        match self {
            XlsxError::Io(m) => XlsxError::Io(m.clone()),
            XlsxError::Excel(m) => XlsxError::Excel(m.clone()),
            XlsxError::Json(m) => XlsxError::Json(m.clone()),
            XlsxError::ConvertError { row, header, value, declared_type, message } => {
                XlsxError::ConvertError {
                    row: *row,
                    header: header.clone(),
                    value: value.clone(),
                    declared_type: declared_type.clone(),
                    message: message.clone(),
                }
            },
            XlsxError::Config(m) => XlsxError::Config(m.clone()),
            XlsxError::InvalidExcel(m) => XlsxError::InvalidExcel(m.clone()),
            XlsxError::Other(m) => XlsxError::Other(m.clone()),
        }
    }
}

} // verus!
