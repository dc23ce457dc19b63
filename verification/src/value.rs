//! Cells as they are read from a worksheet and values as they are written
//! to an output document.

use vstd::prelude::*;

verus! {

/// One cell of a worksheet: its text, and what that text reads as when taken
/// for a decimal floating-point numeral.
#[derive(Debug, Clone, PartialEq, Eq)]
pub struct RawCell {
    /// The text of the cell, empty for a cell that holds nothing.
    pub text: String,
    /// The bit pattern of the 64-bit binary floating-point number that the
    /// text writes, `None` where it writes no number.
    pub float_bits: Option<u64>,
}

/// The model of a `RawCell`.
pub struct SpecCell {
    pub text: Seq<char>,
    pub float_bits: Option<u64>,
}

impl View for RawCell {
    type V = SpecCell;

    open spec fn view(&self) -> SpecCell {
        SpecCell { text: self.text@, float_bits: self.float_bits }
    }
}

impl DeepView for RawCell {
    type V = SpecCell;

    open spec fn deep_view(&self) -> SpecCell {
        self@
    }
}

impl RawCell {
    /// A cell of the given text and reading.
    pub fn new(text: String, float_bits: Option<u64>) -> (cell: RawCell)
        ensures
            cell@ == (SpecCell { text: text@, float_bits }),
    {
        RawCell { text, float_bits }
    }
}

/// A typed value of an output document.
#[derive(Debug, Clone, PartialEq, Eq)]
pub enum CellValue {
    /// The value of a blank cell.
    Null,
    Bool(bool),
    Int(i64),
    /// A finite 64-bit binary floating-point number, by its bit pattern.
    Float(u64),
    /// A JSON document of any shape, by its text.
    Json(String),
    Text(String),
}

/// The model of a `CellValue`.
pub enum SpecValue {
    Null,
    Bool(bool),
    Int(i64),
    Float(u64),
    Json(Seq<char>),
    Text(Seq<char>),
}

impl View for CellValue {
    type V = SpecValue;

    open spec fn view(&self) -> SpecValue {
        match *self {
            CellValue::Null => SpecValue::Null,
            CellValue::Bool(b) => SpecValue::Bool(b),
            CellValue::Int(n) => SpecValue::Int(n),
            CellValue::Float(bits) => SpecValue::Float(bits),
            CellValue::Json(text) => SpecValue::Json(text@),
            CellValue::Text(text) => SpecValue::Text(text@),
        }
    }
}

impl DeepView for CellValue {
    type V = SpecValue;

    open spec fn deep_view(&self) -> SpecValue {
        self@
    }
}

impl CellValue {
    /// A copy of this value.
    pub fn duplicate(&self) -> (v: CellValue)
        ensures
            v == *self,
    {
        match self {
            CellValue::Null => CellValue::Null,
            CellValue::Bool(b) => CellValue::Bool(*b),
            CellValue::Int(n) => CellValue::Int(*n),
            CellValue::Float(bits) => CellValue::Float(*bits),
            CellValue::Json(text) => CellValue::Json(text.clone()),
            CellValue::Text(text) => CellValue::Text(text.clone()),
        }
    }
}

} // verus!
