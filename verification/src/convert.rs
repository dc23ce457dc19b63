//! Conversion of the text of one cell into a typed value, by the type that
//! the cell's column declares.

use crate::error::{cell_failure, SpecError, XlsxError};
use crate::number::{
    finite_bits, is_finite_bits, parse_boolean, parse_integer, parsed_boolean, parsed_integer,
};
use crate::text::{all_whitespace, blank, lowered, normalized_chars, spells, to_chars, trimmed};
use crate::value::{CellValue, SpecValue};
use vstd::prelude::*;

verus! {

/// The kinds of type that a column can declare.
#[derive(Debug, Clone, Copy, PartialEq, Eq)]
pub enum TypeKind {
    Integer,
    Float,
    Boolean,
    Json,
    Text,
    Unsupported,
}

/// The kind that a declared type token stands for. The token is trimmed and
/// matched without regard to ASCII case.
pub open spec fn type_kind(type_str: Seq<char>) -> TypeKind {
    let token = lowered(trimmed(type_str));
    if token == "int"@ || token == "integer"@ {
        TypeKind::Integer
    } else if token == "float"@ || token == "double"@ || token == "number"@ {
        TypeKind::Float
    } else if token == "bool"@ || token == "boolean"@ {
        TypeKind::Boolean
    } else if token == "json"@ || token == "array"@ || token == "object"@ {
        TypeKind::Json
    } else if token == "string"@ || token == "str"@ || token == "text"@ {
        TypeKind::Text
    } else {
        TypeKind::Unsupported
    }
}

/// What a cell converts to under a column of kind `kind`, declared by the
/// token `type_str`. `float_bits` is what the text reads as when taken for a
/// floating-point numeral, and `json_ok` says whether the text is a JSON
/// document.
pub open spec fn converted_as(
    value: Seq<char>,
    kind: TypeKind,
    type_str: Seq<char>,
    row: usize,
    header: Seq<char>,
    float_bits: Option<u64>,
    json_ok: bool,
) -> Result<SpecValue, SpecError> {
    if blank(value) {
        Ok(SpecValue::Null)
    } else {
        match kind {
            TypeKind::Integer => match parsed_integer(value) {
                Some(n) => Ok(SpecValue::Int(n)),
                None => Err(cell_failure(row, header, value, "int"@, "not a valid integer"@)),
            },
            TypeKind::Float => match float_bits {
                Some(bits) if finite_bits(bits) => Ok(SpecValue::Float(bits)),
                _ => Err(cell_failure(row, header, value, "float"@, "not a valid float"@)),
            },
            TypeKind::Boolean => match parsed_boolean(value) {
                Some(b) => Ok(SpecValue::Bool(b)),
                None => Err(cell_failure(row, header, value, "bool"@, "not a valid boolean"@)),
            },
            TypeKind::Json => if json_ok {
                Ok(SpecValue::Json(value))
            } else {
                Err(cell_failure(row, header, value, "json"@, "not valid JSON"@))
            },
            TypeKind::Text => Ok(SpecValue::Text(value)),
            TypeKind::Unsupported => Err(
                cell_failure(row, header, value, type_str, "unsupported data type"@),
            ),
        }
    }
}

/// What a cell converts to under the declared type `type_str`.
pub open spec fn converted(
    value: Seq<char>,
    type_str: Seq<char>,
    row: usize,
    header: Seq<char>,
    float_bits: Option<u64>,
    json_ok: bool,
) -> Result<SpecValue, SpecError> {
    converted_as(value, type_kind(type_str), type_str, row, header, float_bits, json_ok)
}

/// The model of the outcome of a conversion.
pub open spec fn outcome_view(r: Result<CellValue, XlsxError>) -> Result<SpecValue, SpecError> {
    match r {
        Ok(v) => Ok(v@),
        Err(e) => Err(e@),
    }
}

/// Whether `serde_json` reads the text as one JSON document of any shape.
pub uninterp spec fn json_text_valid(text: Seq<char>) -> bool;

/// `serde_json::from_str`, asked for a `serde_json::Value`: tells whether it
/// accepts the text. What it accepts depends on the text alone.
#[verifier::external_body]
fn json_parses(text: &str) -> (ok: bool)
    ensures
        ok == json_text_valid(text@),
{
    serde_json::from_str::<serde_json::Value>(text).is_ok()
}

/// Decodes a declared type token.
pub fn classify_type(type_str: &str) -> (kind: TypeKind)
    ensures
        kind == type_kind(type_str@),
{
    let token = normalized_chars(type_str);
    if spells(&token, "int") || spells(&token, "integer") {
        TypeKind::Integer
    } else if spells(&token, "float") || spells(&token, "double") || spells(&token, "number") {
        TypeKind::Float
    } else if spells(&token, "bool") || spells(&token, "boolean") {
        TypeKind::Boolean
    } else if spells(&token, "json") || spells(&token, "array") || spells(&token, "object") {
        TypeKind::Json
    } else if spells(&token, "string") || spells(&token, "str") || spells(&token, "text") {
        TypeKind::Text
    } else {
        TypeKind::Unsupported
    }
}

/// Converts the text of a cell under a column of a known kind, given whether
/// the text is a JSON document.
pub fn convert_typed(
    value: &str,
    kind: TypeKind,
    type_str: &str,
    row: usize,
    header: &str,
    float_bits: Option<u64>,
    json_ok: bool,
) -> (r: Result<CellValue, XlsxError>)
    ensures
        outcome_view(r) == converted_as(
            value@,
            kind,
            type_str@,
            row,
            header@,
            float_bits,
            json_ok,
        ),
{
    let chars = to_chars(value);
    if all_whitespace(&chars) {
        return Ok(CellValue::Null);
    }
    match kind {
        TypeKind::Integer => match parse_integer(&chars) {
            Some(n) => Ok(CellValue::Int(n)),
            None => Err(XlsxError::conversion(row, header, value, "int", "not a valid integer")),
        },
        TypeKind::Float => {
            match float_bits {
                Some(bits) => {
                    if is_finite_bits(bits) {
                        return Ok(CellValue::Float(bits));
                    }
                },
                None => {},
            }
            Err(XlsxError::conversion(row, header, value, "float", "not a valid float"))
        },
        TypeKind::Boolean => match parse_boolean(&chars) {
            Some(b) => Ok(CellValue::Bool(b)),
            None => Err(XlsxError::conversion(row, header, value, "bool", "not a valid boolean")),
        },
        TypeKind::Json => {
            if json_ok {
                Ok(CellValue::Json(String::from_str(value)))
            } else {
                Err(XlsxError::conversion(row, header, value, "json", "not valid JSON"))
            }
        },
        TypeKind::Text => Ok(CellValue::Text(String::from_str(value))),
        TypeKind::Unsupported => Err(
            XlsxError::conversion(row, header, value, type_str, "unsupported data type"),
        ),
    }
}

/// Converts the text of a cell by its declared type, given whether the text
/// is a JSON document.
pub fn convert_cell(
    value: &str,
    type_str: &str,
    row: usize,
    header: &str,
    float_bits: Option<u64>,
    json_ok: bool,
) -> (r: Result<CellValue, XlsxError>)
    ensures
        outcome_view(r) == converted(value@, type_str@, row, header@, float_bits, json_ok),
{
    convert_typed(value, classify_type(type_str), type_str, row, header, float_bits, json_ok)
}

/// Converts the text of a cell under a column of a known kind. The text is
/// handed to the JSON reader only where the column asks for JSON.
pub fn convert_value_as(
    value: &str,
    kind: TypeKind,
    type_str: &str,
    row: usize,
    header: &str,
    float_bits: Option<u64>,
) -> (r: Result<CellValue, XlsxError>)
    ensures
        outcome_view(r) == converted_as(
            value@,
            kind,
            type_str@,
            row,
            header@,
            float_bits,
            json_text_valid(value@),
        ),
{
    let json_ok: bool = match kind {
        TypeKind::Json => json_parses(value),
        _ => false,
    };
    convert_typed(value, kind, type_str, row, header, float_bits, json_ok)
}

/// Converts the text of a cell into a typed value by the declared type of its
/// column. A blank cell is `Null` under every type, supported or not. `row`
/// and `header` locate the cell in the failure that is reported otherwise.
pub fn convert_value_by_type(
    value: &str,
    type_str: &str,
    row: usize,
    header: &str,
    float_bits: Option<u64>,
) -> (r: Result<CellValue, XlsxError>)
    ensures
        outcome_view(r) == converted(
            value@,
            type_str@,
            row,
            header@,
            float_bits,
            json_text_valid(value@),
        ),
{
    convert_value_as(value, classify_type(type_str), type_str, row, header, float_bits)
}

} // verus!
