//! Output documents and the places they are written to.

use crate::path::{join_path, joined};
use crate::value::{CellValue, SpecValue};
use vstd::prelude::*;

verus! {

/// One output document: the names and declared types of its columns, and its
/// rows, each holding one value per column.
#[derive(Debug, Clone, PartialEq, Eq)]
pub struct OutputJson {
    pub headers: Vec<String>,
    pub types: Vec<String>,
    pub data: Vec<Vec<CellValue>>,
}

/// The model of an `OutputJson`.
pub struct SpecOutput {
    pub headers: Seq<Seq<char>>,
    pub types: Seq<Seq<char>>,
    pub data: Seq<Seq<SpecValue>>,
}

impl SpecOutput {
    /// Types and rows are as long as the headers.
    pub open spec fn wf(self) -> bool {
        &&& self.types.len() == self.headers.len()
        &&& forall|r: int|
            0 <= r < self.data.len() ==> (#[trigger] self.data[r]).len() == self.headers.len()
    }
}

impl View for OutputJson {
    type V = SpecOutput;

    open spec fn view(&self) -> SpecOutput {
        SpecOutput {
            headers: self.headers.deep_view(),
            types: self.types.deep_view(),
            data: self.data.deep_view(),
        }
    }
}

impl OutputJson {
    /// The document of the given columns and rows.
    pub fn new(headers: Vec<String>, types: Vec<String>, data: Vec<Vec<CellValue>>) -> (out:
        OutputJson)
        ensures
            out.headers == headers,
            out.types == types,
            out.data == data,
    {
        OutputJson { headers, types, data }
    }

    /// Whether the document has no column. Such a document is not written.
    pub fn is_empty(&self) -> (r: bool)
        ensures
            r == (self@.headers.len() == 0),
    {
        self.headers.len() == 0
    }
}

/// Where the document `base_name` of the view `side` is written under
/// `output_dir`.
pub open spec fn output_path(output_dir: Seq<char>, side: Seq<char>, base_name: Seq<char>) -> Seq<
    char,
> {
    joined(joined(output_dir, side), base_name + ".json"@)
}

/// The paths of the server and of the client document of `base_name` under
/// `output_dir`: `server/<base_name>.json` and `client/<base_name>.json`,
/// each adjoined to `output_dir`.
pub fn get_output_paths(output_dir: &str, base_name: &str) -> (r: (String, String))
    ensures
        r.0@ == output_path(output_dir@, "server"@, base_name@),
        r.1@ == output_path(output_dir@, "client"@, base_name@),
{
    let mut file = String::from_str(base_name);
    file.append(".json");
    let server_dir = join_path(output_dir, "server");
    let client_dir = join_path(output_dir, "client");
    (join_path(server_dir.as_str(), file.as_str()), join_path(client_dir.as_str(), file.as_str()))
}

} // verus!
