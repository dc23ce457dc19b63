//! The decision whether the documents of a source are out of date.

use crate::error::{SpecError, XlsxError};
use vstd::prelude::*;

verus! {

/// What the file system says of a file.
#[derive(Debug, Clone, PartialEq, Eq)]
pub enum FileStat {
    /// The file exists; its time of last modification, in nanoseconds since
    /// the Unix epoch.
    Modified(i128),
    /// There is no such file.
    Missing,
    /// The file could not be inspected, for the reason given.
    Unreadable(String),
}

/// The model of a `FileStat`.
pub enum SpecStat {
    Modified(i128),
    Missing,
    Unreadable(Seq<char>),
}

impl View for FileStat {
    type V = SpecStat;

    open spec fn view(&self) -> SpecStat {
        match *self {
            FileStat::Modified(t) => SpecStat::Modified(t),
            FileStat::Missing => SpecStat::Missing,
            FileStat::Unreadable(reason) => SpecStat::Unreadable(reason@),
        }
    }
}

/// Whether an output is out of date against a source modified at `source`:
/// it is missing, or was modified strictly earlier.
pub open spec fn stale(output: SpecStat, source: i128) -> bool {
    match output {
        SpecStat::Modified(t) => t < source,
        SpecStat::Missing => true,
        SpecStat::Unreadable(_) => false,
    }
}

/// The failure of a source that does not exist.
pub open spec fn source_missing() -> SpecError {
    SpecError::Io("source document not found"@)
}

/// Whether the documents of a source must be made anew. The source must
/// exist and be readable. An output that cannot be inspected is a failure,
/// the server output before the client output. Otherwise both documents are
/// made anew as soon as one of them is out of date.
pub open spec fn regeneration(source: SpecStat, server: SpecStat, client: SpecStat) -> Result<
    bool,
    SpecError,
> {
    match source {
        SpecStat::Missing => Err(source_missing()),
        SpecStat::Unreadable(reason) => Err(SpecError::Io(reason)),
        SpecStat::Modified(t) => match server {
            SpecStat::Unreadable(reason) => Err(SpecError::Io(reason)),
            _ => match client {
                SpecStat::Unreadable(reason) => Err(SpecError::Io(reason)),
                _ => Ok(stale(server, t) || stale(client, t)),
            },
        },
    }
}

/// The model of the outcome of the decision.
pub open spec fn decision_view(r: Result<bool, XlsxError>) -> Result<bool, SpecError> {
    match r {
        Ok(b) => Ok(b),
        Err(e) => Err(e@),
    }
}

/// Outputs that both exist and are no older than their source are kept.
pub proof fn lemma_current_outputs_kept(source: i128, server: i128, client: i128)
    requires
        source <= server,
        source <= client,
    ensures
        regeneration(
            SpecStat::Modified(source),
            SpecStat::Modified(server),
            SpecStat::Modified(client),
        ) == Ok::<bool, SpecError>(false),
{
}

/// Where source and outputs can be inspected, the documents are made anew
/// exactly when one of the outputs is missing or older than the source.
pub proof fn lemma_either_side_forces_both(source: i128, server: SpecStat, client: SpecStat)
    requires
        !(server is Unreadable),
        !(client is Unreadable),
    ensures
        regeneration(SpecStat::Modified(source), server, client) == Ok::<bool, SpecError>(
            stale(server, source) || stale(client, source),
        ),
{
}

fn is_stale(output: &FileStat, source: i128) -> (r: bool)
    ensures
        r == stale(output@, source),
{
    match output {
        FileStat::Modified(t) => *t < source,
        FileStat::Missing => true,
        FileStat::Unreadable(_) => false,
    }
}

/// Decides whether the documents of a source must be made anew, from what
/// the file system says of the source and of its two outputs.
pub fn need_regenerate(source: &FileStat, server: &FileStat, client: &FileStat) -> (r: Result<
    bool,
    XlsxError,
>)
    ensures
        decision_view(r) == regeneration(source@, server@, client@),
{
    match source {
        FileStat::Missing => Err(XlsxError::Io(String::from_str("source document not found"))),
        FileStat::Unreadable(reason) => Err(XlsxError::Io(reason.clone())),
        FileStat::Modified(t) => {
            if let FileStat::Unreadable(reason) = server {
                return Err(XlsxError::Io(reason.clone()));
            }
            if let FileStat::Unreadable(reason) = client {
                return Err(XlsxError::Io(reason.clone()));
            }
            Ok(is_stale(server, *t) || is_stale(client, *t))
        },
    }
}

} // verus!
