use vstd::prelude::*;
use std::sync::Arc;
use crate::state::ScanResults;

verus! {

/// Why an export did not write its file. All but the first carry the cause
/// as the system reported it.
#[derive(Debug)]
pub enum ExportError {
    /// No scan has been made yet.
    NoScanResults,
    /// The working directory could not be found.
    WorkingDir(String),
    /// The file could not be opened for writing.
    Open(String),
    /// A record could not be written as a row.
    Serialize(String),
    /// The rows could not be flushed to the file.
    Flush(String),
}

impl ExportError {
    /// The cause in words.
    pub open spec fn message_spec(&self) -> Seq<char> {
        match self {
            ExportError::NoScanResults => "No Scan Results found"@,
            ExportError::WorkingDir(cause) => cause@,
            ExportError::Open(cause) => cause@,
            ExportError::Serialize(cause) => cause@,
            ExportError::Flush(cause) => cause@,
        }
    }

    /// The cause in words.
    pub fn message(&self) -> (text: String)
        ensures
            text@ == self.message_spec(),
    {
        match self {
            ExportError::NoScanResults => "No Scan Results found".to_owned(),
            ExportError::WorkingDir(cause) => cause.clone(),
            ExportError::Open(cause) => cause.clone(),
            ExportError::Serialize(cause) => cause.clone(),
            ExportError::Flush(cause) => cause.clone(),
        }
    }
}

/// The files that an export writes, one row each: those of the last scan.
/// Fails where no scan has been made.
pub fn export_source(scan_results: Option<Arc<ScanResults>>) -> (source: Result<
    Arc<ScanResults>,
    ExportError,
>)
    ensures
        match scan_results {
            Some(results) => source matches Ok(rows) && rows == results,
            None => source matches Err(ExportError::NoScanResults),
        },
{
    match scan_results {
        Some(results) => Ok(results),
        None => Err(ExportError::NoScanResults),
    }
}

} // verus!
