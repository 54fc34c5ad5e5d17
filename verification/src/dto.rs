use vstd::prelude::*;
use std::sync::Arc;
use crate::command::{CommandInfo, elapsed_millis};
use crate::model::{FileLineSummary, FileLines};

verus! {

/// What every answer says of the command that gave it.
pub struct MetaData {
    pub success: bool,
    pub response_ms: u128,
    pub command: String,
    pub args: String,
}

/// The description of a command's arguments as an answer shows it: empty
/// where the command has none.
pub open spec fn args_shown(arg_info: Option<String>) -> Seq<char> {
    match arg_info {
        Some(args) => args@,
        None => Seq::empty(),
    }
}

impl MetaData {
    /// Whether this is the account of the command `info` with the outcome
    /// `success`, whatever time it took.
    pub open spec fn describes(&self, success: bool, info: CommandInfo) -> bool {
        &&& self.success == success
        &&& self.command == info.name
        &&& self.args@ == args_shown(info.arg_info)
    }

    /// The account of a command that took `response_ms` milliseconds.
    pub fn timed(success: bool, response_ms: u128, name: String, arg_info: Option<String>) -> (meta:
        Self)
        ensures
            meta.success == success,
            meta.response_ms == response_ms,
            meta.command == name,
            meta.args@ == args_shown(arg_info),
    {
        let args = match arg_info {
            Some(args) => args,
            None => String::new(),
        };
        MetaData { success, response_ms, command: name, args }
    }

    /// The account of the command `info`, which ends now.
    pub fn new(success: bool, info: CommandInfo) -> (meta: Self)
        ensures
            meta.describes(success, info),
    {
        let CommandInfo { start, name, arg_info } = info;
        let response_ms = elapsed_millis(&start);
        MetaData::timed(success, response_ms, name, arg_info)
    }

    pub fn create_success_result(info: CommandInfo) -> (meta: MetaData)
        ensures
            meta.describes(true, info),
    {
        MetaData::new(true, info)
    }

    pub fn create_error_result(info: CommandInfo) -> (meta: MetaData)
        ensures
            meta.describes(false, info),
    {
        MetaData::new(false, info)
    }
}

/// The answer of a command that failed.
pub struct ErrorResponse {
    pub meta: MetaData,
    pub msg: String,
}

impl ErrorResponse {
    pub fn create(msg: String, info: CommandInfo) -> (response: ErrorResponse)
        ensures
            response.msg == msg,
            response.meta.describes(false, info),
    {
        ErrorResponse { meta: MetaData::create_error_result(info), msg }
    }
}

/// The answer of a scan: the files in ascending order of lines, and their
/// summary.
pub struct ScanDirResponse {
    pub meta: MetaData,
    pub files: Arc<Vec<FileLines>>,
    pub summary: FileLineSummary,
}

impl ScanDirResponse {
    pub fn create(files: Arc<Vec<FileLines>>, summary: FileLineSummary, info: CommandInfo) -> (response:
        ScanDirResponse)
        ensures
            response.files == files,
            response.summary == summary,
            response.meta.describes(true, info),
    {
        ScanDirResponse { meta: MetaData::create_success_result(info), files, summary }
    }
}

/// The answer of a command that yields data.
pub struct SimpleResponse<T> {
    pub meta: MetaData,
    pub data: T,
}

impl<T> SimpleResponse<T> {
    pub fn create(data: T, info: CommandInfo) -> (response: SimpleResponse<T>)
        ensures
            response.data == data,
            response.meta.describes(true, info),
    {
        SimpleResponse { meta: MetaData::create_success_result(info), data }
    }
}

/// The answer of a command that yields nothing but its success.
pub struct EmptyResponse {
    pub meta: MetaData,
}

impl EmptyResponse {
    pub fn create(info: CommandInfo) -> (response: EmptyResponse)
        ensures
            response.meta.describes(true, info),
    {
        EmptyResponse { meta: MetaData::create_success_result(info) }
    }
}

/// Asks for a scan of `dir`, of the files with the extension `ext` where one
/// is given.
pub struct ScanDirRequest {
    pub dir: String,
    pub ext: Option<String>,
}

/// Asks for the listing of `dir`, with its files where `include_files` is set.
pub struct GetChildItemsRequest {
    pub dir: String,
    pub include_files: bool,
}

/// Asks for the normal form of the path of `child_name` in `parent_path`.
pub struct GetNormalPathRequest {
    pub parent_path: String,
    pub child_name: String,
}

} // verus!
