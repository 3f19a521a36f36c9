use vstd::prelude::*;
use crate::scan_config::{ScanPaths, under_any};

verus! {

/// A file of the media library, by its path and its id in the database.
#[derive(Debug)]
pub struct IpcFileRequest {
    pub path: String,
    pub db_id: i32,
}

/// What the server asks the daemon that owns the files.
#[derive(Debug)]
pub enum IpcRequest {
    /// The bytes `start..end` of the file.
    FileData { file: IpcFileRequest, start: u64, end: u64 },
    /// The size of the file.
    FileSize { file: IpcFileRequest },
    /// How far the task queue has come.
    QueueProgress,
}

/// The daemon's answer about a file.
#[derive(Debug)]
pub enum IpcFileResponse {
    Error { error: String },
    Success { file: IpcFileRequest, file_size: u64, response_size: u64 },
}

/// An answer about a file that does not match the request: the daemon's
/// value first, then the one that was expected; or a requested range whose
/// end lies before its start.
#[derive(Debug, PartialEq, Eq)]
pub enum FileResponseMismatch {
    DbId(i32, i32),
    Path(String, String),
    FileSize(u64, u64),
    ResponseSize(u64, u64),
    Range(u64, u64),
}

/// The request for the bytes `start..end` of a medium's file.
pub fn file_data_request(db_id: i32, path: &String, start: u64, end: u64) -> (r: IpcRequest)
    ensures
        r matches IpcRequest::FileData { file, start: s, end: e }
            && file.db_id == db_id && file.path@ == path@ && s == start && e == end,
{
    IpcRequest::FileData { file: IpcFileRequest { db_id, path: path.clone() }, start, end }
}

/// The request for the size of a medium's file.
pub fn file_size_request(db_id: i32, path: &String) -> (r: IpcRequest)
    ensures
        r matches IpcRequest::FileSize { file } && file.db_id == db_id && file.path@ == path@,
{
    IpcRequest::FileSize { file: IpcFileRequest { db_id, path: path.clone() } }
}

/// The size of the file that the daemon reports, or its error.
pub fn file_size_result(res: IpcFileResponse) -> (r: Result<u64, String>)
    ensures
        match res {
            IpcFileResponse::Error { error } => r matches Err(e) && e@ == error@,
            IpcFileResponse::Success { file_size, .. } => r == Ok::<u64, String>(file_size),
        },
{
    match res {
        IpcFileResponse::Error { error } => Err(error),
        IpcFileResponse::Success { file_size, .. } => Ok(file_size),
    }
}

fn same_text(a: &String, b: &String) -> (r: bool)
    ensures
        r == (a@ == b@),
{
    let x = crate::text::chars_of(a.as_str());
    crate::media_query::values::eq_chars(x.as_slice(), b.as_str())
}

/// Checks the daemon's answer to a request for the bytes `start..end` of a
/// medium's file: the error it reports, or the number of bytes it sends,
/// which must be for the same file (id, path and size) and exactly the
/// requested number of bytes; the first difference found, in that order, is
/// the mismatch (a range that ends before it starts is found just before the
/// number of bytes is compared).
pub fn file_data_result(res: IpcFileResponse, db_id: i32, path: &String, size: u32, start: u64, end: u64)
    -> (r: Result<Result<u64, String>, FileResponseMismatch>)
    ensures
        match res {
            IpcFileResponse::Error { error } => r matches Ok(Err(e)) && e@ == error@,
            IpcFileResponse::Success { file, file_size, response_size } =>
                if file.db_id != db_id {
                    r == Err::<Result<u64, String>, FileResponseMismatch>(FileResponseMismatch::DbId(file.db_id, db_id))
                } else if file.path@ != path@ {
                    r matches Err(FileResponseMismatch::Path(a, b)) && a@ == file.path@ && b@ == path@
                } else if file_size != size {
                    r == Err::<Result<u64, String>, FileResponseMismatch>(FileResponseMismatch::FileSize(file_size, size as u64))
                } else if end < start {
                    r == Err::<Result<u64, String>, FileResponseMismatch>(FileResponseMismatch::Range(start, end))
                } else if response_size != end - start {
                    r == Err::<Result<u64, String>, FileResponseMismatch>(
                        FileResponseMismatch::ResponseSize(response_size, (end - start) as u64))
                } else {
                    r == Ok::<Result<u64, String>, FileResponseMismatch>(Ok(response_size))
                },
        },
{
    match res {
        IpcFileResponse::Error { error } => Ok(Err(error)),
        IpcFileResponse::Success { file, file_size, response_size } => {
            if file.db_id != db_id {
                return Err(FileResponseMismatch::DbId(file.db_id, db_id));
            }
            if !same_text(&file.path, path) {
                return Err(FileResponseMismatch::Path(file.path, path.clone()));
            }
            if file_size != size as u64 {
                return Err(FileResponseMismatch::FileSize(file_size, size as u64));
            }
            if end < start {
                return Err(FileResponseMismatch::Range(start, end));
            }
            let req_size = end - start;
            if response_size != req_size {
                return Err(FileResponseMismatch::ResponseSize(response_size, req_size));
            }
            Ok(Ok(response_size))
        },
    }
}


/// The refusal of a file outside the scanned directories.
pub open spec fn outside_paths_msg() -> Seq<char> {
    "path not in config, the fuck u tryin do -_-"@
}

/// The refusal of a file whose path is not the one recorded for the medium.
pub open spec fn path_mismatch_msg() -> Seq<char> {
    "path mismatch"@
}

/// The first check of a request for a file: its path lies in the scanned
/// directories and outside the excluded ones.
pub fn check_request_path(rules: &ScanPaths, req: &IpcFileRequest) -> (r: Result<(), IpcFileResponse>)
    ensures
        match r {
            Ok(()) => under_any(req.path@, rules.scan_paths@)
                && !(rules.exclude_paths matches Some(ex) && under_any(req.path@, ex@)),
            Err(e) => !(under_any(req.path@, rules.scan_paths@)
                && !(rules.exclude_paths matches Some(ex) && under_any(req.path@, ex@)))
                && (e matches IpcFileResponse::Error { error } && error@ == outside_paths_msg()),
        },
{
    if !rules.path_matches(req.path.as_str()) {
        return Err(IpcFileResponse::Error { error: String::from_str("path not in config, the fuck u tryin do -_-") });
    }
    Ok(())
}

/// The second check of a request for a file: the medium recorded under the
/// requested id has the requested path.
pub fn check_media_path(media_path: &String, req: &IpcFileRequest) -> (r: Result<(), IpcFileResponse>)
    ensures
        match r {
            Ok(()) => media_path@ == req.path@,
            Err(e) => media_path@ != req.path@
                && (e matches IpcFileResponse::Error { error } && error@ == path_mismatch_msg()),
        },
{
    if !same_text(media_path, &req.path) {
        return Err(IpcFileResponse::Error { error: String::from_str("path mismatch") });
    }
    Ok(())
}

/// The answer to a request for the size of a file.
pub fn file_size_response(req: &IpcFileRequest, media_path: &String, file_size: u64) -> (r: IpcFileResponse)
    ensures
        r matches IpcFileResponse::Success { file, file_size: s, response_size }
            && file.db_id == req.db_id && file.path@ == media_path@ && s == file_size && response_size == 0,
{
    IpcFileResponse::Success {
        file: IpcFileRequest { db_id: req.db_id, path: media_path.clone() },
        file_size,
        response_size: 0,
    }
}

/// The answer to a request for the bytes `start..end` of a file: the number
/// of bytes that follow it.
pub fn file_data_response(req: &IpcFileRequest, media_path: &String, file_size: u64, start: u64, end: u64) -> (r: IpcFileResponse)
    requires
        start <= end,
    ensures
        r matches IpcFileResponse::Success { file, file_size: s, response_size }
            && file.db_id == req.db_id && file.path@ == media_path@ && s == file_size
            && response_size == end - start,
{
    IpcFileResponse::Success {
        file: IpcFileRequest { db_id: req.db_id, path: media_path.clone() },
        file_size,
        response_size: end - start,
    }
}

} // verus!
