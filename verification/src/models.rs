//! The shapes of requests and answers.

use vstd::prelude::*;

verus! {

/// The exclusion rules a client is to apply when it scans its own tree.
#[derive(Debug)]
pub struct SyncConfigResponse {
    pub default_excludes: Vec<String>,
}

/// The optional remote directory of a synchronisation request.
#[derive(Debug)]
pub struct SyncRequest {
    pub remote_path: Option<String>,
}

/// One entry of a directory listing. Times are milliseconds since the Unix
/// epoch, where the filesystem gives them.
#[derive(Debug)]
pub struct FileInfo {
    pub name: String,
    pub path: String,
    pub is_dir: bool,
    pub created_at: Option<i64>,
    pub modified_at: Option<i64>,
}

/// The directory to list, relative to the working directory.
#[derive(Debug)]
pub struct ListFilesRequest {
    pub path: Option<String>,
}

/// The file or directory to delete, relative to the working directory.
#[derive(Debug)]
pub struct DeleteFileRequest {
    pub path: String,
}

/// A directory listing with the way up.
#[derive(Debug)]
pub struct ListFilesResponse {
    pub parent: Option<String>,
    pub files: Vec<FileInfo>,
}

} // verus!
