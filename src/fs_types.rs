//! Plain data types of the filesystem layer.

use vstd::prelude::*;
use crate::watcher::UtcTime;

verus! {

/// The kind of a filesystem entry.
#[derive(Debug, Clone, Copy, PartialEq, Eq, Structural)]
pub enum FileType {
    File,
    Directory,
    Symlink,
    Unknown,
}

/// Permission bits of an entry.
#[derive(Debug, Clone, Copy, PartialEq, Eq, Structural)]
pub struct FilePermissions {
    pub readonly: bool,
    pub can_read: bool,
    pub can_write: bool,
    pub can_execute: bool,
}

/// An entry of a directory tree.
#[derive(Debug)]
pub struct FileInfo {
    pub id: String,
    pub name: String,
    pub path: String,
    pub file_type: FileType,
    pub size: Option<u64>,
    pub modified: Option<UtcTime>,
    pub created: Option<UtcTime>,
    pub accessed: Option<UtcTime>,
    pub permissions: Option<FilePermissions>,
    pub children: Option<Vec<FileInfo>>,
}

/// Metadata of one entry.
#[derive(Debug)]
pub struct FileMetadata {
    pub path: String,
    pub size: u64,
    pub modified: UtcTime,
    pub created: Option<UtcTime>,
    pub accessed: Option<UtcTime>,
    pub is_file: bool,
    pub is_dir: bool,
    pub is_symlink: bool,
    pub permissions: FilePermissions,
    pub mime_type: Option<String>,
    pub extension: Option<String>,
}

/// The bytes of a file.
#[derive(Debug)]
pub struct FileContent {
    pub path: String,
    pub content: Vec<u8>,
    pub encoding: String,
    pub size: u64,
}

/// Digests of a file.
#[derive(Debug)]
pub struct FileHash {
    pub path: String,
    pub md5: String,
    pub sha256: String,
}

/// Options of a name or content search.
#[derive(Debug)]
pub struct SearchOptions {
    pub pattern: String,
    pub case_sensitive: bool,
    pub regex: bool,
    pub include_hidden: bool,
    pub file_extensions: Option<Vec<String>>,
    pub max_depth: Option<usize>,
    pub max_results: Option<usize>,
}

/// One match of a content search.
#[derive(Debug)]
pub struct SearchResult {
    pub path: String,
    pub line: usize,
    pub column: usize,
    pub content: String,
    /// The matched text.
    pub matched: String,
}

/// Options of a directory scan.
#[derive(Debug, Clone, Copy, PartialEq, Eq, Structural)]
pub struct DirectoryScanOptions {
    pub max_depth: Option<usize>,
    pub include_hidden: bool,
    pub follow_symlinks: bool,
    pub parallel: bool,
}

impl Default for DirectoryScanOptions {
    fn default() -> (r: DirectoryScanOptions)
        ensures
            r == (DirectoryScanOptions {
                max_depth: None,
                include_hidden: false,
                follow_symlinks: false,
                parallel: true,
            }),
    {
        DirectoryScanOptions { max_depth: None, include_hidden: false, follow_symlinks: false, parallel: true }
    }
}

/// Storage backends.
#[derive(Debug, Clone, Copy, PartialEq, Eq, Structural)]
pub enum BackendType {
    Local,
}

/// Chooses the storage backend of a filesystem.
#[derive(Debug)]
pub struct FileSystemBuilder {
    pub backend_type: BackendType,
}

impl FileSystemBuilder {
    pub fn new(backend_type: BackendType) -> (r: FileSystemBuilder)
        ensures
            r.backend_type == backend_type,
    {
        FileSystemBuilder { backend_type }
    }

    /// A builder for the local filesystem.
    pub fn local() -> (r: FileSystemBuilder)
        ensures
            r.backend_type == BackendType::Local,
    {
        Self::new(BackendType::Local)
    }
}

/// Whether a directory's name marks it hidden (it begins with `.`); hidden
/// directories are not scanned.
pub fn is_hidden_name(name: &str) -> (r: bool)
    ensures
        r == (name@.len() > 0 && name@[0] == '.'),
{
    let v = crate::text::chars_of(name);
    v.len() > 0 && v[0] == '.'
}

} // verus!
