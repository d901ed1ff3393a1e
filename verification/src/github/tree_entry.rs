use vstd::prelude::*;

verus! {

/// An entry of a git tree: a file when it points to a blob, a directory otherwise.
#[derive(Debug)]
pub struct TreeEntry {
    pub sha: String,
    pub path: String,
    pub mode: String,
    pub blob_sha: Option<String>,
}

/// Whether a folder entry is a file or a directory.
#[derive(Debug, Clone, Copy, PartialEq, Eq, Structural)]
pub enum FileKind {
    RegularFile,
    Directory,
}

impl TreeEntry {
    /// Whether the entry is a file.
    pub fn is_file(&self) -> (res: bool)
        ensures
            res == self.blob_sha is Some,
    {
        self.blob_sha.is_some()
    }

    /// The kind of folder entry that stands for this tree entry.
    pub fn file_kind(&self) -> (res: FileKind)
        ensures
            res == if self.blob_sha is Some { FileKind::RegularFile } else { FileKind::Directory },
    {
        if self.is_file() {
            FileKind::RegularFile
        } else {
            FileKind::Directory
        }
    }
}

} // verus!
