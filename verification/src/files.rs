//! Requests to the file system, and what they mean.
//!
//! The file-backed store does not touch the disk. It says which file is to be
//! written with what, and which file is to be read; its caller does so. The
//! meaning of a request is given over a model of the disk: a map from paths to
//! contents.

use vstd::prelude::*;

verus! {

/// A request to replace the whole content of a file.
#[derive(Debug)]
pub struct FileWrite {
    /// The file to create, or to truncate if it exists.
    pub path: String,
    /// The new content of the file.
    pub text: String,
}

/// A request to read the whole content of a file.
#[derive(Debug)]
pub struct FileRead {
    /// The file to read.
    pub path: String,
}

/// A `FileWrite` with its texts as sequences of characters.
pub struct FileWriteView {
    pub path: Seq<char>,
    pub text: Seq<char>,
}

impl View for FileWrite {
    type V = FileWriteView;

    open spec fn view(&self) -> FileWriteView {
        FileWriteView { path: self.path@, text: self.text@ }
    }
}

impl View for FileRead {
    type V = Seq<char>;

    open spec fn view(&self) -> Seq<char> {
        self.path@
    }
}

impl FileWriteView {
    /// The disk after the write: the file holds the new content, and every
    /// other file is as it was.
    pub open spec fn apply(self, disk: Map<Seq<char>, Seq<char>>) -> Map<Seq<char>, Seq<char>> {
        disk.insert(self.path, self.text)
    }
}

/// What reading the file at `path` yields: its content, if there is such a
/// file.
pub open spec fn read(disk: Map<Seq<char>, Seq<char>>, path: Seq<char>) -> Option<Seq<char>> {
    if disk.dom().contains(path) {
        Some(disk[path])
    } else {
        None
    }
}

} // verus!
