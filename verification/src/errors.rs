//! Per-entry error taxonomy: one variant per stage at which processing an
//! entry can fail. Every variant except `ModifiedTimeToChrono` carries the
//! underlying error rendered as text.

use vstd::prelude::*;

verus! {

#[derive(Debug)]
pub enum Error {
    ReadingSourceDir(String),
    Metadata(String),
    ModifiedTime(String),
    ModifiedTimeDuration(String),
    ModifiedTimeToChrono,
    CreatingTargetDirectory(String),
    GettingSourceFileMeta(String),
    GettingTargetFileMeta(String),
    OpeningSourceFile(String),
    CreatingTargetFile(String),
    CopyingFileContents(String),
    DeletingSourceFile(String),
}

impl Error {
    /// The human-readable message for this error: a fixed stage prefix
    /// followed by the underlying error text.
    pub open spec fn message_spec(self) -> Seq<char> {
        match self {
            Error::ReadingSourceDir(d) => "failed reading source dir: "@ + d@,
            Error::Metadata(d) => "failed getting file metadata: "@ + d@,
            Error::ModifiedTime(d) => "failed getting mtime: "@ + d@,
            Error::ModifiedTimeDuration(d) => "failed getting mtime time since unix epoch: "@
                + d@,
            Error::ModifiedTimeToChrono => "could not get mtime as chrono::DateTime"@,
            Error::CreatingTargetDirectory(d) => "failed creating target directory: "@ + d@,
            Error::GettingSourceFileMeta(d) => "failed getting source file metadata: "@ + d@,
            Error::GettingTargetFileMeta(d) => "failed getting target file metadata: "@ + d@,
            Error::OpeningSourceFile(d) => "failed opening source file: "@ + d@,
            Error::CreatingTargetFile(d) => "failed creating target file: "@ + d@,
            Error::CopyingFileContents(d) => "failed copying data: "@ + d@,
            Error::DeletingSourceFile(d) => "failed deleting source file: "@ + d@,
        }
    }

    /// Renders the message this error stands for.
    pub fn message(&self) -> (r: String)
        ensures
            r@ == self.message_spec(),
    {
        match self {
            Error::ReadingSourceDir(d) => String::from_str("failed reading source dir: ").concat(
                d.as_str(),
            ),
            Error::Metadata(d) => String::from_str("failed getting file metadata: ").concat(
                d.as_str(),
            ),
            Error::ModifiedTime(d) => String::from_str("failed getting mtime: ").concat(d.as_str()),
            Error::ModifiedTimeDuration(d) => String::from_str(
                "failed getting mtime time since unix epoch: ",
            ).concat(d.as_str()),
            Error::ModifiedTimeToChrono => String::from_str(
                "could not get mtime as chrono::DateTime",
            ),
            Error::CreatingTargetDirectory(d) => String::from_str(
                "failed creating target directory: ",
            ).concat(d.as_str()),
            Error::GettingSourceFileMeta(d) => String::from_str(
                "failed getting source file metadata: ",
            ).concat(d.as_str()),
            Error::GettingTargetFileMeta(d) => String::from_str(
                "failed getting target file metadata: ",
            ).concat(d.as_str()),
            Error::OpeningSourceFile(d) => String::from_str("failed opening source file: ").concat(
                d.as_str(),
            ),
            Error::CreatingTargetFile(d) => String::from_str("failed creating target file: ")
                .concat(d.as_str()),
            Error::CopyingFileContents(d) => String::from_str("failed copying data: ").concat(
                d.as_str(),
            ),
            Error::DeletingSourceFile(d) => String::from_str("failed deleting source file: ")
                .concat(d.as_str()),
        }
    }

    /// An exact copy of this error.
    pub fn duplicate(&self) -> (r: Error)
        ensures
            r == *self,
    {
        match self {
            Error::ReadingSourceDir(d) => Error::ReadingSourceDir(d.clone()),
            Error::Metadata(d) => Error::Metadata(d.clone()),
            Error::ModifiedTime(d) => Error::ModifiedTime(d.clone()),
            Error::ModifiedTimeDuration(d) => Error::ModifiedTimeDuration(d.clone()),
            Error::ModifiedTimeToChrono => Error::ModifiedTimeToChrono,
            Error::CreatingTargetDirectory(d) => Error::CreatingTargetDirectory(d.clone()),
            Error::GettingSourceFileMeta(d) => Error::GettingSourceFileMeta(d.clone()),
            Error::GettingTargetFileMeta(d) => Error::GettingTargetFileMeta(d.clone()),
            Error::OpeningSourceFile(d) => Error::OpeningSourceFile(d.clone()),
            Error::CreatingTargetFile(d) => Error::CreatingTargetFile(d.clone()),
            Error::CopyingFileContents(d) => Error::CopyingFileContents(d.clone()),
            Error::DeletingSourceFile(d) => Error::DeletingSourceFile(d.clone()),
        }
    }
}

} // verus!
