use vstd::prelude::*;

verus! {

/// The kinds of failure a sync run can end with.
#[derive(Debug, Clone, Copy, PartialEq, Eq, Structural)]
pub enum FileError {
    /// A local read, write or directory creation failed.
    IOError,
    /// Every mirror of a declared file failed.
    AllDownloadsFailed,
    /// A single mirror failed; only ever folded into `AllDownloadsFailed`.
    DownloadFailed,
    /// Removing a local file failed.
    DeleteFailed,
}

impl FileError {
    /// The human-readable label of each error kind.
    pub open spec fn spec_message(self) -> Seq<char> {
        match self {
            FileError::IOError => "IO Error"@,
            FileError::AllDownloadsFailed => "All Downloads Failed"@,
            FileError::DownloadFailed => "Download Failed"@,
            FileError::DeleteFailed => "Delete Failed"@,
        }
    }

    /// Renders the error for display.
    pub fn message(&self) -> (r: String)
        ensures
            r@ == self.spec_message(),
    {
        match self {
            FileError::IOError => String::from_str("IO Error"),
            FileError::AllDownloadsFailed => String::from_str("All Downloads Failed"),
            FileError::DownloadFailed => String::from_str("Download Failed"),
            FileError::DeleteFailed => String::from_str("Delete Failed"),
        }
    }
}

} // verus!
