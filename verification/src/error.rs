//! What can go wrong while an index is built or searched, and which failures stop the work.

use vstd::prelude::*;
use vstd::string::*;

verus! {

/// The file operation on the index that failed.
#[derive(Clone, Copy, Debug, PartialEq, Eq, Structural)]
pub enum IoStage {
    /// Deleting an index left at the destination by an earlier build.
    Remove,
    /// Creating the index at the destination.
    Create,
    /// Appending a record to the index, or flushing what was appended.
    Write,
    /// Opening or reading an index for a search.
    Open,
}

/// A failure of a build or of a search.
#[derive(Clone, Copy, Debug, PartialEq, Eq, Structural)]
pub enum IndexError {
    /// The root of a build does not exist or is not a directory.
    PathNotFound,
    /// A file operation on the index failed.
    Io(IoStage),
    /// An entry has no parent directory or no file name to write in the split layout.
    MissingComponent,
    /// A line of a split index does not hold exactly two fields.
    MalformedRecord,
    /// An entry met during the traversal could not be read.
    PartialTraversal,
}

impl IndexError {
    /// A fatal error ends the build or the search that met it. The others are confined to one
    /// entry or one line, which is passed over.
    pub open spec fn is_fatal(self) -> bool {
        self is PathNotFound || self is Io || self is MissingComponent
    }

    /// The sentence that describes the error.
    pub open spec fn message_text(self) -> Seq<char> {
        match self {
            IndexError::PathNotFound => "root directory does not exist"@,
            IndexError::Io(IoStage::Remove) => "failed to remove index"@,
            IndexError::Io(IoStage::Create) => "failed to create index"@,
            IndexError::Io(IoStage::Write) => "failed to write to index"@,
            IndexError::Io(IoStage::Open) => "failed to open index"@,
            IndexError::MissingComponent => "entry has no parent directory or no file name"@,
            IndexError::MalformedRecord => "record does not hold exactly two fields"@,
            IndexError::PartialTraversal => "entry could not be read"@,
        }
    }

    /// Tells whether the error ends the operation that met it.
    pub fn fatal(&self) -> (fatal: bool)
        ensures
            fatal == self.is_fatal(),
    {
        match self {
            IndexError::PathNotFound => true,
            IndexError::Io(_) => true,
            IndexError::MissingComponent => true,
            IndexError::MalformedRecord => false,
            IndexError::PartialTraversal => false,
        }
    }

    /// The sentence that describes the error, for a caller to show.
    pub fn message(&self) -> (text: String)
        ensures
            text@ == self.message_text(),
    {
        match self {
            IndexError::PathNotFound => String::from_str("root directory does not exist"),
            IndexError::Io(IoStage::Remove) => String::from_str("failed to remove index"),
            IndexError::Io(IoStage::Create) => String::from_str("failed to create index"),
            IndexError::Io(IoStage::Write) => String::from_str("failed to write to index"),
            IndexError::Io(IoStage::Open) => String::from_str("failed to open index"),
            IndexError::MissingComponent => String::from_str(
                "entry has no parent directory or no file name",
            ),
            IndexError::MalformedRecord => String::from_str(
                "record does not hold exactly two fields",
            ),
            IndexError::PartialTraversal => String::from_str("entry could not be read"),
        }
    }
}

} // verus!
