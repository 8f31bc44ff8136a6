//! The two record layouts of an index and the ways a query can be matched.

use vstd::prelude::*;

verus! {

/// The character that separates the directory from the file name in a split record.
pub const DELIMITER: char = '\t';

/// The character that ends every record of an index.
pub const LINE_END: char = '\n';

/// The character that joins a directory and a file name into a path.
pub const SEPARATOR: char = '/';

/// How one entry is written as one line of the index.
#[derive(Clone, Copy, Debug, PartialEq, Eq, Structural)]
pub enum Layout {
    /// The whole path as a single field.
    Merged,
    /// The parent directory and the file name, separated by [`DELIMITER`].
    Split,
}

/// Which part of a record a query is tested against.
#[derive(Clone, Copy, Debug, PartialEq, Eq, Structural)]
pub enum SearchMode {
    /// The record as written, delimiter included.
    WholeLine,
    /// The file name field of a split record. A merged index has no such field: it is searched
    /// by whole lines in either mode.
    FileNameOnly,
}

} // verus!
