//! A flat, line-oriented index of the paths below a directory, and substring search over it.
//!
//! A build walks a tree once and writes one line per entry; a search reads the lines back and
//! shows those that hold the query, in the order in which they were written. An index has one
//! of two layouts: the whole path on a line, or the parent directory and the file name with a
//! tab between them, which lets a search look at file names only.
//!
//! The library decides and computes; it opens no file and walks no directory. Its caller
//! hands it what a traversal found ([`entry`]) and the bytes of an index file ([`reader`]),
//! and performs the file operations that a build asks for ([`session`]).
//!
//! - [`layout`]: the two layouts, the two search modes, and the reserved characters.
//! - [`entry`]: entries and the steps of a traversal.
//! - [`record`]: an entry as a line, and a line as its fields.
//! - [`writer`]: the text of an index.
//! - [`session`]: the order of file operations in a build.
//! - [`reader`]: the lines of an index file.
//! - [`search`]: matching lines against a query.
//! - [`text`]: occurrence of one sequence in another, and fields between delimiters.
//! - [`encoding`]: facts about UTF-8 that tie the text of an index to the bytes of its file.
//! - [`laws`]: what holds of every record, every build and every search.
//! - [`error`]: the failures of a build and of a search.

pub mod encoding;
pub mod entry;
pub mod error;
pub mod laws;
pub mod layout;
pub mod reader;
pub mod record;
pub mod search;
pub mod session;
pub mod text;
pub mod writer;
