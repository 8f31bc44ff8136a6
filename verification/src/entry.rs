//! What a traversal hands to a build: the entries it reached and the ones it could not read.

use vstd::prelude::*;

use crate::error::IndexError;
use crate::layout::SEPARATOR;

verus! {

/// One filesystem object below the root of a traversal, as text.
#[derive(Clone, Debug, PartialEq, Eq)]
pub struct Entry {
    /// The path of the object, from the root of the traversal.
    pub path: String,
    /// The directory that holds the object, where the path has one.
    pub parent: Option<String>,
    /// The last component of the path, where it is a name.
    pub file_name: Option<String>,
    /// Whether the object is a regular file.
    pub is_file: bool,
}

/// The mathematical value of an [`Entry`]: its texts as sequences of characters.
pub struct EntryView {
    /// The characters of the path.
    pub path: Seq<char>,
    /// The characters of the parent directory, where the path has one.
    pub parent: Option<Seq<char>>,
    /// The characters of the file name, where the path has one.
    pub file_name: Option<Seq<char>>,
    /// Whether the object is a regular file.
    pub is_file: bool,
}

/// The characters of a text that may be absent.
pub open spec fn text_of(text: Option<String>) -> Option<Seq<char>> {
    match text {
        Some(s) => Some(s@),
        None => None,
    }
}

impl View for Entry {
    type V = EntryView;

    open spec fn view(&self) -> EntryView {
        EntryView {
            path: self.path@,
            parent: text_of(self.parent),
            file_name: text_of(self.file_name),
            is_file: self.is_file,
        }
    }
}

impl DeepView for Entry {
    type V = EntryView;

    open spec fn deep_view(&self) -> EntryView {
        self@
    }
}

impl EntryView {
    /// Both the parent directory and the file name are present and not empty.
    pub open spec fn has_components(self) -> bool {
        &&& self.parent matches Some(parent)
        &&& parent.len() > 0
        &&& self.file_name matches Some(name)
        &&& name.len() > 0
    }

    /// The path is the parent directory and the file name with the separator between them.
    pub open spec fn is_joined(self) -> bool {
        &&& self.parent matches Some(parent)
        &&& self.file_name matches Some(name)
        &&& self.path == parent + seq![SEPARATOR] + name
    }

    /// The entry is written into an index that holds files only, or into one that holds all.
    pub open spec fn is_selected(self, files_only: bool) -> bool {
        files_only ==> self.is_file
    }
}

/// One step of a traversal: an entry, or the report that one could not be read.
#[derive(Clone, Debug, PartialEq, Eq)]
pub enum WalkItem {
    /// The traversal reached this entry.
    Found(Entry),
    /// The traversal met an entry that it could not read.
    Unreadable,
}

impl View for WalkItem {
    type V = Option<EntryView>;

    open spec fn view(&self) -> Option<EntryView> {
        match self {
            WalkItem::Found(entry) => Some(entry@),
            WalkItem::Unreadable => None,
        }
    }
}

impl DeepView for WalkItem {
    type V = Option<EntryView>;

    open spec fn deep_view(&self) -> Option<EntryView> {
        self@
    }
}

impl WalkItem {
    /// The entry that was reached, or `PartialTraversal` where none could be read.
    pub fn entry(&self) -> (r: Result<&Entry, IndexError>)
        ensures
            match self@ {
                Some(entry) => r matches Ok(e) && e@ == entry,
                None => r == Err::<&Entry, IndexError>(IndexError::PartialTraversal),
            },
    {
        match self {
            WalkItem::Found(entry) => Ok(entry),
            WalkItem::Unreadable => Err(IndexError::PartialTraversal),
        }
    }
}

/// How the tree below a root is to be walked.
#[derive(Clone, Copy, Debug, PartialEq, Eq, Structural)]
pub struct WalkOptions {
    /// The least number of components below the root that a reported entry has.
    pub min_depth: usize,
    /// Whether the walk stays on the filesystem that holds the root.
    pub same_file_system: bool,
}

/// The walk that feeds a build: every descendant of the root, the root itself left out, never
/// leaving the filesystem that the root is on.
pub fn walk_options() -> (options: WalkOptions)
    ensures
        options == (WalkOptions { min_depth: 1, same_file_system: true }),
{
    WalkOptions { min_depth: 1, same_file_system: true }
}

} // verus!
