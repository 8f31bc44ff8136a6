//! One entry as one line of an index, and a line of a split index back as its two fields.

use vstd::prelude::*;
use vstd::string::*;

use crate::entry::{Entry, EntryView};
use crate::error::IndexError;
use crate::layout::{Layout, DELIMITER, SEPARATOR};
use crate::text::{
    fields, find_char, head_len, lemma_fields_lack_delimiter, lemma_head_len, lemma_head_len_is,
    to_chars,
};

verus! {

/// A directory and a file name as one split record: the two with the delimiter between them.
pub open spec fn split_text(parent: Seq<char>, name: Seq<char>) -> Seq<char> {
    parent + seq![DELIMITER] + name
}

/// A directory and a file name as one path: the two with the separator between them.
pub open spec fn joined_path(parent: Seq<char>, name: Seq<char>) -> Seq<char> {
    parent + seq![SEPARATOR] + name
}

/// The line that stands for `entry` in an index of the given layout. The merged layout writes
/// the path. The split layout writes the parent directory and the file name, and has no line
/// for an entry that lacks one of them.
pub open spec fn record_text(entry: EntryView, layout: Layout) -> Result<Seq<char>, IndexError> {
    match layout {
        Layout::Merged => Ok(entry.path),
        Layout::Split => if entry.has_components() {
            Ok(split_text(entry.parent->0, entry.file_name->0))
        } else {
            Err(IndexError::MissingComponent)
        },
    }
}

/// The directory and the file name of a split record: its two fields, where it has exactly two.
pub open spec fn record_fields(line: Seq<char>) -> Option<(Seq<char>, Seq<char>)> {
    let parts = fields(line, DELIMITER);
    if parts.len() == 2 {
        Some((parts[0], parts[1]))
    } else {
        None
    }
}

/// A line holds exactly two fields where it is a directory, the delimiter and a file name
/// that is not empty, or a directory, the delimiter, a file name and a final delimiter.
pub proof fn lemma_record_fields(line: Seq<char>)
    requires
        record_fields(line) is Some,
    ensures
        ({
            let (parent, name) = record_fields(line)->0;
            &&& !parent.contains(DELIMITER)
            &&& !name.contains(DELIMITER)
            &&& (line == split_text(parent, name) && name.len() > 0) || line == split_text(
                parent,
                name,
            ).push(DELIMITER)
        }),
{
    let (parent, name) = record_fields(line)->0;
    lemma_fields_lack_delimiter(line, DELIMITER);
    lemma_head_len(line, DELIMITER);
    let first = head_len(line, DELIMITER) as int;
    let rest = line.skip(first + 1);
    assert(fields(line, DELIMITER)[0] == parent);
    assert(fields(line, DELIMITER)[1] == name);
    assert(fields(line, DELIMITER) =~= seq![line.take(first)] + fields(rest, DELIMITER));
    assert(fields(rest, DELIMITER).len() == 1);
    assert(name == fields(rest, DELIMITER)[0]);
    lemma_head_len(rest, DELIMITER);
    let second = head_len(rest, DELIMITER) as int;
    if second >= rest.len() {
        assert(line =~= split_text(parent, name));
    } else {
        let tail = rest.skip(second + 1);
        assert(fields(rest, DELIMITER) =~= seq![rest.take(second)] + fields(tail, DELIMITER));
        assert(fields(tail, DELIMITER).len() == 0);
        assert(tail.len() == 0);
        assert(line =~= split_text(parent, name).push(DELIMITER));
    }
}

/// A directory and a file name without the delimiter, the name not empty, written as a split
/// record, are read back as they were.
pub proof fn lemma_split_text_fields(parent: Seq<char>, name: Seq<char>)
    requires
        !parent.contains(DELIMITER),
        !name.contains(DELIMITER),
        name.len() > 0,
    ensures
        record_fields(split_text(parent, name)) == Some((parent, name)),
{
    let line = split_text(parent, name);
    assert forall|k: int| 0 <= k < parent.len() implies line[k] != DELIMITER by {
        assert(parent.contains(parent[k]));
    }
    lemma_head_len_is(line, DELIMITER, parent.len() as int);
    let rest = line.skip(parent.len() as int + 1);
    assert(rest =~= name);
    assert forall|k: int| 0 <= k < name.len() implies name[k] != DELIMITER by {
        assert(name.contains(name[k]));
    }
    lemma_head_len_is(name, DELIMITER, name.len() as int);
    assert(line.take(parent.len() as int) =~= parent);
    assert(fields(name, DELIMITER) =~= seq![name]);
    assert(fields(line, DELIMITER) =~= seq![parent] + fields(name, DELIMITER));
}

/// Writes `entry` as one line of an index, without the line end.
pub fn format_record(entry: &Entry, layout: Layout) -> (r: Result<String, IndexError>)
    ensures
        match record_text(entry@, layout) {
            Ok(text) => r matches Ok(line) && line@ == text,
            Err(error) => r matches Err(e) && e == error,
        },
{
    match layout {
        Layout::Merged => Ok(entry.path.clone()),
        Layout::Split => match (&entry.parent, &entry.file_name) {
            (Some(parent), Some(name)) => {
                if parent.as_str().is_empty() || name.as_str().is_empty() {
                    Err(IndexError::MissingComponent)
                } else {
                    let mut line = parent.clone();
                    proof {
                        reveal_strlit("\t");
                        assert("\t"@ =~= seq![DELIMITER]);
                    }
                    line.append("\t");
                    line.append(name.as_str());
                    Ok(line)
                }
            },
            _ => Err(IndexError::MissingComponent),
        },
    }
}

/// Where the two fields of a split record end: the first field is `line[..first]`, the second
/// `line[first + 1..second]`. `None` where the line does not hold exactly two fields.
pub fn field_ends(line: &[char]) -> (r: Option<(usize, usize)>)
    ensures
        match r {
            Some((first, second)) => {
                &&& first < second <= line@.len()
                &&& record_fields(line@) == Some(
                    (line@.subrange(0, first as int), line@.subrange(first + 1, second as int)),
                )
            },
            None => record_fields(line@) is None,
        },
{
    let len = line.len();
    let first = find_char(line, DELIMITER, 0);
    proof {
        assert(line@.skip(0) =~= line@);
    }
    if first >= len {
        return None;
    }
    let ghost rest = line@.skip(first + 1);
    let second = find_char(line, DELIMITER, first + 1);
    proof {
        assert(line@.take(first as int) =~= line@.subrange(0, first as int));
        assert(fields(line@, DELIMITER) =~= seq![line@.take(first as int)] + fields(
            rest,
            DELIMITER,
        ));
        assert(head_len(rest, DELIMITER) == second - first - 1);
    }
    if second >= len {
        if first + 1 == len {
            None
        } else {
            proof {
                assert(rest =~= line@.subrange(first + 1, second as int));
            }
            Some((first, second))
        }
    } else if second + 1 == len {
        proof {
            assert(rest.take(second - first - 1) =~= line@.subrange(first + 1, second as int));
            assert(fields(rest.skip(second - first), DELIMITER) =~= Seq::empty());
            assert(fields(rest, DELIMITER) =~= seq![rest.take(second - first - 1)]);
        }
        Some((first, second))
    } else {
        proof {
            let tail = rest.skip(second - first);
            assert(tail.len() > 0);
            assert(fields(tail, DELIMITER).len() >= 1);
            assert(fields(rest, DELIMITER) =~= seq![rest.take(second - first - 1)] + fields(
                tail,
                DELIMITER,
            ));
        }
        None
    }
}

/// Cuts a line of a split index into its directory and its file name.
pub fn split_record(line: &str) -> (r: Result<(String, String), IndexError>)
    ensures
        match record_fields(line@) {
            Some((parent, name)) => r matches Ok(pair) && pair.0@ == parent && pair.1@ == name,
            None => r matches Err(e) && e == IndexError::MalformedRecord,
        },
{
    let chars = to_chars(line);
    match field_ends(chars.as_slice()) {
        Some((first, second)) => {
            let parent = String::from_str(line.substring_char(0, first));
            let name = String::from_str(line.substring_char(first + 1, second));
            Ok((parent, name))
        },
        None => Err(IndexError::MalformedRecord),
    }
}

/// Joins a directory and a file name into the path that a search shows.
pub fn join_path(parent: &str, name: &str) -> (path: String)
    ensures
        path@ == joined_path(parent@, name@),
{
    let mut path = String::from_str(parent);
    proof {
        reveal_strlit("/");
        assert("/"@ =~= seq![SEPARATOR]);
    }
    path.append("/");
    path.append(name);
    path
}

} // verus!
