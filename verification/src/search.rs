//! Substring search over the lines of an index.

use vstd::prelude::*;
use vstd::slice::slice_subrange;
use vstd::string::*;

use crate::error::{IndexError, IoStage};
use crate::layout::{Layout, SearchMode};
use crate::reader::{read_lines, text_lines};
use crate::record::{field_ends, join_path, joined_path, record_fields};
use crate::text::{chars_occur, occurs_in, to_chars};

verus! {

/// The path that a search for `query` shows for `line`, or `None` where the line does not
/// match. A line of a merged index matches where it holds the query, and is shown as it is. A
/// line of a split index must hold exactly two fields; it matches where the query is held by
/// the whole line or, in file-name mode, by the second field, and is shown as the first field
/// joined to the second.
pub open spec fn line_match(line: Seq<char>, layout: Layout, mode: SearchMode, query: Seq<char>)
    -> Option<Seq<char>> {
    match layout {
        Layout::Merged => if occurs_in(query, line) {
            Some(line)
        } else {
            None
        },
        Layout::Split => match record_fields(line) {
            None => None,
            Some((parent, name)) => {
                let subject = match mode {
                    SearchMode::WholeLine => line,
                    SearchMode::FileNameOnly => name,
                };
                if occurs_in(query, subject) {
                    Some(joined_path(parent, name))
                } else {
                    None
                }
            },
        },
    }
}

/// The test that a search for `query` puts every line to.
pub open spec fn matcher(layout: Layout, mode: SearchMode, query: Seq<char>) -> spec_fn(
    Seq<char>,
) -> Option<Seq<char>> {
    |line: Seq<char>| line_match(line, layout, mode, query)
}

/// The paths that a search shows for the lines of an index: one for each line that matches,
/// in the order of the lines.
pub open spec fn search_results(
    lines: Seq<Seq<char>>,
    layout: Layout,
    mode: SearchMode,
    query: Seq<char>,
) -> Seq<Seq<char>> {
    lines.filter_map(matcher(layout, mode, query))
}

/// Matches one line against a query that is given by its characters.
fn match_chars(
    line: &str,
    layout: Layout,
    mode: SearchMode,
    query: &[char],
) -> (r: Option<String>)
    ensures
        match line_match(line@, layout, mode, query@) {
            Some(path) => r matches Some(shown) && shown@ == path,
            None => r is None,
        },
{
    let chars = to_chars(line);
    match layout {
        Layout::Merged => {
            if chars_occur(query, chars.as_slice()) {
                Some(String::from_str(line))
            } else {
                None
            }
        },
        Layout::Split => match field_ends(chars.as_slice()) {
            None => None,
            Some((first, second)) => {
                let found = match mode {
                    SearchMode::WholeLine => chars_occur(query, chars.as_slice()),
                    SearchMode::FileNameOnly => chars_occur(
                        query,
                        slice_subrange(chars.as_slice(), first + 1, second),
                    ),
                };
                if found {
                    let parent = line.substring_char(0, first);
                    let name = line.substring_char(first + 1, second);
                    Some(join_path(parent, name))
                } else {
                    None
                }
            },
        },
    }
}

/// The path to show for `line` where it matches `query`, `None` where it does not match or is
/// no record of the layout.
pub fn match_line(
    line: &str,
    layout: Layout,
    mode: SearchMode,
    query: &str,
) -> (r: Option<String>)
    ensures
        match line_match(line@, layout, mode, query@) {
            Some(path) => r matches Some(shown) && shown@ == path,
            None => r is None,
        },
{
    let query_chars = to_chars(query);
    match_chars(line, layout, mode, query_chars.as_slice())
}

/// Searches the lines of an index: the paths of the lines that match, in the order of the
/// lines, nothing sorted and nothing left out.
pub fn search_lines(
    lines: &Vec<String>,
    layout: Layout,
    mode: SearchMode,
    query: &str,
) -> (found: Vec<String>)
    ensures
        found.deep_view() == search_results(lines.deep_view(), layout, mode, query@),
{
    let ghost all = lines.deep_view();
    let query_chars = to_chars(query);
    let mut found: Vec<String> = Vec::new();
    let mut i: usize = 0;
    proof {
        assert(found.deep_view() =~= Seq::<Seq<char>>::empty());
    }
    while i < lines.len()
        invariant
            i <= lines.len(),
            all == lines.deep_view(),
            query_chars@ == query@,
            found.deep_view() == search_results(all.take(i as int), layout, mode, query@),
        decreases lines.len() - i,
    {
        let ghost before = found.deep_view();
        proof {
            assert(all.take(i + 1).drop_last() =~= all.take(i as int));
            assert(all.take(i + 1).last() == lines[i as int]@);
        }
        match match_chars(lines[i].as_str(), layout, mode, query_chars.as_slice()) {
            Some(path) => {
                found.push(path);
                proof {
                    assert(found.deep_view() =~= before + seq![path@]);
                }
            },
            None => {},
        }
        i += 1;
    }
    proof {
        assert(all.take(i as int) =~= all);
    }
    found
}

/// Searches an index given by the bytes of its file.
pub fn search_index(
    content: &[u8],
    layout: Layout,
    mode: SearchMode,
    query: &str,
) -> (found: Vec<String>)
    ensures
        found.deep_view() == search_results(text_lines(content@), layout, mode, query@),
{
    let lines = read_lines(content);
    search_lines(&lines, layout, mode, query)
}

/// Searches an index file, given what the caller could read of it: the bytes of the file, or
/// `None` where the file could not be opened or read. A file that could not be read is a
/// failure of the search, reported before any line is matched.
pub fn search_file(
    content: Option<&[u8]>,
    layout: Layout,
    mode: SearchMode,
    query: &str,
) -> (r: Result<Vec<String>, IndexError>)
    ensures
        match content {
            Some(bytes) => r matches Ok(found) && found.deep_view() == search_results(
                text_lines(bytes@),
                layout,
                mode,
                query@,
            ),
            None => r matches Err(error) && error == IndexError::Io(IoStage::Open),
        },
{
    match content {
        Some(bytes) => Ok(search_index(bytes, layout, mode, query)),
        None => Err(IndexError::Io(IoStage::Open)),
    }
}

} // verus!
