//! The text of an index: one line for each entry that a traversal reached, in the order in
//! which it reached them.

use vstd::prelude::*;
use vstd::string::*;

use crate::entry::{EntryView, WalkItem};
use crate::error::IndexError;
use crate::layout::{Layout, LINE_END};
use crate::record::{format_record, record_text};

verus! {

/// What one step of a traversal adds to an index: nothing for an entry that could not be read
/// or that the index leaves out, else the entry's line. An entry that the layout cannot write
/// is an error.
pub open spec fn item_text(
    item: Option<EntryView>,
    layout: Layout,
    files_only: bool,
) -> Result<Option<Seq<char>>, IndexError> {
    match item {
        None => Ok(None),
        Some(entry) => if entry.is_selected(files_only) {
            match record_text(entry, layout) {
                Ok(text) => Ok(Some(text)),
                Err(error) => Err(error),
            }
        } else {
            Ok(None)
        },
    }
}

/// The lines of the index of a traversal, in traversal order, or the error of the first entry
/// that the layout cannot write.
pub open spec fn index_lines(
    items: Seq<Option<EntryView>>,
    layout: Layout,
    files_only: bool,
) -> Result<Seq<Seq<char>>, IndexError>
    decreases items.len(),
{
    if items.len() == 0 {
        Ok(Seq::empty())
    } else {
        match index_lines(items.drop_last(), layout, files_only) {
            Err(error) => Err(error),
            Ok(lines) => match item_text(items.last(), layout, files_only) {
                Err(error) => Err(error),
                Ok(None) => Ok(lines),
                Ok(Some(line)) => Ok(lines.push(line)),
            },
        }
    }
}

/// The text of an index file: every line followed by the line end.
pub open spec fn join_lines(lines: Seq<Seq<char>>) -> Seq<char>
    decreases lines.len(),
{
    if lines.len() == 0 {
        Seq::empty()
    } else {
        join_lines(lines.drop_last()) + lines.last() + seq![LINE_END]
    }
}

/// The text of the index of a traversal.
pub open spec fn index_text(
    items: Seq<Option<EntryView>>,
    layout: Layout,
    files_only: bool,
) -> Result<Seq<char>, IndexError> {
    match index_lines(items, layout, files_only) {
        Ok(lines) => Ok(join_lines(lines)),
        Err(error) => Err(error),
    }
}

/// The line that one step of a traversal adds to an index that can be built, if it adds one.
pub open spec fn line_source(
    layout: Layout,
    files_only: bool,
) -> spec_fn(Option<EntryView>) -> Option<Seq<char>> {
    |item: Option<EntryView>|
        match item_text(item, layout, files_only) {
            Ok(Some(line)) => Some(line),
            _ => None,
        }
}

/// An index can be built exactly where the layout can write every entry that the index holds;
/// its lines are then the lines of these entries, in traversal order.
pub proof fn lemma_index_lines(items: Seq<Option<EntryView>>, layout: Layout, files_only: bool)
    ensures
        index_lines(items, layout, files_only) is Ok <==> forall|i: int|
            0 <= i < items.len() ==> item_text(#[trigger] items[i], layout, files_only) is Ok,
        index_lines(items, layout, files_only) matches Ok(lines) ==> lines == items.filter_map(
            line_source(layout, files_only),
        ),
    decreases items.len(),
{
    if items.len() > 0 {
        let rest = items.drop_last();
        lemma_index_lines(rest, layout, files_only);
        if index_lines(items, layout, files_only) is Ok {
            assert forall|i: int| 0 <= i < items.len() implies item_text(
                #[trigger] items[i],
                layout,
                files_only,
            ) is Ok by {
                if i < items.len() - 1 {
                    assert(items[i] == rest[i]);
                }
            }
            let lines = index_lines(items, layout, files_only)->Ok_0;
            assert(lines =~= items.filter_map(line_source(layout, files_only)));
        }
        if forall|i: int|
            0 <= i < items.len() ==> item_text(#[trigger] items[i], layout, files_only) is Ok {
            assert forall|i: int| 0 <= i < rest.len() implies item_text(
                #[trigger] rest[i],
                layout,
                files_only,
            ) is Ok by {
                assert(rest[i] == items[i]);
            }
            assert(item_text(items[items.len() - 1], layout, files_only) is Ok);
        }
    }
}

/// The text of an index begins with its first line and the line end.
pub proof fn lemma_join_lines_first(first: Seq<char>, rest: Seq<Seq<char>>)
    ensures
        join_lines(seq![first] + rest) == first + seq![LINE_END] + join_lines(rest),
    decreases rest.len(),
{
    let all = seq![first] + rest;
    if rest.len() == 0 {
        assert(all.drop_last() =~= rest);
        assert(all.last() == first);
        assert(join_lines(rest) =~= Seq::<char>::empty());
        assert(join_lines(all) =~= first + seq![LINE_END] + join_lines(rest));
    } else {
        assert(all.drop_last() =~= seq![first] + rest.drop_last());
        lemma_join_lines_first(first, rest.drop_last());
        assert(join_lines(all) =~= first + seq![LINE_END] + join_lines(rest));
    }
}

/// An error among the first entries of a traversal is the error of the whole traversal.
pub proof fn lemma_index_lines_error(
    items: Seq<Option<EntryView>>,
    layout: Layout,
    files_only: bool,
    count: int,
)
    requires
        0 <= count <= items.len(),
        index_lines(items.take(count), layout, files_only) is Err,
    ensures
        index_lines(items, layout, files_only) == index_lines(
            items.take(count),
            layout,
            files_only,
        ),
    decreases items.len() - count,
{
    if count == items.len() {
        assert(items.take(count) =~= items);
    } else {
        assert(items.take(count + 1).drop_last() =~= items.take(count));
        lemma_index_lines_error(items, layout, files_only, count + 1);
    }
}

/// The line that one step of a traversal adds to an index, without the line end; `None` where
/// it adds nothing.
pub fn item_line(
    item: &WalkItem,
    layout: Layout,
    files_only: bool,
) -> (r: Result<Option<String>, IndexError>)
    ensures
        match item_text(item@, layout, files_only) {
            Ok(Some(text)) => r matches Ok(Some(line)) && line@ == text,
            Ok(None) => r matches Ok(None),
            Err(error) => r matches Err(e) && e == error,
        },
{
    match item.entry() {
        // An entry that could not be read is passed over: the traversal goes on.
        Err(_) => Ok(None),
        Ok(entry) => {
            if files_only && !entry.is_file {
                Ok(None)
            } else {
                match format_record(entry, layout) {
                    Ok(line) => Ok(Some(line)),
                    Err(error) => Err(error),
                }
            }
        },
    }
}

/// The text of the index of a traversal: the lines of its entries in traversal order, each
/// followed by the line end. Entries that could not be read add nothing; with `files_only`,
/// neither do entries that are no regular files. The first entry that the layout cannot
/// write ends the build with its error.
pub fn render_index(
    items: &Vec<WalkItem>,
    layout: Layout,
    files_only: bool,
) -> (r: Result<String, IndexError>)
    ensures
        match index_text(items.deep_view(), layout, files_only) {
            Ok(text) => r matches Ok(index) && index@ == text,
            Err(error) => r matches Err(e) && e == error,
        },
{
    let ghost all = items.deep_view();
    let mut index = String::new();
    let ghost mut lines: Seq<Seq<char>> = Seq::empty();
    let mut i: usize = 0;
    while i < items.len()
        invariant
            i <= items.len(),
            all == items.deep_view(),
            index_lines(all.take(i as int), layout, files_only) == Ok::<_, IndexError>(lines),
            index@ == join_lines(lines),
        decreases items.len() - i,
    {
        proof {
            assert(all.take(i + 1).drop_last() =~= all.take(i as int));
            assert(all.take(i + 1).last() == items[i as int]@);
        }
        match item_line(&items[i], layout, files_only) {
            Err(error) => {
                proof {
                    lemma_index_lines_error(all, layout, files_only, i + 1);
                }
                return Err(error);
            },
            Ok(None) => {},
            Ok(Some(line)) => {
                proof {
                    reveal_strlit("\n");
                    assert("\n"@ =~= seq![LINE_END]);
                    assert(lines.push(line@).drop_last() =~= lines);
                    lines = lines.push(line@);
                }
                index.append(line.as_str());
                index.append("\n");
            },
        }
        i += 1;
    }
    proof {
        assert(all.take(i as int) =~= all);
    }
    Ok(index)
}

} // verus!
