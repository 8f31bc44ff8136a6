//! What holds of every index: of a record and its fields, of a build and the search that
//! follows it, and of a traversal that could not read every entry.

use vstd::prelude::*;
use vstd::utf8::{char_u32_cast, encode_utf8, encode_utf8_decode_utf8, encode_utf8_valid_utf8};

use crate::encoding::{
    lemma_encode_concat, lemma_encode_lacks_byte, lemma_encode_last_byte, lemma_encode_one,
};
use crate::entry::EntryView;
use crate::error::IndexError;
use crate::layout::{Layout, SearchMode, DELIMITER, LINE_END};
use crate::reader::{text_lines, CARRIAGE_RETURN, LINE_FEED};
use crate::record::{
    joined_path, lemma_record_fields, lemma_split_text_fields, record_fields, record_text,
    split_text,
};
use crate::search::{line_match, matcher, search_results};
use crate::text::{
    and_then, lemma_filter_map_holds, lemma_filter_map_keeps_order, lemma_filter_map_twice,
    lemma_head_len_is, lemma_occurs_in_part, occurs_at, occurs_in, picks_all,
};
use crate::writer::{
    index_lines, index_text, join_lines, lemma_index_lines, lemma_join_lines_first, line_source,
};

verus! {

/// A line that an index file gives back as it was written: it holds no line end, and it does
/// not end with a carriage return.
pub open spec fn is_plain_line(line: Seq<char>) -> bool {
    &&& forall|k: int| 0 <= k < line.len() ==> line[k] != LINE_END
    &&& line.len() > 0 ==> line.last() != '\r'
}

/// What a search shows for one step of a traversal, after a build in the same layout: the
/// path of the entry's line where the index holds the entry and its line matches.
pub open spec fn shown(layout: Layout, files_only: bool, mode: SearchMode, query: Seq<char>)
    -> spec_fn(Option<EntryView>) -> Option<Seq<char>> {
    and_then(line_source(layout, files_only), matcher(layout, mode, query))
}

/// Plain lines, written as the text of an index and encoded as the bytes of its file, are
/// read back as they were: the same lines in the same order.
pub proof fn lemma_read_back(lines: Seq<Seq<char>>)
    requires
        forall|i: int| 0 <= i < lines.len() ==> is_plain_line(#[trigger] lines[i]),
    ensures
        text_lines(encode_utf8(join_lines(lines))) == lines,
    decreases lines.len(),
{
    if lines.len() == 0 {
        assert(encode_utf8(join_lines(lines)) =~= Seq::<u8>::empty());
        assert(text_lines(encode_utf8(join_lines(lines))) =~= lines);
    } else {
        let first = lines[0];
        let rest = lines.drop_first();
        assert(lines =~= seq![first] + rest);
        assert(is_plain_line(first));
        assert forall|i: int| 0 <= i < rest.len() implies is_plain_line(#[trigger] rest[i]) by {
            assert(rest[i] == lines[i + 1]);
        }
        lemma_join_lines_first(first, rest);
        lemma_encode_concat(first + seq![LINE_END], join_lines(rest));
        lemma_encode_concat(first, seq![LINE_END]);
        lemma_encode_one(LINE_END);
        assert((0x0au32 & 0x7F) as u8 == 0x0au8) by (bit_vector);
        let head = encode_utf8(first);
        let tail = encode_utf8(join_lines(rest));
        let bytes = encode_utf8(join_lines(lines));
        assert(bytes =~= head + seq![LINE_FEED] + tail);
        assert forall|k: int| 0 <= k < first.len() implies first[k] as u32 != LINE_FEED as u32 by {
            char_u32_cast(first[k], first[k] as u32);
            char_u32_cast(LINE_END, LINE_END as u32);
        }
        lemma_encode_lacks_byte(first, LINE_FEED);
        lemma_head_len_is(bytes, LINE_FEED, head.len() as int);
        if first.len() > 0 {
            char_u32_cast(first.last(), first.last() as u32);
            char_u32_cast('\r', '\r' as u32);
            lemma_encode_last_byte(first, CARRIAGE_RETURN);
        }
        encode_utf8_valid_utf8(first);
        encode_utf8_decode_utf8(first);
        lemma_read_back(rest);
        assert(bytes.take(head.len() as int) =~= head);
        assert(bytes.skip(head.len() as int + 1) =~= tail);
        assert(text_lines(bytes) =~= seq![first] + rest);
    }
}

/// A split record holds what was written into it: an entry whose parent directory and file
/// name are free of the delimiter is read back as exactly these two fields, and where its path
/// is the two joined by the separator, a search shows that path.
pub proof fn lemma_split_record_round_trip(entry: EntryView)
    requires
        entry.has_components(),
        !entry.parent->0.contains(DELIMITER),
        !entry.file_name->0.contains(DELIMITER),
    ensures
        record_text(entry, Layout::Split) == Ok::<Seq<char>, IndexError>(
            split_text(entry.parent->0, entry.file_name->0),
        ),
        record_fields(split_text(entry.parent->0, entry.file_name->0)) == Some(
            (entry.parent->0, entry.file_name->0),
        ),
        entry.is_joined() ==> joined_path(entry.parent->0, entry.file_name->0) == entry.path,
{
    lemma_split_text_fields(entry.parent->0, entry.file_name->0);
}

/// A record is one line: where the text that it is made of is plain, so is the record.
pub proof fn lemma_record_is_one_line(entry: EntryView, layout: Layout)
    requires
        record_text(entry, layout) is Ok,
        match layout {
            Layout::Merged => is_plain_line(entry.path),
            Layout::Split => !entry.parent->0.contains(LINE_END) && is_plain_line(
                entry.file_name->0,
            ),
        },
    ensures
        is_plain_line(record_text(entry, layout)->Ok_0),
{
    if layout == Layout::Split {
        let parent = entry.parent->0;
        let name = entry.file_name->0;
        let line = split_text(parent, name);
        assert forall|k: int| 0 <= k < line.len() implies line[k] != LINE_END by {
            if k < parent.len() {
                assert(parent.contains(parent[k]));
            } else if k > parent.len() {
                assert(line[k] == name[k - parent.len() - 1]);
            }
        }
        assert(line.last() == name.last());
    }
}

/// The two fields of a record are free of the delimiter, whatever the line.
pub proof fn lemma_fields_are_free_of_delimiter(line: Seq<char>)
    requires
        record_fields(line) is Some,
    ensures
        ({
            let (parent, name) = record_fields(line)->0;
            !parent.contains(DELIMITER) && !name.contains(DELIMITER)
        }),
{
    lemma_record_fields(line);
}

/// A search by file name finds no line that a search of the whole line would miss, and shows
/// the same path for it.
pub proof fn lemma_file_name_match_is_line_match(line: Seq<char>, query: Seq<char>)
    requires
        line_match(line, Layout::Split, SearchMode::FileNameOnly, query) is Some,
    ensures
        line_match(line, Layout::Split, SearchMode::WholeLine, query) == line_match(
            line,
            Layout::Split,
            SearchMode::FileNameOnly,
            query,
        ),
{
    let (parent, name) = record_fields(line)->0;
    lemma_record_fields(line);
    let at = parent.len() as int + 1;
    assert(line.subrange(at, at + name.len()) =~= name);
    assert(occurs_at(line, name, at));
    lemma_occurs_in_part(query, name, line, at);
}

/// What a search finds in the index of a traversal stands in traversal order: `picks` names,
/// in rising order, the steps of the traversal whose entries the index holds and the query
/// matches, and the search shows one path for each of them, in that order.
pub proof fn lemma_search_follows_traversal(
    items: Seq<Option<EntryView>>,
    layout: Layout,
    files_only: bool,
    mode: SearchMode,
    query: Seq<char>,
) -> (picks: Seq<int>)
    requires
        index_lines(items, layout, files_only) is Ok,
        forall|i: int|
            0 <= i < index_lines(items, layout, files_only)->Ok_0.len() ==> is_plain_line(
                #[trigger] index_lines(items, layout, files_only)->Ok_0[i],
            ),
    ensures
        index_text(items, layout, files_only) is Ok,
        picks_all(
            picks,
            search_results(
                text_lines(encode_utf8(index_text(items, layout, files_only)->Ok_0)),
                layout,
                mode,
                query,
            ),
            items,
            shown(layout, files_only, mode, query),
        ),
{
    let lines = index_lines(items, layout, files_only)->Ok_0;
    lemma_read_back(lines);
    lemma_index_lines(items, layout, files_only);
    lemma_filter_map_twice(items, line_source(layout, files_only), matcher(layout, mode, query));
    lemma_filter_map_keeps_order(items, shown(layout, files_only, mode, query))
}

/// After a build in the merged layout, a search for the file name of an entry that the index
/// holds shows the path of that entry.
pub proof fn lemma_merged_search_finds_entry(
    items: Seq<Option<EntryView>>,
    files_only: bool,
    mode: SearchMode,
    at: int,
)
    requires
        0 <= at < items.len(),
        items[at] matches Some(entry) && entry.is_selected(files_only) && entry.file_name is Some
            && occurs_in(entry.file_name->0, entry.path),
        index_lines(items, Layout::Merged, files_only) is Ok,
        forall|i: int|
            0 <= i < index_lines(items, Layout::Merged, files_only)->Ok_0.len() ==> is_plain_line(
                #[trigger] index_lines(items, Layout::Merged, files_only)->Ok_0[i],
            ),
    ensures
        index_text(items, Layout::Merged, files_only) is Ok,
        search_results(
            text_lines(encode_utf8(index_text(items, Layout::Merged, files_only)->Ok_0)),
            Layout::Merged,
            mode,
            items[at]->0.file_name->0,
        ).contains(items[at]->0.path),
{
    let entry = items[at]->0;
    let query = entry.file_name->0;
    let lines = index_lines(items, Layout::Merged, files_only)->Ok_0;
    let source = line_source(Layout::Merged, files_only);
    let test = matcher(Layout::Merged, mode, query);
    lemma_read_back(lines);
    lemma_index_lines(items, Layout::Merged, files_only);
    lemma_filter_map_twice(items, source, test);
    assert(and_then(source, test)(items[at]) == Some(entry.path));
    lemma_filter_map_holds(items, and_then(source, test), at);
}

/// An entry that could not be read changes nothing: the index is the one that the traversal
/// without it gives, and a build that succeeds without it succeeds with it.
pub proof fn lemma_unreadable_entry_adds_nothing(
    before: Seq<Option<EntryView>>,
    after: Seq<Option<EntryView>>,
    layout: Layout,
    files_only: bool,
)
    ensures
        index_lines(before + seq![None] + after, layout, files_only) == index_lines(
            before + after,
            layout,
            files_only,
        ),
    decreases after.len(),
{
    let with = before + seq![None] + after;
    let without = before + after;
    if after.len() == 0 {
        assert(with.drop_last() =~= before);
        assert(without =~= before);
    } else {
        assert(with.drop_last() =~= before + seq![None] + after.drop_last());
        assert(without.drop_last() =~= before + after.drop_last());
        lemma_unreadable_entry_adds_nothing(before, after.drop_last(), layout, files_only);
    }
}

/// How many steps of a traversal reached an entry that the index holds.
pub open spec fn selected_count(items: Seq<Option<EntryView>>, files_only: bool) -> nat
    decreases items.len(),
{
    if items.len() == 0 {
        0
    } else {
        let earlier = selected_count(items.drop_last(), files_only);
        match items.last() {
            Some(entry) => if entry.is_selected(files_only) {
                earlier + 1
            } else {
                earlier
            },
            None => earlier,
        }
    }
}

/// An index that could be built holds one line for each entry that was read and that it is to
/// hold, however many entries could not be read. In the merged layout every build succeeds.
pub proof fn lemma_index_holds_every_entry(
    items: Seq<Option<EntryView>>,
    layout: Layout,
    files_only: bool,
)
    ensures
        layout == Layout::Merged ==> index_lines(items, layout, files_only) is Ok,
        index_lines(items, layout, files_only) matches Ok(lines) ==> lines.len() == selected_count(
            items,
            files_only,
        ),
    decreases items.len(),
{
    if items.len() > 0 {
        lemma_index_holds_every_entry(items.drop_last(), layout, files_only);
    }
}

} // verus!
