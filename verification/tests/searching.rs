use pathindex::entry::{Entry, WalkItem};
use pathindex::layout::{Layout, SearchMode};
use pathindex::reader::read_lines;
use pathindex::error::{IndexError, IoStage};
use pathindex::search::{match_line, search_file, search_index, search_lines};
use pathindex::text::{chars_occur, chars_occur_at, contains, to_chars};
use pathindex::writer::render_index;

fn file(parent: &str, name: &str) -> WalkItem {
    WalkItem::Found(Entry {
        path: format!("{}/{}", parent, name),
        parent: Some(parent.to_string()),
        file_name: Some(name.to_string()),
        is_file: true,
    })
}

fn strings(items: &[&str]) -> Vec<String> {
    items.iter().map(|s| s.to_string()).collect()
}

#[test]
fn empty_file_has_no_lines() {
    assert_eq!(read_lines(b""), Vec::<String>::new());
}

#[test]
fn lines_come_in_file_order_without_the_line_end() {
    assert_eq!(read_lines(b"r/b\nr/a\nr/c\n"), strings(&["r/b", "r/a", "r/c"]));
}

#[test]
fn last_line_needs_no_line_end() {
    assert_eq!(read_lines(b"r/a\nr/b"), strings(&["r/a", "r/b"]));
}

#[test]
fn empty_lines_are_lines() {
    assert_eq!(read_lines(b"\n"), strings(&[""]));
    assert_eq!(read_lines(b"a\n\nb\n"), strings(&["a", "", "b"]));
}

#[test]
fn carriage_return_before_the_line_end_is_dropped() {
    assert_eq!(read_lines(b"r/a\r\nr/b\r\n"), strings(&["r/a", "r/b"]));
    assert_eq!(read_lines(b"\r\n"), strings(&[""]));
}

#[test]
fn only_one_carriage_return_before_the_line_end_is_dropped() {
    assert_eq!(read_lines(b"a\r\r\nb\rc\n"), strings(&["a\r", "b\rc"]));
}

#[test]
fn carriage_return_at_the_end_of_the_file_stays() {
    assert_eq!(read_lines(b"r/a\nr/b\r"), strings(&["r/a", "r/b\r"]));
}

#[test]
fn line_that_is_not_text_is_skipped() {
    assert_eq!(read_lines(b"r/a\nr/\xff\xfe\nr/c\n"), strings(&["r/a", "r/c"]));
    assert_eq!(read_lines(b"\xc3\n"), Vec::<String>::new());
    assert_eq!(read_lines(b"ok\n\xed\xa0\x80"), strings(&["ok"]));
}

#[test]
fn lines_beyond_ascii_are_decoded() {
    let content = "été/naïve café.txt\n日本語/ファイル\n".as_bytes();
    assert_eq!(read_lines(content), strings(&["été/naïve café.txt", "日本語/ファイル"]));
}

#[test]
fn substring_test_is_literal_and_case_sensitive() {
    assert!(contains("/srv/data/report.txt", "data"));
    assert!(contains("/srv/data/report.txt", "/srv/data/report.txt"));
    assert!(contains("/srv/data/report.txt", ""));
    assert!(contains("", ""));
    assert!(!contains("/srv/data/report.txt", "Data"));
    assert!(!contains("/srv/data/report.txt", "report.txt "));
    assert!(!contains("", "a"));
    assert!(!contains("ab", "abc"));
    assert!(contains("aab", "ab"));
    assert!(contains("naïve café", "ïve c"));
    assert!(!contains("naïve café", "ive"));
}

#[test]
fn occurrence_at_a_position() {
    let haystack = to_chars("héllo");
    let needle = to_chars("llo");
    assert_eq!(haystack, vec!['h', 'é', 'l', 'l', 'o']);
    assert!(chars_occur_at(&haystack, &needle, 2));
    assert!(!chars_occur_at(&haystack, &needle, 1));
    assert!(!chars_occur_at(&haystack, &needle, 3));
    assert!(!chars_occur_at(&haystack, &needle, 9));
    assert!(chars_occur_at(&haystack, &[], 5));
    assert!(!chars_occur_at(&haystack, &[], 6));
    assert!(chars_occur(&needle, &haystack));
    assert!(!chars_occur(&haystack, &needle));
}

#[test]
fn merged_line_matches_as_a_whole() {
    let hit = Some("/srv/data/report.txt".to_string());
    let line = "/srv/data/report.txt";
    assert_eq!(match_line(line, Layout::Merged, SearchMode::WholeLine, "data/rep"), hit);
    assert_eq!(match_line(line, Layout::Merged, SearchMode::FileNameOnly, "data/rep"), hit);
    assert_eq!(match_line(line, Layout::Merged, SearchMode::WholeLine, "DATA"), None);
}

#[test]
fn merged_line_with_a_delimiter_is_shown_as_it_is() {
    assert_eq!(
        match_line("a\tb", Layout::Merged, SearchMode::WholeLine, "b"),
        Some("a\tb".to_string())
    );
}

#[test]
fn split_line_matches_by_file_name() {
    let line = "/srv/data\treport.txt";
    assert_eq!(
        match_line(line, Layout::Split, SearchMode::FileNameOnly, "report"),
        Some("/srv/data/report.txt".to_string())
    );
    assert_eq!(match_line(line, Layout::Split, SearchMode::FileNameOnly, "data"), None);
    assert_eq!(match_line(line, Layout::Split, SearchMode::FileNameOnly, "\t"), None);
}

#[test]
fn split_line_matches_as_a_whole_with_the_delimiter() {
    let line = "/srv/data\treport.txt";
    let shown = Some("/srv/data/report.txt".to_string());
    assert_eq!(match_line(line, Layout::Split, SearchMode::WholeLine, "data"), shown);
    assert_eq!(match_line(line, Layout::Split, SearchMode::WholeLine, "data\trep"), shown);
    assert_eq!(match_line(line, Layout::Split, SearchMode::WholeLine, "data/rep"), None);
}

#[test]
fn malformed_split_line_never_matches() {
    for mode in [SearchMode::WholeLine, SearchMode::FileNameOnly] {
        assert_eq!(match_line("/srv/data/report.txt", Layout::Split, mode, "report"), None);
        assert_eq!(match_line("a\tb\tc", Layout::Split, mode, "b"), None);
        assert_eq!(match_line("report\t", Layout::Split, mode, "report"), None);
        assert_eq!(match_line("", Layout::Split, mode, ""), None);
    }
}

#[test]
fn empty_query_matches_every_record() {
    let lines = strings(&["a\tb", "broken", "c\td"]);
    assert_eq!(
        search_lines(&lines, Layout::Split, SearchMode::FileNameOnly, ""),
        strings(&["a/b", "c/d"])
    );
    assert_eq!(
        search_lines(&lines, Layout::Merged, SearchMode::WholeLine, ""),
        strings(&["a\tb", "broken", "c\td"])
    );
}

#[test]
fn file_name_search_restricts_matches() {
    let index = b"/a/b\tneedle.txt\n/needle/b\tother.txt\n";
    assert_eq!(
        search_index(index, Layout::Split, SearchMode::FileNameOnly, "needle"),
        strings(&["/a/b/needle.txt"])
    );
    assert_eq!(
        search_index(index, Layout::Split, SearchMode::WholeLine, "needle"),
        strings(&["/a/b/needle.txt", "/needle/b/other.txt"])
    );
}

#[test]
fn matches_keep_index_order_and_repeats() {
    let lines = strings(&["r/z.txt", "r/a.log", "r/a.txt", "r/z.txt", "r/m.txt", "r/a.txt"]);
    assert_eq!(
        search_lines(&lines, Layout::Merged, SearchMode::WholeLine, ".txt"),
        strings(&["r/z.txt", "r/a.txt", "r/z.txt", "r/m.txt", "r/a.txt"])
    );
}

#[test]
fn search_without_a_match_finds_nothing() {
    let lines = strings(&["r/a", "r/b"]);
    assert_eq!(
        search_lines(&lines, Layout::Merged, SearchMode::WholeLine, "c"),
        Vec::<String>::new()
    );
    assert_eq!(
        search_index(b"", Layout::Merged, SearchMode::WholeLine, ""),
        Vec::<String>::new()
    );
}

#[test]
fn search_passes_over_lines_that_are_not_text() {
    let index = b"r/a.txt\nr/\xff.txt\nr/b.txt\n";
    assert_eq!(
        search_index(index, Layout::Merged, SearchMode::WholeLine, ".txt"),
        strings(&["r/a.txt", "r/b.txt"])
    );
}

#[test]
fn merged_build_then_search_by_name_finds_the_file() {
    let items = vec![
        file("root", "alpha.txt"),
        WalkItem::Unreadable,
        file("root/deep/er", "beta.txt"),
        file("root/deep", "gamma.rs"),
    ];
    let index = render_index(&items, Layout::Merged, true).unwrap();
    let files = [("root", "alpha.txt"), ("root/deep/er", "beta.txt"), ("root/deep", "gamma.rs")];
    for (parent, name) in files {
        let found = search_index(index.as_bytes(), Layout::Merged, SearchMode::WholeLine, name);
        assert!(found.contains(&format!("{}/{}", parent, name)));
    }
}

#[test]
fn split_build_then_search_shows_the_paths_in_traversal_order() {
    let items = vec![
        file("root/b", "two.txt"),
        file("root/a", "one.txt"),
        WalkItem::Unreadable,
        file("root/a", "skip.log"),
        file("root/c", "three.txt"),
    ];
    let index = render_index(&items, Layout::Split, true).unwrap();
    assert_eq!(
        read_lines(index.as_bytes()),
        strings(&["root/b\ttwo.txt", "root/a\tone.txt", "root/a\tskip.log", "root/c\tthree.txt"])
    );
    assert_eq!(
        search_index(index.as_bytes(), Layout::Split, SearchMode::FileNameOnly, ".txt"),
        strings(&["root/b/two.txt", "root/a/one.txt", "root/c/three.txt"])
    );
    assert_eq!(
        search_index(index.as_bytes(), Layout::Split, SearchMode::WholeLine, "root/a"),
        strings(&["root/a/one.txt", "root/a/skip.log"])
    );
}

#[test]
fn index_of_an_empty_directory_has_zero_records() {
    let items: Vec<WalkItem> = Vec::new();
    let index = render_index(&items, Layout::Merged, true).unwrap();
    assert_eq!(index.len(), 0);
    assert_eq!(read_lines(index.as_bytes()).len(), 0);
    assert_eq!(
        search_index(index.as_bytes(), Layout::Merged, SearchMode::WholeLine, ""),
        Vec::<String>::new()
    );
}

#[test]
fn index_holds_one_record_for_each_readable_entry() {
    let mut items = Vec::new();
    for i in 0..7 {
        items.push(file("root", &format!("f{}", i)));
        if i == 3 {
            items.push(WalkItem::Unreadable);
        }
    }
    let index = render_index(&items, Layout::Merged, true).unwrap();
    assert_eq!(read_lines(index.as_bytes()).len(), 7);
}

#[test]
fn search_of_a_file_that_cannot_be_read_fails() {
    assert_eq!(
        search_file(None, Layout::Merged, SearchMode::WholeLine, "a"),
        Err(IndexError::Io(IoStage::Open))
    );
    assert_eq!(
        search_file(None, Layout::Split, SearchMode::FileNameOnly, ""),
        Err(IndexError::Io(IoStage::Open))
    );
}

#[test]
fn search_of_a_file_that_was_read_searches_its_lines() {
    let index: &[u8] = b"r\ta.txt\nr\tb.log\n";
    assert_eq!(
        search_file(Some(index), Layout::Split, SearchMode::FileNameOnly, ".txt"),
        Ok(strings(&["r/a.txt"]))
    );
    assert_eq!(
        search_file(Some(b""), Layout::Merged, SearchMode::WholeLine, ""),
        Ok(Vec::<String>::new())
    );
}

#[test]
fn path_that_is_not_plain_is_not_read_back_as_written() {
    let items = vec![file("r", "a\r"), file("r", "b\nc")];
    let index = render_index(&items, Layout::Merged, true).unwrap();
    assert_eq!(index, "r/a\r\nr/b\nc\n");
    assert_eq!(read_lines(index.as_bytes()), strings(&["r/a", "r/b", "c"]));
}

#[test]
fn file_name_with_a_delimiter_makes_a_malformed_record() {
    let items = vec![file("r", "a\tb"), file("r", "c")];
    let index = render_index(&items, Layout::Split, true).unwrap();
    assert_eq!(
        search_index(index.as_bytes(), Layout::Split, SearchMode::FileNameOnly, ""),
        strings(&["r/c"])
    );
}
