use pathindex::entry::{walk_options, Entry, WalkItem, WalkOptions};
use pathindex::error::{IndexError, IoStage};
use pathindex::layout::Layout;
use pathindex::writer::{item_line, render_index};

fn file(parent: &str, name: &str) -> WalkItem {
    WalkItem::Found(Entry {
        path: format!("{}/{}", parent, name),
        parent: Some(parent.to_string()),
        file_name: Some(name.to_string()),
        is_file: true,
    })
}

fn directory(parent: &str, name: &str) -> WalkItem {
    WalkItem::Found(Entry {
        path: format!("{}/{}", parent, name),
        parent: Some(parent.to_string()),
        file_name: Some(name.to_string()),
        is_file: false,
    })
}

fn rootless() -> WalkItem {
    WalkItem::Found(Entry { path: "/".to_string(), parent: None, file_name: None, is_file: true })
}

#[test]
fn empty_traversal_gives_an_index_without_records() {
    let items: Vec<WalkItem> = Vec::new();
    assert_eq!(render_index(&items, Layout::Merged, true), Ok(String::new()));
    assert_eq!(render_index(&items, Layout::Split, true), Ok(String::new()));
    assert_eq!(render_index(&items, Layout::Merged, false), Ok(String::new()));
}

#[test]
fn merged_index_holds_one_path_per_line() {
    let items = vec![file("r", "a.txt"), file("r/sub", "b.txt")];
    assert_eq!(
        render_index(&items, Layout::Merged, true),
        Ok("r/a.txt\nr/sub/b.txt\n".to_string())
    );
}

#[test]
fn split_index_holds_directory_and_name_per_line() {
    let items = vec![file("r", "a.txt"), file("r/sub", "b.txt")];
    assert_eq!(
        render_index(&items, Layout::Split, true),
        Ok("r\ta.txt\nr/sub\tb.txt\n".to_string())
    );
}

#[test]
fn index_keeps_traversal_order() {
    let items = vec![file("r", "z"), file("r", "a"), file("r", "m"), file("r", "a")];
    assert_eq!(
        render_index(&items, Layout::Merged, true),
        Ok("r/z\nr/a\nr/m\nr/a\n".to_string())
    );
}

#[test]
fn files_only_index_leaves_directories_out() {
    let items = vec![directory("r", "sub"), file("r/sub", "b.txt"), directory("r", "empty")];
    assert_eq!(render_index(&items, Layout::Merged, true), Ok("r/sub/b.txt\n".to_string()));
}

#[test]
fn full_index_holds_directories_too() {
    let items = vec![directory("r", "sub"), file("r/sub", "b.txt")];
    assert_eq!(
        render_index(&items, Layout::Merged, false),
        Ok("r/sub\nr/sub/b.txt\n".to_string())
    );
}

#[test]
fn unreadable_entry_is_passed_over() {
    let items = vec![file("r", "a"), WalkItem::Unreadable, file("r", "b"), file("r", "c")];
    let index = render_index(&items, Layout::Merged, true).unwrap();
    assert_eq!(index, "r/a\nr/b\nr/c\n");
    assert_eq!(index.lines().count(), 3);
    let readable = vec![file("r", "a"), file("r", "b"), file("r", "c")];
    assert_eq!(render_index(&readable, Layout::Merged, true), Ok(index));
}

#[test]
fn traversal_of_unreadable_entries_gives_an_empty_index() {
    let items = vec![WalkItem::Unreadable, WalkItem::Unreadable];
    assert_eq!(render_index(&items, Layout::Split, true), Ok(String::new()));
}

#[test]
fn entry_without_components_ends_a_split_build() {
    let items = vec![file("r", "a"), rootless(), file("r", "b")];
    assert_eq!(render_index(&items, Layout::Split, true), Err(IndexError::MissingComponent));
    assert_eq!(render_index(&items, Layout::Merged, true), Ok("r/a\n/\nr/b\n".to_string()));
}

#[test]
fn entry_left_out_of_the_index_cannot_end_the_build() {
    let unnamed = WalkItem::Found(Entry {
        path: "/".to_string(),
        parent: None,
        file_name: None,
        is_file: false,
    });
    let items = vec![file("r", "a"), unnamed];
    assert_eq!(render_index(&items, Layout::Split, true), Ok("r\ta\n".to_string()));
    assert_eq!(render_index(&items, Layout::Split, false), Err(IndexError::MissingComponent));
}

#[test]
fn building_twice_gives_the_same_index() {
    let items = vec![file("r", "a"), WalkItem::Unreadable, file("r", "b")];
    let first = render_index(&items, Layout::Split, true);
    let second = render_index(&items, Layout::Split, true);
    assert_eq!(first, second);
    assert_eq!(first, Ok("r\ta\nr\tb\n".to_string()));
}

#[test]
fn item_line_of_each_kind_of_step() {
    assert_eq!(item_line(&file("r", "a"), Layout::Merged, true), Ok(Some("r/a".to_string())));
    assert_eq!(item_line(&file("r", "a"), Layout::Split, true), Ok(Some("r\ta".to_string())));
    assert_eq!(item_line(&directory("r", "d"), Layout::Merged, true), Ok(None));
    assert_eq!(item_line(&directory("r", "d"), Layout::Merged, false), Ok(Some("r/d".to_string())));
    assert_eq!(item_line(&WalkItem::Unreadable, Layout::Split, false), Ok(None));
    assert_eq!(item_line(&rootless(), Layout::Split, true), Err(IndexError::MissingComponent));
}

#[test]
fn walk_item_gives_its_entry_or_partial_traversal() {
    let found = file("r", "a");
    assert_eq!(found.entry().map(|e| e.path.clone()), Ok("r/a".to_string()));
    assert_eq!(WalkItem::Unreadable.entry(), Err(IndexError::PartialTraversal));
}

#[test]
fn walk_leaves_the_root_out_and_stays_on_its_filesystem() {
    assert_eq!(walk_options(), WalkOptions { min_depth: 1, same_file_system: true });
}

#[test]
fn error_messages() {
    assert_eq!(IndexError::PathNotFound.message(), "root directory does not exist");
    assert_eq!(IndexError::Io(IoStage::Remove).message(), "failed to remove index");
    assert_eq!(IndexError::Io(IoStage::Create).message(), "failed to create index");
    assert_eq!(IndexError::Io(IoStage::Write).message(), "failed to write to index");
    assert_eq!(IndexError::Io(IoStage::Open).message(), "failed to open index");
    assert_eq!(
        IndexError::MissingComponent.message(),
        "entry has no parent directory or no file name"
    );
    assert_eq!(IndexError::MalformedRecord.message(), "record does not hold exactly two fields");
    assert_eq!(IndexError::PartialTraversal.message(), "entry could not be read");
}

#[test]
fn only_operation_level_errors_are_fatal() {
    assert!(IndexError::PathNotFound.fatal());
    assert!(IndexError::Io(IoStage::Remove).fatal());
    assert!(IndexError::Io(IoStage::Create).fatal());
    assert!(IndexError::Io(IoStage::Write).fatal());
    assert!(IndexError::Io(IoStage::Open).fatal());
    assert!(IndexError::MissingComponent.fatal());
    assert!(!IndexError::MalformedRecord.fatal());
    assert!(!IndexError::PartialTraversal.fatal());
}
