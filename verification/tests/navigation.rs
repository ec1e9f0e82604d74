//! Page navigation against the state store: goto, next, previous, and the
//! initial-page resolution on load.

use bad_reader::progress::Database;
use bad_reader::settings::{FileOpenPreference, GeneralSettings, FileSettings, Settings};
use bad_reader::store::{resolve_initial_page, Command, Effect, StateStore};

fn settings_with(pref: FileOpenPreference) -> Settings {
    let mut file = FileSettings::new();
    file.file_open_preference = pref;
    Settings { general: GeneralSettings::new(), file, path: "bad-reader.conf".to_owned() }
}

fn store_with_doc(pages: usize, at: usize, pref: FileOpenPreference) -> StateStore {
    let mut store = StateStore::new(settings_with(pref), Database::new(Vec::new()));
    store.apply(Command::LoadSucceeded {
        file: "dir/book.epub".to_owned(),
        num_pages: pages,
        initial_page: Some(at),
    });
    assert_eq!(store.document.as_ref().unwrap().current_page, at);
    store
}

fn current_page(store: &StateStore) -> usize {
    store.document.as_ref().unwrap().current_page
}

#[test]
fn goto_same_page_is_a_no_op_without_persistence() {
    let mut store = store_with_doc(10, 3, FileOpenPreference::NextChapter);
    let before = store.clone();
    let effect = store.open_page(3);
    assert!(effect.is_none());
    assert_eq!(store, before);
}

#[test]
fn goto_out_of_range_is_a_no_op_without_persistence() {
    let mut store = store_with_doc(10, 3, FileOpenPreference::NextChapter);
    let before = store.clone();
    assert!(store.open_page(10).is_none());
    assert!(store.open_page(4000).is_none());
    assert_eq!(store, before);
}

#[test]
fn goto_valid_page_moves_and_persists() {
    let mut store = store_with_doc(10, 3, FileOpenPreference::NextChapter);
    let effect = store.open_page(7);
    assert_eq!(current_page(&store), 7);
    assert_eq!(store.db.rows.len(), 1);
    assert_eq!(store.db.rows[0].filename, "book.epub");
    assert_eq!(store.db.rows[0].file, "dir/book.epub");
    assert_eq!(store.db.rows[0].current_page, 7);
    match effect {
        Some(Effect::PersistDatabase { bytes }) => {
            assert_eq!(bytes, store.db.write_database());
        },
        _ => panic!("a page change must hand back the table to persist"),
    }
}

#[test]
fn previous_at_page_zero_stays_at_zero() {
    let mut store = store_with_doc(10, 0, FileOpenPreference::NextChapter);
    let before = store.clone();
    assert!(store.previous_page().is_none());
    assert_eq!(store, before);
    assert_eq!(current_page(&store), 0);
}

#[test]
fn reader_walkthrough_next_goto_previous() {
    // A document of 10 pages, currently at page 3.
    let mut store = store_with_doc(10, 3, FileOpenPreference::NextChapter);

    // next() moves to page 4 and upserts (book.epub, 4).
    let effect = store.next_page();
    assert_eq!(current_page(&store), 4);
    assert_eq!(store.db.rows.len(), 1);
    assert_eq!(store.db.rows[0].filename, "book.epub");
    assert_eq!(store.db.rows[0].current_page, 4);
    assert!(matches!(effect, Some(Effect::PersistDatabase { .. })));

    // goto(4) again: no-op, no duplicate upsert.
    let rows_before = store.db.rows.clone();
    assert!(store.open_page(4).is_none());
    assert_eq!(store.db.rows, rows_before);
    assert_eq!(current_page(&store), 4);

    // previous() five times from page 0 stays at page 0 throughout.
    let effect = store.open_page(0);
    assert!(effect.is_some());
    for _ in 0..5 {
        assert!(store.previous_page().is_none());
        assert_eq!(current_page(&store), 0);
    }
}

#[test]
fn next_at_the_last_page_is_a_no_op() {
    let mut store = store_with_doc(10, 9, FileOpenPreference::NextChapter);
    let before = store.clone();
    assert!(store.next_page().is_none());
    assert_eq!(store, before);
}

#[test]
fn single_page_document_never_moves() {
    let mut store = store_with_doc(1, 0, FileOpenPreference::NextChapter);
    let before = store.clone();
    assert!(store.next_page().is_none());
    assert!(store.previous_page().is_none());
    assert!(store.open_page(0).is_none());
    assert!(store.open_page(1).is_none());
    assert_eq!(store, before);
}

#[test]
fn navigation_without_a_document_does_nothing() {
    let mut store = StateStore::new(
        settings_with(FileOpenPreference::NextChapter),
        Database::new(Vec::new()),
    );
    let before = store.clone();
    assert!(store.next_page().is_none());
    assert!(store.previous_page().is_none());
    assert!(store.open_page(3).is_none());
    assert_eq!(store, before);
}

#[test]
fn reopening_past_the_end_falls_back_to_last_page() {
    // Open preference "next chapter", saved page 5, document has 6 pages:
    // the computed page 6 is out of range, so the reader resumes at 5.
    let mut db = Database::new(Vec::new());
    db.upsert("old/book.epub".to_owned(), "book.epub".to_owned(), 5);
    let mut store = StateStore::new(settings_with(FileOpenPreference::NextChapter), db);
    store.apply(Command::LoadSucceeded {
        file: "dir/book.epub".to_owned(),
        num_pages: 6,
        initial_page: None,
    });
    assert_eq!(current_page(&store), 5);
}

#[test]
fn reopening_resumes_next_chapter_when_in_range() {
    let mut db = Database::new(Vec::new());
    db.upsert("dir/book.epub".to_owned(), "book.epub".to_owned(), 2);
    let mut store = StateStore::new(settings_with(FileOpenPreference::NextChapter), db);
    store.apply(Command::LoadSucceeded {
        file: "dir/book.epub".to_owned(),
        num_pages: 10,
        initial_page: None,
    });
    assert_eq!(current_page(&store), 3);
}

#[test]
fn reopening_resumes_same_chapter_under_that_preference() {
    let mut db = Database::new(Vec::new());
    db.upsert("dir/book.epub".to_owned(), "book.epub".to_owned(), 2);
    let mut store = StateStore::new(settings_with(FileOpenPreference::CurrentChapter), db);
    store.apply(Command::LoadSucceeded {
        file: "dir/book.epub".to_owned(),
        num_pages: 10,
        initial_page: None,
    });
    assert_eq!(current_page(&store), 2);
}

#[test]
fn explicit_initial_page_wins_and_clamps_to_zero() {
    assert_eq!(resolve_initial_page(Some(4), Some(8), FileOpenPreference::NextChapter, 10), 4);
    assert_eq!(resolve_initial_page(Some(25), Some(8), FileOpenPreference::NextChapter, 10), 0);
    assert_eq!(resolve_initial_page(None, None, FileOpenPreference::NextChapter, 10), 0);
}

#[test]
fn open_request_only_loads_new_epub_paths() {
    let mut store = store_with_doc(10, 3, FileOpenPreference::NextChapter);

    // The very same path: nothing to do.
    assert!(store.open_file_from_path("dir/book.epub".to_owned(), None).is_none());

    // Not a document this reader opens: nothing to do.
    assert!(store.open_file_from_path("dir/notes.txt".to_owned(), None).is_none());
    assert!(store.open_file_from_path("dir/noextension".to_owned(), None).is_none());

    // A different document: the caller must start a background load, and
    // the store itself is unchanged until the load reports back.
    let before = store.clone();
    match store.open_file_from_path("dir/other.epub".to_owned(), Some(2)) {
        Some(Effect::StartLoad { file, initial_page }) => {
            assert_eq!(file, "dir/other.epub");
            assert_eq!(initial_page, Some(2));
        },
        _ => panic!("a new document path must start a load"),
    }
    assert_eq!(store, before);
}

#[test]
fn failed_or_empty_loads_leave_the_store_alone() {
    let mut store = store_with_doc(10, 3, FileOpenPreference::NextChapter);
    let before = store.clone();
    assert!(store.apply(Command::LoadFailed).is_none());
    assert_eq!(store, before);
    assert!(
        store
            .apply(Command::LoadSucceeded {
                file: "dir/empty.epub".to_owned(),
                num_pages: 0,
                initial_page: None,
            })
            .is_none()
    );
    assert_eq!(store, before);
}
