//! The progress table: one row per base name, latest page wins.

use bad_reader::progress::{load_or_create, Database, DatabaseLoad, DatabaseRow};

fn row(file: &str, filename: &str, page: usize) -> DatabaseRow {
    DatabaseRow { file: file.to_owned(), filename: filename.to_owned(), current_page: page }
}

#[test]
fn upsert_keeps_one_row_per_filename() {
    let mut db = Database::new(Vec::new());
    db.upsert("dir/a.epub".to_owned(), "a.epub".to_owned(), 3);
    db.upsert("other/a.epub".to_owned(), "a.epub".to_owned(), 7);
    db.upsert("b/b.epub".to_owned(), "b.epub".to_owned(), 1);
    assert_eq!(db.rows.len(), 2);
    assert_eq!(db.rows[0], row("other/a.epub", "a.epub", 7));
    assert_eq!(db.rows[1], row("b/b.epub", "b.epub", 1));
}

#[test]
fn upsert_replaces_in_place_keeping_position() {
    let mut db = Database::new(vec![
        row("x/a.epub", "a.epub", 1),
        row("x/b.epub", "b.epub", 2),
        row("x/c.epub", "c.epub", 3),
    ]);
    db.upsert("y/b.epub".to_owned(), "b.epub".to_owned(), 9);
    assert_eq!(db.rows.len(), 3);
    assert_eq!(db.rows[0], row("x/a.epub", "a.epub", 1));
    assert_eq!(db.rows[1], row("y/b.epub", "b.epub", 9));
    assert_eq!(db.rows[2], row("x/c.epub", "c.epub", 3));
}

#[test]
fn lookup_matches_by_base_name_not_path() {
    let mut db = Database::new(Vec::new());
    db.upsert("dir/a.epub".to_owned(), "a.epub".to_owned(), 7);
    let found = db.get_by_row_file("somewhere/else/a.epub");
    assert_eq!(found, Some(row("dir/a.epub", "a.epub", 7)));
    assert_eq!(db.get_by_row_file("dir/missing.epub"), None);
}

#[test]
fn lookup_returns_row_iff_upserted() {
    let mut db = Database::new(Vec::new());
    assert_eq!(db.get_by_row_file("a/a.epub"), None);
    db.upsert("a/a.epub".to_owned(), "a.epub".to_owned(), 0);
    assert!(db.get_by_row_file("b/a.epub").is_some());
    assert!(db.get_by_row_file("a/b.epub").is_none());
}

#[test]
fn load_or_create_without_file_creates_empty_and_reloads_empty() {
    let (db, bytes) = match load_or_create(None) {
        DatabaseLoad::Created(db, bytes) => (db, bytes),
        _ => panic!("an absent file must create an empty table"),
    };
    assert!(db.rows.is_empty());
    match load_or_create(Some(&bytes)) {
        DatabaseLoad::Loaded(db2) => assert_eq!(db2.rows.len(), 0),
        _ => panic!("the persisted empty table must reload as the empty table"),
    }
}

#[test]
fn database_round_trips_through_its_bytes() {
    let mut db = Database::new(Vec::new());
    db.upsert("dir/a.epub".to_owned(), "a.epub".to_owned(), 3);
    db.upsert("dir/b.epub".to_owned(), "b.epub".to_owned(), 12);
    let bytes = db.write_database();
    match load_or_create(Some(&bytes)) {
        DatabaseLoad::Loaded(db2) => assert_eq!(db2.rows, db.rows),
        _ => panic!("a written table must reload as itself"),
    }
}

#[test]
fn serializing_is_idempotent() {
    let mut db = Database::new(Vec::new());
    db.upsert("dir/a.epub".to_owned(), "a.epub".to_owned(), 3);
    assert_eq!(db.write_database(), db.write_database());
}

#[test]
fn garbage_bytes_are_corrupt() {
    let bytes = vec![1u8, 2, 3];
    assert!(matches!(load_or_create(Some(&bytes)), DatabaseLoad::Corrupt));
}

#[test]
fn trailing_bytes_are_corrupt() {
    let db = Database::new(vec![row("a/a.epub", "a.epub", 1)]);
    let mut bytes = db.write_database();
    bytes.push(0);
    assert!(matches!(load_or_create(Some(&bytes)), DatabaseLoad::Corrupt));
}

#[test]
fn duplicate_filenames_are_corrupt() {
    // Splice the same encoded row in twice under a count of two.
    let db = Database::new(vec![row("a/a.epub", "a.epub", 1)]);
    let bytes = db.write_database();
    let row_bytes = &bytes[8..];
    let mut forged: Vec<u8> = Vec::new();
    forged.extend_from_slice(&2u64.to_le_bytes());
    forged.extend_from_slice(row_bytes);
    forged.extend_from_slice(row_bytes);
    assert!(matches!(load_or_create(Some(&forged)), DatabaseLoad::Corrupt));
}

#[test]
fn invalid_utf8_in_a_row_is_corrupt() {
    let db = Database::new(vec![row("aa", "aa", 1)]);
    let mut bytes = db.write_database();
    // The first row's path bytes start after the row count and the
    // string's length prefix; 0xFF is never valid UTF-8.
    bytes[16] = 0xFF;
    assert!(matches!(load_or_create(Some(&bytes)), DatabaseLoad::Corrupt));
}
