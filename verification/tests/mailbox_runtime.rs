//! The runtime mailbox: first in, first out, one command to completion at
//! a time.

use bad_reader::mailbox::Mailbox;
use bad_reader::progress::Database;
use bad_reader::settings::{FileSettings, GeneralSettings, Settings};
use bad_reader::store::{Command, StateStore};

fn plain_settings() -> Settings {
    Settings {
        general: GeneralSettings::new(),
        file: FileSettings::new(),
        path: "bad-reader.conf".to_owned(),
    }
}

#[test]
fn dequeue_returns_commands_in_enqueue_order() {
    let mut mb = Mailbox::new();
    assert_eq!(mb.len(), 0);
    assert!(mb.dequeue().is_none());
    mb.enqueue(Command::GotoPage { num: 1 });
    mb.enqueue(Command::NextPage);
    mb.enqueue(Command::PreviousPage);
    assert_eq!(mb.len(), 3);
    assert_eq!(mb.dequeue(), Some(Command::GotoPage { num: 1 }));
    assert_eq!(mb.dequeue(), Some(Command::NextPage));
    assert_eq!(mb.dequeue(), Some(Command::PreviousPage));
    assert!(mb.dequeue().is_none());
}

#[test]
fn consumer_finishes_one_command_before_the_next() {
    // Two producers enqueued A then B; the consumer executes A fully
    // before starting B. Observable through two upserts to the same
    // filename with different pages: after the first step the table holds
    // A's page, after the second it holds B's, which executed last.
    let mut store = StateStore::new(plain_settings(), Database::new(Vec::new()));
    store.apply(Command::LoadSucceeded {
        file: "dir/book.epub".to_owned(),
        num_pages: 10,
        initial_page: Some(0),
    });

    let mut mb = Mailbox::new();
    mb.enqueue(Command::GotoPage { num: 1 });
    mb.enqueue(Command::GotoPage { num: 2 });

    let first = mb.run_one(&mut store);
    assert!(first.is_some());
    assert_eq!(store.document.as_ref().unwrap().current_page, 1);
    assert_eq!(store.db.rows[0].current_page, 1);

    let second = mb.run_one(&mut store);
    assert!(second.is_some());
    assert_eq!(store.document.as_ref().unwrap().current_page, 2);
    assert_eq!(store.db.rows.len(), 1);
    assert_eq!(store.db.rows[0].current_page, 2);

    // The mailbox is drained; a further step does nothing.
    assert_eq!(mb.len(), 0);
    assert!(mb.run_one(&mut store).is_none());
    assert_eq!(store.db.rows[0].current_page, 2);
}
