//! The state store and its command machinery: the single exclusively owned
//! aggregate of application state, mutated only by executing one command at
//! a time, with every side effect handed back to the caller as a value.

use vstd::prelude::*;
use crate::progress::{rows_data, spec_enc_db, Database, RowModel};
use crate::settings::{spec_enc_settings, FileOpenPreference, Settings};
use crate::text::{base_name, extension_of, spec_base_name, spec_extension, str_eq};

verus! {

/// The open document as this core sees it: its path and the position of
/// its page cursor. The live parsed document stays with the caller, which
/// keeps its cursor at `current_page`.
#[derive(Debug, Clone, PartialEq)]
pub struct OpenDocument {
    pub file: String,
    pub num_pages: usize,
    pub current_page: usize,
}

impl OpenDocument {
    /// A document has at least one page and its cursor is on one of them.
    pub open spec fn wf(self) -> bool {
        0 < self.num_pages && self.current_page < self.num_pages
    }
}

/// A deferred mutation of the state store, executed exactly once by the
/// mailbox consumer, in enqueue order.
#[derive(Debug, Clone, PartialEq)]
pub enum Command {
    /// A request to open the document at `file`, optionally at a given page.
    OpenFile { file: String, initial_page: Option<usize> },
    /// A background load finished: the document at `file` has `num_pages`
    /// pages and the load request carried `initial_page`.
    LoadSucceeded { file: String, num_pages: usize, initial_page: Option<usize> },
    /// A background load failed; the store is left as it was.
    LoadFailed,
    /// A request to show page `num` of the open document.
    GotoPage { num: usize },
    /// A request to show the page after the current one.
    NextPage,
    /// A request to show the page before the current one.
    PreviousPage,
    /// The user confirmed new settings; they replace the old ones wholesale.
    ApplySettings { settings: Settings },
}

/// Work the caller must carry out after a command ran: spawn a background
/// load, hand the progress table's bytes to the persistence worker, or
/// replace the settings file with the given bytes.
#[derive(Debug, Clone, PartialEq)]
pub enum Effect {
    StartLoad { file: String, initial_page: Option<usize> },
    PersistDatabase { bytes: Vec<u8> },
    WriteSettings { bytes: Vec<u8> },
}

/// How many chapters past the saved page a reopened document resumes.
pub open spec fn pref_offset(p: FileOpenPreference) -> int {
    match p {
        FileOpenPreference::CurrentChapter => 0,
        FileOpenPreference::NextChapter => 1,
    }
}

/// The page a freshly loaded document opens at: an explicit request wins,
/// falling back to page 0 when it is out of range; otherwise the saved
/// page moved by the open preference, falling back to the last valid page
/// when that runs past the end; otherwise page 0.
pub open spec fn spec_resolve_initial_page(
    initial_page: Option<usize>,
    saved_page: Option<usize>,
    pref: FileOpenPreference,
    num_pages: usize,
) -> int {
    match initial_page {
        Option::Some(n) => if n < num_pages {
            n as int
        } else {
            0
        },
        Option::None => match saved_page {
            Option::Some(p) => if p + pref_offset(pref) < num_pages {
                p + pref_offset(pref)
            } else {
                num_pages - 1
            },
            Option::None => 0,
        },
    }
}

/// Resolves the page a freshly loaded document opens at; always a valid
/// page of the document.
pub fn resolve_initial_page(
    initial_page: Option<usize>,
    saved_page: Option<usize>,
    pref: FileOpenPreference,
    num_pages: usize,
) -> (r: usize)
    requires
        num_pages >= 1,
    ensures
        r < num_pages,
        r == spec_resolve_initial_page(initial_page, saved_page, pref, num_pages),
{
    match initial_page {
        Option::Some(n) => if n < num_pages {
            n
        } else {
            0
        },
        Option::None => match saved_page {
            Option::Some(p) => {
                let offset = pref.to_usize();
                match p.checked_add(offset) {
                    Option::Some(t) => if t < num_pages {
                        t
                    } else {
                        num_pages - 1
                    },
                    Option::None => num_pages - 1,
                }
            },
            Option::None => 0,
        },
    }
}

/// The page the progress table remembers for `file`, if any.
pub open spec fn spec_saved_page(db: Database, file: Seq<char>) -> Option<usize> {
    let key = spec_base_name(file);
    if db.as_map().dom().contains(key) {
        Option::Some(db.as_map()[key].current_page as usize)
    } else {
        Option::None
    }
}

/// The exclusively owned aggregate of application state: the open document,
/// the settings, and the progress table.
#[derive(Debug, Clone, PartialEq)]
pub struct StateStore {
    pub document: Option<OpenDocument>,
    pub settings: Settings,
    pub db: Database,
}

/// What an open request does: nothing when the same path is already open
/// or when the path does not name a document this reader opens; otherwise
/// it asks the caller to start a background load and changes no state.
pub open spec fn open_request_effect(
    pre: StateStore,
    file: Seq<char>,
    initial_page: Option<usize>,
    r: Option<Effect>,
) -> bool {
    let already = match pre.document {
        Option::Some(d) => d.file@ == file,
        Option::None => false,
    };
    let is_doc = spec_extension(file) == Option::Some("epub"@);
    if already || !is_doc {
        r is None
    } else {
        r matches Option::Some(Effect::StartLoad { file: f, initial_page: ip }) && f@ == file
            && ip == initial_page
    }
}

/// What a finished load does: the loaded document replaces the open one
/// wholesale, its cursor on the resolved initial page; settings and table
/// are untouched.
pub open spec fn load_success_transition(
    pre: StateStore,
    post: StateStore,
    file: Seq<char>,
    num_pages: usize,
    initial_page: Option<usize>,
) -> bool {
    &&& post.settings == pre.settings
    &&& post.db == pre.db
    &&& post.document matches Option::Some(d) && d.file@ == file && d.num_pages == num_pages
        && d.current_page == spec_resolve_initial_page(
        initial_page,
        spec_saved_page(pre.db, file),
        pre.settings.file.file_open_preference,
        num_pages,
    )
}

/// What a page request does: nothing at all — no state change and no
/// persistence — when no document is open, when `num` is the current page,
/// or when `num` is out of range; otherwise the cursor moves to `num`, the
/// table records `num` for the document, and the caller is handed the
/// table's bytes to persist.
pub open spec fn goto_transition(
    pre: StateStore,
    post: StateStore,
    num: usize,
    r: Option<Effect>,
) -> bool {
    match pre.document {
        Option::None => post == pre && r is None,
        Option::Some(d) => if num == d.current_page || num >= d.num_pages {
            post == pre && r is None
        } else {
            &&& post.settings == pre.settings
            &&& post.document matches Option::Some(nd) && nd.file@ == d.file@ && nd.num_pages
                == d.num_pages && nd.current_page == num
            &&& post.db.as_map() == pre.db.as_map().insert(
                spec_base_name(d.file@),
                (RowModel { file: d.file@, current_page: num as nat }),
            )
            &&& r matches Option::Some(Effect::PersistDatabase { bytes }) && bytes@
                == spec_enc_db(rows_data(post.db.rows@))
        },
    }
}

/// What a confirmed settings edit does: the new record replaces the old
/// one wholesale and the caller is handed its bytes to write; the
/// replacement stands even if that write later fails.
pub open spec fn settings_transition(
    pre: StateStore,
    post: StateStore,
    new_settings: Settings,
    r: Option<Effect>,
) -> bool {
    &&& post.document == pre.document
    &&& post.db == pre.db
    &&& post.settings == new_settings
    &&& r matches Option::Some(Effect::WriteSettings { bytes }) && bytes@ == spec_enc_settings(
        new_settings@,
    )
}

/// What one command does to the store, whichever command it is.
pub open spec fn command_transition(
    pre: StateStore,
    post: StateStore,
    cmd: Command,
    r: Option<Effect>,
) -> bool {
    match cmd {
        Command::OpenFile { file, initial_page } => post == pre && open_request_effect(
            pre,
            file@,
            initial_page,
            r,
        ),
        Command::LoadSucceeded { file, num_pages, initial_page } => if num_pages >= 1 {
            load_success_transition(pre, post, file@, num_pages, initial_page) && r is None
        } else {
            post == pre && r is None
        },
        Command::LoadFailed => post == pre && r is None,
        Command::GotoPage { num } => goto_transition(pre, post, num, r),
        Command::NextPage => match pre.document {
            Option::None => post == pre && r is None,
            Option::Some(d) => goto_transition(pre, post, (d.current_page + 1) as usize, r),
        },
        Command::PreviousPage => match pre.document {
            Option::None => post == pre && r is None,
            Option::Some(d) => if d.current_page == 0 {
                post == pre && r is None
            } else {
                goto_transition(pre, post, (d.current_page - 1) as usize, r)
            },
        },
        Command::ApplySettings { settings } => settings_transition(pre, post, settings, r),
    }
}

impl StateStore {
    /// The store invariant: the table is well formed and any open
    /// document's cursor is on a valid page.
    pub open spec fn wf(self) -> bool {
        &&& self.db.wf()
        &&& self.document matches Option::Some(d) ==> d.wf()
    }

    /// Builds the store the mailbox consumer owns, with no document open.
    pub fn new(settings: Settings, db: Database) -> (r: StateStore)
        requires
            db.wf(),
        ensures
            r.wf(),
            r.document is None,
            r.settings == settings,
            r.db == db,
    {
        StateStore { document: Option::None, settings, db }
    }

    /// Asks to open `file`, optionally at a given page. Does nothing when
    /// the very same path is already open, or when the path does not name
    /// a document this reader opens; otherwise the caller must start a
    /// background load. The store itself never changes here: the document
    /// only changes when the load reports back.
    pub fn open_file_from_path(&mut self, file: String, initial_page: Option<usize>) -> (r:
        Option<Effect>)
        ensures
            *final(self) == *old(self),
            open_request_effect(*old(self), file@, initial_page, r),
    {
        match &self.document {
            Option::Some(d) => {
                if str_eq(d.file.as_str(), file.as_str()) {
                    return Option::None;
                }
            },
            Option::None => {},
        }
        match extension_of(file.as_str()) {
            Option::None => Option::None,
            Option::Some(ext) => {
                if str_eq(ext.as_str(), "epub") {
                    Option::Some(Effect::StartLoad { file, initial_page })
                } else {
                    Option::None
                }
            },
        }
    }

    /// Takes delivery of a document a background load produced, replacing
    /// any document open before. The cursor starts on the resolved initial
    /// page: an explicit request wins, else the saved page moved by the
    /// open preference, else page 0, each clamped into range.
    pub fn post_open_epub_book(&mut self, file: String, num_pages: usize, initial_page: Option<
        usize,
    >)
        requires
            old(self).wf(),
            num_pages >= 1,
        ensures
            final(self).wf(),
            load_success_transition(*old(self), *final(self), file@, num_pages, initial_page),
    {
        let saved: Option<usize> = match self.db.get_by_row_file(file.as_str()) {
            Option::Some(row) => Option::Some(row.current_page),
            Option::None => Option::None,
        };
        proof {
            assert(saved == spec_saved_page(self.db, file@));
        }
        let pref = self.settings.file.file_open_preference;
        let page = resolve_initial_page(initial_page, saved, pref, num_pages);
        self.document = Option::Some(OpenDocument { file, num_pages, current_page: page });
    }

    /// Records progress: `file` (with base name `filename`) is open at
    /// `current_page`. Returns the table's bytes for the persistence
    /// worker, so the write never blocks the consumer.
    pub fn update_db(&mut self, file: String, filename: String, current_page: usize) -> (bytes:
        Vec<u8>)
        requires
            old(self).db.wf(),
        ensures
            final(self).db.wf(),
            final(self).document == old(self).document,
            final(self).settings == old(self).settings,
            final(self).db.as_map() == old(self).db.as_map().insert(
                filename@,
                (RowModel { file: file@, current_page: current_page as nat }),
            ),
            bytes@ == spec_enc_db(rows_data(final(self).db.rows@)),
    {
        self.db.upsert(file, filename, current_page);
        self.db.write_database()
    }

    /// Serializes the progress table for the persistence worker.
    pub fn save_to_file(&self) -> (bytes: Vec<u8>)
        ensures
            bytes@ == spec_enc_db(rows_data(self.db.rows@)),
    {
        self.db.write_database()
    }

    /// Shows page `num` of the open document. A request for the page that
    /// is already shown, or for a page past the end, changes nothing and
    /// persists nothing; any other valid request moves the cursor, records
    /// the new page in the table, and hands back the table's bytes to
    /// persist.
    pub fn open_page(&mut self, num: usize) -> (r: Option<Effect>)
        requires
            old(self).wf(),
        ensures
            final(self).wf(),
            goto_transition(*old(self), *final(self), num, r),
    {
        let (file, num_pages) = match &self.document {
            Option::None => {
                return Option::None;
            },
            Option::Some(d) => {
                if num == d.current_page || num >= d.num_pages {
                    return Option::None;
                }
                (d.file.clone(), d.num_pages)
            },
        };
        self.document = Option::Some(
            OpenDocument { file: file.clone(), num_pages, current_page: num },
        );
        let filename = base_name(file.as_str());
        let bytes = self.update_db(file, filename, num);
        Option::Some(Effect::PersistDatabase { bytes })
    }

    /// Shows the page after the current one; at the last page this runs
    /// off the end and changes nothing.
    pub fn next_page(&mut self) -> (r: Option<Effect>)
        requires
            old(self).wf(),
        ensures
            final(self).wf(),
            match old(self).document {
                Option::None => *final(self) == *old(self) && r is None,
                Option::Some(d) => goto_transition(
                    *old(self),
                    *final(self),
                    (d.current_page + 1) as usize,
                    r,
                ),
            },
    {
        let num = match &self.document {
            Option::None => {
                return Option::None;
            },
            Option::Some(d) => d.current_page + 1,
        };
        self.open_page(num)
    }

    /// Shows the page before the current one; at page 0 this changes
    /// nothing, so the page number never runs below 0.
    pub fn previous_page(&mut self) -> (r: Option<Effect>)
        requires
            old(self).wf(),
        ensures
            final(self).wf(),
            match old(self).document {
                Option::None => *final(self) == *old(self) && r is None,
                Option::Some(d) => if d.current_page == 0 {
                    *final(self) == *old(self) && r is None
                } else {
                    goto_transition(*old(self), *final(self), (d.current_page - 1) as usize, r)
                },
            },
    {
        let num = match &self.document {
            Option::None => {
                return Option::None;
            },
            Option::Some(d) => {
                if d.current_page == 0 {
                    return Option::None;
                }
                d.current_page - 1
            },
        };
        self.open_page(num)
    }

    /// Replaces the settings wholesale with what the user confirmed and
    /// hands back their bytes to write. The in-memory replacement stands
    /// even if the caller's write then fails; the next successful write
    /// recovers the file.
    pub fn update_settings(&mut self, new_settings: Settings) -> (r: Option<Effect>)
        ensures
            settings_transition(*old(self), *final(self), new_settings, r),
    {
        let bytes = new_settings.write();
        self.settings = new_settings;
        Option::Some(Effect::WriteSettings { bytes })
    }

    /// Executes one command to completion against the store — the mailbox
    /// consumer's single step — and returns the work it caused, if any.
    pub fn apply(&mut self, cmd: Command) -> (r: Option<Effect>)
        requires
            old(self).wf(),
        ensures
            final(self).wf(),
            command_transition(*old(self), *final(self), cmd, r),
    {
        match cmd {
            Command::OpenFile { file, initial_page } => self.open_file_from_path(
                file,
                initial_page,
            ),
            Command::LoadSucceeded { file, num_pages, initial_page } => {
                if num_pages >= 1 {
                    self.post_open_epub_book(file, num_pages, initial_page);
                }
                Option::None
            },
            Command::LoadFailed => Option::None,
            Command::GotoPage { num } => self.open_page(num),
            Command::NextPage => self.next_page(),
            Command::PreviousPage => self.previous_page(),
            Command::ApplySettings { settings } => self.update_settings(settings),
        }
    }
}

} // verus!
