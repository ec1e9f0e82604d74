//! The reading-progress table: at most one row per document base name, each
//! row remembering the page that was last open in that document.

use vstd::prelude::*;
use crate::codec::{
    lemma_dec_enc_str, lemma_dec_enc_u64, lemma_dec_str_consumes, read_str, read_u64,
    spec_dec_str, spec_dec_u64, spec_enc_str, spec_enc_u64, str_fits, write_str, write_u64,
};
use crate::text::{base_name, spec_base_name};

verus! {

/// One remembered document: its full path, its base name (the identity key
/// of the table), and the page that was last open.
#[derive(Debug, Clone, PartialEq)]
pub struct DatabaseRow {
    pub file: String,
    pub filename: String,
    pub current_page: usize,
}

/// What a row says about its key: the full path it was last seen under and
/// the most recently recorded page.
pub struct RowModel {
    pub file: Seq<char>,
    pub current_page: nat,
}

/// The mathematical content of one row.
pub open spec fn row_model(r: DatabaseRow) -> RowModel {
    RowModel { file: r.file@, current_page: r.current_page as nat }
}

/// The table a sequence of rows denotes: base name to latest record, where a
/// later row with the same base name supersedes an earlier one.
pub open spec fn row_map(rows: Seq<DatabaseRow>) -> Map<Seq<char>, RowModel>
    decreases rows.len(),
{
    if rows.len() == 0 {
        Map::empty()
    } else {
        row_map(rows.drop_last()).insert(rows.last().filename@, row_model(rows.last()))
    }
}

/// A key is in the table denoted by `rows` exactly when some row carries it.
pub proof fn lemma_row_map_dom(rows: Seq<DatabaseRow>)
    ensures
        forall|f: Seq<char>|
            row_map(rows).dom().contains(f) <==> exists|i: int|
                0 <= i < rows.len() && #[trigger] rows[i].filename@ == f,
    decreases rows.len(),
{
    if rows.len() > 0 {
        lemma_row_map_dom(rows.drop_last());
        assert forall|f: Seq<char>| row_map(rows).dom().contains(f) implies exists|i: int|
            0 <= i < rows.len() && #[trigger] rows[i].filename@ == f by {
            if f == rows.last().filename@ {
                assert(rows[rows.len() - 1].filename@ == f);
            } else {
                assert(row_map(rows.drop_last()).dom().contains(f));
                let i = choose|i: int|
                    0 <= i < rows.drop_last().len() && #[trigger] rows.drop_last()[i].filename@
                        == f;
                assert(rows.drop_last()[i] == rows[i]);
                assert(rows[i].filename@ == f);
            }
        }
        assert forall|f: Seq<char>|
            (exists|i: int| 0 <= i < rows.len() && #[trigger] rows[i].filename@ == f)
            implies row_map(rows).dom().contains(f) by {
            let i = choose|i: int| 0 <= i < rows.len() && #[trigger] rows[i].filename@ == f;
            if i < rows.len() - 1 {
                assert(rows.drop_last()[i] == rows[i]);
                assert(rows.drop_last()[i].filename@ == f);
                assert(row_map(rows.drop_last()).dom().contains(f));
            }
        }
    }
}

/// A row that no later row supersedes is what the table holds for its key.
pub proof fn lemma_row_map_get(rows: Seq<DatabaseRow>, i: int)
    requires
        0 <= i < rows.len(),
        forall|j: int| i < j < rows.len() ==> #[trigger] rows[j].filename@ != rows[i].filename@,
    ensures
        row_map(rows).dom().contains(rows[i].filename@),
        row_map(rows)[rows[i].filename@] == row_model(rows[i]),
    decreases rows.len(),
{
    if i < rows.len() - 1 {
        assert(forall|j: int|
            i < j < rows.drop_last().len() ==> #[trigger] rows.drop_last()[j].filename@
                != rows.drop_last()[i].filename@);
        lemma_row_map_get(rows.drop_last(), i);
        assert(rows[rows.len() - 1].filename@ != rows[i].filename@);
    }
}

/// Replacing a row in place, keeping its key, replaces that key's record in
/// the table and touches nothing else.
pub proof fn lemma_row_map_update(rows: Seq<DatabaseRow>, i: int, r: DatabaseRow)
    requires
        0 <= i < rows.len(),
        r.filename@ == rows[i].filename@,
        forall|j: int| i < j < rows.len() ==> #[trigger] rows[j].filename@ != rows[i].filename@,
    ensures
        row_map(rows.update(i, r)) == row_map(rows).insert(r.filename@, row_model(r)),
    decreases rows.len(),
{
    let upd = rows.update(i, r);
    if i == rows.len() - 1 {
        assert(upd.drop_last() =~= rows.drop_last());
        assert(upd.last() == r);
        assert(row_map(rows.drop_last()).insert(rows.last().filename@, row_model(rows.last()))
            .insert(r.filename@, row_model(r)) =~= row_map(rows.drop_last()).insert(
            r.filename@,
            row_model(r),
        ));
    } else {
        assert(upd.drop_last() =~= rows.drop_last().update(i, r));
        assert(upd.last() == rows.last());
        assert(forall|j: int|
            i < j < rows.drop_last().len() ==> #[trigger] rows.drop_last()[j].filename@
                != rows.drop_last()[i].filename@);
        assert(rows.drop_last()[i] == rows[i]);
        lemma_row_map_update(rows.drop_last(), i, r);
        let k1 = rows.last().filename@;
        assert(k1 != r.filename@);
        assert(row_map(rows.drop_last()).insert(r.filename@, row_model(r)).insert(
            k1,
            row_model(rows.last()),
        ) =~= row_map(rows.drop_last()).insert(k1, row_model(rows.last())).insert(
            r.filename@,
            row_model(r),
        ));
    }
}

/// No two rows share a base name.
pub open spec fn rows_wf(rows: Seq<DatabaseRow>) -> bool {
    forall|i: int, j: int|
        #![trigger rows[i], rows[j]]
        0 <= i < j < rows.len() ==> rows[i].filename@ != rows[j].filename@
}

/// The durable table of reading progress. Rows keep their insertion order;
/// the invariant is that each base name appears in at most one row.
#[derive(Debug, Clone, PartialEq)]
pub struct Database {
    pub rows: Vec<DatabaseRow>,
}

impl Database {
    /// The table invariant: one row per base name.
    pub open spec fn wf(self) -> bool {
        rows_wf(self.rows@)
    }

    /// The table as a map from base name to its record.
    pub open spec fn as_map(self) -> Map<Seq<char>, RowModel> {
        row_map(self.rows@)
    }

    /// Whether some row carries base name `f`.
    pub open spec fn has_filename(self, f: Seq<char>) -> bool {
        exists|i: int| 0 <= i < self.rows@.len() && #[trigger] self.rows@[i].filename@ == f
    }

    /// Wraps an already well-formed set of rows as a table.
    pub fn new(rows: Vec<DatabaseRow>) -> (db: Database)
        requires
            rows_wf(rows@),
        ensures
            db.wf(),
            db.rows@ == rows@,
    {
        Database { rows }
    }

    /// Records that `file` (identified by `filename`, its base name) is open
    /// at `current_page`. An existing row for the same base name is replaced
    /// in place, keeping its position; otherwise a row is appended. In the
    /// table seen as a map, exactly the entry for `filename` is set to the
    /// new record, so the table always holds the most recently recorded page
    /// of each base name, in one row per name.
    pub fn upsert(&mut self, file: String, filename: String, current_page: usize)
        requires
            old(self).wf(),
        ensures
            final(self).wf(),
            final(self).as_map() == old(self).as_map().insert(
                filename@,
                (RowModel { file: file@, current_page: current_page as nat }),
            ),
            old(self).has_filename(filename@) ==> exists|i: int|
                0 <= i < old(self).rows@.len() && #[trigger] old(self).rows@[i].filename@
                    == filename@ && final(self).rows@ == old(self).rows@.update(
                    i,
                    (DatabaseRow { file: file, filename: filename, current_page: current_page }),
                ),
            !old(self).has_filename(filename@) ==> final(self).rows@ == old(self).rows@.push(
                (DatabaseRow { file: file, filename: filename, current_page: current_page }),
            ),
    {
        let n = self.rows.len();
        let mut i: usize = 0;
        while i < n
            invariant
                i <= n,
                n == self.rows@.len(),
                *self == *old(self),
                old(self).wf(),
                forall|j: int| 0 <= j < i ==> #[trigger] self.rows@[j].filename@ != filename@,
            decreases n - i,
        {
            if self.rows[i].filename == filename {
                let row = DatabaseRow { file, filename, current_page };
                let ghost old_rows = self.rows@;
                self.rows.set(i, row);
                proof {
                    assert(old_rows[i as int].filename@ == filename@);
                    lemma_row_map_update(old_rows, i as int, row);
                    assert(rows_wf(self.rows@));
                }
                return ;
            }
            i = i + 1;
        }
        let row = DatabaseRow { file, filename, current_page };
        let ghost old_rows = self.rows@;
        self.rows.push(row);
        proof {
            assert(self.rows@.drop_last() =~= old_rows);
            assert(self.rows@.last() == row);
            assert(rows_wf(self.rows@));
        }
    }

    /// Looks a document up by its full path; the match uses only the base
    /// name, so the same name in two directories shares one record. Returns
    /// a row exactly when some earlier upsert used the same base name, and
    /// that row carries the record the table holds for it.
    pub fn get_by_row_file(&self, file: &str) -> (r: Option<DatabaseRow>)
        requires
            self.wf(),
        ensures
            ({
                let key = spec_base_name(file@);
                match r {
                    Option::Some(row) => self.as_map().dom().contains(key) && row.filename@ == key
                        && self.as_map()[key] == row_model(row),
                    Option::None => !self.as_map().dom().contains(key),
                }
            }),
    {
        let filename = base_name(file);
        proof {
            lemma_row_map_dom(self.rows@);
        }
        let n = self.rows.len();
        let mut i: usize = 0;
        while i < n
            invariant
                i <= n,
                n == self.rows@.len(),
                self.wf(),
                filename@ == spec_base_name(file@),
                forall|j: int| 0 <= j < i ==> #[trigger] self.rows@[j].filename@ != filename@,
                forall|f: Seq<char>|
                    row_map(self.rows@).dom().contains(f) <==> exists|k: int|
                        0 <= k < self.rows@.len() && #[trigger] self.rows@[k].filename@ == f,
            decreases n - i,
        {
            if self.rows[i].filename == filename {
                proof {
                    lemma_row_map_get(self.rows@, i as int);
                }
                let row = DatabaseRow {
                    file: self.rows[i].file.clone(),
                    filename: self.rows[i].filename.clone(),
                    current_page: self.rows[i].current_page,
                };
                return Option::Some(row);
            }
            i = i + 1;
        }
        Option::None
    }
}

/// Everything a row says, with strings seen as character sequences.
pub struct RowData {
    pub file: Seq<char>,
    pub filename: Seq<char>,
    pub current_page: usize,
}

impl View for DatabaseRow {
    type V = RowData;

    open spec fn view(&self) -> RowData {
        RowData { file: self.file@, filename: self.filename@, current_page: self.current_page }
    }
}

/// The rows as pure data.
pub open spec fn rows_data(rows: Seq<DatabaseRow>) -> Seq<RowData> {
    rows.map_values(|r: DatabaseRow| r@)
}

/// A row on the wire: path, base name, then the page number.
pub open spec fn spec_enc_row(r: RowData) -> Seq<u8> {
    spec_enc_str(r.file) + spec_enc_str(r.filename) + spec_enc_u64(r.current_page as u64)
}

/// Rows on the wire, in table order.
pub open spec fn spec_enc_rows(rows: Seq<RowData>) -> Seq<u8>
    decreases rows.len(),
{
    if rows.len() == 0 {
        Seq::empty()
    } else {
        spec_enc_row(rows[0]) + spec_enc_rows(rows.drop_first())
    }
}

/// The whole table on the wire: the row count, then the rows.
pub open spec fn spec_enc_db(rows: Seq<RowData>) -> Seq<u8> {
    spec_enc_u64(rows.len() as u64) + spec_enc_rows(rows)
}

/// Whether a row's strings are short enough for their length prefixes;
/// true of every row held in memory.
pub open spec fn row_fits(r: RowData) -> bool {
    str_fits(r.file) && str_fits(r.filename)
}

/// Whether every row of the table can be put on the wire.
pub open spec fn rows_fit(rows: Seq<RowData>) -> bool {
    forall|i: int| 0 <= i < rows.len() ==> row_fits(#[trigger] rows[i])
}

/// Reads one row from the front of `b`.
pub open spec fn spec_dec_row(b: Seq<u8>) -> Option<(RowData, Seq<u8>)> {
    match spec_dec_str(b) {
        Option::None => Option::None,
        Option::Some((file, b1)) => match spec_dec_str(b1) {
            Option::None => Option::None,
            Option::Some((filename, b2)) => match spec_dec_u64(b2) {
                Option::None => Option::None,
                Option::Some((page, b3)) => if page <= usize::MAX {
                    Option::Some(
                        (RowData { file, filename, current_page: page as usize }, b3),
                    )
                } else {
                    Option::None
                },
            },
        },
    }
}

/// Reads `n` rows from the front of `b`.
pub open spec fn spec_dec_rows(b: Seq<u8>, n: nat) -> Option<(Seq<RowData>, Seq<u8>)>
    decreases n,
{
    if n == 0 {
        Option::Some((Seq::empty(), b))
    } else {
        match spec_dec_row(b) {
            Option::None => Option::None,
            Option::Some((r, rest)) => match spec_dec_rows(rest, (n - 1) as nat) {
                Option::None => Option::None,
                Option::Some((rs, rest2)) => Option::Some((seq![r] + rs, rest2)),
            },
        }
    }
}

/// Reads a whole table: the row count, that many rows, and nothing after.
pub open spec fn spec_dec_db(b: Seq<u8>) -> Option<Seq<RowData>> {
    match spec_dec_u64(b) {
        Option::None => Option::None,
        Option::Some((n, rest)) => match spec_dec_rows(rest, n as nat) {
            Option::None => Option::None,
            Option::Some((rows, rest2)) => if rest2.len() == 0 {
                Option::Some(rows)
            } else {
                Option::None
            },
        },
    }
}

/// Appending a row to the table appends its wire form.
pub proof fn lemma_enc_rows_push(rows: Seq<RowData>, r: RowData)
    ensures
        spec_enc_rows(rows.push(r)) == spec_enc_rows(rows) + spec_enc_row(r),
    decreases rows.len(),
{
    if rows.len() == 0 {
        assert(rows.push(r)[0] == r);
        assert(rows.push(r).drop_first() =~= Seq::<RowData>::empty());
        assert(spec_enc_rows(rows.push(r)) == spec_enc_row(r) + spec_enc_rows(
            Seq::<RowData>::empty(),
        ));
        assert(spec_enc_rows(Seq::<RowData>::empty()) =~= Seq::<u8>::empty());
        assert(spec_enc_rows(rows.push(r)) =~= spec_enc_rows(rows) + spec_enc_row(r));
    } else {
        assert(rows.push(r)[0] == rows[0]);
        assert(rows.push(r).drop_first() =~= rows.drop_first().push(r));
        lemma_enc_rows_push(rows.drop_first(), r);
        assert(spec_enc_row(rows[0]) + (spec_enc_rows(rows.drop_first()) + spec_enc_row(r))
            =~= (spec_enc_row(rows[0]) + spec_enc_rows(rows.drop_first())) + spec_enc_row(r));
    }
}

/// Decoding an encoded row yields it back and consumes exactly its bytes.
pub proof fn lemma_dec_enc_row(r: RowData, rest: Seq<u8>)
    requires
        row_fits(r),
    ensures
        spec_dec_row(spec_enc_row(r) + rest) == Option::Some((r, rest)),
{
    let tail1 = spec_enc_str(r.filename) + (spec_enc_u64(r.current_page as u64) + rest);
    assert(spec_enc_row(r) + rest =~= spec_enc_str(r.file) + tail1);
    lemma_dec_enc_str(r.file, tail1);
    lemma_dec_enc_str(r.filename, spec_enc_u64(r.current_page as u64) + rest);
    lemma_dec_enc_u64(r.current_page as u64, rest);
}

/// Decoding an encoded run of rows yields them back in order.
pub proof fn lemma_dec_enc_rows(rows: Seq<RowData>, rest: Seq<u8>)
    requires
        rows_fit(rows),
    ensures
        spec_dec_rows(spec_enc_rows(rows) + rest, rows.len()) == Option::Some((rows, rest)),
    decreases rows.len(),
{
    if rows.len() == 0 {
        assert(spec_enc_rows(rows) + rest =~= rest);
    } else {
        let tail = spec_enc_rows(rows.drop_first()) + rest;
        assert(spec_enc_rows(rows) + rest =~= spec_enc_row(rows[0]) + tail);
        lemma_dec_enc_row(rows[0], tail);
        assert(rows_fit(rows.drop_first()));
        lemma_dec_enc_rows(rows.drop_first(), rest);
        assert(seq![rows[0]] + rows.drop_first() =~= rows);
    }
}

/// The round trip of the progress store: a table written with
/// `write_database` reads back as exactly the same table. In particular a
/// freshly created empty store reloads as the empty table.
pub proof fn lemma_database_round_trip(rows: Seq<RowData>)
    requires
        rows_fit(rows),
        rows.len() <= u64::MAX,
    ensures
        spec_dec_db(spec_enc_db(rows)) == Option::Some(rows),
{
    assert(spec_enc_db(rows) =~= spec_enc_u64(rows.len() as u64) + (spec_enc_rows(rows)
        + Seq::<u8>::empty()));
    lemma_dec_enc_u64(rows.len() as u64, spec_enc_rows(rows) + Seq::<u8>::empty());
    lemma_dec_enc_rows(rows, Seq::<u8>::empty());
}

/// A run of `n` rows costs at least `n` bytes of input.
pub proof fn lemma_dec_rows_bound(b: Seq<u8>, n: nat)
    ensures
        spec_dec_rows(b, n) matches Option::Some(p) ==> n <= b.len() && p.1.len() <= b.len()
            - n,
    decreases n,
{
    if n > 0 {
        match spec_dec_row(b) {
            Option::None => {},
            Option::Some((r, rest)) => {
                lemma_dec_str_consumes(b);
                match spec_dec_str(b) {
                    Option::None => {},
                    Option::Some((_f, b1)) => {
                        lemma_dec_str_consumes(b1);
                    },
                }
                assert(rest.len() < b.len());
                lemma_dec_rows_bound(rest, (n - 1) as nat);
            },
        }
    }
}

impl Database {
    /// Serializes the table for the persistence worker; the bytes are the
    /// wire form of the whole table.
    pub fn write_database(&self) -> (out: Vec<u8>)
        ensures
            out@ == spec_enc_db(rows_data(self.rows@)),
    {
        let ghost data = rows_data(self.rows@);
        let mut out: Vec<u8> = Vec::new();
        write_u64(&mut out, self.rows.len() as u64);
        let n = self.rows.len();
        let mut i: usize = 0;
        while i < n
            invariant
                i <= n,
                n == self.rows@.len(),
                data == rows_data(self.rows@),
                out@ == spec_enc_u64(n as u64) + spec_enc_rows(data.take(i as int)),
            decreases n - i,
        {
            let ghost before = out@;
            write_str(&mut out, self.rows[i].file.as_str());
            write_str(&mut out, self.rows[i].filename.as_str());
            write_u64(&mut out, self.rows[i].current_page as u64);
            proof {
                assert(out@ =~= before + spec_enc_row(data[i as int]));
                lemma_enc_rows_push(data.take(i as int), data[i as int]);
                assert(data.take(i as int).push(data[i as int]) =~= data.take(i + 1));
                assert(out@ =~= spec_enc_u64(n as u64) + spec_enc_rows(data.take(i + 1)));
            }
            i = i + 1;
        }
        proof {
            assert(data.take(n as int) =~= data);
        }
        out
    }
}

/// Reads one row at `pos`; the outcome agrees with the specification decoder.
fn read_row(b: &[u8], pos: usize) -> (r: Option<(DatabaseRow, usize)>)
    requires
        pos <= b@.len(),
    ensures
        ({
            let t = spec_dec_row(b@.skip(pos as int));
            match r {
                Option::Some(p) => pos <= p.1 <= b@.len() && t == Option::Some((
                    p.0@,
                    b@.skip(p.1 as int),
                )),
                Option::None => t is None,
            }
        }),
{
    match read_str(b, pos) {
        Option::None => Option::None,
        Option::Some((file, p1)) => match read_str(b, p1) {
            Option::None => Option::None,
            Option::Some((filename, p2)) => match read_u64(b, p2) {
                Option::None => Option::None,
                Option::Some((page, p3)) => {
                    if page > usize::MAX as u64 {
                        Option::None
                    } else {
                        let row = DatabaseRow { file, filename, current_page: page as usize };
                        Option::Some((row, p3))
                    }
                },
            },
        },
    }
}

/// How opening the progress store at startup can turn out: the backing file
/// was absent, so an empty table was made and its bytes must be persisted;
/// the file was present and held a well-formed table; or the file could not
/// be understood, which is fatal for this store.
pub enum DatabaseLoad {
    Created(Database, Vec<u8>),
    Loaded(Database),
    Corrupt,
}

/// Whether every base name in `rows` is distinct.
fn rows_unique(rows: &Vec<DatabaseRow>) -> (r: bool)
    ensures
        r == rows_wf(rows@),
{
    let n = rows.len();
    let mut i: usize = 0;
    while i < n
        invariant
            i <= n,
            n == rows@.len(),
            forall|p: int, q: int|
                #![trigger rows@[p], rows@[q]]
                0 <= p < q < rows@.len() && p < i ==> rows@[p].filename@ != rows@[q].filename@,
        decreases n - i,
    {
        let mut j: usize = i + 1;
        while j < n
            invariant
                i < j <= n,
                n == rows@.len(),
                forall|q: int| i < q < j ==> #[trigger] rows@[q].filename@ != rows@[i as int].filename@,
            decreases n - j,
        {
            if rows[j].filename == rows[i].filename {
                return false;
            }
            j = j + 1;
        }
        i = i + 1;
    }
    true
}

/// Opens the progress store from what the backing file held, or from
/// nothing when the file is absent: an absent file yields the empty table
/// together with its wire form, which the caller must persist at once; a
/// present file yields its table when the bytes decode to a well-formed
/// one, and is otherwise reported corrupt, which is fatal for this store.
pub fn load_or_create(stored: Option<&Vec<u8>>) -> (r: DatabaseLoad)
    ensures
        stored is None ==> (r matches DatabaseLoad::Created(db, bytes) && db.wf()
            && db.rows@.len() == 0 && bytes@ == spec_enc_db(Seq::empty())),
        stored matches Option::Some(b) ==> match spec_dec_db(b@) {
            Option::Some(rows) => {
                &&& (r matches DatabaseLoad::Loaded(db) ==> db.wf() && rows_data(db.rows@)
                    == rows)
                &&& (r is Corrupt <==> exists|p: int, q: int|
                    0 <= p < q < rows.len() && #[trigger] rows[p].filename
                        == #[trigger] rows[q].filename)
                &&& (r matches DatabaseLoad::Loaded(db) || r is Corrupt)
            },
            Option::None => r is Corrupt,
        },
{
    match stored {
        Option::None => {
            let db = Database { rows: Vec::new() };
            let bytes = db.write_database();
            proof {
                assert(rows_data(db.rows@) =~= Seq::<RowData>::empty());
            }
            DatabaseLoad::Created(db, bytes)
        },
        Option::Some(b) => {
            let bytes = b.as_slice();
            match read_u64(bytes, 0) {
                Option::None => {
                    proof {
                        assert(bytes@.skip(0) =~= bytes@);
                    }
                    DatabaseLoad::Corrupt
                },
                Option::Some((count, p0)) => {
                    proof {
                        assert(bytes@.skip(0) =~= bytes@);
                        lemma_dec_rows_bound(bytes@.skip(p0 as int), count as nat);
                    }
                    if count > (bytes.len() - p0) as u64 {
                        DatabaseLoad::Corrupt
                    } else {
                        let count_us: usize = count as usize;
                        let mut rows: Vec<DatabaseRow> = Vec::new();
                        let mut pos: usize = p0;
                        let mut i: usize = 0;
                        let ghost tail0 = bytes@.skip(p0 as int);
                        while i < count_us
                            invariant
                                stored == Option::Some(b),
                                bytes@ == b@,
                                spec_dec_u64(b@) == Option::Some((count, tail0)),
                                i <= count_us,
                                count_us == count,
                                pos <= bytes@.len(),
                                rows@.len() == i,
                                ({
                                    let t = spec_dec_rows(
                                        bytes@.skip(pos as int),
                                        (count_us - i) as nat,
                                    );
                                    match t {
                                        Option::None => spec_dec_rows(tail0, count as nat)
                                            is None,
                                        Option::Some(p) => spec_dec_rows(tail0, count as nat)
                                            == Option::Some(
                                            (rows_data(rows@) + p.0, p.1),
                                        ),
                                    }
                                }),
                            decreases count_us - i,
                        {
                            match read_row(bytes, pos) {
                                Option::None => {
                                    return DatabaseLoad::Corrupt;
                                },
                                Option::Some((row, pos2)) => {
                                    proof {
                                        let t_in = spec_dec_rows(
                                            bytes@.skip(pos2 as int),
                                            (count_us - i - 1) as nat,
                                        );
                                        match t_in {
                                            Option::None => {},
                                            Option::Some(p) => {
                                                assert(rows_data(rows@.push(row)) =~= rows_data(
                                                    rows@,
                                                ).push(row@));
                                                assert(rows_data(rows@) + (seq![row@] + p.0)
                                                    =~= rows_data(rows@.push(row)) + p.0);
                                            },
                                        }
                                    }
                                    rows.push(row);
                                    pos = pos2;
                                    i = i + 1;
                                },
                            }
                        }
                        if pos != bytes.len() {
                            return DatabaseLoad::Corrupt;
                        }
                        proof {
                            assert(spec_dec_rows(bytes@.skip(pos as int), 0) == Option::Some(
                                (Seq::<RowData>::empty(), bytes@.skip(pos as int)),
                            ));
                            assert(rows_data(rows@) + Seq::<RowData>::empty() =~= rows_data(
                                rows@,
                            ));
                            assert(bytes@.skip(pos as int).len() == 0);
                        }
                        if rows_unique(&rows) {
                            let db = Database { rows };
                            proof {
                                let decoded = spec_dec_db(b@).unwrap();
                                assert(decoded == rows_data(db.rows@));
                                assert forall|p: int, q: int|
                                    0 <= p < q < decoded.len() implies #[trigger] decoded[p].filename
                                    != #[trigger] decoded[q].filename by {
                                    assert(db.rows@[p].filename@ != db.rows@[q].filename@);
                                }
                            }
                            DatabaseLoad::Loaded(db)
                        } else {
                            proof {
                                let decoded = spec_dec_db(b@).unwrap();
                                let (p, q) = choose|p: int, q: int|
                                    #![trigger rows@[p], rows@[q]]
                                    0 <= p < q < rows@.len() && rows@[p].filename@
                                        == rows@[q].filename@;
                                assert(decoded[p].filename == decoded[q].filename);
                            }
                            DatabaseLoad::Corrupt
                        }
                    }
                },
            }
        },
    }
}

} // verus!
