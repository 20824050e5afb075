//! The translation history, kept in an SQLite table: each entry has an id given
//! when it is added, the texts, the languages, the service and the time.

use vstd::prelude::*;
use crate::error::AppError;
use crate::plugin::{join_path, joined_path};

verus! {

/// An entry of the history.
pub struct HistoryEntry {
    pub id: i64,
    pub source: String,
    pub target: String,
    pub from_lang: String,
    pub to_lang: String,
    pub service: String,
    pub timestamp: i64,
}

/// The content of an entry: texts, languages, service and time.
pub type RowView = (Seq<char>, Seq<char>, Seq<char>, Seq<char>, Seq<char>, i64);

pub open spec fn entry_row(e: HistoryEntry) -> RowView {
    (e.source@, e.target@, e.from_lang@, e.to_lang@, e.service@, e.timestamp)
}

#[verifier::external_type_specification]
#[verifier::external_body]
pub struct ExConnection(rusqlite::Connection);

#[verifier::external_type_specification]
#[verifier::external_body]
pub struct ExSqlError(rusqlite::Error);

/// The number of entries of a page: at most `limit` of the `n` rows after
/// skipping `offset` of them.
pub open spec fn page_len(n: int, offset: int, limit: int) -> int {
    if n > offset {
        if n - offset < limit {
            n - offset
        } else {
            limit
        }
    } else {
        0
    }
}

/// Whether `order` lists the rows, each once with its id, newest first (rows of
/// equal time in any order).
pub open spec fn newest_first(rows: Map<i64, RowView>, order: Seq<(i64, RowView)>) -> bool {
    &&& order.len() == rows.len()
    &&& forall|i: int| 0 <= i < order.len() ==> rows.contains_key(#[trigger] order[i].0) && rows[order[i].0] == order[i].1
    &&& forall|i: int, j: int|
        0 <= i < j < order.len() ==> #[trigger] order[i].0 != #[trigger] order[j].0 && order[i].1.5 >= order[j].1.5
}

/// Whether `v` is a page of `rows`: in a listing of the rows newest first (SQLite
/// picks the order of rows of equal time), the run of at most `limit` rows after
/// the first `offset`.
pub open spec fn is_page(rows: Map<i64, RowView>, offset: int, limit: int, v: Seq<HistoryEntry>) -> bool {
    exists|order: Seq<(i64, RowView)>|
        {
            &&& #[trigger] newest_first(rows, order)
            &&& v.len() == page_len(rows.len() as int, offset, limit)
            &&& forall|i: int| 0 <= i < v.len() ==> (#[trigger] v[i].id, entry_row(v[i])) == order[offset + i]
        }
}

/// No rows.
pub open spec fn no_rows() -> Map<i64, RowView> {
    Map::empty()
}

/// The rows of the `history` table of a database, by id (none when there is no
/// such table).
pub uninterp spec fn history_rows(c: rusqlite::Connection) -> Map<i64, RowView>;

/// The file a connection has its database in (none for a database in memory).
pub uninterp spec fn opened_file(c: rusqlite::Connection) -> Option<Seq<char>>;

/// The id SQLite gave the row last inserted through a connection.
pub uninterp spec fn last_rowid(c: rusqlite::Connection) -> i64;

/// The statement text that `sqlite_master` keeps for the `history` table of a
/// database, its name in any letter case (none when there is no such table).
pub uninterp spec fn history_schema(c: rusqlite::Connection) -> Option<Seq<char>>;

/// The number of triggers on the `history` table of a database.
pub uninterp spec fn history_triggers(c: rusqlite::Connection) -> nat;

/// The number of rows of the `history` table of a database whose values do not
/// have the column's type (text for the texts, integer for the time).
pub uninterp spec fn history_mistyped(c: rusqlite::Connection) -> nat;

/// The definition of the `history` table, after its name.
pub const HISTORY_TABLE: &'static str = "history (\n                id INTEGER PRIMARY KEY AUTOINCREMENT,\n                source TEXT NOT NULL,\n                target TEXT NOT NULL,\n                from_lang TEXT NOT NULL,\n                to_lang TEXT NOT NULL,\n                service TEXT NOT NULL,\n                timestamp INTEGER NOT NULL\n            )";

/// The query for the statement text kept for the `history` table.
pub const TABLE_SQL_QUERY: &'static str = "SELECT sql FROM sqlite_master WHERE type = 'table' AND name = 'history' COLLATE NOCASE";

/// The query for the number of triggers on the `history` table.
pub const TRIGGER_COUNT_QUERY: &'static str = "SELECT COUNT(*) FROM sqlite_master WHERE type = 'trigger' AND tbl_name = 'history' COLLATE NOCASE";

/// The query for the number of rows whose values are not of their column's type.
pub const MISTYPED_COUNT_QUERY: &'static str = "SELECT COUNT(*) FROM history WHERE typeof(source) != 'text' OR typeof(target) != 'text' OR typeof(from_lang) != 'text' OR typeof(to_lang) != 'text' OR typeof(service) != 'text' OR typeof(timestamp) != 'integer'";

/// The statement that adds an entry.
pub const INSERT_STATEMENT: &'static str = "INSERT INTO history (source, target, from_lang, to_lang, service, timestamp) VALUES (?1, ?2, ?3, ?4, ?5, ?6)";

/// The statement that removes the entry with an id.
pub const DELETE_STATEMENT: &'static str = "DELETE FROM history WHERE id = ?1";

/// The statement that removes every entry.
pub const CLEAR_STATEMENT: &'static str = "DELETE FROM history";

/// The query for the number of entries.
pub const COUNT_QUERY: &'static str = "SELECT COUNT(*) FROM history";

/// The query for a page of entries: newest first, at most `?1` after skipping `?2`.
pub const PAGE_QUERY: &'static str = "SELECT id, source, target, from_lang, to_lang, service, timestamp FROM history ORDER BY timestamp DESC LIMIT ?1 OFFSET ?2";

/// The statement that creates the `history` table when it is missing.
pub open spec fn create_statement() -> Seq<char> {
    "CREATE TABLE IF NOT EXISTS "@ + HISTORY_TABLE@
}

/// The text `sqlite_master` keeps for the table that statement creates: SQLite
/// keeps `CREATE TABLE` and the statement from the table's name on.
pub open spec fn library_table_sql() -> Seq<char> {
    "CREATE TABLE "@ + HISTORY_TABLE@
}

/// White space between the words of an SQL statement.
pub open spec fn is_sql_space(c: char) -> bool {
    c == ' ' || c == '\n' || c == '\t' || c == '\r'
}

/// The marks that separate the parts of a column list.
pub open spec fn is_sql_mark(c: char) -> bool {
    c == '(' || c == ')' || c == ','
}

/// An SQL text read word by word, and whether white space follows the last
/// character kept: ASCII letters in uppercase (SQLite reads keywords, names and
/// types without regard to case), each run of white space between two words as
/// one space, and no space at either end or beside `(`, `)` or `,`.
pub open spec fn sql_words(s: Seq<char>) -> (Seq<char>, bool)
    decreases s.len(),
{
    if s.len() == 0 {
        (Seq::empty(), false)
    } else {
        let (out, pending) = sql_words(s.drop_last());
        let c = s.last();
        if is_sql_space(c) {
            (out, true)
        } else if is_sql_mark(c) {
            (out.push(c), false)
        } else if pending && out.len() > 0 && !is_sql_mark(out.last()) {
            (out.push(' ').push(crate::text::ascii_upper(c)), false)
        } else {
            (out.push(crate::text::ascii_upper(c)), false)
        }
    }
}

/// The words of an SQL text, as [`sql_words`] reads them.
pub open spec fn sql_normal(s: Seq<char>) -> Seq<char> {
    sql_words(s).0
}

/// Whether the `history` table of a database is the library's own: defined by a
/// statement with the words of the library's (any letter case, any white space),
/// with no trigger, and every value of the column's type. On such a table the
/// statements of the library do what their contracts say.
pub open spec fn library_schema(c: rusqlite::Connection) -> bool {
    &&& history_schema(c) matches Some(t) && sql_normal(t) == sql_normal(library_table_sql())
    &&& history_triggers(c) == 0
    &&& history_mistyped(c) == 0
}

/// The words of an SQL text.
pub fn normal_sql(s: &str) -> (r: String)
    ensures
        r@ == sql_normal(s@),
{
    let cs = crate::text::chars_of(s);
    let mut out = String::new();
    let mut pending = false;
    let mut i: usize = 0;
    proof {
        assert(cs@.take(0) =~= Seq::<char>::empty());
    }
    while i < cs.len()
        invariant
            cs@ == s@,
            i <= cs@.len(),
            (out@, pending) == sql_words(cs@.take(i as int)),
        decreases cs@.len() - i,
    {
        let c = cs[i];
        proof {
            assert(cs@.take(i + 1).drop_last() =~= cs@.take(i as int));
            assert(cs@.take(i + 1).last() == c);
        }
        if c == ' ' || c == '\n' || c == '\t' || c == '\r' {
            pending = true;
        } else if c == '(' || c == ')' || c == ',' {
            crate::text::push_char(&mut out, c);
            pending = false;
        } else {
            let n = out.unicode_len();
            let after_mark = n > 0 && {
                let last = out.get_char(n - 1);
                last == '(' || last == ')' || last == ','
            };
            if pending && n > 0 && !after_mark {
                crate::text::push_char(&mut out, ' ');
            }
            crate::text::push_char(&mut out, crate::text::char_ascii_upper(c));
            pending = false;
        }
        i = i + 1;
    }
    assert(cs@.take(cs@.len() as int) =~= cs@);
    out
}

fn create_statement_text() -> (r: String)
    ensures
        r@ == create_statement(),
{
    let mut r = "CREATE TABLE IF NOT EXISTS ".to_string();
    r.append(HISTORY_TABLE);
    proof {
        reveal_strlit("CREATE TABLE IF NOT EXISTS ");
    }
    r
}

fn library_table_sql_text() -> (r: String)
    ensures
        r@ == library_table_sql(),
{
    let mut r = "CREATE TABLE ".to_string();
    r.append(HISTORY_TABLE);
    proof {
        reveal_strlit("CREATE TABLE ");
    }
    r
}

/// `rusqlite::Connection::open_in_memory`: a new database, in memory, with no
/// table.
#[verifier::external_body]
fn db_open_in_memory() -> (r: Result<rusqlite::Connection, rusqlite::Error>)
    ensures
        match r {
            Ok(c) => history_rows(c) == no_rows() && opened_file(c) is None,
            Err(_) => true,
        },
{
    rusqlite::Connection::open_in_memory()
}

/// `rusqlite::Connection::open` of a database file (created when missing): the
/// connection has its database in that file; nothing is known of what the file
/// holds.
#[verifier::external_body]
fn db_open(path: &str) -> (r: Result<rusqlite::Connection, rusqlite::Error>)
    ensures
        r matches Ok(c) ==> opened_file(c) == Some(path@),
{
    rusqlite::Connection::open(path)
}

/// `execute_batch` of the statement that creates the `history` table when no table
/// or view of that name exists. Whatever it does, it changes no row of an existing
/// `history` table (a new table is empty), and a table that is the library's stays
/// so. What table there is afterwards is read from `sqlite_master`, not told here.
#[verifier::external_body]
fn db_create_table(c: &mut rusqlite::Connection, sql: &str) -> (r: Result<(), rusqlite::Error>)
    requires
        sql@ == create_statement(),
    ensures
        history_rows(*final(c)) == history_rows(*old(c)),
        library_schema(*old(c)) ==> library_schema(*final(c)),
        opened_file(*final(c)) == opened_file(*old(c)),
{
    c.execute_batch(sql)
}

/// `query_row` of the `sql` that `sqlite_master` keeps for the `history` table,
/// its name in any letter case as SQLite reads table names (`optional`: none when
/// there is no such table).
#[verifier::external_body]
fn db_table_sql(c: &rusqlite::Connection, sql: &str) -> (r: Result<Option<String>, rusqlite::Error>)
    requires
        sql@ == TABLE_SQL_QUERY@,
    ensures
        r matches Ok(s) ==> match s {
            Some(t) => history_schema(*c) == Some(t@),
            None => history_schema(*c) is None,
        },
{
    rusqlite::OptionalExtension::optional(c.query_row(sql, (), |row| row.get(0)))
}

/// `query_row` of the number of triggers on the `history` table, read as a `u32`.
#[verifier::external_body]
fn db_trigger_count(c: &rusqlite::Connection, sql: &str) -> (r: Result<u32, rusqlite::Error>)
    requires
        sql@ == TRIGGER_COUNT_QUERY@,
    ensures
        r matches Ok(n) ==> n == history_triggers(*c),
{
    c.query_row(sql, (), |row| row.get(0))
}

/// `query_row` of the number of rows of the `history` table whose values do not
/// have the column's type, read as a `u32`.
#[verifier::external_body]
fn db_mistyped_count(c: &rusqlite::Connection, sql: &str) -> (r: Result<u32, rusqlite::Error>)
    requires
        sql@ == MISTYPED_COUNT_QUERY@,
    ensures
        r matches Ok(n) ==> n == history_mistyped(*c),
{
    c.query_row(sql, (), |row| row.get(0))
}

/// `execute` of an `INSERT` into the table. On the library's table, on success the
/// row is added under a new id (AUTOINCREMENT gives an id above every id in the
/// table), which is the connection's last inserted row id; the table stays the
/// library's (the values bound are texts and an integer). A failure comes back as
/// an error, not a panic, and (the statement being undone) leaves the rows as they
/// were.
#[verifier::external_body]
fn db_insert(
    c: &mut rusqlite::Connection,
    sql: &str,
    source: &str,
    target: &str,
    from_lang: &str,
    to_lang: &str,
    service: &str,
    timestamp: i64,
) -> (r: Result<usize, rusqlite::Error>)
    requires
        sql@ == INSERT_STATEMENT@,
    ensures
        library_schema(*old(c)) ==> library_schema(*final(c)),
        (library_schema(*old(c)) && r is Ok) ==> ({
            let id = last_rowid(*final(c));
            &&& !history_rows(*old(c)).contains_key(id)
            &&& forall|k: i64| history_rows(*old(c)).contains_key(k) ==> k < id
            &&& history_rows(*final(c)) == history_rows(*old(c)).insert(
                id,
                (source@, target@, from_lang@, to_lang@, service@, timestamp),
            )
        }),
        opened_file(*final(c)) == opened_file(*old(c)),
        (library_schema(*old(c)) && r is Err) ==> history_rows(*final(c)) == history_rows(*old(c)),
    no_unwind
{
    c.execute(sql, (source, target, from_lang, to_lang, service, timestamp))
}

/// `last_insert_rowid`.
#[verifier::external_body]
fn db_last_insert_rowid(c: &rusqlite::Connection) -> (r: i64)
    ensures
        r == last_rowid(*c),
{
    c.last_insert_rowid()
}

/// `execute` of a `DELETE` of the row with an id; on the library's table it removes
/// just that row, and the table stays the library's. A failure comes back as an
/// error, not a panic, and leaves the rows as they were.
#[verifier::external_body]
fn db_delete(c: &mut rusqlite::Connection, sql: &str, id: i64) -> (r: Result<usize, rusqlite::Error>)
    requires
        sql@ == DELETE_STATEMENT@,
    ensures
        library_schema(*old(c)) ==> library_schema(*final(c)),
        (library_schema(*old(c)) && r is Ok) ==> history_rows(*final(c)) == history_rows(*old(c)).remove(id),
        opened_file(*final(c)) == opened_file(*old(c)),
        (library_schema(*old(c)) && r is Err) ==> history_rows(*final(c)) == history_rows(*old(c)),
    no_unwind
{
    c.execute(sql, (id,))
}

/// `execute` of a `DELETE` of every row; on the library's table it leaves none, and
/// the table stays the library's. A failure comes back as an error, not a panic,
/// and leaves the rows as they were.
#[verifier::external_body]
fn db_clear(c: &mut rusqlite::Connection, sql: &str) -> (r: Result<usize, rusqlite::Error>)
    requires
        sql@ == CLEAR_STATEMENT@,
    ensures
        library_schema(*old(c)) ==> library_schema(*final(c)),
        (library_schema(*old(c)) && r is Ok) ==> history_rows(*final(c)) == no_rows(),
        opened_file(*final(c)) == opened_file(*old(c)),
        (library_schema(*old(c)) && r is Err) ==> history_rows(*final(c)) == history_rows(*old(c)),
    no_unwind
{
    c.execute(sql, ())
}

/// `query_row` of the row count, read as a `u32`; on the library's table it is the
/// number of rows.
#[verifier::external_body]
fn db_count(c: &rusqlite::Connection, sql: &str) -> (r: Result<u32, rusqlite::Error>)
    requires
        sql@ == COUNT_QUERY@,
    ensures
        (library_schema(*c) && r is Ok) ==> history_rows(*c).dom().finite() && r->Ok_0 == history_rows(*c).len(),
{
    c.query_row(sql, (), |row| row.get(0))
}

/// A page of the rows (`prepare`, `query_map` and `collect`) by decreasing time:
/// on the library's table, the run of at most `limit` rows after the first
/// `offset` in a listing newest first (rows of equal time in an order SQLite picks).
#[verifier::external_body]
fn db_page(c: &rusqlite::Connection, sql: &str, limit: u32, offset: u32) -> (r: Result<Vec<HistoryEntry>, rusqlite::Error>)
    requires
        sql@ == PAGE_QUERY@,
    ensures
        (library_schema(*c) && r is Ok) ==> history_rows(*c).dom().finite() && is_page(
            history_rows(*c),
            offset as int,
            limit as int,
            r->Ok_0@,
        ),
{
    let mut stmt = c.prepare(
        sql,
    )?;
    let rows = stmt.query_map((limit, offset), |row| Ok(HistoryEntry { id: row.get(0)?, source: row.get(1)?,
        target: row.get(2)?, from_lang: row.get(3)?, to_lang: row.get(4)?, service: row.get(5)?,
        timestamp: row.get(6)? }))?;
    rows.collect()
}

/// The error of the library for a database error, with its message.
#[verifier::external_body]
fn db_error(e: rusqlite::Error) -> (r: AppError)
    ensures
        r is Custom,
{
    AppError::Custom(e.to_string())
}

/// The translation history.
pub struct HistoryStore {
    conn: rusqlite::Connection,
}

/// The history database's path under the user's configuration directory.
pub open spec fn history_db_path(config_dir: Seq<char>) -> Seq<char> {
    joined_path(joined_path(config_dir, crate::config::APP_ID@), "history.db"@)
}

pub fn history_db_file(config_dir: &str) -> (r: String)
    ensures
        r@ == history_db_path(config_dir@),
{
    let d = join_path(config_dir, crate::config::APP_ID);
    join_path(d.as_str(), "history.db")
}

impl HistoryStore {
    /// The store's table is the library's own.
    #[verifier::type_invariant]
    closed spec fn own_table(&self) -> bool {
        library_schema(self.conn)
    }

    /// The entries, by id.
    pub closed spec fn rows(&self) -> Map<i64, RowView> {
        history_rows(self.conn)
    }

    /// The file the history is kept in (none for a history in memory).
    pub closed spec fn file(&self) -> Option<Seq<char>> {
        opened_file(self.conn)
    }

    /// Whether the history's table is the library's own: its definition, with no
    /// trigger, and every value of its column's type (which a store always has).
    pub closed spec fn own_schema(&self) -> bool {
        library_schema(self.conn)
    }

    /// Whether the `history` table of an open database is the library's own: its
    /// definition, no trigger, every value of its column's type.
    fn check_table(conn: &rusqlite::Connection) -> (r: Result<bool, AppError>)
        ensures
            r matches Ok(b) ==> b == library_schema(*conn),
            r matches Err(e) ==> e is Custom,
    {
        let sql = match db_table_sql(conn, TABLE_SQL_QUERY) {
            Ok(s) => s,
            Err(e) => return Err(db_error(e)),
        };
        let triggers = match db_trigger_count(conn, TRIGGER_COUNT_QUERY) {
            Ok(n) => n,
            Err(e) => return Err(db_error(e)),
        };
        let mistyped = match db_mistyped_count(conn, MISTYPED_COUNT_QUERY) {
            Ok(n) => n,
            Err(e) => return Err(db_error(e)),
        };
        let expected = library_table_sql_text();
        let expected_words = normal_sql(expected.as_str());
        let same = match &sql {
            Some(t) => {
                let words = normal_sql(t.as_str());
                crate::text::str_eq(words.as_str(), expected_words.as_str())
            },
            None => false,
        };
        Ok(same && triggers == 0 && mistyped == 0)
    }

    /// Opens the history database file (its directory must exist), creating the
    /// table when it is missing. An existing table is taken when its definition has
    /// the words of the library's (any letter case, any white space); a file whose
    /// `history` table is defined otherwise, has a trigger or a value of another
    /// type, or whose `history` is a view, is refused.
    pub fn open_at(path: &str) -> (r: Result<Self, AppError>)
        ensures
            r matches Ok(s) ==> s.file() == Some(path@) && s.own_schema(),
            r matches Err(e) ==> e is Custom,
    {
        let mut conn = match db_open(path) {
            Ok(c) => c,
            Err(e) => return Err(db_error(e)),
        };
        let stmt = create_statement_text();
        match db_create_table(&mut conn, stmt.as_str()) {
            Ok(()) => {},
            Err(e) => return Err(db_error(e)),
        }
        match Self::check_table(&conn) {
            Ok(true) => Ok(HistoryStore { conn }),
            Ok(false) => Err(AppError::Custom("the history table has an unexpected definition".to_string())),
            Err(e) => Err(e),
        }
    }

    /// An empty history in memory.
    pub fn open_in_memory() -> (r: Result<Self, AppError>)
        ensures
            r matches Ok(s) ==> s.rows() == Map::<i64, RowView>::empty() && s.file() is None && s.own_schema(),
            r matches Err(e) ==> e is Custom,
    {
        let mut conn = match db_open_in_memory() {
            Ok(c) => c,
            Err(e) => return Err(db_error(e)),
        };
        let stmt = create_statement_text();
        match db_create_table(&mut conn, stmt.as_str()) {
            Ok(()) => {},
            Err(e) => return Err(db_error(e)),
        }
        match Self::check_table(&conn) {
            Ok(true) => Ok(HistoryStore { conn }),
            Ok(false) => Err(AppError::Custom("the history table has an unexpected definition".to_string())),
            Err(e) => Err(e),
        }
    }

    /// Adds an entry; its new id (above every id in the history) is returned.
    pub fn insert(
        &mut self,
        source: &str,
        target: &str,
        from_lang: &str,
        to_lang: &str,
        service: &str,
        timestamp: i64,
    ) -> (r: Result<i64, AppError>)
        ensures
            r matches Ok(id) ==> {
                &&& !old(self).rows().contains_key(id)
                &&& forall|k: i64| old(self).rows().contains_key(k) ==> k < id
                &&& final(self).rows() == old(self).rows().insert(
                    id,
                    (source@, target@, from_lang@, to_lang@, service@, timestamp),
                )
            },
            r is Err ==> final(self).rows() == old(self).rows(),
            final(self).file() == old(self).file(),
            r matches Err(e) ==> e is Custom,
    {
        proof {
            use_type_invariant(&*self);
        }
        match db_insert(&mut self.conn, INSERT_STATEMENT, source, target, from_lang, to_lang, service, timestamp) {
            Ok(_) => Ok(db_last_insert_rowid(&self.conn)),
            Err(e) => Err(db_error(e)),
        }
    }

    /// The page `page` (from 1; 0 reads as 1) of `per_page` entries: in a listing
    /// of the entries newest first, the run of at most `per_page` after the first
    /// `(page - 1) * per_page`.
    pub fn list(&self, page: u32, per_page: u32) -> (r: Result<Vec<HistoryEntry>, AppError>)
        requires
            (if page > 0 {
                page - 1
            } else {
                0
            }) * per_page <= u32::MAX,
        ensures
            match r {
                Ok(v) => is_page(
                    self.rows(),
                    (if page > 0 {
                        page - 1
                    } else {
                        0
                    }) * per_page,
                    per_page as int,
                    v@,
                ),
                Err(e) => e is Custom,
            },
    {
        proof {
            use_type_invariant(self);
        }
        let skip: u32 = if page > 0 {
            page - 1
        } else {
            0
        };
        let offset = skip * per_page;
        assert(offset as int == (if page > 0 {
            page - 1
        } else {
            0
        }) * per_page) by (nonlinear_arith)
            requires
                skip as int == (if page > 0 {
                    page - 1
                } else {
                    0
                }),
                offset == skip * per_page,
        ;
        match db_page(&self.conn, PAGE_QUERY, per_page, offset) {
            Ok(v) => Ok(v),
            Err(e) => Err(db_error(e)),
        }
    }

    /// Removes the entry with an id.
    pub fn delete(&mut self, id: i64) -> (r: Result<(), AppError>)
        ensures
            r is Ok ==> final(self).rows() == old(self).rows().remove(id),
            r is Err ==> final(self).rows() == old(self).rows(),
            final(self).file() == old(self).file(),
            r matches Err(e) ==> e is Custom,
    {
        proof {
            use_type_invariant(&*self);
        }
        match db_delete(&mut self.conn, DELETE_STATEMENT, id) {
            Ok(_) => Ok(()),
            Err(e) => Err(db_error(e)),
        }
    }

    /// Removes every entry.
    pub fn clear(&mut self) -> (r: Result<(), AppError>)
        ensures
            r is Ok ==> final(self).rows() == Map::<i64, RowView>::empty(),
            r is Err ==> final(self).rows() == old(self).rows(),
            final(self).file() == old(self).file(),
            r matches Err(e) ==> e is Custom,
    {
        proof {
            use_type_invariant(&*self);
        }
        match db_clear(&mut self.conn, CLEAR_STATEMENT) {
            Ok(_) => Ok(()),
            Err(e) => Err(db_error(e)),
        }
    }

    /// The number of entries.
    pub fn count(&self) -> (r: Result<u32, AppError>)
        ensures
            r matches Ok(n) ==> n == self.rows().len(),
            r matches Err(e) ==> e is Custom,
    {
        proof {
            use_type_invariant(self);
        }
        match db_count(&self.conn, COUNT_QUERY) {
            Ok(n) => Ok(n),
            Err(e) => Err(db_error(e)),
        }
    }
}

/// After an entry is added, the history holds it under its id, and one entry more.
pub proof fn law_insert_adds_one(rows: Map<i64, RowView>, id: i64, row: RowView)
    requires
        rows.dom().finite(),
        !rows.contains_key(id),
    ensures
        rows.insert(id, row).len() == rows.len() + 1,
        rows.insert(id, row)[id] == row,
{
}

} // verus!
