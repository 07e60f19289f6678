//! The item store: one SQLite table of to-do rows, reached through a
//! `rusqlite` connection.  Every operation's contract is stated against the
//! model of the table's contents in listing order (id descending).

use vstd::prelude::*;

use crate::model::{
    count_id, edit_rows, has_id, lemma_count_id_of_sorted, lemma_edit_wf, lemma_remove_id_props,
    lemma_remove_id_wf, lemma_set_status_wf, lemma_wf_len_bound, page_of, remove_id_rows,
    set_status_rows, wf_table, window_of, ItemModel,
};

verus! {

/// A stored to-do entry, as rows come back from the store.
#[derive(Debug, Clone, PartialEq)]
#[allow(non_snake_case)]
pub struct TodoItem {
    pub ID: i32,
    pub Name: String,
    pub Description: String,
    pub Status: bool,
    pub CreatedAt: String,
}

impl View for TodoItem {
    type V = ItemModel;

    open spec fn view(&self) -> ItemModel {
        ItemModel {
            id: self.ID as int,
            name: self.Name@,
            description: self.Description@,
            status: self.Status,
            created_at: self.CreatedAt@,
        }
    }
}

/// The rows of a listing as their models.
pub open spec fn views_of(items: Seq<TodoItem>) -> Seq<ItemModel> {
    items.map_values(|t: TodoItem| t@)
}

/// What can go wrong against the store: the database cannot be opened, a
/// mutation fails, or a query fails.  A missing id is not an error; it is
/// reported through the affected row count.
#[derive(Clone, Copy, Debug, PartialEq, Eq, Structural)]
pub enum DbError {
    StorageUnavailable,
    WriteFailed,
    QueryFailed,
}

/// SQLite connection handle of the `rusqlite` crate, opaque to verification.
#[verifier::external_type_specification]
#[verifier::external_body]
pub struct ExConnection(rusqlite::Connection);

/// Error type of the `rusqlite` crate, opaque to verification.
#[verifier::external_type_specification]
#[verifier::external_body]
pub struct ExSqlError(rusqlite::Error);

/// The rows of the `dolist` table behind this connection, in listing order
/// (id descending) — the order in which every query of this library reads
/// them.
pub uninterp spec fn table_rows(conn: rusqlite::Connection) -> Seq<ItemModel>;

/// The id that the next successful insert through this connection will be
/// assigned: one more than the largest id the table has ever held.
pub uninterp spec fn table_next_id(conn: rusqlite::Connection) -> int;

/// The item store: owns the connection to the single-table database.
///
/// One process, one connection, one operation at a time.  Concurrent access
/// to the same database file by several processes is left entirely to
/// SQLite's own locking; this library adds no transaction or retry
/// discipline of its own.
pub struct Db {
    conn: rusqlite::Connection,
}

impl Db {
    /// The table's rows in listing order.
    pub closed spec fn rows(&self) -> Seq<ItemModel> {
        table_rows(self.conn)
    }

    /// The id the next insert will be assigned.
    pub closed spec fn next_id(&self) -> int {
        table_next_id(self.conn)
    }

    /// The store's invariant: rows in listing order with positive, distinct
    /// ids below the next id to be assigned.
    pub open spec fn inv(&self) -> bool {
        wf_table(self.rows(), self.next_id())
    }

    /// Relies on rusqlite's `Connection::open` and `Connection::execute`:
    /// opens or creates the database file and ensures the table exists.  The
    /// file may already hold rows; SQLite's `INTEGER PRIMARY KEY
    /// AUTOINCREMENT` keeps ids unique, positive, at most `i64::MAX` and
    /// never reused, so read in descending id order the table is strictly
    /// sorted and every id is below the next id to be assigned.
    #[verifier::external_body]
    fn open_file() -> (r: Result<rusqlite::Connection, rusqlite::Error>)
        ensures
            r matches Ok(conn) ==> wf_table(table_rows(conn), table_next_id(conn)),
    {
        let conn = rusqlite::Connection::open("dolist.db")?;
        conn.execute(
            "CREATE TABLE IF NOT EXISTS dolist (\
            id INTEGER PRIMARY KEY AUTOINCREMENT,\
            name TEXT NOT NULL,\
            description TEXT NOT NULL,\
            done INTEGER NOT NULL,\
            created TEXT NOT NULL)",
            (),
        )?;
        Ok(conn)
    }

    /// Relies on rusqlite's `Connection::open_in_memory` and
    /// `Connection::execute`: a fresh in-memory database holds no rows, and
    /// SQLite assigns the first `AUTOINCREMENT` id as 1.
    #[verifier::external_body]
    fn open_memory() -> (r: Result<rusqlite::Connection, rusqlite::Error>)
        ensures
            r matches Ok(conn) ==> table_rows(conn) == Seq::<ItemModel>::empty()
                && table_next_id(conn) == 1,
    {
        let conn = rusqlite::Connection::open_in_memory()?;
        conn.execute(
            "CREATE TABLE IF NOT EXISTS dolist (\
            id INTEGER PRIMARY KEY AUTOINCREMENT,\
            name TEXT NOT NULL,\
            description TEXT NOT NULL,\
            done INTEGER NOT NULL,\
            created TEXT NOT NULL)",
            (),
        )?;
        Ok(conn)
    }

    /// Relies on rusqlite's `Connection::execute` running an INSERT: SQLite
    /// prepends (in listing order) one row with the auto-assigned next id,
    /// done = 0 and a timestamp chosen by the database clock, and the next id
    /// moves up by one; a failed statement is backed out and leaves the table
    /// as it was.
    #[verifier::external_body]
    fn exec_insert(&mut self, name: &str, description: &str) -> (r: Result<
        (),
        rusqlite::Error,
    >)
        ensures
            r is Ok ==> table_rows(final(self).conn).len() == table_rows(old(self).conn).len() + 1
                && table_rows(final(self).conn).subrange(
                1,
                table_rows(final(self).conn).len() as int,
            ) == table_rows(old(self).conn) && table_rows(final(self).conn)[0].id == table_next_id(
                old(self).conn,
            ) && table_rows(final(self).conn)[0].id <= i64::MAX && table_rows(
                final(self).conn,
            )[0].name == name@ && table_rows(final(self).conn)[0].description == description@
                && table_rows(final(self).conn)[0].status == false && table_next_id(
                final(self).conn,
            ) == table_next_id(old(self).conn) + 1,
            r is Err ==> table_rows(final(self).conn) == table_rows(old(self).conn)
                && table_next_id(final(self).conn) == table_next_id(old(self).conn),
    {
        self.conn.execute(
            "INSERT INTO dolist (name, description, done, created) \
            VALUES (?1, ?2, 0, datetime('now'))",
            (name, description),
        )?;
        Ok(())
    }

    /// Relies on rusqlite's `Statement::query` over `SELECT ... ORDER BY id
    /// DESC LIMIT ?1 OFFSET ?2`: returns the window of at most `limit` rows
    /// starting `offset` rows into the listing order; reading errors (for one,
    /// an id that does not fit in `i32`) surface as `Err`.
    #[verifier::external_body]
    fn query_page(&self, limit: u32, offset: i64) -> (r: Result<Vec<TodoItem>, rusqlite::Error>)
        requires
            0 <= offset,
        ensures
            r matches Ok(v) ==> views_of(v@) == window_of(
                table_rows(self.conn),
                offset as int,
                limit as int,
            ),
    {
        let sql = "SELECT id, name, description, done, created FROM dolist \
            ORDER BY id DESC LIMIT ?1 OFFSET ?2";
        let mut stmt = self.conn.prepare(sql)?;
        let mut rows = stmt.query((limit, offset))?;
        let mut items = Vec::new();
        while let Some(row) = rows.next()? {
            items.push(TodoItem {
                ID: row.get(0)?, Name: row.get(1)?, Description: row.get(2)?,
                Status: row.get(3)?, CreatedAt: row.get(4)?,
            });
        }
        Ok(items)
    }

    /// Relies on rusqlite's `Statement::query` over `SELECT ... ORDER BY id
    /// DESC`: returns every row in listing order; reading errors surface as
    /// `Err`.
    #[verifier::external_body]
    fn query_all(&self) -> (r: Result<Vec<TodoItem>, rusqlite::Error>)
        ensures
            r matches Ok(v) ==> views_of(v@) == table_rows(self.conn),
    {
        let sql = "SELECT id, name, description, done, created FROM dolist ORDER BY id DESC";
        let mut stmt = self.conn.prepare(sql)?;
        let mut rows = stmt.query(())?;
        let mut items = Vec::new();
        while let Some(row) = rows.next()? {
            items.push(TodoItem {
                ID: row.get(0)?, Name: row.get(1)?, Description: row.get(2)?,
                Status: row.get(3)?, CreatedAt: row.get(4)?,
            });
        }
        Ok(items)
    }

    /// Relies on rusqlite's `Connection::query_row` over `SELECT COUNT(*)`:
    /// SQLite returns the row count; reading it as `u32` fails if it does not
    /// fit.
    #[verifier::external_body]
    fn query_count(&self) -> (r: Result<u32, rusqlite::Error>)
        ensures
            r matches Ok(n) ==> n as int == table_rows(self.conn).len(),
    {
        self.conn.query_row("SELECT COUNT(*) FROM dolist", (), |row| row.get(0))
    }

    /// Relies on rusqlite's `Connection::execute` running `UPDATE dolist SET
    /// done = ?1 WHERE id = ?2`: SQLite sets the done flag of every matching
    /// row (the count it reports includes rows whose flag already had that
    /// value) and touches nothing else; a failed statement is backed out.
    #[verifier::external_body]
    fn exec_set_status(&mut self, id: u32, status: bool) -> (r: Result<usize, rusqlite::Error>)
        ensures
            r matches Ok(n) ==> table_rows(final(self).conn) == set_status_rows(
                table_rows(old(self).conn),
                id as int,
                status,
            ) && n as int == count_id(table_rows(old(self).conn), id as int) && table_next_id(
                final(self).conn,
            ) == table_next_id(old(self).conn),
            r is Err ==> table_rows(final(self).conn) == table_rows(old(self).conn)
                && table_next_id(final(self).conn) == table_next_id(old(self).conn),
    {
        let n = self.conn.execute("UPDATE dolist SET done = ?1 WHERE id = ?2", (status, id))?;
        Ok(n)
    }

    /// Relies on rusqlite's `Connection::execute` running `DELETE FROM dolist
    /// WHERE id = ?1`: SQLite removes every matching row, keeps the others in
    /// order, and reports how many it removed; the `AUTOINCREMENT` counter is
    /// not lowered by a delete; a failed statement is backed out.
    #[verifier::external_body]
    fn exec_delete(&mut self, id: u32) -> (r: Result<usize, rusqlite::Error>)
        ensures
            r matches Ok(n) ==> table_rows(final(self).conn) == remove_id_rows(
                table_rows(old(self).conn),
                id as int,
            ) && n as int == count_id(table_rows(old(self).conn), id as int) && table_next_id(
                final(self).conn,
            ) == table_next_id(old(self).conn),
            r is Err ==> table_rows(final(self).conn) == table_rows(old(self).conn)
                && table_next_id(final(self).conn) == table_next_id(old(self).conn),
    {
        let n = self.conn.execute("DELETE FROM dolist WHERE id = ?1", (id,))?;
        Ok(n)
    }

    /// Relies on rusqlite's `Connection::execute` running an UPDATE whose SET
    /// clauses are `CASE WHEN ?n = '' THEN <old> ELSE ?n END`: SQLite
    /// replaces the name and description of every matching row, keeping a
    /// field whose replacement is the empty string, reports the count of
    /// matching rows, and touches nothing else; a failed statement is backed
    /// out.
    #[verifier::external_body]
    fn exec_edit(&mut self, id: u32, name: &str, description: &str) -> (r: Result<
        usize,
        rusqlite::Error,
    >)
        ensures
            r matches Ok(n) ==> table_rows(final(self).conn) == edit_rows(
                table_rows(old(self).conn),
                id as int,
                name@,
                description@,
            ) && n as int == count_id(table_rows(old(self).conn), id as int) && table_next_id(
                final(self).conn,
            ) == table_next_id(old(self).conn),
            r is Err ==> table_rows(final(self).conn) == table_rows(old(self).conn)
                && table_next_id(final(self).conn) == table_next_id(old(self).conn),
    {
        let n = self.conn.execute(
            "UPDATE dolist SET \
            name = CASE WHEN ?2 = '' THEN name ELSE ?2 END, \
            description = CASE WHEN ?3 = '' THEN description ELSE ?3 END \
            WHERE id = ?1",
            (id, name, description),
        )?;
        Ok(n)
    }

    /// Open (or create) the on-disk store and ensure the table exists.
    pub fn new() -> (r: Result<Db, DbError>)
        ensures
            r matches Ok(db) ==> db.inv(),
            r matches Err(e) ==> e == DbError::StorageUnavailable,
    {
        match Self::open_file() {
            Ok(conn) => Ok(Db { conn }),
            Err(_) => Err(DbError::StorageUnavailable),
        }
    }

    /// Open a fresh, empty in-memory store: same schema and semantics as the
    /// on-disk store, nothing persisted.
    pub fn new_in_memory() -> (r: Result<Db, DbError>)
        ensures
            r matches Ok(db) ==> db.inv() && db.rows() == Seq::<ItemModel>::empty() && db.next_id()
                == 1,
            r matches Err(e) ==> e == DbError::StorageUnavailable,
    {
        match Self::open_memory() {
            Ok(conn) => {
                let db = Db { conn };
                proof {
                    assert(db.inv());
                }
                Ok(db)
            },
            Err(_) => Err(DbError::StorageUnavailable),
        }
    }

    /// Insert a new item: status NotDone, the next id, a creation timestamp
    /// chosen by the store's clock.
    pub fn add_item(&mut self, name: &str, description: &str) -> (r: Result<(), DbError>)
        requires
            old(self).inv(),
            name@.len() > 0,
        ensures
            final(self).inv(),
            r matches Err(e) ==> e == DbError::WriteFailed && final(self).rows() == old(self).rows()
                && final(self).next_id() == old(self).next_id(),
            r is Ok ==> final(self).rows().len() == old(self).rows().len() + 1,
            r is Ok ==> final(self).rows()[0].id == old(self).next_id(),
            r is Ok ==> final(self).rows()[0].name == name@,
            r is Ok ==> final(self).rows()[0].description == description@,
            r is Ok ==> final(self).rows()[0].status == false,
            r is Ok ==> final(self).rows().subrange(1, final(self).rows().len() as int) == old(self).rows(),
            r is Ok ==> final(self).next_id() == old(self).next_id() + 1,
            r is Ok ==> forall|i: int|
                0 <= i < old(self).rows().len() ==> final(self).rows()[0].id > (#[trigger] old(self).rows()[i]).id,
    {
        match self.exec_insert(name, description) {
            Ok(u) => {
                proof {
                    let orows = old(self).rows();
                    let nrows = self.rows();
                    assert forall|k: int| 1 <= k < nrows.len() implies nrows[k] == orows[k - 1] by {
                        assert(nrows.subrange(1, nrows.len() as int)[k - 1] == nrows[k]);
                    }
                    assert forall|i: int|
                        0 <= i < orows.len() implies nrows[0].id > (#[trigger] orows[i]).id by {
                        assert(1 <= orows[i].id < old(self).next_id());
                    }
                    assert forall|i: int, j: int|
                        0 <= i < j < nrows.len() implies nrows[i].id > nrows[j].id by {
                        if i == 0 {
                            assert(nrows[0].id > orows[j - 1].id);
                        } else {
                            assert(orows[i - 1].id > orows[j - 1].id);
                        }
                    }
                    assert forall|i: int|
                        0 <= i < nrows.len() implies 1 <= (#[trigger] nrows[i]).id < self.next_id()
                        && nrows[i].id <= i64::MAX by {
                        if i >= 1 {
                            assert(1 <= orows[i - 1].id < old(self).next_id());
                        }
                    }
                }
                Ok(u)
            },
            Err(_) => Err(DbError::WriteFailed),
        }
    }

    /// The page-th block of `limit` rows in listing order, offset
    /// `(page - 1) * limit`: empty (not an error) when the offset runs past
    /// the available rows.  An offset beyond SQLite's parameter range is
    /// answered with the empty page without touching the store, so an error
    /// can only come out of a store query.
    pub fn show_items(&self, page: &u32, limit: &u32) -> (r: Result<Vec<TodoItem>, DbError>)
        requires
            self.inv(),
            *page >= 1,
            *limit >= 1,
        ensures
            r matches Ok(v) ==> views_of(v@) == page_of(
                self.rows(),
                *page as int,
                *limit as int,
            ),
            r matches Err(e) ==> e == DbError::QueryFailed,
            r is Err ==> (*page as int - 1) * (*limit as int) <= i64::MAX,
    {
        let p1: u64 = *page as u64 - 1;
        let l: u64 = *limit as u64;
        proof {
            assert(p1 * l <= u32::MAX as u64 * u32::MAX as u64) by (nonlinear_arith)
                requires
                    p1 <= u32::MAX,
                    l <= u32::MAX,
            ;
        }
        let off: u64 = p1 * l;
        proof {
            assert(off as int == (*page as int - 1) * (*limit as int));
        }
        if off > i64::MAX as u64 {
            proof {
                lemma_wf_len_bound(self.rows(), self.next_id());
                assert(page_of(self.rows(), *page as int, *limit as int) =~= Seq::<
                    ItemModel,
                >::empty());
                let empty_items = Seq::<TodoItem>::empty();
                assert(views_of(empty_items) =~= Seq::<ItemModel>::empty());
            }
            Ok(Vec::new())
        } else {
            match self.query_page(*limit, off as i64) {
                Ok(v) => Ok(v),
                Err(_) => Err(DbError::QueryFailed),
            }
        }
    }

    /// Every row, in listing order.
    pub fn show_all_items(&self) -> (r: Result<Vec<TodoItem>, DbError>)
        ensures
            r matches Ok(v) ==> views_of(v@) == self.rows(),
            r matches Err(e) ==> e == DbError::QueryFailed,
    {
        match self.query_all() {
            Ok(v) => Ok(v),
            Err(_) => Err(DbError::QueryFailed),
        }
    }

    /// The total row count.
    pub fn get_total_number_of_items(&self) -> (r: Result<u32, DbError>)
        ensures
            r matches Ok(n) ==> n as int == self.rows().len(),
            r matches Err(e) ==> e == DbError::QueryFailed,
    {
        match self.query_count() {
            Ok(n) => Ok(n),
            Err(_) => Err(DbError::QueryFailed),
        }
    }

    /// Set the done flag of the row carrying `id`; the affected row count is
    /// 1 when such a row exists and 0 when none does.
    pub fn set_item_status(&mut self, id: &u32, status: &bool) -> (r: Result<usize, DbError>)
        requires
            old(self).inv(),
        ensures
            final(self).inv(),
            final(self).next_id() == old(self).next_id(),
            r matches Ok(n) ==> final(self).rows() == set_status_rows(
                old(self).rows(),
                *id as int,
                *status,
            ) && (n == 1 <==> has_id(old(self).rows(), *id as int)) && (n == 0 <==> !has_id(
                old(self).rows(),
                *id as int,
            )),
            r matches Err(e) ==> e == DbError::WriteFailed && final(self).rows() == old(self).rows(),
    {
        match self.exec_set_status(*id, *status) {
            Ok(n) => {
                proof {
                    lemma_count_id_of_sorted(old(self).rows(), *id as int);
                    lemma_set_status_wf(
                        old(self).rows(),
                        old(self).next_id(),
                        *id as int,
                        *status,
                    );
                }
                Ok(n)
            },
            Err(_) => Err(DbError::WriteFailed),
        }
    }

    /// Remove the row carrying `id`; the affected row count is 1 when such a
    /// row existed and 0 when none did.  Ids are never reassigned.
    pub fn delete_item(&mut self, id: &u32) -> (r: Result<usize, DbError>)
        requires
            old(self).inv(),
        ensures
            final(self).inv(),
            final(self).next_id() == old(self).next_id(),
            r matches Ok(n) ==> final(self).rows() == remove_id_rows(old(self).rows(), *id as int)
                && final(self).rows().len() == old(self).rows().len() - n && (n == 1 <==> has_id(
                old(self).rows(),
                *id as int,
            )) && (n == 0 <==> !has_id(old(self).rows(), *id as int)),
            r matches Err(e) ==> e == DbError::WriteFailed && final(self).rows() == old(self).rows(),
    {
        match self.exec_delete(*id) {
            Ok(n) => {
                proof {
                    lemma_count_id_of_sorted(old(self).rows(), *id as int);
                    lemma_remove_id_props(old(self).rows(), *id as int);
                    lemma_remove_id_wf(old(self).rows(), old(self).next_id(), *id as int);
                }
                Ok(n)
            },
            Err(_) => Err(DbError::WriteFailed),
        }
    }

    /// Conditionally update name and description of the row carrying `id`: an
    /// empty replacement value leaves the stored value unchanged.  The
    /// affected row count is 1 when such a row exists — also when both
    /// replacements are empty — and 0 when none does.
    pub fn edit_item(&mut self, id: &u32, name: &str, description: &str) -> (r: Result<
        usize,
        DbError,
    >)
        requires
            old(self).inv(),
        ensures
            final(self).inv(),
            final(self).next_id() == old(self).next_id(),
            r matches Ok(n) ==> final(self).rows() == edit_rows(
                old(self).rows(),
                *id as int,
                name@,
                description@,
            ) && (n == 1 <==> has_id(old(self).rows(), *id as int)) && (n == 0 <==> !has_id(
                old(self).rows(),
                *id as int,
            )),
            r matches Err(e) ==> e == DbError::WriteFailed && final(self).rows() == old(self).rows(),
    {
        match self.exec_edit(*id, name, description) {
            Ok(n) => {
                proof {
                    lemma_count_id_of_sorted(old(self).rows(), *id as int);
                    lemma_edit_wf(
                        old(self).rows(),
                        old(self).next_id(),
                        *id as int,
                        name@,
                        description@,
                    );
                }
                Ok(n)
            },
            Err(_) => Err(DbError::WriteFailed),
        }
    }
}

} // verus!
