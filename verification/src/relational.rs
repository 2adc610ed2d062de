//! The relational backend: one live SQLite connection behind the uniform
//! storage contract, for any entity type that satisfies the relational
//! mapping contract.
//!
//! Everything the backend computes — statement text, parameter order, row
//! reconstruction — is verified against the mapping contract; only the
//! calls into the SQLite driver itself are trusted, each behind one small
//! wrapper below. What comes back from the database is never assumed: the
//! contracts state what holds of the result whatever rows were returned.

use vstd::prelude::*;

use crate::entities::{Task, TaskSearchTerms, TaskView, User, UserSearchTerms, UserView};
use crate::mapping::{
    relational_task, relational_user, task_insert_owned, task_of_row, user_of_row, SQLable,
    SQLSearchable,
};
use crate::sql::{
    build_query_sql, col_of, query_params, QueryValue, RowData, RowV, SqlValue, SqlValueV,
};
use crate::store::{Repository, SearchableRepository};
use crate::StoreError;

verus! {

#[verifier::external_type_specification]
#[verifier::external_body]
pub struct ExConnection(rusqlite::Connection);

#[verifier::external_type_specification]
#[verifier::external_body]
pub struct ExStatement<'conn>(rusqlite::Statement<'conn>);

#[verifier::external_type_specification]
#[verifier::external_body]
pub struct ExRows<'stmt>(rusqlite::Rows<'stmt>);

#[verifier::external_type_specification]
#[verifier::external_body]
pub struct ExRow<'stmt>(rusqlite::Row<'stmt>);

#[verifier::external_type_specification]
#[verifier::external_body]
pub struct ExSqliteError(rusqlite::Error);

#[verifier::external_type_specification]
#[verifier::external_body]
pub struct ExRawValue(rusqlite::types::Value);

/// Relies on `rusqlite::Connection::open_in_memory`: a fresh, private
/// in-memory database, or the driver's error.
#[verifier::external_body]
fn open_memory_conn() -> Result<rusqlite::Connection, rusqlite::Error> {
    rusqlite::Connection::open_in_memory()
}

/// Relies on `rusqlite::Connection::execute`: runs one parameterless
/// statement and returns how many rows it changed, or the driver's error.
#[verifier::external_body]
fn conn_execute(conn: &rusqlite::Connection, sql: &str) -> Result<usize, rusqlite::Error> {
    conn.execute(sql, ())
}

/// Relies on `rusqlite::Connection::prepare`: compiles one statement
/// against this connection, or returns the driver's error.
#[verifier::external_body]
fn conn_prepare<'c>(conn: &'c rusqlite::Connection, sql: &str) -> Result<
    rusqlite::Statement<'c>,
    rusqlite::Error,
> {
    conn.prepare(sql)
}

/// Relies on `rusqlite::Statement::column_names`: the names of the
/// statement's result columns, in column order.
#[verifier::external_body]
fn stmt_column_names(stmt: &rusqlite::Statement<'_>) -> Vec<String> {
    stmt.column_names().into_iter().map(str::to_owned).collect()
}

/// Relies on `rusqlite::Statement::query`: binds the values in the given
/// order to the statement's placeholders and starts it, handing back the
/// row cursor, or the driver's error.
#[verifier::external_body]
fn stmt_query<'s>(
    stmt: &'s mut rusqlite::Statement<'_>,
    vals: &Vec<rusqlite::types::Value>,
) -> Result<rusqlite::Rows<'s>, rusqlite::Error> {
    stmt.query(rusqlite::params_from_iter(vals.iter().cloned()))
}

/// Relies on `rusqlite::Statement::insert`: binds the values in the given
/// order, executes the insert, and returns the rowid of the inserted row;
/// the driver's error if no single row was inserted.
#[verifier::external_body]
fn stmt_insert(
    stmt: &mut rusqlite::Statement<'_>,
    vals: &Vec<rusqlite::types::Value>,
) -> Result<i64, rusqlite::Error> {
    stmt.insert(rusqlite::params_from_iter(vals.iter().cloned()))
}

/// Relies on `rusqlite::Rows::next`: the next result row, `None` once the
/// statement is exhausted, or the driver's error.
#[verifier::external_body]
fn rows_next<'a, 'stmt>(rows: &'a mut rusqlite::Rows<'stmt>) -> Result<
    Option<&'a rusqlite::Row<'stmt>>,
    rusqlite::Error,
> {
    rows.next()
}

/// Relies on `rusqlite::Row::get`: the cell at the given position as the
/// driver's own dynamically typed value, or the driver's error.
#[verifier::external_body]
fn row_value(row: &rusqlite::Row<'_>, i: usize) -> Result<
    rusqlite::types::Value,
    rusqlite::Error,
> {
    row.get(i)
}

/// Relies on the shape of `rusqlite::types::Value`: builds the driver
/// value holding the same integer or text, or SQL NULL.
#[verifier::external_body]
fn to_raw_value(v: &SqlValue) -> rusqlite::types::Value {
    match v {
        SqlValue::Null => rusqlite::types::Value::Null,
        SqlValue::Int(i) => rusqlite::types::Value::Integer(*i),
        SqlValue::Text(s) => rusqlite::types::Value::Text(s.clone()),
    }
}

/// Relies on the shape of `rusqlite::types::Value`: hands the integer or
/// text payload back as a plain value, and `None` for the real and blob
/// shapes, which no table of this library produces.
#[verifier::external_body]
fn from_raw_value(v: rusqlite::types::Value) -> Option<SqlValue> {
    match v {
        rusqlite::types::Value::Null => Some(SqlValue::Null),
        rusqlite::types::Value::Integer(i) => Some(SqlValue::Int(i)),
        rusqlite::types::Value::Text(s) => Some(SqlValue::Text(s)),
        rusqlite::types::Value::Real(_) => None,
        rusqlite::types::Value::Blob(_) => None,
    }
}

/// Relies on `rusqlite::Error`'s `Display` implementation for a readable
/// description of the failure.
#[verifier::external_body]
fn error_text(e: &rusqlite::Error) -> String {
    format!("{}", e)
}

/// Wrap a driver error as this library's backend failure.
fn backend_err(e: &rusqlite::Error) -> (r: StoreError)
    ensures
        r matches StoreError::Backend(_),
{
    StoreError::Backend(error_text(e))
}

/// The driver values for a parameter list, in the same order.
fn raw_params(vals: &Vec<SqlValue>) -> Vec<rusqlite::types::Value> {
    let mut out: Vec<rusqlite::types::Value> = Vec::new();
    let mut i: usize = 0;
    while i < vals.len()
        decreases vals.len() - i,
    {
        out.push(to_raw_value(&vals[i]));
        i += 1;
    }
    out
}

/// One result row as plain values, the cells keyed by the statement's
/// column names.
fn row_to_data(names: &Vec<String>, row: &rusqlite::Row<'_>) -> (r: Result<RowData, StoreError>)
    ensures
        r matches Err(e) ==> (e matches StoreError::Backend(_) || e
            matches StoreError::RowMapping),
{
    let mut values: Vec<SqlValue> = Vec::new();
    let mut i: usize = 0;
    while i < names.len()
        decreases names.len() - i,
    {
        let raw = match row_value(row, i) {
            Ok(v) => v,
            Err(e) => {
                return Err(backend_err(&e));
            },
        };
        match from_raw_value(raw) {
            Some(v) => values.push(v),
            None => {
                return Err(StoreError::RowMapping);
            },
        }
        i += 1;
    }
    Ok(RowData { names: names.clone(), values })
}

/// One row decodes to the pair: the entity from the row's cells, the
/// identity from the row's `id` column.
pub open spec fn row_decodes_to<T: SQLable>(r: RowV, id: i64, t: T) -> bool {
    &&& T::of_row(r) == Some(t@)
    &&& col_of(r, "id"@) == Some(SqlValueV::Int(id))
}

/// A row that cannot become a pair: the entity or the integer identity
/// cannot be read from it.
pub open spec fn row_undecodable<T: SQLable>(r: RowV) -> bool {
    ||| T::of_row(r) is None
    ||| !(col_of(r, "id"@) matches Some(SqlValueV::Int(_)))
}

/// The pair list is the complete, in-order decode of the row list: same
/// length, each pair from the row at its position — no row dropped,
/// duplicated or reordered.
pub open spec fn decoded_rows<T: SQLable>(rows: Seq<RowV>, v: Seq<(i64, T)>) -> bool {
    &&& v.len() == rows.len()
    &&& forall|i: int|
        0 <= i < rows.len() ==> #[trigger] row_decodes_to::<T>(rows[i], v[i].0, v[i].1)
}

/// The task list is the complete, in-order decode of the row list.
pub open spec fn tasks_decode_of(rows: Seq<RowV>, ts: Seq<TaskView>) -> bool {
    &&& ts.len() == rows.len()
    &&& forall|i: int| 0 <= i < rows.len() ==> task_of_row(#[trigger] rows[i]) == Some(ts[i])
}

/// Some task row decodes to exactly the given value.
pub open spec fn task_decoded(t: TaskView) -> bool {
    exists|rv: RowV| task_of_row(rv) == Some(t)
}

/// The user list carries, in order, the names of the complete decode of
/// the row list: same length, each name from the user row at its position.
pub open spec fn users_decode_of(rows: Seq<RowV>, us: Seq<UserView>) -> bool {
    &&& us.len() == rows.len()
    &&& forall|i: int|
        0 <= i < rows.len() ==> (user_of_row(#[trigger] rows[i]) matches Some(u0) && u0.name
            == us[i].name)
}

/// Some user row carries exactly this user's name.
pub open spec fn name_decoded(u: UserView) -> bool {
    exists|rv: RowV| #[trigger] user_of_row(rv) matches Some(u0) && u0.name == u.name
}

/// The user's task list is the complete, in-order decode of some task row
/// list.
pub open spec fn tasks_decoded(u: UserView) -> bool {
    exists|rows: Seq<RowV>| tasks_decode_of(rows, u.tasks)
}

/// Every field of the user came out of rows: the name from a user row,
/// the task list as the in-order decode of a task row list.
pub open spec fn user_from_rows(u: UserView) -> bool {
    name_decoded(u) && tasks_decoded(u)
}

/// The task list is, entirely and in order, the decode of some task row
/// list: each task shaped as the task table can hold it, none invented,
/// dropped, duplicated or reordered relative to that list.
pub open spec fn tasks_from_rows(ts: Seq<TaskView>) -> bool {
    &&& (forall|i: int| 0 <= i < ts.len() ==> relational_task(#[trigger] ts[i]))
    &&& exists|rows: Seq<RowV>| #[trigger] tasks_decode_of(rows, ts)
}

/// The user list names, in order, the complete decode of some user row
/// list, and every field of every user came out of rows.
pub open spec fn users_from_rows(us: Seq<UserView>) -> bool {
    &&& (forall|i: int| 0 <= i < us.len() ==> relational_user(#[trigger] us[i]))
    &&& (forall|i: int| 0 <= i < us.len() ==> user_from_rows(#[trigger] us[i]))
    &&& exists|rows: Seq<RowV>| #[trigger] users_decode_of(rows, us)
}

/// The store that ties the mapping contract to SQLite: one live
/// connection, scoped to this value's lifetime.
pub struct Rusqlite {
    conn: rusqlite::Connection,
}

impl Rusqlite {
    /// A store over a fresh private in-memory database. Only the backend
    /// itself can refuse this.
    pub fn in_memory() -> (r: Result<Rusqlite, StoreError>)
        ensures
            r matches Err(e) ==> e matches StoreError::Backend(_),
    {
        match open_memory_conn() {
            Ok(conn) => Ok(Rusqlite { conn }),
            Err(e) => Err(backend_err(&e)),
        }
    }

    /// Execute the type's table-creation statement. Calling this twice for
    /// one type fails loudly with the backend's error, as creating an
    /// existing table does; no other error class can come out of it.
    pub fn setup<T: SQLable>(&self) -> (r: Result<usize, StoreError>)
        ensures
            r matches Err(e) ==> e matches StoreError::Backend(_),
    {
        match conn_execute(&self.conn, T::create_table()) {
            Ok(n) => Ok(n),
            Err(e) => Err(backend_err(&e)),
        }
    }

    /// Prepare `sql`, bind `params` in order, run it, and hand every
    /// result row back as plain values.
    fn fetch_rows(&self, sql: &str, params: &Vec<SqlValue>) -> (r: Result<Vec<RowData>, StoreError>)
        ensures
            r matches Err(e) ==> (e matches StoreError::Backend(_) || e
                matches StoreError::RowMapping),
    {
        let mut stmt = match conn_prepare(&self.conn, sql) {
            Ok(s) => s,
            Err(e) => {
                return Err(backend_err(&e));
            },
        };
        let names = stmt_column_names(&stmt);
        let raw = raw_params(params);
        let mut rows = match stmt_query(&mut stmt, &raw) {
            Ok(r) => r,
            Err(e) => {
                return Err(backend_err(&e));
            },
        };
        let mut out: Vec<RowData> = Vec::new();
        // A cursor yields fewer rows than the address space has bytes; the
        // fuel bound exists only to state that this loop cannot run forever.
        // Exhausting it would mean the driver misbehaved, and no partial
        // result is returned then either.
        let mut fuel: usize = usize::MAX;
        while fuel > 0
            decreases fuel,
        {
            match rows_next(&mut rows) {
                Err(e) => {
                    return Err(backend_err(&e));
                },
                Ok(None) => {
                    return Ok(out);
                },
                Ok(Some(row)) => {
                    match row_to_data(&names, row) {
                        Ok(rd) => out.push(rd),
                        Err(e) => {
                            return Err(e);
                        },
                    }
                },
            }
            fuel -= 1;
        }
        Err(StoreError::Backend("row cursor did not finish".to_owned()))
    }

    /// Prepare an insert, bind the values in order, execute it, and return
    /// the backend-assigned rowid. Only the backend itself can refuse an
    /// insert.
    fn insert_row(&self, sql: &str, vals: &Vec<SqlValue>) -> (r: Result<i64, StoreError>)
        ensures
            r matches Err(e) ==> e matches StoreError::Backend(_),
    {
        let mut stmt = match conn_prepare(&self.conn, sql) {
            Ok(s) => s,
            Err(e) => {
                return Err(backend_err(&e));
            },
        };
        let raw = raw_params(vals);
        match stmt_insert(&mut stmt, &raw) {
            Ok(id) => Ok(id),
            Err(e) => Err(backend_err(&e)),
        }
    }

    /// Run the type's dynamic query for the given credentials and cap, and
    /// hand back the in-order decode of the rows it returned, each entity
    /// paired with its `id` column.
    fn fetch_entities<T: SQLable>(&self, creds: &Vec<QueryValue>, limit: Option<u32>) -> (r:
        Result<Vec<(i64, T)>, StoreError>)
        ensures
            r matches Ok(v) ==> {
                &&& (limit matches Some(n) ==> v@.len() <= n)
                &&& forall|i: int| 0 <= i < v@.len() ==> T::decodable((#[trigger] v@[i]).1@)
                &&& exists|rows: Seq<RowV>| #[trigger] decoded_rows::<T>(rows, v@)
            },
            r matches Err(e) ==> (e matches StoreError::Backend(_) || e
                matches StoreError::RowMapping),
    {
        let sql = build_query_sql(T::select(), creds, limit);
        let params = query_params(creds);
        let rows = match self.fetch_rows(sql.as_str(), &params) {
            Ok(r) => r,
            Err(e) => {
                return Err(e);
            },
        };
        let mut out = match decode_pairs::<T>(&rows) {
            Ok(p) => p,
            Err(e) => {
                return Err(e);
            },
        };
        let ghost rows_dv = rows.deep_view();
        proof {
            assert forall|i: int| 0 <= i < out@.len() implies T::decodable(
                (#[trigger] out@[i]).1@,
            ) by {
                assert(row_decodes_to::<T>(rows_dv[i], out@[i].0, out@[i].1));
                T::lemma_of_row_decodable(rows_dv[i]);
            }
        }
        // The statement already carries the LIMIT clause; the cap below
        // only makes the bound independent of the backend honouring it.
        match limit {
            Some(n) => {
                if out.len() > n as usize {
                    let ghost full = out@;
                    out.truncate(n as usize);
                    proof {
                        assert(out@ =~= full.take(n as int));
                        assert forall|j: int| 0 <= j < out@.len() implies T::decodable(
                            (#[trigger] out@[j]).1@,
                        ) by {
                            assert(out@[j] == full[j]);
                            assert(row_decodes_to::<T>(rows_dv[j], full[j].0, full[j].1));
                            T::lemma_of_row_decodable(rows_dv[j]);
                        }
                        assert forall|j: int| 0 <= j < n implies row_decodes_to::<T>(
                            rows_dv.take(n as int)[j],
                            out@[j].0,
                            out@[j].1,
                        ) by {
                            assert(rows_dv.take(n as int)[j] == rows_dv[j]);
                            assert(out@[j] == full[j]);
                            assert(row_decodes_to::<T>(rows_dv[j], full[j].0, full[j].1));
                        }
                        assert(decoded_rows::<T>(rows_dv.take(n as int), out@));
                    }
                }
            },
            None => {},
        }
        Ok(out)
    }

    /// The tasks stored under the given owner identity: the in-order
    /// decode of some task row list.
    fn tasks_of_owner(&self, owner: i64) -> (r: Result<Vec<Task>, StoreError>)
        ensures
            r matches Ok(v) ==> tasks_from_rows(v.deep_view()),
            r matches Err(e) ==> (e matches StoreError::Backend(_) || e
                matches StoreError::RowMapping),
    {
        let creds = Task::build_query(&[TaskSearchTerms::Owner(owner)]);
        let pairs = match self.fetch_entities::<Task>(&creds, None) {
            Ok(p) => p,
            Err(e) => {
                return Err(e);
            },
        };
        let v = strip_ids_tasks(&pairs);
        proof {
            let rows0 = choose|rows: Seq<RowV>| #[trigger] decoded_rows::<Task>(rows, pairs@);
            lemma_pairs_to_tasks_decode(rows0, pairs@, v.deep_view());
            assert(tasks_from_rows(v.deep_view()));
        }
        Ok(v)
    }
}

/// Decode every row into its integer identity and its entity, in row
/// order: the result is the complete, in-order decode of exactly the
/// given rows. One row that cannot be decoded fails the whole call with a
/// mapping error — no partial result is ever returned.
fn decode_pairs<T: SQLable>(rows: &Vec<RowData>) -> (r: Result<Vec<(i64, T)>, StoreError>)
    ensures
        r matches Ok(v) ==> decoded_rows::<T>(rows.deep_view(), v@),
        r matches Err(e) ==> e matches StoreError::RowMapping && (exists|i: int|
            0 <= i < rows@.len() && #[trigger] row_undecodable::<T>(rows.deep_view()[i])),
{
    let mut out: Vec<(i64, T)> = Vec::new();
    let mut i: usize = 0;
    while i < rows.len()
        invariant
            0 <= i <= rows@.len(),
            out@.len() == i,
            forall|j: int|
                0 <= j < i ==> #[trigger] row_decodes_to::<T>(
                    rows.deep_view()[j],
                    out@[j].0,
                    out@[j].1,
                ),
        decreases rows.len() - i,
    {
        let c = rows[i].col("id");
        let id = match c {
            Some(SqlValue::Int(id)) => id,
            _ => {
                proof {
                    assert(rows.deep_view()[i as int] == rows@[i as int]@);
                    match c {
                        Some(v) => {
                            assert(col_of(rows@[i as int]@, "id"@) == Some(v@));
                            assert(!(v@ matches SqlValueV::Int(_)));
                        },
                        None => {
                            assert(col_of(rows@[i as int]@, "id"@) is None);
                        },
                    }
                    assert(row_undecodable::<T>(rows.deep_view()[i as int]));
                }
                return Err(StoreError::RowMapping);
            },
        };
        let entity = match T::from_row(&rows[i]) {
            Ok(t) => t,
            Err(e) => {
                proof {
                    assert(rows.deep_view()[i as int] == rows@[i as int]@);
                    assert(row_undecodable::<T>(rows.deep_view()[i as int]));
                }
                return Err(e);
            },
        };
        let ghost old_out = out@;
        let ghost ev = entity@;
        out.push((id, entity));
        proof {
            assert(rows.deep_view()[i as int] == rows@[i as int]@);
            assert(out@[i as int].1@ == ev);
            assert(row_decodes_to::<T>(rows.deep_view()[i as int], id, out@[i as int].1));
            assert forall|j: int| 0 <= j < i + 1 implies #[trigger] row_decodes_to::<T>(
                rows.deep_view()[j],
                out@[j].0,
                out@[j].1,
            ) by {
                if j < old_out.len() {
                    assert(out@[j] == old_out[j]);
                }
            }
        }
        i += 1;
    }
    proof {
        assert(rows.deep_view().len() == rows@.len());
    }
    Ok(out)
}

/// Whatever row list the pairs decode from, the task list made of the
/// pairs' entities, in order, is the complete decode of that row list.
proof fn lemma_pairs_to_tasks_decode(rows: Seq<RowV>, pairs: Seq<(i64, Task)>, ts: Seq<TaskView>)
    requires
        decoded_rows::<Task>(rows, pairs),
        ts.len() == pairs.len(),
        forall|i: int| 0 <= i < pairs.len() ==> ts[i] == (#[trigger] pairs[i]).1@,
    ensures
        tasks_decode_of(rows, ts),
{
    assert forall|i: int| 0 <= i < rows.len() implies task_of_row(#[trigger] rows[i]) == Some(
        ts[i],
    ) by {
        assert(row_decodes_to::<Task>(rows[i], pairs[i].0, pairs[i].1));
    }
}

/// The tasks of a decoded pair list, ids dropped, order and every task
/// kept as they stand in the pairs.
fn strip_ids_tasks(pairs: &Vec<(i64, Task)>) -> (r: Vec<Task>)
    requires
        forall|i: int| 0 <= i < pairs@.len() ==> relational_task((#[trigger] pairs@[i]).1@),
    ensures
        r@.len() == pairs@.len(),
        forall|i: int| 0 <= i < pairs@.len() ==> r.deep_view()[i] == (#[trigger] pairs@[i]).1@,
        forall|i: int|
            0 <= i < r.deep_view().len() ==> relational_task(#[trigger] r.deep_view()[i]),
{
    let mut out: Vec<Task> = Vec::new();
    let mut i: usize = 0;
    while i < pairs.len()
        invariant
            0 <= i <= pairs@.len(),
            out@.len() == i,
            forall|j: int| 0 <= j < pairs@.len() ==> relational_task((#[trigger] pairs@[j]).1@),
            forall|j: int| 0 <= j < i ==> out.deep_view()[j] == (#[trigger] pairs@[j]).1@,
            forall|j: int|
                0 <= j < out.deep_view().len() ==> relational_task(#[trigger] out.deep_view()[j]),
        decreases pairs.len() - i,
    {
        let ghost old_dv = out.deep_view();
        let t = pairs[i].1.clone();
        let ghost tv = t@;
        proof {
            assert(relational_task(pairs@[i as int].1@));
            assert(tv == pairs@[i as int].1@);
        }
        out.push(t);
        proof {
            assert forall|j: int| 0 <= j < out.deep_view().len() implies relational_task(
                #[trigger] out.deep_view()[j],
            ) by {
                if j < old_dv.len() {
                    assert(out.deep_view()[j] == old_dv[j]);
                } else {
                    assert(out.deep_view()[j] == tv);
                }
            }
            assert forall|j: int| 0 <= j < i + 1 implies out.deep_view()[j] == (
            #[trigger] pairs@[j]).1@ by {
                if j < old_dv.len() {
                    assert(out.deep_view()[j] == old_dv[j]);
                } else {
                    assert(out.deep_view()[j] == tv);
                }
            }
        }
        i += 1;
    }
    out
}

impl Repository<Task> for Rusqlite {
    type Id = i64;

    /// The result is the complete, in-order decode of some fetched task
    /// row list — no row dropped, duplicated or reordered, and so every
    /// task shaped as the task table can hold it (no due timestamp, no
    /// comma inside a tag). Which rows the store holds is the database's;
    /// a failure is the backend's or a row that would not map back —
    /// never a duplicate identity.
    open spec fn all_post(&self, r: Result<Vec<Task>, StoreError>) -> bool {
        match r {
            Ok(v) => tasks_from_rows(v.deep_view()),
            Err(e) => e matches StoreError::Backend(_) || e matches StoreError::RowMapping,
        }
    }

    /// A record handed out is the decode of some task row; absence and
    /// failure both remain possible whatever the identity, and a failure
    /// is the backend's or a row that would not map back.
    open spec fn get_post(&self, id: i64, r: Result<Option<Task>, StoreError>) -> bool {
        match r {
            Ok(Some(t)) => relational_task(t@) && task_decoded(t@),
            Ok(None) => true,
            Err(e) => e matches StoreError::Backend(_) || e matches StoreError::RowMapping,
        }
    }

    /// The database's state is outside this model: a completed save
    /// returns the backend-assigned rowid, of which nothing is promised;
    /// a failed one reports the backend's refusal — a save never fails
    /// with a mapping or duplicate-identity error.
    open spec fn save_post(&self, post: Self, data: Task, r: Result<i64, StoreError>) -> bool {
        match r {
            Ok(_) => true,
            Err(e) => e matches StoreError::Backend(_),
        }
    }

    fn all(&self) -> (r: Result<Vec<Task>, StoreError>) {
        let pairs = match self.fetch_entities::<Task>(&Vec::new(), None) {
            Ok(p) => p,
            Err(e) => {
                return Err(e);
            },
        };
        let v = strip_ids_tasks(&pairs);
        proof {
            let rows0 = choose|rows: Seq<RowV>| #[trigger] decoded_rows::<Task>(rows, pairs@);
            lemma_pairs_to_tasks_decode(rows0, pairs@, v.deep_view());
            assert(tasks_from_rows(v.deep_view()));
        }
        Ok(v)
    }

    fn get(&self, id: &i64) -> (r: Result<Option<Task>, StoreError>) {
        let mut creds: Vec<QueryValue> = Vec::new();
        creds.push(QueryValue { field: "id", value: SqlValue::Int(*id) });
        let pairs = match self.fetch_entities::<Task>(&creds, Some(1)) {
            Ok(p) => p,
            Err(e) => {
                return Err(e);
            },
        };
        if pairs.len() == 0 {
            Ok(None)
        } else {
            let t = pairs[0].1.clone();
            proof {
                assert(relational_task((pairs@[0]).1@));
                assert(t@ == pairs@[0].1@);
                let rows0 = choose|rows: Seq<RowV>| decoded_rows::<Task>(rows, pairs@);
                assert(row_decodes_to::<Task>(rows0[0], pairs@[0].0, pairs@[0].1));
                assert(task_of_row(rows0[0]) == Some(t@));
                assert(task_decoded(t@));
            }
            Ok(Some(t))
        }
    }

    fn save(&mut self, data: &Task) -> (r: Result<i64, StoreError>) {
        let vals = Task::bind(data);
        self.insert_row(Task::insert(), &vals)
    }
}

impl Repository<User> for Rusqlite {
    type Id = i64;

    /// The result names, in order, the complete decode of some fetched
    /// user row list — no row dropped, duplicated or reordered — and
    /// every user's fields came out of rows: the name from its user row,
    /// the attached tasks as the decode of a task row list fetched by the
    /// owner credential. Which rows the store holds is the database's; a
    /// failure is the backend's or a row that would not map back.
    open spec fn all_post(&self, r: Result<Vec<User>, StoreError>) -> bool {
        match r {
            Ok(v) => users_from_rows(v.deep_view()),
            Err(e) => e matches StoreError::Backend(_) || e matches StoreError::RowMapping,
        }
    }

    /// A record handed out has every field out of rows: its name from a
    /// user row, its tasks the in-order decode of a task row list.
    /// Absence and failure both remain possible, and a failure is the
    /// backend's or a row that would not map back.
    open spec fn get_post(&self, id: i64, r: Result<Option<User>, StoreError>) -> bool {
        match r {
            Ok(Some(u)) => relational_user(u@) && user_from_rows(u@),
            Ok(None) => true,
            Err(e) => e matches StoreError::Backend(_) || e matches StoreError::RowMapping,
        }
    }

    /// The database's state is outside this model: a completed save
    /// returns the backend-assigned rowid, of which nothing is promised;
    /// a failed one reports the backend's refusal — a save never fails
    /// with a mapping or duplicate-identity error.
    open spec fn save_post(&self, post: Self, data: User, r: Result<i64, StoreError>) -> bool {
        match r {
            Ok(_) => true,
            Err(e) => e matches StoreError::Backend(_),
        }
    }

    fn all(&self) -> (r: Result<Vec<User>, StoreError>) {
        let pairs = match self.fetch_entities::<User>(&Vec::new(), None) {
            Ok(p) => p,
            Err(e) => {
                return Err(e);
            },
        };
        proof {
            let urows = choose|rows: Seq<RowV>| #[trigger] decoded_rows::<User>(rows, pairs@);
            lemma_pairs_names_decoded(urows, pairs@);
        }
        let v = match self.attach_tasks(&pairs) {
            Ok(u) => u,
            Err(e) => {
                return Err(e);
            },
        };
        proof {
            let urows = choose|rows: Seq<RowV>| #[trigger] decoded_rows::<User>(rows, pairs@);
            lemma_pairs_to_users_decode(urows, pairs@, v.deep_view());
            assert(users_from_rows(v.deep_view()));
        }
        Ok(v)
    }

    fn get(&self, id: &i64) -> (r: Result<Option<User>, StoreError>) {
        let mut creds: Vec<QueryValue> = Vec::new();
        creds.push(QueryValue { field: "id", value: SqlValue::Int(*id) });
        let pairs = match self.fetch_entities::<User>(&creds, Some(1)) {
            Ok(p) => p,
            Err(e) => {
                return Err(e);
            },
        };
        proof {
            let urows = choose|rows: Seq<RowV>| #[trigger] decoded_rows::<User>(rows, pairs@);
            lemma_pairs_names_decoded(urows, pairs@);
        }
        let mut users = match self.attach_tasks(&pairs) {
            Ok(u) => u,
            Err(e) => {
                return Err(e);
            },
        };
        if users.len() == 0 {
            Ok(None)
        } else {
            let ghost udv = users.deep_view();
            let u = users.remove(0);
            proof {
                assert(u@ == udv[0]);
                assert(relational_user(u@));
                assert(user_from_rows(u@));
            }
            Ok(Some(u))
        }
    }

    /// Persist the user's own row, then one row per owned task carrying
    /// the fresh user identity in its owner column. Each owner fetched
    /// later costs one further query: the known cost of reconstructing the
    /// relation eagerly.
    fn save(&mut self, data: &User) -> (r: Result<i64, StoreError>) {
        let vals = User::bind(data);
        let uid = match self.insert_row(User::insert(), &vals) {
            Ok(id) => id,
            Err(e) => {
                return Err(e);
            },
        };
        let mut i: usize = 0;
        while i < data.tasks.len()
            decreases data.tasks.len() - i,
        {
            let mut tvals = Task::bind(&data.tasks[i]);
            tvals.push(SqlValue::Int(uid));
            match self.insert_row(task_insert_owned(), &tvals) {
                Ok(_) => {},
                Err(e) => {
                    return Err(e);
                },
            }
            i += 1;
        }
        Ok(uid)
    }
}

/// Each entity of a completely decoded user pair list carries a name
/// some user row holds.
proof fn lemma_pairs_names_decoded(rows: Seq<RowV>, pairs: Seq<(i64, User)>)
    requires
        decoded_rows::<User>(rows, pairs),
    ensures
        forall|i: int| 0 <= i < pairs.len() ==> name_decoded((#[trigger] pairs[i]).1@),
{
    assert forall|i: int| 0 <= i < pairs.len() implies name_decoded((#[trigger] pairs[i]).1@) by {
        assert(row_decodes_to::<User>(rows[i], pairs[i].0, pairs[i].1));
        assert(user_of_row(rows[i]) == Some(pairs[i].1@));
        assert(user_of_row(rows[i]) matches Some(u0) && u0.name == pairs[i].1@.name);
        assert(name_decoded(pairs[i].1@));
    }
}

/// Whatever row list the pairs decode from, a user list that keeps the
/// pairs' names, in order, names the complete decode of that row list.
proof fn lemma_pairs_to_users_decode(rows: Seq<RowV>, pairs: Seq<(i64, User)>, us: Seq<UserView>)
    requires
        decoded_rows::<User>(rows, pairs),
        us.len() == pairs.len(),
        forall|i: int| 0 <= i < pairs.len() ==> us[i].name == (#[trigger] pairs[i]).1@.name,
    ensures
        users_decode_of(rows, us),
{
    assert forall|i: int| 0 <= i < rows.len() implies (user_of_row(#[trigger] rows[i])
        matches Some(u0) && u0.name == us[i].name) by {
        assert(row_decodes_to::<User>(rows[i], pairs[i].0, pairs[i].1));
    }
}

impl Rusqlite {
    /// Attach to each decoded user the tasks stored under its identity.
    fn attach_tasks(&self, pairs: &Vec<(i64, User)>) -> (r: Result<Vec<User>, StoreError>)
        requires
            forall|i: int| 0 <= i < pairs@.len() ==> name_decoded((#[trigger] pairs@[i]).1@),
        ensures
            r matches Ok(v) ==> {
                &&& v@.len() == pairs@.len()
                &&& forall|i: int|
                    0 <= i < pairs@.len() ==> v.deep_view()[i].name == (
                    #[trigger] pairs@[i]).1@.name
                &&& forall|i: int|
                    0 <= i < v.deep_view().len() ==> relational_user(#[trigger] v.deep_view()[i])
                &&& forall|i: int|
                    0 <= i < v.deep_view().len() ==> user_from_rows(#[trigger] v.deep_view()[i])
            },
            r matches Err(e) ==> (e matches StoreError::Backend(_) || e
                matches StoreError::RowMapping),
    {
        let mut out: Vec<User> = Vec::new();
        let mut i: usize = 0;
        while i < pairs.len()
            invariant
                0 <= i <= pairs@.len(),
                out@.len() == i,
                forall|j: int| 0 <= j < pairs@.len() ==> name_decoded((#[trigger] pairs@[j]).1@),
                forall|j: int|
                    0 <= j < i ==> out.deep_view()[j].name == (#[trigger] pairs@[j]).1@.name,
                forall|j: int|
                    0 <= j < out.deep_view().len() ==> relational_user(
                        #[trigger] out.deep_view()[j],
                    ),
                forall|j: int|
                    0 <= j < out.deep_view().len() ==> user_from_rows(
                        #[trigger] out.deep_view()[j],
                    ),
            decreases pairs.len() - i,
        {
            let uid = pairs[i].0;
            let name = pairs[i].1.name.clone();
            let tasks = match self.tasks_of_owner(uid) {
                Ok(ts) => ts,
                Err(e) => {
                    return Err(e);
                },
            };
            let ghost tdv = tasks.deep_view();
            let u = User { name, tasks };
            let ghost uv = u@;
            proof {
                assert(uv.tasks =~= tdv);
                assert forall|k: int| 0 <= k < uv.tasks.len() implies relational_task(
                    #[trigger] uv.tasks[k],
                ) by {
                    assert(uv.tasks[k] == tdv[k]);
                }
                assert(relational_user(uv));
                assert(uv.name == pairs@[i as int].1@.name);
                assert(name_decoded(pairs@[i as int].1@));
                let rv = choose|rv: RowV|
                    #[trigger] user_of_row(rv) matches Some(u0) && u0.name == pairs@[i as int].1@.name;
                assert(user_of_row(rv) matches Some(u0) && u0.name == uv.name);
                assert(name_decoded(uv));
                let trows = choose|rows: Seq<RowV>| #[trigger] tasks_decode_of(rows, tdv);
                assert(tasks_decode_of(trows, uv.tasks));
                assert(tasks_decoded(uv));
                assert(user_from_rows(uv));
            }
            let ghost old_dv = out.deep_view();
            out.push(u);
            proof {
                assert forall|j: int| 0 <= j < out.deep_view().len() implies relational_user(
                    #[trigger] out.deep_view()[j],
                ) by {
                    if j < old_dv.len() {
                        assert(out.deep_view()[j] == old_dv[j]);
                    } else {
                        assert(out.deep_view()[j] == uv);
                    }
                }
                assert forall|j: int| 0 <= j < out.deep_view().len() implies user_from_rows(
                    #[trigger] out.deep_view()[j],
                ) by {
                    if j < old_dv.len() {
                        assert(out.deep_view()[j] == old_dv[j]);
                    } else {
                        assert(out.deep_view()[j] == uv);
                    }
                }
                assert forall|j: int| 0 <= j < i + 1 implies out.deep_view()[j].name == (
                #[trigger] pairs@[j]).1@.name by {
                    if j < old_dv.len() {
                        assert(out.deep_view()[j] == old_dv[j]);
                    } else {
                        assert(out.deep_view()[j] == uv);
                    }
                }
            }
            i += 1;
        }
        Ok(out)
    }
}

impl SearchableRepository<User> for Rusqlite {
    /// The result names, in order, the complete decode of some fetched
    /// user row list, no longer than the requested cap, with every user's
    /// fields out of rows; a failure is the backend's or a row that would
    /// not map back.
    open spec fn find_post(
        &self,
        creds: Seq<UserSearchTerms>,
        limit: Option<u32>,
        r: Result<Vec<User>, StoreError>,
    ) -> bool {
        match r {
            Ok(v) => (limit matches Some(n) ==> v@.len() <= n) && users_from_rows(v.deep_view()),
            Err(e) => e matches StoreError::Backend(_) || e matches StoreError::RowMapping,
        }
    }

    fn find(&self, credentials: &[UserSearchTerms], limit: Option<u32>) -> (r: Result<
        Vec<User>,
        StoreError,
    >) {
        let creds = User::build_query(credentials);
        let pairs = match self.fetch_entities::<User>(&creds, limit) {
            Ok(p) => p,
            Err(e) => {
                return Err(e);
            },
        };
        proof {
            let urows = choose|rows: Seq<RowV>| #[trigger] decoded_rows::<User>(rows, pairs@);
            lemma_pairs_names_decoded(urows, pairs@);
        }
        let v = match self.attach_tasks(&pairs) {
            Ok(u) => u,
            Err(e) => {
                return Err(e);
            },
        };
        proof {
            let urows = choose|rows: Seq<RowV>| #[trigger] decoded_rows::<User>(rows, pairs@);
            lemma_pairs_to_users_decode(urows, pairs@, v.deep_view());
            assert(users_from_rows(v.deep_view()));
        }
        Ok(v)
    }
}

impl SearchableRepository<Task> for Rusqlite {
    /// The result is the complete, in-order decode of some fetched task
    /// row list, no longer than the requested cap; a failure is the
    /// backend's or a row that would not map back.
    open spec fn find_post(
        &self,
        creds: Seq<TaskSearchTerms>,
        limit: Option<u32>,
        r: Result<Vec<Task>, StoreError>,
    ) -> bool {
        match r {
            Ok(v) => (limit matches Some(n) ==> v@.len() <= n) && tasks_from_rows(v.deep_view()),
            Err(e) => e matches StoreError::Backend(_) || e matches StoreError::RowMapping,
        }
    }

    fn find(&self, credentials: &[TaskSearchTerms], limit: Option<u32>) -> (r: Result<
        Vec<Task>,
        StoreError,
    >) {
        let creds = Task::build_query(credentials);
        let pairs = match self.fetch_entities::<Task>(&creds, limit) {
            Ok(p) => p,
            Err(e) => {
                return Err(e);
            },
        };
        let v = strip_ids_tasks(&pairs);
        proof {
            let rows0 = choose|rows: Seq<RowV>| #[trigger] decoded_rows::<Task>(rows, pairs@);
            lemma_pairs_to_tasks_decode(rows0, pairs@, v.deep_view());
            assert(tasks_from_rows(v.deep_view()));
        }
        Ok(v)
    }
}

} // verus!
