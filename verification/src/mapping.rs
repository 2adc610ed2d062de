//! The relational mapping contract: how each entity type describes its
//! table, turns an instance into ordered bound values, turns a result row
//! back into an instance, and translates its credential list into
//! predicate clauses.

use vstd::prelude::*;

use crate::entities::{Task, TaskView, User, UserSearchTerms, TaskSearchTerms, UserView};
use crate::sql::{
    col_of, join_commas, join_commas_exec, lemma_split_join_commas, split_commas,
    split_commas_exec, QueryValue, QueryValueV, RowData, RowV, SqlValue, SqlValueV,
};
use crate::store::Searchable;
use crate::StoreError;

verus! {

/// An entity type that can be relationally persisted: statement texts for
/// its table, an instance-to-bound-values mapping whose order matches the
/// insert statement's placeholders, and a row-to-instance reconstruction
/// that reads columns by name and applies the type's defaults for absent
/// columns.
pub trait SQLable: View + Sized {
    /// The full-table select text.
    spec fn select_spec() -> Seq<char>;

    /// The single-row insert text.
    spec fn insert_spec() -> Seq<char>;

    /// The table-creation text.
    spec fn create_spec() -> Seq<char>;

    /// The instance a row decodes to, or `None` where the row cannot be
    /// mapped back.
    spec fn of_row(r: RowV) -> Option<Self::V>;

    /// The ordered bound values of an instance, matching `insert_spec`'s
    /// placeholder order.
    spec fn binds_spec(v: Self::V) -> Seq<SqlValueV>;

    /// What is true of every instance some row can decode to — the shape
    /// the type's table can hold at all.
    spec fn decodable(v: Self::V) -> bool;

    /// Whatever the row, a decoded instance has the shape the table can
    /// hold.
    proof fn lemma_of_row_decodable(r: RowV)
        ensures
            Self::of_row(r) matches Some(v) ==> Self::decodable(v),
    ;

    fn select() -> (r: &'static str)
        ensures
            r@ == Self::select_spec(),
    ;

    fn insert() -> (r: &'static str)
        ensures
            r@ == Self::insert_spec(),
    ;

    fn create_table() -> (r: &'static str)
        ensures
            r@ == Self::create_spec(),
    ;

    fn bind(data: &Self) -> (r: Vec<SqlValue>)
        ensures
            r.deep_view() == Self::binds_spec(data@),
    ;

    fn from_row(row: &RowData) -> (r: Result<Self, StoreError>)
        ensures
            match r {
                Ok(t) => Self::of_row(row@) == Some(t@),
                Err(e) => Self::of_row(row@) is None && e matches StoreError::RowMapping,
            },
    ;
}

/// An entity type whose credential list can be folded into predicate
/// clauses: one `field = value` pair per credential, in list order.
pub trait SQLSearchable: Searchable + SQLable {
    /// The clause list a credential list translates to.
    spec fn query_spec(creds: Seq<Self::Credentials>) -> Seq<QueryValueV>;

    fn build_query(creds: &[Self::Credentials]) -> (r: Vec<QueryValue>)
        ensures
            r.deep_view() == Self::query_spec(creds@),
    ;
}

/// The completion flag a `done` cell decodes to: an absent column is the
/// default `false`, an integer cell is its truth value, anything else is a
/// mapping failure.
pub open spec fn task_done_of(c: Option<SqlValueV>) -> Option<bool> {
    match c {
        None => Some(false),
        Some(SqlValueV::Int(i)) => Some(i != 0),
        _ => None,
    }
}

/// The tag list a `tags` cell decodes to: an absent column or SQL NULL is
/// the default empty list, a text cell splits at its commas, anything else
/// is a mapping failure.
pub open spec fn task_tags_of(c: Option<SqlValueV>) -> Option<Seq<Seq<char>>> {
    match c {
        None => Some(Seq::empty()),
        Some(SqlValueV::Null) => Some(Seq::empty()),
        Some(SqlValueV::Text(s)) => Some(split_commas(s)),
        _ => None,
    }
}

/// The task a row decodes to. The table holds no due column, so a decoded
/// task never carries a due timestamp.
pub open spec fn task_of_row(r: RowV) -> Option<TaskView> {
    match col_of(r, "desc"@) {
        Some(SqlValueV::Text(d)) => match task_done_of(col_of(r, "done"@)) {
            Some(done) => match task_tags_of(col_of(r, "tags"@)) {
                Some(tags) => Some(TaskView { desc: d, tags, due: None, done }),
                None => None,
            },
            None => None,
        },
        _ => None,
    }
}

/// The `tags` cell an instance binds: NULL when the joined text is empty,
/// the joined text otherwise.
pub open spec fn tags_cell(tags: Seq<Seq<char>>) -> SqlValueV {
    if join_commas(tags).len() == 0 {
        SqlValueV::Null
    } else {
        SqlValueV::Text(join_commas(tags))
    }
}

impl SQLable for Task {
    open spec fn select_spec() -> Seq<char> {
        "SELECT * from tasks"@
    }

    open spec fn insert_spec() -> Seq<char> {
        "INSERT INTO tasks (desc, done, tags) VALUES (?, ?, ?)"@
    }

    open spec fn create_spec() -> Seq<char> {
        "CREATE TABLE tasks (id INTEGER PRIMARY KEY, desc TEXT NOT NULL, done BOOL NOT NULL, tags TEXT, owner INTEGER)"@
    }

    open spec fn of_row(r: RowV) -> Option<TaskView> {
        task_of_row(r)
    }

    open spec fn binds_spec(v: TaskView) -> Seq<SqlValueV> {
        seq![
            SqlValueV::Text(v.desc),
            SqlValueV::Int(if v.done { 1 } else { 0 }),
            tags_cell(v.tags),
        ]
    }

    open spec fn decodable(v: TaskView) -> bool {
        relational_task(v)
    }

    proof fn lemma_of_row_decodable(r: RowV) {
        lemma_task_of_row_relational(r);
    }

    fn select() -> (r: &'static str) {
        "SELECT * from tasks"
    }

    fn insert() -> (r: &'static str) {
        "INSERT INTO tasks (desc, done, tags) VALUES (?, ?, ?)"
    }

    fn create_table() -> (r: &'static str) {
        "CREATE TABLE tasks (id INTEGER PRIMARY KEY, desc TEXT NOT NULL, done BOOL NOT NULL, tags TEXT, owner INTEGER)"
    }

    fn bind(data: &Task) -> (r: Vec<SqlValue>) {
        let joined = join_commas_exec(&data.tags);
        let tags_v = if joined.as_str().is_empty() {
            SqlValue::Null
        } else {
            SqlValue::Text(joined)
        };
        let done_v: i64 = if data.done {
            1
        } else {
            0
        };
        let mut out: Vec<SqlValue> = Vec::new();
        out.push(SqlValue::Text(data.desc.clone()));
        out.push(SqlValue::Int(done_v));
        out.push(tags_v);
        proof {
            assert(out.deep_view() =~= Self::binds_spec(data@));
        }
        out
    }

    fn from_row(row: &RowData) -> (r: Result<Task, StoreError>) {
        let desc = match row.col("desc") {
            Some(SqlValue::Text(d)) => d,
            _ => {
                return Err(StoreError::RowMapping);
            },
        };
        let done = match row.col("done") {
            None => false,
            Some(SqlValue::Int(i)) => i != 0,
            _ => {
                return Err(StoreError::RowMapping);
            },
        };
        let tags = match row.col("tags") {
            None => Vec::new(),
            Some(SqlValue::Null) => Vec::new(),
            Some(SqlValue::Text(s)) => split_commas_exec(s.as_str()),
            _ => {
                return Err(StoreError::RowMapping);
            },
        };
        let t = Task { desc, tags, due: None, done };
        proof {
            assert(t.tags.deep_view() =~= task_tags_of(col_of(row@, "tags"@)).unwrap());
        }
        Ok(t)
    }
}

impl Searchable for User {
    type Credentials = UserSearchTerms;
}

impl Searchable for Task {
    type Credentials = TaskSearchTerms;
}

/// The user a row decodes to. A single row cannot carry the owned task
/// collection, so the decoded user holds no tasks yet; the relational
/// store attaches them with a secondary fetch keyed on the owner identity.
pub open spec fn user_of_row(r: RowV) -> Option<UserView> {
    match col_of(r, "name"@) {
        Some(SqlValueV::Text(n)) => Some(UserView { name: n, tasks: Seq::empty() }),
        _ => None,
    }
}

impl SQLable for User {
    open spec fn select_spec() -> Seq<char> {
        "SELECT * FROM users"@
    }

    open spec fn insert_spec() -> Seq<char> {
        "INSERT INTO users (name) VALUES (?)"@
    }

    open spec fn create_spec() -> Seq<char> {
        "CREATE TABLE users (id INTEGER PRIMARY KEY, name TEXT NOT NULL)"@
    }

    open spec fn of_row(r: RowV) -> Option<UserView> {
        user_of_row(r)
    }

    open spec fn binds_spec(v: UserView) -> Seq<SqlValueV> {
        seq![SqlValueV::Text(v.name)]
    }

    open spec fn decodable(v: UserView) -> bool {
        v.tasks.len() == 0
    }

    proof fn lemma_of_row_decodable(r: RowV) {
    }

    fn select() -> (r: &'static str) {
        "SELECT * FROM users"
    }

    fn insert() -> (r: &'static str) {
        "INSERT INTO users (name) VALUES (?)"
    }

    fn create_table() -> (r: &'static str) {
        "CREATE TABLE users (id INTEGER PRIMARY KEY, name TEXT NOT NULL)"
    }

    fn bind(data: &User) -> (r: Vec<SqlValue>) {
        let mut out: Vec<SqlValue> = Vec::new();
        out.push(SqlValue::Text(data.name.clone()));
        proof {
            assert(out.deep_view() =~= Self::binds_spec(data@));
        }
        out
    }

    fn from_row(row: &RowData) -> (r: Result<User, StoreError>) {
        match row.col("name") {
            Some(SqlValue::Text(n)) => {
                let u = User { name: n, tasks: Vec::new() };
                proof {
                    assert(u@.tasks =~= Seq::<TaskView>::empty());
                }
                Ok(u)
            },
            _ => Err(StoreError::RowMapping),
        }
    }
}

impl SQLSearchable for User {
    open spec fn query_spec(creds: Seq<UserSearchTerms>) -> Seq<QueryValueV> {
        creds.map_values(
            |c: UserSearchTerms|
                match c {
                    UserSearchTerms::Name(n) => QueryValueV {
                        field: "name"@,
                        value: SqlValueV::Text(n@),
                    },
                },
        )
    }

    fn build_query(creds: &[UserSearchTerms]) -> (r: Vec<QueryValue>) {
        let mut out: Vec<QueryValue> = Vec::new();
        let mut i: usize = 0;
        while i < creds.len()
            invariant
                0 <= i <= creds.len(),
                out.deep_view() =~= Self::query_spec(creds@.take(i as int)),
            decreases creds.len() - i,
        {
            let ghost old_out = out.deep_view();
            match &creds[i] {
                UserSearchTerms::Name(n) => {
                    let ghost nv = n@;
                    out.push(QueryValue { field: "name", value: SqlValue::Text(n.clone()) });
                    proof {
                        let q = QueryValueV { field: "name"@, value: SqlValueV::Text(nv) };
                        assert(out.deep_view() =~= old_out.push(q));
                        assert(creds@[i as int] == UserSearchTerms::Name(*n));
                        assert(Self::query_spec(creds@.take(i as int + 1)) =~= old_out.push(q));
                    }
                },
            }
            i += 1;
        }
        proof {
            assert(creds@.take(creds@.len() as int) =~= creds@);
        }
        out
    }
}

impl SQLSearchable for Task {
    open spec fn query_spec(creds: Seq<TaskSearchTerms>) -> Seq<QueryValueV> {
        creds.map_values(
            |c: TaskSearchTerms|
                match c {
                    TaskSearchTerms::Owner(id) => QueryValueV {
                        field: "owner"@,
                        value: SqlValueV::Int(id),
                    },
                },
        )
    }

    fn build_query(creds: &[TaskSearchTerms]) -> (r: Vec<QueryValue>) {
        let mut out: Vec<QueryValue> = Vec::new();
        let mut i: usize = 0;
        while i < creds.len()
            invariant
                0 <= i <= creds.len(),
                out.deep_view() =~= Self::query_spec(creds@.take(i as int)),
            decreases creds.len() - i,
        {
            let ghost old_out = out.deep_view();
            match &creds[i] {
                TaskSearchTerms::Owner(id) => {
                    out.push(QueryValue { field: "owner", value: SqlValue::Int(*id) });
                    proof {
                        let q = QueryValueV { field: "owner"@, value: SqlValueV::Int(*id) };
                        assert(out.deep_view() =~= old_out.push(q));
                        assert(creds@[i as int] == TaskSearchTerms::Owner(*id));
                        assert(Self::query_spec(creds@.take(i as int + 1)) =~= old_out.push(q));
                    }
                },
            }
            i += 1;
        }
        proof {
            assert(creds@.take(creds@.len() as int) =~= creds@);
        }
        out
    }
}

/// The insert text for a task owned by a user, binding the owner identity
/// as a fourth value after the task's own three.
pub open spec fn insert_owned_spec() -> Seq<char> {
    "INSERT INTO tasks (desc, done, tags, owner) VALUES (?, ?, ?, ?)"@
}

/// The single-row insert for a task together with its owner reference.
pub fn task_insert_owned() -> (r: &'static str)
    ensures
        r@ == insert_owned_spec(),
{
    "INSERT INTO tasks (desc, done, tags, owner) VALUES (?, ?, ?, ?)"
}

/// What is true of every task the relational store can hand back: the
/// task table holds no due column, and tags come through a comma-joined
/// column, so no returned tag can hold a comma.
pub open spec fn relational_task(t: TaskView) -> bool {
    &&& t.due is None
    &&& forall|i: int| 0 <= i < t.tags.len() ==> !(#[trigger] t.tags[i]).contains(',')
}

/// What is true of every user the relational store can hand back: each
/// attached task is one the task table can hold.
pub open spec fn relational_user(u: UserView) -> bool {
    forall|i: int| 0 <= i < u.tasks.len() ==> relational_task(#[trigger] u.tasks[i])
}

/// Whatever row a task decodes from, the decoded task is one the task
/// table can hold.
pub proof fn lemma_task_of_row_relational(r: RowV)
    ensures
        task_of_row(r) matches Some(t) ==> relational_task(t),
{
    if task_of_row(r) is Some {
        let t = task_of_row(r).unwrap();
        match col_of(r, "tags"@) {
            Some(SqlValueV::Text(s)) => {
                crate::sql::lemma_split_commas_fragments(s);
            },
            _ => {},
        }
    }
}

/// The row shape a `SELECT * from tasks` returns for a stored task, given
/// our schema: id, desc, done, tags, owner.
pub open spec fn task_row(t: TaskView, id: i64, owner: SqlValueV) -> RowV {
    RowV {
        names: seq!["id"@, "desc"@, "done"@, "tags"@, "owner"@],
        values: seq![
            SqlValueV::Int(id),
            SqlValueV::Text(t.desc),
            SqlValueV::Int(if t.done { 1 } else { 0 }),
            tags_cell(t.tags),
            owner,
        ],
    }
}

/// The row shape a `SELECT * FROM users` returns for a stored user, given
/// our schema: id, name.
pub open spec fn user_row(name: Seq<char>, id: i64) -> RowV {
    RowV { names: seq!["id"@, "name"@], values: seq![SqlValueV::Int(id), SqlValueV::Text(name)] }
}

/// Law: a task decodes from the row it was encoded into unchanged — except
/// the due timestamp, which the task table does not hold. The tags must be
/// comma-free, and a non-empty tag list must not join to the empty text
/// (a lone empty tag does), for the comma-joined tags column to decode to
/// the same list.
pub proof fn lemma_task_row_round_trip(t: TaskView, id: i64, owner: SqlValueV)
    requires
        forall|i: int| 0 <= i < t.tags.len() ==> !(#[trigger] t.tags[i]).contains(','),
        t.tags.len() > 0 ==> join_commas(t.tags).len() > 0,
    ensures
        task_of_row(task_row(t, id, owner)) == Some(TaskView { due: None, ..t }),
{
    let r = task_row(t, id, owner);
    reveal_strlit("id");
    reveal_strlit("desc");
    reveal_strlit("done");
    reveal_strlit("tags");
    reveal_strlit("owner");
    reveal_with_fuel(crate::sql::spec_col_from, 7);
    assert("id"@.len() == 2 && "desc"@.len() == 4 && "done"@.len() == 4 && "tags"@.len() == 4);
    assert("desc"@[1] != "done"@[1]);
    assert(col_of(r, "desc"@) == Some(SqlValueV::Text(t.desc)));
    assert(col_of(r, "done"@) == Some(r.values[2]));
    assert(col_of(r, "tags"@) == Some(tags_cell(t.tags)));
    if t.tags.len() == 0 {
        assert(task_tags_of(Some(tags_cell(t.tags))) == Some(t.tags));
    } else {
        lemma_split_join_commas(t.tags);
        assert(task_tags_of(Some(tags_cell(t.tags))) == Some(t.tags));
    }
}

/// Law: a user decodes from the row it was encoded into with its name
/// unchanged and no tasks attached yet.
pub proof fn lemma_user_row_round_trip(name: Seq<char>, id: i64)
    ensures
        user_of_row(user_row(name, id)) == Some(UserView { name, tasks: Seq::empty() }),
{
    let r = user_row(name, id);
    reveal_strlit("id");
    reveal_strlit("name");
    reveal_with_fuel(crate::sql::spec_col_from, 4);
    assert("id"@.len() == 2 && "name"@.len() == 4);
    assert(col_of(r, "name"@) == Some(SqlValueV::Text(name)));
}

} // verus!
