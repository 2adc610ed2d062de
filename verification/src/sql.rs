//! Plain-value modelling of SQL data and the dynamic query builder.
//!
//! A bound parameter or a result cell is a [`SqlValue`]; a result row is a
//! [`RowData`], columns addressed by name. The query builder folds an
//! ordered credential list into the exact statement text the relational
//! backend executes: `SELECT ... [WHERE f = (?) [AND g = (?) ...]] [LIMIT n]`.

use vstd::prelude::*;
use vstd::string::StringExecFns;

verus! {

/// Mathematical value of a [`SqlValue`].
pub enum SqlValueV {
    Null,
    Int(i64),
    Text(Seq<char>),
}

/// A single SQL-typed plain value: NULL, an integer, or text. The tables of
/// this library use no other SQLite type.
#[derive(Debug)]
pub enum SqlValue {
    Null,
    Int(i64),
    Text(String),
}

impl View for SqlValue {
    type V = SqlValueV;

    open spec fn view(&self) -> SqlValueV {
        match self {
            SqlValue::Null => SqlValueV::Null,
            SqlValue::Int(i) => SqlValueV::Int(*i),
            SqlValue::Text(s) => SqlValueV::Text(s@),
        }
    }
}

impl DeepView for SqlValue {
    type V = SqlValueV;

    open spec fn deep_view(&self) -> SqlValueV {
        self@
    }
}

impl Clone for SqlValue {
    fn clone(&self) -> (res: Self)
        ensures
            res@ == self@,
    {
        match self {
            SqlValue::Null => SqlValue::Null,
            SqlValue::Int(i) => SqlValue::Int(*i),
            SqlValue::Text(s) => SqlValue::Text(s.clone()),
        }
    }
}

/// Mathematical value of a [`QueryValue`].
pub struct QueryValueV {
    pub field: Seq<char>,
    pub value: SqlValueV,
}

/// One equality predicate of a dynamic query: a column name, drawn only
/// from a type's fixed credential enumeration, and the value it must equal.
#[derive(Debug)]
pub struct QueryValue {
    pub field: &'static str,
    pub value: SqlValue,
}

impl View for QueryValue {
    type V = QueryValueV;

    open spec fn view(&self) -> QueryValueV {
        QueryValueV { field: self.field@, value: self.value@ }
    }
}

impl DeepView for QueryValue {
    type V = QueryValueV;

    open spec fn deep_view(&self) -> QueryValueV {
        self@
    }
}

/// The column names of a credential list, in order.
pub open spec fn fields_of(qs: Seq<QueryValueV>) -> Seq<Seq<char>> {
    qs.map_values(|q: QueryValueV| q.field)
}

/// The bound values of a credential list, in order.
pub open spec fn values_of(qs: Seq<QueryValueV>) -> Seq<SqlValueV> {
    qs.map_values(|q: QueryValueV| q.value)
}

/// Mathematical value of a [`RowData`].
pub struct RowV {
    pub names: Seq<Seq<char>>,
    pub values: Seq<SqlValueV>,
}

/// One result row as plain values: the column names as the statement
/// returned them, and the cell values in the same order.
#[derive(Debug)]
pub struct RowData {
    pub names: Vec<String>,
    pub values: Vec<SqlValue>,
}

impl View for RowData {
    type V = RowV;

    open spec fn view(&self) -> RowV {
        RowV { names: self.names.deep_view(), values: self.values.deep_view() }
    }
}

impl DeepView for RowData {
    type V = RowV;

    open spec fn deep_view(&self) -> RowV {
        self@
    }
}

/// The cell under the first column named `name` at or after position `i`,
/// if both the name and a value at its position exist.
pub open spec fn spec_col_from(r: RowV, name: Seq<char>, i: int) -> Option<SqlValueV>
    decreases r.names.len() - i,
{
    if i < 0 || i >= r.names.len() || i >= r.values.len() {
        None
    } else if r.names[i] == name {
        Some(r.values[i])
    } else {
        spec_col_from(r, name, i + 1)
    }
}

/// The cell under the first column named `name`, or `None` if the row has
/// no such column.
pub open spec fn col_of(r: RowV, name: Seq<char>) -> Option<SqlValueV> {
    spec_col_from(r, name, 0)
}

impl RowData {
    /// Read one cell by column name — never by position.
    pub fn col(&self, name: &str) -> (r: Option<SqlValue>)
        ensures
            match r {
                Some(v) => col_of(self@, name@) == Some(v@),
                None => col_of(self@, name@) is None,
            },
    {
        let target = name.to_owned();
        let n = if self.names.len() <= self.values.len() {
            self.names.len()
        } else {
            self.values.len()
        };
        let mut i: usize = 0;
        while i < n
            invariant
                0 <= i <= n,
                n <= self.names.len(),
                n <= self.values.len(),
                n == self.names.len() || n == self.values.len(),
                target@ == name@,
                col_of(self@, name@) == spec_col_from(self@, name@, i as int),
            decreases n - i,
        {
            if self.names[i].eq(&target) {
                return Some(self.values[i].clone());
            }
            i += 1;
        }
        None
    }
}

/// Position of the first comma, or the length if there is none.
pub open spec fn first_comma(s: Seq<char>) -> int
    decreases s.len(),
{
    if s.len() == 0 {
        0
    } else if s[0] == ',' {
        0
    } else {
        1 + first_comma(s.drop_first())
    }
}

pub proof fn lemma_first_comma(s: Seq<char>)
    ensures
        0 <= first_comma(s) <= s.len(),
        forall|j: int| 0 <= j < first_comma(s) ==> s[j] != ',',
        first_comma(s) < s.len() ==> s[first_comma(s)] == ',',
    decreases s.len(),
{
    if s.len() == 0 {
    } else if s[0] == ',' {
    } else {
        lemma_first_comma(s.drop_first());
        assert forall|j: int| 0 <= j < first_comma(s) implies s[j] != ',' by {
            if j > 0 {
                assert(s.drop_first()[j - 1] == s[j]);
                assert(s.drop_first()[j - 1] != ',');
            }
        }
    }
}

/// `first_comma` is pinned down by its characterisation.
pub proof fn lemma_first_comma_at(s: Seq<char>, k: int)
    requires
        0 <= k <= s.len(),
        forall|j: int| 0 <= j < k ==> s[j] != ',',
        k < s.len() ==> s[k] == ',',
    ensures
        first_comma(s) == k,
    decreases s.len(),
{
    if s.len() == 0 {
    } else if s[0] == ',' {
        assert(k == 0);
    } else {
        assert(k != 0);
        lemma_first_comma_at(s.drop_first(), k - 1);
    }
}

/// The comma-separated fragments of `s`, in order. An empty text is one
/// empty fragment, matching how the split of a text joins back.
pub open spec fn split_commas(s: Seq<char>) -> Seq<Seq<char>>
    decreases s.len(),
    via split_commas_decreases
{
    if first_comma(s) >= s.len() {
        seq![s]
    } else {
        seq![s.take(first_comma(s))] + split_commas(s.skip(first_comma(s) + 1))
    }
}

#[via_fn]
proof fn split_commas_decreases(s: Seq<char>) {
    lemma_first_comma(s);
}

/// The fragments joined back with one comma between each two.
pub open spec fn join_commas(ts: Seq<Seq<char>>) -> Seq<char>
    decreases ts.len(),
{
    if ts.len() == 0 {
        Seq::empty()
    } else if ts.len() == 1 {
        ts[0]
    } else {
        ts[0] + seq![','] + join_commas(ts.drop_first())
    }
}

pub proof fn lemma_join_push(ts: Seq<Seq<char>>, t: Seq<char>)
    ensures
        join_commas(ts.push(t)) == if ts.len() == 0 {
            t
        } else {
            join_commas(ts) + seq![','] + t
        },
    decreases ts.len(),
{
    if ts.len() == 0 {
        assert(join_commas(ts.push(t)) == ts.push(t)[0]);
        assert(ts.push(t)[0] == t);
    } else if ts.len() == 1 {
        assert(ts.push(t).drop_first() =~= seq![t]);
        assert(ts.push(t)[0] == ts[0]);
        assert(join_commas(seq![t]) == seq![t][0]);
        assert(seq![t][0] == t);
        assert(join_commas(ts.push(t)) == ts[0] + seq![','] + t);
        assert(join_commas(ts) == ts[0]);
    } else {
        lemma_join_push(ts.drop_first(), t);
        assert(ts.push(t).drop_first() =~= ts.drop_first().push(t));
        assert(join_commas(ts.push(t)) == ts[0] + seq![','] + (join_commas(ts.drop_first())
            + seq![','] + t));
        assert(ts[0] + seq![','] + (join_commas(ts.drop_first()) + seq![','] + t) =~= (ts[0]
            + seq![','] + join_commas(ts.drop_first())) + seq![','] + t);
    }
}

/// Splitting a joined fragment list gives the list back, as long as no
/// fragment holds a comma of its own. (A joined text that came out empty is
/// the one case a caller must treat separately: it decodes as one empty
/// fragment.)
pub proof fn lemma_split_join_commas(ts: Seq<Seq<char>>)
    requires
        ts.len() > 0,
        forall|i: int| 0 <= i < ts.len() ==> !(#[trigger] ts[i]).contains(','),
    ensures
        split_commas(join_commas(ts)) == ts,
    decreases ts.len(),
{
    let s = join_commas(ts);
    if ts.len() == 1 {
        assert(s == ts[0]);
        assert(forall|j: int| 0 <= j < s.len() ==> s[j] != ',') by {
            assert(forall|j: int| 0 <= j < ts[0].len() ==> ts[0][j] != ',') by {
                assert(!ts[0].contains(','));
                assert(forall|j: int| 0 <= j < ts[0].len() ==> ts[0].contains(#[trigger] ts[0][j]));
            }
        }
        lemma_first_comma_at(s, s.len() as int);
        assert(split_commas(s) =~= seq![ts[0]]);
        assert(seq![ts[0]] =~= ts);
    } else {
        let rest = ts.drop_first();
        let t0 = ts[0];
        assert(s == t0 + seq![','] + join_commas(rest));
        assert(forall|j: int| 0 <= j < t0.len() ==> s[j] != ',') by {
            assert(!t0.contains(','));
            assert(forall|j: int| 0 <= j < t0.len() ==> t0.contains(#[trigger] t0[j]));
            assert(forall|j: int| 0 <= j < t0.len() ==> s[j] == t0[j]);
        }
        assert(s[t0.len() as int] == ',');
        lemma_first_comma_at(s, t0.len() as int);
        assert(s.take(t0.len() as int) =~= t0);
        assert(s.skip(t0.len() as int + 1) =~= join_commas(rest));
        assert(forall|i: int| 0 <= i < rest.len() ==> !(#[trigger] rest[i]).contains(',')) by {
            assert(forall|i: int| 0 <= i < rest.len() ==> rest[i] == ts[i + 1]);
        }
        lemma_split_join_commas(rest);
        assert(split_commas(s) == seq![t0] + rest);
        assert(seq![t0] + rest =~= ts);
    }
}

/// Every fragment of a split is comma-free.
pub proof fn lemma_split_commas_fragments(s: Seq<char>)
    ensures
        forall|i: int|
            0 <= i < split_commas(s).len() ==> !(#[trigger] split_commas(s)[i]).contains(','),
    decreases s.len(),
{
    lemma_first_comma(s);
    let k = first_comma(s);
    if k >= s.len() {
        assert forall|i: int|
            0 <= i < split_commas(s).len() implies !(#[trigger] split_commas(s)[i]).contains(
            ',',
        ) by {
            assert(split_commas(s)[i] == s);
            if s.contains(',') {
                let j = choose|j: int| 0 <= j < s.len() && s[j] == ',';
                assert(false);
            }
        }
    } else {
        lemma_split_commas_fragments(s.skip(k + 1));
        let head = s.take(k);
        assert forall|i: int|
            0 <= i < split_commas(s).len() implies !(#[trigger] split_commas(s)[i]).contains(
            ',',
        ) by {
            if i == 0 {
                assert(split_commas(s)[0] == head);
                if head.contains(',') {
                    let j = choose|j: int| 0 <= j < head.len() && head[j] == ',';
                    assert(s[j] == ',');
                    assert(false);
                }
            } else {
                assert(split_commas(s)[i] == split_commas(s.skip(k + 1))[i - 1]);
            }
        }
    }
}

/// Split a text at its commas. The empty text gives one empty fragment.
pub fn split_commas_exec(s: &str) -> (r: Vec<String>)
    ensures
        r.deep_view() == split_commas(s@),
{
    let n = s.unicode_len();
    let mut parts: Vec<String> = Vec::new();
    let mut start: usize = 0;
    let mut i: usize = 0;
    proof {
        assert(s@.skip(0) =~= s@);
        assert(parts.deep_view() =~= Seq::<Seq<char>>::empty());
        assert(Seq::<Seq<char>>::empty() + split_commas(s@) =~= split_commas(s@));
    }
    while i < n
        invariant
            0 <= start <= i <= n,
            n == s@.len(),
            forall|j: int| start <= j < i ==> s@[j] != ',',
            split_commas(s@) == parts.deep_view() + split_commas(s@.skip(start as int)),
        decreases n - i,
    {
        let c = s.get_char(i);
        if c == ',' {
            let part = s.substring_char(start, i);
            let ghost old_parts = parts.deep_view();
            parts.push(part.to_owned());
            proof {
                let tail = s@.skip(start as int);
                assert(forall|j: int| 0 <= j < tail.len() ==> tail[j] == s@[start + j]);
                lemma_first_comma_at(tail, i - start);
                assert(tail.take(i - start) =~= s@.subrange(start as int, i as int));
                assert(tail.skip(i - start + 1) =~= s@.skip(i as int + 1));
                assert(split_commas(tail) == seq![s@.subrange(start as int, i as int)]
                    + split_commas(s@.skip(i as int + 1)));
                assert(parts.deep_view() =~= old_parts.push(s@.subrange(start as int, i as int)));
                assert(old_parts + (seq![s@.subrange(start as int, i as int)] + split_commas(
                    s@.skip(i as int + 1),
                )) =~= parts.deep_view() + split_commas(s@.skip(i as int + 1)));
            }
            start = i + 1;
        }
        i += 1;
    }
    let last = s.substring_char(start, n);
    let ghost old_parts = parts.deep_view();
    parts.push(last.to_owned());
    proof {
        let tail = s@.skip(start as int);
        assert(forall|j: int| 0 <= j < tail.len() ==> tail[j] == s@[start + j]);
        lemma_first_comma_at(tail, tail.len() as int);
        assert(split_commas(tail) == seq![tail]);
        assert(tail =~= s@.subrange(start as int, n as int));
        assert(parts.deep_view() =~= old_parts.push(tail));
        assert(old_parts + seq![tail] =~= parts.deep_view());
    }
    parts
}

/// Join fragments with one comma between each two.
pub fn join_commas_exec(tags: &Vec<String>) -> (r: String)
    ensures
        r@ == join_commas(tags.deep_view()),
{
    let mut out = String::new();
    let mut i: usize = 0;
    while i < tags.len()
        invariant
            0 <= i <= tags.len(),
            out@ == join_commas(tags.deep_view().take(i as int)),
        decreases tags.len() - i,
    {
        if i > 0 {
            out.append(",");
        }
        out.append(tags[i].as_str());
        proof {
            reveal_strlit(",");
            assert(","@ =~= seq![',']);
            lemma_join_push(tags.deep_view().take(i as int), tags.deep_view()[i as int]);
            assert(tags.deep_view().take(i as int + 1) =~= tags.deep_view().take(
                i as int,
            ).push(tags.deep_view()[i as int]));
        }
        i += 1;
    }
    proof {
        assert(tags.deep_view().take(tags@.len() as int) =~= tags.deep_view());
    }
    out
}

/// The decimal digits of `n`, most significant first.
pub open spec fn dec_digits(n: nat) -> Seq<char>
    decreases n,
{
    if n < 10 {
        seq![digit_char(n)]
    } else {
        dec_digits(n / 10).push(digit_char(n % 10))
    }
}

/// The character of one decimal digit.
pub open spec fn digit_char(d: nat) -> char {
    if d == 0 {
        '0'
    } else if d == 1 {
        '1'
    } else if d == 2 {
        '2'
    } else if d == 3 {
        '3'
    } else if d == 4 {
        '4'
    } else if d == 5 {
        '5'
    } else if d == 6 {
        '6'
    } else if d == 7 {
        '7'
    } else if d == 8 {
        '8'
    } else {
        '9'
    }
}

/// Append the decimal form of `n`.
pub fn push_u32_decimal(out: &mut String, n: u32)
    ensures
        final(out)@ == old(out)@ + dec_digits(n as nat),
    decreases n,
{
    if n >= 10 {
        push_u32_decimal(out, n / 10);
    }
    let d = n % 10;
    match d {
        0 => out.append("0"),
        1 => out.append("1"),
        2 => out.append("2"),
        3 => out.append("3"),
        4 => out.append("4"),
        5 => out.append("5"),
        6 => out.append("6"),
        7 => out.append("7"),
        8 => out.append("8"),
        9 => out.append("9"),
        _ => {
            proof {
                assert(false);
            }
        },
    }
    proof {
        reveal_strlit("0");
        reveal_strlit("1");
        reveal_strlit("2");
        reveal_strlit("3");
        reveal_strlit("4");
        reveal_strlit("5");
        reveal_strlit("6");
        reveal_strlit("7");
        reveal_strlit("8");
        reveal_strlit("9");
        assert(out@ =~= old(out)@ + dec_digits(n as nat));
    }
}

/// The text of one equality predicate: ` field = (?)`.
pub open spec fn clause_text(field: Seq<char>) -> Seq<char> {
    " "@ + field + " = (?)"@
}

/// The predicate clauses joined with ` AND`, in list order.
pub open spec fn anded_clauses(fields: Seq<Seq<char>>) -> Seq<char>
    decreases fields.len(),
{
    if fields.len() == 0 {
        Seq::empty()
    } else if fields.len() == 1 {
        clause_text(fields[0])
    } else {
        clause_text(fields[0]) + " AND"@ + anded_clauses(fields.drop_first())
    }
}

/// The WHERE part: empty for an empty credential list.
pub open spec fn where_text(fields: Seq<Seq<char>>) -> Seq<char> {
    if fields.len() == 0 {
        Seq::empty()
    } else {
        " WHERE"@ + anded_clauses(fields)
    }
}

/// The LIMIT part: empty when no cap was requested.
pub open spec fn limit_text(limit: Option<u32>) -> Seq<char> {
    match limit {
        None => Seq::empty(),
        Some(n) => " LIMIT "@ + dec_digits(n as nat),
    }
}

/// The full statement text of a dynamic query.
pub open spec fn query_text(select: Seq<char>, fields: Seq<Seq<char>>, limit: Option<u32>) -> Seq<
    char,
> {
    select + where_text(fields) + limit_text(limit)
}

pub proof fn lemma_anded_push(fields: Seq<Seq<char>>, f: Seq<char>)
    ensures
        anded_clauses(fields.push(f)) == if fields.len() == 0 {
            clause_text(f)
        } else {
            anded_clauses(fields) + " AND"@ + clause_text(f)
        },
    decreases fields.len(),
{
    if fields.len() == 0 {
        assert(fields.push(f)[0] == f);
    } else if fields.len() == 1 {
        assert(fields.push(f).drop_first() =~= seq![f]);
        assert(fields.push(f)[0] == fields[0]);
        assert(anded_clauses(seq![f]) == clause_text(seq![f][0]));
        assert(seq![f][0] == f);
        assert(anded_clauses(fields.push(f)) == clause_text(fields[0]) + " AND"@ + clause_text(f));
    } else {
        lemma_anded_push(fields.drop_first(), f);
        assert(fields.push(f).drop_first() =~= fields.drop_first().push(f));
        assert(anded_clauses(fields.push(f)) == clause_text(fields[0]) + " AND"@ + (anded_clauses(
            fields.drop_first(),
        ) + " AND"@ + clause_text(f)));
        assert(clause_text(fields[0]) + " AND"@ + (anded_clauses(fields.drop_first()) + " AND"@
            + clause_text(f)) =~= (clause_text(fields[0]) + " AND"@ + anded_clauses(
            fields.drop_first(),
        )) + " AND"@ + clause_text(f));
    }
}

/// Build the exact statement text of a dynamic query: the type's full
/// select, one ` field = (?)` clause per credential joined by ` AND` in
/// list order, and a trailing ` LIMIT n` when a cap was requested.
pub fn build_query_sql(select: &str, creds: &Vec<QueryValue>, limit: Option<u32>) -> (r: String)
    ensures
        r@ == query_text(select@, fields_of(creds.deep_view()), limit),
{
    let ghost fields = fields_of(creds.deep_view());
    let mut sql = select.to_owned();
    if creds.len() > 0 {
        sql.append(" WHERE");
    }
    let mut i: usize = 0;
    while i < creds.len()
        invariant
            0 <= i <= creds.len(),
            fields == fields_of(creds.deep_view()),
            fields.len() == creds.len(),
            creds.len() == 0 ==> sql@ == select@,
            creds.len() > 0 ==> sql@ == select@ + (" WHERE"@ + anded_clauses(fields.take(
                i as int,
            ))),
        decreases creds.len() - i,
    {
        if i > 0 {
            sql.append(" AND");
        }
        sql.append(" ");
        sql.append(creds[i].field);
        sql.append(" = (?)");
        proof {
            assert(creds.deep_view()[i as int].field == creds[i as int].field@);
            lemma_anded_push(fields.take(i as int), fields[i as int]);
            assert(fields.take(i as int + 1) =~= fields.take(i as int).push(fields[i as int]));
            assert(sql@ =~= select@ + (" WHERE"@ + anded_clauses(fields.take(i as int + 1))));
        }
        i += 1;
    }
    proof {
        assert(fields.take(creds@.len() as int) =~= fields);
    }
    match limit {
        Some(n) => {
            sql.append(" LIMIT ");
            push_u32_decimal(&mut sql, n);
            proof {
                assert(sql@ =~= query_text(select@, fields, limit));
            }
        },
        None => {
            proof {
                assert(sql@ =~= query_text(select@, fields, limit));
            }
        },
    }
    sql
}

/// The bound values of a credential list, in clause order.
pub fn query_params(creds: &Vec<QueryValue>) -> (r: Vec<SqlValue>)
    ensures
        r.deep_view() == values_of(creds.deep_view()),
{
    let mut out: Vec<SqlValue> = Vec::new();
    let mut i: usize = 0;
    while i < creds.len()
        invariant
            0 <= i <= creds.len(),
            out.deep_view() =~= values_of(creds.deep_view()).take(i as int),
        decreases creds.len() - i,
    {
        out.push(creds[i].value.clone());
        proof {
            let vals = values_of(creds.deep_view());
            assert(vals[i as int] == creds.deep_view()[i as int].value);
            assert(out.deep_view() =~= vals.take(i as int).push(vals[i as int]));
            assert(vals.take(i as int + 1) =~= vals.take(i as int).push(vals[i as int]));
        }
        i += 1;
    }
    proof {
        assert(values_of(creds.deep_view()).take(creds@.len() as int) =~= values_of(
            creds.deep_view(),
        ));
    }
    out
}

} // verus!
