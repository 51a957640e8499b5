//! What a query of the user gives, as it is shown.

use vstd::prelude::*;

use crate::json::{copy_number, Json, JsonView};
use crate::number::u64_text;
use crate::output::{render, Format};
use crate::sql::{plain_statement, Row, SqlValue, SqlView, Statement, StatementView};
use crate::text::{cat, cat3};
use crate::{json, number, output};

verus! {

// ---- values ------------------------------------------------------------------------
/// A value as JSON. Of a blob only the size is shown.
pub open spec fn value_json(v: SqlView) -> JsonView {
    match v {
        SqlView::Null => JsonView::Null,
        SqlView::Integer(n) => JsonView::Int(n),
        SqlView::Real(v) => v,
        SqlView::Text(s) => JsonView::Str(s),
        SqlView::Blob(b) => JsonView::Str(
            "<blob "@ + number::nat_text(b.len()) + " bytes>"@,
        ),
    }
}

/// A value as JSON. Of a blob only the size is shown.
pub fn rusqlite_to_json(val: &SqlValue) -> (r: Json)
    ensures
        r.deep_view() == value_json(val.deep_view()),
{
    match val {
        SqlValue::Null => Json::Null,
        SqlValue::Integer(n) => Json::Int(*n),
        SqlValue::Real(n) => Json::Number(copy_number(n)),
        SqlValue::Text(s) => Json::Str(s.clone()),
        SqlValue::Blob(b) => {
            let n: String = u64_text(b.len() as u64);
            Json::Str(cat3("<blob ", n.as_str(), " bytes>"))
        },
    }
}

// ---- rows --------------------------------------------------------------------------
/// The first `n` columns of a row by name. Of two columns with one name the later one
/// counts.
pub open spec fn columns_by_name(
    columns: Seq<Seq<char>>,
    row: Seq<SqlView>,
    n: nat,
) -> Map<Seq<char>, JsonView>
    decreases n,
{
    if n == 0 {
        Map::empty()
    } else {
        columns_by_name(columns, row, (n - 1) as nat).insert(columns[n - 1], value_json(row[n - 1]))
    }
}

/// A row as an object. A row that does not have all columns is none.
pub open spec fn row_json(columns: Seq<Seq<char>>, row: Seq<SqlView>) -> Option<JsonView> {
    if row.len() < columns.len() {
        None
    } else {
        Some(JsonView::Object(columns_by_name(columns, row, columns.len())))
    }
}

/// Rows as objects, without those that do not have all columns.
pub open spec fn rows_json(columns: Seq<Seq<char>>, rows: Seq<Seq<SqlView>>) -> Seq<JsonView>
    decreases rows.len(),
{
    if rows.len() == 0 {
        Seq::empty()
    } else {
        let before = rows_json(columns, rows.drop_last());
        match row_json(columns, rows.last()) {
            Some(v) => before.push(v),
            None => before,
        }
    }
}

fn row_object(columns: &Vec<String>, row: &Row) -> (r: Option<Json>)
    ensures
        r.deep_view() == row_json(columns.deep_view(), row.deep_view()),
{
    if row.len() < columns.len() {
        return None;
    }
    let ghost names = columns.deep_view();
    let ghost values = row.deep_view();
    let mut members: Vec<(String, Json)> = Vec::new();
    let mut i: usize = 0;
    assert(json::members_view(members@) =~= columns_by_name(names, values, 0));
    while i < columns.len()
        invariant
            i <= columns.len() <= row.len(),
            names == columns.deep_view(),
            values == row.deep_view(),
            json::members_view(members@) == columns_by_name(names, values, i as nat),
        decreases columns.len() - i,
    {
        let ghost before = members@;
        members.push((columns[i].clone(), rusqlite_to_json(&row[i])));
        assert(members@.drop_last() =~= before);
        i += 1;
    }
    Some(Json::Object(members))
}

fn row_objects(columns: &Vec<String>, rows: &Vec<Row>) -> (r: Vec<Json>)
    ensures
        r.deep_view() == rows_json(columns.deep_view(), rows.deep_view()),
{
    let ghost names = columns.deep_view();
    let ghost all = rows.deep_view();
    let mut out: Vec<Json> = Vec::new();
    let mut i: usize = 0;
    assert(all.take(0) =~= Seq::empty());
    assert(out.deep_view() =~= Seq::<JsonView>::empty());
    while i < rows.len()
        invariant
            i <= rows.len(),
            names == columns.deep_view(),
            all == rows.deep_view(),
            out.deep_view() == rows_json(names, all.take(i as int)),
        decreases rows.len() - i,
    {
        proof {
            assert(all.take(i + 1).drop_last() =~= all.take(i as int));
            assert(all.take(i + 1).last() == rows@[i as int].deep_view());
        }
        if let Some(v) = row_object(columns, &rows[i]) {
            let ghost before = out.deep_view();
            out.push(v);
            assert(out.deep_view() =~= before.push(v.deep_view()));
        }
        i += 1;
    }
    assert(all.take(i as int) =~= all);
    out
}

/// What a query gave, with the names of its columns, as it is shown. There is nothing to show
/// where a cell of a table would have to be cut within a character.
pub fn query_raw(columns: &Vec<String>, rows: &Vec<Row>, format: Format) -> (r: Option<String>)
    ensures
        ({
            let names = columns.deep_view();
            let objects = rows_json(names, rows.deep_view());
            match r {
                Some(t) => output::can_show(objects, names, format) && t@ == output::shown(
                    objects,
                    names,
                    format,
                ),
                None => !output::can_show(objects, names, format),
            }
        }),
{
    let objects: Vec<Json> = row_objects(columns, rows);
    render(&objects, columns, format)
}

/// The query for all that a view holds.
pub open spec fn whole_view(view: Seq<char>) -> StatementView {
    StatementView { sql: "SELECT * FROM "@ + view, params: Seq::empty() }
}

/// The query for all that a view holds.
pub fn query_view(view: &str) -> (r: Statement)
    ensures
        r.deep_view() == whole_view(view@),
{
    let sql: String = cat("SELECT * FROM ", view);
    plain_statement(sql.as_str())
}

/// A row that has all columns is shown with the value of each of them, where no two columns
/// have one name.
pub proof fn every_column_is_shown(columns: Seq<Seq<char>>, row: Seq<SqlView>, i: int)
    requires
        columns.len() <= row.len(),
        columns.no_duplicates(),
        0 <= i < columns.len(),
    ensures
        row_json(columns, row) matches Some(object) && object.get(columns[i]) == Some(
            value_json(row[i]),
        ),
{
    lemma_column(columns, row, i, columns.len());
}

proof fn lemma_column(columns: Seq<Seq<char>>, row: Seq<SqlView>, i: int, n: nat)
    requires
        columns.no_duplicates(),
        0 <= i < n <= columns.len() <= row.len(),
    ensures
        columns_by_name(columns, row, n).dom().contains(columns[i]),
        columns_by_name(columns, row, n)[columns[i]] == value_json(row[i]),
    decreases n,
{
    if i < n - 1 {
        lemma_column(columns, row, i, (n - 1) as nat);
    }
}

} // verus!
