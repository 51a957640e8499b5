//! SQL statements and the rows that they give: what goes to the database and what comes
//! back, as plain values.

use vstd::prelude::*;

use crate::json::{parse, Json, JsonView};
use crate::text::{cat3, chars_of};
use crate::json;

verus! {

/// A value that a statement binds or a row holds.
pub enum SqlValue {
    Null,
    Integer(i64),
    /// A number that is no integer.
    Real(serde_json::Number),
    Text(String),
    Blob(Vec<u8>),
}

/// What a value is.
pub enum SqlView {
    Null,
    Integer(i64),
    Real(JsonView),
    Text(Seq<char>),
    Blob(Seq<u8>),
}

impl DeepView for SqlValue {
    type V = SqlView;

    open spec fn deep_view(&self) -> SqlView {
        match self {
            SqlValue::Null => SqlView::Null,
            SqlValue::Integer(n) => SqlView::Integer(*n),
            SqlValue::Real(n) => SqlView::Real(json::number_view(*n)),
            SqlValue::Text(s) => SqlView::Text(s@),
            SqlValue::Blob(b) => SqlView::Blob(b@),
        }
    }
}

/// A statement with the values for its parameters, in their order.
pub struct Statement {
    pub sql: String,
    pub params: Vec<SqlValue>,
}

/// What a statement is.
#[verifier::ext_equal]
pub struct StatementView {
    pub sql: Seq<char>,
    pub params: Seq<SqlView>,
}

impl DeepView for Statement {
    type V = StatementView;

    open spec fn deep_view(&self) -> StatementView {
        StatementView { sql: self.sql@, params: self.params.deep_view() }
    }
}

/// A row: the values of its columns, in their order.
pub type Row = Vec<SqlValue>;

// ---- values ------------------------------------------------------------------------
/// A text, or null for none.
pub open spec fn text_or_null(s: Option<Seq<char>>) -> SqlView {
    match s {
        Some(t) => SqlView::Text(t),
        None => SqlView::Null,
    }
}

/// An integer, or null for none.
pub open spec fn integer_or_null(n: Option<i64>) -> SqlView {
    match n {
        Some(i) => SqlView::Integer(i),
        None => SqlView::Null,
    }
}

/// A truth value as the integer one or zero.
pub open spec fn flag(b: bool) -> SqlView {
    SqlView::Integer(if b { 1 } else { 0 })
}

impl SqlValue {
    /// A text.
    pub fn text(s: &str) -> (r: SqlValue)
        ensures
            r.deep_view() == SqlView::Text(s@),
    {
        SqlValue::Text(s.to_owned())
    }

    /// A text, or null for none.
    pub fn opt_text(s: Option<&str>) -> (r: SqlValue)
        ensures
            r.deep_view() == text_or_null(s.deep_view()),
    {
        match s {
            Some(t) => SqlValue::Text(t.to_owned()),
            None => SqlValue::Null,
        }
    }

    /// An integer, or null for none.
    pub fn opt_integer(n: Option<i64>) -> (r: SqlValue)
        ensures
            r.deep_view() == integer_or_null(n),
    {
        match n {
            Some(i) => SqlValue::Integer(i),
            None => SqlValue::Null,
        }
    }

    /// A truth value as the integer one or zero.
    pub fn flag(b: bool) -> (r: SqlValue)
        ensures
            r.deep_view() == flag(b),
    {
        SqlValue::Integer(if b { 1 } else { 0 })
    }
}

/// A statement without parameters.
pub fn plain_statement(sql: &str) -> (r: Statement)
    ensures
        r.deep_view() == (StatementView { sql: sql@, params: Seq::empty() }),
{
    let r: Statement = Statement { sql: sql.to_owned(), params: Vec::new() };
    assert(r.params.deep_view() =~= Seq::<SqlView>::empty());
    r
}

// ---- reading rows ------------------------------------------------------------------
/// A column that is not there, or does not hold a value of the kind that is asked for.
#[derive(Clone, Copy, PartialEq, Eq, Structural, Debug)]
pub struct ColumnError {
    pub column: usize,
}

/// The text in a column.
pub open spec fn text_in(row: Seq<SqlView>, i: int) -> Option<Seq<char>> {
    if 0 <= i < row.len() {
        match row[i] {
            SqlView::Text(s) => Some(s),
            _ => None,
        }
    } else {
        None
    }
}

/// The text in a column that may hold null.
pub open spec fn opt_text_in(row: Seq<SqlView>, i: int) -> Option<Option<Seq<char>>> {
    if 0 <= i < row.len() {
        match row[i] {
            SqlView::Text(s) => Some(Some(s)),
            SqlView::Null => Some(None),
            _ => None,
        }
    } else {
        None
    }
}

/// The integer in a column.
pub open spec fn integer_in(row: Seq<SqlView>, i: int) -> Option<i64> {
    if 0 <= i < row.len() {
        match row[i] {
            SqlView::Integer(n) => Some(n),
            _ => None,
        }
    } else {
        None
    }
}

/// The integer in a column that may hold null.
pub open spec fn opt_integer_in(row: Seq<SqlView>, i: int) -> Option<Option<i64>> {
    if 0 <= i < row.len() {
        match row[i] {
            SqlView::Integer(n) => Some(Some(n)),
            SqlView::Null => Some(None),
            _ => None,
        }
    } else {
        None
    }
}

/// Reads the text in a column.
pub fn get_text(row: &Row, i: usize) -> (r: Result<String, ColumnError>)
    ensures
        match r {
            Ok(s) => text_in(row.deep_view(), i as int) == Some(s@),
            Err(e) => text_in(row.deep_view(), i as int) is None && e.column == i,
        },
{
    if i < row.len() {
        if let SqlValue::Text(s) = &row[i] {
            return Ok(s.clone());
        }
    }
    Err(ColumnError { column: i })
}

/// Reads the text in a column that may hold null.
pub fn get_opt_text(row: &Row, i: usize) -> (r: Result<Option<String>, ColumnError>)
    ensures
        match r {
            Ok(s) => opt_text_in(row.deep_view(), i as int) == Some(s.deep_view()),
            Err(e) => opt_text_in(row.deep_view(), i as int) is None && e.column == i,
        },
{
    if i < row.len() {
        match &row[i] {
            SqlValue::Text(s) => {
                return Ok(Some(s.clone()));
            },
            SqlValue::Null => {
                return Ok(None);
            },
            _ => {},
        }
    }
    Err(ColumnError { column: i })
}

/// Reads the integer in a column.
pub fn get_integer(row: &Row, i: usize) -> (r: Result<i64, ColumnError>)
    ensures
        match r {
            Ok(n) => integer_in(row.deep_view(), i as int) == Some(n),
            Err(e) => integer_in(row.deep_view(), i as int) is None && e.column == i,
        },
{
    if i < row.len() {
        if let SqlValue::Integer(n) = &row[i] {
            return Ok(*n);
        }
    }
    Err(ColumnError { column: i })
}

/// Reads the integer in a column that may hold null.
pub fn get_opt_integer(row: &Row, i: usize) -> (r: Result<Option<i64>, ColumnError>)
    ensures
        match r {
            Ok(n) => opt_integer_in(row.deep_view(), i as int) == Some(n),
            Err(e) => opt_integer_in(row.deep_view(), i as int) is None && e.column == i,
        },
{
    if i < row.len() {
        match &row[i] {
            SqlValue::Integer(n) => {
                return Ok(Some(*n));
            },
            SqlValue::Null => {
                return Ok(None);
            },
            _ => {},
        }
    }
    Err(ColumnError { column: i })
}

/// The integers in the first column of rows; none at all where a row has none there.
pub open spec fn integers_of(rows: Seq<Seq<SqlView>>) -> Option<Seq<i64>>
    decreases rows.len(),
{
    if rows.len() == 0 {
        Some(Seq::empty())
    } else {
        match (integers_of(rows.drop_last()), integer_in(rows.last(), 0)) {
            (Some(before), Some(n)) => Some(before.push(n)),
            _ => None,
        }
    }
}

proof fn lemma_no_integers(rows: Seq<Seq<SqlView>>, i: int)
    requires
        0 <= i <= rows.len(),
        integers_of(rows.take(i)) is None,
    ensures
        integers_of(rows) is None,
    decreases rows.len() - i,
{
    if i < rows.len() {
        assert(rows.take(i + 1).drop_last() =~= rows.take(i));
        lemma_no_integers(rows, i + 1);
    } else {
        assert(rows.take(i) =~= rows);
    }
}

/// Reads the integers in the first column of rows.
pub fn read_integers(rows: &Vec<Row>) -> (r: Option<Vec<i64>>)
    ensures
        r.deep_view() == integers_of(rows.deep_view()),
{
    let ghost all = rows.deep_view();
    let mut out: Vec<i64> = Vec::new();
    let mut i: usize = 0;
    assert(all.take(0) =~= Seq::empty());
    assert(out.deep_view() =~= Seq::<i64>::empty());
    while i < rows.len()
        invariant
            i <= rows.len(),
            all == rows.deep_view(),
            integers_of(all.take(i as int)) == Some(out.deep_view()),
        decreases rows.len() - i,
    {
        proof {
            assert(all.take(i + 1).drop_last() =~= all.take(i as int));
            assert(all.take(i + 1).last() == rows@[i as int].deep_view());
        }
        match get_integer(&rows[i], 0) {
            Ok(n) => {
                let ghost before = out.deep_view();
                out.push(n);
                assert(out.deep_view() =~= before.push(n));
            },
            Err(_) => {
                proof {
                    lemma_no_integers(all, i + 1);
                }
                return None;
            },
        }
        i += 1;
    }
    assert(all.take(i as int) =~= all);
    Some(out)
}

/// The texts in the first column of rows; none at all where a row has none there.
pub open spec fn texts_of(rows: Seq<Seq<SqlView>>) -> Option<Seq<Seq<char>>>
    decreases rows.len(),
{
    if rows.len() == 0 {
        Some(Seq::empty())
    } else {
        match (texts_of(rows.drop_last()), text_in(rows.last(), 0)) {
            (Some(before), Some(n)) => Some(before.push(n)),
            _ => None,
        }
    }
}

proof fn lemma_no_texts(rows: Seq<Seq<SqlView>>, i: int)
    requires
        0 <= i <= rows.len(),
        texts_of(rows.take(i)) is None,
    ensures
        texts_of(rows) is None,
    decreases rows.len() - i,
{
    if i < rows.len() {
        assert(rows.take(i + 1).drop_last() =~= rows.take(i));
        lemma_no_texts(rows, i + 1);
    } else {
        assert(rows.take(i) =~= rows);
    }
}

/// Reads the texts in the first column of rows.
pub fn read_texts(rows: &Vec<Row>) -> (r: Option<Vec<String>>)
    ensures
        r.deep_view() == texts_of(rows.deep_view()),
{
    let ghost all = rows.deep_view();
    let mut out: Vec<String> = Vec::new();
    let mut i: usize = 0;
    assert(all.take(0) =~= Seq::empty());
    assert(out.deep_view() =~= Seq::<Seq<char>>::empty());
    while i < rows.len()
        invariant
            i <= rows.len(),
            all == rows.deep_view(),
            texts_of(all.take(i as int)) == Some(out.deep_view()),
        decreases rows.len() - i,
    {
        proof {
            assert(all.take(i + 1).drop_last() =~= all.take(i as int));
            assert(all.take(i + 1).last() == rows@[i as int].deep_view());
        }
        match get_text(&rows[i], 0) {
            Ok(n) => {
                let ghost before = out.deep_view();
                out.push(n);
                assert(out.deep_view() =~= before.push(n@));
            },
            Err(_) => {
                proof {
                    lemma_no_texts(all, i + 1);
                }
                return None;
            },
        }
        i += 1;
    }
    assert(all.take(i as int) =~= all);
    Some(out)
}

/// The truth value in a column: every integer but zero is true.
pub open spec fn flag_in(row: Seq<SqlView>, i: int) -> Option<bool> {
    match integer_in(row, i) {
        Some(n) => Some(n != 0),
        None => None,
    }
}

/// Reads the truth value in a column.
pub fn get_flag(row: &Row, i: usize) -> (r: Result<bool, ColumnError>)
    ensures
        match r {
            Ok(b) => flag_in(row.deep_view(), i as int) == Some(b),
            Err(e) => flag_in(row.deep_view(), i as int) is None && e.column == i,
        },
{
    match get_integer(row, i) {
        Ok(n) => Ok(n != 0),
        Err(e) => Err(e),
    }
}

/// What a payload holds: the value that its text gives, or null where there is no text or
/// the text is not JSON.
pub open spec fn payload_of(text: Option<Seq<char>>) -> JsonView {
    match text {
        Some(t) => match json::json_of_text(t) {
            Some(v) => v,
            None => JsonView::Null,
        },
        None => JsonView::Null,
    }
}

/// The payload in a column.
pub open spec fn payload_in(row: Seq<SqlView>, i: int) -> Option<JsonView> {
    match opt_text_in(row, i) {
        Some(text) => Some(payload_of(text)),
        None => None,
    }
}

/// Reads the payload in a column.
pub fn get_payload(row: &Row, i: usize) -> (r: Result<Json, ColumnError>)
    ensures
        match r {
            Ok(v) => payload_in(row.deep_view(), i as int) == Some(v.deep_view()),
            Err(e) => payload_in(row.deep_view(), i as int) is None && e.column == i,
        },
{
    match get_opt_text(row, i) {
        Ok(Some(text)) => match parse(text.as_str()) {
            Some(v) => Ok(v),
            None => Ok(Json::Null),
        },
        Ok(None) => Ok(Json::Null),
        Err(e) => Err(e),
    }
}

// ---- rows as records ---------------------------------------------------------------
/// Something that a row can hold.
pub trait FromRow: DeepView + Sized {
    /// What a row holds, if it holds one.
    spec fn in_row(row: Seq<SqlView>) -> Option<Self::V>;

    /// Reads what a row holds.
    fn from_row(row: &Row) -> (r: Option<Self>)
        ensures
            r.deep_view() == Self::in_row(row.deep_view()),
    ;
}

/// A row that does not hold what it should.
#[derive(Clone, Copy, PartialEq, Eq, Structural, Debug)]
pub struct RowError {
    /// Which of the rows it is.
    pub row: usize,
}

/// What the first rows hold, up to the first row that does not hold what it should.
pub open spec fn leading<T: FromRow>(rows: Seq<Seq<SqlView>>) -> Seq<T::V>
    decreases rows.len(),
{
    if rows.len() == 0 {
        Seq::empty()
    } else {
        let before = leading::<T>(rows.drop_last());
        match T::in_row(rows.last()) {
            Some(v) if before.len() == rows.len() - 1 => before.push(v),
            _ => before,
        }
    }
}

/// What rows hold, where rows that do not hold what they should are passed over.
pub open spec fn readable<T: FromRow>(rows: Seq<Seq<SqlView>>) -> Seq<T::V>
    decreases rows.len(),
{
    if rows.len() == 0 {
        Seq::empty()
    } else {
        let before = readable::<T>(rows.drop_last());
        match T::in_row(rows.last()) {
            Some(v) => before.push(v),
            None => before,
        }
    }
}

/// Reading stops at the first row that does not hold what it should.
pub proof fn lemma_leading_stops<T: FromRow>(rows: Seq<Seq<SqlView>>, i: int)
    requires
        0 <= i < rows.len(),
        leading::<T>(rows.take(i)).len() == i,
        T::in_row(rows[i]) is None,
    ensures
        leading::<T>(rows) == leading::<T>(rows.take(i)),
    decreases rows.len() - i,
{
    let last = rows.drop_last();
    if i == rows.len() - 1 {
        assert(last =~= rows.take(i));
    } else {
        assert(last.take(i) =~= rows.take(i));
        lemma_leading_stops::<T>(last, i);
    }
}

/// Reads what all rows hold. Fails at the first row that does not hold what it should.
pub fn read_all<T: FromRow>(rows: &Vec<Row>) -> (r: Result<Vec<T>, RowError>)
    ensures
        match r {
            Ok(v) => v.deep_view() == leading::<T>(rows.deep_view()) && v@.len() == rows@.len(),
            Err(e) => e.row < rows@.len() && e.row == leading::<T>(rows.deep_view()).len(),
        },
{
    let ghost all = rows.deep_view();
    let mut out: Vec<T> = Vec::new();
    let mut i: usize = 0;
    assert(all.take(0) =~= Seq::empty());
    assert(out.deep_view() =~= Seq::<T::V>::empty());
    while i < rows.len()
        invariant
            i == out.len() <= rows.len(),
            all == rows.deep_view(),
            out.deep_view() == leading::<T>(all.take(i as int)),
        decreases rows.len() - i,
    {
        proof {
            assert(all.take(i + 1).drop_last() =~= all.take(i as int));
            assert(all.take(i + 1).last() == rows@[i as int].deep_view());
            assert(out.deep_view().len() == i);
        }
        match T::from_row(&rows[i]) {
            Some(v) => {
                let ghost before = out.deep_view();
                out.push(v);
                assert(out.deep_view() =~= before.push(v.deep_view()));
            },
            None => {
                proof {
                    lemma_leading_stops::<T>(all, i as int);
                }
                return Err(RowError { row: i });
            },
        }
        i += 1;
    }
    assert(all.take(i as int) =~= all);
    Ok(out)
}

/// Reads what rows hold, and passes over those that do not hold what they should.
pub fn read_readable<T: FromRow>(rows: &Vec<Row>) -> (r: Vec<T>)
    ensures
        r.deep_view() == readable::<T>(rows.deep_view()),
{
    let ghost all = rows.deep_view();
    let mut out: Vec<T> = Vec::new();
    let mut i: usize = 0;
    assert(all.take(0) =~= Seq::empty());
    assert(out.deep_view() =~= Seq::<T::V>::empty());
    while i < rows.len()
        invariant
            i <= rows.len(),
            all == rows.deep_view(),
            out.deep_view() == readable::<T>(all.take(i as int)),
        decreases rows.len() - i,
    {
        proof {
            assert(all.take(i + 1).drop_last() =~= all.take(i as int));
            assert(all.take(i + 1).last() == rows@[i as int].deep_view());
        }
        if let Some(v) = T::from_row(&rows[i]) {
            let ghost before = out.deep_view();
            out.push(v);
            assert(out.deep_view() =~= before.push(v.deep_view()));
        }
        i += 1;
    }
    assert(all.take(i as int) =~= all);
    out
}

/// A text in the only column of a row.
impl FromRow for String {
    open spec fn in_row(row: Seq<SqlView>) -> Option<Seq<char>> {
        text_in(row, 0)
    }

    fn from_row(row: &Row) -> (r: Option<String>) {
        match get_text(row, 0) {
            Ok(s) => Some(s),
            Err(_) => None,
        }
    }
}

// ---- string literals ---------------------------------------------------------------
/// One character as it stands inside a string literal: a quote is doubled.
pub open spec fn escaped_char(c: char) -> Seq<char> {
    if c == '\'' {
        seq!['\'', '\'']
    } else {
        seq![c]
    }
}

/// A text as it stands inside a string literal: every quote is doubled.
pub open spec fn escaped(s: Seq<char>) -> Seq<char>
    decreases s.len(),
{
    if s.len() == 0 {
        Seq::empty()
    } else {
        escaped(s.drop_last()) + escaped_char(s.last())
    }
}

/// A text as a string literal.
pub open spec fn literal(s: Seq<char>) -> Seq<char> {
    "'"@ + escaped(s) + "'"@
}

/// Doubles every quote of a text, so that it can stand inside a string literal.
pub fn esc(s: &str) -> (r: String)
    ensures
        r@ == escaped(s@),
{
    let cs: Vec<char> = chars_of(s);
    let mut out: String = String::new();
    let mut i: usize = 0;
    while i < cs.len()
        invariant
            i <= cs.len(),
            cs@ == s@,
            out@ == escaped(s@.take(i as int)),
        decreases cs.len() - i,
    {
        let c: char = cs[i];
        let ghost before = out@;
        if c == '\'' {
            out.push('\'');
        }
        out.push(c);
        proof {
            assert(s@.take(i + 1).drop_last() =~= s@.take(i as int));
            assert(out@ =~= before + escaped_char(c));
        }
        i += 1;
    }
    assert(s@.take(i as int) =~= s@);
    out
}

/// A text as a string literal.
pub fn quote(s: &str) -> (r: String)
    ensures
        r@ == literal(s@),
{
    let e: String = esc(s);
    cat3("'", e.as_str(), "'")
}

/// What a reader of SQL finds after the opening quote of a string literal: the text of
/// the literal and what follows its closing quote. Two quotes in a row stand for one.
pub open spec fn read_literal(s: Seq<char>) -> Option<(Seq<char>, Seq<char>)>
    decreases s.len(),
{
    if s.len() == 0 {
        None
    } else if s[0] != '\'' {
        match read_literal(s.skip(1)) {
            Some((t, rest)) => Some((seq![s[0]] + t, rest)),
            None => None,
        }
    } else if s.len() > 1 && s[1] == '\'' {
        match read_literal(s.skip(2)) {
            Some((t, rest)) => Some((seq!['\''] + t, rest)),
            None => None,
        }
    } else {
        Some((Seq::empty(), s.skip(1)))
    }
}

proof fn lemma_escaped_first(s: Seq<char>)
    requires
        s.len() > 0,
    ensures
        escaped(s) == escaped_char(s[0]) + escaped(s.skip(1)),
    decreases s.len(),
{
    if s.len() == 1 {
        assert(s.drop_last() =~= Seq::<char>::empty());
        assert(s.skip(1) =~= Seq::<char>::empty());
        assert(escaped(s) =~= escaped_char(s[0]) + escaped(s.skip(1)));
    } else {
        let t = s.drop_last();
        lemma_escaped_first(t);
        assert(s.skip(1).drop_last() =~= t.skip(1));
        assert(escaped(s) =~= escaped_char(s[0]) + (escaped(t.skip(1)) + escaped_char(s.last())));
    }
}

/// A text, written as a string literal and followed by anything that begins with no
/// quote, is read as exactly that text: no character of the text ends the literal or
/// becomes part of the statement.
pub proof fn literal_reads_back(s: Seq<char>, rest: Seq<char>)
    requires
        rest.len() > 0 ==> rest[0] != '\'',
    ensures
        literal(s).len() > 0,
        literal(s)[0] == '\'',
        read_literal((literal(s) + rest).skip(1)) == Some((s, rest)),
{
    reveal_strlit("'");
    lemma_read_escaped(s, rest);
    assert((literal(s) + rest).skip(1) =~= escaped(s) + seq!['\''] + rest);
}

proof fn lemma_read_escaped(s: Seq<char>, rest: Seq<char>)
    requires
        rest.len() > 0 ==> rest[0] != '\'',
    ensures
        read_literal(escaped(s) + seq!['\''] + rest) == Some((s, rest)),
    decreases s.len(),
{
    let all = escaped(s) + seq!['\''] + rest;
    if s.len() == 0 {
        assert(all =~= seq!['\''] + rest);
        assert(all.skip(1) =~= rest);
        assert(s =~= Seq::<char>::empty());
    } else {
        lemma_escaped_first(s);
        lemma_read_escaped(s.skip(1), rest);
        let n = escaped_char(s[0]).len() as int;
        assert(all.skip(n) =~= escaped(s.skip(1)) + seq!['\''] + rest);
        assert(seq![s[0]] + s.skip(1) =~= s);
    }
}

} // verus!
