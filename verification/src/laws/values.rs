//! What holds of texts, numbers, switches, JSON values and rows.

use vstd::prelude::*;

use crate::json::JsonView;
use crate::sql::SqlView;
use crate::sync::step::RepoJobView;
use crate::{config, db, json, laws, number, sql, text};

verus! {

// ---- names and switches ------------------------------------------------------------
/// The full name of a repository is its owner, a slash, and its name.
pub proof fn full_name_is_owner_slash_name(owner: Seq<char>, name: Seq<char>)
    ensures
        config::slug_of(owner, name) == owner.push('/') + name,
{
    reveal_strlit("/");
    assert(config::slug_of(owner, name) =~= owner.push('/') + name);
}

/// Two repositories whose owners have no slash have one full name only where they are the same.
pub proof fn full_names_tell_repositories_apart(
    owner: Seq<char>,
    name: Seq<char>,
    other_owner: Seq<char>,
    other_name: Seq<char>,
)
    requires
        !owner.contains('/'),
        !other_owner.contains('/'),
        config::slug_of(owner, name) == config::slug_of(other_owner, other_name),
    ensures
        owner == other_owner,
        name == other_name,
{
    let a = config::slug_of(owner, name);
    full_name_is_owner_slash_name(owner, name);
    full_name_is_owner_slash_name(other_owner, other_name);
    assert(a[owner.len() as int] == '/');
    assert(a[other_owner.len() as int] == '/');
    if owner.len() < other_owner.len() {
        assert(other_owner.contains(other_owner[owner.len() as int]));
    } else if other_owner.len() < owner.len() {
        assert(owner.contains(owner[other_owner.len() as int]));
    }
    assert(owner =~= a.take(owner.len() as int));
    assert(other_owner =~= a.take(other_owner.len() as int));
    assert(name =~= a.skip(owner.len() as int + 1));
    assert(other_name =~= a.skip(other_owner.len() as int + 1));
}

/// A switch is on where it is set to true: neither where it is set to false nor where it is left
/// out.
pub proof fn switch_is_on_where_it_is_true(switch: Option<bool>)
    ensures
        config::is_on(switch) <==> switch == Some(true),
        !config::is_on(None),
        !config::is_on(Some(false)),
        config::is_on(Some(true)),
{
}

/// What is configured counts, and the default only where nothing is.
pub proof fn configured_value_counts(value: Seq<char>, default: Seq<char>, seconds: u64, usual: u64)
    ensures
        config::alias_or(Some(value), default) == value,
        config::alias_or(None, default) == default,
        config::value_or(Some(seconds), usual) == seconds,
        config::value_or(None, usual) == usual,
{
}

/// What is asked of a repository is asked for under its owner and its name.
pub proof fn endpoint_names_the_repository(job: RepoJobView, what: Seq<char>)
    ensures
        job.endpoint(what) == "/repos/"@ + config::slug_of(job.owner, job.name) + what,
        job.slug() == job.owner.push('/') + job.name,
{
    full_name_is_owner_slash_name(job.owner, job.name);
    assert(job.endpoint(what) =~= "/repos/"@ + config::slug_of(job.owner, job.name) + what);
}

// ---- texts -------------------------------------------------------------------------
/// A text begins with a prefix where something follows the prefix to make the text.
pub proof fn prefix_and_rest_make_the_text(s: Seq<char>, prefix: Seq<char>)
    ensures
        text::begins_with(s, prefix) <==> laws::opens(s, prefix),
{
    if text::begins_with(s, prefix) {
        laws::lemma_opens(s, prefix, s.skip(prefix.len() as int));
    }
    if laws::opens(s, prefix) {
        let rest = choose|rest: Seq<char>| s == #[trigger] (prefix + rest);
        assert(s.take(prefix.len() as int) =~= prefix);
    }
}

/// A text is cut at the first place of a character: what stands before it has none of it, and the
/// two parts with the character between them make the text. A text without the character is not
/// cut.
pub proof fn text_is_cut_at_the_first_place(s: Seq<char>, c: char, a: Seq<char>, b: Seq<char>)
    ensures
        text::cut_at(s, c) is None <==> !s.contains(c),
        text::cut_at(s, c) == Some((a, b)) <==> s == a.push(c) + b && !a.contains(c),
{
    text::lemma_place_of_is_first(s, c);
    let i = text::place_of(s, c) as int;
    if text::cut_at(s, c) == Some((a, b)) {
        assert(s =~= a.push(c) + b);
        assert forall|k: int| 0 <= k < a.len() implies #[trigger] a[k] != c by {
            assert(a[k] == s[k]);
        }
    }
    if s == a.push(c) + b && !a.contains(c) {
        let n = a.len() as int;
        assert forall|k: int| 0 <= k < n implies #[trigger] s[k] != c by {
            assert(s[k] == a[k]);
            assert(a.contains(a[k]));
        }
        assert(s[n] == c);
        text::lemma_place_of(s, c, n);
        assert(s.take(n) =~= a);
        assert(s.skip(n + 1) =~= b);
    }
    if s.contains(c) {
        let k = choose|k: int| 0 <= k < s.len() && s[k] == c;
        assert(s[k] == c);
    }
}

/// Texts are joined in their order, with the separator between each two of them and nowhere else.
pub proof fn texts_are_joined_in_order(parts: Seq<Seq<char>>, more: Seq<char>, sep: Seq<char>)
    ensures
        text::joined(Seq::empty(), sep) == Seq::<char>::empty(),
        text::joined(seq![more], sep) == more,
        parts.len() > 0 ==> text::joined(parts.push(more), sep) == text::joined(parts, sep) + sep
            + more,
{
    assert(parts.push(more).drop_last() =~= parts);
}

/// Blanks at the ends of a text are left out, and nothing else.
pub proof fn only_blanks_at_the_ends_are_left_out(s: Seq<char>) -> (r: (Seq<char>, Seq<char>))
    ensures
        s == r.0 + text::trimmed(s) + r.1,
        forall|i: int| 0 <= i < r.0.len() ==> text::is_space(#[trigger] r.0[i]),
        forall|i: int| 0 <= i < r.1.len() ==> text::is_space(#[trigger] r.1[i]),
        text::trimmed(s).len() > 0 ==> !text::is_space(text::trimmed(s)[0]) && !text::is_space(
            text::trimmed(s).last(),
        ),
{
    let a = lemma_start(s);
    let t = text::trimmed_start(s);
    let b = lemma_end(t);
    assert(s =~= a + text::trimmed(s) + b);
    if text::trimmed(s).len() > 0 {
        assert(text::trimmed(s)[0] == t[0]);
    }
    (a, b)
}

proof fn lemma_start(s: Seq<char>) -> (a: Seq<char>)
    ensures
        s == a + text::trimmed_start(s),
        forall|i: int| 0 <= i < a.len() ==> text::is_space(#[trigger] a[i]),
        text::trimmed_start(s).len() > 0 ==> !text::is_space(text::trimmed_start(s)[0]),
    decreases s.len(),
{
    if s.len() > 0 && text::is_space(s[0]) {
        let b = lemma_start(s.skip(1));
        let a = seq![s[0]] + b;
        assert(s =~= seq![s[0]] + s.skip(1));
        assert(a + text::trimmed_start(s.skip(1)) =~= seq![s[0]] + (b + text::trimmed_start(
            s.skip(1),
        )));
        a
    } else {
        assert(s =~= Seq::<char>::empty() + s);
        Seq::empty()
    }
}

proof fn lemma_end(s: Seq<char>) -> (b: Seq<char>)
    ensures
        s == text::trimmed_end(s) + b,
        forall|i: int| 0 <= i < b.len() ==> text::is_space(#[trigger] b[i]),
        text::trimmed_end(s).len() > 0 ==> !text::is_space(text::trimmed_end(s).last()),
    decreases s.len(),
{
    if s.len() > 0 && text::is_space(s.last()) {
        let a = lemma_end(s.drop_last());
        let b = a.push(s.last());
        assert(s =~= s.drop_last().push(s.last()));
        assert(text::trimmed_end(s.drop_last()) + b =~= (text::trimmed_end(s.drop_last())
            + a).push(s.last()));
        b
    } else {
        assert(s =~= s + Seq::<char>::empty());
        Seq::empty()
    }
}

/// Among the characters of ASCII, the blanks are the space, the tabs, the ends of lines and of
/// pages.
pub proof fn blanks_of_ascii(c: char)
    requires
        (c as u32) < 0x80,
    ensures
        text::is_space(c) <==> c == ' ' || c == '\t' || c == '\n' || c == '\r' || c == '\u{b}' || c
            == '\u{c}',
{
}

/// Capitals of ASCII become small letters, one for one, and everything else stays.
pub proof fn capitals_become_small(s: Seq<char>, i: int)
    requires
        0 <= i < s.len(),
    ensures
        text::ascii_lowercase(s).len() == s.len(),
        'A' <= s[i] <= 'Z' ==> text::ascii_lowercase(s)[i] as int - 'a' as int == s[i] as int
            - 'A' as int,
        !('A' <= s[i] <= 'Z') ==> text::ascii_lowercase(s)[i] == s[i],
{
}

/// The pieces of a text, joined again, are the text, and none of them has the character at which
/// it was cut.
pub proof fn pieces_make_the_text(s: Seq<char>, c: char)
    ensures
        text::pieces(s, c).len() > 0,
        text::joined(text::pieces(s, c), seq![c]) == s,
        forall|i: int|
            0 <= i < text::pieces(s, c).len() ==> !(#[trigger] text::pieces(s, c)[i]).contains(c),
    decreases s.len(),
{
    let all = text::pieces(s, c);
    text::lemma_place_of_is_first(s, c);
    match text::cut_at(s, c) {
        None => {
            text_is_cut_at_the_first_place(s, c, s, s);
            assert(all =~= seq![s]);
        },
        Some((a, b)) => {
            text_is_cut_at_the_first_place(s, c, a, b);
            pieces_make_the_text(b, c);
            let rest = text::pieces(b, c);
            assert(all =~= seq![a] + rest);
            lemma_join_first(a, rest, seq![c]);
            assert(s =~= a + seq![c] + b);
            assert forall|i: int| 0 <= i < all.len() implies !(#[trigger] all[i]).contains(c) by {
                if i > 0 {
                    assert(all[i] == rest[i - 1]);
                }
            }
        },
    }
}

proof fn lemma_join_first(a: Seq<char>, rest: Seq<Seq<char>>, sep: Seq<char>)
    requires
        rest.len() > 0,
    ensures
        text::joined(seq![a] + rest, sep) == a + sep + text::joined(rest, sep),
    decreases rest.len(),
{
    let all = seq![a] + rest;
    assert(all.drop_last() =~= seq![a] + rest.drop_last());
    assert(all.last() == rest.last());
    if rest.len() == 1 {
        assert(all.drop_last() =~= seq![a]);
        assert(text::joined(all.drop_last(), sep) == a);
    } else {
        lemma_join_first(a, rest.drop_last(), sep);
        assert(text::joined(all, sep) =~= a + sep + text::joined(rest, sep));
    }
}

// ---- numbers -----------------------------------------------------------------------
/// A number is written with its decimal digits, the highest first, and a minus sign before them
/// where it is negative.
pub proof fn numbers_are_written_in_decimal(n: nat, d: int)
    requires
        0 <= d < 10,
    ensures
        number::nat_text(d as nat) == seq![('0' as int + d) as char],
        n > 0 ==> number::nat_text((10 * n + d) as nat) == number::nat_text(n).push(
            ('0' as int + d) as char,
        ),
        number::int_text(n as int) == number::nat_text(n),
        n > 0 ==> number::int_text(-(n as int)) == seq!['-'] + number::nat_text(n),
{
    if n > 0 {
        let m = (10 * n + d) as nat;
        assert(m / 10 == n && m % 10 == d);
    }
}

/// Two numbers are written alike only where they are the same.
pub proof fn numbers_are_told_apart(a: i64, b: i64)
    requires
        number::int_text(a as int) == number::int_text(b as int),
    ensures
        a == b,
{
    number::number_text_reads_back(a, 0);
    number::number_text_reads_back(b, 0);
}

/// The value of digits, when one more is read.
pub proof fn digits_are_read_in_decimal(s: Seq<char>, d: int)
    requires
        0 <= d < 10,
    ensures
        number::digits_value(Seq::empty()) == 0,
        number::digits_value(s.push(('0' as int + d) as char)) == 10 * number::digits_value(s) + d,
{
    assert(s.push(('0' as int + d) as char).drop_last() =~= s);
}

// ---- JSON --------------------------------------------------------------------------
/// A member of an object is what stands under its name; what has no such member has null there.
pub proof fn member_is_what_stands_under_its_name(
    m: Map<Seq<char>, JsonView>,
    key: Seq<char>,
    v: JsonView,
)
    ensures
        m.dom().contains(key) ==> JsonView::Object(m).get(key) == Some(m[key])
            && JsonView::Object(m).at(key) == m[key],
        !m.dom().contains(key) ==> JsonView::Object(m).get(key) is None && JsonView::Object(m).at(
            key,
        ) == JsonView::Null,
        !(v is Object) ==> v.get(key) is None && v.at(key) == JsonView::Null,
{
}

/// A value is read as what it is and as nothing else.
pub proof fn values_are_read_as_what_they_are(v: JsonView, default: Seq<char>)
    ensures
        v.as_str() == (if v is Str {
            Some(v->Str_0)
        } else {
            None
        }),
        v.str_or(default) == (if v is Str {
            v->Str_0
        } else {
            default
        }),
        v.as_i64() == (if v is Int {
            Some(v->Int_0)
        } else {
            None
        }),
        v.as_bool() == (if v is Bool {
            Some(v->Bool_0)
        } else {
            None
        }),
        v.as_array() == (if v is Array {
            Some(v->Array_0)
        } else {
            None
        }),
{
}

/// What is there is written as itself, and what is not as null.
pub proof fn missing_values_are_null(s: Seq<char>, n: i64)
    ensures
        json::str_or_null(Some(s)) == JsonView::Str(s),
        json::str_or_null(None) == JsonView::Null,
        json::int_or_null(Some(n)) == JsonView::Int(n),
        json::int_or_null(None) == JsonView::Null,
        sql::text_or_null(Some(s)) == SqlView::Text(s),
        sql::text_or_null(None) == SqlView::Null,
        sql::integer_or_null(Some(n)) == SqlView::Integer(n),
        sql::integer_or_null(None) == SqlView::Null,
        sql::flag(true) == SqlView::Integer(1),
        sql::flag(false) == SqlView::Integer(0),
{
}

// ---- rows --------------------------------------------------------------------------
/// A column of a row is read as what it holds: a text, a number, a flag that is set where the
/// number is not zero, or nothing where it may be empty.
pub proof fn columns_are_read_as_what_they_hold(row: Seq<SqlView>, i: int)
    requires
        0 <= i < row.len(),
    ensures
        sql::text_in(row, i) == (match row[i] {
            SqlView::Text(s) => Some(s),
            _ => None,
        }),
        sql::integer_in(row, i) == (match row[i] {
            SqlView::Integer(n) => Some(n),
            _ => None,
        }),
        row[i] == SqlView::Null ==> sql::opt_text_in(row, i) == Some(None::<Seq<char>>)
            && sql::opt_integer_in(row, i) == Some(None::<i64>),
        row[i] matches SqlView::Text(s) ==> sql::opt_text_in(row, i) == Some(Some(s)),
        row[i] matches SqlView::Integer(n) ==> sql::opt_integer_in(row, i) == Some(Some(n))
            && sql::flag_in(row, i) == Some(n != 0),
        row[i] == sql::flag(true) ==> sql::flag_in(row, i) == Some(true),
        row[i] == sql::flag(false) ==> sql::flag_in(row, i) == Some(false),
{
}

/// The id that an answer gives is the number in the first column of its first row.
pub proof fn id_is_in_the_first_row(id: i64, more: Seq<SqlView>, rows: Seq<Seq<SqlView>>)
    ensures
        db::id_in(seq![seq![SqlView::Integer(id)] + more] + rows) == Some(id),
        db::id_in(Seq::empty()) is None,
{
    let row = seq![SqlView::Integer(id)] + more;
    assert((seq![row] + rows)[0] == row);
    assert(row[0] == SqlView::Integer(id));
}

/// Numbers and texts are read from every row, in the order of the rows.
pub proof fn every_row_is_read(numbers: Seq<i64>, texts: Seq<Seq<char>>)
    ensures
        sql::integers_of(numbers.map_values(|n: i64| seq![SqlView::Integer(n)])) == Some(numbers),
        sql::texts_of(texts.map_values(|s: Seq<char>| seq![SqlView::Text(s)])) == Some(texts),
{
    lemma_integers(numbers);
    lemma_texts(texts);
}

proof fn lemma_integers(numbers: Seq<i64>)
    ensures
        sql::integers_of(numbers.map_values(|n: i64| seq![SqlView::Integer(n)])) == Some(numbers),
    decreases numbers.len(),
{
    let f = |n: i64| seq![SqlView::Integer(n)];
    let rows = numbers.map_values(f);
    if numbers.len() == 0 {
        assert(numbers =~= Seq::empty());
    } else {
        lemma_integers(numbers.drop_last());
        assert(rows.drop_last() =~= numbers.drop_last().map_values(f));
        assert(rows.last() == seq![SqlView::Integer(numbers.last())]);
        assert(numbers.drop_last().push(numbers.last()) =~= numbers);
    }
}

proof fn lemma_texts(texts: Seq<Seq<char>>)
    ensures
        sql::texts_of(texts.map_values(|s: Seq<char>| seq![SqlView::Text(s)])) == Some(texts),
    decreases texts.len(),
{
    let f = |s: Seq<char>| seq![SqlView::Text(s)];
    let rows = texts.map_values(f);
    if texts.len() == 0 {
        assert(texts =~= Seq::empty());
    } else {
        lemma_texts(texts.drop_last());
        assert(rows.drop_last() =~= texts.drop_last().map_values(f));
        assert(rows.last() == seq![SqlView::Text(texts.last())]);
        assert(texts.drop_last().push(texts.last()) =~= texts);
    }
}

/// A text that is put into a statement stands between quotes, and is what is read there again,
/// whatever it holds.
pub proof fn quoted_text_is_closed(s: Seq<char>)
    ensures
        sql::literal(s).len() >= 2,
        sql::literal(s)[0] == '\'',
        sql::literal(s).last() == '\'',
        !s.contains('\'') ==> sql::literal(s) == seq!['\''] + s + seq!['\''],
{
    reveal_strlit("'");
    if !s.contains('\'') {
        lemma_nothing_escaped(s);
        assert(sql::literal(s) =~= seq!['\''] + s + seq!['\'']);
    }
}

proof fn lemma_nothing_escaped(s: Seq<char>)
    requires
        !s.contains('\''),
    ensures
        sql::escaped(s) == s,
    decreases s.len(),
{
    if s.len() > 0 {
        assert(s.contains(s[s.len() - 1]));
        assert forall|i: int| 0 <= i < s.drop_last().len() implies #[trigger] s.drop_last()[i]
            != '\'' by {
            assert(s.contains(s[i]));
        }
        lemma_nothing_escaped(s.drop_last());
        assert(s.drop_last() + seq![s.last()] =~= s);
    } else {
        assert(sql::escaped(s) =~= s);
    }
}

/// Two texts stand in statements alike only where they are the same.
pub proof fn quoted_texts_are_told_apart(a: Seq<char>, b: Seq<char>)
    requires
        sql::literal(a) == sql::literal(b),
    ensures
        a == b,
{
    let empty = Seq::<char>::empty();
    sql::literal_reads_back(a, empty);
    sql::literal_reads_back(b, empty);
}

} // verus!
