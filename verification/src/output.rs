//! How rows are shown: as JSON, as text with tabs, or as a table.

use vstd::prelude::*;

use crate::json::{to_pretty_text, to_text, Json, JsonView};
use crate::text::{bytes_in, cat, chars_of, join, repeat, take_bytes};
use crate::{json, text};

verus! {

/// How rows are shown.
#[derive(Clone, Copy, PartialEq, Eq, Structural, Debug)]
pub enum Format {
    /// One line of JSON for each row.
    Json,
    /// Indented JSON.
    JsonPretty,
    /// Columns with tabs between them.
    Tsv,
    /// Columns of even width.
    Table,
}

// ---- cells -------------------------------------------------------------------------
/// How a value is shown in a cell: null and nothing as the empty text, a text as it is, and
/// anything else as JSON.
pub open spec fn cell_of(v: Option<JsonView>) -> Seq<char> {
    match v {
        None => Seq::empty(),
        Some(JsonView::Null) => Seq::empty(),
        Some(JsonView::Str(s)) => s,
        Some(other) => json::compact_text(other),
    }
}

/// How a value is shown in a cell.
pub fn json_cell(v: Option<&Json>) -> (r: String)
    ensures
        r@ == cell_of(v.deep_view()),
        v matches Some(Json::Int(n)) ==> r@ == crate::number::int_text(n as int),
{
    match v {
        None => String::new(),
        Some(Json::Null) => String::new(),
        Some(Json::Str(s)) => s.clone(),
        Some(other) => to_text(other),
    }
}

/// The cells of a row, one for each column.
pub open spec fn cells_of(row: JsonView, columns: Seq<Seq<char>>) -> Seq<Seq<char>> {
    columns.map_values(|c: Seq<char>| cell_of(row.get(c)))
}

fn row_cells(row: &Json, columns: &Vec<String>) -> (r: Vec<String>)
    ensures
        r.deep_view() == cells_of(row.deep_view(), columns.deep_view()),
{
    let ghost all = columns.deep_view();
    let mut out: Vec<String> = Vec::new();
    let mut i: usize = 0;
    assert(out.deep_view() =~= cells_of(row.deep_view(), all.take(0)));
    while i < columns.len()
        invariant
            i <= columns.len(),
            all == columns.deep_view(),
            out.deep_view() == cells_of(row.deep_view(), all.take(i as int)),
        decreases columns.len() - i,
    {
        let ghost before = out.deep_view();
        out.push(json_cell(row.get(columns[i].as_str())));
        assert(out.deep_view() =~= before.push(cell_of(row.deep_view().get(all[i as int]))));
        assert(out.deep_view() =~= cells_of(row.deep_view(), all.take(i + 1)));
        i += 1;
    }
    assert(all.take(i as int) =~= all);
    out
}

// ---- lines -------------------------------------------------------------------------
/// Texts, each on lines of its own.
pub open spec fn lines_text(lines: Seq<Seq<char>>) -> Seq<char>
    decreases lines.len(),
{
    if lines.len() == 0 {
        Seq::empty()
    } else {
        lines_text(lines.drop_last()) + lines.last() + "\n"@
    }
}

/// One more text comes on lines of its own after the others.
pub proof fn lemma_push_line(lines: Seq<Seq<char>>, line: Seq<char>)
    ensures
        lines_text(lines.push(line)) == lines_text(lines) + line + "\n"@,
{
    assert(lines.push(line).drop_last() =~= lines);
}

/// Adds a text on lines of its own.
pub fn push_line(out: &mut String, line: &str)
    ensures
        final(out)@ == old(out)@ + line@ + "\n"@,
{
    out.append(line);
    out.append("\n");
}

// ---- tables ------------------------------------------------------------------------
/// The greater of two numbers.
pub open spec fn greater(a: int, b: int) -> int {
    if a >= b {
        a
    } else {
        b
    }
}

/// How many bytes of a cell count for the width of its column: sixty at most.
pub open spec fn counted(cell: Seq<char>) -> int {
    if text::byte_len(cell) <= 60 {
        text::byte_len(cell)
    } else {
        60
    }
}

/// The width of a column: that of its name, or of its widest cell.
pub open spec fn width_of(name: Seq<char>, cells: Seq<Seq<char>>) -> int
    decreases cells.len(),
{
    if cells.len() == 0 {
        text::byte_len(name)
    } else {
        greater(width_of(name, cells.drop_last()), counted(cells.last()))
    }
}

/// A text with as many spaces after it as make it `width` characters long.
pub open spec fn padded(s: Seq<char>, width: int) -> Seq<char> {
    if s.len() < width {
        s + text::repeated(' ', (width - s.len()) as nat)
    } else {
        s
    }
}

/// A cell as it stands in a column of a width: one that has more bytes is cut before the
/// last of them, and an ellipsis stands for the rest.
pub open spec fn fitted(s: Seq<char>, width: int) -> Seq<char> {
    if text::byte_len(s) > width {
        padded(text::first_bytes(s, width - 1) + "…"@, width)
    } else {
        padded(s, width)
    }
}

/// Whether a cell can be cut to a width, if it has to be: a character ends where it is cut.
pub open spec fn fits(s: Seq<char>, width: int) -> bool {
    text::byte_len(s) > width ==> text::can_cut(s, width - 1)
}

/// The cells of one column, where each row has its cells in the order of the columns.
pub open spec fn column(rows: Seq<Seq<Seq<char>>>, c: int) -> Seq<Seq<char>> {
    rows.map_values(|row: Seq<Seq<char>>| row[c])
}

/// The widths of all columns.
pub open spec fn widths_of(columns: Seq<Seq<char>>, rows: Seq<Seq<Seq<char>>>) -> Seq<int> {
    Seq::new(columns.len(), |c: int| width_of(columns[c], column(rows, c)))
}

/// The line of a row.
pub open spec fn row_line(cells: Seq<Seq<char>>, widths: Seq<int>) -> Seq<char> {
    text::joined(Seq::new(cells.len(), |c: int| fitted(cells[c], widths[c])), "  "@)
}

/// The line of the names of the columns.
pub open spec fn header_line(columns: Seq<Seq<char>>, widths: Seq<int>) -> Seq<char> {
    text::joined(Seq::new(columns.len(), |c: int| padded(columns[c], widths[c])), "  "@)
}

/// The line under the names of the columns.
pub open spec fn rule_line(widths: Seq<int>) -> Seq<char> {
    text::joined(
        Seq::new(widths.len(), |c: int| text::repeated('-', widths[c] as nat)),
        "  "@,
    )
}

/// A table.
pub open spec fn table_text(columns: Seq<Seq<char>>, rows: Seq<Seq<Seq<char>>>) -> Seq<char> {
    let widths = widths_of(columns, rows);
    lines_text(
        seq![header_line(columns, widths), rule_line(widths)] + rows.map_values(
            |row: Seq<Seq<char>>| row_line(row, widths),
        ),
    )
}

/// Whether every row has a cell for every column.
pub open spec fn is_even(columns: Seq<Seq<char>>, rows: Seq<Seq<Seq<char>>>) -> bool {
    forall|r: int| 0 <= r < rows.len() ==> (#[trigger] rows[r]).len() == columns.len()
}

/// Whether every cell of a table can be cut where it has to be.
pub open spec fn table_fits(columns: Seq<Seq<char>>, rows: Seq<Seq<Seq<char>>>) -> bool {
    forall|r: int, c: int|
        0 <= r < rows.len() && 0 <= c < columns.len() ==> fits(
            #[trigger] rows[r][c],
            widths_of(columns, rows)[c],
        )
}

fn column_width(name: &str, rows: &Vec<Vec<String>>, c: usize) -> (r: usize)
    requires
        forall|k: int| 0 <= k < rows.len() ==> c < (#[trigger] rows.deep_view()[k]).len(),
    ensures
        r == width_of(name@, column(rows.deep_view(), c as int)),
{
    let ghost all = column(rows.deep_view(), c as int);
    let mut width: usize = bytes_in(name);
    let mut i: usize = 0;
    assert(all.take(0) =~= Seq::empty());
    while i < rows.len()
        invariant
            i <= rows.len(),
            all == column(rows.deep_view(), c as int),
            forall|k: int| 0 <= k < rows.len() ==> c < (#[trigger] rows.deep_view()[k]).len(),
            width == width_of(name@, all.take(i as int)),
        decreases rows.len() - i,
    {
        assert(c < rows.deep_view()[i as int].len());
        let n: usize = bytes_in(rows[i][c].as_str());
        let n: usize = if n <= 60 {
            n
        } else {
            60
        };
        proof {
            assert(all.take(i + 1).drop_last() =~= all.take(i as int));
            assert(all.take(i + 1).last() == rows.deep_view()[i as int][c as int]);
        }
        if n > width {
            width = n;
        }
        i += 1;
    }
    assert(all.take(i as int) =~= all);
    width
}

/// Widths as numbers.
pub open spec fn as_ints(widths: Seq<usize>) -> Seq<int> {
    widths.map_values(|w: usize| w as int)
}

fn column_widths(columns: &Vec<String>, rows: &Vec<Vec<String>>) -> (r: Vec<usize>)
    requires
        is_even(columns.deep_view(), rows.deep_view()),
    ensures
        as_ints(r@) == widths_of(columns.deep_view(), rows.deep_view()),
{
    let mut out: Vec<usize> = Vec::new();
    let mut c: usize = 0;
    while c < columns.len()
        invariant
            c == out.len() <= columns.len(),
            is_even(columns.deep_view(), rows.deep_view()),
            forall|k: int|
                0 <= k < c ==> #[trigger] out@[k] == width_of(
                    columns.deep_view()[k],
                    column(rows.deep_view(), k),
                ),
        decreases columns.len() - c,
    {
        out.push(column_width(columns[c].as_str(), rows, c));
        c += 1;
    }
    assert(as_ints(out@) =~= widths_of(columns.deep_view(), rows.deep_view()));
    out
}

fn pad(s: &str, width: usize) -> (r: String)
    ensures
        r@ == padded(s@, width as int),
{
    let n: usize = chars_of(s).len();
    if n < width {
        let spaces: String = repeat(' ', width - n);
        cat(s, spaces.as_str())
    } else {
        s.to_owned()
    }
}

fn fit(s: &str, width: usize) -> (r: Option<String>)
    ensures
        match r {
            Some(t) => fits(s@, width as int) && t@ == fitted(s@, width as int),
            None => !fits(s@, width as int),
        },
{
    if bytes_in(s) > width {
        if width == 0 {
            proof {
                vstd::utf8::encode_utf8_valid_utf8(s@);
            }
            return None;
        }
        match take_bytes(s, width - 1) {
            Some(head) => {
                let cut: String = cat(head, "…");
                Some(pad(cut.as_str(), width))
            },
            None => None,
        }
    } else {
        Some(pad(s, width))
    }
}

fn header(columns: &Vec<String>, widths: &Vec<usize>) -> (r: String)
    requires
        columns.len() == widths.len(),
    ensures
        r@ == header_line(columns.deep_view(), as_ints(widths@)),
{
    let mut parts: Vec<String> = Vec::new();
    let mut c: usize = 0;
    while c < columns.len()
        invariant
            c == parts.len() <= columns.len() == widths.len(),
            forall|k: int|
                0 <= k < c ==> (#[trigger] parts@[k])@ == padded(
                    columns.deep_view()[k],
                    as_ints(widths@)[k],
                ),
        decreases columns.len() - c,
    {
        parts.push(pad(columns[c].as_str(), widths[c]));
        c += 1;
    }
    assert(parts.deep_view() =~= Seq::new(
        columns.deep_view().len(),
        |c: int| padded(columns.deep_view()[c], as_ints(widths@)[c]),
    ));
    join(&parts, "  ")
}

fn rule(widths: &Vec<usize>) -> (r: String)
    ensures
        r@ == rule_line(as_ints(widths@)),
{
    let mut parts: Vec<String> = Vec::new();
    let mut c: usize = 0;
    while c < widths.len()
        invariant
            c == parts.len() <= widths.len(),
            forall|k: int|
                0 <= k < c ==> (#[trigger] parts@[k])@ == text::repeated(
                    '-',
                    as_ints(widths@)[k] as nat,
                ),
        decreases widths.len() - c,
    {
        parts.push(repeat('-', widths[c]));
        c += 1;
    }
    assert(parts.deep_view() =~= Seq::new(
        as_ints(widths@).len(),
        |c: int| text::repeated('-', as_ints(widths@)[c] as nat),
    ));
    join(&parts, "  ")
}

/// Whether every cell of a row can be cut where it has to be.
pub open spec fn row_fits(cells: Seq<Seq<char>>, widths: Seq<int>) -> bool {
    forall|c: int| 0 <= c < cells.len() ==> fits(#[trigger] cells[c], widths[c])
}

fn line_of(cells: &Vec<String>, widths: &Vec<usize>) -> (r: Option<String>)
    requires
        cells.len() == widths.len(),
    ensures
        match r {
            Some(t) => row_fits(cells.deep_view(), as_ints(widths@)) && t@ == row_line(
                cells.deep_view(),
                as_ints(widths@),
            ),
            None => !row_fits(cells.deep_view(), as_ints(widths@)),
        },
{
    let mut parts: Vec<String> = Vec::new();
    let mut c: usize = 0;
    while c < cells.len()
        invariant
            c == parts.len() <= cells.len() == widths.len(),
            forall|k: int|
                0 <= k < c ==> (#[trigger] parts@[k])@ == fitted(
                    cells.deep_view()[k],
                    as_ints(widths@)[k],
                ),
            forall|k: int|
                0 <= k < c ==> fits(#[trigger] cells.deep_view()[k], as_ints(widths@)[k]),
        decreases cells.len() - c,
    {
        match fit(cells[c].as_str(), widths[c]) {
            Some(part) => {
                parts.push(part);
            },
            None => {
                assert(!fits(cells.deep_view()[c as int], as_ints(widths@)[c as int]));
                return None;
            },
        }
        c += 1;
    }
    assert(parts.deep_view() =~= Seq::new(
        cells.deep_view().len(),
        |c: int| fitted(cells.deep_view()[c], as_ints(widths@)[c]),
    ));
    Some(join(&parts, "  "))
}

/// Writes a table of cells. There is none where a cell would have to be cut within a
/// character.
pub fn table(columns: &Vec<String>, rows: &Vec<Vec<String>>) -> (r: Option<String>)
    requires
        is_even(columns.deep_view(), rows.deep_view()),
    ensures
        match r {
            Some(t) => table_fits(columns.deep_view(), rows.deep_view()) && t@ == table_text(
                columns.deep_view(),
                rows.deep_view(),
            ),
            None => !table_fits(columns.deep_view(), rows.deep_view()),
        },
{
    let ghost names = columns.deep_view();
    let ghost all = rows.deep_view();
    let widths: Vec<usize> = column_widths(columns, rows);
    let ghost wide = as_ints(widths@);
    assert(wide.len() == names.len());
    let head: String = header(columns, &widths);
    let under: String = rule(&widths);
    let mut out: String = String::new();
    push_line(&mut out, head.as_str());
    push_line(&mut out, under.as_str());
    let ghost top = seq![header_line(names, wide), rule_line(wide)];
    let ghost lines = top + all.map_values(|row: Seq<Seq<char>>| row_line(row, wide));
    proof {
        assert(lines.take(2) =~= top);
        assert(top.drop_last() =~= seq![header_line(names, wide)]);
        assert(top.drop_last().drop_last() =~= Seq::empty());
        assert(lines_text(top.drop_last().drop_last()) =~= Seq::empty());
        assert(lines_text(top.drop_last()) =~= head@ + "\n"@);
        assert(out@ =~= lines_text(top));
    }
    let mut i: usize = 0;
    while i < rows.len()
        invariant
            i <= rows.len(),
            names == columns.deep_view(),
            all == rows.deep_view(),
            is_even(names, all),
            wide == as_ints(widths@),
            wide == widths_of(names, all),
            wide.len() == names.len(),
            lines == seq![header_line(names, wide), rule_line(wide)] + all.map_values(
                |row: Seq<Seq<char>>| row_line(row, wide),
            ),
            out@ == lines_text(lines.take(i + 2)),
            forall|k: int| 0 <= k < i ==> row_fits(#[trigger] all[k], wide),
        decreases rows.len() - i,
    {
        assert(all[i as int] == rows@[i as int].deep_view());
        assert(all[i as int].len() == names.len());
        match line_of(&rows[i], &widths) {
            Some(line) => {
                push_line(&mut out, line.as_str());
            },
            None => {
                proof {
                    let c = choose|c: int|
                        0 <= c < all[i as int].len() && !fits(
                            #[trigger] all[i as int][c],
                            wide[c],
                        );
                    assert(!fits(all[i as int][c], widths_of(names, all)[c]));
                }
                return None;
            },
        }
        proof {
            assert(lines.take(i + 3).drop_last() =~= lines.take(i + 2));
            assert(lines.take(i + 3).last() == row_line(all[i as int], wide));
        }
        i += 1;
    }
    proof {
        assert(lines.take(i + 2) =~= lines);
        assert forall|r: int, c: int| 0 <= r < all.len() && 0 <= c < names.len() implies fits(
            #[trigger] all[r][c],
            widths_of(names, all)[c],
        ) by {
            assert(row_fits(all[r], wide));
        }
    }
    Some(out)
}

// ---- rows --------------------------------------------------------------------------
/// The cells of all rows.
pub open spec fn cells_of_all(
    rows: Seq<JsonView>,
    columns: Seq<Seq<char>>,
) -> Seq<Seq<Seq<char>>> {
    rows.map_values(|row: JsonView| cells_of(row, columns))
}

/// Rows as they are shown.
pub open spec fn shown(
    rows: Seq<JsonView>,
    columns: Seq<Seq<char>>,
    format: Format,
) -> Seq<char> {
    match format {
        Format::Json => lines_text(rows.map_values(|row: JsonView| json::compact_text(row))),
        Format::JsonPretty => lines_text(rows.map_values(|row: JsonView| json::pretty_text(row))),
        Format::Tsv => lines_text(
            seq![text::joined(columns, "\t"@)] + rows.map_values(
                |row: JsonView| text::joined(cells_of(row, columns), "\t"@),
            ),
        ),
        Format::Table => table_text(columns, cells_of_all(rows, columns)),
    }
}

/// Whether rows can be shown: in a table, every cell that is cut is cut between characters.
pub open spec fn can_show(
    rows: Seq<JsonView>,
    columns: Seq<Seq<char>>,
    format: Format,
) -> bool {
    format is Table ==> table_fits(columns, cells_of_all(rows, columns))
}

fn json_lines(rows: &Vec<Json>) -> (r: String)
    ensures
        r@ == lines_text(rows.deep_view().map_values(|row: JsonView| json::compact_text(row))),
{
    let ghost lines = rows.deep_view().map_values(|row: JsonView| json::compact_text(row));
    let mut out: String = String::new();
    let mut i: usize = 0;
    assert(lines.take(0) =~= Seq::empty());
    assert(out@ =~= lines_text(lines.take(0)));
    while i < rows.len()
        invariant
            i <= rows.len(),
            lines == rows.deep_view().map_values(|row: JsonView| json::compact_text(row)),
            out@ == lines_text(lines.take(i as int)),
        decreases rows.len() - i,
    {
        let line: String = to_text(&rows[i]);
        push_line(&mut out, line.as_str());
        proof {
            assert(lines.take(i + 1).drop_last() =~= lines.take(i as int));
            assert(lines.take(i + 1).last() == line@);
        }
        i += 1;
    }
    assert(lines.take(i as int) =~= lines);
    out
}

fn json_blocks(rows: &Vec<Json>) -> (r: String)
    ensures
        r@ == lines_text(rows.deep_view().map_values(|row: JsonView| json::pretty_text(row))),
{
    let ghost lines = rows.deep_view().map_values(|row: JsonView| json::pretty_text(row));
    let mut out: String = String::new();
    let mut i: usize = 0;
    assert(lines.take(0) =~= Seq::empty());
    assert(out@ =~= lines_text(lines.take(0)));
    while i < rows.len()
        invariant
            i <= rows.len(),
            lines == rows.deep_view().map_values(|row: JsonView| json::pretty_text(row)),
            out@ == lines_text(lines.take(i as int)),
        decreases rows.len() - i,
    {
        let line: String = to_pretty_text(&rows[i]);
        push_line(&mut out, line.as_str());
        proof {
            assert(lines.take(i + 1).drop_last() =~= lines.take(i as int));
            assert(lines.take(i + 1).last() == line@);
        }
        i += 1;
    }
    assert(lines.take(i as int) =~= lines);
    out
}

fn tabbed(rows: &Vec<Json>, columns: &Vec<String>) -> (r: String)
    ensures
        r@ == shown(rows.deep_view(), columns.deep_view(), Format::Tsv),
{
    let ghost names = columns.deep_view();
    let ghost top = seq![text::joined(names, "\t"@)];
    let ghost lines = top + rows.deep_view().map_values(
        |row: JsonView| text::joined(cells_of(row, names), "\t"@),
    );
    let head: String = join(columns, "\t");
    let mut out: String = String::new();
    push_line(&mut out, head.as_str());
    proof {
        assert(lines.take(1) =~= top);
        assert(top.drop_last() =~= Seq::empty());
        assert(lines_text(top.drop_last()) =~= Seq::empty());
        assert(out@ =~= lines_text(top));
    }
    let mut i: usize = 0;
    while i < rows.len()
        invariant
            i <= rows.len(),
            names == columns.deep_view(),
            lines == seq![text::joined(names, "\t"@)] + rows.deep_view().map_values(
                |row: JsonView| text::joined(cells_of(row, names), "\t"@),
            ),
            out@ == lines_text(lines.take(i + 1)),
        decreases rows.len() - i,
    {
        let cells: Vec<String> = row_cells(&rows[i], columns);
        let line: String = join(&cells, "\t");
        push_line(&mut out, line.as_str());
        proof {
            assert(lines.take(i + 2).drop_last() =~= lines.take(i + 1));
            assert(lines.take(i + 2).last() == line@);
        }
        i += 1;
    }
    assert(lines.take(i + 1) =~= lines);
    out
}

fn all_cells(rows: &Vec<Json>, columns: &Vec<String>) -> (r: Vec<Vec<String>>)
    ensures
        r.deep_view() == cells_of_all(rows.deep_view(), columns.deep_view()),
{
    let mut out: Vec<Vec<String>> = Vec::new();
    let mut i: usize = 0;
    while i < rows.len()
        invariant
            i == out.len() <= rows.len(),
            forall|k: int|
                0 <= k < i ==> (#[trigger] out@[k]).deep_view() == cells_of(
                    rows.deep_view()[k],
                    columns.deep_view(),
                ),
        decreases rows.len() - i,
    {
        out.push(row_cells(&rows[i], columns));
        i += 1;
    }
    assert(out.deep_view() =~= cells_of_all(rows.deep_view(), columns.deep_view()));
    out
}

/// Writes rows as they are shown. There is nothing to show where a cell of a table would have
/// to be cut within a character.
pub fn render(rows: &Vec<Json>, columns: &Vec<String>, format: Format) -> (r: Option<String>)
    ensures
        match r {
            Some(t) => can_show(rows.deep_view(), columns.deep_view(), format) && t@ == shown(
                rows.deep_view(),
                columns.deep_view(),
                format,
            ),
            None => !can_show(rows.deep_view(), columns.deep_view(), format),
        },
{
    match format {
        Format::Json => Some(json_lines(rows)),
        Format::JsonPretty => Some(json_blocks(rows)),
        Format::Tsv => Some(tabbed(rows, columns)),
        Format::Table => {
            let cells: Vec<Vec<String>> = all_cells(rows, columns);
            table(columns, &cells)
        },
    }
}

} // verus!
