use vstd::prelude::*;

use crate::splitter::views;
use crate::text::{decimal, push_decimal, push_str, string_of};

verus! {

/// One row of a result set: each column absent (null) or in its text form.
pub type ResultRow = Vec<Option<String>>;

/// What the renderer makes of one result set.
pub struct Rendered {
    /// The console preview, one entry per line.
    pub console: Vec<String>,
    /// The document fragment: the full table, then the row count.
    pub document: String,
    /// How many rows there were.
    pub row_count: usize,
}

/// A value's full text: `null` when it is absent.
pub open spec fn full_text(v: Option<String>) -> Seq<char> {
    match v {
        Some(s) => s@,
        None => seq!['n', 'u', 'l', 'l'],
    }
}

/// A text as the console shows it: over 16 characters, its first 13 and `...`.
pub open spec fn shortened(t: Seq<char>) -> Seq<char> {
    if t.len() > 16 {
        t.take(13) + seq!['.', '.', '.']
    } else {
        t
    }
}

/// `t` padded with spaces on the right to 16 characters.
pub open spec fn padded(t: Seq<char>) -> Seq<char> {
    if t.len() < 16 {
        t + Seq::new((16 - t.len()) as nat, |i: int| ' ')
    } else {
        t
    }
}

/// One console cell: the shortened text in a 16-wide column, then a pipe.
pub open spec fn console_cell(v: Option<String>) -> Seq<char> {
    seq![' '] + padded(shortened(full_text(v))) + seq![' ', '|']
}

pub open spec fn console_cells(row: Seq<Option<String>>) -> Seq<char>
    decreases row.len(),
{
    if row.len() == 0 {
        Seq::empty()
    } else {
        console_cells(row.drop_last()) + console_cell(row.last())
    }
}

/// A row as one console line.
pub open spec fn console_line(row: Seq<Option<String>>) -> Seq<char> {
    seq!['|'] + console_cells(row)
}

/// `t` with a backslash before each pipe.
pub open spec fn escaped(t: Seq<char>) -> Seq<char>
    decreases t.len(),
{
    if t.len() == 0 {
        t
    } else {
        escaped(t.drop_last()) + if t.last() == '|' {
            seq!['\\', '|']
        } else {
            seq![t.last()]
        }
    }
}

/// One document cell: the full text, escaped, then a pipe.
pub open spec fn document_cell(v: Option<String>) -> Seq<char> {
    seq![' '] + escaped(full_text(v)) + seq![' ', '|']
}

pub open spec fn document_cells(row: Seq<Option<String>>) -> Seq<char>
    decreases row.len(),
{
    if row.len() == 0 {
        Seq::empty()
    } else {
        document_cells(row.drop_last()) + document_cell(row.last())
    }
}

/// A row as one line of the document's table.
pub open spec fn document_line(row: Seq<Option<String>>) -> Seq<char> {
    seq!['|'] + document_cells(row) + seq!['\n']
}

pub open spec fn document_lines(rows: Seq<Seq<Option<String>>>) -> Seq<char>
    decreases rows.len(),
{
    if rows.len() == 0 {
        Seq::empty()
    } else {
        document_lines(rows.drop_last()) + document_line(rows.last())
    }
}

/// The header cells `Column 1` to `Column k`.
pub open spec fn header_cells(k: nat) -> Seq<char>
    decreases k,
{
    if k == 0 {
        Seq::empty()
    } else {
        header_cells((k - 1) as nat) + " Column "@ + decimal(k) + seq![' ', '|']
    }
}

/// The separator cells under a header of `k` columns.
pub open spec fn separator_cells(k: nat) -> Seq<char>
    decreases k,
{
    if k == 0 {
        Seq::empty()
    } else {
        separator_cells((k - 1) as nat) + " --- |"@
    }
}

/// The document's table: header and separator sized by the first row, one
/// line per row, a blank line; nothing at all when there are no rows.
pub open spec fn document_table(rows: Seq<Seq<Option<String>>>) -> Seq<char> {
    if rows.len() == 0 {
        Seq::empty()
    } else {
        let k = rows[0].len();
        seq!['|'] + header_cells(k) + seq!['\n', '|'] + separator_cells(k) + seq!['\n']
            + document_lines(rows) + seq!['\n']
    }
}

/// The line that gives the row count.
pub open spec fn row_summary(n: nat) -> Seq<char> {
    decimal(n) + " row(s) returned."@
}

/// The document fragment of a result set: its table, then the row count in italics.
pub open spec fn document_fragment(rows: Seq<Seq<Option<String>>>) -> Seq<char> {
    document_table(rows) + seq!['*'] + row_summary(rows.len()) + seq!['*', '\n', '\n']
}

/// The console preview of a result set: a blank line, one line per row, a
/// blank line and the row count.
pub open spec fn console_preview(rows: Seq<Seq<Option<String>>>) -> Seq<Seq<char>> {
    seq![Seq::empty()] + rows.map_values(|r: Seq<Option<String>>| console_line(r)) + seq![
        Seq::empty(),
        row_summary(rows.len()),
    ]
}

pub open spec fn rows_view(rows: Seq<ResultRow>) -> Seq<Seq<Option<String>>> {
    rows.map_values(|r: ResultRow| r@)
}

/// Appends the full text of `v`.
fn push_full_text(out: &mut Vec<char>, v: &Option<String>)
    ensures
        final(out)@ == old(out)@ + full_text(*v),
{
    match v {
        Some(s) => push_str(out, s.as_str()),
        None => {
            out.push('n');
            out.push('u');
            out.push('l');
            out.push('l');
            assert(final(out)@ =~= old(out)@ + full_text(*v));
        },
    }
}

/// The full text of a value: `null` when it is absent.
pub fn cell_text(v: &Option<String>) -> (r: String)
    ensures
        r@ == full_text(*v),
{
    let mut out: Vec<char> = Vec::new();
    push_full_text(&mut out, v);
    assert(out@ =~= full_text(*v));
    string_of(&out)
}

fn push_console_cell(out: &mut Vec<char>, v: &Option<String>)
    ensures
        final(out)@ == old(out)@ + console_cell(*v),
{
    let mut full: Vec<char> = Vec::new();
    push_full_text(&mut full, v);
    assert(full@ =~= full_text(*v));
    let mut short: Vec<char> = Vec::new();
    if full.len() > 16 {
        let mut i: usize = 0;
        while i < 13
            invariant
                i <= 13 < full@.len(),
                short@ == full@.take(i as int),
            decreases 13 - i,
        {
            short.push(full[i]);
            i = i + 1;
            assert(short@ =~= full@.take(i as int));
        }
        short.push('.');
        short.push('.');
        short.push('.');
        assert(short@ =~= shortened(full@));
    } else {
        short = full;
    }
    let ghost s0 = short@;
    while short.len() < 16
        invariant
            s0.len() <= short@.len(),
            s0.len() <= 16 ==> short@.len() <= 16,
            short@ == s0 + Seq::new((short@.len() - s0.len()) as nat, |i: int| ' '),
        decreases 16 - short.len(),
    {
        short.push(' ');
        assert(short@ =~= s0 + Seq::new((short@.len() - s0.len()) as nat, |i: int| ' '));
    }
    proof {
        if s0.len() >= 16 {
            assert(short@ =~= s0);
        }
        assert(short@ =~= padded(s0));
    }
    out.push(' ');
    let mut i: usize = 0;
    while i < short.len()
        invariant
            i <= short@.len(),
            out@ == old(out)@ + seq![' '] + short@.take(i as int),
        decreases short.len() - i,
    {
        out.push(short[i]);
        i = i + 1;
        assert(out@ =~= old(out)@ + seq![' '] + short@.take(i as int));
    }
    out.push(' ');
    out.push('|');
    assert(short@.take(i as int) =~= short@);
    assert(final(out)@ =~= old(out)@ + console_cell(*v));
}

/// A row as one console line: each value shortened to fit a 16-wide column.
pub fn console_row(row: &ResultRow) -> (r: String)
    ensures
        r@ == console_line(row@),
{
    let mut out: Vec<char> = Vec::new();
    out.push('|');
    let mut j: usize = 0;
    while j < row.len()
        invariant
            j <= row@.len(),
            out@ == seq!['|'] + console_cells(row@.take(j as int)),
        decreases row.len() - j,
    {
        push_console_cell(&mut out, &row[j]);
        assert(row@.take(j + 1).drop_last() =~= row@.take(j as int));
        j = j + 1;
        assert(out@ =~= seq!['|'] + console_cells(row@.take(j as int)));
    }
    assert(row@.take(j as int) =~= row@);
    string_of(&out)
}

fn push_escaped(out: &mut Vec<char>, t: &Vec<char>)
    ensures
        final(out)@ == old(out)@ + escaped(t@),
{
    let mut i: usize = 0;
    while i < t.len()
        invariant
            i <= t@.len(),
            out@ == old(out)@ + escaped(t@.take(i as int)),
        decreases t.len() - i,
    {
        assert(t@.take(i + 1).drop_last() =~= t@.take(i as int));
        if t[i] == '|' {
            out.push('\\');
        }
        out.push(t[i]);
        i = i + 1;
        assert(out@ =~= old(out)@ + escaped(t@.take(i as int)));
    }
    assert(t@.take(i as int) =~= t@);
}

/// `s` with a backslash before each pipe, so that it can stand in a table cell.
pub fn escape_pipes(s: &str) -> (r: String)
    ensures
        r@ == escaped(s@),
{
    let cs = crate::text::chars_of(s);
    let mut out: Vec<char> = Vec::new();
    push_escaped(&mut out, &cs);
    assert(out@ =~= escaped(s@));
    string_of(&out)
}

fn push_document_line(out: &mut Vec<char>, row: &ResultRow)
    ensures
        final(out)@ == old(out)@ + document_line(row@),
{
    out.push('|');
    let mut j: usize = 0;
    while j < row.len()
        invariant
            j <= row@.len(),
            out@ == old(out)@ + seq!['|'] + document_cells(row@.take(j as int)),
        decreases row.len() - j,
    {
        let mut full: Vec<char> = Vec::new();
        push_full_text(&mut full, &row[j]);
        assert(full@ =~= full_text(row@[j as int]));
        out.push(' ');
        push_escaped(out, &full);
        out.push(' ');
        out.push('|');
        assert(row@.take(j + 1).drop_last() =~= row@.take(j as int));
        j = j + 1;
        assert(out@ =~= old(out)@ + seq!['|'] + document_cells(row@.take(j as int)));
    }
    out.push('\n');
    assert(row@.take(j as int) =~= row@);
    assert(final(out)@ =~= old(out)@ + document_line(row@));
}

/// A row as one line of the document's table, with every value in full.
pub fn markdown_row(row: &ResultRow) -> (r: String)
    ensures
        r@ == document_line(row@),
{
    let mut out: Vec<char> = Vec::new();
    push_document_line(&mut out, row);
    assert(out@ =~= document_line(row@));
    string_of(&out)
}

fn push_header(out: &mut Vec<char>, k: usize)
    ensures
        final(out)@ == old(out)@ + seq!['|'] + header_cells(k as nat) + seq!['\n', '|']
            + separator_cells(k as nat) + seq!['\n'],
{
    out.push('|');
    let mut i: usize = 0;
    while i < k
        invariant
            i <= k,
            out@ == old(out)@ + seq!['|'] + header_cells(i as nat),
        decreases k - i,
    {
        push_str(out, " Column ");
        push_decimal(out, i + 1);
        out.push(' ');
        out.push('|');
        i = i + 1;
        assert(out@ =~= old(out)@ + seq!['|'] + header_cells(i as nat));
    }
    out.push('\n');
    out.push('|');
    let ghost mid = out@;
    let mut i: usize = 0;
    while i < k
        invariant
            i <= k,
            out@ == mid + separator_cells(i as nat),
        decreases k - i,
    {
        push_str(out, " --- |");
        i = i + 1;
        assert(out@ =~= mid + separator_cells(i as nat));
    }
    out.push('\n');
    assert(final(out)@ =~= old(out)@ + seq!['|'] + header_cells(k as nat) + seq!['\n', '|']
        + separator_cells(k as nat) + seq!['\n']);
}

fn push_summary(out: &mut Vec<char>, n: usize)
    ensures
        final(out)@ == old(out)@ + row_summary(n as nat),
{
    push_decimal(out, n);
    push_str(out, " row(s) returned.");
    assert(final(out)@ =~= old(out)@ + row_summary(n as nat));
}

/// The document fragment of a result set, with every value in full.
pub fn render_document(rows: &Vec<ResultRow>) -> (r: String)
    ensures
        r@ == document_fragment(rows_view(rows@)),
{
    let ghost rv = rows_view(rows@);
    let mut out: Vec<char> = Vec::new();
    if rows.len() > 0 {
        push_header(&mut out, rows[0].len());
        let ghost top = out@;
        let mut i: usize = 0;
        while i < rows.len()
            invariant
                i <= rows@.len(),
                rv == rows_view(rows@),
                out@ == top + document_lines(rv.take(i as int)),
            decreases rows.len() - i,
        {
            push_document_line(&mut out, &rows[i]);
            assert(rv.take(i + 1).drop_last() =~= rv.take(i as int));
            i = i + 1;
            assert(out@ =~= top + document_lines(rv.take(i as int)));
        }
        assert(rv.take(i as int) =~= rv);
        out.push('\n');
    }
    assert(out@ =~= document_table(rv));
    out.push('*');
    push_summary(&mut out, rows.len());
    out.push('*');
    out.push('\n');
    out.push('\n');
    assert(out@ =~= document_fragment(rv));
    string_of(&out)
}

/// The console preview of a result set, line by line.
pub fn render_console(rows: &Vec<ResultRow>) -> (r: Vec<String>)
    ensures
        views(r@) == console_preview(rows_view(rows@)),
{
    let ghost rv = rows_view(rows@);
    let mut lines: Vec<String> = Vec::new();
    lines.push(String::new());
    let mut i: usize = 0;
    while i < rows.len()
        invariant
            i <= rows@.len(),
            rv == rows_view(rows@),
            views(lines@) == seq![Seq::<char>::empty()] + rv.take(i as int).map_values(
                |r: Seq<Option<String>>| console_line(r),
            ),
        decreases rows.len() - i,
    {
        let line = console_row(&rows[i]);
        let ghost before = lines@;
        lines.push(line);
        proof {
            assert(rv[i as int] == rows@[i as int]@);
            assert(views(lines@) =~= views(before).push(line@));
            assert(rv.take(i + 1) =~= rv.take(i as int).push(rv[i as int]));
        }
        i = i + 1;
        assert(views(lines@) =~= seq![Seq::<char>::empty()] + rv.take(i as int).map_values(
            |r: Seq<Option<String>>| console_line(r),
        ));
    }
    assert(rv.take(i as int) =~= rv);
    lines.push(String::new());
    let mut s: Vec<char> = Vec::new();
    push_summary(&mut s, rows.len());
    lines.push(string_of(&s));
    assert(s@ =~= row_summary(rows@.len() as nat));
    assert(views(lines@) =~= console_preview(rv));
    lines
}

/// Renders a result set: the console preview with shortened values, the
/// document fragment with full ones, and the row count.
pub fn render_rows(rows: &Vec<ResultRow>) -> (r: Rendered)
    ensures
        r.row_count == rows@.len(),
        views(r.console@) == console_preview(rows_view(rows@)),
        r.document@ == document_fragment(rows_view(rows@)),
{
    Rendered {
        console: render_console(rows),
        document: render_document(rows),
        row_count: rows.len(),
    }
}

} // verus!
