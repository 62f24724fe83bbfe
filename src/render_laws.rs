use vstd::prelude::*;

use crate::render::{
    console_cell, console_cells, console_line, document_cell, document_cells, document_line,
    escaped, full_text, padded, shortened,
};

verus! {

/// How many pipes of `s` have no backslash just before them: the ones that
/// separate the cells of a table line.
pub open spec fn unescaped_pipes(s: Seq<char>) -> nat
    decreases s.len(),
{
    if s.len() == 0 {
        0
    } else {
        unescaped_pipes(s.drop_last()) + if s.last() == '|' && (s.len() == 1 || s[s.len() - 2]
            != '\\') {
            1nat
        } else {
            0nat
        }
    }
}

proof fn lemma_pipes_short(a: char, b: char)
    ensures
        unescaped_pipes(seq![a]) == if a == '|' {
            1nat
        } else {
            0nat
        },
        unescaped_pipes(seq![a, b]) == unescaped_pipes(seq![a]) + if b == '|' && a != '\\' {
            1nat
        } else {
            0nat
        },
{
    reveal_with_fuel(unescaped_pipes, 3);
    assert(seq![a].drop_last() =~= Seq::<char>::empty());
    assert(seq![a, b].drop_last() =~= seq![a]);
}

proof fn lemma_pipes_add(a: Seq<char>, b: Seq<char>)
    requires
        b.len() > 0 ==> b[0] != '|',
    ensures
        unescaped_pipes(a + b) == unescaped_pipes(a) + unescaped_pipes(b),
    decreases b.len(),
{
    if b.len() == 0 {
        assert(a + b =~= a);
    } else {
        assert((a + b).drop_last() =~= a + b.drop_last());
        lemma_pipes_add(a, b.drop_last());
        if b.len() >= 2 {
            assert((a + b)[a.len() + b.len() - 2] == b[b.len() - 2]);
        }
    }
}

proof fn lemma_escaped_pipes(t: Seq<char>)
    ensures
        unescaped_pipes(escaped(t)) == 0,
        escaped(t).len() > 0 ==> escaped(t)[0] != '|',
    decreases t.len(),
{
    if t.len() > 0 {
        let front = escaped(t.drop_last());
        lemma_escaped_pipes(t.drop_last());
        let chunk = if t.last() == '|' {
            seq!['\\', '|']
        } else {
            seq![t.last()]
        };
        lemma_pipes_add(front, chunk);
        lemma_pipes_short('\\', '|');
        lemma_pipes_short(t.last(), '|');
        if front.len() > 0 {
            assert((front + chunk)[0] == front[0]);
        } else {
            assert((front + chunk)[0] == chunk[0]);
        }
    }
}

proof fn lemma_cell_pipes(v: Option<String>)
    ensures
        unescaped_pipes(document_cell(v)) == 1,
        document_cell(v)[0] == ' ',
{
    let e = escaped(full_text(v));
    lemma_escaped_pipes(full_text(v));
    lemma_pipes_add(seq![' '], e);
    lemma_pipes_add(seq![' '] + e, seq![' ', '|']);
    lemma_pipes_short(' ', '|');
}

proof fn lemma_cells_pipes(row: Seq<Option<String>>)
    ensures
        unescaped_pipes(document_cells(row)) == row.len(),
        document_cells(row).len() > 0 ==> document_cells(row)[0] == ' ',
    decreases row.len(),
{
    if row.len() > 0 {
        let front = document_cells(row.drop_last());
        lemma_cells_pipes(row.drop_last());
        lemma_cell_pipes(row.last());
        lemma_pipes_add(front, document_cell(row.last()));
        if front.len() > 0 {
            assert((front + document_cell(row.last()))[0] == front[0]);
        } else {
            assert((front + document_cell(row.last()))[0] == document_cell(row.last())[0]);
        }
    }
}

/// Whatever the values hold, a line of the document's table has exactly one
/// unescaped pipe more than the row has values, so splitting it at those
/// pipes gives back the row's column count.
pub proof fn lemma_document_line_pipes(row: Seq<Option<String>>)
    ensures
        unescaped_pipes(document_line(row)) == row.len() + 1,
{
    let cells = document_cells(row);
    lemma_cells_pipes(row);
    lemma_pipes_add(seq!['|'], cells);
    lemma_pipes_add(seq!['|'] + cells, seq!['\n']);
    lemma_pipes_short('|', '|');
    lemma_pipes_short('\n', '|');
}

proof fn lemma_console_prefix(row: Seq<Option<String>>, m: int)
    requires
        0 <= m <= row.len(),
    ensures
        console_cells(row.take(m)).is_prefix_of(console_cells(row)),
        document_cells(row.take(m)).is_prefix_of(document_cells(row)),
    decreases row.len(),
{
    if m == row.len() {
        assert(row.take(m) =~= row);
    } else {
        lemma_console_prefix(row.drop_last(), m);
        assert(row.drop_last().take(m) =~= row.take(m));
    }
}

proof fn lemma_escaped_plain(t: Seq<char>)
    requires
        forall|i: int| 0 <= i < t.len() ==> #[trigger] t[i] != '|',
    ensures
        escaped(t) == t,
    decreases t.len(),
{
    if t.len() > 0 {
        lemma_escaped_plain(t.drop_last());
        assert(t.drop_last() + seq![t.last()] =~= t);
    }
}

/// A value whose full text is over 16 characters appears in the console as
/// its first 13 characters and `...`, and in the document whole (escaped,
/// which leaves a text without pipes as it is).
pub proof fn lemma_long_value(row: Seq<Option<String>>, j: int)
    requires
        0 <= j < row.len(),
        row[j] is Some,
        full_text(row[j]).len() > 16,
    ensures
        (console_line(row.take(j)) + seq![' '] + full_text(row[j]).take(13) + seq![
            '.',
            '.',
            '.',
            ' ',
            '|',
        ]).is_prefix_of(console_line(row)),
        (seq!['|'] + document_cells(row.take(j)) + seq![' '] + escaped(full_text(row[j]))
            + seq![' ', '|']).is_prefix_of(document_line(row)),
        (forall|i: int|
            0 <= i < full_text(row[j]).len() ==> #[trigger] full_text(row[j])[i] != '|')
            ==> escaped(full_text(row[j])) == full_text(row[j]),
{
    let t = full_text(row[j]);
    let front = row.take(j + 1);
    assert(front.drop_last() =~= row.take(j));
    assert(front.last() == row[j]);
    lemma_console_prefix(row, j + 1);
    assert(shortened(t).len() == 16);
    assert(padded(shortened(t)) == shortened(t));
    assert(console_line(row.take(j)) + seq![' '] + t.take(13) + seq!['.', '.', '.', ' ', '|']
        =~= seq!['|'] + console_cells(front));
    assert(seq!['|'] + document_cells(row.take(j)) + seq![' '] + escaped(t) + seq![' ', '|']
        =~= seq!['|'] + document_cells(front));
    let c = console_cells(row);
    let d = document_cells(row);
    assert((seq!['|'] + c).subrange(0, 1 + console_cells(front).len() as int) =~= seq!['|']
        + c.subrange(0, console_cells(front).len() as int));
    assert((seq!['|'] + d + seq!['\n']).subrange(0, 1 + document_cells(front).len() as int)
        =~= seq!['|'] + d.subrange(0, document_cells(front).len() as int));
    if forall|i: int| 0 <= i < t.len() ==> #[trigger] t[i] != '|' {
        lemma_escaped_plain(t);
    }
}

} // verus!
