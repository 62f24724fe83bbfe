use wq::render::{
    cell_text, console_row, escape_pipes, markdown_row, render_console, render_document,
    render_rows,
};

fn row(cells: &[Option<&str>]) -> Vec<Option<String>> {
    cells.iter().map(|c| c.map(|s| s.to_string())).collect()
}

#[test]
fn zero_rows_give_only_the_summary() {
    let r = render_rows(&Vec::new());
    assert_eq!(r.row_count, 0);
    assert_eq!(r.document, "*0 row(s) returned.*\n\n");
    assert!(!r.document.contains('|'));
    assert_eq!(r.console, vec!["", "", "0 row(s) returned."]);
    assert!(r.console.iter().all(|l| !l.contains('|')));
}

#[test]
fn pipe_in_cell_is_escaped() {
    let line = markdown_row(&row(&[Some("a|b"), Some("c")]));
    assert_eq!(line, "| a\\|b | c |\n");
    let unescaped = line
        .char_indices()
        .filter(|&(i, c)| c == '|' && (i == 0 || line.as_bytes()[i - 1] != b'\\'))
        .count();
    assert_eq!(unescaped, 3);
}

#[test]
fn escape_pipes_adds_backslashes() {
    assert_eq!(escape_pipes("x|y||z"), "x\\|y\\|\\|z");
    assert_eq!(escape_pipes("plain"), "plain");
}

#[test]
fn long_value_truncated_on_console_only() {
    let value = "abcdefghijklmnopqrstuvwxyz";
    let r = render_rows(&vec![row(&[Some(value)])]);
    assert_eq!(r.console[1], "| abcdefghijklm... |");
    assert!(r.document.contains("| abcdefghijklmnopqrstuvwxyz |"));
}

#[test]
fn value_of_sixteen_is_not_truncated() {
    assert_eq!(console_row(&row(&[Some("0123456789abcdef")])), "| 0123456789abcdef |");
    assert_eq!(
        console_row(&row(&[Some("0123456789abcdefg")])),
        "| 0123456789abc... |"
    );
}

#[test]
fn short_values_are_padded() {
    assert_eq!(
        console_row(&row(&[Some("1"), None])),
        "| 1                | null             |"
    );
}

#[test]
fn null_cell_text() {
    assert_eq!(cell_text(&None), "null");
    assert_eq!(cell_text(&Some("Int(5)".to_string())), "Int(5)");
}

#[test]
fn document_table_has_header_and_rows() {
    let rows = vec![row(&[Some("Int(1)"), None]), row(&[Some("Text(\"x\")"), Some("Int(2)")])];
    let doc = render_document(&rows);
    assert_eq!(
        doc,
        "| Column 1 | Column 2 |\n| --- | --- |\n| Int(1) | null |\n| Text(\"x\") | Int(2) |\n\n*2 row(s) returned.*\n\n"
    );
}

#[test]
fn console_preview_lines() {
    let rows = vec![row(&[Some("a")]), row(&[Some("b")])];
    let lines = render_console(&rows);
    assert_eq!(
        lines,
        vec![
            "",
            "| a                |",
            "| b                |",
            "",
            "2 row(s) returned."
        ]
    );
}

#[test]
fn many_rows_count_in_decimal() {
    let rows: Vec<Vec<Option<String>>> = (0..12).map(|_| row(&[Some("x")])).collect();
    let r = render_rows(&rows);
    assert_eq!(r.row_count, 12);
    assert!(r.document.ends_with("*12 row(s) returned.*\n\n"));
    assert_eq!(r.console.last().unwrap(), "12 row(s) returned.");
}

#[test]
fn header_counts_past_nine_columns() {
    let cells: Vec<Option<&str>> = (0..10).map(|_| Some("v")).collect();
    let doc = render_document(&vec![row(&cells)]);
    assert!(doc.starts_with("| Column 1 |"));
    assert!(doc.contains(" Column 10 |\n"));
}
