use wq::splitter::split_cql_statements;

fn split(q: &str) -> Vec<String> {
    split_cql_statements(q)
}

#[test]
fn plain_statements_match_naive_split() {
    let q = "SELECT * FROM a; INSERT INTO b VALUES (1) ;;  \n UPDATE c SET x = 2";
    let naive: Vec<String> = q
        .split(';')
        .map(|p| p.trim().to_string())
        .filter(|p| !p.is_empty())
        .collect();
    assert_eq!(split(q), naive);
    assert_eq!(
        split(q),
        vec!["SELECT * FROM a", "INSERT INTO b VALUES (1)", "UPDATE c SET x = 2"]
    );
}

#[test]
fn doubled_quote_stays_in_string() {
    assert_eq!(
        split("INSERT INTO t (v) VALUES ('it''s ok'); SELECT 1"),
        vec!["INSERT INTO t (v) VALUES ('it''s ok')", "SELECT 1"]
    );
    assert_eq!(split("'it''s ok'"), vec!["'it''s ok'"]);
}

#[test]
fn doubled_double_quote_stays_in_string() {
    assert_eq!(split("SELECT \"a\"\";b\""), vec!["SELECT \"a\"\";b\""]);
}

#[test]
fn open_quote_swallows_terminator() {
    assert_eq!(split("SELECT 'a;b"), vec!["SELECT 'a;b"]);
    assert_eq!(split("  SELECT \"x; y;  "), vec!["SELECT \"x; y;"]);
}

#[test]
fn semicolon_inside_string_is_kept() {
    assert_eq!(
        split("INSERT INTO t (v) VALUES ('a;b'); SELECT 2;"),
        vec!["INSERT INTO t (v) VALUES ('a;b')", "SELECT 2"]
    );
}

#[test]
fn comment_is_removed() {
    assert_eq!(
        split("SELECT 1; -- comment with ; inside\nSELECT 2;"),
        vec!["SELECT 1", "SELECT 2"]
    );
}

#[test]
fn comment_at_end_of_input() {
    assert_eq!(split("SELECT 1 -- trailing; note"), vec!["SELECT 1"]);
}

#[test]
fn comment_marker_inside_string_is_text() {
    assert_eq!(split("SELECT '--x'; SELECT 2"), vec!["SELECT '--x'", "SELECT 2"]);
}

#[test]
fn comment_joins_lines() {
    assert_eq!(split("SELECT a -- c\nFROM t;"), vec!["SELECT a FROM t"]);
}

#[test]
fn single_dash_is_text() {
    assert_eq!(split("SELECT 3 - 1;"), vec!["SELECT 3 - 1"]);
}

#[test]
fn empty_input_has_no_statements() {
    assert!(split("").is_empty());
}

#[test]
fn blank_input_has_no_statements() {
    assert!(split("  \n\t ").is_empty());
    assert!(split(" ; ;;\n").is_empty());
    assert!(split("-- only a comment\n ; -- another").is_empty());
}

#[test]
fn unicode_whitespace_is_trimmed() {
    assert_eq!(split("\u{3000}SELECT 1\u{a0};"), vec!["SELECT 1"]);
}

#[test]
fn open_quote_after_earlier_statements() {
    assert_eq!(
        split("SELECT 1; SELECT 2; SELECT 'a;b; c"),
        vec!["SELECT 1", "SELECT 2", "SELECT 'a;b; c"]
    );
}

#[test]
fn a_single_quote_is_a_statement() {
    assert_eq!(split(" ; ' ; "), vec!["' ;"]);
}
