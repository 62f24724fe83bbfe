use wq::preview::{cmd_info, get_preview_file_path};
use wq::report::{
    is_context_switch, names_context_switch, report_document, statement_section, Outcome,
    StatementResult,
};

fn result(statement: &str, outcome: Outcome) -> StatementResult {
    StatementResult { statement: statement.to_string(), outcome }
}

#[test]
fn use_statement_is_context_switch() {
    assert!(is_context_switch("USE ks"));
    assert!(is_context_switch("  use ks"));
    assert!(is_context_switch("Use\tks") == false);
    assert!(!is_context_switch("USER ks"));
    assert!(!is_context_switch("SELECT 1"));
    assert!(!is_context_switch("use"));
}

#[test]
fn names_context_switch_reads_upper_case() {
    assert!(names_context_switch("USE KS"));
    assert!(!names_context_switch("use ks"));
    assert!(!names_context_switch("US"));
}

#[test]
fn empty_report_says_no_statements() {
    assert_eq!(
        report_document(&Vec::new()),
        "# CQL Query Results\n\nNo valid CQL statements found.\n"
    );
}

#[test]
fn report_has_one_section_per_statement() {
    let results = vec![
        result("USE ks", Outcome::ContextSwitched),
        result("CREATE TABLE t (k int PRIMARY KEY)", Outcome::NoRows),
        result("SELECT k FROM t", Outcome::Rows(vec![vec![Some("Int(1)".to_string())]])),
        result("SELECT nope", Outcome::Failed("bad query".to_string())),
    ];
    let doc = report_document(&results);
    let expected = "# CQL Query Results\n\nExecuted 4 statement(s)\n\n---\n\n\
## Statement 1/4\n\n```cql\nUSE ks\n```\n\n*Database context switched.*\n\n\n\
## Statement 2/4\n\n```cql\nCREATE TABLE t (k int PRIMARY KEY)\n```\n\n\
*Statement executed successfully (no rows returned).*\n\n\n\
## Statement 3/4\n\n```cql\nSELECT k FROM t\n```\n\n\
| Column 1 |\n| --- |\n| Int(1) |\n\n*1 row(s) returned.*\n\n\n\
## Statement 4/4\n\n```cql\nSELECT nope\n```\n\n**Error:** bad query\n\n";
    assert_eq!(doc, expected);
}

#[test]
fn section_with_zero_rows() {
    let s = statement_section(0, 1, &result("SELECT 1", Outcome::Rows(Vec::new())));
    assert_eq!(s, "## Statement 1/1\n\n```cql\nSELECT 1\n```\n\n*0 row(s) returned.*\n\n\n");
}

#[test]
fn preview_path_ends_with_file_name() {
    let p = get_preview_file_path("/tmp/project");
    assert!(p.ends_with(".pw.cql.md"));
    assert_eq!(p, format!("/tmp/project{}.pw.cql.md", std::path::MAIN_SEPARATOR));
}

#[test]
fn info_command_returns() {
    cmd_info();
}
