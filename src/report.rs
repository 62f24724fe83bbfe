use vstd::prelude::*;

use crate::render::{document_fragment, render_document, rows_view, ResultRow};
use crate::text::{chars_of, decimal, push_decimal, push_str, string_of, trim, trim_chars};

verus! {

/// What became of one executed statement.
pub enum Outcome {
    /// The statement switched the keyspace in use.
    ContextSwitched,
    /// The statement returned these rows.
    Rows(Vec<ResultRow>),
    /// The statement ran and returned no result set.
    NoRows,
    /// The statement failed; the text describes the failure.
    Failed(String),
}

/// A statement with what became of it.
pub struct StatementResult {
    pub statement: String,
    pub outcome: Outcome,
}

/// What `str::to_uppercase` makes of `s`.
pub uninterp spec fn uppercase_of(s: Seq<char>) -> Seq<char>;

/// Relies on `str::to_uppercase`: the upper-case form of `s`, which depends
/// on its characters alone.
#[verifier::external_body]
fn to_upper(s: &str) -> (r: String)
    ensures
        r@ == uppercase_of(s@),
{
    s.to_uppercase()
}

/// Whether an upper-cased statement begins with the `USE` keyword.
pub open spec fn begins_with_use(u: Seq<char>) -> bool {
    u.len() >= 4 && u.take(4) == seq!['U', 'S', 'E', ' ']
}

/// Whether `upper`, a statement already trimmed and upper-cased, switches
/// the keyspace in use.
pub fn names_context_switch(upper: &str) -> (r: bool)
    ensures
        r == begins_with_use(upper@),
{
    let cs = chars_of(upper);
    if cs.len() < 4 {
        return false;
    }
    let r = cs[0] == 'U' && cs[1] == 'S' && cs[2] == 'E' && cs[3] == ' ';
    assert(r == (cs@.take(4) =~= seq!['U', 'S', 'E', ' ']));
    r
}

/// Whether `statement` switches the keyspace in use: trimmed and
/// upper-cased, it begins with `USE `.
pub fn is_context_switch(statement: &str) -> (r: bool)
    ensures
        r == begins_with_use(uppercase_of(trim(statement@))),
{
    let t = string_of(&trim_chars(&chars_of(statement)));
    let u = to_upper(t.as_str());
    names_context_switch(u.as_str())
}

/// The document text that reports an outcome.
pub open spec fn outcome_text(o: Outcome) -> Seq<char> {
    match o {
        Outcome::ContextSwitched => "*Database context switched.*\n\n\n"@,
        Outcome::Rows(rows) => document_fragment(rows_view(rows@)) + seq!['\n'],
        Outcome::NoRows => "*Statement executed successfully (no rows returned).*\n\n\n"@,
        Outcome::Failed(e) => "**Error:** "@ + e@ + seq!['\n', '\n'],
    }
}

/// The document section of the statement at `idx` (from zero) of `total`.
pub open spec fn section(idx: nat, total: nat, r: StatementResult) -> Seq<char> {
    "## Statement "@ + decimal(idx + 1) + seq!['/'] + decimal(total) + "\n\n```cql\n"@
        + r.statement@ + "\n```\n\n"@ + outcome_text(r.outcome)
}

/// The sections of `results`, in order, each counted out of `total`.
pub open spec fn sections(results: Seq<StatementResult>, total: nat) -> Seq<char>
    decreases results.len(),
{
    if results.len() == 0 {
        Seq::empty()
    } else {
        sections(results.drop_last(), total) + section(
            (results.len() - 1) as nat,
            total,
            results.last(),
        )
    }
}

/// The whole report: a title, then either a note that there were no
/// statements, or the statement count and one section per statement.
pub open spec fn report(results: Seq<StatementResult>) -> Seq<char> {
    if results.len() == 0 {
        "# CQL Query Results\n\nNo valid CQL statements found.\n"@
    } else {
        "# CQL Query Results\n\nExecuted "@ + decimal(results.len()) + " statement(s)\n\n---\n\n"@
            + sections(results, results.len())
    }
}

fn push_outcome(out: &mut Vec<char>, o: &Outcome)
    ensures
        final(out)@ == old(out)@ + outcome_text(*o),
{
    match o {
        Outcome::ContextSwitched => push_str(out, "*Database context switched.*\n\n\n"),
        Outcome::Rows(rows) => {
            let doc = render_document(rows);
            push_str(out, doc.as_str());
            out.push('\n');
            assert(final(out)@ =~= old(out)@ + outcome_text(*o));
        },
        Outcome::NoRows => push_str(
            out,
            "*Statement executed successfully (no rows returned).*\n\n\n",
        ),
        Outcome::Failed(e) => {
            push_str(out, "**Error:** ");
            push_str(out, e.as_str());
            out.push('\n');
            out.push('\n');
            assert(final(out)@ =~= old(out)@ + outcome_text(*o));
        },
    }
}

fn push_section(out: &mut Vec<char>, idx: usize, total: usize, r: &StatementResult)
    requires
        idx < total,
    ensures
        final(out)@ == old(out)@ + section(idx as nat, total as nat, *r),
{
    push_str(out, "## Statement ");
    push_decimal(out, idx + 1);
    out.push('/');
    push_decimal(out, total);
    push_str(out, "\n\n```cql\n");
    push_str(out, r.statement.as_str());
    push_str(out, "\n```\n\n");
    push_outcome(out, &r.outcome);
    assert(final(out)@ =~= old(out)@ + section(idx as nat, total as nat, *r));
}

/// The document section of the statement at `idx` (from zero) of `total`:
/// its heading, its text in a fenced block, and its outcome.
pub fn statement_section(idx: usize, total: usize, result: &StatementResult) -> (r: String)
    requires
        idx < total,
    ensures
        r@ == section(idx as nat, total as nat, *result),
{
    let mut out: Vec<char> = Vec::new();
    push_section(&mut out, idx, total, result);
    assert(out@ =~= section(idx as nat, total as nat, *result));
    string_of(&out)
}

/// The whole report on `results`, in execution order.
pub fn report_document(results: &Vec<StatementResult>) -> (r: String)
    ensures
        r@ == report(results@),
{
    let mut out: Vec<char> = Vec::new();
    let n = results.len();
    if n == 0 {
        push_str(&mut out, "# CQL Query Results\n\nNo valid CQL statements found.\n");
        assert(out@ =~= report(results@));
        return string_of(&out);
    }
    push_str(&mut out, "# CQL Query Results\n\nExecuted ");
    push_decimal(&mut out, n);
    push_str(&mut out, " statement(s)\n\n---\n\n");
    let ghost top = out@;
    let mut i: usize = 0;
    while i < n
        invariant
            i <= n == results@.len(),
            out@ == top + sections(results@.take(i as int), n as nat),
        decreases n - i,
    {
        push_section(&mut out, i, n, &results[i]);
        assert(results@.take(i + 1).drop_last() =~= results@.take(i as int));
        i = i + 1;
        assert(out@ =~= top + sections(results@.take(i as int), n as nat));
    }
    assert(results@.take(i as int) =~= results@);
    assert(out@ =~= report(results@));
    string_of(&out)
}

} // verus!
