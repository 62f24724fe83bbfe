use vstd::prelude::*;

use crate::text::{chars_of, string_of, trim, trim_chars};

verus! {

/// Where the scanner stands between two characters.
#[derive(PartialEq, Eq, Structural, Clone, Copy, Debug)]
pub enum Mode {
    /// Ordinary statement text.
    Normal,
    /// Inside a string literal opened by the given delimiter.
    Quoted(char),
    /// Inside a `--` line comment.
    Comment,
}

pub open spec fn is_quote(c: char) -> bool {
    c == '\'' || c == '"'
}

/// `out` with the trimmed buffer appended, unless that is empty.
pub open spec fn flush(out: Seq<Seq<char>>, buf: Seq<char>) -> Seq<Seq<char>> {
    if trim(buf).len() == 0 {
        out
    } else {
        out.push(trim(buf))
    }
}

/// The statements found in `s`, after `out` was found and with the scanner in
/// `mode` holding `buf` as the statement begun so far.
pub open spec fn scan(s: Seq<char>, mode: Mode, buf: Seq<char>, out: Seq<Seq<char>>) -> Seq<
    Seq<char>,
>
    decreases s.len(),
{
    if s.len() == 0 {
        flush(out, buf)
    } else {
        let c = s[0];
        if !(mode is Quoted) && c == '-' && s.len() > 1 && s[1] == '-' {
            scan(s.subrange(2, s.len() as int), Mode::Comment, buf, out)
        } else if mode is Comment {
            scan(s.drop_first(), if c == '\n' { Mode::Normal } else { Mode::Comment }, buf, out)
        } else if mode is Normal && is_quote(c) {
            scan(s.drop_first(), Mode::Quoted(c), buf.push(c), out)
        } else if mode == Mode::Quoted(c) {
            if s.len() > 1 && s[1] == c {
                scan(s.subrange(2, s.len() as int), mode, buf.push(c).push(c), out)
            } else {
                scan(s.drop_first(), Mode::Normal, buf.push(c), out)
            }
        } else if mode is Normal && c == ';' {
            scan(s.drop_first(), Mode::Normal, Seq::empty(), flush(out, buf))
        } else {
            scan(s.drop_first(), mode, buf.push(c), out)
        }
    }
}

/// The statements of `s`, in order: trimmed, non-empty, with `;` outside
/// string literals and comments as the terminator and `--` comments removed.
pub open spec fn split(s: Seq<char>) -> Seq<Seq<char>> {
    scan(s, Mode::Normal, Seq::empty(), Seq::empty())
}

pub open spec fn views(v: Seq<String>) -> Seq<Seq<char>> {
    v.map_values(|x: String| x@)
}

fn push_trimmed(statements: &mut Vec<String>, buf: &Vec<char>)
    ensures
        views(final(statements)@) == flush(views(old(statements)@), buf@),
{
    let t = trim_chars(buf);
    if t.len() > 0 {
        let st = string_of(&t);
        statements.push(st);
        assert(views(final(statements)@) =~= views(old(statements)@).push(t@));
    }
}

/// Splits `query` into its statements, in source order.
pub fn split_cql_statements(query: &str) -> (r: Vec<String>)
    ensures
        views(r@) == split(query@),
{
    let chars = chars_of(query);
    let n = chars.len();
    let mut statements: Vec<String> = Vec::new();
    let mut current: Vec<char> = Vec::new();
    let mut mode = Mode::Normal;
    let mut i: usize = 0;
    assert(chars@.subrange(0, n as int) =~= chars@);
    assert(views(statements@) =~= Seq::<Seq<char>>::empty());
    while i < n
        invariant
            n == chars@.len(),
            i <= n,
            chars@ == query@,
            scan(chars@.subrange(i as int, n as int), mode, current@, views(statements@))
                == split(query@),
        decreases n - i,
    {
        let ghost rest = chars@.subrange(i as int, n as int);
        assert(rest.drop_first() =~= chars@.subrange(i + 1, n as int));
        let ch = chars[i];
        let comment_start = match mode {
            Mode::Quoted(_) => false,
            _ => ch == '-' && i + 1 < n && chars[i + 1] == '-',
        };
        if comment_start {
            assert(rest.subrange(2, rest.len() as int) =~= chars@.subrange(i + 2, n as int));
            mode = Mode::Comment;
            i = i + 2;
        } else {
            match mode {
                Mode::Comment => {
                    if ch == '\n' {
                        mode = Mode::Normal;
                    }
                    i = i + 1;
                },
                Mode::Normal => {
                    if ch == '\'' || ch == '"' {
                        mode = Mode::Quoted(ch);
                        current.push(ch);
                    } else if ch == ';' {
                        push_trimmed(&mut statements, &current);
                        current = Vec::new();
                    } else {
                        current.push(ch);
                    }
                    i = i + 1;
                },
                Mode::Quoted(d) => {
                    if ch == d {
                        if i + 1 < n && chars[i + 1] == d {
                            assert(rest.subrange(2, rest.len() as int) =~= chars@.subrange(
                                i + 2,
                                n as int,
                            ));
                            current.push(ch);
                            current.push(d);
                            i = i + 2;
                        } else {
                            mode = Mode::Normal;
                            current.push(ch);
                            i = i + 1;
                        }
                    } else {
                        current.push(ch);
                        i = i + 1;
                    }
                },
            }
        }
    }
    push_trimmed(&mut statements, &current);
    statements
}

} // verus!
