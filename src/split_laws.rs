use vstd::prelude::*;

use crate::splitter::{flush, is_quote, scan, split, Mode};
use crate::text::{is_space, trim, trim_end, trim_start};

verus! {

/// The pieces of `s` between its `;` characters, as `str::split` gives them.
pub open spec fn pieces(s: Seq<char>) -> Seq<Seq<char>>
    decreases s.len(),
{
    if s.len() == 0 {
        seq![Seq::empty()]
    } else {
        let rest = pieces(s.drop_first());
        if s[0] == ';' {
            seq![Seq::empty()] + rest
        } else {
            rest.update(0, seq![s[0]] + rest[0])
        }
    }
}

/// Each piece trimmed, the empty ones dropped.
pub open spec fn kept(ps: Seq<Seq<char>>) -> Seq<Seq<char>> {
    ps.map_values(|p: Seq<char>| trim(p)).filter(|t: Seq<char>| t.len() > 0)
}

/// `s` holds no quote character and no `--`.
pub open spec fn plain(s: Seq<char>) -> bool {
    forall|i: int|
        0 <= i < s.len() ==> !is_quote(#[trigger] s[i]) && !(s[i] == '-' && i + 1 < s.len() && s[i
            + 1] == '-')
}

/// `s` is statement text that the scanner reads in its ordinary mode with no
/// terminator: no quote, no `;`, no `--`, and no `-` at its end.
pub open spec fn plain_run(s: Seq<char>) -> bool {
    &&& plain(s)
    &&& forall|i: int| 0 <= i < s.len() ==> #[trigger] s[i] != ';'
    &&& s.len() > 0 ==> s.last() != '-'
}

/// `s` is made of white space, `;` and `--` comments alone; `in_comment` says
/// whether it begins inside a comment.
pub open spec fn blank_from(s: Seq<char>, in_comment: bool) -> bool
    decreases s.len(),
{
    if s.len() == 0 {
        true
    } else if in_comment {
        blank_from(s.drop_first(), s[0] != '\n')
    } else if s.len() > 1 && s[0] == '-' && s[1] == '-' {
        blank_from(s.subrange(2, s.len() as int), true)
    } else {
        (is_space(s[0]) || s[0] == ';') && blank_from(s.drop_first(), false)
    }
}

/// `s` is made of white space, `;` and `--` comments alone.
pub open spec fn blank(s: Seq<char>) -> bool {
    blank_from(s, false)
}

proof fn lemma_pieces_no_semi(buf: Seq<char>, t: Seq<char>)
    requires
        forall|i: int| 0 <= i < buf.len() ==> #[trigger] buf[i] != ';',
    ensures
        pieces(buf + seq![';'] + t) == seq![buf] + pieces(t),
        pieces(buf) == seq![buf],
    decreases buf.len(),
{
    let w = buf + seq![';'] + t;
    if buf.len() == 0 {
        assert(buf =~= Seq::<char>::empty());
        assert(w =~= seq![';'] + t);
        assert(w[0] == ';');
        assert(w.drop_first() =~= t);
    } else {
        let b1 = buf.drop_first();
        lemma_pieces_no_semi(b1, t);
        assert(w[0] == buf[0]);
        assert(buf[0] != ';');
        assert(w.drop_first() =~= b1 + seq![';'] + t);
        assert(seq![buf[0]] + b1 =~= buf);
        assert((seq![b1] + pieces(t)).update(0, seq![buf[0]] + b1) =~= seq![buf] + pieces(t));
        assert(seq![b1].update(0, seq![buf[0]] + b1) =~= seq![buf]);
    }
}

proof fn lemma_kept_add(a: Seq<Seq<char>>, b: Seq<Seq<char>>)
    ensures
        kept(a + b) == kept(a) + kept(b),
{
    let f = |p: Seq<char>| trim(p);
    let g = |t: Seq<char>| t.len() > 0;
    assert((a + b).map_values(f) =~= a.map_values(f) + b.map_values(f));
    Seq::filter_distributes_over_add(a.map_values(f), b.map_values(f), g);
}

proof fn lemma_kept_one(out: Seq<Seq<char>>, buf: Seq<char>)
    ensures
        flush(out, buf) == out + kept(seq![buf]),
{
    let g = |t: Seq<char>| t.len() > 0;
    let m = seq![buf].map_values(|p: Seq<char>| trim(p));
    assert(m =~= seq![trim(buf)]);
    assert(m.drop_last() =~= Seq::<Seq<char>>::empty());
    reveal_with_fuel(Seq::filter, 2);
    if trim(buf).len() > 0 {
        assert(m.filter(g) =~= seq![trim(buf)]);
        assert(out.push(trim(buf)) =~= out + seq![trim(buf)]);
    } else {
        assert(m.filter(g) =~= Seq::<Seq<char>>::empty());
        assert(out + Seq::<Seq<char>>::empty() =~= out);
    }
}

proof fn lemma_scan_plain(s: Seq<char>, buf: Seq<char>, out: Seq<Seq<char>>)
    requires
        plain(s),
        forall|i: int| 0 <= i < buf.len() ==> #[trigger] buf[i] != ';',
    ensures
        scan(s, Mode::Normal, buf, out) == out + kept(pieces(buf + s)),
    decreases s.len(),
{
    if s.len() == 0 {
        assert(buf + s =~= buf);
        lemma_pieces_no_semi(buf, s);
        lemma_kept_one(out, buf);
    } else {
        let c = s[0];
        let s1 = s.drop_first();
        assert(!is_quote(s[0]));
        assert(plain(s1)) by {
            assert forall|i: int| 0 <= i < s1.len() implies !is_quote(#[trigger] s1[i]) && !(s1[i]
                == '-' && i + 1 < s1.len() && s1[i + 1] == '-') by {
                assert(s1[i] == s[i + 1]);
            }
        }
        if c == ';' {
            lemma_scan_plain(s1, Seq::empty(), flush(out, buf));
            assert(Seq::<char>::empty() + s1 =~= s1);
            assert(buf + s =~= buf + seq![';'] + s1);
            lemma_pieces_no_semi(buf, s1);
            lemma_kept_add(seq![buf], pieces(s1));
            lemma_kept_one(out, buf);
            assert(out + kept(seq![buf]) + kept(pieces(s1)) =~= out + (kept(seq![buf]) + kept(
                pieces(s1),
            )));
        } else {
            let b2 = buf.push(c);
            assert forall|i: int| 0 <= i < b2.len() implies #[trigger] b2[i] != ';' by {
                if i < buf.len() {
                    assert(b2[i] == buf[i]);
                }
            }
            lemma_scan_plain(s1, b2, out);
            assert(b2 + s1 =~= buf + s);
        }
    }
}

/// On text with no quotes and no comments, the statements are the pieces
/// between `;` characters, trimmed, with the empty ones dropped.
pub proof fn lemma_split_plain(s: Seq<char>)
    requires
        plain(s),
    ensures
        split(s) == kept(pieces(s)),
{
    lemma_scan_plain(s, Seq::empty(), Seq::empty());
    assert(Seq::<char>::empty() + s =~= s);
    assert(Seq::<Seq<char>>::empty() + kept(pieces(s)) =~= kept(pieces(s)));
}

proof fn lemma_scan_quoted(q: char, t: Seq<char>, r: Seq<char>, buf: Seq<char>, out: Seq<Seq<char>>)
    requires
        forall|i: int| 0 <= i < t.len() ==> #[trigger] t[i] != q,
    ensures
        scan(t + r, Mode::Quoted(q), buf, out) == scan(r, Mode::Quoted(q), buf + t, out),
    decreases t.len(),
{
    if t.len() == 0 {
        assert(t + r =~= r);
        assert(buf + t =~= buf);
    } else {
        let s = t + r;
        assert(s[0] == t[0]);
        assert(Mode::Quoted(q) != Mode::Quoted(s[0]));
        assert(s.drop_first() =~= t.drop_first() + r);
        lemma_scan_quoted(q, t.drop_first(), r, buf.push(t[0]), out);
        assert(buf.push(t[0]) + t.drop_first() =~= buf + t);
    }
}

proof fn lemma_trim_keeps(s: Seq<char>)
    requires
        s.len() > 0,
        !is_space(s[0]),
        !is_space(s.last()),
    ensures
        trim(s) == s,
{
}

proof fn lemma_trim_end_nonempty(u: Seq<char>)
    requires
        u.len() > 0,
        !is_space(u[0]),
    ensures
        trim_end(u).len() > 0,
    decreases u.len(),
{
    if is_space(u.last()) {
        lemma_trim_end_nonempty(u.drop_last());
    }
}

proof fn lemma_trim_nonempty(s: Seq<char>, j: int)
    requires
        0 <= j < s.len(),
        !is_space(s[j]),
    ensures
        trim(s).len() > 0,
    decreases s.len(),
{
    if is_space(s[0]) {
        lemma_trim_nonempty(s.drop_first(), j - 1);
    } else {
        lemma_trim_end_nonempty(s);
    }
}

/// A doubled delimiter inside a string literal stays in it: the literal is
/// one statement, with both delimiter characters kept.
pub proof fn lemma_doubled_quote(q: char, a: Seq<char>, b: Seq<char>)
    requires
        is_quote(q),
        forall|i: int| 0 <= i < a.len() ==> #[trigger] a[i] != q,
        forall|i: int| 0 <= i < b.len() ==> #[trigger] b[i] != q,
    ensures
        split(seq![q] + a + seq![q, q] + b + seq![q]) == seq![seq![q] + a + seq![q, q] + b + seq![q]],
{
    let w = seq![q] + a + seq![q, q] + b + seq![q];
    let e = Seq::<Seq<char>>::empty();
    let s1 = a + (seq![q, q] + b + seq![q]);
    assert(w.drop_first() =~= s1);
    lemma_scan_quoted(q, a, seq![q, q] + b + seq![q], seq![q], e);
    let s2 = seq![q, q] + b + seq![q];
    let b2 = seq![q] + a;
    assert(s2.subrange(2, s2.len() as int) =~= b + seq![q]);
    lemma_scan_quoted(q, b, seq![q], b2.push(q).push(q), e);
    let b3 = b2.push(q).push(q) + b;
    assert(seq![q].drop_first() =~= Seq::<char>::empty());
    assert(b3.push(q) =~= w);
    lemma_trim_keeps(w);
    assert(w[0] == q);
    assert(scan(w, Mode::Normal, Seq::empty(), e) == scan(s1, Mode::Quoted(q), seq![q], e));
    assert(seq![q] + a + (seq![q, q] + b + seq![q]) =~= w);
    assert(s1 =~= a + s2);
    assert(scan(s2, Mode::Quoted(q), b2, e) == scan(b + seq![q], Mode::Quoted(q), b2.push(q).push(q), e));
    assert(scan(seq![q], Mode::Quoted(q), b3, e) == scan(Seq::<char>::empty(), Mode::Normal, b3.push(q), e));
}

proof fn lemma_scan_run(p: Seq<char>, r: Seq<char>, buf: Seq<char>, out: Seq<Seq<char>>)
    requires
        plain_run(p),
        r.len() > 0 ==> r[0] != '-',
    ensures
        scan(p + r, Mode::Normal, buf, out) == scan(r, Mode::Normal, buf + p, out),
    decreases p.len(),
{
    if p.len() == 0 {
        assert(p + r =~= r);
        assert(buf + p =~= buf);
    } else {
        let s = p + r;
        let p1 = p.drop_first();
        assert(s[0] == p[0]);
        assert(!is_quote(p[0]) && p[0] != ';');
        if p.len() > 1 {
            assert(s[1] == p[1]);
        }
        assert(plain_run(p1)) by {
            assert forall|i: int| 0 <= i < p1.len() implies !is_quote(#[trigger] p1[i]) && !(p1[i]
                == '-' && i + 1 < p1.len() && p1[i + 1] == '-') && p1[i] != ';' by {
                assert(p1[i] == p[i + 1]);
            }
        }
        assert(s.drop_first() =~= p1 + r);
        lemma_scan_run(p1, r, buf.push(p[0]), out);
        assert(buf.push(p[0]) + p1 =~= buf + p);
    }
}

proof fn lemma_open_tail(p: Seq<char>, q: char, a: Seq<char>, out: Seq<Seq<char>>)
    requires
        plain_run(p),
        is_quote(q),
        forall|i: int| 0 <= i < a.len() ==> #[trigger] a[i] != q,
    ensures
        scan(p + seq![q] + a, Mode::Normal, Seq::empty(), out) == out.push(trim(p + seq![q] + a)),
{
    let r = seq![q] + a;
    assert(p + seq![q] + a =~= p + r);
    lemma_scan_run(p, r, Seq::empty(), out);
    assert(Seq::<char>::empty() + p =~= p);
    assert(r.drop_first() =~= a + Seq::<char>::empty());
    lemma_scan_quoted(q, a, Seq::<char>::empty(), p.push(q), out);
    assert(p.push(q) + a =~= p + r);
    assert((p + r)[p.len() as int] == q);
    lemma_trim_nonempty(p + r, p.len() as int);
}

/// A `;` after a string literal that is never closed ends no statement: the
/// whole input is one statement.
pub proof fn lemma_open_quote(p: Seq<char>, q: char, a: Seq<char>)
    requires
        plain_run(p),
        is_quote(q),
        forall|i: int| 0 <= i < a.len() ==> #[trigger] a[i] != q,
    ensures
        split(p + seq![q] + a) == seq![trim(p + seq![q] + a)],
{
    lemma_open_tail(p, q, a, Seq::empty());
    assert(Seq::<Seq<char>>::empty().push(trim(p + seq![q] + a)) =~= seq![trim(p + seq![q] + a)]);
}

proof fn lemma_scan_through(h: Seq<char>, r: Seq<char>, buf: Seq<char>, out: Seq<Seq<char>>)
    requires
        plain(h),
        forall|i: int| 0 <= i < buf.len() ==> #[trigger] buf[i] != ';',
    ensures
        scan(h + seq![';'] + r, Mode::Normal, buf, out) == scan(
            r,
            Mode::Normal,
            Seq::empty(),
            out + kept(pieces(buf + h)),
        ),
    decreases h.len(),
{
    let s = h + seq![';'] + r;
    if h.len() == 0 {
        assert(s[0] == ';');
        assert(s.drop_first() =~= r);
        assert(buf + h =~= buf);
        lemma_pieces_no_semi(buf, r);
        lemma_kept_one(out, buf);
    } else {
        let h1 = h.drop_first();
        assert(s[0] == h[0]);
        assert(!is_quote(h[0]));
        if h.len() > 1 {
            assert(s[1] == h[1]);
        } else {
            assert(s[1] == ';');
        }
        assert(plain(h1)) by {
            assert forall|i: int| 0 <= i < h1.len() implies !is_quote(#[trigger] h1[i]) && !(h1[i]
                == '-' && i + 1 < h1.len() && h1[i + 1] == '-') by {
                assert(h1[i] == h[i + 1]);
            }
        }
        assert(s.drop_first() =~= h1 + seq![';'] + r);
        if h[0] == ';' {
            lemma_scan_through(h1, r, Seq::empty(), flush(out, buf));
            assert(Seq::<char>::empty() + h1 =~= h1);
            assert(buf + h =~= buf + seq![';'] + h1);
            lemma_pieces_no_semi(buf, h1);
            lemma_kept_add(seq![buf], pieces(h1));
            lemma_kept_one(out, buf);
            assert(out + kept(seq![buf]) + kept(pieces(h1)) =~= out + (kept(seq![buf]) + kept(
                pieces(h1),
            )));
        } else {
            let b2 = buf.push(h[0]);
            assert forall|i: int| 0 <= i < b2.len() implies #[trigger] b2[i] != ';' by {
                if i < buf.len() {
                    assert(b2[i] == buf[i]);
                }
            }
            lemma_scan_through(h1, r, b2, out);
            assert(b2 + h1 =~= buf + h);
        }
    }
}

/// After earlier statements `h` and their `;`, a string literal that is
/// never closed runs to the end of the input: the statements of `h`, then
/// one statement holding all the rest.
pub proof fn lemma_open_quote_after(h: Seq<char>, p: Seq<char>, q: char, a: Seq<char>)
    requires
        plain(h),
        plain_run(p),
        is_quote(q),
        forall|i: int| 0 <= i < a.len() ==> #[trigger] a[i] != q,
    ensures
        split(h + seq![';'] + p + seq![q] + a) == split(h).push(trim(p + seq![q] + a)),
{
    let r = p + seq![q] + a;
    assert(h + seq![';'] + p + seq![q] + a =~= h + seq![';'] + r);
    lemma_scan_through(h, r, Seq::empty(), Seq::empty());
    assert(Seq::<char>::empty() + h =~= h);
    lemma_split_plain(h);
    assert(Seq::<Seq<char>>::empty() + kept(pieces(h)) =~= kept(pieces(h)));
    lemma_open_tail(p, q, a, split(h));
}

proof fn lemma_scan_comment(c: Seq<char>, r: Seq<char>, buf: Seq<char>, out: Seq<Seq<char>>)
    requires
        forall|i: int| 0 <= i < c.len() ==> #[trigger] c[i] != '\n',
        r.len() > 0,
        r[0] == '\n',
    ensures
        scan(c + r, Mode::Comment, buf, out) == scan(r, Mode::Comment, buf, out),
    decreases c.len(),
{
    if c.len() == 0 {
        assert(c + r =~= r);
    } else {
        let s = c + r;
        assert(s[0] == c[0]);
        if c.len() > 1 {
            assert(s[1] == c[1]);
            assert(s.subrange(2, s.len() as int) =~= c.subrange(2, c.len() as int) + r);
            lemma_scan_comment(c.subrange(2, c.len() as int), r, buf, out);
        } else {
            assert(s[1] == r[0]);
        }
        assert(s.drop_first() =~= c.drop_first() + r);
        lemma_scan_comment(c.drop_first(), r, buf, out);
    }
}

proof fn lemma_comment_to_end(c: Seq<char>, buf: Seq<char>, out: Seq<Seq<char>>)
    requires
        forall|i: int| 0 <= i < c.len() ==> #[trigger] c[i] != '\n',
    ensures
        scan(c, Mode::Comment, buf, out) == flush(out, buf),
    decreases c.len(),
{
    if c.len() > 1 && c[0] == '-' && c[1] == '-' {
        lemma_comment_to_end(c.subrange(2, c.len() as int), buf, out);
    } else if c.len() > 0 {
        lemma_comment_to_end(c.drop_first(), buf, out);
    }
}

/// After a prefix `a` read in the ordinary mode, two tails that the scanner
/// reads alike from any state give the same statements.
proof fn lemma_same_after(
    a: Seq<char>,
    x: Seq<char>,
    y: Seq<char>,
    buf: Seq<char>,
    out: Seq<Seq<char>>,
)
    requires
        plain(a),
        a.len() > 0 ==> a.last() != '-',
        forall|b: Seq<char>, o: Seq<Seq<char>>|
            #[trigger] scan(x, Mode::Normal, b, o) == scan(y, Mode::Normal, b, o),
    ensures
        scan(a + x, Mode::Normal, buf, out) == scan(a + y, Mode::Normal, buf, out),
    decreases a.len(),
{
    if a.len() == 0 {
        assert(a + x =~= x);
        assert(a + y =~= y);
    } else {
        let s1 = a + x;
        let s2 = a + y;
        let a1 = a.drop_first();
        assert(s1[0] == a[0] && s2[0] == a[0]);
        assert(!is_quote(a[0]));
        if a.len() > 1 {
            assert(s1[1] == a[1] && s2[1] == a[1]);
        }
        assert(plain(a1)) by {
            assert forall|i: int| 0 <= i < a1.len() implies !is_quote(#[trigger] a1[i]) && !(a1[i]
                == '-' && i + 1 < a1.len() && a1[i + 1] == '-') by {
                assert(a1[i] == a[i + 1]);
            }
        }
        assert(s1.drop_first() =~= a1 + x);
        assert(s2.drop_first() =~= a1 + y);
        lemma_same_after(a1, x, y, Seq::empty(), flush(out, buf));
        lemma_same_after(a1, x, y, buf.push(a[0]), out);
    }
}

/// A `--` comment and the newline that ends it are removed before the
/// statements are found: `a` and `b` around it read as if they were adjacent.
pub proof fn lemma_comment_removed(a: Seq<char>, c: Seq<char>, b: Seq<char>)
    requires
        plain(a),
        a.len() > 0 ==> a.last() != '-',
        forall|i: int| 0 <= i < c.len() ==> #[trigger] c[i] != '\n',
    ensures
        split(a + seq!['-', '-'] + c + seq!['\n'] + b) == split(a + b),
{
    let x = seq!['-', '-'] + c + seq!['\n'] + b;
    let r = seq!['\n'] + b;
    assert forall|buf: Seq<char>, out: Seq<Seq<char>>|
        #[trigger] scan(x, Mode::Normal, buf, out) == scan(b, Mode::Normal, buf, out) by {
        assert(x.subrange(2, x.len() as int) =~= c + r);
        lemma_scan_comment(c, r, buf, out);
        assert(r.drop_first() =~= b);
    }
    assert(a + seq!['-', '-'] + c + seq!['\n'] + b =~= a + x);
    lemma_same_after(a, x, b, Seq::empty(), Seq::empty());
}

/// A `--` comment that runs to the end of the input is removed with all it
/// holds, `;` included.
pub proof fn lemma_comment_at_end(a: Seq<char>, c: Seq<char>)
    requires
        plain(a),
        a.len() > 0 ==> a.last() != '-',
        forall|i: int| 0 <= i < c.len() ==> #[trigger] c[i] != '\n',
    ensures
        split(a + seq!['-', '-'] + c) == split(a),
{
    let x = seq!['-', '-'] + c;
    let e = Seq::<char>::empty();
    assert forall|buf: Seq<char>, out: Seq<Seq<char>>|
        #[trigger] scan(x, Mode::Normal, buf, out) == scan(e, Mode::Normal, buf, out) by {
        assert(x.subrange(2, x.len() as int) =~= c);
        lemma_comment_to_end(c, buf, out);
    }
    assert(a + e =~= a);
    assert(a + seq!['-', '-'] + c =~= a + x);
    lemma_same_after(a, x, e, Seq::empty(), Seq::empty());
}

proof fn lemma_trim_spaces(s: Seq<char>)
    requires
        forall|i: int| 0 <= i < s.len() ==> is_space(#[trigger] s[i]),
    ensures
        trim(s).len() == 0,
    decreases s.len(),
{
    if s.len() > 0 {
        assert forall|i: int| 0 <= i < s.len() - 1 implies is_space(
            #[trigger] s.drop_first()[i],
        ) by {
            assert(s.drop_first()[i] == s[i + 1]);
        }
        lemma_trim_spaces(s.drop_first());
    }
}

proof fn lemma_scan_blank(s: Seq<char>, in_comment: bool, buf: Seq<char>, out: Seq<Seq<char>>)
    requires
        blank_from(s, in_comment),
        forall|i: int| 0 <= i < buf.len() ==> is_space(#[trigger] buf[i]),
    ensures
        scan(s, if in_comment { Mode::Comment } else { Mode::Normal }, buf, out) == out,
    decreases s.len(),
{
    if s.len() == 0 {
        lemma_trim_spaces(buf);
    } else if s.len() > 1 && s[0] == '-' && s[1] == '-' {
        let s2 = s.subrange(2, s.len() as int);
        if in_comment {
            let s1 = s.drop_first();
            assert(s1[0] == '-');
            assert(s1.drop_first() =~= s2);
            assert(blank_from(s1, true));
        }
        lemma_scan_blank(s2, true, buf, out);
    } else if in_comment {
        lemma_scan_blank(s.drop_first(), s[0] != '\n', buf, out);
    } else if s[0] == ';' {
        lemma_trim_spaces(buf);
        lemma_scan_blank(s.drop_first(), false, Seq::empty(), out);
    } else {
        let b2 = buf.push(s[0]);
        assert forall|i: int| 0 <= i < b2.len() implies is_space(#[trigger] b2[i]) by {
            if i < buf.len() {
                assert(b2[i] == buf[i]);
            }
        }
        lemma_scan_blank(s.drop_first(), false, b2, out);
    }
}

/// Input made of white space, `;` and comments alone, the empty input among
/// them, holds no statement.
pub proof fn lemma_blank_input(s: Seq<char>)
    requires
        blank(s),
    ensures
        split(s) == Seq::<Seq<char>>::empty(),
{
    lemma_scan_blank(s, false, Seq::empty(), Seq::empty());
}

proof fn lemma_scan_grows(s: Seq<char>, mode: Mode, buf: Seq<char>, out: Seq<Seq<char>>)
    ensures
        scan(s, mode, buf, out).len() >= out.len(),
    decreases s.len(),
{
    if s.len() > 0 {
        let c = s[0];
        if !(mode is Quoted) && c == '-' && s.len() > 1 && s[1] == '-' {
            lemma_scan_grows(s.subrange(2, s.len() as int), Mode::Comment, buf, out);
        } else if mode is Comment {
            lemma_scan_grows(
                s.drop_first(),
                if c == '\n' {
                    Mode::Normal
                } else {
                    Mode::Comment
                },
                buf,
                out,
            );
        } else if mode is Normal && is_quote(c) {
            lemma_scan_grows(s.drop_first(), Mode::Quoted(c), buf.push(c), out);
        } else if mode == Mode::Quoted(c) {
            if s.len() > 1 && s[1] == c {
                lemma_scan_grows(s.subrange(2, s.len() as int), mode, buf.push(c).push(c), out);
            } else {
                lemma_scan_grows(s.drop_first(), Mode::Normal, buf.push(c), out);
            }
        } else if mode is Normal && c == ';' {
            lemma_scan_grows(s.drop_first(), Mode::Normal, Seq::empty(), flush(out, buf));
        } else {
            lemma_scan_grows(s.drop_first(), mode, buf.push(c), out);
        }
    }
}

proof fn lemma_scan_keeps(s: Seq<char>, mode: Mode, buf: Seq<char>, out: Seq<Seq<char>>, j: int)
    requires
        0 <= j < buf.len(),
        !is_space(buf[j]),
    ensures
        scan(s, mode, buf, out).len() > out.len(),
    decreases s.len(),
{
    lemma_trim_nonempty(buf, j);
    if s.len() > 0 {
        let c = s[0];
        if !(mode is Quoted) && c == '-' && s.len() > 1 && s[1] == '-' {
            lemma_scan_keeps(s.subrange(2, s.len() as int), Mode::Comment, buf, out, j);
        } else if mode is Comment {
            lemma_scan_keeps(
                s.drop_first(),
                if c == '\n' {
                    Mode::Normal
                } else {
                    Mode::Comment
                },
                buf,
                out,
                j,
            );
        } else if mode is Normal && is_quote(c) {
            lemma_scan_keeps(s.drop_first(), Mode::Quoted(c), buf.push(c), out, j);
        } else if mode == Mode::Quoted(c) {
            if s.len() > 1 && s[1] == c {
                lemma_scan_keeps(s.subrange(2, s.len() as int), mode, buf.push(c).push(c), out, j);
            } else {
                lemma_scan_keeps(s.drop_first(), Mode::Normal, buf.push(c), out, j);
            }
        } else if mode is Normal && c == ';' {
            lemma_scan_grows(s.drop_first(), Mode::Normal, Seq::empty(), flush(out, buf));
        } else {
            lemma_scan_keeps(s.drop_first(), mode, buf.push(c), out, j);
        }
    }
}

proof fn lemma_scan_not_blank(s: Seq<char>, in_comment: bool, buf: Seq<char>, out: Seq<Seq<char>>)
    requires
        !blank_from(s, in_comment),
        forall|i: int| 0 <= i < buf.len() ==> is_space(#[trigger] buf[i]),
    ensures
        scan(s, if in_comment { Mode::Comment } else { Mode::Normal }, buf, out).len() > out.len(),
    decreases s.len(),
{
    if s.len() > 1 && s[0] == '-' && s[1] == '-' {
        let s2 = s.subrange(2, s.len() as int);
        if in_comment {
            let s1 = s.drop_first();
            assert(s1[0] == '-');
            assert(s1.drop_first() =~= s2);
            assert(!blank_from(s1, true));
        }
        lemma_scan_not_blank(s2, true, buf, out);
    } else if in_comment {
        lemma_scan_not_blank(s.drop_first(), s[0] != '\n', buf, out);
    } else if is_space(s[0]) {
        let b2 = buf.push(s[0]);
        assert forall|i: int| 0 <= i < b2.len() implies is_space(#[trigger] b2[i]) by {
            if i < buf.len() {
                assert(b2[i] == buf[i]);
            }
        }
        lemma_scan_not_blank(s.drop_first(), false, b2, out);
    } else if s[0] == ';' {
        lemma_trim_spaces(buf);
        lemma_scan_not_blank(s.drop_first(), false, Seq::empty(), out);
    } else if is_quote(s[0]) {
        lemma_scan_keeps(s.drop_first(), Mode::Quoted(s[0]), buf.push(s[0]), out, buf.len() as int);
    } else {
        lemma_scan_keeps(s.drop_first(), Mode::Normal, buf.push(s[0]), out, buf.len() as int);
    }
}

/// The input holds no statement exactly when it is made of white space, `;`
/// and comments alone.
pub proof fn lemma_no_statements_iff_blank(s: Seq<char>)
    ensures
        split(s).len() == 0 <==> blank(s),
{
    if blank(s) {
        lemma_blank_input(s);
    } else {
        lemma_scan_not_blank(s, false, Seq::empty(), Seq::empty());
    }
}

} // verus!
