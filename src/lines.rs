//! The line scanner: a text split into lines the way `BufRead::lines` does.
use vstd::prelude::*;

use crate::text::push_char;

verus! {

/// A line with one trailing carriage return removed, if it has one.
pub open spec fn strip_cr(s: Seq<char>) -> Seq<char> {
    if s.len() > 0 && s.last() == '\r' {
        s.drop_last()
    } else {
        s
    }
}

/// The scan of a text: the lines that a newline has ended so far (each
/// without its `\r\n` or `\n`), and the characters read since the last
/// newline.
pub open spec fn scan(s: Seq<char>) -> (Seq<Seq<char>>, Seq<char>)
    decreases s.len(),
{
    if s.len() == 0 {
        (Seq::empty(), Seq::empty())
    } else {
        let (done, cur) = scan(s.drop_last());
        if s.last() == '\n' {
            (done.push(strip_cr(cur)), Seq::empty())
        } else {
            (done, cur.push(s.last()))
        }
    }
}

/// The lines of a text, in order. Line `n` (counted from 1) is `lines_of(s)[n - 1]`.
/// Newlines end lines; a last line without a newline still counts, and a
/// final newline opens no empty line after it.
pub open spec fn lines_of(s: Seq<char>) -> Seq<Seq<char>> {
    let (done, cur) = scan(s);
    if cur.len() == 0 {
        done
    } else {
        done.push(cur)
    }
}

/// Whether the last line of a text has no newline after it.
pub open spec fn ends_open(s: Seq<char>) -> bool {
    scan(s).1.len() > 0
}

/// The text that writing each line followed by `\n` produces.
pub open spec fn join_lines(lines: Seq<Seq<char>>) -> Seq<char>
    decreases lines.len(),
{
    if lines.len() == 0 {
        Seq::empty()
    } else {
        join_lines(lines.drop_last()) + lines.last() + seq!['\n']
    }
}

/// The views of a vector of strings.
pub open spec fn views(v: Seq<String>) -> Seq<Seq<char>> {
    v.map_values(|l: String| l@)
}

/// Splits `content` into its lines.
pub fn scan_lines(content: &str) -> (lines: Vec<String>)
    ensures
        views(lines@) == lines_of(content@),
{
    let mut lines: Vec<String> = Vec::new();
    let mut cur = String::new();
    // A carriage return just read, held back until it is known whether a
    // newline follows it.
    let mut held_cr: bool = false;
    for c in it: content.chars()
        invariant
            it.seq() == content@,
            scan(content@.take(it.index() as int)) == (views(lines@), if held_cr {
                cur@.push('\r')
            } else {
                cur@
            }),
            !held_cr ==> (cur@.len() == 0 || cur@.last() != '\r'),
    {
        let ghost prefix = content@.take(it.index() as int);
        let ghost next = content@.take(it.index() + 1);
        assert(next.drop_last() == prefix);
        assert(next.last() == c);
        let ghost state = scan(prefix);
        if c == '\n' {
            assert(strip_cr(state.1) =~= cur@);
            let ghost before = views(lines@);
            let ghost ended = cur@;
            lines.push(cur);
            assert(views(lines@) =~= before.push(ended));
            cur = String::new();
            held_cr = false;
            assert(scan(next).1 =~= cur@);
        } else if c == '\r' {
            if held_cr {
                push_char(&mut cur, '\r');
            }
            held_cr = true;
            assert(scan(next).1 =~= cur@.push('\r'));
        } else {
            if held_cr {
                push_char(&mut cur, '\r');
                held_cr = false;
            }
            push_char(&mut cur, c);
            assert(scan(next).1 =~= cur@);
        }
    }
    assert(content@.take(content@.len() as int) == content@);
    if held_cr {
        push_char(&mut cur, '\r');
    }
    if !cur.as_str().is_empty() {
        let ghost before = views(lines@);
        let ghost ended = cur@;
        lines.push(cur);
        assert(views(lines@) =~= before.push(ended));
    }
    assert(views(lines@) =~= lines_of(content@));
    lines
}


/// Whether `line` ends with a carriage return.
pub open spec fn ends_with_cr(line: Seq<char>) -> bool {
    line.len() > 0 && line.last() == '\r'
}

/// Whether `s` holds a carriage return directly followed by a newline.
pub open spec fn has_crlf(s: Seq<char>) -> bool {
    exists|i: int| 0 <= i < s.len() - 1 && s[i] == '\r' && #[trigger] s[i + 1] == '\n'
}

/// No line of a text holds a newline.
pub proof fn lines_hold_no_newline(s: Seq<char>)
    ensures
        forall|i: int| 0 <= i < lines_of(s).len() ==> !(#[trigger] lines_of(s)[i]).contains('\n'),
{
    scan_holds_no_newline(s);
}

proof fn scan_holds_no_newline(s: Seq<char>)
    ensures
        forall|i: int| 0 <= i < scan(s).0.len() ==> !(#[trigger] scan(s).0[i]).contains('\n'),
        !scan(s).1.contains('\n'),
    decreases s.len(),
{
    if s.len() > 0 {
        scan_holds_no_newline(s.drop_last());
        let (done, cur) = scan(s.drop_last());
        if s.last() == '\n' {
            assert(!strip_cr(cur).contains('\n')) by {
                if ends_with_cr(cur) {
                    assert forall|j: int| 0 <= j < cur.drop_last().len() implies cur.drop_last()[j]
                        != '\n' by {
                        assert(cur.drop_last()[j] == cur[j]);
                    }
                }
            }
            assert(forall|i: int| 0 <= i < done.len() ==> done.push(strip_cr(cur))[i] == done[i]);
        } else {
            assert forall|j: int| 0 <= j < cur.push(s.last()).len() implies cur.push(s.last())[j]
                != '\n' by {
                if j < cur.len() {
                    assert(cur.push(s.last())[j] == cur[j]);
                }
            }
        }
    }
}

/// Scanning on past text without a newline extends the open line.
proof fn scan_append_open(s: Seq<char>, t: Seq<char>)
    requires
        !t.contains('\n'),
    ensures
        scan(s + t) == (scan(s).0, scan(s).1 + t),
    decreases t.len(),
{
    if t.len() == 0 {
        assert(s + t =~= s);
        assert(scan(s).1 + t =~= scan(s).1);
    } else {
        let u = t.drop_last();
        assert(!u.contains('\n')) by {
            assert forall|j: int| 0 <= j < u.len() implies u[j] != '\n' by {
                assert(u[j] == t[j]);
            }
        }
        scan_append_open(s, u);
        assert((s + t).drop_last() =~= s + u);
        assert((s + t).last() == t.last());
        assert(t.last() != '\n') by {
            assert(t[t.len() - 1] == t.last());
        }
        assert(scan(s).1 + t =~= (scan(s).1 + u).push(t.last()));
    }
}

/// Scanning joined lines gives the lines back, when none holds a newline or
/// ends with a carriage return.
proof fn scan_join(ls: Seq<Seq<char>>)
    requires
        forall|i: int| 0 <= i < ls.len() ==> !(#[trigger] ls[i]).contains('\n') && !ends_with_cr(
            ls[i],
        ),
    ensures
        scan(join_lines(ls)) == (ls, Seq::<char>::empty()),
    decreases ls.len(),
{
    if ls.len() > 0 {
        let front = ls.drop_last();
        let l = ls.last();
        assert(forall|i: int| 0 <= i < front.len() ==> front[i] == ls[i]);
        scan_join(front);
        assert(!l.contains('\n') && !ends_with_cr(l)) by {
            assert(ls[ls.len() - 1] == l);
        }
        scan_append_open(join_lines(front), l);
        let j = join_lines(ls);
        assert(j.drop_last() =~= join_lines(front) + l);
        assert(Seq::<char>::empty() + l =~= l);
        assert(front.push(l) =~= ls);
    }
}

/// Reading back the text that joined lines make gives the same lines, when
/// none holds a newline or ends with a carriage return.
pub proof fn lines_of_join(ls: Seq<Seq<char>>)
    requires
        forall|i: int| 0 <= i < ls.len() ==> !(#[trigger] ls[i]).contains('\n') && !ends_with_cr(
            ls[i],
        ),
    ensures
        lines_of(join_lines(ls)) == ls,
{
    scan_join(ls);
}

/// A text without `\r\n` is its ended lines, joined, followed by its open line.
proof fn join_scan(s: Seq<char>)
    requires
        !has_crlf(s),
    ensures
        join_lines(scan(s).0) + scan(s).1 == s,
        scan(s).1.len() > 0 ==> scan(s).1.last() == s.last(),
    decreases s.len(),
{
    if s.len() == 0 {
        assert(join_lines(scan(s).0) + scan(s).1 =~= s);
    } else {
        let p = s.drop_last();
        assert(!has_crlf(p)) by {
            if has_crlf(p) {
                let i = choose|i: int| 0 <= i < p.len() - 1 && p[i] == '\r' && #[trigger] p[i + 1]
                    == '\n';
                assert(s[i] == '\r' && s[i + 1] == '\n');
            }
        }
        join_scan(p);
        let (done, cur) = scan(p);
        if s.last() == '\n' {
            assert(!ends_with_cr(cur)) by {
                if ends_with_cr(cur) {
                    let i = s.len() - 2;
                    assert(p.last() == s[i]);
                    assert(s[i] == '\r' && s[i + 1] == '\n');
                    assert(has_crlf(s));
                }
            }
            assert(done.push(cur).drop_last() =~= done);
            assert(join_lines(done.push(cur)) + Seq::<char>::empty() =~= s);
        } else {
            assert(join_lines(done) + cur == p);
            assert(p.push(s.last()) =~= s);
            assert(join_lines(done) + cur.push(s.last()) =~= (join_lines(done) + cur).push(
                s.last(),
            ));
        }
    }
}

/// A non-empty text that ends with a newline and holds no `\r\n` is its lines,
/// joined.
pub proof fn join_lines_of(s: Seq<char>)
    requires
        s.len() > 0,
        s.last() == '\n',
        !has_crlf(s),
    ensures
        join_lines(lines_of(s)) == s,
        lines_of(s).len() > 0,
{
    join_scan(s);
    assert(join_lines(scan(s).0) + Seq::<char>::empty() =~= join_lines(scan(s).0));
}

/// Whether the last line of `content` has no newline after it.
pub fn last_line_open(content: &str) -> (r: bool)
    ensures
        r == ends_open(content@),
{
    let mut open: bool = false;
    for c in it: content.chars()
        invariant
            it.seq() == content@,
            open == ends_open(content@.take(it.index() as int)),
    {
        let ghost next = content@.take(it.index() + 1);
        assert(next.drop_last() =~= content@.take(it.index() as int));
        assert(next.last() == c);
        open = c != '\n';
    }
    assert(content@.take(content@.len() as int) =~= content@);
    open
}

/// Joined lines without the newline after the last one, read back, give
/// the same lines, when none holds a newline or ends with a carriage return
/// and the last one is not empty.
pub proof fn lines_of_join_open(ls: Seq<Seq<char>>)
    requires
        ls.len() > 0,
        ls.last().len() > 0,
        forall|i: int| 0 <= i < ls.len() ==> !(#[trigger] ls[i]).contains('\n') && !ends_with_cr(
            ls[i],
        ),
    ensures
        lines_of(join_lines(ls).drop_last()) == ls,
        ends_open(join_lines(ls).drop_last()),
{
    let front = ls.drop_last();
    let l = ls.last();
    assert(forall|i: int| 0 <= i < front.len() ==> front[i] == ls[i]);
    scan_join(front);
    assert(!l.contains('\n')) by {
        assert(ls[ls.len() - 1] == l);
    }
    scan_append_open(join_lines(front), l);
    assert(join_lines(ls).drop_last() =~= join_lines(front) + l);
    assert(Seq::<char>::empty() + l =~= l);
    assert(front.push(l) =~= ls);
}

/// A non-empty text whose last line is open and that holds no `\r\n` is its
/// lines, joined, without the last newline.
pub proof fn join_lines_of_open(s: Seq<char>)
    requires
        ends_open(s),
        !has_crlf(s),
    ensures
        lines_of(s).len() > 0,
        join_lines(lines_of(s)).drop_last() == s,
{
    join_scan(s);
    let (done, cur) = scan(s);
    assert(join_lines(done.push(cur)).drop_last() =~= join_lines(done) + cur) by {
        assert(done.push(cur).drop_last() =~= done);
    }
}

} // verus!
