//! The cleaner: a file's text without its invalid lines.
use vstd::prelude::*;
use vstd::string::*;

use crate::error::ValidationError;
use crate::lines::{
    ends_open, ends_with_cr, has_crlf, join_lines, join_lines_of, join_lines_of_open, last_line_open,
    lines_hold_no_newline, lines_of, lines_of_join, lines_of_join_open, scan_lines,
    views,
};
use crate::syntax::opt_view;

verus! {

/// The line numbers that a list of errors names.
pub open spec fn invalid_line_numbers(errors: Seq<ValidationError>) -> Set<int> {
    Set::new(|n: int| exists|k: int| 0 <= k < errors.len() && errors[k].line_number == n)
}

/// Those of the first `n` lines whose numbers (counted from 1) are not in
/// `invalid`, in their original order.
pub open spec fn kept_upto(lines: Seq<Seq<char>>, invalid: Set<int>, n: nat) -> Seq<Seq<char>>
    decreases n,
{
    if n == 0 {
        Seq::empty()
    } else {
        let before = kept_upto(lines, invalid, (n - 1) as nat);
        if invalid.contains(n as int) {
            before
        } else {
            before.push(lines[n - 1])
        }
    }
}

/// The lines whose numbers are not in `invalid`, in their original order.
pub open spec fn kept_lines(lines: Seq<Seq<char>>, invalid: Set<int>) -> Seq<Seq<char>> {
    kept_upto(lines, invalid, lines.len())
}

/// Whether the last line of `content` is kept and has no newline after it.
pub open spec fn keeps_open_end(content: Seq<char>, invalid: Set<int>) -> bool {
    ends_open(content) && !invalid.contains(lines_of(content).len() as int)
}

/// The cleaned form of a text: its kept lines, each followed by `\n` but for
/// a kept last line that had no newline in the text; or `None`, for no output
/// at all, when no line is kept.
pub open spec fn cleaned(content: Seq<char>, invalid: Set<int>) -> Option<Seq<char>> {
    let kept = kept_lines(lines_of(content), invalid);
    if kept.len() == 0 {
        None
    } else if keeps_open_end(content, invalid) {
        Some(join_lines(kept).drop_last())
    } else {
        Some(join_lines(kept))
    }
}

/// Removes from `content` the lines that `errors` names. Returns the text to
/// write, each kept line ended by `\n` unless it was the text's last line and
/// had no newline; or `None` when no line is left, in which case no output
/// file is to stand.
pub fn clean_content(content: &str, errors: &[ValidationError]) -> (r: Option<String>)
    ensures
        opt_view(r) == cleaned(content@, invalid_line_numbers(errors@)),
{
    let ghost invalid = invalid_line_numbers(errors@);
    let lines = scan_lines(content);
    let ghost all = views(lines@);
    let n = lines.len();
    let mut dropped: Vec<bool> = Vec::new();
    for i in 0..n
        invariant
            dropped.len() == i,
            forall|j: int| 0 <= j < i ==> !dropped[j],
    {
        dropped.push(false);
    }
    for k in 0..errors.len()
        invariant
            dropped.len() == n,
            forall|j: int|
                0 <= j < n ==> dropped[j] == exists|q: int|
                    0 <= q < k && (#[trigger] errors@[q]).line_number == j + 1,
    {
        let number = errors[k].line_number;
        if 1 <= number && number <= n {
            dropped[number - 1] = true;
        }
        assert forall|j: int| 0 <= j < n implies dropped[j] == exists|q: int|
            0 <= q < k + 1 && (#[trigger] errors@[q]).line_number == j + 1 by {
            if exists|q: int| 0 <= q < k + 1 && (#[trigger] errors@[q]).line_number == j + 1 {
                let q = choose|q: int| 0 <= q < k + 1 && (#[trigger] errors@[q]).line_number == j + 1;
                if q < k {
                } else {
                    assert(number == j + 1);
                }
            }
        }
    }
    assert forall|j: int| 0 <= j < n implies dropped[j] == invalid.contains(j + 1) by {
        if invalid.contains(j + 1) {
            let q = choose|q: int| 0 <= q < errors@.len() && errors@[q].line_number == j + 1;
            assert(errors@[q].line_number == j + 1);
        }
    }
    let newline = "\n";
    proof {
        reveal_strlit("\n");
    }
    assert(newline@ =~= seq!['\n']);
    let open = last_line_open(content);
    let ghost open_end = keeps_open_end(content@, invalid);
    let mut out = String::new();
    let mut any: bool = false;
    for i in 0..n
        invariant
            n == lines.len(),
            all == views(lines@),
            all == lines_of(content@),
            all.len() == n,
            dropped.len() == n,
            forall|j: int| 0 <= j < n ==> dropped[j] == invalid.contains(j + 1),
            newline@ == seq!['\n'],
            open == ends_open(content@),
            open_end == keeps_open_end(content@, invalid),
            out@ == if i == n && open_end {
                join_lines(kept_upto(all, invalid, i as nat)).drop_last()
            } else {
                join_lines(kept_upto(all, invalid, i as nat))
            },
            any == (kept_upto(all, invalid, i as nat).len() > 0),
    {
        if !dropped[i] {
            let line = &lines[i];
            assert(all[i as int] == line@);
            let ghost before = out@;
            out.append(line.as_str());
            let ghost kept = kept_upto(all, invalid, (i + 1) as nat);
            assert(kept.drop_last() == kept_upto(all, invalid, i as nat));
            if !(open && i + 1 == n) {
                out.append(newline);
            } else {
                assert(join_lines(kept).drop_last() =~= before + line@);
            }
            any = true;
        }
    }
    if any {
        Some(out)
    } else {
        None
    }
}


proof fn kept_upto_are_lines(lines: Seq<Seq<char>>, invalid: Set<int>, n: nat)
    requires
        n <= lines.len(),
    ensures
        forall|j: int|
            #![trigger kept_upto(lines, invalid, n)[j]]
            0 <= j < kept_upto(lines, invalid, n).len() ==> exists|i: int|
                0 <= i < n && kept_upto(lines, invalid, n)[j] == #[trigger] lines[i],
    decreases n,
{
    if n > 0 {
        kept_upto_are_lines(lines, invalid, (n - 1) as nat);
        let before = kept_upto(lines, invalid, (n - 1) as nat);
        let kept = kept_upto(lines, invalid, n);
        assert forall|j: int| #![trigger kept[j]] 0 <= j < kept.len() implies exists|i: int|
            0 <= i < n && kept[j] == #[trigger] lines[i] by {
            if j < before.len() {
                let i = choose|i: int| 0 <= i < n - 1 && before[j] == #[trigger] lines[i];
                assert(kept[j] == lines[i]);
            } else {
                assert(kept[j] == lines[n - 1]);
            }
        }
    }
}

/// Cleaning keeps exactly the lines whose numbers the errors do not name, in
/// their original order and with their content unchanged: reading the
/// cleaned text back as lines gives precisely those lines. (A line that ends
/// in a carriage return would lose it on reading back, so such lines are left
/// out of this statement.)
pub proof fn cleaning_keeps_unnamed_lines(content: Seq<char>, errors: Seq<ValidationError>)
    requires
        forall|i: int|
            0 <= i < lines_of(content).len() ==> !ends_with_cr(#[trigger] lines_of(content)[i]),
    ensures
        ({
            let kept = kept_lines(lines_of(content), invalid_line_numbers(errors));
            match cleaned(content, invalid_line_numbers(errors)) {
                Some(text) => kept.len() > 0 && lines_of(text) == kept,
                None => kept.len() == 0,
            }
        }),
{
    let lines = lines_of(content);
    let invalid = invalid_line_numbers(errors);
    let kept = kept_lines(lines, invalid);
    lines_hold_no_newline(content);
    kept_upto_are_lines(lines, invalid, lines.len());
    assert forall|j: int| 0 <= j < kept.len() implies !(#[trigger] kept[j]).contains('\n')
        && !ends_with_cr(kept[j]) by {
        let i = choose|i: int| 0 <= i < lines.len() && kept[j] == #[trigger] lines[i];
    }
    lines_of_join(kept);
}

proof fn kept_upto_all_named(lines: Seq<Seq<char>>, invalid: Set<int>, n: nat)
    requires
        forall|m: int| 1 <= m <= n ==> invalid.contains(m),
    ensures
        kept_upto(lines, invalid, n).len() == 0,
    decreases n,
{
    if n > 0 {
        kept_upto_all_named(lines, invalid, (n - 1) as nat);
    }
}

/// When the errors name every line of a text (or the text has no line),
/// cleaning leaves no output at all.
pub proof fn cleaning_all_invalid_leaves_nothing(content: Seq<char>, errors: Seq<ValidationError>)
    requires
        forall|m: int|
            1 <= m <= lines_of(content).len() ==> invalid_line_numbers(errors).contains(m),
    ensures
        cleaned(content, invalid_line_numbers(errors)) is None,
{
    kept_upto_all_named(lines_of(content), invalid_line_numbers(errors), lines_of(content).len());
}

proof fn kept_upto_none_named(lines: Seq<Seq<char>>, invalid: Set<int>, n: nat)
    requires
        n <= lines.len(),
        invalid.is_empty(),
    ensures
        kept_upto(lines, invalid, n) == lines.take(n as int),
    decreases n,
{
    if n > 0 {
        kept_upto_none_named(lines, invalid, (n - 1) as nat);
        assert(!invalid.contains(n as int));
        assert(lines.take((n - 1) as int).push(lines[n - 1]) =~= lines.take(n as int));
    }
}

/// Cleaning a text with no errors copies it unchanged, when it is not empty
/// and holds no `\r\n` (reading drops the carriage return of a `\r\n`
/// ending, and writing ends lines with `\n`).
pub proof fn cleaning_without_errors_copies(content: Seq<char>, errors: Seq<ValidationError>)
    requires
        errors.len() == 0,
        content.len() > 0,
        !has_crlf(content),
    ensures
        cleaned(content, invalid_line_numbers(errors)) == Some(content),
{
    let lines = lines_of(content);
    let invalid = invalid_line_numbers(errors);
    assert(invalid =~= Set::<int>::empty());
    if ends_open(content) {
        join_lines_of_open(content);
    } else {
        assert(content.last() == '\n');
        join_lines_of(content);
    }
    kept_upto_none_named(lines, invalid, lines.len());
    assert(lines.take(lines.len() as int) =~= lines);
}

} // verus!
