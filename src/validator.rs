//! The validator: the errors of one file, line by line.
use vstd::prelude::*;

use crate::error::{records, ErrorRecord, ValidationError};
use crate::lines::{lines_of, scan_lines, views};
use crate::syntax::{check_line, opt_view, verdict, Backend};
use crate::text::{blank, is_blank};

verus! {

/// Whether line `n` (counted from 1) of `lines` is reported: it is not blank
/// and the parser rejects it.
pub open spec fn is_invalid_line(lines: Seq<Seq<char>>, backend: Backend, n: int) -> bool {
    !blank(lines[n - 1]) && verdict(backend, lines[n - 1]) is Some
}

/// The parser's verdict on each line, in order.
pub open spec fn verdicts_of(lines: Seq<Seq<char>>, backend: Backend) -> Seq<Option<Seq<char>>> {
    lines.map_values(|l: Seq<char>| verdict(backend, l))
}

/// The views of a sequence of optional messages.
pub open spec fn opt_views(v: Seq<Option<String>>) -> Seq<Option<Seq<char>>> {
    v.map_values(|m: Option<String>| opt_view(m))
}

/// The errors among the first `n` lines of `lines`, given the verdict on
/// each line: one for each line that is not blank and whose verdict is a
/// failure, in line order. The verdicts on blank lines play no part.
pub open spec fn errors_upto(
    path: Seq<char>,
    lines: Seq<Seq<char>>,
    verdicts: Seq<Option<Seq<char>>>,
    n: nat,
) -> Seq<ErrorRecord>
    decreases n,
{
    if n == 0 {
        Seq::empty()
    } else {
        let before = errors_upto(path, lines, verdicts, (n - 1) as nat);
        if !blank(lines[n - 1]) && verdicts[n - 1] is Some {
            before.push(
                ErrorRecord {
                    file_path: path,
                    line_number: n,
                    line_content: lines[n - 1],
                    error: verdicts[n - 1]->0,
                },
            )
        } else {
            before
        }
    }
}

/// The errors of a file named `path` whose lines are `lines`.
pub open spec fn line_errors(path: Seq<char>, lines: Seq<Seq<char>>, backend: Backend) -> Seq<
    ErrorRecord,
> {
    errors_upto(path, lines, verdicts_of(lines, backend), lines.len())
}

/// The errors of a file named `path` whose text is `content`.
pub open spec fn file_errors(path: Seq<char>, content: Seq<char>, backend: Backend) -> Seq<
    ErrorRecord,
> {
    line_errors(path, lines_of(content), backend)
}

/// Every error reports the line it is about: the `k`-th error names line
/// `line_number`, counted from 1 over every line of the file (blank ones
/// included), that line's text is its content, and the line is one the parser
/// rejects. Line numbers rise strictly, and every rejected non-blank line is
/// reported.
pub proof fn error_line_numbers_are_positions(
    path: Seq<char>,
    lines: Seq<Seq<char>>,
    backend: Backend,
)
    ensures
        ({
            let errors = line_errors(path, lines, backend);
            &&& forall|k: int|
                0 <= k < errors.len() ==> {
                    let n = #[trigger] errors[k].line_number as int;
                    &&& 1 <= n <= lines.len()
                    &&& errors[k].file_path == path
                    &&& errors[k].line_content == lines[n - 1]
                    &&& is_invalid_line(lines, backend, n)
                    &&& verdict(backend, lines[n - 1]) == Some(errors[k].error)
                }
            &&& forall|j: int, k: int|
                0 <= j < k < errors.len() ==> errors[j].line_number < errors[k].line_number
            &&& forall|n: int|
                1 <= n <= lines.len() && #[trigger] is_invalid_line(lines, backend, n) ==> exists|
                    k: int,
                | 0 <= k < errors.len() && errors[k].line_number == n
        }),
{
    errors_upto_positions(path, lines, backend, lines.len());
}

proof fn errors_upto_positions(path: Seq<char>, lines: Seq<Seq<char>>, backend: Backend, m: nat)
    requires
        m <= lines.len(),
    ensures
        ({
            let errors = errors_upto(path, lines, verdicts_of(lines, backend), m);
            &&& forall|k: int|
                0 <= k < errors.len() ==> {
                    let n = #[trigger] errors[k].line_number as int;
                    &&& 1 <= n <= m
                    &&& errors[k].file_path == path
                    &&& errors[k].line_content == lines[n - 1]
                    &&& is_invalid_line(lines, backend, n)
                    &&& verdict(backend, lines[n - 1]) == Some(errors[k].error)
                }
            &&& forall|j: int, k: int|
                0 <= j < k < errors.len() ==> errors[j].line_number < errors[k].line_number
            &&& forall|n: int|
                1 <= n <= m && #[trigger] is_invalid_line(lines, backend, n) ==> exists|k: int|
                    0 <= k < errors.len() && errors[k].line_number == n
        }),
    decreases m,
{
    if m > 0 {
        errors_upto_positions(path, lines, backend, (m - 1) as nat);
        let verdicts = verdicts_of(lines, backend);
        let before = errors_upto(path, lines, verdicts, (m - 1) as nat);
        let errors = errors_upto(path, lines, verdicts, m);
        assert(verdicts[m - 1] == verdict(backend, lines[m - 1]));
        assert forall|n: int|
            1 <= n <= m && #[trigger] is_invalid_line(lines, backend, n) implies exists|k: int|
                0 <= k < errors.len() && errors[k].line_number == n by {
            if n < m {
                let k = choose|k: int| 0 <= k < before.len() && before[k].line_number == n;
                assert(errors[k] == before[k]);
            } else {
                assert(errors[errors.len() - 1].line_number == n);
            }
        }
    }
}

/// Validation is repeatable: the same text of the same file gives the same
/// errors, in the same order, every time.
pub proof fn validation_is_repeatable(
    path: Seq<char>,
    first: Seq<char>,
    second: Seq<char>,
    backend: Backend,
)
    requires
        first == second,
    ensures
        file_errors(path, first, backend) == file_errors(path, second, backend),
{
}

proof fn errors_upto_agree(
    path: Seq<char>,
    lines: Seq<Seq<char>>,
    first: Seq<Option<Seq<char>>>,
    second: Seq<Option<Seq<char>>>,
    m: nat,
)
    requires
        m <= lines.len(),
        m <= first.len(),
        m <= second.len(),
        forall|i: int| 0 <= i < m && !blank(lines[i]) ==> first[i] == second[i],
    ensures
        errors_upto(path, lines, first, m) == errors_upto(path, lines, second, m),
    decreases m,
{
    if m > 0 {
        errors_upto_agree(path, lines, first, second, (m - 1) as nat);
    }
}

/// Builds the errors of the file `file_path` from its lines and the verdict
/// on each line (`None` for a valid line): one error for each line that is
/// not blank and whose verdict is a failure, in line order.
pub fn errors_from_verdicts(
    file_path: &str,
    lines: &Vec<String>,
    verdicts: &Vec<Option<String>>,
) -> (errors: Vec<ValidationError>)
    requires
        lines.len() == verdicts.len(),
    ensures
        records(errors@) == errors_upto(
            file_path@,
            views(lines@),
            opt_views(verdicts@),
            lines.len() as nat,
        ),
{
    let ghost all = views(lines@);
    let ghost given = opt_views(verdicts@);
    let mut errors: Vec<ValidationError> = Vec::new();
    let n = lines.len();
    for i in 0..n
        invariant
            n == lines.len(),
            n == verdicts.len(),
            all == views(lines@),
            given == opt_views(verdicts@),
            records(errors@) == errors_upto(file_path@, all, given, i as nat),
    {
        let line = &lines[i];
        assert(all[i as int] == line@);
        assert(given[i as int] == opt_view(verdicts@[i as int]));
        if !is_blank(line.as_str()) {
            if let Some(message) = &verdicts[i] {
                let ghost before = records(errors@);
                let e = ValidationError {
                    file_path: file_path.to_owned(),
                    line_number: i + 1,
                    line_content: line.clone(),
                    error: message.clone(),
                };
                errors.push(e);
                assert(records(errors@) =~= before.push(e@));
            }
        }
    }
    errors
}

/// Validates the lines of the file `file_path`: one error for each line that
/// is not blank and that `backend` rejects, in line order. Blank lines are
/// not handed to the parser.
pub fn validate_lines(file_path: &str, lines: &Vec<String>, backend: Backend) -> (errors: Vec<
    ValidationError,
>)
    ensures
        records(errors@) == line_errors(file_path@, views(lines@), backend),
{
    let ghost all = views(lines@);
    let mut verdicts: Vec<Option<String>> = Vec::new();
    let n = lines.len();
    for i in 0..n
        invariant
            n == lines.len(),
            all == views(lines@),
            verdicts.len() == i,
            forall|j: int|
                0 <= j < i && !blank(all[j]) ==> opt_view(#[trigger] verdicts@[j]) == verdict(
                    backend,
                    all[j],
                ),
    {
        let line = &lines[i];
        assert(all[i as int] == line@);
        if is_blank(line.as_str()) {
            verdicts.push(None);
        } else {
            verdicts.push(check_line(backend, line.as_str()));
        }
    }
    let errors = errors_from_verdicts(file_path, lines, &verdicts);
    proof {
        let given = opt_views(verdicts@);
        let expected = verdicts_of(all, backend);
        assert forall|i: int| 0 <= i < n && !blank(all[i]) implies given[i] == expected[i] by {
            assert(given[i] == opt_view(verdicts@[i]));
        }
        errors_upto_agree(file_path@, all, given, expected, n as nat);
    }
    errors
}

/// Validates the text `content` of the file `file_path`.
pub fn validate_content(file_path: &str, content: &str, backend: Backend) -> (errors: Vec<
    ValidationError,
>)
    ensures
        records(errors@) == file_errors(file_path@, content@, backend),
{
    let lines = scan_lines(content);
    validate_lines(file_path, &lines, backend)
}

} // verus!
