//! The aggregator: per-file outcomes merged in file order, and the summary
//! of a batch.
use vstd::prelude::*;

use crate::error::{NdJsonError, ValidationError, ValidationSummary};

verus! {

/// What processing one file gave: its errors, or the failure that stopped it.
pub type FileOutcome = Result<Vec<ValidationError>, NdJsonError>;

/// Whether some outcome in `tagged` is tagged with position `i`.
pub open spec fn has_tag(tagged: Seq<(usize, FileOutcome)>, i: int) -> bool {
    exists|k: int| 0 <= k < tagged.len() && (#[trigger] tagged[k]).0 == i
}

/// Whether `tagged` holds one outcome for each of the files `0..n`, each
/// tagged with its file's position, in any order.
pub open spec fn is_tagging(tagged: Seq<(usize, FileOutcome)>, n: nat) -> bool {
    &&& tagged.len() == n
    &&& forall|k: int| 0 <= k < tagged.len() ==> (#[trigger] tagged[k]).0 < n
    &&& forall|i: int| 0 <= i < n ==> #[trigger] has_tag(tagged, i)
    &&& forall|k: int, m: int|
        0 <= k < m < tagged.len() ==> (#[trigger] tagged[k]).0 != (#[trigger] tagged[m]).0
}

/// The outcome tagged with position `i`.
pub open spec fn outcome_at(tagged: Seq<(usize, FileOutcome)>, i: int) -> FileOutcome {
    tagged[choose|k: int| 0 <= k < tagged.len() && (#[trigger] tagged[k]).0 == i].1
}

/// The outcomes of the files `0..n`, in file order.
pub open spec fn in_order(tagged: Seq<(usize, FileOutcome)>, n: nat) -> Seq<FileOutcome> {
    Seq::new(n, |i: int| outcome_at(tagged, i))
}

/// The first `n` outcomes merged: the first failure among them, or all their
/// errors in file order.
pub open spec fn merged_upto(outcomes: Seq<FileOutcome>, n: nat) -> Result<
    Seq<ValidationError>,
    NdJsonError,
>
    decreases n,
{
    if n == 0 {
        Ok(Seq::empty())
    } else {
        match merged_upto(outcomes, (n - 1) as nat) {
            Err(e) => Err(e),
            Ok(before) => match outcomes[n - 1] {
                Err(e) => Err(e),
                Ok(errors) => Ok(before + errors@),
            },
        }
    }
}

/// All outcomes merged: the first failure in file order, or all errors in
/// file order.
pub open spec fn merged(outcomes: Seq<FileOutcome>) -> Result<Seq<ValidationError>, NdJsonError> {
    merged_upto(outcomes, outcomes.len())
}

/// The distinct files that a list of errors names.
pub open spec fn error_files(errors: Seq<ValidationError>) -> Set<Seq<char>> {
    Set::new(
        |p: Seq<char>| exists|k: int| 0 <= k < errors.len() && (#[trigger] errors[k]).file_path@ == p,
    )
}

/// Whether all of `errors` name the same file.
pub open spec fn names_one_file(errors: Seq<ValidationError>) -> bool {
    forall|a: int, b: int|
        0 <= a < errors.len() && 0 <= b < errors.len() ==> (#[trigger] errors[a]).file_path@ == (
        #[trigger] errors[b]).file_path@
}

/// Whether the errors of each outcome name that outcome's one file.
pub open spec fn one_file_each(outcomes: Seq<FileOutcome>) -> bool {
    forall|k: int|
        0 <= k < outcomes.len() && (#[trigger] outcomes[k]) is Ok ==> names_one_file(
            outcomes[k]->Ok_0@,
        )
}

/// The summary of `total_files` files whose merged errors are `errors`.
pub open spec fn summary_of(total_files: nat, errors: Seq<ValidationError>) -> ValidationSummary {
    ValidationSummary {
        total_files: total_files as usize,
        files_with_errors: error_files(errors).len() as usize,
        total_errors: errors.len() as usize,
    }
}

/// The result of a batch of `n` files: the first failure in file order, or the
/// summary together with all errors in file order.
pub open spec fn batch_result(tagged: Seq<(usize, FileOutcome)>, n: nat) -> Result<
    (ValidationSummary, Seq<ValidationError>),
    NdJsonError,
> {
    match merged(in_order(tagged, n)) {
        Ok(errors) => Ok((summary_of(n, errors), errors)),
        Err(e) => Err(e),
    }
}

proof fn outcome_at_tag(tagged: Seq<(usize, FileOutcome)>, n: nat, k: int)
    requires
        is_tagging(tagged, n),
        0 <= k < tagged.len(),
    ensures
        outcome_at(tagged, tagged[k].0 as int) == tagged[k].1,
{
    let i = tagged[k].0 as int;
    let c = choose|c: int| 0 <= c < tagged.len() && (#[trigger] tagged[c]).0 == i;
    assert(0 <= c < tagged.len() && tagged[c].0 == i);
    if c < k {
        assert(tagged[c].0 != tagged[k].0);
    } else if k < c {
        assert(tagged[k].0 != tagged[c].0);
    }
}

/// Puts the outcomes of `file_count` files, tagged with their positions and
/// handed in whatever order they were finished, back into file order and
/// merges them: the first failure in file order, or all errors in file order.
pub fn merge_in_order(file_count: usize, tagged: Vec<(usize, FileOutcome)>) -> (r: Result<
    Vec<ValidationError>,
    NdJsonError,
>)
    requires
        is_tagging(tagged@, file_count as nat),
    ensures
        match r {
            Ok(errors) => merged(in_order(tagged@, file_count as nat)) == Ok::<
                Seq<ValidationError>,
                NdJsonError,
            >(errors@),
            Err(e) => merged(in_order(tagged@, file_count as nat)) == Err::<
                Seq<ValidationError>,
                NdJsonError,
            >(e),
        },
{
    let ghost t = tagged@;
    let ghost order = in_order(t, file_count as nat);
    let mut slots: Vec<Option<FileOutcome>> = Vec::new();
    for i in 0..file_count
        invariant
            slots.len() == i,
            forall|j: int| 0 <= j < i ==> slots[j] is None,
    {
        slots.push(None);
    }
    for pair in it: tagged
        invariant
            it.seq() == t,
            is_tagging(t, file_count as nat),
            slots.len() == file_count,
            forall|j: int|
                0 <= j < file_count ==> ((#[trigger] slots[j]) is Some <==> exists|k: int|
                    0 <= k < it.index() && t[k].0 == j),
            forall|j: int|
                0 <= j < file_count && (#[trigger] slots[j]) is Some ==> slots[j] == Some(
                    outcome_at(t, j),
                ),
    {
        let ghost k = it.index();
        proof {
            outcome_at_tag(t, file_count as nat, k as int);
        }
        let (i, outcome) = pair;
        assert(t[k as int].0 == i);
        slots[i] = Some(outcome);
        assert forall|j: int| 0 <= j < file_count implies ((#[trigger] slots[j]) is Some
            <==> exists|q: int| 0 <= q < k + 1 && t[q].0 == j) by {
            if j != i {
                if exists|q: int| 0 <= q < k + 1 && t[q].0 == j {
                    let q = choose|q: int| 0 <= q < k + 1 && t[q].0 == j;
                    assert(q != k);
                }
            }
        }
    }
    assert forall|j: int| 0 <= j < file_count implies (#[trigger] slots[j]) is Some by {
        assert(has_tag(t, j));
        let k = choose|k: int| 0 <= k < t.len() && (#[trigger] t[k]).0 == j;
        assert(t[k].0 == j);
    }
    let mut all: Vec<ValidationError> = Vec::new();
    for i in 0..file_count
        invariant
            t == tagged@,
            slots.len() == file_count,
            order.len() == file_count,
            order == in_order(t, file_count as nat),
            forall|j: int| i <= j < file_count ==> (#[trigger] slots[j]) == Some(order[j]),
            merged_upto(order, i as nat) == Ok::<Seq<ValidationError>, NdJsonError>(all@),
    {
        let slot = slots[i].take();
        match slot {
            Some(Ok(mut errors)) => {
                let ghost before = all@;
                all.append(&mut errors);
                assert(merged_upto(order, (i + 1) as nat) == Ok::<
                    Seq<ValidationError>,
                    NdJsonError,
                >(before + order[i as int]->Ok_0@));
            },
            Some(Err(e)) => {
                assert(merged_upto(order, (i + 1) as nat) == Err::<Seq<ValidationError>, NdJsonError>(
                    e,
                ));
                proof {
                    merged_stays_failed(order, (i + 1) as nat, file_count as nat);
                }
                assert(merged(order) == Err::<Seq<ValidationError>, NdJsonError>(e));
                return Err(e);
            },
            None => {
                assert(false);
                return Ok(all);
            },
        }
    }
    Ok(all)
}

proof fn merged_stays_failed(outcomes: Seq<FileOutcome>, m: nat, n: nat)
    requires
        m <= n <= outcomes.len(),
        merged_upto(outcomes, m) is Err,
    ensures
        merged_upto(outcomes, n) == merged_upto(outcomes, m),
    decreases n - m,
{
    if m < n {
        merged_stays_failed(outcomes, m, (n - 1) as nat);
    }
}

/// The files named by the errors at the positions `firsts`.
spec fn files_at(errors: Seq<ValidationError>, firsts: Seq<usize>) -> Seq<Seq<char>> {
    firsts.map_values(|f: usize| errors[f as int].file_path@)
}

/// Sums up a batch of `total_files` files whose merged errors are `errors`:
/// the number of files, of distinct files with an error, and of errors.
pub fn summarize(total_files: usize, errors: &Vec<ValidationError>) -> (s: ValidationSummary)
    ensures
        s == summary_of(total_files as nat, errors@),
        s.files_with_errors <= s.total_errors,
        (s.files_with_errors == 0) == (s.total_errors == 0),
{
    // The position of the first error of each distinct file, in order.
    let mut firsts: Vec<usize> = Vec::new();
    let n = errors.len();
    for k in 0..n
        invariant
            n == errors.len(),
            firsts.len() <= k,
            k > 0 ==> firsts.len() > 0,
            forall|m: int| 0 <= m < firsts.len() ==> firsts[m] < k,
            files_at(errors@, firsts@).no_duplicates(),
            files_at(errors@, firsts@).to_set() == error_files(errors@.take(k as int)),
    {
        let ghost before = files_at(errors@, firsts@);
        let mut seen: bool = false;
        for m in 0..firsts.len()
            invariant
                n == errors.len(),
                k < n,
                forall|q: int| 0 <= q < firsts.len() ==> firsts[q] < k,
                before == files_at(errors@, firsts@),
                seen == exists|q: int| 0 <= q < m && before[q] == errors@[k as int].file_path@,
        {
            assert(before[m as int] == errors@[firsts@[m as int] as int].file_path@);
            if errors[firsts[m]].file_path == errors[k].file_path {
                seen = true;
            }
        }
        let ghost path = errors@[k as int].file_path@;
        assert(error_files(errors@.take(k + 1)) =~= error_files(errors@.take(k as int)).insert(
            path,
        )) by {
            assert forall|p: Seq<char>| error_files(errors@.take(k + 1)).contains(p) implies error_files(
                errors@.take(k as int),
            ).insert(path).contains(p) by {
                let q = choose|q: int|
                    0 <= q < errors@.take(k + 1).len() && (#[trigger] errors@.take(k + 1)[q]).file_path@
                        == p;
                if q < k {
                    assert(errors@.take(k as int)[q] == errors@.take(k + 1)[q]);
                }
            }
            assert forall|p: Seq<char>| error_files(errors@.take(k as int)).insert(path).contains(
                p,
            ) implies error_files(errors@.take(k + 1)).contains(p) by {
                if p == path {
                    assert(errors@.take(k + 1)[k as int] == errors@[k as int]);
                } else {
                    let q = choose|q: int|
                        0 <= q < errors@.take(k as int).len() && (
                        #[trigger] errors@.take(k as int)[q]).file_path@ == p;
                    assert(errors@.take(k + 1)[q] == errors@.take(k as int)[q]);
                }
            }
        }
        if seen {
            assert(k > 0);
            assert(before.to_set().contains(path)) by {
                let q = choose|q: int| 0 <= q < firsts.len() && before[q] == path;
                assert(before.contains(path));
            }
            assert(before.to_set().insert(path) =~= before.to_set());
        } else {
            firsts.push(k);
            assert(files_at(errors@, firsts@) =~= before.push(path));
            assert(!before.contains(path));
            proof {
                before.lemma_push_to_set_commute(path);
            }
            assert(before.push(path).no_duplicates()) by {
                assert forall|a: int, b: int|
                    0 <= a < before.push(path).len() && 0 <= b < before.push(path).len() && a
                        != b implies before.push(path)[a] != before.push(path)[b] by {
                    if a == before.len() {
                        assert(before.push(path)[b] == before[b]);
                    } else if b == before.len() {
                        assert(before.push(path)[a] == before[a]);
                    }
                }
            }
        }
    }
    assert(errors@.take(n as int) =~= errors@);
    proof {
        files_at(errors@, firsts@).unique_seq_to_set();
    }
    ValidationSummary { total_files, files_with_errors: firsts.len(), total_errors: n }
}

proof fn merged_files_bounded(outcomes: Seq<FileOutcome>, i: nat)
    requires
        i <= outcomes.len(),
        one_file_each(outcomes),
    ensures
        merged_upto(outcomes, i) is Ok ==> error_files(merged_upto(outcomes, i)->Ok_0).finite()
            && error_files(merged_upto(outcomes, i)->Ok_0).len() <= i,
    decreases i,
{
    if i == 0 {
        assert(error_files(Seq::<ValidationError>::empty()) =~= Set::<Seq<char>>::empty());
    } else {
        merged_files_bounded(outcomes, (i - 1) as nat);
        if let Ok(before) = merged_upto(outcomes, (i - 1) as nat) {
            if let Ok(v) = outcomes[i - 1] {
                let all = before + v@;
                let fb = error_files(before);
                assert(names_one_file(v@));
                if v@.len() == 0 {
                    assert(all =~= before);
                } else {
                    let p = v@[0].file_path@;
                    assert(error_files(all).subset_of(fb.insert(p))) by {
                        assert forall|q: Seq<char>| error_files(all).contains(q) implies fb.insert(
                            p,
                        ).contains(q) by {
                            let k = choose|k: int|
                                0 <= k < all.len() && (#[trigger] all[k]).file_path@ == q;
                            if k < before.len() {
                                assert(all[k] == before[k]);
                            } else {
                                assert(all[k] == v@[k - before.len()]);
                            }
                        }
                    }
                    vstd::set_lib::lemma_len_subset(error_files(all), fb.insert(p));
                }
            }
        }
    }
}

/// Merges the tagged outcomes of `file_count` files, as `merge_in_order`
/// does, and sums the merged errors up. When the errors of each file name
/// that file alone, no more files have errors than the batch holds.
pub fn merge_with_summary(file_count: usize, tagged: Vec<(usize, FileOutcome)>) -> (r: Result<
    (ValidationSummary, Vec<ValidationError>),
    NdJsonError,
>)
    requires
        is_tagging(tagged@, file_count as nat),
    ensures
        match r {
            Ok((summary, errors)) => {
                &&& batch_result(tagged@, file_count as nat) == Ok::<
                    (ValidationSummary, Seq<ValidationError>),
                    NdJsonError,
                >((summary, errors@))
                &&& summary.files_with_errors <= summary.total_errors
                &&& (summary.files_with_errors == 0) == (summary.total_errors == 0)
                &&& one_file_each(in_order(tagged@, file_count as nat))
                    ==> summary.files_with_errors <= summary.total_files
            },
            Err(e) => batch_result(tagged@, file_count as nat) == Err::<
                (ValidationSummary, Seq<ValidationError>),
                NdJsonError,
            >(e),
        },
{
    let ghost order = in_order(tagged@, file_count as nat);
    match merge_in_order(file_count, tagged) {
        Ok(errors) => {
            let summary = summarize(file_count, &errors);
            proof {
                if one_file_each(order) {
                    merged_files_bounded(order, file_count as nat);
                }
            }
            Ok((summary, errors))
        },
        Err(e) => Err(e),
    }
}

/// A batch's result does not depend on the order in which its files were
/// finished: two taggings of the same outcomes, in any two orders, give the
/// same errors in the same order, the same first failure, and the same
/// summary. Parallel and sequential runs therefore agree.
pub proof fn batch_ignores_completion_order(
    n: nat,
    first: Seq<(usize, FileOutcome)>,
    second: Seq<(usize, FileOutcome)>,
)
    requires
        is_tagging(first, n),
        is_tagging(second, n),
        first.to_multiset() == second.to_multiset(),
    ensures
        in_order(first, n) == in_order(second, n),
        merged(in_order(first, n)) == merged(in_order(second, n)),
        batch_result(first, n) == batch_result(second, n),
{
    broadcast use vstd::seq_lib::group_to_multiset_ensures;

    assert forall|i: int| 0 <= i < n implies outcome_at(first, i) == outcome_at(second, i) by {
        assert(has_tag(first, i));
        let k = choose|k: int| 0 <= k < first.len() && (#[trigger] first[k]).0 == i;
        outcome_at_tag(first, n, k);
        assert(first.contains(first[k]));
        assert(second.to_multiset().count(first[k]) > 0);
        assert(second.contains(first[k]));
        let m = choose|m: int| 0 <= m < second.len() && second[m] == first[k];
        outcome_at_tag(second, n, m);
    }
    assert(in_order(first, n) =~= in_order(second, n));
}

/// The number of errors among the first `i` outcomes that succeeded.
pub open spec fn error_total(outcomes: Seq<FileOutcome>, i: nat) -> nat
    decreases i,
{
    if i == 0 {
        0
    } else {
        error_total(outcomes, (i - 1) as nat) + match outcomes[i - 1] {
            Ok(errors) => errors@.len(),
            Err(_) => 0,
        }
    }
}

/// The number of the first `i` outcomes that succeeded with some error.
pub open spec fn erring_files(outcomes: Seq<FileOutcome>, i: nat) -> nat
    decreases i,
{
    if i == 0 {
        0
    } else {
        erring_files(outcomes, (i - 1) as nat) + match outcomes[i - 1] {
            Ok(errors) => if errors@.len() > 0 {
                1nat
            } else {
                0nat
            },
            Err(_) => 0,
        }
    }
}

/// Whether no two outcomes with errors name the same file.
pub open spec fn distinct_files(outcomes: Seq<FileOutcome>) -> bool {
    forall|a: int, b: int|
        0 <= a < outcomes.len() && 0 <= b < outcomes.len() && a != b && (#[trigger] outcomes[a]) is Ok
            && (#[trigger] outcomes[b]) is Ok && outcomes[a]->Ok_0@.len() > 0
            && outcomes[b]->Ok_0@.len() > 0 ==> outcomes[a]->Ok_0@[0].file_path@
            != outcomes[b]->Ok_0@[0].file_path@
}

proof fn counts_upto(outcomes: Seq<FileOutcome>, i: nat)
    requires
        i <= outcomes.len(),
        forall|j: int| 0 <= j < outcomes.len() ==> (#[trigger] outcomes[j]) is Ok,
        one_file_each(outcomes),
        distinct_files(outcomes),
    ensures
        merged_upto(outcomes, i) is Ok,
        merged_upto(outcomes, i)->Ok_0.len() == error_total(outcomes, i),
        error_files(merged_upto(outcomes, i)->Ok_0).finite(),
        error_files(merged_upto(outcomes, i)->Ok_0).len() == erring_files(outcomes, i),
        forall|p: Seq<char>|
            #[trigger] error_files(merged_upto(outcomes, i)->Ok_0).contains(p) ==> exists|j: int|
                0 <= j < i && (#[trigger] outcomes[j])->Ok_0@.len() > 0 && outcomes[j]->Ok_0@[0].file_path@
                    == p,
    decreases i,
{
    if i == 0 {
        assert(error_files(Seq::<ValidationError>::empty()) =~= Set::<Seq<char>>::empty());
    } else {
        counts_upto(outcomes, (i - 1) as nat);
        let before = merged_upto(outcomes, (i - 1) as nat)->Ok_0;
        assert(outcomes[i - 1] is Ok);
        let v = outcomes[i - 1]->Ok_0;
        let all = before + v@;
        let fb = error_files(before);
        assert(names_one_file(v@));
        if v@.len() == 0 {
            assert(all =~= before);
        } else {
            let p = v@[0].file_path@;
            assert(error_files(all) =~= fb.insert(p)) by {
                assert forall|q: Seq<char>| error_files(all).contains(q) implies fb.insert(p).contains(
                    q,
                ) by {
                    let k = choose|k: int| 0 <= k < all.len() && (#[trigger] all[k]).file_path@ == q;
                    if k < before.len() {
                        assert(all[k] == before[k]);
                    } else {
                        assert(all[k] == v@[k - before.len()]);
                    }
                }
                assert forall|q: Seq<char>| fb.insert(p).contains(q) implies error_files(
                    all,
                ).contains(q) by {
                    if q == p {
                        assert(all[before.len() as int] == v@[0]);
                    } else {
                        let k = choose|k: int|
                            0 <= k < before.len() && (#[trigger] before[k]).file_path@ == q;
                        assert(all[k] == before[k]);
                    }
                }
            }
            assert(!fb.contains(p)) by {
                if fb.contains(p) {
                    let j = choose|j: int|
                        0 <= j < i - 1 && (#[trigger] outcomes[j])->Ok_0@.len() > 0
                            && outcomes[j]->Ok_0@[0].file_path@ == p;
                    assert(outcomes[j] is Ok);
                }
            }
            assert forall|q: Seq<char>| #[trigger] error_files(all).contains(q) implies exists|j: int|
                0 <= j < i && (#[trigger] outcomes[j])->Ok_0@.len() > 0
                    && outcomes[j]->Ok_0@[0].file_path@ == q by {
                if q != p {
                    assert(fb.contains(q));
                }
            }
        }
    }
}

/// The counts of a batch in which every file was read and each file's
/// errors name that file alone, no two files under the same name: the
/// summary holds the number of files, the number of files with at least one
/// error, and the sum of their error counts.
pub proof fn batch_counts_files_and_errors(outcomes: Seq<FileOutcome>)
    requires
        forall|j: int| 0 <= j < outcomes.len() ==> (#[trigger] outcomes[j]) is Ok,
        one_file_each(outcomes),
        distinct_files(outcomes),
    ensures
        merged(outcomes) is Ok,
        summary_of(outcomes.len(), merged(outcomes)->Ok_0) == (ValidationSummary {
            total_files: outcomes.len() as usize,
            files_with_errors: erring_files(outcomes, outcomes.len()) as usize,
            total_errors: error_total(outcomes, outcomes.len()) as usize,
        }),
{
    counts_upto(outcomes, outcomes.len());
}

} // verus!
