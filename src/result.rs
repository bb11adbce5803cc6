//! Per-test outcomes and their summary for one student.
use vstd::prelude::*;

verus! {

/// How far the extra-credit behaviour of one test case was completed:
/// `Incomplete` stands for no extra credit at all.
#[derive(Debug, Clone, Copy, PartialEq, Eq, Hash, Structural)]
pub enum AdditionalStatus {
    Full,
    Partial,
    Incomplete,
}

/// The outcome of one test case within a submission. `infos` and
/// `additional_infos` are labelled diagnostic values, in display form.
#[derive(Debug, Clone)]
pub struct TestResult {
    pub passed: bool,
    pub infos: Option<Vec<(String, String)>>,
    pub additional_infos: Option<Vec<(String, String)>>,
    pub additional_status: Option<AdditionalStatus>,
}

/// The status a result contributes to the summary: a missing one counts as `Incomplete`.
pub open spec fn status_of(r: TestResult) -> AdditionalStatus {
    match r.additional_status {
        Option::Some(s) => s,
        Option::None => AdditionalStatus::Incomplete,
    }
}

/// One step of the fold: `Partial` wins over everything, then `Incomplete`, then `Full`.
pub open spec fn step(acc: AdditionalStatus, status: AdditionalStatus) -> AdditionalStatus {
    if status == AdditionalStatus::Partial || acc == AdditionalStatus::Partial {
        AdditionalStatus::Partial
    } else if status == AdditionalStatus::Incomplete || acc == AdditionalStatus::Incomplete {
        AdditionalStatus::Incomplete
    } else {
        AdditionalStatus::Full
    }
}

/// The fold of `step` over the statuses of `rs`, left to right, from `Full`.
pub open spec fn fold_status(rs: Seq<TestResult>) -> AdditionalStatus
    decreases rs.len(),
{
    if rs.len() == 0 {
        AdditionalStatus::Full
    } else {
        step(fold_status(rs.drop_last()), status_of(rs.last()))
    }
}

/// The summary status of a student's results: `Incomplete` when there are none.
pub open spec fn summary_status(rs: Seq<TestResult>) -> AdditionalStatus {
    if rs.len() == 0 {
        AdditionalStatus::Incomplete
    } else {
        fold_status(rs)
    }
}

/// Number of results that passed.
pub open spec fn count_passed(rs: Seq<TestResult>) -> nat
    decreases rs.len(),
{
    if rs.len() == 0 {
        0
    } else {
        count_passed(rs.drop_last()) + if rs.last().passed { 1nat } else { 0nat }
    }
}

/// Number of results that carry `infos`.
pub open spec fn count_infos(rs: Seq<TestResult>) -> nat
    decreases rs.len(),
{
    if rs.len() == 0 {
        0
    } else {
        count_infos(rs.drop_last()) + if rs.last().infos is Some { 1nat } else { 0nat }
    }
}

/// Number of results that carry `additional_infos`.
pub open spec fn count_additional_infos(rs: Seq<TestResult>) -> nat
    decreases rs.len(),
{
    if rs.len() == 0 {
        0
    } else {
        count_additional_infos(rs.drop_last()) + if rs.last().additional_infos is Some {
            1nat
        } else {
            0nat
        }
    }
}

proof fn lemma_counts_bounded(rs: Seq<TestResult>)
    ensures
        count_passed(rs) <= rs.len(),
        count_infos(rs) <= rs.len(),
        count_additional_infos(rs) <= rs.len(),
    decreases rs.len(),
{
    if rs.len() > 0 {
        lemma_counts_bounded(rs.drop_last());
    }
}

/// The summary status is `Partial` exactly when some result is `Partial`; it
/// is `Full` exactly when there is at least one result and every result is
/// `Full`; otherwise it is `Incomplete`.
pub proof fn lemma_summary_precedence(rs: Seq<TestResult>)
    ensures
        (summary_status(rs) == AdditionalStatus::Partial) <==> (exists|i: int|
            0 <= i < rs.len() && status_of(#[trigger] rs[i]) == AdditionalStatus::Partial),
        (summary_status(rs) == AdditionalStatus::Full) <==> (rs.len() > 0 && forall|i: int|
            0 <= i < rs.len() ==> status_of(#[trigger] rs[i]) == AdditionalStatus::Full),
{
    lemma_fold_precedence(rs);
}

proof fn lemma_fold_precedence(rs: Seq<TestResult>)
    ensures
        (fold_status(rs) == AdditionalStatus::Partial) <==> (exists|i: int|
            0 <= i < rs.len() && status_of(#[trigger] rs[i]) == AdditionalStatus::Partial),
        (fold_status(rs) == AdditionalStatus::Full) <==> (forall|i: int|
            0 <= i < rs.len() ==> status_of(#[trigger] rs[i]) == AdditionalStatus::Full),
    decreases rs.len(),
{
    if rs.len() > 0 {
        let init = rs.drop_last();
        lemma_fold_precedence(init);
        assert forall|i: int| 0 <= i < init.len() implies init[i] == rs[i] by {}
        if fold_status(rs) == AdditionalStatus::Partial {
            if status_of(rs.last()) != AdditionalStatus::Partial {
                let i = choose|i: int|
                    0 <= i < init.len() && status_of(#[trigger] init[i])
                        == AdditionalStatus::Partial;
                assert(status_of(rs[i]) == AdditionalStatus::Partial);
            } else {
                assert(status_of(rs[rs.len() - 1]) == AdditionalStatus::Partial);
            }
        }
        if exists|i: int| 0 <= i < rs.len() && status_of(#[trigger] rs[i]) == AdditionalStatus::Partial {
            let i = choose|i: int|
                0 <= i < rs.len() && status_of(#[trigger] rs[i]) == AdditionalStatus::Partial;
            if i < init.len() {
                assert(status_of(init[i]) == AdditionalStatus::Partial);
            }
        }
        if !(fold_status(rs) == AdditionalStatus::Full) {
            if fold_status(init) != AdditionalStatus::Full {
                let i = choose|i: int|
                    0 <= i < init.len() && status_of(#[trigger] init[i])
                        != AdditionalStatus::Full;
                assert(status_of(rs[i]) != AdditionalStatus::Full);
            } else {
                assert(status_of(rs[rs.len() - 1]) != AdditionalStatus::Full);
            }
        }
    }
}

/// What the presentation of one student's results needs.
#[derive(Debug, Clone, Copy, PartialEq, Eq, Structural)]
pub struct ResultSummary {
    pub submitted: bool,
    pub passed_count: usize,
    pub total: usize,
    pub status: AdditionalStatus,
    pub info_count: usize,
    pub additional_info_count: usize,
}

/// The status one result contributes to the summary.
pub fn result_status(r: &TestResult) -> (s: AdditionalStatus)
    ensures
        s == status_of(*r),
{
    match r.additional_status {
        Some(s) => s,
        None => AdditionalStatus::Incomplete,
    }
}

/// One step of the fold, with `Partial` checked before `Incomplete`.
pub fn fold_step(acc: AdditionalStatus, status: AdditionalStatus) -> (r: AdditionalStatus)
    ensures
        r == step(acc, status),
{
    if status == AdditionalStatus::Partial || acc == AdditionalStatus::Partial {
        AdditionalStatus::Partial
    } else if status == AdditionalStatus::Incomplete || acc == AdditionalStatus::Incomplete {
        AdditionalStatus::Incomplete
    } else {
        AdditionalStatus::Full
    }
}

/// The summary status of a student's results (`Incomplete` for an empty list).
pub fn summarize_status(results: &Vec<TestResult>) -> (s: AdditionalStatus)
    ensures
        s == summary_status(results@),
{
    if results.len() == 0 {
        return AdditionalStatus::Incomplete;
    }
    let mut acc = AdditionalStatus::Full;
    let mut i: usize = 0;
    while i < results.len()
        invariant
            i <= results@.len(),
            acc == fold_status(results@.subrange(0, i as int)),
        decreases results@.len() - i,
    {
        let st = result_status(&results[i]);
        acc = fold_step(acc, st);
        proof {
            let next = results@.subrange(0, i + 1);
            assert(next.drop_last() =~= results@.subrange(0, i as int));
        }
        i = i + 1;
    }
    assert(results@.subrange(0, results@.len() as int) =~= results@);
    acc
}

/// Summarises one student's results: whether anything was graded, the passed
/// count out of the total, the summary status, and how many results carry
/// `infos` and `additional_infos`.
pub fn summarize(results: &Vec<TestResult>) -> (s: ResultSummary)
    ensures
        s.submitted == (results@.len() > 0),
        s.total == results@.len(),
        s.passed_count == count_passed(results@),
        s.status == summary_status(results@),
        s.info_count == count_infos(results@),
        s.additional_info_count == count_additional_infos(results@),
{
    let mut passed: usize = 0;
    let mut infos: usize = 0;
    let mut add_infos: usize = 0;
    let mut i: usize = 0;
    while i < results.len()
        invariant
            i <= results@.len(),
            passed == count_passed(results@.subrange(0, i as int)),
            infos == count_infos(results@.subrange(0, i as int)),
            add_infos == count_additional_infos(results@.subrange(0, i as int)),
        decreases results@.len() - i,
    {
        proof {
            let next = results@.subrange(0, i + 1);
            assert(next.drop_last() =~= results@.subrange(0, i as int));
            lemma_counts_bounded(next);
        }
        if results[i].passed {
            passed = passed + 1;
        }
        if results[i].infos.is_some() {
            infos = infos + 1;
        }
        if results[i].additional_infos.is_some() {
            add_infos = add_infos + 1;
        }
        i = i + 1;
    }
    assert(results@.subrange(0, results@.len() as int) =~= results@);
    ResultSummary {
        submitted: results.len() > 0,
        passed_count: passed,
        total: results.len(),
        status: summarize_status(results),
        info_count: infos,
        additional_info_count: add_infos,
    }
}

} // verus!
