//! Grading every student's submission for one assignment with the suite
//! that the assignment's name selects.
use vstd::prelude::*;
use crate::result::TestResult;
use crate::suite_type::{TestSuiteType, resolve};

verus! {

/// A student: a display name and the login identifier that tells students apart.
#[derive(Debug, Clone)]
pub struct Student {
    pub name: String,
    pub sis_login_id: String,
}

/// A student with the candidate submission files found for one assignment,
/// in the order the roster gives them.
#[derive(Debug, Clone)]
pub struct Submission {
    pub student: Student,
    pub files: Vec<String>,
}

/// What grading produced for one student: the file that was graded, if any,
/// and one result per test case.
#[derive(Debug, Clone)]
pub struct StudentGrade {
    pub submission: Option<String>,
    pub results: Vec<TestResult>,
}

/// Why a whole assignment could not be graded.
#[derive(Debug, Clone, Copy, PartialEq, Eq, Structural)]
pub enum GradeError {
    /// No kind's canonical name ends the assignment name.
    NoMatchingSuiteKind,
    /// The kind has no suite in the registry.
    UnregisteredSuite(TestSuiteType),
}

/// A test suite for one kind of assignment: it runs a submission, knows the
/// expected answer, and judges a run against it, as one or more results.
/// A run that fails gives the reason as a message.
pub trait TestSuite {
    type Output;
    type Answer;

    fn run(&self, file: &str) -> Result<Self::Output, String>;

    fn get_answer(&self) -> Self::Answer;

    fn judge(&self, output: &Self::Output, answer: &Self::Answer) -> Vec<TestResult>;
}

/// The key under which a failed run's message is recorded.
pub open spec fn failure_key() -> Seq<char> {
    "error"@
}

/// `r` records a run that failed with `message`: not passed, the message as
/// its one info, nothing else.
pub open spec fn is_failure(r: TestResult, message: Seq<char>) -> bool {
    &&& !r.passed
    &&& r.infos is Some
    &&& r.infos->0@.len() == 1
    &&& r.infos->0@[0].0@ == failure_key()
    &&& r.infos->0@[0].1@ == message
    &&& r.additional_infos is None
    &&& r.additional_status is None
}

/// The result that stands for a run that failed with `message`.
pub fn failure_result(message: String) -> (r: TestResult)
    ensures
        is_failure(r, message@),
{
    let mut infos: Vec<(String, String)> = Vec::new();
    infos.push((String::from_str("error"), message));
    TestResult { passed: false, infos: Some(infos), additional_infos: None, additional_status: None }
}

/// The file that is graded: the first candidate, if there is one. Any
/// further candidates are ignored.
pub fn accepted_file(files: &Vec<String>) -> (r: Option<&String>)
    ensures
        files@.len() == 0 ==> r is None,
        files@.len() > 0 ==> r == Some(&files@[0]),
{
    if files.len() == 0 {
        None
    } else {
        Some(&files[0])
    }
}

/// Turns the outcome of a run into results: a failed run becomes one failing
/// result carrying its message; a successful one is judged against the
/// suite's answer.
pub fn judge_run<S: TestSuite>(suite: &S, run: Result<S::Output, String>) -> (r: Vec<TestResult>)
    ensures
        run is Err ==> r@.len() == 1 && is_failure(r@[0], run->Err_0@),
{
    match run {
        Ok(output) => {
            let answer = suite.get_answer();
            suite.judge(&output, &answer)
        },
        Err(message) => {
            let mut r: Vec<TestResult> = Vec::new();
            r.push(failure_result(message));
            r
        },
    }
}

/// Grades one student: no candidate file means no results; otherwise the
/// first file alone is run and judged.
pub fn grade_submission<S: TestSuite>(suite: &S, files: &Vec<String>) -> (g: StudentGrade)
    ensures
        files@.len() == 0 ==> g.submission is None && g.results@.len() == 0,
        files@.len() > 0 ==> g.submission == Some(files@[0]),
{
    match accepted_file(files) {
        None => StudentGrade { submission: None, results: Vec::new() },
        Some(file) => {
            let run = suite.run(file.as_str());
            let results = judge_run(suite, run);
            StudentGrade { submission: Some(file.clone()), results }
        },
    }
}

/// The suites available for grading, one entry per kind; the first entry
/// of a kind is the one used.
pub struct SuiteRegistry<S> {
    pub entries: Vec<(TestSuiteType, S)>,
}

/// Some entry of `entries` is for `kind`.
pub open spec fn has_kind<S>(entries: Seq<(TestSuiteType, S)>, kind: TestSuiteType) -> bool {
    exists|i: int| 0 <= i < entries.len() && (#[trigger] entries[i]).0 == kind
}

impl<S> SuiteRegistry<S> {
    /// An empty registry.
    pub fn new() -> (r: SuiteRegistry<S>)
        ensures
            r.entries@.len() == 0,
    {
        SuiteRegistry { entries: Vec::new() }
    }

    /// Adds a suite for `kind` after the existing entries.
    pub fn register(&mut self, kind: TestSuiteType, suite: S)
        ensures
            final(self).entries@ == old(self).entries@.push((kind, suite)),
    {
        self.entries.push((kind, suite));
    }

    /// The suite registered for `kind`: the first entry of that kind, or
    /// `UnregisteredSuite` when there is none.
    pub fn lookup(&self, kind: TestSuiteType) -> (r: Result<&S, GradeError>)
        ensures
            r is Ok <==> has_kind(self.entries@, kind),
            r is Err ==> r == Err::<&S, GradeError>(GradeError::UnregisteredSuite(kind)),
            r is Ok ==> exists|i: int|
                0 <= i < self.entries@.len() && (#[trigger] self.entries@[i]).0 == kind
                    && *r->Ok_0 == self.entries@[i].1 && forall|j: int|
                    0 <= j < i ==> (#[trigger] self.entries@[j]).0 != kind,
    {
        let mut i: usize = 0;
        while i < self.entries.len()
            invariant
                i <= self.entries@.len(),
                forall|j: int| 0 <= j < i ==> (#[trigger] self.entries@[j]).0 != kind,
            decreases self.entries@.len() - i,
        {
            if self.entries[i].0 == kind {
                return Ok(&self.entries[i].1);
            }
            i = i + 1;
        }
        Err(GradeError::UnregisteredSuite(kind))
    }
}

/// Grades every student for the assignment `assignment_name`. The suite is
/// chosen from the end of the name and looked up before any grading; either
/// failure stops the whole assignment. Otherwise every student gets a grade,
/// in roster order, whatever happened to the other students' runs.
pub fn check_assignment<S: TestSuite>(
    registry: &SuiteRegistry<S>,
    assignment_name: &str,
    submissions: &Vec<Submission>,
) -> (r: Result<Vec<StudentGrade>, GradeError>)
    ensures
        resolve(assignment_name@) is None ==> r == Err::<Vec<StudentGrade>, GradeError>(
            GradeError::NoMatchingSuiteKind,
        ),
        resolve(assignment_name@) is Some && !has_kind(
            registry.entries@,
            resolve(assignment_name@)->0,
        ) ==> r == Err::<Vec<StudentGrade>, GradeError>(
            GradeError::UnregisteredSuite(resolve(assignment_name@)->0),
        ),
        r is Ok <==> resolve(assignment_name@) is Some && has_kind(
            registry.entries@,
            resolve(assignment_name@)->0,
        ),
        r is Ok ==> r->Ok_0@.len() == submissions@.len() && forall|i: int|
            0 <= i < submissions@.len() ==> {
                let files = (#[trigger] submissions@[i]).files@;
                let g = r->Ok_0@[i];
                &&& files.len() == 0 ==> g.submission is None && g.results@.len() == 0
                &&& files.len() > 0 ==> g.submission == Some(files[0])
            },
{
    let kind = match TestSuiteType::from_endwith(assignment_name) {
        Some(k) => k,
        None => return Err(GradeError::NoMatchingSuiteKind),
    };
    let suite = match registry.lookup(kind) {
        Ok(s) => s,
        Err(e) => return Err(e),
    };
    let mut grades: Vec<StudentGrade> = Vec::new();
    let mut i: usize = 0;
    while i < submissions.len()
        invariant
            i <= submissions@.len(),
            grades@.len() == i,
            forall|j: int|
                0 <= j < i ==> {
                    let files = (#[trigger] submissions@[j]).files@;
                    let g = grades@[j];
                    &&& files.len() == 0 ==> g.submission is None && g.results@.len() == 0
                    &&& files.len() > 0 ==> g.submission == Some(files[0])
                },
        decreases submissions@.len() - i,
    {
        let g = grade_submission(suite, &submissions[i].files);
        grades.push(g);
        i = i + 1;
    }
    Ok(grades)
}

} // verus!
