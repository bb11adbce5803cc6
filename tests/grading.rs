use grader::collision::collision_flags;
use grader::grader::{
    check_assignment, grade_submission, GradeError, Student, Submission, SuiteRegistry, TestSuite,
};
use grader::pipeline::{detect_collisions, fingerprint_submissions};
use grader::result::{summarize, AdditionalStatus, TestResult};
use grader::suite_type::TestSuiteType;
use std::cell::RefCell;
use std::collections::HashMap;

/// A suite over an in-memory file system that records which files it ran.
struct FakeSuite {
    disk: HashMap<String, Vec<u8>>,
    ran: RefCell<Vec<String>>,
}

impl FakeSuite {
    fn new(disk: &[(&str, &str)]) -> FakeSuite {
        FakeSuite {
            disk: disk.iter().map(|(p, c)| (p.to_string(), c.as_bytes().to_vec())).collect(),
            ran: RefCell::new(Vec::new()),
        }
    }
}

impl TestSuite for FakeSuite {
    type Output = String;
    type Answer = String;

    fn run(&self, file: &str) -> Result<String, String> {
        self.ran.borrow_mut().push(file.to_string());
        match self.disk.get(file) {
            Some(c) if !c.starts_with(b"broken") => Ok(String::from_utf8(c.clone()).unwrap()),
            Some(_) => Err("compile failed".to_string()),
            None => Err("missing file".to_string()),
        }
    }

    fn get_answer(&self) -> String {
        "area".to_string()
    }

    fn judge(&self, output: &String, answer: &String) -> Vec<TestResult> {
        let ok = output.contains(answer.as_str());
        vec![
            TestResult { passed: ok, infos: None, additional_infos: None, additional_status: Some(AdditionalStatus::Full) },
            TestResult { passed: true, infos: None, additional_infos: None, additional_status: Some(AdditionalStatus::Full) },
        ]
    }
}

fn student(login: &str) -> Student {
    Student { name: format!("Student {}", login), sis_login_id: login.to_string() }
}

fn submission(login: &str, files: &[&str]) -> Submission {
    Submission { student: student(login), files: files.iter().map(|f| f.to_string()).collect() }
}

fn registry(suite: FakeSuite) -> SuiteRegistry<FakeSuite> {
    let mut r = SuiteRegistry::new();
    r.register(TestSuiteType::CircleArea, suite);
    r
}

fn contents_of(suite: &FakeSuite, grades: &[grader::grader::StudentGrade]) -> Vec<Option<Vec<u8>>> {
    grades
        .iter()
        .map(|g| g.submission.as_ref().and_then(|p| suite.disk.get(p).cloned()))
        .collect()
}

#[test]
fn no_files_gives_empty_results() {
    let suite = FakeSuite::new(&[]);
    let g = grade_submission(&suite, &Vec::new());
    assert!(g.submission.is_none());
    assert!(g.results.is_empty());
    assert!(suite.ran.borrow().is_empty());
    assert_eq!(summarize(&g.results).status, AdditionalStatus::Incomplete);
}

#[test]
fn single_file_is_the_one_run() {
    let suite = FakeSuite::new(&[("a.c", "area")]);
    let g = grade_submission(&suite, &vec!["a.c".to_string()]);
    assert_eq!(g.submission.as_deref(), Some("a.c"));
    assert_eq!(*suite.ran.borrow(), vec!["a.c".to_string()]);
    assert_eq!(g.results.len(), 2);
}

#[test]
fn first_of_several_files_is_the_only_one_run() {
    let suite = FakeSuite::new(&[("x.c", "area"), ("y.c", "nope")]);
    let g = grade_submission(&suite, &vec!["x.c".to_string(), "y.c".to_string()]);
    assert_eq!(g.submission.as_deref(), Some("x.c"));
    assert_eq!(*suite.ran.borrow(), vec!["x.c".to_string()]);
    assert!(g.results[0].passed);
}

#[test]
fn execution_error_becomes_failing_result() {
    let suite = FakeSuite::new(&[("bad.c", "broken code")]);
    let g = grade_submission(&suite, &vec!["bad.c".to_string()]);
    assert_eq!(g.results.len(), 1);
    let r = &g.results[0];
    assert!(!r.passed);
    assert_eq!(r.infos, Some(vec![("error".to_string(), "compile failed".to_string())]));
    assert!(r.additional_infos.is_none());
    assert!(r.additional_status.is_none());
}

#[test]
fn unknown_assignment_kind_is_rejected() {
    let reg = registry(FakeSuite::new(&[]));
    let r = check_assignment(&reg, "hw1_unknown", &vec![submission("s1", &["a.c"])]);
    assert_eq!(r.err(), Some(GradeError::NoMatchingSuiteKind));
}

#[test]
fn unregistered_kind_is_rejected() {
    let reg = registry(FakeSuite::new(&[]));
    let r = check_assignment(&reg, "hw2_population", &vec![submission("s1", &["a.c"])]);
    assert_eq!(r.err(), Some(GradeError::UnregisteredSuite(TestSuiteType::Population)));
    assert!(reg.entries[0].1.ran.borrow().is_empty());
}

#[test]
fn lookup_takes_first_registered() {
    let mut reg: SuiteRegistry<u8> = SuiteRegistry::new();
    reg.register(TestSuiteType::Sequence, 1);
    reg.register(TestSuiteType::Sequence, 2);
    assert_eq!(reg.lookup(TestSuiteType::Sequence).ok(), Some(&1));
    assert_eq!(reg.lookup(TestSuiteType::ThreeNumber).err(), Some(GradeError::UnregisteredSuite(TestSuiteType::ThreeNumber)));
}

#[test]
fn one_failure_does_not_block_others() {
    let reg = registry(FakeSuite::new(&[("bad.c", "broken"), ("good.c", "area")]));
    let subs = vec![submission("s1", &["bad.c"]), submission("s2", &["good.c"])];
    let grades = check_assignment(&reg, "hw1_circle_area", &subs).unwrap();
    assert_eq!(grades.len(), 2);
    assert!(!grades[0].results[0].passed);
    assert_eq!(grades[1].results.len(), 2);
    assert!(grades[1].results[0].passed);
}

#[test]
fn pipeline_is_deterministic() {
    let reg = registry(FakeSuite::new(&[("a.c", "area"), ("b.c", "area"), ("c.c", "x")]));
    let subs = vec![submission("s1", &["a.c"]), submission("s2", &["b.c"]), submission("s3", &["c.c"])];
    let run = || {
        let grades = check_assignment(&reg, "hw1_circle_area", &subs).unwrap();
        let contents = contents_of(&reg.entries[0].1, &grades);
        let groups = detect_collisions(&grades, &contents);
        let passes: Vec<Vec<bool>> = grades.iter().map(|g| g.results.iter().map(|r| r.passed).collect()).collect();
        let sets: Vec<(u64, Vec<usize>)> = groups.iter().map(|g| (g.fingerprint, g.students.clone())).collect();
        (passes, sets)
    };
    assert_eq!(run(), run());
}

#[test]
fn end_to_end_three_students() {
    let program = "double area(double r) { return 3.14159 * r * r; } // area";
    let reg = registry(FakeSuite::new(&[("a.c", program), ("b.c", program)]));
    let subs = vec![submission("A", &["a.c"]), submission("B", &["b.c"]), submission("C", &[])];
    let grades = check_assignment(&reg, "hw1_circle_area", &subs).unwrap();
    assert_eq!(grades.len(), 3);
    let pa: Vec<bool> = grades[0].results.iter().map(|r| r.passed).collect();
    let pb: Vec<bool> = grades[1].results.iter().map(|r| r.passed).collect();
    assert_eq!(pa, vec![true, true]);
    assert_eq!(pa, pb);
    assert!(grades[2].results.is_empty());

    let contents = contents_of(&reg.entries[0].1, &grades);
    let groups = detect_collisions(&grades, &contents);
    assert_eq!(groups.len(), 1);
    assert_eq!(groups[0].students, vec![0, 1]);
    let fps = fingerprint_submissions(&grades, &contents);
    assert_eq!(fps[2], None);
    assert_eq!(collision_flags(&fps), vec![true, true, false]);
    assert_eq!(summarize(&grades[2].results).status, AdditionalStatus::Incomplete);
}

#[test]
fn unreadable_file_is_graded_but_not_fingerprinted() {
    let reg = registry(FakeSuite::new(&[("a.c", "area"), ("b.c", "area")]));
    let subs = vec![submission("A", &["a.c"]), submission("B", &["b.c"])];
    let grades = check_assignment(&reg, "hw1_circle_area", &subs).unwrap();
    let contents = vec![Some(b"area".to_vec()), None];
    let fps = fingerprint_submissions(&grades, &contents);
    assert!(fps[0].is_some());
    assert!(fps[1].is_none());
    assert!(detect_collisions(&grades, &contents).is_empty());
    assert_eq!(grades[1].results.len(), 2);
}
