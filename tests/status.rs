use grader::result::{summarize, summarize_status, AdditionalStatus, TestResult};

fn with_status(s: Option<AdditionalStatus>) -> TestResult {
    TestResult { passed: true, infos: None, additional_infos: None, additional_status: s }
}

fn fold(list: &[AdditionalStatus]) -> AdditionalStatus {
    let v: Vec<TestResult> = list.iter().map(|s| with_status(Some(*s))).collect();
    summarize_status(&v)
}

use AdditionalStatus::{Full, Incomplete, Partial};

#[test]
fn precedence_single_partial() {
    assert_eq!(fold(&[Partial]), Partial);
}

#[test]
fn precedence_single_incomplete() {
    assert_eq!(fold(&[Incomplete]), Incomplete);
}

#[test]
fn precedence_partial_then_incomplete() {
    assert_eq!(fold(&[Partial, Incomplete]), Partial);
}

#[test]
fn precedence_incomplete_then_partial() {
    assert_eq!(fold(&[Incomplete, Partial]), Partial);
}

#[test]
fn precedence_all_full() {
    assert_eq!(fold(&[Full, Full]), Full);
}

#[test]
fn precedence_empty_is_incomplete() {
    assert_eq!(fold(&[]), Incomplete);
}

#[test]
fn precedence_full_then_incomplete() {
    assert_eq!(fold(&[Full, Incomplete]), Incomplete);
}

#[test]
fn missing_status_counts_as_incomplete() {
    let v = vec![with_status(Some(Full)), with_status(None)];
    assert_eq!(summarize_status(&v), Incomplete);
}

#[test]
fn summary_counts() {
    let v = vec![
        TestResult {
            passed: true,
            infos: Some(vec![("k".to_string(), "v".to_string())]),
            additional_infos: None,
            additional_status: Some(Full),
        },
        TestResult {
            passed: false,
            infos: Some(vec![]),
            additional_infos: Some(vec![("x".to_string(), "1".to_string())]),
            additional_status: Some(Partial),
        },
        TestResult { passed: true, infos: None, additional_infos: None, additional_status: None },
    ];
    let s = summarize(&v);
    assert!(s.submitted);
    assert_eq!(s.total, 3);
    assert_eq!(s.passed_count, 2);
    assert_eq!(s.info_count, 2);
    assert_eq!(s.additional_info_count, 1);
    assert_eq!(s.status, Partial);
}

#[test]
fn summary_of_nothing() {
    let s = summarize(&Vec::new());
    assert!(!s.submitted);
    assert_eq!(s.total, 0);
    assert_eq!(s.passed_count, 0);
    assert_eq!(s.status, Incomplete);
}
