use contract_harness::backend::Status;
use contract_harness::codec::to_hex;
use contract_harness::report::{report_line, status_name, summarize, Summary};
use contract_harness::runner::TestResult;

fn result(name: &str, expected: Status, actual: Status, reason: Option<&str>, output: Vec<u8>) -> TestResult {
    TestResult {
        name: name.to_string(),
        expected,
        actual,
        pass: expected == actual,
        revert_reason: reason.map(|r| r.to_string()),
        output,
    }
}

#[test]
fn hex_text_is_lowercase_and_two_digits_a_byte() {
    assert_eq!(to_hex(&[1, 2, 3, 15, 16]), "0102030f10");
    assert_eq!(to_hex(&[0x00, 0xab, 0xff]), "00abff");
    assert_eq!(to_hex(&[]), "");
}

#[test]
fn status_names() {
    assert_eq!(status_name(Status::Success), "Success");
    assert_eq!(status_name(Status::Revert), "Revert");
    assert_eq!(status_name(Status::OtherFailure), "OtherFailure");
}

#[test]
fn line_of_a_success() {
    let line = report_line(&result("testFoo", Status::Success, Status::Success, None, vec![1]));
    assert_eq!(line, "testFoo: Success -- expected: Success");
}

#[test]
fn line_of_a_revert_with_reason() {
    let line =
        report_line(&result("testFailFoo", Status::Revert, Status::Revert, Some("boom"), vec![1]));
    assert_eq!(line, "testFailFoo: Revert -- expected: Revert -- revert reason: \"boom\"");
}

#[test]
fn line_of_a_revert_that_does_not_decode() {
    let line =
        report_line(&result("testFoo", Status::Success, Status::Revert, None, vec![0xde, 0xad]));
    assert_eq!(line, "testFoo: Revert -- expected: Success -- revert data: 0xdead");
}

#[test]
fn line_of_an_abnormal_halt() {
    let line = report_line(&result(
        "testFailFoo",
        Status::Revert,
        Status::OtherFailure,
        None,
        vec![0xde],
    ));
    assert_eq!(line, "testFailFoo: OtherFailure -- expected: Revert");
}

#[test]
fn summary_counts_passes_and_failures() {
    let results = vec![
        result("testA", Status::Success, Status::Success, None, Vec::new()),
        result("testB", Status::Success, Status::Revert, None, Vec::new()),
        result("testFailC", Status::Revert, Status::Revert, None, Vec::new()),
    ];
    assert_eq!(summarize(&results), Summary { passed: 2, failed: 1 });
    assert_eq!(summarize(&Vec::new()), Summary { passed: 0, failed: 0 });
}
