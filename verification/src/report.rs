//! What is reported of a run: one line for each test, and the counts.
use crate::backend::Status;
use crate::codec::{hex_text, to_hex};
use crate::runner::{TestResult, TestResultModel};
use vstd::prelude::*;
use vstd::string::*;

verus! {

/// The word by which a status is reported.
pub open spec fn status_text(status: Status) -> Seq<char> {
    match status {
        Status::Success => "Success"@,
        Status::Revert => "Revert"@,
        Status::OtherFailure => "OtherFailure"@,
    }
}

/// The word by which a status is reported.
pub fn status_name(status: Status) -> (r: &'static str)
    ensures
        r@ == status_text(status),
{
    match status {
        Status::Success => "Success",
        Status::Revert => "Revert",
        Status::OtherFailure => "OtherFailure",
    }
}

/// What the line says of a revert: the decoded reason in quotes, or the raw output in
/// hexadecimal where it does not decode. Nothing for any other status.
pub open spec fn reason_text(result: TestResultModel) -> Seq<char> {
    match result.revert_reason {
        Some(text) => " -- revert reason: \""@ + text + "\""@,
        None => if result.actual == Status::Revert {
            " -- revert data: 0x"@ + hex_text(result.output)
        } else {
            Seq::empty()
        },
    }
}

/// The line reported for one test: its name, what it did, what was expected, and for a revert
/// why.
pub open spec fn line_of(result: TestResultModel) -> Seq<char> {
    result.name + ": "@ + status_text(result.actual) + " -- expected: "@ + status_text(
        result.expected,
    ) + reason_text(result)
}

/// Writes the line reported for one test.
pub fn report_line(result: &TestResult) -> (r: String)
    ensures
        r@ == line_of(result@),
{
    let mut out: String = result.name.clone();
    out.append(": ");
    out.append(status_name(result.actual));
    out.append(" -- expected: ");
    out.append(status_name(result.expected));
    let ghost front = out@;
    match &result.revert_reason {
        Some(text) => {
            out.append(" -- revert reason: \"");
            out.append(text.as_str());
            out.append("\"");
            assert(out@ =~= front + reason_text(result@));
        },
        None => {
            if result.actual == Status::Revert {
                let raw = to_hex(result.output.as_slice());
                out.append(" -- revert data: 0x");
                out.append(raw.as_str());
                assert(out@ =~= front + reason_text(result@));
            } else {
                assert(out@ =~= front + reason_text(result@));
            }
        },
    }
    out
}

/// How many tests passed and how many did not.
#[derive(Clone, Copy, Debug, PartialEq, Eq, Structural)]
pub struct Summary {
    pub passed: usize,
    pub failed: usize,
}

/// The number of passes among the first `n` results.
pub open spec fn passes(results: Seq<TestResult>, n: nat) -> nat
    recommends
        n <= results.len(),
    decreases n,
{
    if n == 0 {
        0
    } else {
        passes(results, (n - 1) as nat) + if results[n - 1].pass {
            1nat
        } else {
            0nat
        }
    }
}

/// Counts the passes and the failures of a run.
pub fn summarize(results: &Vec<TestResult>) -> (r: Summary)
    ensures
        r.passed == passes(results@, results@.len()),
        r.passed + r.failed == results@.len(),
{
    let mut passed: usize = 0;
    let mut failed: usize = 0;
    let mut i: usize = 0;
    while i < results.len()
        invariant
            i <= results.len(),
            passed == passes(results@, i as nat),
            passed + failed == i,
        decreases results.len() - i,
    {
        if results[i].pass {
            passed += 1;
        } else {
            failed += 1;
        }
        i += 1;
    }
    Summary { passed, failed }
}

} // verus!
