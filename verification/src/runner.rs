//! Test discovery, dispatch and classification.
use crate::backend::{CallKind, ExecutionBackend, ExecutionOutcome, Message, MessageModel, Status};
use crate::codec::{decode_revert_reason, revert_reason_of, selector, selector_bytes, DecodeError};
use crate::ledger::{AccountModel, Ledger};
use crate::words::{Address, Word};
use vstd::prelude::*;
use vstd::string::*;

verus! {

/// The prefix that makes a function a test.
pub open spec fn test_prefix() -> Seq<char> {
    seq!['t', 'e', 's', 't']
}

/// The marker that makes a test expect a revert, wherever in the name it stands.
pub open spec fn fail_marker() -> Seq<char> {
    seq!['t', 'e', 's', 't', 'F', 'a', 'i', 'l']
}

/// `pattern` stands in `text` at position `at`.
pub open spec fn occurs_at(text: Seq<char>, pattern: Seq<char>, at: int) -> bool {
    0 <= at && at + pattern.len() <= text.len() && text.subrange(at, at + pattern.len())
        == pattern
}

/// `pattern` stands somewhere in `text`.
pub open spec fn occurs(text: Seq<char>, pattern: Seq<char>) -> bool {
    exists|at: int| occurs_at(text, pattern, at)
}

/// A function is a test when its name begins with `test`.
pub open spec fn is_test(name: Seq<char>) -> bool {
    occurs_at(name, test_prefix(), 0)
}

/// A test expects a revert when `testFail` stands anywhere in its name, and success otherwise.
pub open spec fn expected_of(name: Seq<char>) -> Status {
    if occurs(name, fail_marker()) {
        Status::Revert
    } else {
        Status::Success
    }
}

fn chars_of(text: &str) -> (r: Vec<char>)
    ensures
        r@ == text@,
{
    let n: usize = text.unicode_len();
    let mut out: Vec<char> = Vec::new();
    let mut i: usize = 0;
    while i < n
        invariant
            i <= n,
            n == text@.len(),
            out@ == text@.take(i as int),
        decreases n - i,
    {
        out.push(text.get_char(i));
        assert(out@ =~= text@.take(i + 1));
        i += 1;
    }
    assert(text@.take(n as int) =~= text@);
    out
}

fn stands_at(text: &Vec<char>, pattern: &Vec<char>, at: usize) -> (r: bool)
    ensures
        r == occurs_at(text@, pattern@, at as int),
{
    if pattern.len() > text.len() || at > text.len() - pattern.len() {
        return false;
    }
    let mut k: usize = 0;
    while k < pattern.len()
        invariant
            k <= pattern.len(),
            at + pattern.len() <= text.len(),
            forall|j: int| 0 <= j < k ==> text@[at + j] == pattern@[j],
        decreases pattern.len() - k,
    {
        if text[at + k] != pattern[k] {
            assert(text@.subrange(at as int, at + pattern.len())[k as int] == text@[at + k]);
            return false;
        }
        k += 1;
    }
    assert(text@.subrange(at as int, at + pattern.len()) =~= pattern@);
    true
}

fn stands_anywhere(text: &Vec<char>, pattern: &Vec<char>) -> (r: bool)
    ensures
        r == occurs(text@, pattern@),
{
    if pattern.len() > text.len() {
        return false;
    }
    if pattern.len() == 0 {
        assert(text@.subrange(0, 0) =~= pattern@);
        assert(occurs_at(text@, pattern@, 0));
        return true;
    }
    let starts: usize = text.len() - pattern.len() + 1;
    let mut at: usize = 0;
    while at < starts
        invariant
            at <= starts,
            starts == text.len() - pattern.len() + 1,
            forall|j: int| 0 <= j < at ==> !occurs_at(text@, pattern@, j),
        decreases starts - at,
    {
        if stands_at(text, pattern, at) {
            return true;
        }
        at += 1;
    }
    false
}

/// Whether a function of this name is a test.
pub fn is_test_name(name: &str) -> (r: bool)
    ensures
        r == is_test(name@),
{
    let text = chars_of(name);
    let pattern: Vec<char> = vec!['t', 'e', 's', 't'];
    assert(pattern@ =~= test_prefix());
    stands_at(&text, &pattern, 0)
}

/// The outcome that a test of this name is expected to have.
pub fn expected_status(name: &str) -> (r: Status)
    ensures
        r == expected_of(name@),
        occurs(name@, fail_marker()) ==> r == Status::Revert,
        !occurs(name@, fail_marker()) ==> r == Status::Success,
{
    let text = chars_of(name);
    let pattern: Vec<char> = vec!['t', 'e', 's', 't', 'F', 'a', 'i', 'l'];
    assert(pattern@ =~= fail_marker());
    if stands_anywhere(&text, &pattern) {
        Status::Revert
    } else {
        Status::Success
    }
}

/// A function of a contract, as its interface description lists it.
#[derive(Debug)]
pub struct FunctionSignature {
    pub name: String,
    pub inputs: Vec<String>,
}

/// The first `n` parameter types, separated by commas.
pub open spec fn joined(inputs: Seq<String>, n: nat) -> Seq<char>
    recommends
        n <= inputs.len(),
    decreases n,
{
    if n == 0 {
        Seq::empty()
    } else if n == 1 {
        inputs[0]@
    } else {
        joined(inputs, (n - 1) as nat) + seq![','] + inputs[n - 1]@
    }
}

impl FunctionSignature {
    /// The canonical signature: the name, then the parameter types in brackets.
    pub open spec fn canonical(&self) -> Seq<char> {
        self.name@ + seq!['('] + joined(self.inputs@, self.inputs@.len()) + seq![')']
    }

    /// The canonical signature as text, such as `setGreeting(bytes32)`.
    pub fn canonical_signature(&self) -> (r: String)
        ensures
            r@ == self.canonical(),
    {
        proof {
            reveal_strlit("(");
            reveal_strlit(",");
            reveal_strlit(")");
        }
        assert("("@ =~= seq!['(']);
        assert(","@ =~= seq![',']);
        assert(")"@ =~= seq![')']);
        let mut out: String = self.name.clone();
        out.append("(");
        let mut i: usize = 0;
        while i < self.inputs.len()
            invariant
                i <= self.inputs.len(),
                ","@ == seq![','],
                out@ == self.name@ + seq!['('] + joined(self.inputs@, i as nat),
            decreases self.inputs.len() - i,
        {
            if i > 0 {
                out.append(",");
            }
            out.append(self.inputs[i].as_str());
            assert(out@ =~= self.name@ + seq!['('] + joined(self.inputs@, (i + 1) as nat));
            i += 1;
        }
        out.append(")");
        out
    }

    /// The selector under which the function is called.
    pub fn selector(&self) -> (r: [u8; 4])
        ensures
            r@ == selector_bytes(self.canonical()),
    {
        let text = self.canonical_signature();
        selector(text.as_str())
    }
}

/// A test function, with the outcome that its name asks for.
#[derive(Debug)]
pub struct TestCase {
    pub name: String,
    pub selector: [u8; 4],
    pub expected: Status,
}

/// A test case as plain values.
pub struct TestCaseModel {
    pub name: Seq<char>,
    pub selector: Seq<u8>,
    pub expected: Status,
}

impl View for TestCase {
    type V = TestCaseModel;

    open spec fn view(&self) -> TestCaseModel {
        TestCaseModel { name: self.name@, selector: self.selector@, expected: self.expected }
    }
}

/// The test case that a function makes.
pub open spec fn case_of(function: FunctionSignature) -> TestCaseModel {
    TestCaseModel {
        name: function.name@,
        selector: selector_bytes(function.canonical()),
        expected: expected_of(function.name@),
    }
}

/// The test cases among the first `n` functions, in the order of the list.
pub open spec fn selected(functions: Seq<FunctionSignature>, n: nat) -> Seq<TestCaseModel>
    recommends
        n <= functions.len(),
    decreases n,
{
    if n == 0 {
        Seq::empty()
    } else if is_test(functions[n - 1].name@) {
        selected(functions, (n - 1) as nat).push(case_of(functions[n - 1]))
    } else {
        selected(functions, (n - 1) as nat)
    }
}

/// The views of a list of test cases.
pub open spec fn cases_view(cases: Seq<TestCase>) -> Seq<TestCaseModel> {
    cases.map_values(|c: TestCase| c@)
}

/// Picks the test functions out of a contract's functions, keeping their order.
pub fn discover(functions: &Vec<FunctionSignature>) -> (r: Vec<TestCase>)
    ensures
        cases_view(r@) == selected(functions@, functions@.len()),
{
    let mut out: Vec<TestCase> = Vec::new();
    let mut i: usize = 0;
    assert(cases_view(out@) =~= selected(functions@, 0));
    while i < functions.len()
        invariant
            i <= functions.len(),
            cases_view(out@) == selected(functions@, i as nat),
        decreases functions.len() - i,
    {
        let function = &functions[i];
        if is_test_name(function.name.as_str()) {
            let case = TestCase {
                name: function.name.clone(),
                selector: function.selector(),
                expected: expected_status(function.name.as_str()),
            };
            let ghost before = out@;
            out.push(case);
            assert(cases_view(out@) =~= cases_view(before).push(case_of(functions@[i as int])));
        }
        i += 1;
    }
    out
}

/// The message that dispatches a test: a call of the test's selector with no value, at depth
/// zero, free to change state.
pub open spec fn test_message_of(
    target: Seq<u8>,
    sender: Seq<u8>,
    gas: u64,
    case: TestCaseModel,
) -> MessageModel {
    MessageModel {
        kind: CallKind::Call,
        sender: sender,
        destination: target,
        value: Seq::new(32, |i: int| 0u8),
        input: case.selector,
        gas: gas,
        depth: 0,
        is_static: false,
    }
}

/// The messages that dispatch a list of tests.
pub open spec fn test_messages(
    target: Seq<u8>,
    sender: Seq<u8>,
    gas: u64,
    cases: Seq<TestCaseModel>,
) -> Seq<MessageModel> {
    cases.map_values(|c: TestCaseModel| test_message_of(target, sender, gas, c))
}

/// Builds the message that dispatches `case` to the contract at `target`.
pub fn test_message(target: &Address, sender: &Address, gas: u64, case: &TestCase) -> (r: Message)
    ensures
        r@ == test_message_of(target@, sender@, gas, case@),
{
    let input = vstd::slice::slice_to_vec(case.selector.as_slice());
    Message {
        kind: CallKind::Call,
        sender: *sender,
        destination: *target,
        value: Word::zero(),
        input,
        gas,
        depth: 0,
        is_static: false,
    }
}

/// What became of one test.
#[derive(Debug)]
pub struct TestResult {
    pub name: String,
    pub expected: Status,
    pub actual: Status,
    pub pass: bool,
    /// The decoded reason of a revert; `None` where there was no revert or the output does
    /// not decode, in which case `output` still holds the raw bytes.
    pub revert_reason: Option<String>,
    pub output: Vec<u8>,
}

/// A test result as plain values.
pub struct TestResultModel {
    pub name: Seq<char>,
    pub expected: Status,
    pub actual: Status,
    pub pass: bool,
    pub revert_reason: Option<Seq<char>>,
    pub output: Seq<u8>,
}

impl View for TestResult {
    type V = TestResultModel;

    open spec fn view(&self) -> TestResultModel {
        TestResultModel {
            name: self.name@,
            expected: self.expected,
            actual: self.actual,
            pass: self.pass,
            revert_reason: match self.revert_reason {
                Some(text) => Some(text@),
                None => None,
            },
            output: self.output@,
        }
    }
}

/// The reason reported with an outcome: that of a revert whose output decodes.
pub open spec fn reason_of(status: Status, output: Seq<u8>) -> Option<Seq<char>> {
    if status == Status::Revert {
        match revert_reason_of(output) {
            Ok(text) => Some(text),
            Err(_) => None,
        }
    } else {
        None
    }
}

/// The result of a test that ended with `status` and `output`. It passes exactly when the
/// status is the expected one: an abnormal halt is no revert.
pub open spec fn result_of(case: TestCaseModel, status: Status, output: Seq<u8>)
    -> TestResultModel {
    TestResultModel {
        name: case.name,
        expected: case.expected,
        actual: status,
        pass: status == case.expected,
        revert_reason: reason_of(status, output),
        output: output,
    }
}

/// Compares what a test did with what its name asks for.
pub fn classify(case: &TestCase, outcome: ExecutionOutcome) -> (r: TestResult)
    ensures
        r@ == result_of(case@, outcome.status, outcome.output@),
{
    let revert_reason = if outcome.status == Status::Revert {
        match decode_revert_reason(outcome.output.as_slice()) {
            Ok(text) => Some(text),
            Err(_) => None,
        }
    } else {
        None
    };
    TestResult {
        name: case.name.clone(),
        expected: case.expected,
        actual: outcome.status,
        pass: outcome.status == case.expected,
        revert_reason,
        output: outcome.output,
    }
}

/// The accounts after the first `n` messages, each applied to what the one before left.
pub open spec fn accounts_after<B: ExecutionBackend>(
    backend: &B,
    accounts: Map<Seq<u8>, AccountModel>,
    messages: Seq<MessageModel>,
    n: nat,
) -> Map<Seq<u8>, AccountModel>
    recommends
        n <= messages.len(),
    decreases n,
{
    if n == 0 {
        accounts
    } else {
        backend.step(
            accounts_after(backend, accounts, messages, (n - 1) as nat),
            messages[n - 1],
        ).accounts
    }
}

/// The status with which message `i` ends, after the messages before it.
pub open spec fn status_at<B: ExecutionBackend>(
    backend: &B,
    accounts: Map<Seq<u8>, AccountModel>,
    messages: Seq<MessageModel>,
    i: int,
) -> Status {
    backend.step(accounts_after(backend, accounts, messages, i as nat), messages[i]).status
}

/// The output of message `i`, after the messages before it.
pub open spec fn output_at<B: ExecutionBackend>(
    backend: &B,
    accounts: Map<Seq<u8>, AccountModel>,
    messages: Seq<MessageModel>,
    i: int,
) -> Seq<u8> {
    backend.step(accounts_after(backend, accounts, messages, i as nat), messages[i]).output
}

/// The views of a list of messages.
pub open spec fn messages_view(messages: Seq<Message>) -> Seq<MessageModel> {
    messages.map_values(|m: Message| m@)
}

/// Every setup message succeeds, each on what the one before left.
pub open spec fn setup_succeeds<B: ExecutionBackend>(
    backend: &B,
    base: Map<Seq<u8>, AccountModel>,
    setup: Seq<MessageModel>,
) -> bool {
    forall|i: int|
        0 <= i < setup.len() ==> #[trigger] status_at(backend, base, setup, i) == Status::Success
}

/// The setup message at `index` is the first that does not succeed, and ends with `status`.
pub open spec fn setup_fails_at<B: ExecutionBackend>(
    backend: &B,
    base: Map<Seq<u8>, AccountModel>,
    setup: Seq<MessageModel>,
    index: int,
    status: Status,
) -> bool {
    &&& 0 <= index < setup.len()
    &&& forall|i: int|
        0 <= i < index ==> #[trigger] status_at(backend, base, setup, i) == Status::Success
    &&& status == status_at(backend, base, setup, index)
    &&& status != Status::Success
}

/// `results` are the results of the tests, dispatched in order from `ready`: one for each
/// test, or with `fail_fast` one for each up to the first that does not pass.
pub open spec fn reports<B: ExecutionBackend>(
    backend: &B,
    ready: Map<Seq<u8>, AccountModel>,
    messages: Seq<MessageModel>,
    cases: Seq<TestCaseModel>,
    results: Seq<TestResult>,
    fail_fast: bool,
) -> bool {
    &&& results.len() <= cases.len()
    &&& forall|i: int|
        0 <= i < results.len() ==> (#[trigger] results[i])@ == result_of(
            cases[i],
            status_at(backend, ready, messages, i),
            output_at(backend, ready, messages, i),
        )
    &&& !fail_fast ==> results.len() == cases.len()
    &&& fail_fast ==> forall|i: int| 0 <= i < results.len() - 1 ==> (#[trigger] results[i]).pass
    &&& results.len() < cases.len() ==> results.len() > 0 && !results[results.len() - 1].pass
}

/// Why a run stopped before any test.
#[derive(Clone, Copy, Debug, PartialEq, Eq, Structural)]
pub enum RunError {
    /// The setup message at `index` ended with `status`, which is not success.
    SetupFailed { index: usize, status: Status },
}

/// Sends the setup messages in order and stops at the first that does not succeed.
pub fn run_setup<B: ExecutionBackend>(
    backend: &B,
    ledger: &mut Ledger,
    messages: &Vec<Message>,
) -> (r: Result<(), RunError>)
    requires
        old(ledger).wf(),
    ensures
        final(ledger).wf(),
        match r {
            Ok(_) => {
                &&& setup_succeeds(backend, old(ledger)@, messages_view(messages@))
                &&& final(ledger)@ == accounts_after(
                    backend,
                    old(ledger)@,
                    messages_view(messages@),
                    messages@.len(),
                )
            },
            Err(RunError::SetupFailed { index, status }) => {
                &&& setup_fails_at(
                    backend,
                    old(ledger)@,
                    messages_view(messages@),
                    index as int,
                    status,
                )
                &&& final(ledger)@ == accounts_after(
                    backend,
                    old(ledger)@,
                    messages_view(messages@),
                    (index + 1) as nat,
                )
            },
        },
{
    let ghost start = ledger@;
    let ghost models = messages_view(messages@);
    let mut i: usize = 0;
    while i < messages.len()
        invariant
            i <= messages.len(),
            ledger.wf(),
            models == messages_view(messages@),
            start == old(ledger)@,
            ledger@ == accounts_after(backend, start, models, i as nat),
            forall|j: int|
                0 <= j < i ==> #[trigger] status_at(backend, start, models, j) == Status::Success,
        decreases messages.len() - i,
    {
        assert(models[i as int] == messages@[i as int]@);
        let outcome = backend.execute(ledger, &messages[i]);
        assert(outcome.status == status_at(backend, start, models, i as int));
        assert(ledger@ == accounts_after(backend, start, models, (i + 1) as nat));
        if outcome.status != Status::Success {
            return Err(RunError::SetupFailed { index: i, status: outcome.status });
        }
        i += 1;
    }
    Ok(())
}

/// Dispatches the tests in order, each against what the one before left. With `fail_fast`
/// the run stops behind the first test that does not pass; without, every test is run.
pub fn run_tests<B: ExecutionBackend>(
    backend: &B,
    ledger: &mut Ledger,
    target: &Address,
    sender: &Address,
    gas: u64,
    cases: &Vec<TestCase>,
    fail_fast: bool,
) -> (r: Vec<TestResult>)
    requires
        old(ledger).wf(),
    ensures
        final(ledger).wf(),
        reports(
            backend,
            old(ledger)@,
            test_messages(target@, sender@, gas, cases_view(cases@)),
            cases_view(cases@),
            r@,
            fail_fast,
        ),
        final(ledger)@ == accounts_after(
            backend,
            old(ledger)@,
            test_messages(target@, sender@, gas, cases_view(cases@)),
            r@.len(),
        ),
{
    let ghost start = ledger@;
    let ghost models = test_messages(target@, sender@, gas, cases_view(cases@));
    let mut out: Vec<TestResult> = Vec::new();
    let mut i: usize = 0;
    while i < cases.len()
        invariant
            i <= cases.len(),
            ledger.wf(),
            out@.len() == i,
            models == test_messages(target@, sender@, gas, cases_view(cases@)),
            start == old(ledger)@,
            ledger@ == accounts_after(backend, start, models, i as nat),
            forall|j: int|
                0 <= j < i ==> (#[trigger] out@[j])@ == result_of(
                    cases@[j]@,
                    status_at(backend, start, models, j),
                    output_at(backend, start, models, j),
                ),
            fail_fast ==> forall|j: int| 0 <= j < i ==> (#[trigger] out@[j]).pass,
        decreases cases.len() - i,
    {
        let message = test_message(target, sender, gas, &cases[i]);
        assert(models[i as int] == message@);
        let outcome = backend.execute(ledger, &message);
        assert(outcome.status == status_at(backend, start, models, i as int));
        assert(outcome.output@ == output_at(backend, start, models, i as int));
        assert(ledger@ == accounts_after(backend, start, models, (i + 1) as nat));
        let result = classify(&cases[i], outcome);
        let passed = result.pass;
        let ghost before = out@;
        out.push(result);
        assert(forall|j: int| 0 <= j < i ==> out@[j] == before[j]);
        i += 1;
        if fail_fast && !passed {
            return out;
        }
    }
    out
}

/// A test whose name holds `testFail` passes exactly when it reverted.
pub proof fn lemma_fail_test_passes_on_revert(
    function: FunctionSignature,
    status: Status,
    output: Seq<u8>,
)
    requires
        occurs(function.name@, fail_marker()),
    ensures
        result_of(case_of(function), status, output).pass <==> status == Status::Revert,
{
}

/// A test whose name does not hold `testFail` passes exactly when it succeeded.
pub proof fn lemma_plain_test_passes_on_success(
    function: FunctionSignature,
    status: Status,
    output: Seq<u8>,
)
    requires
        is_test(function.name@),
        !occurs(function.name@, fail_marker()),
    ensures
        result_of(case_of(function), status, output).pass <==> status == Status::Success,
{
}

/// Code to be placed at a fixed address before the run.
#[derive(Debug)]
pub struct Deployment {
    pub address: Address,
    pub code: Vec<u8>,
    pub balance: Word,
    pub nonce: u64,
}

/// The account that a deployment puts at its address.
pub open spec fn deployed_account(deployment: Deployment) -> AccountModel {
    AccountModel {
        nonce: deployment.nonce,
        balance: deployment.balance@,
        code: deployment.code@,
        storage: Map::empty(),
    }
}

/// The accounts after the first `n` deployments, a later one replacing an earlier one at the
/// same address.
pub open spec fn deployed(
    accounts: Map<Seq<u8>, AccountModel>,
    deployments: Seq<Deployment>,
    n: nat,
) -> Map<Seq<u8>, AccountModel>
    recommends
        n <= deployments.len(),
    decreases n,
{
    if n == 0 {
        accounts
    } else {
        deployed(accounts, deployments, (n - 1) as nat).insert(
            deployments[n - 1].address@,
            deployed_account(deployments[n - 1]),
        )
    }
}

/// Deploys every artifact at its address, in order.
pub fn deploy_all(ledger: &mut Ledger, deployments: &Vec<Deployment>)
    requires
        old(ledger).wf(),
    ensures
        final(ledger).wf(),
        final(ledger)@ == deployed(old(ledger)@, deployments@, deployments@.len()),
{
    let mut i: usize = 0;
    while i < deployments.len()
        invariant
            i <= deployments.len(),
            ledger.wf(),
            ledger@ == deployed(old(ledger)@, deployments@, i as nat),
        decreases deployments.len() - i,
    {
        let item = &deployments[i];
        let code = vstd::slice::slice_to_vec(item.code.as_slice());
        ledger.deploy(item.address, code, item.balance, item.nonce);
        i += 1;
    }
}

/// Everything one run needs: what to deploy, how to configure it, and whose tests to run.
#[derive(Debug)]
pub struct Plan {
    pub deployments: Vec<Deployment>,
    pub setup: Vec<Message>,
    pub target: Address,
    pub sender: Address,
    pub gas: u64,
    pub functions: Vec<FunctionSignature>,
    pub fail_fast: bool,
}

/// Runs a plan: deploys, configures, discovers the tests of the target and dispatches them.
/// A setup message that does not succeed ends the run before any test.
pub fn run<B: ExecutionBackend>(backend: &B, ledger: &mut Ledger, plan: &Plan) -> (r: Result<Vec<TestResult>, RunError>)
    requires
        old(ledger).wf(),
    ensures
        final(ledger).wf(),
        match r {
            Ok(results) => {
                let base = deployed(old(ledger)@, plan.deployments@, plan.deployments@.len());
                let setup = messages_view(plan.setup@);
                let ready = accounts_after(backend, base, setup, setup.len());
                let cases = selected(plan.functions@, plan.functions@.len());
                let messages = test_messages(plan.target@, plan.sender@, plan.gas, cases);
                &&& setup_succeeds(backend, base, setup)
                &&& reports(backend, ready, messages, cases, results@, plan.fail_fast)
                &&& final(ledger)@ == accounts_after(backend, ready, messages, results@.len())
            },
            Err(RunError::SetupFailed { index, status }) => {
                let base = deployed(old(ledger)@, plan.deployments@, plan.deployments@.len());
                let setup = messages_view(plan.setup@);
                &&& setup_fails_at(backend, base, setup, index as int, status)
                &&& final(ledger)@ == accounts_after(backend, base, setup, (index + 1) as nat)
            },
        },
{
    deploy_all(ledger, &plan.deployments);
    match run_setup(backend, ledger, &plan.setup) {
        Err(e) => Err(e),
        Ok(_) => {
            let cases = discover(&plan.functions);
            let results = run_tests(
                backend,
                ledger,
                &plan.target,
                &plan.sender,
                plan.gas,
                &cases,
                plan.fail_fast,
            );
            Ok(results)
        },
    }
}

} // verus!
