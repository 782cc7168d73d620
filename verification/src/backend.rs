//! Messages, outcomes, and the engines that execute one against the ledger.
use crate::ledger::{
    distinct_addresses, entries_map, Account, AccountModel, Entry, Ledger, StorageSlot,
};
use crate::words::{Address, Word};
use ethers::types::{H160, H256, U256};
use evm::backend::{ApplyBackend, MemoryAccount, MemoryBackend, MemoryVicinity};
use evm::executor::stack::{MemoryStackState, StackExecutor, StackSubstateMetadata};
use evm::Config;
use std::collections::BTreeMap;
use vstd::prelude::*;

verus! {

/// Whether a message calls code that exists or creates new code.
#[derive(Clone, Copy, Debug, PartialEq, Eq, Structural)]
pub enum CallKind {
    Call,
    Create,
}

/// One simulated transaction.
#[derive(Debug)]
pub struct Message {
    pub kind: CallKind,
    pub sender: Address,
    pub destination: Address,
    pub value: Word,
    pub input: Vec<u8>,
    pub gas: u64,
    pub depth: u32,
    pub is_static: bool,
}

/// A message as plain values.
pub struct MessageModel {
    pub kind: CallKind,
    pub sender: Seq<u8>,
    pub destination: Seq<u8>,
    pub value: Seq<u8>,
    pub input: Seq<u8>,
    pub gas: u64,
    pub depth: u32,
    pub is_static: bool,
}

impl View for Message {
    type V = MessageModel;

    open spec fn view(&self) -> MessageModel {
        MessageModel {
            kind: self.kind,
            sender: self.sender@,
            destination: self.destination@,
            value: self.value@,
            input: self.input@,
            gas: self.gas,
            depth: self.depth,
            is_static: self.is_static,
        }
    }
}

/// How an execution ended. An abnormal halt is kept apart from an explicit revert.
#[derive(Clone, Copy, Debug, PartialEq, Eq, Structural)]
pub enum Status {
    Success,
    Revert,
    OtherFailure,
}

/// What an engine reports of one message.
#[derive(Debug)]
pub struct ExecutionOutcome {
    pub status: Status,
    pub output: Vec<u8>,
    pub gas_used: u64,
}

/// What executing one message comes to: the outcome and the accounts it leaves.
pub struct Step {
    pub status: Status,
    pub output: Seq<u8>,
    pub gas_used: u64,
    pub accounts: Map<Seq<u8>, AccountModel>,
}

/// An engine that executes one message against the ledger. What it does is a function of the
/// accounts and the message alone.
pub trait ExecutionBackend {
    /// What this engine does with `message` on `accounts`. An engine that does not say it
    /// more closely still does the same on the same accounts and message.
    open spec fn step(&self, accounts: Map<Seq<u8>, AccountModel>, message: MessageModel) -> Step {
        arbitrary()
    }

    /// Executes `message`, changing the ledger in place.
    fn execute(&self, ledger: &mut Ledger, message: &Message) -> (outcome: ExecutionOutcome)
        requires
            old(ledger).wf(),
        ensures
            final(ledger).wf(),
            outcome.status == self.step(old(ledger)@, message@).status,
            outcome.output@ == self.step(old(ledger)@, message@).output,
            outcome.gas_used == self.step(old(ledger)@, message@).gas_used,
            final(ledger)@ == self.step(old(ledger)@, message@).accounts,
    ;
}

/// `evm::backend::MemoryVicinity`, the block and chain values that code can ask for. Opaque.
#[verifier::external_type_specification]
#[verifier::external_body]
pub struct ExMemoryVicinity(MemoryVicinity);

/// `evm::backend::MemoryAccount`, an account as the metered engine keeps it. Opaque.
#[verifier::external_type_specification]
#[verifier::external_body]
pub struct ExMemoryAccount(MemoryAccount);

/// `H160`, the 20-byte key of the metered engine's state. Opaque.
#[verifier::external_type_specification]
#[verifier::external_body]
pub struct ExH160(H160);

/// The accounts that a state of the metered engine holds, nonces taken as 64-bit numbers.
pub uninterp spec fn metered_accounts(state: BTreeMap<H160, MemoryAccount>) -> Map<
    Seq<u8>,
    AccountModel,
>;

/// What one call of the metered engine comes to: how it ended, what it returned, the gas it
/// used, and the accounts once its writes are applied.
pub struct StepModel {
    pub succeeded: bool,
    pub reverted: bool,
    pub output: Seq<u8>,
    pub gas_used: u64,
    pub accounts: Map<Seq<u8>, AccountModel>,
}

/// The result of `transact_call` under the Istanbul rules without precompiles, in the given
/// surroundings, on the given accounts, for the given message.
pub uninterp spec fn metered_step(
    vicinity: MemoryVicinity,
    accounts: Map<Seq<u8>, AccountModel>,
    message: MessageModel,
) -> StepModel;

/// The result of `transact_call` inside a static substate, where every operation that would
/// change state halts the code. The accounts of the result are those it started from.
pub uninterp spec fn metered_static_step(
    vicinity: MemoryVicinity,
    accounts: Map<Seq<u8>, AccountModel>,
    message: MessageModel,
) -> StepModel;

/// The result of `transact_create` under the same rules, with the message's input as the
/// code that builds the contract.
pub uninterp spec fn metered_creation(
    vicinity: MemoryVicinity,
    accounts: Map<Seq<u8>, AccountModel>,
    message: MessageModel,
) -> StepModel;

/// One finished call of the metered engine, with the state it left.
pub struct MeteredRun {
    pub succeeded: bool,
    pub reverted: bool,
    pub output: Vec<u8>,
    pub gas_used: u64,
    pub state: BTreeMap<H160, MemoryAccount>,
}

impl View for MeteredRun {
    type V = StepModel;

    open spec fn view(&self) -> StepModel {
        StepModel {
            succeeded: self.succeeded,
            reverted: self.reverted,
            output: self.output@,
            gas_used: self.gas_used,
            accounts: metered_accounts(self.state),
        }
    }
}

/// The surroundings of a call on chain `chain_id` before any block: gas price, block number,
/// timestamp, difficulty, gas limit and base fee zero, origin and coinbase the zero address,
/// no block hashes and no randomness.
pub uninterp spec fn chain_vicinity(chain_id: u64) -> MemoryVicinity;

/// Builds the `MemoryVicinity` in which every call runs, field by field: the chain number as
/// given, all else zero or empty. The type is opaque here, so the contract gives that value
/// a name: the same chain number always gives the same surroundings.
#[verifier::external_body]
fn metered_vicinity(chain_id: u64) -> (r: MemoryVicinity)
    ensures
        r == chain_vicinity(chain_id),
{
    MemoryVicinity {
        gas_price: U256::zero(),
        origin: H160::zero(),
        chain_id: U256::from(chain_id),
        block_hashes: Vec::new(),
        block_number: U256::zero(),
        block_coinbase: H160::zero(),
        block_timestamp: U256::zero(),
        block_difficulty: U256::zero(),
        block_gas_limit: U256::zero(),
        block_base_fee_per_gas: U256::zero(),
        block_randomness: None,
    }
}

/// Collects the entries into the `BTreeMap` that `MemoryBackend::new` takes. The contract
/// says that the map holds the accounts that the entries stand for, a later entry replacing
/// an earlier one at the same address.
#[verifier::external_body]
fn metered_state(entries: &Vec<Entry>) -> (r: BTreeMap<H160, MemoryAccount>)
    ensures
        metered_accounts(r) == entries_map(entries@),
{
    entries.iter().map(|e| (H160(e.address.bytes), MemoryAccount {
        nonce: U256::from(e.account.nonce),
        balance: U256::from_big_endian(&e.account.balance.bytes),
        storage: e.account.storage.iter().map(|s| (H256(s.key.bytes), H256(s.value.bytes))).collect(),
        code: e.account.code.clone(),
    })).collect()
}

/// Lists what the `BTreeMap` of a `MemoryBackend` holds, one entry per key, in key order.
/// The contract says that the entries stand for the accounts of the map and that no address
/// comes twice.
#[verifier::external_body]
fn metered_entries(state: &BTreeMap<H160, MemoryAccount>) -> (r: Vec<Entry>)
    ensures
        entries_map(r@) == metered_accounts(*state),
        distinct_addresses(r@),
{
    state.iter().map(|(address, held)| {
        let mut balance = [0u8; 32];
        held.balance.to_big_endian(&mut balance);
        let storage = held.storage.iter().map(|(k, v)| StorageSlot { key: Word { bytes: k.0 }, value: Word { bytes: v.0 } }).collect();
        let account = Account { nonce: held.nonce.low_u64(), balance: Word { bytes: balance }, code: held.code.clone(), storage };
        Entry { address: Address { bytes: address.0 }, account }
    }).collect()
}

/// Runs `StackExecutor::transact_call` on a `MemoryBackend` over `state`, with the message's
/// gas as the limit of both the executor and the call, and applies the writes with
/// `ApplyBackend::apply`. The contract only gives the result a name.
#[verifier::external_body]
fn metered_transact(
    vicinity: &MemoryVicinity,
    state: BTreeMap<H160, MemoryAccount>,
    message: &Message,
) -> (r: MeteredRun)
    ensures
        r@ == metered_step(*vicinity, metered_accounts(state), message@),
{
    let config = Config::istanbul();
    let mut backend = MemoryBackend::new(vicinity, state);
    let stack = MemoryStackState::new(StackSubstateMetadata::new(message.gas, &config), &mut backend);
    let mut executor = StackExecutor::new_with_precompiles(stack, &config, &());
    let (reason, output) = executor.transact_call(H160(message.sender.bytes), H160(message.destination.bytes), U256::from_big_endian(&message.value.bytes), message.input.clone(), message.gas, Vec::new());
    let gas_used = executor.used_gas();
    let (writes, logs) = executor.into_state().deconstruct();
    backend.apply(writes, logs, false);
    MeteredRun { succeeded: reason.is_succeed(), reverted: reason.is_revert(), output, gas_used, state: backend.state().clone() }
}

/// Runs `StackExecutor::transact_create` in the same way, with the message's input as the
/// initialisation code; the new address follows from the sender and its nonce, and the
/// message's destination is not read. The contract only gives the result a name.
#[verifier::external_body]
fn metered_create(
    vicinity: &MemoryVicinity,
    state: BTreeMap<H160, MemoryAccount>,
    message: &Message,
) -> (r: MeteredRun)
    ensures
        r@ == metered_creation(*vicinity, metered_accounts(state), message@),
{
    let config = Config::istanbul();
    let mut backend = MemoryBackend::new(vicinity, state);
    let stack = MemoryStackState::new(StackSubstateMetadata::new(message.gas, &config), &mut backend);
    let mut executor = StackExecutor::new_with_precompiles(stack, &config, &());
    let (reason, output) = executor.transact_create(H160(message.sender.bytes), U256::from_big_endian(&message.value.bytes), message.input.clone(), message.gas, Vec::new());
    let gas_used = executor.used_gas();
    let (writes, logs) = executor.into_state().deconstruct();
    backend.apply(writes, logs, false);
    MeteredRun { succeeded: reason.is_succeed(), reverted: reason.is_revert(), output, gas_used, state: backend.state().clone() }
}

/// Runs `StackExecutor::transact_call` after `enter_substate` with the static flag set, which
/// every nested frame inherits, and applies nothing: the state handed back is the one that
/// came in. The contract only gives the result a name.
#[verifier::external_body]
fn metered_static_call(
    vicinity: &MemoryVicinity,
    state: BTreeMap<H160, MemoryAccount>,
    message: &Message,
) -> (r: MeteredRun)
    ensures
        r@ == metered_static_step(*vicinity, metered_accounts(state), message@),
{
    let config = Config::istanbul();
    let mut backend = MemoryBackend::new(vicinity, state);
    let stack = MemoryStackState::new(StackSubstateMetadata::new(message.gas, &config), &mut backend);
    let mut executor = StackExecutor::new_with_precompiles(stack, &config, &());
    executor.enter_substate(message.gas, true);
    let (reason, output) = executor.transact_call(H160(message.sender.bytes), H160(message.destination.bytes), U256::from_big_endian(&message.value.bytes), message.input.clone(), message.gas, Vec::new());
    let gas_used = executor.used_gas();
    MeteredRun { succeeded: reason.is_succeed(), reverted: reason.is_revert(), output, gas_used, state: backend.state().clone() }
}

/// The engine with a gas-metered call stack.
pub struct MeteredStack {
    vicinity: MemoryVicinity,
}

/// The status that the two flags of a finished call stand for.
pub open spec fn status_of(succeeded: bool, reverted: bool) -> Status {
    if succeeded {
        Status::Success
    } else if reverted {
        Status::Revert
    } else {
        Status::OtherFailure
    }
}

/// Whether the writes of a call are kept: only those of a successful call that is not static.
pub open spec fn commits(step: StepModel, message: MessageModel) -> bool {
    step.succeeded && !message.is_static
}

impl MeteredStack {
    /// The surroundings in which this engine runs every call.
    pub closed spec fn surroundings(&self) -> MemoryVicinity {
        self.vicinity
    }

    /// What the engine computes for `message` on `accounts`, before it is decided whether the
    /// writes are kept.
    pub open spec fn raw_step(
        &self,
        accounts: Map<Seq<u8>, AccountModel>,
        message: MessageModel,
    ) -> StepModel {
        if message.is_static {
            metered_static_step(self.surroundings(), accounts, message)
        } else if message.kind == CallKind::Create {
            metered_creation(self.surroundings(), accounts, message)
        } else {
            metered_step(self.surroundings(), accounts, message)
        }
    }

    /// A metered engine on chain 1, before any block. Every engine made here takes the same
    /// steps.
    pub fn new() -> (r: MeteredStack)
        ensures
            r.surroundings() == chain_vicinity(1),
    {
        MeteredStack { vicinity: metered_vicinity(1) }
    }
}

impl ExecutionBackend for MeteredStack {
    /// A static creation is refused unrun. Anything else is the named result of the engine,
    /// with its writes kept only where it succeeded and the message is not static.
    open spec fn step(&self, accounts: Map<Seq<u8>, AccountModel>, message: MessageModel) -> Step {
        if message.is_static && message.kind == CallKind::Create {
            Step {
                status: Status::OtherFailure,
                output: Seq::empty(),
                gas_used: 0,
                accounts: accounts,
            }
        } else {
            let raw = self.raw_step(accounts, message);
            Step {
                status: status_of(raw.succeeded, raw.reverted),
                output: raw.output,
                gas_used: raw.gas_used,
                accounts: if commits(raw, message) {
                    raw.accounts
                } else {
                    accounts
                },
            }
        }
    }

    /// Executes `message` as a top-level transaction of its kind. One that succeeds and is
    /// not static writes its changes into the ledger; any other leaves the ledger as it was.
    /// A static call runs with every state-changing operation refused; a static creation is
    /// answered with an abnormal halt. The depth of the message is not read: the engine
    /// counts nesting itself.
    fn execute(&self, ledger: &mut Ledger, message: &Message) -> (outcome: ExecutionOutcome) {
        if message.is_static && message.kind == CallKind::Create {
            return ExecutionOutcome { status: Status::OtherFailure, output: Vec::new(), gas_used: 0 };
        }
        let state = metered_state(ledger.entries());
        let run = if message.is_static {
            metered_static_call(&self.vicinity, state, message)
        } else {
            match message.kind {
                CallKind::Call => metered_transact(&self.vicinity, state, message),
                CallKind::Create => metered_create(&self.vicinity, state, message),
            }
        };
        let status = if run.succeeded {
            Status::Success
        } else if run.reverted {
            Status::Revert
        } else {
            Status::OtherFailure
        };
        if run.succeeded && !message.is_static {
            *ledger = Ledger::from_entries(metered_entries(&run.state));
        }
        ExecutionOutcome { status, output: run.output, gas_used: run.gas_used }
    }
}

} // verus!
