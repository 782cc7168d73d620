//! An in-memory harness that runs the test functions of compiled contracts.
//!
//! `ledger` holds the accounts, `codec` builds call payloads and reads revert reasons,
//! `backend` executes one message against the ledger, `runner` deploys, configures, discovers
//! and dispatches the tests, and `report` writes what became of them.
pub mod backend;
pub mod codec;
pub mod ledger;
pub mod report;
pub mod runner;
pub mod words;
