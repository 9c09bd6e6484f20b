//! Multi-party plan approval and the execution gate, with the small pure
//! rules of the resources around them.
//!
//! A plan may need the sign-off of several named approvers before it is
//! executed. [`ledger::Ledger`] holds the plans and the approvals as one
//! value. Its invariant, [`ledger::LedgerView::wf`], says among other things
//! that each plan's counter is the number of its approved approvals.
//!
//! Every operation is a total function. Its contract gives the ledger after
//! the call and the result as a function of the ledger before the call and
//! the arguments: [`approval::request_outcome`], [`approval::submit_outcome`],
//! [`approval::status_outcome`], [`approval::approval_outcome`] and
//! [`plan::execute_outcome`]. An operation holds the ledger exclusively while
//! it runs, so operations on one ledger take effect one after the other, and
//! each takes effect as a whole or not at all. [`laws`] proves what follows
//! for the workflow as a whole.
//!
//! Identifiers are 128-bit numbers and instants are microseconds since the
//! Unix epoch. What is taken from outside and believed without proof is in
//! [`sources`] (fresh identifiers, the clock), [`dates`] (calendar dates) and
//! [`text`] (lowercase, reading numbers).

pub mod activity;
pub mod activity_log;
pub mod approval;
pub mod auth;
pub mod claim;
pub mod dates;
pub mod errors;
pub mod kyc;
pub mod laws;
pub mod ledger;
pub mod models;
pub mod pagination;
pub mod plan;
pub mod seqs;
pub mod sources;
pub mod status;
pub mod text;
pub mod withdrawal;
