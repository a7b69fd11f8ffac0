//! Receipt-verification and state-transition core of a cross-chain deposit
//! receiver: decodes inbound deposit claims, checks their inclusion proofs
//! against a trusted source-chain root, and applies verified deposits to a
//! replay-protected balance/stake ledger with an append-only event log.
//!
//! - [`codec`] turns a raw byte payload into a typed claim, or rejects it;
//! - [`receipt`] proves a claim's receipt against the trusted root and
//!   extracts the deposit it witnesses;
//! - [`ledger`] holds the accounts and credits verified deposits;
//! - [`events`] holds the domain events;
//! - [`service`] owns the state and runs the pipeline, one claim at a time,
//!   with no partial state change on any rejection;
//! - [`bytes`], [`hash`] and [`ident`] carry the byte-level helpers, the
//!   digest and the chain identities they all share.
//!
//! The transport around the core — message dispatch, fetching the trusted
//! root, delivering events — is a collaborator outside this crate.

use vstd::prelude::*;

pub mod bytes;
pub mod codec;
pub mod events;
pub mod hash;
pub mod ident;
pub mod ledger;
pub mod receipt;
pub mod service;

verus! {

} // verus!
