//! A minimal on-chain registry: each account may create at most one subnet
//! record, and provider records may be appended to the list of any account
//! that already owns a subnet.
//!
//! The registry is a deterministic state machine. Its whole observable
//! behaviour — which calls succeed, which fail with which error, what is
//! stored, and which events are emitted — is stated in the contracts of
//! [`registry::Pallet`] and proved against the mathematical model
//! [`registry::RegistryView`].
//!
//! Origin authentication, persistence and event delivery belong to the host
//! ledger; the registry receives an already-authenticated [`types::AccountId`]
//! and keeps its own state and event journal.

pub mod laws;
pub mod registry;
pub mod types;
