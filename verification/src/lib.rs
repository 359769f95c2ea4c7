//! Privileged edits of the hosts file and of the certificate trust store.
//!
//! The library decides; the caller performs. Every function here takes
//! plain values (the text of the hosts file, a host name, the outcome of a
//! process) and returns plain values (the new text, a command to run, a
//! typed result). Reading files, starting processes and asking the clock
//! are left to the program that links the library.
//!
//! - `hosts`: finding, adding and removing a mapping in the text of the
//!   hosts file; `hosts_proofs`: what holds of those edits.
//! - `mutation`: the steps of a change, snapshot first, and their commands.
//! - `backup`: where snapshots go and what they are called.
//! - `broker`: commands with raised privileges and what their end means.
//! - `trust`: the commands of the certificate trust store.
//! - `pattern`: the regular expressions that removing a mapping relies on.
//! - `text`: characters, lines, trimming and searching.
//! - `error`: the failures that are reported.

pub mod backup;
pub mod broker;
pub mod error;
pub mod hosts;
pub mod hosts_proofs;
pub mod mutation;
pub mod pattern;
pub mod text;
pub mod trust;
