//! The core of the CoLink desktop client: the wire protocol between
//! devices (message types, binary frames, version negotiation), file
//! transfer (offers, checksums, tokens, chunk ordering, progress), remote
//! filesystem and camera sessions, remote terminals, note synchronisation
//! (three-way merges, conflicts, pushes and pulls), and the small rules of
//! the desktop shell. Every function here carries a contract proved by
//! Verus; the I/O around it lives in the application.
use vstd::prelude::*;

pub mod text;
pub mod assoc;
pub mod protocol;
pub mod notes;
pub mod runtime;
pub mod error;
pub mod shell;
pub mod state;
pub mod service;

verus! {

} // verus!
