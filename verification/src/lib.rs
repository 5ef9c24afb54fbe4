//! The logic of a print bridge: a small service on a till that prints what the
//! shop's point of sale asks for.
//!
//! Two ways in, one way out. A browser on the same machine talks to a local
//! socket ([`server`]); a remote server pushes jobs down a connection that the
//! bridge dials itself ([`relay`]), over Socket.IO frames ([`engineio`]). Both
//! end at the spooler. What makes delivery idempotent is a ledger on disk
//! ([`job_ledger`]).
//!
//! Nothing here opens a file, a socket or a spooler. The functions take what was
//! read and what to call to write, and say what is to be done; their contracts
//! say what that is.

pub mod codec;
pub mod config;
pub mod engineio;
pub mod error;
pub mod instance_lock;
pub mod job_ledger;
pub mod json;
pub mod pairing;
pub mod printer;
pub mod record;
pub mod relay;
pub mod server;
pub mod text;
pub mod tls_material;
pub mod tray;
