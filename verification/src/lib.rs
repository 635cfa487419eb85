//! Safety-enforcement core of a BFT consensus validator.
//!
//! The crate decides, on behalf of a single validator, whether it is safe to
//! sign a consensus artifact (proposal, vote, timeout, commit vote), and it
//! exposes that decision logic behind a byte-oriented request/response
//! boundary so the caller can sit in a less trusted execution context.
//!
//! Layout:
//! - [`types`]: the plain-value consensus artifacts the engine judges;
//! - [`safety_rules`]: the voting/locking state machine and its laws;
//! - [`codec`]: the deterministic wire encoding of requests and responses;
//! - [`serializer`]: the serializing service and the client proxy that
//!   carry typed calls across the byte boundary;
//! - [`conn_notifs_channel`]: a keyed last-message channel for connection
//!   notifications;
//! - [`core_config`]: workspace subset configuration data.

pub mod codec;
pub mod conn_notifs_channel;
pub mod core_config;
pub mod safety_rules;
pub mod serializer;
pub mod types;
