//! Supervision of locally launched tool servers that speak line-framed
//! JSON-RPC over their standard streams: the response scanner and session
//! state machine, traffic metering, secret injection, the process table and
//! profile reconciliation, and the diagnostics and catalog helpers around them.

pub mod catalog;
pub mod clock;
pub mod conflicts;
pub mod diagnostics;
pub mod env;
pub mod export;
pub mod json;
pub mod models;
pub mod paths;
pub mod profiles;
pub mod protocol;
pub mod registry;
pub mod secrets;
pub mod servers;
pub mod text;
pub mod traffic;
pub mod versions;
