//! Verified core of a network-interface record keeper.
//!
//! The crate models a host's network interfaces (name, type, status,
//! addressing, gateways, DNS servers) as an ordered record set, builds fresh
//! records from observed interface data, and reconciles edits into a stored
//! set with "fill only if currently unset" semantics.  The placeholder text
//! "N/A" is the sentinel that marks a field as not yet set.

pub mod builder;
pub mod laws;
pub mod model;
pub mod parse;
pub mod store;
