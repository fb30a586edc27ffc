//! Coordination between a host and the guest machines that share a network
//! with it: a server on the host registers the guests, answers queries for
//! their addresses, acts on the host for them and relays host ports to them.
//!
//! This library holds the decisions of that system, stated and proved over
//! plain values: the frame codec, the messages and their handshake, the
//! machine registry, the session dispatcher, the port-forward controller and
//! the rules of a relay, the sender that dials again, and what the guest's
//! tools read and print. It opens no socket and no file; the programs around
//! it do, and report to it what happened.

pub mod frame;
pub mod guest;
pub mod port_forward;
pub mod protocol;
pub mod query;
pub mod registry;
pub mod reporter;
pub mod server;
pub mod text;
pub mod transport;
pub mod types;
