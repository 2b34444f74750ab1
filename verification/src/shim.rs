//! The shim that starts a container's workload: what it makes of a runtime spec,
//! in which order parent and child proceed, and what it reports of the workload.

pub mod handshake;
pub mod launch;
pub mod process;
