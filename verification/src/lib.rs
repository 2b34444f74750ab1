//! Verified core of the Rauha agent sandbox runtime.

pub mod cli;
pub mod conformance;
pub mod daemon;
pub mod enforcement;
pub mod evidence;
pub mod json;
pub mod kernel_events;
pub mod linux;
pub mod noop;
pub mod number;
pub mod offsets;
pub mod offsets_default;
pub mod ordered;
pub mod paths;
pub mod service;
pub mod shim;
pub mod status;
pub mod text;
