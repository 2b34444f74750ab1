//! Evidence: one schema for what the enforcement backends and the runtime report,
//! and its renderings for machines and for people. Nothing is enforced here.

pub mod bounds;
pub mod builder;
pub mod error;
pub mod event;
pub mod event_name;
pub mod labels;
pub mod narrative;
pub mod render;
pub mod sinks;
