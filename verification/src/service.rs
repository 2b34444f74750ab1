//! What the daemon's services decide: how requests are read, what is asked of the
//! zones, the shims and the images on their behalf, and how the replies are told.

pub mod containers;
pub mod ids;
pub mod images;
pub mod relay;
pub mod sandbox;
pub mod session;
pub mod watch;
pub mod zones;
