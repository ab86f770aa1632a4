//! Server core for a collaborative pixel-canvas: the shared canvas grid,
//! the binary wire protocol, the sliding-window request-rate tracker, the
//! client registry with broadcast planning, and snapshot serialization.
//! The transport layer feeds this library plain byte frames and timestamps.

pub mod canvas;
pub mod codec;
pub mod snapshot;
pub mod stats;
pub mod registry;
pub mod broadcast;
pub mod dispatch;

pub use canvas::Canvas;
