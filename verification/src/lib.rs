//! Verified core of a browser terminal and its WebSocket PTY bridge.
//!
//! The library holds the logic that both ends of the bridge share and the
//! decisions that the browser front end and the PTY server make: the binary
//! wire protocol, connection admission, terminal colour resolution, the
//! layout of a frame's draw operations, glyph-atlas packing and the small
//! state machines that queue outgoing traffic and terminal events.

pub mod outbox;
pub mod protocol;
pub mod atlas;
pub mod colors;
pub mod events;
pub mod frame;
pub mod gpu;
pub mod input;
pub mod rate_limit;
pub mod render;
pub mod runs;
pub mod session;
