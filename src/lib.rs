//! A live, thread-safe view of the controls of an audio control device.
//!
//! The verified core holds the control registry and the rules that move it,
//! the decisions of the polling loop that pumps native events, and the
//! shutdown protocol of a watcher. The native session, the lock, the thread
//! and the readiness wait are driven by the program around this library.

pub mod control;
pub mod lifecycle;
pub mod polling;
pub mod registry;
pub mod text;

pub use control::{Control, ControlView, Handle};
pub use lifecycle::{JoinAction, Lifecycle, Stage};
pub use polling::{LoopAction, LoopEvent, Phase, PollFd, PollLoop, INTERRUPTED, POLL_HUP, POLL_IN};
pub use registry::{Event, EventView, Registry};
pub use text::parse_string;
