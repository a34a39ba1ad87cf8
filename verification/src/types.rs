//! Identifiers and system events of the platform backends.
use vstd::prelude::*;

verus! {

/// A unique identifier for a window.
#[derive(Debug, Clone, Copy, PartialEq, Eq, Hash, Structural)]
pub struct WindowId(pub usize);

/// A unique identifier for a monitor.
#[derive(Debug, Clone, Copy, PartialEq, Eq, Hash, Structural)]
pub struct MonitorId(pub usize);

/// Events emitted by the platform's windowing system.
#[derive(Debug, Clone, Copy, PartialEq, Eq, Structural)]
pub enum SystemEvent {
    WindowCreated(WindowId),
    WindowDestroyed(WindowId),
    WindowFocused(WindowId),
    MonitorAdded(MonitorId),
    MonitorRemoved(MonitorId),
    /// An application was launched, with its process id.
    AppLaunched(i32),
}

} // verus!
