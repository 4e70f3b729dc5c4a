//! The platform layer's decisions: what to capture, the apps there are to capture from,
//! the desktop's appearance, and the readable names of media sessions.
//!
//! Talking to PipeWire, D-Bus, WASAPI and WinRT is the app's; what it hears back is
//! handed here as plain values.

pub mod linux;
pub mod mpris;
pub mod smtc;
pub mod windows;
