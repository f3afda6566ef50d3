//! Toggling the power of network key lights: the device model, the state
//! transform, the control URL, and the decisions of the discovery search and of
//! the read-toggle-write pass over the devices found.

pub mod discovery;
pub mod model;
pub mod orchestrator;
pub mod transform;
pub mod url;
