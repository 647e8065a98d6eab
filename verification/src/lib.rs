//! Port-finder library: the logic behind listing, inspecting and reclaiming
//! busy ports, and the state machine of its interactive table view.

pub mod cli;
pub mod report;
pub mod text;
pub mod sort;
pub mod port;
pub mod app;
pub mod geometry;
pub mod laws;
