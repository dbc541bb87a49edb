//! Native Glasgow discovery, provisioning, and UART transport.

pub mod device;
pub mod dialogue;
pub mod firmware;
pub mod journey;
pub mod management;
pub mod provision;
pub mod resource;
pub mod sequence;
pub mod uart;
