//! C232HD identity selection and transport backends of the command-line tool.

pub mod usb;

pub use crate::uart::c232::vcp;
