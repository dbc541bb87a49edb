//! UART access to Glasgow boards and C232HD cables.

use vstd::prelude::*;

pub mod baud;
pub mod c232;
pub mod cli;
pub mod error;
pub mod events;
pub mod glasgow;
pub mod order;
pub mod selection;
pub mod session;
pub mod span;
pub mod spelling;
pub mod terminal;
pub mod text;
pub mod transfer;
pub mod uart;
pub mod usb;

verus! {

/// Executable identity used in diagnostics and structured events.
#[derive(Clone, Copy, Debug, PartialEq, Eq, Structural)]
pub enum Tool {
    /// Glasgow UART tool.
    Guart,
    /// FTDI C232HD UART tool.
    C232Uart,
}

/// The executable name of each tool.
pub open spec fn tool_name(tool: Tool) -> Seq<char> {
    match tool {
        Tool::Guart => "guart"@,
        Tool::C232Uart => "c232uart"@,
    }
}

impl Tool {
    /// Stable executable name.
    #[must_use]
    pub fn name(self) -> (name: &'static str)
        ensures
            name@ == tool_name(self),
    {
        match self {
            Tool::Guart => "guart",
            Tool::C232Uart => "c232uart",
        }
    }
}

}
