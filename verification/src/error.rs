//! The failures reported by the library.
use vstd::prelude::*;

verus! {

/// Why an operation of the library was refused.
#[derive(Debug, Clone, Copy, PartialEq, Eq, Structural)]
pub enum Error {
    /// `setmode` was called with a mode other than the one already set.
    DifferentModeSet,
    /// `setmode` was called with a mode that is not valid.
    InvalidMode,
    /// An operation needs a pin numbering mode and none is set.
    ModeNotSet,
    /// The channel is not in the table of the current mode.
    InvalidChannel(u32),
    /// The channel has no GPIO chip.
    NotAGpio(u32),
    /// The channel has no PWM controller.
    NotAPwm(u32),
    /// `setup` was called with a direction that is not valid.
    InvalidDirection,
    /// An initial level was given for an input.
    InitialForInput,
    /// `setup` was called with a direction it cannot configure.
    UnsupportedDirection,
    /// The channel must be set up before it is read.
    NotSetUp,
    /// The channel has no open line handle.
    LineHandleMissing,
    /// `output` was given a different number of values than channels.
    ValueCountMismatch,
    /// The channel was not set up as an output.
    NotAnOutput,
    /// The channel already drives a PWM.
    DuplicatePwm,
    /// Edge detection: no pin numbering mode is set.
    EventModeNotSet,
    /// Edge detection: the channel is not in the table of the current mode.
    EventInvalidChannel(u32),
    /// Edge detection: the channel has no GPIO chip.
    EventNotAGpio(u32),
    /// Edge detection: no detection was added yet.
    EventNotAdded,
    /// Edge detection is already added for the channel.
    EventAlreadyAdded(u32),
    /// The device tree lists no compatible string.
    NoCompatibleStrings,
}

} // verus!
