//! The digital output line that the actuator drives.

use vstd::prelude::*;

verus! {

/// The electrical signal on a pin.
#[derive(Clone, Copy, Debug, PartialEq, Eq, Structural)]
pub enum Signal {
    Low,
    High,
}

impl Signal {
    /// The other signal.
    pub open spec fn spec_opposite(self) -> Signal {
        match self {
            Signal::Low => Signal::High,
            Signal::High => Signal::Low,
        }
    }

    /// The other signal.
    #[verifier::when_used_as_spec(spec_opposite)]
    pub fn opposite(self) -> (other: Signal)
        ensures
            other == self.spec_opposite(),
    {
        match self {
            Signal::Low => Signal::High,
            Signal::High => Signal::Low,
        }
    }
}

/// The logical level of a line: triggered or idle.
#[derive(Clone, Copy, Debug, PartialEq, Eq, Structural)]
pub enum Level {
    Inactive,
    Active,
}

/// Whether the process holds the line.
#[derive(Clone, Copy, Debug, PartialEq, Eq, Structural)]
pub enum Acquisition {
    Unacquired,
    Output,
}

/// One physical digital pin, as the driver knows it.
#[derive(Clone, Copy, Debug, PartialEq, Eq, Structural)]
pub struct OutputLine {
    pub pin: u8,
    pub level: Level,
    pub acquisition: Acquisition,
}

impl OutputLine {
    /// A line can only be active while the process holds it as an output.
    pub open spec fn wf(self) -> bool {
        self.level is Active ==> self.acquisition is Output
    }

    /// The line at rest: not acquired, inactive.
    pub open spec fn spec_resting(pin: u8) -> OutputLine {
        OutputLine { pin, level: Level::Inactive, acquisition: Acquisition::Unacquired }
    }

    /// The line at rest: not acquired, inactive.
    #[verifier::when_used_as_spec(spec_resting)]
    pub fn resting(pin: u8) -> (line: OutputLine)
        ensures
            line == OutputLine::spec_resting(pin),
            line.wf(),
    {
        OutputLine { pin, level: Level::Inactive, acquisition: Acquisition::Unacquired }
    }
}

} // verus!
