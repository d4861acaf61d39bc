use vstd::prelude::*;

verus! {

/// The port that the supervising emulator watches for the exit status.
pub const EXIT_PORT: u16 = 0xf4;

/// How a test run ends, as reported to the supervising emulator.
#[derive(Debug, Clone, Copy, PartialEq, Eq, Structural)]
pub enum ExitCode {
    Success,
    Fail,
}

impl ExitCode {
    /// The value written to the exit port.
    pub fn as_u32(self) -> (r: u32)
        ensures
            r == (match self {
                ExitCode::Success => 0x10u32,
                ExitCode::Fail => 0x11u32,
            }),
    {
        match self {
            Self::Success => 0x10,
            Self::Fail => 0x11,
        }
    }
}

} // verus!
