//! The closed set of errors that end a match.
use vstd::prelude::*;

verus! {

/// Why a match could not be run to completion. Each variant carries a message.
#[derive(Debug, Clone, PartialEq)]
pub enum SimulatorError {
    CompilationError(String),
    RuntimeError(String),
    TimeOutError(String),
    FifoCreationError(String),
    EpollError(String),
    UnidentifiedError(String),
}

impl SimulatorError {
    /// The message that the error carries.
    pub open spec fn message(&self) -> Seq<char> {
        match self {
            SimulatorError::CompilationError(m) => m@,
            SimulatorError::RuntimeError(m) => m@,
            SimulatorError::TimeOutError(m) => m@,
            SimulatorError::FifoCreationError(m) => m@,
            SimulatorError::EpollError(m) => m@,
            SimulatorError::UnidentifiedError(m) => m@,
        }
    }
}

} // verus!
