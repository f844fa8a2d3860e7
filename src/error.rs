use vstd::prelude::*;

verus! {

/// Errors that the broker reports; `code` gives the number each one carries
/// on the wire.
#[derive(Clone, Copy, Debug, PartialEq, Eq, Structural)]
pub enum BitokuError {
    InvalidInstruction,
    InvalidInstructionData,
    NoAvailableClients,
    Overflow,
    UnregisteredClient,
    InvalidName,
    InvalidAccount,
    InvalidClientId,
    InvalidFileId,
    InvalidPosition,
    ClientMismatch,
}

/// The number of an error, in the order the variants are declared.
pub open spec fn error_code(e: BitokuError) -> u32 {
    match e {
        BitokuError::InvalidInstruction => 0,
        BitokuError::InvalidInstructionData => 1,
        BitokuError::NoAvailableClients => 2,
        BitokuError::Overflow => 3,
        BitokuError::UnregisteredClient => 4,
        BitokuError::InvalidName => 5,
        BitokuError::InvalidAccount => 6,
        BitokuError::InvalidClientId => 7,
        BitokuError::InvalidFileId => 8,
        BitokuError::InvalidPosition => 9,
        BitokuError::ClientMismatch => 10,
    }
}

impl BitokuError {
    /// The custom error code under which the platform reports this error.
    pub fn code(&self) -> (r: u32)
        ensures
            r == error_code(*self),
    {
        match self {
            BitokuError::InvalidInstruction => 0,
            BitokuError::InvalidInstructionData => 1,
            BitokuError::NoAvailableClients => 2,
            BitokuError::Overflow => 3,
            BitokuError::UnregisteredClient => 4,
            BitokuError::InvalidName => 5,
            BitokuError::InvalidAccount => 6,
            BitokuError::InvalidClientId => 7,
            BitokuError::InvalidFileId => 8,
            BitokuError::InvalidPosition => 9,
            BitokuError::ClientMismatch => 10,
        }
    }
}

/// Failure of an operation on stored account data: either a broker error,
/// or stored bytes too short for the record they should hold.
#[derive(Clone, Copy, Debug, PartialEq, Eq, Structural)]
pub enum ProcessError {
    Bitoku(BitokuError),
    InvalidAccountData,
}

} // verus!
