use vstd::prelude::*;

verus! {

/// The errors of this program's own.
#[derive(Clone, Copy, Debug, PartialEq, Eq, Structural)]
pub enum VestingError {
    /// The instruction bytes do not decode.
    InvalidInstruction,
}

/// The errors that an instruction can end with, as the ledger reports them.
#[derive(Clone, Copy, Debug, PartialEq, Eq, Structural)]
pub enum ProgramError {
    /// An error of this program's own, by its code.
    Custom(u32),
    /// An account's address, owner or signer flag fails a precondition.
    InvalidArgument,
    /// The instruction's data is out of range.
    InvalidInstructionData,
    /// An account's data has the wrong length or layout.
    InvalidAccountData,
    /// A source account holds too little.
    InsufficientFunds,
    /// Fewer accounts were given than the instruction expects.
    NotEnoughAccountKeys,
    /// A token account has not been initialized.
    UninitializedAccount,
    /// The seeds have no derived address.
    InvalidSeeds,
}

impl VestingError {
    /// The code under which this error is reported.
    pub open spec fn spec_code(self) -> u32 {
        match self {
            VestingError::InvalidInstruction => 0,
        }
    }
}

impl From<VestingError> for ProgramError {
    fn from(e: VestingError) -> (r: ProgramError)
        ensures
            r == ProgramError::Custom(e.spec_code()),
    {
        match e {
            VestingError::InvalidInstruction => ProgramError::Custom(0),
        }
    }
}

impl vstd::std_specs::convert::FromSpecImpl<VestingError> for ProgramError {
    open spec fn obeys_from_spec() -> bool {
        true
    }

    open spec fn from_spec(e: VestingError) -> ProgramError {
        ProgramError::Custom(e.spec_code())
    }
}

} // verus!
