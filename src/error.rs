//! Errors returned by the codec, the builders and the interest arithmetic.

use vstd::prelude::*;

verus! {

#[derive(Clone, Copy, Debug, PartialEq, Eq, Structural)]
pub enum ProgramError {
    /// Unknown instruction tag, or instruction data that ends too soon.
    InvalidInstruction,
    /// A UI amount that does not parse or does not fit an amount.
    InvalidArgument,
    /// An account list too long for its 8-bit count field.
    InvalidInstructionData,
    /// An arithmetic result out of the range of its type.
    ArithmeticOverflow,
    /// A builder was given a program id other than the token program's.
    IncorrectProgramId,
    /// Stored extension data of the wrong length.
    InvalidAccountData,
    /// A fee rate above the whole transferred amount.
    TransferFeeExceedsMaximum,
}

} // verus!
