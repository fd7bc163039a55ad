//! Verified core of two token-mint extensions.
//!
//! - Transfer fees: the instruction codec and builders, the fee on a
//!   transfer, the fee parameters in force at an epoch, and the withholding,
//!   harvesting and withdrawal of fees.
//! - Interest-bearing mints: the integer side of continuous compounding,
//!   the time-weighted average rate, and the trimming of UI amount strings.
//! - Both extensions' state in its fixed little-endian stored layout.

pub mod amount;
pub mod error;
pub mod instruction;
pub mod interest_bearing;
pub mod pubkey;
pub mod transfer_fee;
pub mod transfer_fee_instruction;
pub mod ui_amount;
pub mod wire;

pub use amount::U256;
pub use error::ProgramError;
pub use pubkey::Pubkey;
