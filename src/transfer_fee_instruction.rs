//! The transfer-fee instruction set and its byte codec: one tag byte, then
//! the variant's fields at fixed widths.

use crate::amount::U256;
use crate::error::ProgramError;
use crate::instruction::{
    check_program_account, spec_id, push_signers, push_sources, signer_metas, source_metas, AccountMeta, Instruction,
    TRANSFER_FEE_EXTENSION_TAG,
};
use crate::pubkey::Pubkey;
use crate::wire::{
    lemma_concat_prefix, lemma_pubkey_option_unique, lemma_u16_unique, lemma_u256_unique,
    pack_pubkey_option, pack_u16, pack_u256, spec_pubkey_option_bytes,
    unpack_amount_decimals_u256, unpack_pubkey_option, unpack_u16, unpack_u256,
};
use vstd::bytes::*;
use vstd::prelude::*;
use vstd::slice::slice_subrange;

verus! {

/// Transfer-fee extension instructions.
#[derive(Clone, Copy, Debug, PartialEq, Eq)]
pub enum TransferFeeInstruction {
    /// Initialize the transfer fee on a new mint.
    InitializeTransferFeeConfig {
        /// Address that may update the fees.
        transfer_fee_config_authority: Option<Pubkey>,
        /// Address that must sign withdrawals of withheld fees.
        withdraw_withheld_authority: Option<Pubkey>,
        /// Fee per transfer, in basis points of the transferred amount.
        transfer_fee_basis_points: u16,
        /// Upper bound of the fee on one transfer.
        maximum_fee: U256,
    },
    /// Transfer, stating the expected decimals and fee.
    TransferCheckedWithFee {
        /// The amount of tokens to transfer.
        amount: U256,
        /// Expected number of base 10 digits to the right of the decimal point.
        decimals: u8,
        /// Expected fee assessed on this transfer.
        fee: U256,
    },
    /// Move all fees withheld in the mint to an account.
    WithdrawWithheldTokensFromMint,
    /// Move all fees withheld in the listed accounts to an account.
    WithdrawWithheldTokensFromAccounts {
        /// Number of source accounts that follow in the account list.
        num_token_accounts: u8,
    },
    /// Move fees withheld in the listed accounts into the mint.
    HarvestWithheldTokensToMint,
    /// Set the transfer fee of the mint.
    SetTransferFee {
        /// Fee per transfer, in basis points of the transferred amount.
        transfer_fee_basis_points: u16,
        /// Upper bound of the fee on one transfer.
        maximum_fee: U256,
    },
}

impl TransferFeeInstruction {
    /// The encoding of the instruction: its tag, then its fields in order.
    pub open spec fn spec_pack(self) -> Seq<u8> {
        match self {
            Self::InitializeTransferFeeConfig {
                transfer_fee_config_authority,
                withdraw_withheld_authority,
                transfer_fee_basis_points,
                maximum_fee,
            } => seq![0u8] + (spec_pubkey_option_bytes(transfer_fee_config_authority) + (
            spec_pubkey_option_bytes(withdraw_withheld_authority) + (spec_u16_to_le_bytes(
                transfer_fee_basis_points,
            ) + maximum_fee.spec_le_bytes()))),
            Self::TransferCheckedWithFee { amount, decimals, fee } => seq![1u8] + (
            amount.spec_le_bytes() + (seq![decimals] + fee.spec_le_bytes())),
            Self::WithdrawWithheldTokensFromMint => seq![2u8],
            Self::WithdrawWithheldTokensFromAccounts { num_token_accounts } => seq![
                3u8,
                num_token_accounts,
            ],
            Self::HarvestWithheldTokensToMint => seq![4u8],
            Self::SetTransferFee { transfer_fee_basis_points, maximum_fee } => seq![5u8] + (
            spec_u16_to_le_bytes(transfer_fee_basis_points) + maximum_fee.spec_le_bytes()),
        }
    }

    /// Appends the encoding of the instruction to `buffer`.
    pub fn pack(&self, buffer: &mut Vec<u8>)
        ensures
            final(buffer)@ == old(buffer)@ + self.spec_pack(),
    {
        match self {
            Self::InitializeTransferFeeConfig {
                transfer_fee_config_authority,
                withdraw_withheld_authority,
                transfer_fee_basis_points,
                maximum_fee,
            } => {
                buffer.push(0);
                pack_pubkey_option(transfer_fee_config_authority, buffer);
                pack_pubkey_option(withdraw_withheld_authority, buffer);
                pack_u16(*transfer_fee_basis_points, buffer);
                pack_u256(maximum_fee, buffer);
            },
            Self::TransferCheckedWithFee { amount, decimals, fee } => {
                buffer.push(1);
                pack_u256(amount, buffer);
                buffer.push(*decimals);
                pack_u256(fee, buffer);
            },
            Self::WithdrawWithheldTokensFromMint => {
                buffer.push(2);
            },
            Self::WithdrawWithheldTokensFromAccounts { num_token_accounts } => {
                buffer.push(3);
                buffer.push(*num_token_accounts);
            },
            Self::HarvestWithheldTokensToMint => {
                buffer.push(4);
            },
            Self::SetTransferFee { transfer_fee_basis_points, maximum_fee } => {
                buffer.push(5);
                pack_u16(*transfer_fee_basis_points, buffer);
                pack_u256(maximum_fee, buffer);
            },
        }
        assert(buffer@ =~= old(buffer)@ + self.spec_pack());
    }

    /// Reads an instruction from the front of `input`; bytes after its
    /// encoding are ignored.
    pub fn unpack(input: &[u8]) -> (r: Result<Self, ProgramError>)
        ensures
            r matches Ok(i) ==> i.spec_pack().is_prefix_of(input@),
            r matches Err(e) ==> e == ProgramError::InvalidInstruction,
            forall|i: Self|
                (#[trigger] i.spec_pack()).is_prefix_of(input@) ==> r == Ok::<Self, ProgramError>(
                    i,
                ),
    {
        proof {
            lemma_auto_spec_u16_to_from_le_bytes();
            lemma_auto_spec_u128_to_from_le_bytes();
        }
        if input.len() == 0 {
            proof {
                assert forall|i: Self| !(#[trigger] i.spec_pack()).is_prefix_of(input@) by {
                    if i.spec_pack().is_prefix_of(input@) {
                        lemma_prefix_tag(i, input@);
                    }
                }
            }
            return Err(ProgramError::InvalidInstruction);
        }
        let tag = input[0];
        let rest = slice_subrange(input, 1, input.len());
        assert(rest@ =~= input@.skip(1));
        let r = if tag == 0 {
            Self::unpack_initialize(input, rest)
        } else if tag == 1 {
            Self::unpack_transfer(input, rest)
        } else if tag == 2 {
            Ok(Self::WithdrawWithheldTokensFromMint)
        } else if tag == 3 {
            if rest.len() >= 1 {
                Ok(Self::WithdrawWithheldTokensFromAccounts { num_token_accounts: rest[0] })
            } else {
                proof {
                    assert forall|i: Self| !(#[trigger] i.spec_pack()).is_prefix_of(input@) by {
                        if i.spec_pack().is_prefix_of(input@) {
                            lemma_prefix_tag(i, input@);
                        }
                    }
                }
                Err(ProgramError::InvalidInstruction)
            }
        } else if tag == 4 {
            Ok(Self::HarvestWithheldTokensToMint)
        } else if tag == 5 {
            Self::unpack_set_fee(input, rest)
        } else {
            proof {
                assert forall|i: Self| !(#[trigger] i.spec_pack()).is_prefix_of(input@) by {
                    if i.spec_pack().is_prefix_of(input@) {
                        lemma_prefix_tag(i, input@);
                    }
                }
            }
            Err(ProgramError::InvalidInstruction)
        };
        proof {
            if let Ok(j) = r {
                assert(j.spec_pack().is_prefix_of(input@)) by {
                    if tag == 3 {
                        assert(j.spec_pack() =~= input@.subrange(0, 2));
                    }
                }
                assert forall|i: Self| (#[trigger] i.spec_pack()).is_prefix_of(input@) implies r
                    == Ok::<Self, ProgramError>(i) by {
                    lemma_encoding_unique(i, j, input@);
                }
            }
        }
        r
    }

    /// The fields of `InitializeTransferFeeConfig`, read from `rest`, which
    /// is `input` after its tag byte 0.
    fn unpack_initialize(input: &[u8], rest: &[u8]) -> (r: Result<Self, ProgramError>)
        requires
            input@.len() >= 1,
            input@[0] == 0,
            rest@ == input@.skip(1),
        ensures
            r matches Ok(i) ==> i.spec_pack().is_prefix_of(input@),
            r matches Err(e) ==> e == ProgramError::InvalidInstruction && forall|i: Self|
                !(#[trigger] i.spec_pack()).is_prefix_of(input@),
    {
        proof {
            lemma_auto_spec_u16_to_from_le_bytes();
            lemma_auto_spec_u128_to_from_le_bytes();
        }
        let (transfer_fee_config_authority, rest1) = match unpack_pubkey_option(rest) {
            Ok(v) => v,
            Err(e) => {
                proof {
                    assert forall|i: Self| !(#[trigger] i.spec_pack()).is_prefix_of(input@) by {
                        if i.spec_pack().is_prefix_of(input@) {
                            lemma_prefix_tag(i, input@);
                            if let Self::InitializeTransferFeeConfig {
                                transfer_fee_config_authority: a,
                                withdraw_withheld_authority: w,
                                transfer_fee_basis_points: b,
                                maximum_fee: m,
                            } = i {
                                lemma_init_layout(a, w, b, m, input@);
                            }
                        }
                    }
                }
                return Err(e);
            },
        };
        let ghost oa = spec_pubkey_option_bytes(transfer_fee_config_authority);
        assert(oa.is_prefix_of(rest@));
        assert(rest1@ =~= rest@.skip(oa.len() as int));
        let (withdraw_withheld_authority, rest2) = match unpack_pubkey_option(rest1) {
            Ok(v) => v,
            Err(e) => {
                proof {
                    assert forall|i: Self| !(#[trigger] i.spec_pack()).is_prefix_of(input@) by {
                        if i.spec_pack().is_prefix_of(input@) {
                            lemma_prefix_tag(i, input@);
                            if let Self::InitializeTransferFeeConfig {
                                transfer_fee_config_authority: a,
                                withdraw_withheld_authority: w,
                                transfer_fee_basis_points: b,
                                maximum_fee: m,
                            } = i {
                                lemma_init_layout(a, w, b, m, input@);
                                lemma_pubkey_option_unique(
                                    a,
                                    transfer_fee_config_authority,
                                    rest@,
                                );
                            }
                        }
                    }
                }
                return Err(e);
            },
        };
        let ghost ow = spec_pubkey_option_bytes(withdraw_withheld_authority);
        assert(ow.is_prefix_of(rest1@));
        assert(rest2@ =~= rest1@.skip(ow.len() as int));
        let (transfer_fee_basis_points, rest3) = match unpack_u16(rest2) {
            Ok(v) => v,
            Err(e) => {
                proof {
                    assert forall|i: Self| !(#[trigger] i.spec_pack()).is_prefix_of(input@) by {
                        if i.spec_pack().is_prefix_of(input@) {
                            lemma_prefix_tag(i, input@);
                            if let Self::InitializeTransferFeeConfig {
                                transfer_fee_config_authority: a,
                                withdraw_withheld_authority: w,
                                transfer_fee_basis_points: b,
                                maximum_fee: m,
                            } = i {
                                lemma_init_layout(a, w, b, m, input@);
                                lemma_pubkey_option_unique(
                                    a,
                                    transfer_fee_config_authority,
                                    rest@,
                                );
                                lemma_pubkey_option_unique(
                                    w,
                                    withdraw_withheld_authority,
                                    rest1@,
                                );
                            }
                        }
                    }
                }
                return Err(e);
            },
        };
        assert(rest3@ =~= rest2@.skip(2));
        let (maximum_fee, rest4) = match unpack_u256(rest3) {
            Ok(v) => v,
            Err(e) => {
                proof {
                    assert forall|i: Self| !(#[trigger] i.spec_pack()).is_prefix_of(input@) by {
                        if i.spec_pack().is_prefix_of(input@) {
                            lemma_prefix_tag(i, input@);
                            if let Self::InitializeTransferFeeConfig {
                                transfer_fee_config_authority: a,
                                withdraw_withheld_authority: w,
                                transfer_fee_basis_points: b,
                                maximum_fee: m,
                            } = i {
                                lemma_init_layout(a, w, b, m, input@);
                                lemma_pubkey_option_unique(
                                    a,
                                    transfer_fee_config_authority,
                                    rest@,
                                );
                                lemma_pubkey_option_unique(
                                    w,
                                    withdraw_withheld_authority,
                                    rest1@,
                                );
                            }
                        }
                    }
                }
                return Err(e);
            },
        };
        let i = Self::InitializeTransferFeeConfig {
            transfer_fee_config_authority,
            withdraw_withheld_authority,
            transfer_fee_basis_points,
            maximum_fee,
        };
        assert(input@ =~= seq![0u8] + rest@);
        assert(i.spec_pack() + rest4@ =~= seq![0u8] + (oa + (ow + (spec_u16_to_le_bytes(
            transfer_fee_basis_points,
        ) + (maximum_fee.spec_le_bytes() + rest4@)))));
        Ok(i)
    }

    /// The fields of `TransferCheckedWithFee`, read from `rest`, which is
    /// `input` after its tag byte 1.
    fn unpack_transfer(input: &[u8], rest: &[u8]) -> (r: Result<Self, ProgramError>)
        requires
            input@.len() >= 1,
            input@[0] == 1,
            rest@ == input@.skip(1),
        ensures
            r matches Ok(i) ==> i.spec_pack().is_prefix_of(input@),
            r matches Err(e) ==> e == ProgramError::InvalidInstruction && forall|i: Self|
                !(#[trigger] i.spec_pack()).is_prefix_of(input@),
    {
        proof {
            lemma_auto_spec_u128_to_from_le_bytes();
        }
        let (amount, decimals, rest1) = match unpack_amount_decimals_u256(rest) {
            Ok(v) => v,
            Err(e) => {
                proof {
                    assert forall|i: Self| !(#[trigger] i.spec_pack()).is_prefix_of(input@) by {
                        if i.spec_pack().is_prefix_of(input@) {
                            lemma_prefix_tag(i, input@);
                            if let Self::TransferCheckedWithFee { amount: a, decimals: d, fee: f } =
                                i {
                                lemma_transfer_layout(a, d, f, input@);
                            }
                        }
                    }
                }
                return Err(e);
            },
        };
        assert(rest1@ =~= rest@.skip(33));
        let (fee, rest2) = match unpack_u256(rest1) {
            Ok(v) => v,
            Err(e) => {
                proof {
                    assert forall|i: Self| !(#[trigger] i.spec_pack()).is_prefix_of(input@) by {
                        if i.spec_pack().is_prefix_of(input@) {
                            lemma_prefix_tag(i, input@);
                            if let Self::TransferCheckedWithFee { amount: a, decimals: d, fee: f } =
                                i {
                                lemma_transfer_layout(a, d, f, input@);
                            }
                        }
                    }
                }
                return Err(e);
            },
        };
        let i = Self::TransferCheckedWithFee { amount, decimals, fee };
        assert(input@ =~= seq![1u8] + rest@);
        assert(i.spec_pack() + rest2@ =~= seq![1u8] + (amount.spec_le_bytes() + seq![decimals] + (
        fee.spec_le_bytes() + rest2@)));
        Ok(i)
    }

    /// The fields of `SetTransferFee`, read from `rest`, which is `input`
    /// after its tag byte 5.
    fn unpack_set_fee(input: &[u8], rest: &[u8]) -> (r: Result<Self, ProgramError>)
        requires
            input@.len() >= 1,
            input@[0] == 5,
            rest@ == input@.skip(1),
        ensures
            r matches Ok(i) ==> i.spec_pack().is_prefix_of(input@),
            r matches Err(e) ==> e == ProgramError::InvalidInstruction && forall|i: Self|
                !(#[trigger] i.spec_pack()).is_prefix_of(input@),
    {
        proof {
            lemma_auto_spec_u16_to_from_le_bytes();
            lemma_auto_spec_u128_to_from_le_bytes();
        }
        let (transfer_fee_basis_points, rest1) = match unpack_u16(rest) {
            Ok(v) => v,
            Err(e) => {
                proof {
                    assert forall|i: Self| !(#[trigger] i.spec_pack()).is_prefix_of(input@) by {
                        if i.spec_pack().is_prefix_of(input@) {
                            lemma_prefix_tag(i, input@);
                            if let Self::SetTransferFee {
                                transfer_fee_basis_points: b,
                                maximum_fee: m,
                            } = i {
                                lemma_set_fee_layout(b, m, input@);
                            }
                        }
                    }
                }
                return Err(e);
            },
        };
        assert(rest1@ =~= rest@.skip(2));
        let (maximum_fee, rest2) = match unpack_u256(rest1) {
            Ok(v) => v,
            Err(e) => {
                proof {
                    assert forall|i: Self| !(#[trigger] i.spec_pack()).is_prefix_of(input@) by {
                        if i.spec_pack().is_prefix_of(input@) {
                            lemma_prefix_tag(i, input@);
                            if let Self::SetTransferFee {
                                transfer_fee_basis_points: b,
                                maximum_fee: m,
                            } = i {
                                lemma_set_fee_layout(b, m, input@);
                            }
                        }
                    }
                }
                return Err(e);
            },
        };
        let i = Self::SetTransferFee { transfer_fee_basis_points, maximum_fee };
        assert(input@ =~= seq![5u8] + rest@);
        assert(i.spec_pack() + rest2@ =~= seq![5u8] + (spec_u16_to_le_bytes(
            transfer_fee_basis_points,
        ) + (maximum_fee.spec_le_bytes() + rest2@)));
        Ok(i)
    }
}

/// The first byte of an encoding is its tag, and an encoding that starts
/// `s` is no longer than `s`.
pub proof fn lemma_prefix_tag(i: TransferFeeInstruction, s: Seq<u8>)
    requires
        i.spec_pack().is_prefix_of(s),
    ensures
        s.len() >= 1,
        s[0] == i.spec_pack()[0],
        s[0] == 0 ==> i is InitializeTransferFeeConfig,
        s[0] == 1 ==> i is TransferCheckedWithFee,
        s[0] == 3 ==> i is WithdrawWithheldTokensFromAccounts && s.len() >= 2,
        s[0] == 5 ==> i is SetTransferFee,
        s[0] <= 5,
{
    assert(i.spec_pack()[0] == s[0]);
}

/// Where the fields of an `InitializeTransferFeeConfig` encoding stand in `s`.
pub proof fn lemma_init_layout(
    a: Option<Pubkey>,
    w: Option<Pubkey>,
    b: u16,
    m: U256,
    s: Seq<u8>,
)
    requires
        (TransferFeeInstruction::InitializeTransferFeeConfig {
            transfer_fee_config_authority: a,
            withdraw_withheld_authority: w,
            transfer_fee_basis_points: b,
            maximum_fee: m,
        }).spec_pack().is_prefix_of(s),
    ensures
        spec_pubkey_option_bytes(a).is_prefix_of(s.skip(1)),
        spec_pubkey_option_bytes(w).is_prefix_of(
            s.skip(1).skip(spec_pubkey_option_bytes(a).len() as int),
        ),
        spec_u16_to_le_bytes(b).is_prefix_of(
            s.skip(1).skip(spec_pubkey_option_bytes(a).len() as int).skip(
                spec_pubkey_option_bytes(w).len() as int,
            ),
        ),
        m.spec_le_bytes().is_prefix_of(
            s.skip(1).skip(spec_pubkey_option_bytes(a).len() as int).skip(
                spec_pubkey_option_bytes(w).len() as int,
            ).skip(spec_u16_to_le_bytes(b).len() as int),
        ),
{
    let oa = spec_pubkey_option_bytes(a);
    let ow = spec_pubkey_option_bytes(w);
    let t = spec_u16_to_le_bytes(b) + m.spec_le_bytes();
    lemma_concat_prefix(seq![0u8], oa + (ow + t), s);
    lemma_concat_prefix(oa, ow + t, s.skip(1));
    lemma_concat_prefix(ow, t, s.skip(1).skip(oa.len() as int));
    lemma_concat_prefix(
        spec_u16_to_le_bytes(b),
        m.spec_le_bytes(),
        s.skip(1).skip(oa.len() as int).skip(ow.len() as int),
    );
}

/// Where the fields of a `TransferCheckedWithFee` encoding stand in `s`.
pub proof fn lemma_transfer_layout(a: U256, d: u8, f: U256, s: Seq<u8>)
    requires
        (TransferFeeInstruction::TransferCheckedWithFee {
            amount: a,
            decimals: d,
            fee: f,
        }).spec_pack().is_prefix_of(s),
    ensures
        (a.spec_le_bytes() + seq![d]).is_prefix_of(s.skip(1)),
        f.spec_le_bytes().is_prefix_of(s.skip(1).skip(33)),
{
    lemma_auto_spec_u128_to_from_le_bytes();
    let r = seq![d] + f.spec_le_bytes();
    lemma_concat_prefix(seq![1u8], a.spec_le_bytes() + r, s);
    assert(a.spec_le_bytes() + r =~= (a.spec_le_bytes() + seq![d]) + f.spec_le_bytes());
    lemma_concat_prefix(a.spec_le_bytes() + seq![d], f.spec_le_bytes(), s.skip(1));
}

/// Where the fields of a `SetTransferFee` encoding stand in `s`.
pub proof fn lemma_set_fee_layout(b: u16, m: U256, s: Seq<u8>)
    requires
        (TransferFeeInstruction::SetTransferFee {
            transfer_fee_basis_points: b,
            maximum_fee: m,
        }).spec_pack().is_prefix_of(s),
    ensures
        spec_u16_to_le_bytes(b).is_prefix_of(s.skip(1)),
        m.spec_le_bytes().is_prefix_of(s.skip(1).skip(2)),
{
    lemma_auto_spec_u16_to_from_le_bytes();
    lemma_concat_prefix(seq![5u8], spec_u16_to_le_bytes(b) + m.spec_le_bytes(), s);
    lemma_concat_prefix(spec_u16_to_le_bytes(b), m.spec_le_bytes(), s.skip(1));
}

/// At most one instruction has an encoding that starts `s`.
pub proof fn lemma_encoding_unique(i: TransferFeeInstruction, j: TransferFeeInstruction, s: Seq<u8>)
    requires
        i.spec_pack().is_prefix_of(s),
        j.spec_pack().is_prefix_of(s),
    ensures
        i == j,
{
    lemma_auto_spec_u16_to_from_le_bytes();
    assert(i.spec_pack()[0] == s[0]);
    assert(j.spec_pack()[0] == s[0]);
    let s1 = s.skip(1);
    match (i, j) {
        (
            TransferFeeInstruction::InitializeTransferFeeConfig {
                transfer_fee_config_authority: a1,
                withdraw_withheld_authority: w1,
                transfer_fee_basis_points: b1,
                maximum_fee: m1,
            },
            TransferFeeInstruction::InitializeTransferFeeConfig {
                transfer_fee_config_authority: a2,
                withdraw_withheld_authority: w2,
                transfer_fee_basis_points: b2,
                maximum_fee: m2,
            },
        ) => {
            let t1 = spec_u16_to_le_bytes(b1) + m1.spec_le_bytes();
            let t2 = spec_u16_to_le_bytes(b2) + m2.spec_le_bytes();
            let r1 = spec_pubkey_option_bytes(w1) + t1;
            let r2 = spec_pubkey_option_bytes(w2) + t2;
            lemma_concat_prefix(seq![0u8], spec_pubkey_option_bytes(a1) + r1, s);
            lemma_concat_prefix(seq![0u8], spec_pubkey_option_bytes(a2) + r2, s);
            lemma_concat_prefix(spec_pubkey_option_bytes(a1), r1, s1);
            lemma_concat_prefix(spec_pubkey_option_bytes(a2), r2, s1);
            lemma_pubkey_option_unique(a1, a2, s1);
            let s2 = s1.skip(spec_pubkey_option_bytes(a1).len() as int);
            lemma_concat_prefix(spec_pubkey_option_bytes(w1), t1, s2);
            lemma_concat_prefix(spec_pubkey_option_bytes(w2), t2, s2);
            lemma_pubkey_option_unique(w1, w2, s2);
            let s3 = s2.skip(spec_pubkey_option_bytes(w1).len() as int);
            lemma_concat_prefix(spec_u16_to_le_bytes(b1), m1.spec_le_bytes(), s3);
            lemma_concat_prefix(spec_u16_to_le_bytes(b2), m2.spec_le_bytes(), s3);
            lemma_u16_unique(b1, b2, s3);
            lemma_u256_unique(m1, m2, s3.skip(2));
        },
        (
            TransferFeeInstruction::TransferCheckedWithFee { amount: a1, decimals: d1, fee: f1 },
            TransferFeeInstruction::TransferCheckedWithFee { amount: a2, decimals: d2, fee: f2 },
        ) => {
            let r1 = seq![d1] + f1.spec_le_bytes();
            let r2 = seq![d2] + f2.spec_le_bytes();
            lemma_concat_prefix(seq![1u8], a1.spec_le_bytes() + r1, s);
            lemma_concat_prefix(seq![1u8], a2.spec_le_bytes() + r2, s);
            lemma_concat_prefix(a1.spec_le_bytes(), r1, s1);
            lemma_concat_prefix(a2.spec_le_bytes(), r2, s1);
            lemma_u256_unique(a1, a2, s1);
            let s2 = s1.skip(a1.spec_le_bytes().len() as int);
            lemma_concat_prefix(seq![d1], f1.spec_le_bytes(), s2);
            lemma_concat_prefix(seq![d2], f2.spec_le_bytes(), s2);
            assert(seq![d1][0] == s2[0]);
            assert(seq![d2][0] == s2[0]);
            lemma_u256_unique(f1, f2, s2.skip(1));
        },
        (
            TransferFeeInstruction::WithdrawWithheldTokensFromAccounts { num_token_accounts: n1 },
            TransferFeeInstruction::WithdrawWithheldTokensFromAccounts { num_token_accounts: n2 },
        ) => {
            assert(i.spec_pack()[1] == s[1]);
            assert(j.spec_pack()[1] == s[1]);
        },
        (
            TransferFeeInstruction::SetTransferFee {
                transfer_fee_basis_points: b1,
                maximum_fee: m1,
            },
            TransferFeeInstruction::SetTransferFee {
                transfer_fee_basis_points: b2,
                maximum_fee: m2,
            },
        ) => {
            lemma_concat_prefix(seq![5u8], spec_u16_to_le_bytes(b1) + m1.spec_le_bytes(), s);
            lemma_concat_prefix(seq![5u8], spec_u16_to_le_bytes(b2) + m2.spec_le_bytes(), s);
            lemma_concat_prefix(spec_u16_to_le_bytes(b1), m1.spec_le_bytes(), s1);
            lemma_concat_prefix(spec_u16_to_le_bytes(b2), m2.spec_le_bytes(), s1);
            lemma_u16_unique(b1, b2, s1);
            lemma_u256_unique(m1, m2, s1.skip(2));
        },
        _ => {},
    }
}

/// Round trip: the encoding of an instruction starts with the encoding of
/// that instruction and of no other one. By the contract of `unpack`,
/// unpacking the bytes that `pack` wrote gives back the instruction packed.
pub proof fn lemma_unpack_pack_round_trip(i: TransferFeeInstruction)
    ensures
        forall|j: TransferFeeInstruction|
            (#[trigger] j.spec_pack()).is_prefix_of(i.spec_pack()) <==> j == i,
{
    assert forall|j: TransferFeeInstruction|
        (#[trigger] j.spec_pack()).is_prefix_of(i.spec_pack()) <==> j == i by {
        assert(i.spec_pack().subrange(0, i.spec_pack().len() as int) =~= i.spec_pack());
        if j.spec_pack().is_prefix_of(i.spec_pack()) {
            lemma_encoding_unique(i, j, i.spec_pack());
        }
    }
}

/// Bytes that hold exactly one encoding and nothing after it are what
/// packing the decoded instruction writes.
pub proof fn lemma_pack_of_unpacked(bytes: Seq<u8>, i: TransferFeeInstruction)
    requires
        i.spec_pack().is_prefix_of(bytes),
        bytes.len() == i.spec_pack().len(),
    ensures
        i.spec_pack() == bytes,
{
    assert(bytes.subrange(0, bytes.len() as int) =~= bytes);
}

/// The instruction data of a transfer-fee instruction: the extension tag,
/// then the instruction's encoding.
pub open spec fn spec_instruction_data(ix: TransferFeeInstruction) -> Seq<u8> {
    seq![TRANSFER_FEE_EXTENSION_TAG] + ix.spec_pack()
}

/// The address an optional reference points to, if any.
pub open spec fn spec_owned_key(key: Option<&Pubkey>) -> Option<Pubkey> {
    match key {
        Some(k) => Some(*k),
        None => None,
    }
}

fn encode_instruction_data(transfer_fee_instruction: TransferFeeInstruction) -> (r: Vec<u8>)
    ensures
        r@ == spec_instruction_data(transfer_fee_instruction),
{
    let mut data: Vec<u8> = Vec::new();
    data.push(TRANSFER_FEE_EXTENSION_TAG);
    transfer_fee_instruction.pack(&mut data);
    assert(data@ =~= spec_instruction_data(transfer_fee_instruction));
    data
}

fn owned_key(key: Option<&Pubkey>) -> (r: Option<Pubkey>)
    ensures
        r == spec_owned_key(key),
{
    match key {
        Some(k) => Some(*k),
        None => None,
    }
}

/// Creates an `InitializeTransferFeeConfig` instruction.
pub fn initialize_transfer_fee_config(
    token_program_id: &Pubkey,
    mint: &Pubkey,
    transfer_fee_config_authority: Option<&Pubkey>,
    withdraw_withheld_authority: Option<&Pubkey>,
    transfer_fee_basis_points: u16,
    maximum_fee: U256,
) -> (r: Result<Instruction, ProgramError>)
    ensures
        *token_program_id != spec_id() ==> r == Err::<Instruction, ProgramError>(
            ProgramError::IncorrectProgramId,
        ),
        *token_program_id == spec_id() ==> (r matches Ok(ix) && ix.program_id == *token_program_id && ix.accounts@ == seq![
            AccountMeta { pubkey: *mint, is_signer: false, is_writable: true },
        ] && ix.data@ == spec_instruction_data(
            TransferFeeInstruction::InitializeTransferFeeConfig {
                transfer_fee_config_authority: spec_owned_key(transfer_fee_config_authority),
                withdraw_withheld_authority: spec_owned_key(withdraw_withheld_authority),
                transfer_fee_basis_points,
                maximum_fee,
            },
        )),
{
    if let Err(e) = check_program_account(token_program_id) {
        return Err(e);
    }
    let data = encode_instruction_data(
        TransferFeeInstruction::InitializeTransferFeeConfig {
            transfer_fee_config_authority: owned_key(transfer_fee_config_authority),
            withdraw_withheld_authority: owned_key(withdraw_withheld_authority),
            transfer_fee_basis_points,
            maximum_fee,
        },
    );
    let mut accounts: Vec<AccountMeta> = Vec::new();
    accounts.push(AccountMeta::new(*mint, false));
    assert(accounts@ =~= seq![AccountMeta { pubkey: *mint, is_signer: false, is_writable: true }]);
    Ok(Instruction { program_id: *token_program_id, accounts, data })
}

/// Creates a `TransferCheckedWithFee` instruction. The authority signs
/// itself when `signers` is empty; otherwise it is a multisignature account
/// and the signers follow it.
pub fn transfer_checked_with_fee(
    token_program_id: &Pubkey,
    source: &Pubkey,
    mint: &Pubkey,
    destination: &Pubkey,
    authority: &Pubkey,
    signers: &[&Pubkey],
    amount: U256,
    decimals: u8,
    fee: U256,
) -> (r: Result<Instruction, ProgramError>)
    ensures
        *token_program_id != spec_id() ==> r == Err::<Instruction, ProgramError>(
            ProgramError::IncorrectProgramId,
        ),
        *token_program_id == spec_id() ==> (r matches Ok(ix) && ix.program_id == *token_program_id && ix.accounts@ == seq![
            AccountMeta { pubkey: *source, is_signer: false, is_writable: true },
            AccountMeta { pubkey: *mint, is_signer: false, is_writable: false },
            AccountMeta { pubkey: *destination, is_signer: false, is_writable: true },
            AccountMeta {
                pubkey: *authority,
                is_signer: signers@.len() == 0,
                is_writable: false,
            },
        ] + signer_metas(signers@) && ix.data@ == spec_instruction_data(
            TransferFeeInstruction::TransferCheckedWithFee { amount, decimals, fee },
        )),
{
    if let Err(e) = check_program_account(token_program_id) {
        return Err(e);
    }
    let data = encode_instruction_data(
        TransferFeeInstruction::TransferCheckedWithFee { amount, decimals, fee },
    );
    let mut accounts: Vec<AccountMeta> = Vec::new();
    accounts.push(AccountMeta::new(*source, false));
    accounts.push(AccountMeta::new_readonly(*mint, false));
    accounts.push(AccountMeta::new(*destination, false));
    accounts.push(AccountMeta::new_readonly(*authority, signers.len() == 0));
    push_signers(&mut accounts, signers);
    Ok(Instruction { program_id: *token_program_id, accounts, data })
}

/// Creates a `WithdrawWithheldTokensFromMint` instruction.
pub fn withdraw_withheld_tokens_from_mint(
    token_program_id: &Pubkey,
    mint: &Pubkey,
    destination: &Pubkey,
    authority: &Pubkey,
    signers: &[&Pubkey],
) -> (r: Result<Instruction, ProgramError>)
    ensures
        *token_program_id != spec_id() ==> r == Err::<Instruction, ProgramError>(
            ProgramError::IncorrectProgramId,
        ),
        *token_program_id == spec_id() ==> (r matches Ok(ix) && ix.program_id == *token_program_id && ix.accounts@ == seq![
            AccountMeta { pubkey: *mint, is_signer: false, is_writable: true },
            AccountMeta { pubkey: *destination, is_signer: false, is_writable: true },
            AccountMeta {
                pubkey: *authority,
                is_signer: signers@.len() == 0,
                is_writable: false,
            },
        ] + signer_metas(signers@) && ix.data@ == spec_instruction_data(
            TransferFeeInstruction::WithdrawWithheldTokensFromMint,
        )),
{
    if let Err(e) = check_program_account(token_program_id) {
        return Err(e);
    }
    let mut accounts: Vec<AccountMeta> = Vec::new();
    accounts.push(AccountMeta::new(*mint, false));
    accounts.push(AccountMeta::new(*destination, false));
    accounts.push(AccountMeta::new_readonly(*authority, signers.len() == 0));
    push_signers(&mut accounts, signers);
    let data = encode_instruction_data(TransferFeeInstruction::WithdrawWithheldTokensFromMint);
    Ok(Instruction { program_id: *token_program_id, accounts, data })
}

/// Creates a `WithdrawWithheldTokensFromAccounts` instruction. Fails with
/// `InvalidInstructionData` when there are more sources than the 8-bit
/// count can hold.
pub fn withdraw_withheld_tokens_from_accounts(
    token_program_id: &Pubkey,
    mint: &Pubkey,
    destination: &Pubkey,
    authority: &Pubkey,
    signers: &[&Pubkey],
    sources: &[&Pubkey],
) -> (r: Result<Instruction, ProgramError>)
    ensures
        *token_program_id != spec_id() ==> r == Err::<Instruction, ProgramError>(
            ProgramError::IncorrectProgramId,
        ),
        *token_program_id == spec_id() && sources@.len() > u8::MAX ==> r == Err::<
            Instruction,
            ProgramError,
        >(ProgramError::InvalidInstructionData),
        *token_program_id == spec_id() && sources@.len() <= u8::MAX ==> (r matches Ok(ix) && ix.program_id == *token_program_id
            && ix.accounts@ == seq![
            AccountMeta { pubkey: *mint, is_signer: false, is_writable: false },
            AccountMeta { pubkey: *destination, is_signer: false, is_writable: true },
            AccountMeta {
                pubkey: *authority,
                is_signer: signers@.len() == 0,
                is_writable: false,
            },
        ] + signer_metas(signers@) + source_metas(sources@) && ix.data@
            == spec_instruction_data(
            TransferFeeInstruction::WithdrawWithheldTokensFromAccounts {
                num_token_accounts: sources@.len() as u8,
            },
        )),
{
    if let Err(e) = check_program_account(token_program_id) {
        return Err(e);
    }
    if sources.len() > u8::MAX as usize {
        return Err(ProgramError::InvalidInstructionData);
    }
    let num_token_accounts = sources.len() as u8;
    let mut accounts: Vec<AccountMeta> = Vec::new();
    accounts.push(AccountMeta::new_readonly(*mint, false));
    accounts.push(AccountMeta::new(*destination, false));
    accounts.push(AccountMeta::new_readonly(*authority, signers.len() == 0));
    push_signers(&mut accounts, signers);
    push_sources(&mut accounts, sources);
    let data = encode_instruction_data(
        TransferFeeInstruction::WithdrawWithheldTokensFromAccounts { num_token_accounts },
    );
    Ok(Instruction { program_id: *token_program_id, accounts, data })
}

/// Creates a `HarvestWithheldTokensToMint` instruction.
pub fn harvest_withheld_tokens_to_mint(
    token_program_id: &Pubkey,
    mint: &Pubkey,
    sources: &[&Pubkey],
) -> (r: Result<Instruction, ProgramError>)
    ensures
        *token_program_id != spec_id() ==> r == Err::<Instruction, ProgramError>(
            ProgramError::IncorrectProgramId,
        ),
        *token_program_id == spec_id() ==> (r matches Ok(ix) && ix.program_id == *token_program_id && ix.accounts@ == seq![
            AccountMeta { pubkey: *mint, is_signer: false, is_writable: true },
        ] + source_metas(sources@) && ix.data@ == spec_instruction_data(
            TransferFeeInstruction::HarvestWithheldTokensToMint,
        )),
{
    if let Err(e) = check_program_account(token_program_id) {
        return Err(e);
    }
    let mut accounts: Vec<AccountMeta> = Vec::new();
    accounts.push(AccountMeta::new(*mint, false));
    push_sources(&mut accounts, sources);
    let data = encode_instruction_data(TransferFeeInstruction::HarvestWithheldTokensToMint);
    Ok(Instruction { program_id: *token_program_id, accounts, data })
}

/// Creates a `SetTransferFee` instruction.
pub fn set_transfer_fee(
    token_program_id: &Pubkey,
    mint: &Pubkey,
    authority: &Pubkey,
    signers: &[&Pubkey],
    transfer_fee_basis_points: u16,
    maximum_fee: U256,
) -> (r: Result<Instruction, ProgramError>)
    ensures
        *token_program_id != spec_id() ==> r == Err::<Instruction, ProgramError>(
            ProgramError::IncorrectProgramId,
        ),
        *token_program_id == spec_id() ==> (r matches Ok(ix) && ix.program_id == *token_program_id && ix.accounts@ == seq![
            AccountMeta { pubkey: *mint, is_signer: false, is_writable: true },
            AccountMeta {
                pubkey: *authority,
                is_signer: signers@.len() == 0,
                is_writable: false,
            },
        ] + signer_metas(signers@) && ix.data@ == spec_instruction_data(
            TransferFeeInstruction::SetTransferFee { transfer_fee_basis_points, maximum_fee },
        )),
{
    if let Err(e) = check_program_account(token_program_id) {
        return Err(e);
    }
    let mut accounts: Vec<AccountMeta> = Vec::new();
    accounts.push(AccountMeta::new(*mint, false));
    accounts.push(AccountMeta::new_readonly(*authority, signers.len() == 0));
    push_signers(&mut accounts, signers);
    let data = encode_instruction_data(
        TransferFeeInstruction::SetTransferFee { transfer_fee_basis_points, maximum_fee },
    );
    Ok(Instruction { program_id: *token_program_id, accounts, data })
}

} // verus!
