//! Transfer-fee arithmetic and bookkeeping: the fee on a transfer, the fee
//! parameters in force at an epoch, and the withheld fees that accounts
//! collect and that harvests and withdrawals move on.

use crate::amount::{lemma_value_bound, u256_max, U256};
use crate::error::ProgramError;
use crate::pubkey::Pubkey;
use crate::wire::{
    is_storable_key, lemma_concat_split, lemma_stored_fields, pack_stored_key, pack_u16,
    pack_u256, pack_u64, read_stored_key, read_u16, read_u64, spec_stored_key_bytes,
};
use vstd::bytes::*;
use vstd::slice::slice_subrange;
use vstd::arithmetic::div_mod::{
    lemma_fundamental_div_mod, lemma_hoist_over_denominator, lemma_mod_pos_bound,
};
use vstd::prelude::*;

verus! {

/// The largest fee rate: 10,000 basis points, the whole transferred amount.
pub const MAX_FEE_BASIS_POINTS: u16 = 10_000;

/// Byte length of a stored `TransferFeeConfig`.
pub const TRANSFER_FEE_CONFIG_LEN: usize = 180;

/// Byte length of a stored `TransferFeeAmount`.
pub const TRANSFER_FEE_AMOUNT_LEN: usize = 32;

/// `n / d` rounded up, for a positive `d`.
pub open spec fn ceil_div(n: nat, d: nat) -> nat {
    ((n + d - 1) as nat) / d
}

/// The fee on a transfer of `amount`: `basis_points` ten-thousandths of it,
/// rounded up, and at most `maximum_fee`.
pub open spec fn spec_fee(basis_points: u16, maximum_fee: nat, amount: nat) -> nat {
    let raw = ceil_div(amount * (basis_points as nat), MAX_FEE_BASIS_POINTS as nat);
    if raw <= maximum_fee {
        raw
    } else {
        maximum_fee
    }
}

/// Fee parameters, in force from `epoch` on.
#[derive(Clone, Copy, Debug, PartialEq, Eq, Structural)]
pub struct TransferFee {
    /// First epoch in which these parameters apply.
    pub epoch: u64,
    /// Upper bound of the fee on one transfer.
    pub maximum_fee: U256,
    /// Fee per transfer, in basis points of the transferred amount.
    pub transfer_fee_basis_points: u16,
}

impl TransferFee {
    /// The fee these parameters charge on a transfer of `amount`.
    pub open spec fn spec_calculate_fee(self, amount: nat) -> nat {
        spec_fee(self.transfer_fee_basis_points, self.maximum_fee.value(), amount)
    }

    /// The fee on a transfer of `pre_fee_amount`: its basis points rounded
    /// up, capped at `maximum_fee`. Always `Some`: the fee never passes the
    /// cap, which is itself an amount.
    pub fn calculate_fee(&self, pre_fee_amount: U256) -> (r: Option<U256>)
        ensures
            r matches Some(fee) && fee.value() == self.spec_calculate_fee(pre_fee_amount.value()),
    {
        let one = U256::new(MAX_FEE_BASIS_POINTS as u128);
        let basis_points = U256::new(self.transfer_fee_basis_points as u128);
        let ghost b = self.transfer_fee_basis_points as int;
        let ghost a = pre_fee_amount.value() as int;
        // With amount = q * 10000 + m and m < 10000, the raw fee is
        // q * b + ceil(m * b / 10000): the first term needs 256-bit
        // arithmetic, the second fits in 128 bits, and neither rounds twice.
        // The divisor is not zero, and neither q * 10000 nor the remainder
        // can fall out of range, so the early returns below never happen.
        let quotient = match pre_fee_amount.checked_div(one) {
            Some(q) => q,
            None => return None,
        };
        let ghost q = quotient.value() as int;
        proof {
            lemma_fundamental_div_mod(a, 10000);
            lemma_mod_pos_bound(a, 10000);
        }
        let whole = match quotient.checked_mul(one) {
            Some(w) => w,
            None => return None,
        };
        let remainder = match pre_fee_amount.checked_sub(whole) {
            Some(m) => m,
            None => return None,
        };
        let ghost m = remainder.value() as int;
        assert(m == a % 10000);
        assert(remainder.hi == 0) by (nonlinear_arith)
            requires
                remainder.value() < 10000,
                remainder.value() == remainder.hi * 0x1_0000_0000_0000_0000_0000_0000_0000_0000nat
                    + remainder.lo,
        ;
        assert(remainder.lo * (self.transfer_fee_basis_points as u128) <= 10000 * 0x10000)
            by (nonlinear_arith)
            requires
                remainder.lo < 10000,
                self.transfer_fee_basis_points < 0x10000,
        ;
        let low = (remainder.lo * (self.transfer_fee_basis_points as u128) + 9999) / 10000;
        proof {
            lemma_hoist_over_denominator(m * b + 9999, q * b, 10000);
            assert(a * b + 9999 == m * b + 9999 + q * b * 10000) by (nonlinear_arith)
                requires
                    a == 10000 * q + m,
            ;
            lemma_value_bound(self.maximum_fee);
        }
        // A raw fee past the largest amount is also past the cap.
        let raw = match quotient.checked_mul(basis_points) {
            Some(high) => high.checked_add(U256::new(low)),
            None => {
                proof {
                    assert(q * b <= q * b + (m * b + 9999) / 10000) by (nonlinear_arith)
                        requires
                            m >= 0,
                            b >= 0,
                    ;
                }
                None
            },
        };
        match raw {
            Some(raw) => Some(raw.min(self.maximum_fee)),
            None => {
                proof {
                    assert(q * b >= 0) by (nonlinear_arith)
                        requires
                            q >= 0,
                            b >= 0,
                    ;
                }
                Some(self.maximum_fee)
            },
        }
    }

    /// What arrives of a transfer of `pre_fee_amount` once the fee is
    /// withheld; `None` where the fee is larger than the amount.
    pub fn calculate_post_fee_amount(&self, pre_fee_amount: U256) -> (r: Option<U256>)
        ensures
            self.spec_calculate_fee(pre_fee_amount.value()) <= pre_fee_amount.value() ==> (r matches Some(
                post,
            ) && post.value() == pre_fee_amount.value() - self.spec_calculate_fee(
                pre_fee_amount.value(),
            )),
            self.spec_calculate_fee(pre_fee_amount.value()) > pre_fee_amount.value() ==> r is None,
    {
        let fee = self.calculate_fee(pre_fee_amount)?;
        pre_fee_amount.checked_sub(fee)
    }
}

/// Transfer-fee extension data of a mint.
#[derive(Clone, Copy, Debug, PartialEq, Eq)]
pub struct TransferFeeConfig {
    /// Address that may update the fees.
    pub transfer_fee_config_authority: Option<Pubkey>,
    /// Address that must sign withdrawals of withheld fees.
    pub withdraw_withheld_authority: Option<Pubkey>,
    /// Fees withheld in the mint itself, harvested from accounts.
    pub withheld_amount: U256,
    /// Fee parameters in force before `newer_transfer_fee.epoch`.
    pub older_transfer_fee: TransferFee,
    /// Fee parameters in force from their epoch on.
    pub newer_transfer_fee: TransferFee,
}

impl TransferFeeConfig {
    /// The fee parameters in force at `epoch`.
    pub open spec fn spec_epoch_fee(self, epoch: u64) -> TransferFee {
        if epoch >= self.newer_transfer_fee.epoch {
            self.newer_transfer_fee
        } else {
            self.older_transfer_fee
        }
    }

    /// A configuration whose fee applies from `epoch` on, with nothing
    /// withheld. Fails with `TransferFeeExceedsMaximum` above 10,000 basis
    /// points.
    pub fn new(
        transfer_fee_config_authority: Option<Pubkey>,
        withdraw_withheld_authority: Option<Pubkey>,
        transfer_fee_basis_points: u16,
        maximum_fee: U256,
        epoch: u64,
    ) -> (r: Result<Self, ProgramError>)
        ensures
            transfer_fee_basis_points > MAX_FEE_BASIS_POINTS ==> r == Err::<Self, ProgramError>(
                ProgramError::TransferFeeExceedsMaximum,
            ),
            transfer_fee_basis_points <= MAX_FEE_BASIS_POINTS ==> r == Ok::<Self, ProgramError>(
                TransferFeeConfig {
                    transfer_fee_config_authority,
                    withdraw_withheld_authority,
                    withheld_amount: U256 { lo: 0, hi: 0 },
                    older_transfer_fee: TransferFee {
                        epoch,
                        maximum_fee,
                        transfer_fee_basis_points,
                    },
                    newer_transfer_fee: TransferFee {
                        epoch,
                        maximum_fee,
                        transfer_fee_basis_points,
                    },
                },
            ),
    {
        if transfer_fee_basis_points > MAX_FEE_BASIS_POINTS {
            return Err(ProgramError::TransferFeeExceedsMaximum);
        }
        let fee = TransferFee { epoch, maximum_fee, transfer_fee_basis_points };
        Ok(
            TransferFeeConfig {
                transfer_fee_config_authority,
                withdraw_withheld_authority,
                withheld_amount: U256::zero(),
                older_transfer_fee: fee,
                newer_transfer_fee: fee,
            },
        )
    }

    /// The fee parameters in force at `epoch`.
    pub fn get_epoch_fee(&self, epoch: u64) -> (r: &TransferFee)
        ensures
            *r == self.spec_epoch_fee(epoch),
    {
        if epoch >= self.newer_transfer_fee.epoch {
            &self.newer_transfer_fee
        } else {
            &self.older_transfer_fee
        }
    }

    /// The fee at `epoch` on a transfer of `pre_fee_amount`.
    pub fn calculate_epoch_fee(&self, epoch: u64, pre_fee_amount: U256) -> (r: Option<U256>)
        ensures
            r matches Some(fee) && fee.value() == self.spec_epoch_fee(epoch).spec_calculate_fee(
                pre_fee_amount.value(),
            ),
    {
        self.get_epoch_fee(epoch).calculate_fee(pre_fee_amount)
    }

    /// Schedules new fee parameters at `epoch`: they apply from two epochs
    /// later on, and the parameters in force now stay in force until then.
    /// Fails with `TransferFeeExceedsMaximum`, changing nothing, above 10,000
    /// basis points.
    pub fn set_transfer_fee(
        &mut self,
        epoch: u64,
        transfer_fee_basis_points: u16,
        maximum_fee: U256,
    ) -> (r: Result<(), ProgramError>)
        ensures
            transfer_fee_basis_points > MAX_FEE_BASIS_POINTS ==> r == Err::<(), ProgramError>(
                ProgramError::TransferFeeExceedsMaximum,
            ) && *final(self) == *old(self),
            transfer_fee_basis_points <= MAX_FEE_BASIS_POINTS ==> r is Ok && *final(self) == (
            TransferFeeConfig {
                older_transfer_fee: old(self).spec_epoch_fee(epoch),
                newer_transfer_fee: TransferFee {
                    epoch: if epoch <= u64::MAX - 2 {
                        (epoch + 2) as u64
                    } else {
                        u64::MAX
                    },
                    maximum_fee,
                    transfer_fee_basis_points,
                },
                ..*old(self)
            }),
            epoch < u64::MAX - 1 ==> final(self).spec_epoch_fee(epoch) == old(self).spec_epoch_fee(
                epoch,
            ),
            transfer_fee_basis_points <= MAX_FEE_BASIS_POINTS ==> forall|later: u64|
                later >= epoch + 2 ==> (#[trigger] final(self).spec_epoch_fee(later)
                    == TransferFee {
                    epoch: (epoch + 2) as u64,
                    maximum_fee,
                    transfer_fee_basis_points,
                }),
    {
        if transfer_fee_basis_points > MAX_FEE_BASIS_POINTS {
            return Err(ProgramError::TransferFeeExceedsMaximum);
        }
        if self.newer_transfer_fee.epoch <= epoch {
            self.older_transfer_fee = self.newer_transfer_fee;
        }
        self.newer_transfer_fee = TransferFee {
            epoch: epoch.saturating_add(2),
            maximum_fee,
            transfer_fee_basis_points,
        };
        Ok(())
    }
}

/// Transfer-fee extension data of a token account: fees withheld from
/// transfers into it.
#[derive(Clone, Copy, Debug, PartialEq, Eq, Structural)]
pub struct TransferFeeAmount {
    pub withheld_amount: U256,
}

impl TransferFeeAmount {
    /// Adds `fee`, withheld on a transfer into the account. Fails with
    /// `ArithmeticOverflow`, changing nothing, where the sum passes the
    /// largest amount.
    pub fn withhold_fee(&mut self, fee: U256) -> (r: Result<(), ProgramError>)
        ensures
            old(self).withheld_amount.value() + fee.value() <= u256_max() ==> r is Ok
                && final(self).withheld_amount.value() == old(self).withheld_amount.value()
                + fee.value(),
            old(self).withheld_amount.value() + fee.value() > u256_max() ==> r == Err::<
                (),
                ProgramError,
            >(ProgramError::ArithmeticOverflow) && *final(self) == *old(self),
    {
        match self.withheld_amount.checked_add(fee) {
            Some(sum) => {
                self.withheld_amount = sum;
                Ok(())
            },
            None => Err(ProgramError::ArithmeticOverflow),
        }
    }
}

/// What an account slot holds withheld: its amount, or nothing for an
/// account without the extension.
pub open spec fn withheld_of(account: Option<TransferFeeAmount>) -> nat {
    match account {
        Some(a) => a.withheld_amount.value(),
        None => 0,
    }
}

/// The sum of what `accounts` hold withheld.
pub open spec fn total_withheld(accounts: Seq<Option<TransferFeeAmount>>) -> nat
    decreases accounts.len(),
{
    if accounts.len() == 0 {
        0
    } else {
        total_withheld(accounts.drop_last()) + withheld_of(accounts.last())
    }
}

/// An account slot after its withheld fees have been taken: an account with
/// the extension holds zero; one without stays without.
pub open spec fn emptied(account: Option<TransferFeeAmount>) -> Option<TransferFeeAmount> {
    match account {
        Some(_) => Some(TransferFeeAmount { withheld_amount: U256 { lo: 0, hi: 0 } }),
        None => None,
    }
}

/// A prefix holds at most what the whole sequence holds.
pub proof fn lemma_total_withheld_prefix(accounts: Seq<Option<TransferFeeAmount>>, i: int)
    requires
        0 <= i <= accounts.len(),
    ensures
        total_withheld(accounts.subrange(0, i)) <= total_withheld(accounts),
    decreases accounts.len() - i,
{
    if i < accounts.len() {
        lemma_total_withheld_prefix(accounts, i + 1);
        assert(accounts.subrange(0, i + 1).drop_last() =~= accounts.subrange(0, i));
    } else {
        assert(accounts.subrange(0, i) =~= accounts);
    }
}

/// Accounts that have all been emptied hold nothing withheld.
pub proof fn lemma_total_withheld_emptied(accounts: Seq<Option<TransferFeeAmount>>)
    requires
        forall|i: int| 0 <= i < accounts.len() ==> accounts[i] == emptied(accounts[i]),
    ensures
        total_withheld(accounts) == 0,
    decreases accounts.len(),
{
    if accounts.len() > 0 {
        lemma_total_withheld_emptied(accounts.drop_last());
    }
}

/// Takes every withheld fee out of `accounts` and returns `start` plus their
/// total. Fails with `ArithmeticOverflow`, changing nothing, where that sum
/// passes the largest amount.
fn collect_withheld(start: U256, accounts: &mut Vec<Option<TransferFeeAmount>>) -> (r: Result<
    U256,
    ProgramError,
>)
    ensures
        start.value() + total_withheld(old(accounts)@) <= u256_max() ==> (r matches Ok(sum)
            && sum.value() == start.value() + total_withheld(old(accounts)@)
            && final(accounts)@ == old(accounts)@.map_values(|a| emptied(a))),
        start.value() + total_withheld(old(accounts)@) > u256_max() ==> r == Err::<
            U256,
            ProgramError,
        >(ProgramError::ArithmeticOverflow) && final(accounts)@ == old(accounts)@,
{
    let mut sum = start;
    let mut i: usize = 0;
    while i < accounts.len()
        invariant
            i <= accounts@.len(),
            sum.value() == start.value() + total_withheld(accounts@.subrange(0, i as int)),
        decreases accounts@.len() - i,
    {
        proof {
            assert(accounts@.subrange(0, i + 1).drop_last() =~= accounts@.subrange(0, i as int));
        }
        match accounts[i] {
            Some(account) => {
                match sum.checked_add(account.withheld_amount) {
                    Some(s) => {
                        sum = s;
                    },
                    None => {
                        proof {
                            lemma_total_withheld_prefix(accounts@, i + 1);
                        }
                        return Err(ProgramError::ArithmeticOverflow);
                    },
                }
            },
            None => {},
        }
        i = i + 1;
    }
    proof {
        assert(accounts@.subrange(0, i as int) =~= accounts@);
        lemma_value_bound(sum);
    }
    let ghost before = accounts@;
    let mut emptied_accounts: Vec<Option<TransferFeeAmount>> = Vec::new();
    let mut j: usize = 0;
    while j < accounts.len()
        invariant
            j <= accounts@.len(),
            accounts@ == before,
            emptied_accounts@ == before.subrange(0, j as int).map_values(|a| emptied(a)),
        decreases accounts@.len() - j,
    {
        let slot = match accounts[j] {
            Some(_) => Some(TransferFeeAmount { withheld_amount: U256::zero() }),
            None => None,
        };
        emptied_accounts.push(slot);
        j = j + 1;
        assert(emptied_accounts@ =~= before.subrange(0, j as int).map_values(|a| emptied(a)));
    }
    assert(before.subrange(0, j as int) =~= before);
    *accounts = emptied_accounts;
    Ok(sum)
}

/// Harvests withheld fees into the mint: each account with the extension
/// gives up what it holds withheld, accounts without it are skipped, and the
/// mint's withheld amount grows by the total. The sum of what the mint and
/// the accounts hold withheld is kept. Fails with `ArithmeticOverflow`,
/// changing nothing, where the mint's new amount would pass the largest
/// amount.
pub fn harvest_withheld_tokens_to_mint(
    config: &mut TransferFeeConfig,
    accounts: &mut Vec<Option<TransferFeeAmount>>,
) -> (r: Result<(), ProgramError>)
    ensures
        old(config).withheld_amount.value() + total_withheld(old(accounts)@) <= u256_max() ==> (
        r is Ok && final(config).withheld_amount.value() == old(config).withheld_amount.value()
            + total_withheld(old(accounts)@) && *final(config) == (TransferFeeConfig {
            withheld_amount: final(config).withheld_amount,
            ..*old(config)
        }) && final(accounts)@ == old(accounts)@.map_values(|a| emptied(a))
            && final(config).withheld_amount.value() + total_withheld(final(accounts)@)
            == old(config).withheld_amount.value() + total_withheld(old(accounts)@)),
        old(config).withheld_amount.value() + total_withheld(old(accounts)@) > u256_max() ==> r
            == Err::<(), ProgramError>(ProgramError::ArithmeticOverflow) && *final(config)
            == *old(config) && final(accounts)@ == old(accounts)@,
{
    let sum = collect_withheld(config.withheld_amount, accounts)?;
    config.withheld_amount = sum;
    proof {
        lemma_total_withheld_emptied(accounts@);
    }
    Ok(())
}

/// Withdraws the fees withheld in the mint into `destination_amount`, the
/// balance of the receiving account, leaving the mint with none. Fails with
/// `ArithmeticOverflow`, changing nothing, where the balance would pass the
/// largest amount.
pub fn withdraw_withheld_tokens_from_mint(
    config: &mut TransferFeeConfig,
    destination_amount: &mut U256,
) -> (r: Result<(), ProgramError>)
    ensures
        old(destination_amount).value() + old(config).withheld_amount.value() <= u256_max() ==> (
        r is Ok && final(destination_amount).value() == old(destination_amount).value() + old(config).withheld_amount.value() && *final(config) == (TransferFeeConfig {
            withheld_amount: U256 { lo: 0, hi: 0 },
            ..*old(config)
        })),
        old(destination_amount).value() + old(config).withheld_amount.value() > u256_max() ==> r
            == Err::<(), ProgramError>(ProgramError::ArithmeticOverflow) && *final(config)
            == *old(config) && *final(destination_amount) == *old(destination_amount),
{
    match destination_amount.checked_add(config.withheld_amount) {
        Some(sum) => {
            *destination_amount = sum;
            config.withheld_amount = U256::zero();
            Ok(())
        },
        None => Err(ProgramError::ArithmeticOverflow),
    }
}

/// Withdraws the fees withheld in `accounts` into `destination_amount`, the
/// balance of the receiving account; accounts without the extension are
/// skipped. Fails with `ArithmeticOverflow`, changing nothing, where the
/// balance would pass the largest amount.
pub fn withdraw_withheld_tokens_from_accounts(
    destination_amount: &mut U256,
    accounts: &mut Vec<Option<TransferFeeAmount>>,
) -> (r: Result<(), ProgramError>)
    ensures
        old(destination_amount).value() + total_withheld(old(accounts)@) <= u256_max() ==> (r is Ok
            && final(destination_amount).value() == old(destination_amount).value()
            + total_withheld(old(accounts)@) && final(accounts)@ == old(accounts)@.map_values(
            |a| emptied(a),
        )),
        old(destination_amount).value() + total_withheld(old(accounts)@) > u256_max() ==> r
            == Err::<(), ProgramError>(ProgramError::ArithmeticOverflow) && *final(destination_amount) == *old(destination_amount) && final(accounts)@ == old(accounts)@,
{
    let sum = collect_withheld(*destination_amount, accounts)?;
    *destination_amount = sum;
    Ok(())
}

impl TransferFee {
    /// The stored form: epoch, maximum fee, basis points, little-endian.
    pub open spec fn spec_to_bytes(self) -> Seq<u8> {
        spec_u64_to_le_bytes(self.epoch) + self.maximum_fee.spec_le_bytes()
            + spec_u16_to_le_bytes(self.transfer_fee_basis_points)
    }

    fn pack_into(&self, buffer: &mut Vec<u8>)
        ensures
            final(buffer)@ == old(buffer)@ + self.spec_to_bytes(),
    {
        pack_u64(self.epoch, buffer);
        pack_u256(&self.maximum_fee, buffer);
        pack_u16(self.transfer_fee_basis_points, buffer);
        assert(buffer@ =~= old(buffer)@ + self.spec_to_bytes());
    }

    fn read(bytes: &[u8]) -> (r: TransferFee)
        requires
            bytes@.len() == 42,
        ensures
            r.spec_to_bytes() == bytes@,
    {
        proof {
            lemma_stored_fields();
        }
        let r = TransferFee {
            epoch: read_u64(slice_subrange(bytes, 0, 8)),
            maximum_fee: U256::from_le_bytes(slice_subrange(bytes, 8, 40)),
            transfer_fee_basis_points: read_u16(slice_subrange(bytes, 40, 42)),
        };
        assert(r.spec_to_bytes() =~= bytes@);
        r
    }
}

/// Two fee parameter sets with the same stored form are equal.
pub proof fn lemma_fee_bytes_unique(a: TransferFee, b: TransferFee)
    requires
        a.spec_to_bytes() == b.spec_to_bytes(),
    ensures
        a == b,
{
    lemma_stored_fields();
    lemma_concat_split(
        spec_u64_to_le_bytes(a.epoch) + a.maximum_fee.spec_le_bytes(),
        spec_u16_to_le_bytes(a.transfer_fee_basis_points),
        spec_u64_to_le_bytes(b.epoch) + b.maximum_fee.spec_le_bytes(),
        spec_u16_to_le_bytes(b.transfer_fee_basis_points),
    );
    lemma_concat_split(
        spec_u64_to_le_bytes(a.epoch),
        a.maximum_fee.spec_le_bytes(),
        spec_u64_to_le_bytes(b.epoch),
        b.maximum_fee.spec_le_bytes(),
    );
}

impl TransferFeeConfig {
    /// Whether the configuration can be stored: present authorities are not
    /// the all-zero address, which the stored form uses for none.
    pub open spec fn is_storable(self) -> bool {
        is_storable_key(self.transfer_fee_config_authority) && is_storable_key(
            self.withdraw_withheld_authority,
        )
    }

    /// The stored form: both authorities (zeros for none), the withheld
    /// amount, then the older and the newer fee parameters.
    pub open spec fn spec_to_bytes(self) -> Seq<u8> {
        spec_stored_key_bytes(self.transfer_fee_config_authority) + spec_stored_key_bytes(
            self.withdraw_withheld_authority,
        ) + self.withheld_amount.spec_le_bytes() + self.older_transfer_fee.spec_to_bytes()
            + self.newer_transfer_fee.spec_to_bytes()
    }

    /// The stored form of the configuration.
    pub fn to_bytes(&self) -> (r: Vec<u8>)
        ensures
            r@ == self.spec_to_bytes(),
    {
        let mut r: Vec<u8> = Vec::new();
        pack_stored_key(&self.transfer_fee_config_authority, &mut r);
        pack_stored_key(&self.withdraw_withheld_authority, &mut r);
        pack_u256(&self.withheld_amount, &mut r);
        self.older_transfer_fee.pack_into(&mut r);
        self.newer_transfer_fee.pack_into(&mut r);
        assert(r@ =~= self.spec_to_bytes());
        r
    }

    /// Reads a stored configuration. Any 180 bytes hold one; other lengths
    /// fail with `InvalidAccountData`.
    pub fn from_bytes(bytes: &[u8]) -> (r: Result<Self, ProgramError>)
        ensures
            bytes@.len() != TRANSFER_FEE_CONFIG_LEN ==> r == Err::<Self, ProgramError>(
                ProgramError::InvalidAccountData,
            ),
            bytes@.len() == TRANSFER_FEE_CONFIG_LEN ==> r is Ok,
            r matches Ok(c) ==> c.is_storable() && c.spec_to_bytes() == bytes@,
            forall|c: Self|
                c.is_storable() && #[trigger] c.spec_to_bytes() == bytes@ ==> r == Ok::<
                    Self,
                    ProgramError,
                >(c),
    {
        proof {
            lemma_stored_fields();
        }
        if bytes.len() != TRANSFER_FEE_CONFIG_LEN {
            return Err(ProgramError::InvalidAccountData);
        }
        let c = TransferFeeConfig {
            transfer_fee_config_authority: read_stored_key(slice_subrange(bytes, 0, 32)),
            withdraw_withheld_authority: read_stored_key(slice_subrange(bytes, 32, 64)),
            withheld_amount: U256::from_le_bytes(slice_subrange(bytes, 64, 96)),
            older_transfer_fee: TransferFee::read(slice_subrange(bytes, 96, 138)),
            newer_transfer_fee: TransferFee::read(slice_subrange(bytes, 138, 180)),
        };
        assert(c.spec_to_bytes() =~= bytes@);
        proof {
            assert forall|d: Self| d.is_storable() && #[trigger] d.spec_to_bytes() == bytes@ implies d
                == c by {
                lemma_fee_config_bytes_unique(c, d);
            }
        }
        Ok(c)
    }
}

/// Two storable configurations with the same stored form are equal.
pub proof fn lemma_fee_config_bytes_unique(c: TransferFeeConfig, d: TransferFeeConfig)
    requires
        c.is_storable(),
        d.is_storable(),
        c.spec_to_bytes() == d.spec_to_bytes(),
    ensures
        c == d,
{
    lemma_stored_fields();
    assert forall|f: TransferFee| #[trigger] f.spec_to_bytes().len() == 42 by {}
    let c1 = spec_stored_key_bytes(c.transfer_fee_config_authority);
    let d1 = spec_stored_key_bytes(d.transfer_fee_config_authority);
    let c2 = c1 + spec_stored_key_bytes(c.withdraw_withheld_authority);
    let d2 = d1 + spec_stored_key_bytes(d.withdraw_withheld_authority);
    let c3 = c2 + c.withheld_amount.spec_le_bytes();
    let d3 = d2 + d.withheld_amount.spec_le_bytes();
    let c4 = c3 + c.older_transfer_fee.spec_to_bytes();
    let d4 = d3 + d.older_transfer_fee.spec_to_bytes();
    lemma_concat_split(
        c4,
        c.newer_transfer_fee.spec_to_bytes(),
        d4,
        d.newer_transfer_fee.spec_to_bytes(),
    );
    lemma_concat_split(
        c3,
        c.older_transfer_fee.spec_to_bytes(),
        d3,
        d.older_transfer_fee.spec_to_bytes(),
    );
    lemma_concat_split(c2, c.withheld_amount.spec_le_bytes(), d2, d.withheld_amount.spec_le_bytes());
    lemma_concat_split(
        c1,
        spec_stored_key_bytes(c.withdraw_withheld_authority),
        d1,
        spec_stored_key_bytes(d.withdraw_withheld_authority),
    );
    lemma_fee_bytes_unique(c.older_transfer_fee, d.older_transfer_fee);
    lemma_fee_bytes_unique(c.newer_transfer_fee, d.newer_transfer_fee);
}

impl TransferFeeAmount {
    /// The stored form: the withheld amount, little-endian.
    pub open spec fn spec_to_bytes(self) -> Seq<u8> {
        self.withheld_amount.spec_le_bytes()
    }

    /// The stored form of the account's withheld amount.
    pub fn to_bytes(&self) -> (r: Vec<u8>)
        ensures
            r@ == self.spec_to_bytes(),
    {
        self.withheld_amount.to_le_bytes()
    }

    /// Reads a stored withheld amount. Any 32 bytes hold one; other lengths
    /// fail with `InvalidAccountData`.
    pub fn from_bytes(bytes: &[u8]) -> (r: Result<Self, ProgramError>)
        ensures
            bytes@.len() != TRANSFER_FEE_AMOUNT_LEN ==> r == Err::<Self, ProgramError>(
                ProgramError::InvalidAccountData,
            ),
            bytes@.len() == TRANSFER_FEE_AMOUNT_LEN ==> r is Ok,
            r matches Ok(a) ==> a.spec_to_bytes() == bytes@,
            forall|a: Self|
                #[trigger] a.spec_to_bytes() == bytes@ ==> r == Ok::<Self, ProgramError>(a),
    {
        proof {
            lemma_stored_fields();
        }
        if bytes.len() != TRANSFER_FEE_AMOUNT_LEN {
            return Err(ProgramError::InvalidAccountData);
        }
        Ok(TransferFeeAmount { withheld_amount: U256::from_le_bytes(bytes) })
    }
}

} // verus!
