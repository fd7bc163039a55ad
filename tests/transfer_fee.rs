use token_extensions::transfer_fee::{
    harvest_withheld_tokens_to_mint, withdraw_withheld_tokens_from_accounts,
    withdraw_withheld_tokens_from_mint, TransferFee, TransferFeeAmount, TransferFeeConfig,
    MAX_FEE_BASIS_POINTS,
};
use token_extensions::{ProgramError, U256};

fn fee(bps: u16, max: u128) -> TransferFee {
    TransferFee { epoch: 0, maximum_fee: U256::new(max), transfer_fee_basis_points: bps }
}

fn held(v: u128) -> Option<TransferFeeAmount> {
    Some(TransferFeeAmount { withheld_amount: U256::new(v) })
}

#[test]
fn fee_rounds_up() {
    // 1% of 1050 is 10.5
    assert_eq!(fee(100, 1_000).calculate_fee(U256::new(1050)), Some(U256::new(11)));
    // 1% of 1000 is exactly 10
    assert_eq!(fee(100, 1_000).calculate_fee(U256::new(1000)), Some(U256::new(10)));
    // 0.01% of 1 still costs 1
    assert_eq!(fee(1, 1_000).calculate_fee(U256::new(1)), Some(U256::new(1)));
}

#[test]
fn fee_is_capped() {
    assert_eq!(fee(100, 5).calculate_fee(U256::new(1050)), Some(U256::new(5)));
    assert_eq!(fee(10_000, 0).calculate_fee(U256::new(1050)), Some(U256::new(0)));
}

#[test]
fn fee_of_zero_rate_or_zero_amount_is_zero() {
    assert_eq!(fee(0, 1_000).calculate_fee(U256::new(1050)), Some(U256::zero()));
    assert_eq!(fee(500, 1_000).calculate_fee(U256::zero()), Some(U256::zero()));
}

#[test]
fn fee_on_largest_amount_does_not_overflow() {
    let f = TransferFee {
        epoch: 0,
        maximum_fee: U256::max_value(),
        transfer_fee_basis_points: MAX_FEE_BASIS_POINTS,
    };
    assert_eq!(f.calculate_fee(U256::max_value()), Some(U256::max_value()));
    let f = TransferFee {
        epoch: 0,
        maximum_fee: U256::max_value(),
        transfer_fee_basis_points: u16::MAX,
    };
    assert_eq!(f.calculate_fee(U256::max_value()), Some(U256::max_value()));
    let f = TransferFee {
        epoch: 0,
        maximum_fee: U256::max_value(),
        transfer_fee_basis_points: 5_000,
    };
    // half of 2^256 - 1, rounded up, is 2^255
    assert_eq!(f.calculate_fee(U256::max_value()), Some(U256::from_words(1 << 127, 0)));
}

#[test]
fn post_fee_amount() {
    assert_eq!(fee(100, 1_000).calculate_post_fee_amount(U256::new(1050)), Some(U256::new(1039)));
    // a rate above the whole amount takes more than was sent
    assert_eq!(fee(20_000, 1_000).calculate_post_fee_amount(U256::new(10)), None);
}

#[test]
fn config_rejects_rate_above_maximum() {
    assert_eq!(
        TransferFeeConfig::new(None, None, 10_001, U256::new(1), 0),
        Err(ProgramError::TransferFeeExceedsMaximum)
    );
    let mut c = TransferFeeConfig::new(None, None, 10, U256::new(1), 0).unwrap();
    let before = c;
    assert_eq!(c.set_transfer_fee(3, 10_001, U256::new(1)), Err(ProgramError::TransferFeeExceedsMaximum));
    assert_eq!(c, before);
}

#[test]
fn new_fee_applies_two_epochs_later() {
    let mut c = TransferFeeConfig::new(None, None, 10, U256::new(100), 5).unwrap();
    assert_eq!(c.withheld_amount, U256::zero());
    assert_eq!(c.get_epoch_fee(5).transfer_fee_basis_points, 10);
    assert_eq!(c.set_transfer_fee(7, 20, U256::new(200)), Ok(()));
    assert_eq!(c.get_epoch_fee(7).transfer_fee_basis_points, 10);
    assert_eq!(c.get_epoch_fee(8).transfer_fee_basis_points, 10);
    assert_eq!(*c.get_epoch_fee(9), TransferFee {
        epoch: 9,
        maximum_fee: U256::new(200),
        transfer_fee_basis_points: 20,
    });
    assert_eq!(c.older_transfer_fee.transfer_fee_basis_points, 10);
    // 0.2% of 10_000 is 20
    assert_eq!(c.calculate_epoch_fee(9, U256::new(10_000)), Some(U256::new(20)));
    assert_eq!(c.calculate_epoch_fee(8, U256::new(10_000)), Some(U256::new(10)));
    // a second change before the first applied replaces it
    assert_eq!(c.set_transfer_fee(8, 30, U256::new(300)), Ok(()));
    assert_eq!(c.get_epoch_fee(9).transfer_fee_basis_points, 10);
    assert_eq!(c.get_epoch_fee(10).transfer_fee_basis_points, 30);
    // once the newer fee applies, it becomes the older one
    assert_eq!(c.set_transfer_fee(11, 40, U256::new(400)), Ok(()));
    assert_eq!(c.get_epoch_fee(11).transfer_fee_basis_points, 30);
    assert_eq!(c.get_epoch_fee(13).transfer_fee_basis_points, 40);
}

#[test]
fn withhold_accumulates_and_rejects_overflow() {
    let mut a = TransferFeeAmount { withheld_amount: U256::new(5) };
    assert_eq!(a.withhold_fee(U256::new(7)), Ok(()));
    assert_eq!(a.withheld_amount, U256::new(12));
    let mut full = TransferFeeAmount { withheld_amount: U256::max_value() };
    assert_eq!(full.withhold_fee(U256::new(1)), Err(ProgramError::ArithmeticOverflow));
    assert_eq!(full.withheld_amount, U256::max_value());
}

#[test]
fn harvest_moves_withheld_into_mint_and_skips_plain_accounts() {
    let mut c = TransferFeeConfig::new(None, None, 10, U256::new(100), 0).unwrap();
    c.withheld_amount = U256::new(1);
    let mut accounts = vec![held(3), None, held(0), held(40)];
    assert_eq!(harvest_withheld_tokens_to_mint(&mut c, &mut accounts), Ok(()));
    assert_eq!(c.withheld_amount, U256::new(44));
    assert_eq!(accounts, vec![held(0), None, held(0), held(0)]);
}

#[test]
fn harvest_overflow_changes_nothing() {
    let mut c = TransferFeeConfig::new(None, None, 10, U256::new(100), 0).unwrap();
    c.withheld_amount = U256::max_value();
    let mut accounts = vec![held(0), held(1)];
    let before = c;
    assert_eq!(harvest_withheld_tokens_to_mint(&mut c, &mut accounts), Err(ProgramError::ArithmeticOverflow));
    assert_eq!(c, before);
    assert_eq!(accounts, vec![held(0), held(1)]);
}

#[test]
fn withdraw_from_mint_empties_mint() {
    let mut c = TransferFeeConfig::new(None, None, 10, U256::new(100), 0).unwrap();
    c.withheld_amount = U256::new(30);
    let mut balance = U256::new(12);
    assert_eq!(withdraw_withheld_tokens_from_mint(&mut c, &mut balance), Ok(()));
    assert_eq!(balance, U256::new(42));
    assert_eq!(c.withheld_amount, U256::zero());
    c.withheld_amount = U256::new(1);
    let mut full = U256::max_value();
    assert_eq!(withdraw_withheld_tokens_from_mint(&mut c, &mut full), Err(ProgramError::ArithmeticOverflow));
    assert_eq!(c.withheld_amount, U256::new(1));
}

#[test]
fn withdraw_from_accounts_empties_accounts() {
    let mut balance = U256::new(2);
    let mut accounts = vec![held(5), None, held(6)];
    assert_eq!(withdraw_withheld_tokens_from_accounts(&mut balance, &mut accounts), Ok(()));
    assert_eq!(balance, U256::new(13));
    assert_eq!(accounts, vec![held(0), None, held(0)]);
    let mut empty: Vec<Option<TransferFeeAmount>> = vec![];
    assert_eq!(withdraw_withheld_tokens_from_accounts(&mut balance, &mut empty), Ok(()));
    assert_eq!(balance, U256::new(13));
}

#[test]
fn amount_comparisons() {
    assert!(U256::new(3).is_at_most(&U256::new(3)));
    assert!(U256::new(3).is_at_most(&U256::from_words(1, 0)));
    assert!(!U256::from_words(1, 0).is_at_most(&U256::new(u128::MAX)));
    assert_eq!(U256::from_words(2, 0).min(U256::from_words(1, 9)), U256::from_words(1, 9));
}
