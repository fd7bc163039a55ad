use token_extensions::interest_bearing::{InterestBearingConfig, INTEREST_BEARING_CONFIG_LEN};
use token_extensions::transfer_fee::{
    TransferFee, TransferFeeAmount, TransferFeeConfig, TRANSFER_FEE_AMOUNT_LEN,
    TRANSFER_FEE_CONFIG_LEN,
};
use token_extensions::{ProgramError, Pubkey, U256};

#[test]
fn interest_config_layout_is_exact() {
    let c = InterestBearingConfig {
        rate_authority: Some(Pubkey::new_from_array([9u8; 32])),
        initialization_timestamp: 1,
        pre_update_average_rate: -2,
        last_update_timestamp: -3,
        current_rate: 500,
    };
    let bytes = c.to_bytes();
    assert_eq!(bytes.len(), INTEREST_BEARING_CONFIG_LEN);
    let mut expect = vec![9u8; 32];
    expect.extend_from_slice(&1i64.to_le_bytes());
    expect.extend_from_slice(&(-2i16).to_le_bytes());
    expect.extend_from_slice(&(-3i64).to_le_bytes());
    expect.extend_from_slice(&500i16.to_le_bytes());
    assert_eq!(bytes, expect);
    assert_eq!(InterestBearingConfig::from_bytes(&bytes), Ok(c));
}

#[test]
fn interest_config_absent_authority_is_zeros() {
    let c = InterestBearingConfig::new(None, i16::MIN, i64::MIN);
    let bytes = c.to_bytes();
    assert_eq!(&bytes[..32], &[0u8; 32][..]);
    assert_eq!(InterestBearingConfig::from_bytes(&bytes), Ok(c));
    // the all-zero address cannot be told from none once stored
    let zero = InterestBearingConfig { rate_authority: Some(Pubkey::new_from_array([0u8; 32])), ..c };
    assert_eq!(InterestBearingConfig::from_bytes(&zero.to_bytes()), Ok(c));
}

#[test]
fn stored_layouts_reject_wrong_lengths() {
    assert_eq!(InterestBearingConfig::from_bytes(&[0u8; 51]), Err(ProgramError::InvalidAccountData));
    assert_eq!(InterestBearingConfig::from_bytes(&[0u8; 53]), Err(ProgramError::InvalidAccountData));
    assert_eq!(TransferFeeConfig::from_bytes(&[0u8; 179]), Err(ProgramError::InvalidAccountData));
    assert_eq!(TransferFeeAmount::from_bytes(&[]), Err(ProgramError::InvalidAccountData));
}

#[test]
fn transfer_fee_config_layout_round_trips() {
    let c = TransferFeeConfig {
        transfer_fee_config_authority: None,
        withdraw_withheld_authority: Some(Pubkey::new_from_array([4u8; 32])),
        withheld_amount: U256::from_words(7, 8),
        older_transfer_fee: TransferFee {
            epoch: 1,
            maximum_fee: U256::new(100),
            transfer_fee_basis_points: 10,
        },
        newer_transfer_fee: TransferFee {
            epoch: u64::MAX,
            maximum_fee: U256::max_value(),
            transfer_fee_basis_points: 10_000,
        },
    };
    let bytes = c.to_bytes();
    assert_eq!(bytes.len(), TRANSFER_FEE_CONFIG_LEN);
    assert_eq!(&bytes[32..64], &[4u8; 32][..]);
    assert_eq!(&bytes[64..96], &U256::from_words(7, 8).to_le_bytes()[..]);
    assert_eq!(&bytes[96..104], &1u64.to_le_bytes()[..]);
    assert_eq!(&bytes[136..138], &10u16.to_le_bytes()[..]);
    assert_eq!(&bytes[178..180], &10_000u16.to_le_bytes()[..]);
    assert_eq!(TransferFeeConfig::from_bytes(&bytes), Ok(c));
}

#[test]
fn transfer_fee_amount_layout_round_trips() {
    let a = TransferFeeAmount { withheld_amount: U256::new(258) };
    let bytes = a.to_bytes();
    assert_eq!(bytes.len(), TRANSFER_FEE_AMOUNT_LEN);
    assert_eq!(&bytes[..3], &[2u8, 1, 0][..]);
    assert_eq!(TransferFeeAmount::from_bytes(&bytes), Ok(a));
}
