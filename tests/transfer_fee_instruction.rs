use token_extensions::instruction::{check_program_account, id, AccountMeta, TRANSFER_FEE_EXTENSION_TAG};
use token_extensions::transfer_fee_instruction::{
    harvest_withheld_tokens_to_mint, initialize_transfer_fee_config, set_transfer_fee,
    transfer_checked_with_fee, withdraw_withheld_tokens_from_accounts,
    withdraw_withheld_tokens_from_mint, TransferFeeInstruction,
};
use token_extensions::{ProgramError, Pubkey, U256};

fn key(b: u8) -> Pubkey {
    Pubkey::new_from_array([b; 32])
}

#[test]
fn test_instruction_packing() {
    let check = TransferFeeInstruction::InitializeTransferFeeConfig {
        transfer_fee_config_authority: Some(Pubkey::new_from_array([11u8; 32])),
        withdraw_withheld_authority: None,
        transfer_fee_basis_points: 111,
        maximum_fee: U256::max_value(),
    };
    let mut packed = vec![];
    check.pack(&mut packed);
    let mut expect = vec![0, 1];
    expect.extend_from_slice(&[11u8; 32]);
    expect.extend_from_slice(&[0]);
    expect.extend_from_slice(&111u16.to_le_bytes());
    expect.extend_from_slice(&U256::max_value().to_le_bytes());
    assert_eq!(packed, expect);
    let unpacked = TransferFeeInstruction::unpack(&expect).unwrap();
    assert_eq!(unpacked, check);

    let check = TransferFeeInstruction::TransferCheckedWithFee {
        amount: U256::from(24_u64),
        decimals: 24,
        fee: U256::from(23_u64),
    };
    let mut packed = vec![];
    check.pack(&mut packed);
    let mut expect = vec![1];
    expect.extend_from_slice(&U256::new(24).to_le_bytes());
    expect.extend_from_slice(&[24u8]);
    expect.extend_from_slice(&U256::new(23).to_le_bytes());
    assert_eq!(packed, expect);
    let unpacked = TransferFeeInstruction::unpack(&expect).unwrap();
    assert_eq!(unpacked, check);

    let check = TransferFeeInstruction::WithdrawWithheldTokensFromMint;
    let mut packed = vec![];
    check.pack(&mut packed);
    let expect = [2];
    assert_eq!(packed, expect);
    let unpacked = TransferFeeInstruction::unpack(&expect).unwrap();
    assert_eq!(unpacked, check);

    let num_token_accounts = 255;
    let check = TransferFeeInstruction::WithdrawWithheldTokensFromAccounts { num_token_accounts };
    let mut packed = vec![];
    check.pack(&mut packed);
    let expect = [3, num_token_accounts];
    assert_eq!(packed, expect);
    let unpacked = TransferFeeInstruction::unpack(&expect).unwrap();
    assert_eq!(unpacked, check);

    let check = TransferFeeInstruction::HarvestWithheldTokensToMint;
    let mut packed = vec![];
    check.pack(&mut packed);
    let expect = [4];
    assert_eq!(packed, expect);
    let unpacked = TransferFeeInstruction::unpack(&expect).unwrap();
    assert_eq!(unpacked, check);

    let check = TransferFeeInstruction::SetTransferFee {
        transfer_fee_basis_points: u16::MAX,
        maximum_fee: U256::max_value(),
    };
    let mut packed = vec![];
    check.pack(&mut packed);
    let mut expect = vec![5];
    expect.extend_from_slice(&u16::MAX.to_le_bytes());
    expect.extend_from_slice(&U256::max_value().to_le_bytes());
    assert_eq!(packed, expect);
    let unpacked = TransferFeeInstruction::unpack(&expect).unwrap();
    assert_eq!(unpacked, check);
}

#[test]
fn initialize_config_packs_to_exact_bytes() {
    let check = TransferFeeInstruction::InitializeTransferFeeConfig {
        transfer_fee_config_authority: Some(key(7)),
        withdraw_withheld_authority: None,
        transfer_fee_basis_points: 111,
        maximum_fee: U256::max_value(),
    };
    let mut packed = vec![];
    check.pack(&mut packed);
    assert_eq!(packed.len(), 1 + 33 + 1 + 2 + 32);
    assert_eq!(packed[0], 0);
    assert_eq!(packed[1], 1);
    assert_eq!(&packed[2..34], &[7u8; 32][..]);
    assert_eq!(packed[34], 0);
    assert_eq!(&packed[35..37], &[111u8, 0u8][..]);
    assert_eq!(&packed[37..], &[255u8; 32][..]);
}

#[test]
fn withdraw_from_accounts_packs_to_two_bytes() {
    let mut packed = vec![];
    TransferFeeInstruction::WithdrawWithheldTokensFromAccounts { num_token_accounts: 255 }
        .pack(&mut packed);
    assert_eq!(packed, vec![3, 255]);
}

#[test]
fn pack_appends_to_existing_buffer() {
    let mut packed = vec![9, 9];
    TransferFeeInstruction::HarvestWithheldTokensToMint.pack(&mut packed);
    assert_eq!(packed, vec![9, 9, 4]);
}

#[test]
fn amount_bytes_are_little_endian() {
    let a = U256::from_words(1, 2);
    let bytes = a.to_le_bytes();
    assert_eq!(bytes.len(), 32);
    assert_eq!(bytes[0], 2);
    assert_eq!(bytes[16], 1);
    assert_eq!(U256::from_le_bytes(&bytes), a);
    assert_eq!(a.into_words(), (1, 2));
}

#[test]
fn round_trip_every_variant() {
    let all = [
        TransferFeeInstruction::InitializeTransferFeeConfig {
            transfer_fee_config_authority: None,
            withdraw_withheld_authority: Some(key(3)),
            transfer_fee_basis_points: 0,
            maximum_fee: U256::zero(),
        },
        TransferFeeInstruction::InitializeTransferFeeConfig {
            transfer_fee_config_authority: Some(key(0)),
            withdraw_withheld_authority: Some(key(255)),
            transfer_fee_basis_points: 10_000,
            maximum_fee: U256::from_words(5, 6),
        },
        TransferFeeInstruction::TransferCheckedWithFee {
            amount: U256::max_value(),
            decimals: 0,
            fee: U256::new(u128::MAX),
        },
        TransferFeeInstruction::WithdrawWithheldTokensFromMint,
        TransferFeeInstruction::WithdrawWithheldTokensFromAccounts { num_token_accounts: 0 },
        TransferFeeInstruction::HarvestWithheldTokensToMint,
        TransferFeeInstruction::SetTransferFee {
            transfer_fee_basis_points: 1,
            maximum_fee: U256::from(1_u64),
        },
    ];
    for check in all {
        let mut packed = vec![];
        check.pack(&mut packed);
        assert_eq!(TransferFeeInstruction::unpack(&packed), Ok(check));
        packed.push(42);
        assert_eq!(TransferFeeInstruction::unpack(&packed), Ok(check));
    }
}

#[test]
fn unpack_rejects_empty_and_unknown_tags() {
    assert_eq!(TransferFeeInstruction::unpack(&[]), Err(ProgramError::InvalidInstruction));
    assert_eq!(TransferFeeInstruction::unpack(&[6]), Err(ProgramError::InvalidInstruction));
    assert_eq!(TransferFeeInstruction::unpack(&[255, 0]), Err(ProgramError::InvalidInstruction));
}

#[test]
fn unpack_rejects_truncated_input() {
    let mut packed = vec![];
    TransferFeeInstruction::InitializeTransferFeeConfig {
        transfer_fee_config_authority: Some(key(1)),
        withdraw_withheld_authority: Some(key(2)),
        transfer_fee_basis_points: 5,
        maximum_fee: U256::new(9),
    }
    .pack(&mut packed);
    for len in 0..packed.len() {
        assert_eq!(
            TransferFeeInstruction::unpack(&packed[..len]),
            Err(ProgramError::InvalidInstruction)
        );
    }
    assert_eq!(TransferFeeInstruction::unpack(&[3]), Err(ProgramError::InvalidInstruction));
    assert_eq!(TransferFeeInstruction::unpack(&[5, 1]), Err(ProgramError::InvalidInstruction));
    assert_eq!(TransferFeeInstruction::unpack(&[1; 33]), Err(ProgramError::InvalidInstruction));
    assert_eq!(TransferFeeInstruction::unpack(&[0, 2]), Err(ProgramError::InvalidInstruction));
}

#[test]
fn builders_order_accounts_and_prefix_data() {
    let program = id();
    let mint = key(2);
    let authority = key(3);
    let s1 = key(4);
    let s2 = key(5);
    let src = key(6);
    let dst = key(7);

    let ix = initialize_transfer_fee_config(&program, &mint, Some(&authority), None, 50, U256::new(10))
        .unwrap();
    assert_eq!(ix.program_id, program);
    assert_eq!(ix.accounts, vec![AccountMeta::new(mint, false)]);
    assert_eq!(ix.data[0], TRANSFER_FEE_EXTENSION_TAG);
    assert_eq!(ix.data[0], 26);
    assert_eq!(
        TransferFeeInstruction::unpack(&ix.data[1..]),
        Ok(TransferFeeInstruction::InitializeTransferFeeConfig {
            transfer_fee_config_authority: Some(authority),
            withdraw_withheld_authority: None,
            transfer_fee_basis_points: 50,
            maximum_fee: U256::new(10),
        })
    );

    let ix = transfer_checked_with_fee(
        &program, &src, &mint, &dst, &authority, &[], U256::new(100), 2, U256::new(1),
    )
    .unwrap();
    assert_eq!(
        ix.accounts,
        vec![
            AccountMeta::new(src, false),
            AccountMeta::new_readonly(mint, false),
            AccountMeta::new(dst, false),
            AccountMeta::new_readonly(authority, true),
        ]
    );

    let ix = transfer_checked_with_fee(
        &program, &src, &mint, &dst, &authority, &[&s1, &s2], U256::new(100), 2, U256::new(1),
    )
    .unwrap();
    assert_eq!(ix.accounts.len(), 6);
    assert_eq!(ix.accounts[3], AccountMeta::new_readonly(authority, false));
    assert_eq!(ix.accounts[4], AccountMeta::new_readonly(s1, true));
    assert_eq!(ix.accounts[5], AccountMeta::new_readonly(s2, true));

    let ix = withdraw_withheld_tokens_from_mint(&program, &mint, &dst, &authority, &[&s1]).unwrap();
    assert_eq!(
        ix.accounts,
        vec![
            AccountMeta::new(mint, false),
            AccountMeta::new(dst, false),
            AccountMeta::new_readonly(authority, false),
            AccountMeta::new_readonly(s1, true),
        ]
    );
    assert_eq!(ix.data, vec![26, 2]);

    let ix = withdraw_withheld_tokens_from_accounts(&program, &mint, &dst, &authority, &[], &[&src, &s2])
        .unwrap();
    assert_eq!(
        ix.accounts,
        vec![
            AccountMeta::new_readonly(mint, false),
            AccountMeta::new(dst, false),
            AccountMeta::new_readonly(authority, true),
            AccountMeta::new(src, false),
            AccountMeta::new(s2, false),
        ]
    );
    assert_eq!(ix.data, vec![26, 3, 2]);

    let ix = harvest_withheld_tokens_to_mint(&program, &mint, &[&src]).unwrap();
    assert_eq!(ix.accounts, vec![AccountMeta::new(mint, false), AccountMeta::new(src, false)]);
    assert_eq!(ix.data, vec![26, 4]);

    let ix = set_transfer_fee(&program, &mint, &authority, &[], 7, U256::new(8)).unwrap();
    assert_eq!(
        ix.accounts,
        vec![AccountMeta::new(mint, false), AccountMeta::new_readonly(authority, true)]
    );
    let mut expect = vec![26, 5, 7, 0];
    expect.extend_from_slice(&U256::new(8).to_le_bytes());
    assert_eq!(ix.data, expect);
}

#[test]
fn withdraw_from_too_many_accounts_is_rejected() {
    let program = id();
    let keys: Vec<Pubkey> = (0..256).map(|i| key(i as u8)).collect();
    let refs: Vec<&Pubkey> = keys.iter().collect();
    assert_eq!(
        withdraw_withheld_tokens_from_accounts(&program, &key(2), &key(3), &key(4), &[], &refs),
        Err(ProgramError::InvalidInstructionData)
    );
    let ix = withdraw_withheld_tokens_from_accounts(&program, &key(2), &key(3), &key(4), &[], &refs[..255])
        .unwrap();
    assert_eq!(ix.data, vec![26, 3, 255]);
    assert_eq!(ix.accounts.len(), 3 + 255);
}

#[test]
fn builders_reject_other_program_ids() {
    let wrong = key(1);
    let k = key(2);
    assert_eq!(check_program_account(&id()), Ok(()));
    assert_eq!(check_program_account(&wrong), Err(ProgramError::IncorrectProgramId));
    assert_eq!(check_program_account(&key(0)), Err(ProgramError::IncorrectProgramId));
    let err = Err(ProgramError::IncorrectProgramId);
    assert_eq!(initialize_transfer_fee_config(&wrong, &k, None, None, 1, U256::new(1)), err);
    assert_eq!(
        transfer_checked_with_fee(&wrong, &k, &k, &k, &k, &[], U256::new(1), 0, U256::new(0)),
        err
    );
    assert_eq!(withdraw_withheld_tokens_from_mint(&wrong, &k, &k, &k, &[]), err);
    assert_eq!(withdraw_withheld_tokens_from_accounts(&wrong, &k, &k, &k, &[], &[&k]), err);
    assert_eq!(harvest_withheld_tokens_to_mint(&wrong, &k, &[]), err);
    assert_eq!(set_transfer_fee(&wrong, &k, &k, &[], 1, U256::new(1)), err);
    // the id check comes before the count check
    let keys: Vec<Pubkey> = (0..256).map(|i| key(i as u8)).collect();
    let refs: Vec<&Pubkey> = keys.iter().collect();
    assert_eq!(withdraw_withheld_tokens_from_accounts(&wrong, &k, &k, &k, &[], &refs), err);
}

#[test]
fn program_id_bytes() {
    assert_eq!(
        id().to_bytes(),
        [
            6, 221, 246, 225, 238, 117, 143, 222, 24, 66, 93, 188, 228, 108, 205, 218, 182, 26,
            252, 77, 131, 185, 13, 39, 254, 189, 249, 40, 216, 161, 139, 252
        ]
    );
}
