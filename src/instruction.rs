//! The request object that a builder hands to the host: the program to run,
//! the accounts it reads and writes, in order, and the instruction data.

use crate::error::ProgramError;
use crate::pubkey::{lemma_pubkey_bytes_injective, Pubkey};
use vstd::prelude::*;

verus! {

/// Tag of the transfer-fee extension in the token instruction set; the
/// transfer-fee instruction follows it in the instruction data.
pub const TRANSFER_FEE_EXTENSION_TAG: u8 = 26;

/// The address of the token program,
/// `TokenzQdBNbLqP5VEhdkAS6EPFLC1PHnBqCXEpPxuEb`.
pub open spec fn spec_id() -> Pubkey {
    Pubkey {
        bytes: [
            6, 221, 246, 225, 238, 117, 143, 222, 24, 66, 93, 188, 228, 108, 205, 218, 182, 26, 252, 77, 131, 185, 13, 39, 254, 189, 249, 40, 216, 161, 139, 252
        ],
    }
}

/// The address of the token program.
pub fn id() -> (r: Pubkey)
    ensures
        r == spec_id(),
{
    Pubkey {
        bytes: [
            6, 221, 246, 225, 238, 117, 143, 222, 24, 66, 93, 188, 228, 108, 205, 218, 182, 26, 252, 77, 131, 185, 13, 39, 254, 189, 249, 40, 216, 161, 139, 252
        ],
    }
}

/// Fails with `IncorrectProgramId` unless `token_program_id` is the token
/// program's address.
pub fn check_program_account(token_program_id: &Pubkey) -> (r: Result<(), ProgramError>)
    ensures
        *token_program_id == spec_id() ==> r is Ok,
        *token_program_id != spec_id() ==> r == Err::<(), ProgramError>(
            ProgramError::IncorrectProgramId,
        ),
{
    broadcast use vstd::array::group_array_axioms;

    let expected = id();
    let mut i: usize = 0;
    while i < 32
        invariant
            i <= 32,
            expected == spec_id(),
            forall|j: int| 0 <= j < i ==> token_program_id.bytes@[j] == expected.bytes@[j],
        decreases 32 - i,
    {
        let given: u8 = token_program_id.bytes[i];
        let wanted: u8 = expected.bytes[i];
        assert(given == token_program_id.bytes@[i as int]);
        assert(wanted == expected.bytes@[i as int]);
        if given != wanted {
            return Err(ProgramError::IncorrectProgramId);
        }
        i = i + 1;
    }
    proof {
        assert(token_program_id.spec_bytes() =~= expected.spec_bytes());
        lemma_pubkey_bytes_injective(*token_program_id, expected);
    }
    Ok(())
}

/// One account of an instruction, with how the host may use it.
#[derive(Clone, Copy, Debug, PartialEq, Eq)]
pub struct AccountMeta {
    pub pubkey: Pubkey,
    pub is_signer: bool,
    pub is_writable: bool,
}

impl AccountMeta {
    /// A writable account.
    pub fn new(pubkey: Pubkey, is_signer: bool) -> (r: AccountMeta)
        ensures
            r == (AccountMeta { pubkey, is_signer, is_writable: true }),
    {
        AccountMeta { pubkey, is_signer, is_writable: true }
    }

    /// A read-only account.
    pub fn new_readonly(pubkey: Pubkey, is_signer: bool) -> (r: AccountMeta)
        ensures
            r == (AccountMeta { pubkey, is_signer, is_writable: false }),
    {
        AccountMeta { pubkey, is_signer, is_writable: false }
    }
}

/// An operation request: program, accounts in protocol order, and data.
#[derive(Clone, Debug, PartialEq, Eq)]
pub struct Instruction {
    pub program_id: Pubkey,
    pub accounts: Vec<AccountMeta>,
    pub data: Vec<u8>,
}

/// Read-only signer entries for each of `signers`, in order.
pub open spec fn signer_metas(signers: Seq<&Pubkey>) -> Seq<AccountMeta> {
    signers.map_values(|k: &Pubkey| AccountMeta { pubkey: *k, is_signer: true, is_writable: false })
}

/// Writable non-signer entries for each of `sources`, in order.
pub open spec fn source_metas(sources: Seq<&Pubkey>) -> Seq<AccountMeta> {
    sources.map_values(|k: &Pubkey| AccountMeta { pubkey: *k, is_signer: false, is_writable: true })
}

/// Appends a read-only signer entry for each of `signers`.
pub fn push_signers(accounts: &mut Vec<AccountMeta>, signers: &[&Pubkey])
    ensures
        final(accounts)@ == old(accounts)@ + signer_metas(signers@),
{
    let mut i: usize = 0;
    while i < signers.len()
        invariant
            i <= signers@.len(),
            accounts@ == old(accounts)@ + signer_metas(signers@.subrange(0, i as int)),
        decreases signers@.len() - i,
    {
        let signer: &Pubkey = signers[i];
        accounts.push(AccountMeta::new_readonly(*signer, true));
        i = i + 1;
        assert(accounts@ =~= old(accounts)@ + signer_metas(signers@.subrange(0, i as int)));
    }
    assert(signers@.subrange(0, i as int) =~= signers@);
}

/// Appends a writable entry for each of `sources`.
pub fn push_sources(accounts: &mut Vec<AccountMeta>, sources: &[&Pubkey])
    ensures
        final(accounts)@ == old(accounts)@ + source_metas(sources@),
{
    let mut i: usize = 0;
    while i < sources.len()
        invariant
            i <= sources@.len(),
            accounts@ == old(accounts)@ + source_metas(sources@.subrange(0, i as int)),
        decreases sources@.len() - i,
    {
        let source: &Pubkey = sources[i];
        accounts.push(AccountMeta::new(*source, false));
        i = i + 1;
        assert(accounts@ =~= old(accounts)@ + source_metas(sources@.subrange(0, i as int)));
    }
    assert(sources@.subrange(0, i as int) =~= sources@);
}

} // verus!
