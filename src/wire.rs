//! Fixed-width field encodings shared by the instruction codecs, and the
//! readers that take one field off the front of a byte slice.

use crate::amount::{lemma_le_bytes_injective, U256};
use crate::error::ProgramError;
use crate::pubkey::{lemma_pubkey_bytes_injective, Pubkey, PUBKEY_BYTES};
use vstd::bytes::*;
use vstd::prelude::*;
use vstd::slice::slice_subrange;

verus! {

broadcast use vstd::array::group_array_axioms;

/// An optional address: flag 0 alone, or flag 1 and the 32 address bytes.
pub open spec fn spec_pubkey_option_bytes(key: Option<Pubkey>) -> Seq<u8> {
    match key {
        Some(k) => seq![1u8] + k.spec_bytes(),
        None => seq![0u8],
    }
}

/// `p` followed by anything is a prefix of `s`, and so is `p` itself.
pub proof fn lemma_concat_prefix(p: Seq<u8>, q: Seq<u8>, s: Seq<u8>)
    requires
        (p + q).is_prefix_of(s),
    ensures
        p.is_prefix_of(s),
        q.is_prefix_of(s.skip(p.len() as int)),
{
    assert(s.subrange(0, p.len() as int) =~= (p + q).subrange(0, p.len() as int));
    assert(p =~= (p + q).subrange(0, p.len() as int));
    assert(s.skip(p.len() as int).subrange(0, q.len() as int) =~= (p + q).subrange(
        p.len() as int,
        (p.len() + q.len()) as int,
    ));
    assert(q =~= (p + q).subrange(p.len() as int, (p.len() + q.len()) as int));
}

/// Two optional addresses whose encodings both start `s` are equal.
pub proof fn lemma_pubkey_option_unique(a: Option<Pubkey>, b: Option<Pubkey>, s: Seq<u8>)
    requires
        spec_pubkey_option_bytes(a).is_prefix_of(s),
        spec_pubkey_option_bytes(b).is_prefix_of(s),
    ensures
        a == b,
{
    let ea = spec_pubkey_option_bytes(a);
    let eb = spec_pubkey_option_bytes(b);
    assert(ea[0] == s[0]);
    assert(eb[0] == s[0]);
    if let Some(ka) = a {
        if let Some(kb) = b {
            assert(ea.subrange(1, 33) =~= ka.spec_bytes());
            assert(eb.subrange(1, 33) =~= kb.spec_bytes());
            assert(ka.spec_bytes() =~= s.subrange(1, 33));
            assert(kb.spec_bytes() =~= s.subrange(1, 33));
            lemma_pubkey_bytes_injective(ka, kb);
        }
    }
}

/// Two amounts whose encodings both start `s` are equal.
pub proof fn lemma_u256_unique(a: U256, b: U256, s: Seq<u8>)
    requires
        a.spec_le_bytes().is_prefix_of(s),
        b.spec_le_bytes().is_prefix_of(s),
    ensures
        a == b,
{
    lemma_auto_spec_u128_to_from_le_bytes();
    assert(a.spec_le_bytes() =~= s.subrange(0, 32));
    assert(b.spec_le_bytes() =~= s.subrange(0, 32));
    lemma_le_bytes_injective(a, b);
}

/// Two 16-bit values whose encodings both start `s` are equal.
pub proof fn lemma_u16_unique(a: u16, b: u16, s: Seq<u8>)
    requires
        spec_u16_to_le_bytes(a).is_prefix_of(s),
        spec_u16_to_le_bytes(b).is_prefix_of(s),
    ensures
        a == b,
{
    lemma_auto_spec_u16_to_from_le_bytes();
    assert(spec_u16_to_le_bytes(a) =~= s.subrange(0, 2));
    assert(spec_u16_to_le_bytes(b) =~= s.subrange(0, 2));
}

/// Appends `bytes` to `buffer`.
pub fn extend_bytes(buffer: &mut Vec<u8>, bytes: &[u8])
    ensures
        final(buffer)@ == old(buffer)@ + bytes@,
{
    let mut i: usize = 0;
    while i < bytes.len()
        invariant
            i <= bytes@.len(),
            buffer@ == old(buffer)@ + bytes@.subrange(0, i as int),
        decreases bytes@.len() - i,
    {
        buffer.push(bytes[i]);
        i = i + 1;
        assert(buffer@ =~= old(buffer)@ + bytes@.subrange(0, i as int));
    }
    assert(bytes@.subrange(0, i as int) =~= bytes@);
}

/// Appends an optional address: a flag byte, then the address if present.
pub fn pack_pubkey_option(value: &Option<Pubkey>, buffer: &mut Vec<u8>)
    ensures
        final(buffer)@ == old(buffer)@ + spec_pubkey_option_bytes(*value),
{
    match value {
        Some(key) => {
            buffer.push(1);
            extend_bytes(buffer, vstd::array::array_as_slice(&key.bytes));
        },
        None => {
            buffer.push(0);
        },
    }
    assert(buffer@ =~= old(buffer)@ + spec_pubkey_option_bytes(*value));
}

/// Appends the two little-endian bytes of `value`.
pub fn pack_u16(value: u16, buffer: &mut Vec<u8>)
    ensures
        final(buffer)@ == old(buffer)@ + spec_u16_to_le_bytes(value),
{
    let mut b = u16_to_le_bytes(value);
    buffer.append(&mut b);
}

/// Appends the 32 little-endian bytes of `value`.
pub fn pack_u256(value: &U256, buffer: &mut Vec<u8>)
    ensures
        final(buffer)@ == old(buffer)@ + value.spec_le_bytes(),
{
    let mut b = value.to_le_bytes();
    buffer.append(&mut b);
}

/// Takes an optional address off the front of `input`.
pub fn unpack_pubkey_option(input: &[u8]) -> (r: Result<(Option<Pubkey>, &[u8]), ProgramError>)
    ensures
        match r {
            Ok((key, rest)) => input@ == spec_pubkey_option_bytes(key) + rest@,
            Err(e) => e == ProgramError::InvalidInstruction && forall|key: Option<Pubkey>|
                !(#[trigger] spec_pubkey_option_bytes(key)).is_prefix_of(input@),
        },
{
    if input.len() >= 1 && input[0] == 0 {
        let rest = slice_subrange(input, 1, input.len());
        assert(input@ =~= spec_pubkey_option_bytes(None) + rest@);
        Ok((None, rest))
    } else if input.len() >= 1 + PUBKEY_BYTES && input[0] == 1 {
        let key = Pubkey::from_slice(slice_subrange(input, 1, 1 + PUBKEY_BYTES));
        let rest = slice_subrange(input, 1 + PUBKEY_BYTES, input.len());
        assert(input@ =~= spec_pubkey_option_bytes(Some(key)) + rest@);
        Ok((Some(key), rest))
    } else {
        assert forall|key: Option<Pubkey>|
            !(#[trigger] spec_pubkey_option_bytes(key)).is_prefix_of(input@) by {
            let e = spec_pubkey_option_bytes(key);
            if e.is_prefix_of(input@) {
                assert(e[0] == input@[0]);
            }
        }
        Err(ProgramError::InvalidInstruction)
    }
}

/// Takes a little-endian 16-bit value off the front of `input`.
pub fn unpack_u16(input: &[u8]) -> (r: Result<(u16, &[u8]), ProgramError>)
    ensures
        match r {
            Ok((v, rest)) => input@ == spec_u16_to_le_bytes(v) + rest@,
            Err(e) => e == ProgramError::InvalidInstruction && input@.len() < 2,
        },
{
    proof {
        lemma_auto_spec_u16_to_from_le_bytes();
    }
    if input.len() < 2 {
        return Err(ProgramError::InvalidInstruction);
    }
    let head = slice_subrange(input, 0, 2);
    let v = u16_from_le_bytes(head);
    let rest = slice_subrange(input, 2, input.len());
    assert(input@ =~= head@ + rest@);
    Ok((v, rest))
}

/// Takes a little-endian 256-bit amount off the front of `input`.
pub fn unpack_u256(input: &[u8]) -> (r: Result<(U256, &[u8]), ProgramError>)
    ensures
        match r {
            Ok((v, rest)) => input@ == v.spec_le_bytes() + rest@,
            Err(e) => e == ProgramError::InvalidInstruction && input@.len() < 32,
        },
{
    if input.len() < 32 {
        return Err(ProgramError::InvalidInstruction);
    }
    let head = slice_subrange(input, 0, 32);
    let v = U256::from_le_bytes(head);
    let rest = slice_subrange(input, 32, input.len());
    assert(input@ =~= head@ + rest@);
    Ok((v, rest))
}

/// Takes an amount and a decimals byte off the front of `input`.
pub fn unpack_amount_decimals_u256(input: &[u8]) -> (r: Result<(U256, u8, &[u8]), ProgramError>)
    ensures
        match r {
            Ok((v, d, rest)) => input@ == v.spec_le_bytes() + seq![d] + rest@,
            Err(e) => e == ProgramError::InvalidInstruction && input@.len() < 33,
        },
{
    let (amount, rest) = unpack_u256(input)?;
    if rest.len() < 1 {
        proof {
            lemma_auto_spec_u128_to_from_le_bytes();
        }
        return Err(ProgramError::InvalidInstruction);
    }
    let decimals = rest[0];
    let tail = slice_subrange(rest, 1, rest.len());
    assert(rest@ =~= seq![decimals] + tail@);
    assert(input@ =~= amount.spec_le_bytes() + seq![decimals] + tail@);
    Ok((amount, decimals, tail))
}

/// Thirty-two zero bytes: the stored form of an absent address.
pub open spec fn zero_key_bytes() -> Seq<u8> {
    Seq::new(32, |_i: int| 0u8)
}

/// Whether an optional address can be stored: a present address must not
/// be the all-zero one, which stands for absence.
pub open spec fn is_storable_key(key: Option<Pubkey>) -> bool {
    match key {
        Some(k) => k.spec_bytes() != zero_key_bytes(),
        None => true,
    }
}

/// The stored form of an optional address: its bytes, or zeros for none.
pub open spec fn spec_stored_key_bytes(key: Option<Pubkey>) -> Seq<u8> {
    match key {
        Some(k) => k.spec_bytes(),
        None => zero_key_bytes(),
    }
}

/// The two's-complement bits of a signed 64-bit value.
pub open spec fn i64_bits(v: i64) -> u64 {
    if v >= 0 {
        v as u64
    } else {
        (v + 0x1_0000_0000_0000_0000) as u64
    }
}

/// The two's-complement bits of a signed 16-bit value.
pub open spec fn i16_bits(v: i16) -> u16 {
    if v >= 0 {
        v as u16
    } else {
        (v + 0x1_0000) as u16
    }
}

/// The stored form of a signed 64-bit value: its two's-complement bytes.
pub open spec fn spec_i64_bytes(v: i64) -> Seq<u8> {
    spec_u64_to_le_bytes(i64_bits(v))
}

/// The stored form of a signed 16-bit value: its two's-complement bytes.
pub open spec fn spec_i16_bytes(v: i16) -> Seq<u8> {
    spec_u16_to_le_bytes(i16_bits(v))
}

/// Two concatenations with equal first parts' lengths are equal part by part.
pub proof fn lemma_concat_split(a1: Seq<u8>, b1: Seq<u8>, a2: Seq<u8>, b2: Seq<u8>)
    requires
        a1 + b1 == a2 + b2,
        a1.len() == a2.len(),
    ensures
        a1 == a2,
        b1 == b2,
{
    assert(a1 =~= (a1 + b1).subrange(0, a1.len() as int));
    assert(a2 =~= (a2 + b2).subrange(0, a2.len() as int));
    assert(b1 =~= (a1 + b1).subrange(a1.len() as int, (a1 + b1).len() as int));
    assert(b2 =~= (a2 + b2).subrange(a2.len() as int, (a2 + b2).len() as int));
}

/// The fixed widths of the stored fields, and their injectivity.
pub proof fn lemma_stored_fields()
    ensures
        forall|k: Option<Pubkey>| #[trigger] spec_stored_key_bytes(k).len() == 32,
        forall|v: i64| #[trigger] spec_i64_bytes(v).len() == 8,
        forall|v: i16| #[trigger] spec_i16_bytes(v).len() == 2,
        forall|v: u64| #[trigger] spec_u64_to_le_bytes(v).len() == 8,
        forall|v: u16| #[trigger] spec_u16_to_le_bytes(v).len() == 2,
        forall|v: U256| #[trigger] v.spec_le_bytes().len() == 32,
        forall|a: i64, b: i64| spec_i64_bytes(a) == spec_i64_bytes(b) ==> a == b,
        forall|a: i16, b: i16| spec_i16_bytes(a) == spec_i16_bytes(b) ==> a == b,
        forall|a: u64, b: u64| spec_u64_to_le_bytes(a) == spec_u64_to_le_bytes(b) ==> a == b,
        forall|a: u16, b: u16| spec_u16_to_le_bytes(a) == spec_u16_to_le_bytes(b) ==> a == b,
        forall|a: U256, b: U256| a.spec_le_bytes() == b.spec_le_bytes() ==> a == b,
        forall|a: Option<Pubkey>, b: Option<Pubkey>|
            is_storable_key(a) && is_storable_key(b) && spec_stored_key_bytes(a)
                == spec_stored_key_bytes(b) ==> a == b,
{
    lemma_auto_spec_u64_to_from_le_bytes();
    lemma_auto_spec_u16_to_from_le_bytes();
    lemma_auto_spec_u128_to_from_le_bytes();
    assert forall|a: i64, b: i64| spec_i64_bytes(a) == spec_i64_bytes(b) implies a == b by {
        assert(spec_u64_from_le_bytes(spec_u64_to_le_bytes(i64_bits(a))) == i64_bits(a));
        assert(spec_u64_from_le_bytes(spec_u64_to_le_bytes(i64_bits(b))) == i64_bits(b));
    }
    assert forall|a: i16, b: i16| spec_i16_bytes(a) == spec_i16_bytes(b) implies a == b by {
        assert(spec_u16_to_le_bytes(i16_bits(a)).len() == 2);
        assert(spec_u16_to_le_bytes(i16_bits(b)).len() == 2);
        assert(spec_u16_from_le_bytes(spec_u16_to_le_bytes(i16_bits(a))) == i16_bits(a));
        assert(spec_u16_from_le_bytes(spec_u16_to_le_bytes(i16_bits(b))) == i16_bits(b));
    }
    assert forall|a: u64, b: u64|
        spec_u64_to_le_bytes(a) == spec_u64_to_le_bytes(b) implies a == b by {
        assert(spec_u64_from_le_bytes(spec_u64_to_le_bytes(a)) == a);
    }
    assert forall|a: u16, b: u16|
        spec_u16_to_le_bytes(a) == spec_u16_to_le_bytes(b) implies a == b by {
        assert(spec_u16_to_le_bytes(a).len() == 2);
        assert(spec_u16_from_le_bytes(spec_u16_to_le_bytes(a)) == a);
    }
    assert forall|a: U256, b: U256| a.spec_le_bytes() == b.spec_le_bytes() implies a == b by {
        lemma_le_bytes_injective(a, b);
    }
    assert forall|a: Option<Pubkey>, b: Option<Pubkey>|
        is_storable_key(a) && is_storable_key(b) && spec_stored_key_bytes(a)
            == spec_stored_key_bytes(b) implies a == b by {
        if let (Some(ka), Some(kb)) = (a, b) {
            lemma_pubkey_bytes_injective(ka, kb);
        }
    }
}

/// Appends the stored form of an optional address.
pub fn pack_stored_key(key: &Option<Pubkey>, buffer: &mut Vec<u8>)
    ensures
        final(buffer)@ == old(buffer)@ + spec_stored_key_bytes(*key),
{
    match key {
        Some(k) => extend_bytes(buffer, vstd::array::array_as_slice(&k.bytes)),
        None => {
            let zeros: [u8; 32] = [0u8; 32];
            assert(zeros@ =~= zero_key_bytes());
            extend_bytes(buffer, vstd::array::array_as_slice(&zeros));
        },
    }
}

/// Appends the stored form of a signed 64-bit value.
pub fn pack_i64(value: i64, buffer: &mut Vec<u8>)
    ensures
        final(buffer)@ == old(buffer)@ + spec_i64_bytes(value),
{
    let bits: u64 = if value >= 0 {
        value as u64
    } else {
        ((value + i64::MAX) + 1) as u64 + 0x8000_0000_0000_0000
    };
    let mut b = u64_to_le_bytes(bits);
    buffer.append(&mut b);
}

/// Appends the stored form of a signed 16-bit value.
pub fn pack_i16(value: i16, buffer: &mut Vec<u8>)
    ensures
        final(buffer)@ == old(buffer)@ + spec_i16_bytes(value),
{
    let bits: u16 = if value >= 0 {
        value as u16
    } else {
        ((value + i16::MAX) + 1) as u16 + 0x8000
    };
    let mut b = u16_to_le_bytes(bits);
    buffer.append(&mut b);
}

/// Appends the eight little-endian bytes of `value`.
pub fn pack_u64(value: u64, buffer: &mut Vec<u8>)
    ensures
        final(buffer)@ == old(buffer)@ + spec_u64_to_le_bytes(value),
{
    let mut b = u64_to_le_bytes(value);
    buffer.append(&mut b);
}

/// Reads a stored optional address from its 32 bytes; all zeros is none.
pub fn read_stored_key(bytes: &[u8]) -> (r: Option<Pubkey>)
    requires
        bytes@.len() == 32,
    ensures
        spec_stored_key_bytes(r) == bytes@,
        is_storable_key(r),
{
    let mut i: usize = 0;
    while i < 32
        invariant
            bytes@.len() == 32,
            i <= 32,
            forall|j: int| 0 <= j < i ==> bytes@[j] == 0,
        decreases 32 - i,
    {
        if bytes[i] != 0 {
            let key = Pubkey::from_slice(bytes);
            assert(key.spec_bytes()[i as int] != zero_key_bytes()[i as int]);
            return Some(key);
        }
        i = i + 1;
    }
    assert(bytes@ =~= zero_key_bytes());
    None
}

/// Reads a signed 64-bit value from its 8 stored bytes.
pub fn read_i64(bytes: &[u8]) -> (r: i64)
    requires
        bytes@.len() == 8,
    ensures
        spec_i64_bytes(r) == bytes@,
{
    proof {
        lemma_auto_spec_u64_to_from_le_bytes();
    }
    let u = u64_from_le_bytes(bytes);
    let v: i64 = if u <= i64::MAX as u64 {
        u as i64
    } else {
        -((u64::MAX - u) as i64) - 1
    };
    assert(i64_bits(v) == u);
    v
}

/// Reads a signed 16-bit value from its 2 stored bytes.
pub fn read_i16(bytes: &[u8]) -> (r: i16)
    requires
        bytes@.len() == 2,
    ensures
        spec_i16_bytes(r) == bytes@,
{
    proof {
        lemma_auto_spec_u16_to_from_le_bytes();
    }
    let u = u16_from_le_bytes(bytes);
    let v: i16 = if u <= i16::MAX as u16 {
        u as i16
    } else {
        -((u16::MAX - u) as i16) - 1
    };
    assert(i16_bits(v) == u);
    v
}

/// Reads a 64-bit value from its 8 little-endian bytes.
pub fn read_u64(bytes: &[u8]) -> (r: u64)
    requires
        bytes@.len() == 8,
    ensures
        spec_u64_to_le_bytes(r) == bytes@,
{
    proof {
        lemma_auto_spec_u64_to_from_le_bytes();
    }
    u64_from_le_bytes(bytes)
}

/// Reads a 16-bit value from its 2 little-endian bytes.
pub fn read_u16(bytes: &[u8]) -> (r: u16)
    requires
        bytes@.len() == 2,
    ensures
        spec_u16_to_le_bytes(r) == bytes@,
{
    proof {
        lemma_auto_spec_u16_to_from_le_bytes();
    }
    u16_from_le_bytes(bytes)
}

} // verus!
