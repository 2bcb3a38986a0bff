//! Payload decoding for the plain balance vaults that sit beside the exchange
//! protocols, and the message check of the signature-delegated withdrawal.

use vstd::prelude::*;
use crate::bytes::{Pubkey, le_u64, read_u64_le};

verus! {

#[derive(Clone, Copy, Debug, PartialEq, Eq, Structural)]
pub enum VaultError {
    /// The payload or the signed message is malformed, foreign or expired.
    InvalidInstructionData,
}

/// The payload of a plain vault deposit.
#[derive(Clone, Copy, Debug, PartialEq, Eq, Structural)]
pub struct DepositInstructionData {
    pub amount: u64,
}

impl DepositInstructionData {
    /// Decodes exactly eight little-endian bytes holding a positive amount.
    pub fn try_from(data: &[u8]) -> (r: Result<DepositInstructionData, VaultError>)
        ensures
            r is Ok <==> data@.len() == 8 && le_u64(data@) > 0,
            r matches Ok(d) ==> d.amount == le_u64(data@),
            r is Err ==> r == Err::<DepositInstructionData, VaultError>(VaultError::InvalidInstructionData),
    {
        if data.len() != 8 {
            return Err(VaultError::InvalidInstructionData);
        }
        let amount = read_u64_le(data, 0).unwrap();
        assert(data@.subrange(0, 8) =~= data@);
        if amount == 0 {
            return Err(VaultError::InvalidInstructionData);
        }
        Ok(DepositInstructionData { amount })
    }
}

/// The payload of a signature-delegated withdrawal: the vault's bump.
#[derive(Clone, Copy, Debug, PartialEq, Eq)]
pub struct WithdrawInstructionData {
    pub bump: [u8; 1],
}

impl WithdrawInstructionData {
    /// Decodes a payload of exactly one byte.
    pub fn try_from(data: &[u8]) -> (r: Result<WithdrawInstructionData, VaultError>)
        ensures
            r is Ok <==> data@.len() == 1,
            r matches Ok(d) ==> d.bump@[0] == data@[0],
            r is Err ==> r == Err::<WithdrawInstructionData, VaultError>(VaultError::InvalidInstructionData),
    {
        if data.len() != 1 {
            return Err(VaultError::InvalidInstructionData);
        }
        Ok(WithdrawInstructionData { bump: [data[0]] })
    }
}

/// The signed value of a `u64`'s bits read as two's complement.
pub open spec fn signed_of(v: u64) -> int {
    if v < 0x8000_0000_0000_0000 {
        v as int
    } else {
        v - 0x1_0000_0000_0000_0000
    }
}

/// Whether a signed withdrawal message names `owner` as payer and has not
/// expired at `now`: 32 bytes of payer, then a little-endian `i64` expiry.
pub open spec fn withdrawal_allowed(owner: Pubkey, message: Seq<u8>, now: i64) -> bool {
    &&& message.len() == 40
    &&& message.subrange(0, 32) == owner@
    &&& now <= signed_of(le_u64(message.subrange(32, 40)) as u64)
}

/// Checks a signed withdrawal message against the withdrawing owner and the clock.
pub fn check_withdraw_message(owner: &Pubkey, message: &[u8], now: i64) -> (r: Result<(), VaultError>)
    ensures
        r is Ok <==> withdrawal_allowed(*owner, message@, now),
        r is Err ==> r == Err::<(), VaultError>(VaultError::InvalidInstructionData),
{
    if message.len() < 32 {
        return Err(VaultError::InvalidInstructionData);
    }
    let mut i: usize = 0;
    while i < 32
        invariant
            i <= 32,
            message@.len() >= 32,
            forall|j: int| 0 <= j < i ==> message@[j] == owner@[j],
        decreases 32 - i,
    {
        if message[i] != owner[i] {
            assert(message@.subrange(0, 32)[i as int] != owner@[i as int]);
            return Err(VaultError::InvalidInstructionData);
        }
        i += 1;
    }
    assert(message@.subrange(0, 32) =~= owner@);
    if message.len() != 40 {
        return Err(VaultError::InvalidInstructionData);
    }
    let bits = read_u64_le(message, 32).unwrap();
    let expiry: i64 = if bits < 0x8000_0000_0000_0000 {
        bits as i64
    } else {
        -((u64::MAX - bits) as i64) - 1
    };
    if now > expiry {
        return Err(VaultError::InvalidInstructionData);
    }
    Ok(())
}

} // verus!
