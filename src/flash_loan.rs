//! Single-asset flash loans. Borrow must be the first instruction of its
//! transaction and the last one must be this program's Repay on the same
//! accounts; Repay pays back the amount that Borrow recorded, plus a fee.

use vstd::prelude::*;
use crate::bytes::{Pubkey, has_prefix, le_u64, pubkey_eq, read_u64_le};
use crate::introspect::{Instructions, IntrospectedInstruction};
use crate::ledger::{Accounts, Ledger, TokenError, balance, settles, token_at, transfer_result};

verus! {

/// Leading payload bytes of a Borrow instruction.
pub const BORROW_DISCRIMINATOR: [u8; 8] = [228, 253, 131, 202, 207, 116, 89, 18];

/// Leading payload bytes of a Repay instruction.
pub const REPAY_DISCRIMINATOR: [u8; 8] = [234, 103, 67, 82, 208, 234, 219, 166];

/// Fee of a loan, in basis points of the amount borrowed.
pub const FEE_BPS: u64 = 500;

/// Position of the borrower's token account among a Repay's accounts.
pub const BORROWER_ATA_INDEX: usize = 3;

/// Position of the pool's token account among a Repay's accounts.
pub const PROTOCOL_ATA_INDEX: usize = 4;

#[derive(Clone, Copy, Debug, PartialEq, Eq, Structural)]
pub enum ProtocolError {
    InvalidIx,
    InvalidInstructionIndex,
    InvalidAmount,
    NotEnoughFunds,
    ProgramMismatch,
    InvalidProgram,
    InvalidBorrowerAta,
    InvalidProtocolAta,
    MissingRepayIx,
    MissingBorrowIx,
    Overflow,
    /// The protocol account is not the address derived from its seeds.
    InvalidProtocolAuthority,
    /// The asset-transfer service refused the movement of funds.
    Token(TokenError),
}

/// The accounts of Borrow and of Repay, in the order that both list them.
#[derive(Clone, Copy, Debug)]
pub struct Loan {
    pub borrower: Pubkey,
    pub protocol: Pubkey,
    pub mint: Pubkey,
    pub borrower_ata: Pubkey,
    pub protocol_ata: Pubkey,
}

pub open spec fn fee_of(amount: u64) -> int {
    amount * 500 / 10000
}

/// The fee owed on `amount`: five percent, rounded down.
pub fn repay_fee(amount: u64) -> (r: u64)
    ensures
        r == fee_of(amount),
{
    ((amount as u128) * (FEE_BPS as u128) / 10_000) as u64
}

/// What a Repay must move back for a loan of `amount`, unless it exceeds `u64::MAX`.
pub fn repay_total(amount: u64) -> (r: Option<u64>)
    ensures
        r is None <==> amount + fee_of(amount) > u64::MAX,
        r matches Some(t) ==> t == amount + fee_of(amount),
{
    amount.checked_add(repay_fee(amount))
}

pub open spec fn starts_with(data: Seq<u8>, prefix: Seq<u8>) -> bool {
    prefix.len() <= data.len() && data.subrange(0, prefix.len() as int) == prefix
}

/// The amount that the Borrow at position zero asks for, if that instruction is one.
pub open spec fn borrowed_amount(tx: Instructions) -> Option<u64> {
    if tx.len() > 0 && starts_with(tx.at(0).data@, BORROW_DISCRIMINATOR@) && tx.at(0).data@.len() >= 16 {
        Some(le_u64(tx.at(0).data@.subrange(8, 16)) as u64)
    } else {
        None
    }
}

/// Whether the last instruction of `tx` is a Repay of `program_id` on the loan's accounts.
pub open spec fn repay_guard(tx: Instructions, program_id: Pubkey, a: Loan) -> Result<(), ProtocolError> {
    if tx.current != 0 {
        Err(ProtocolError::InvalidInstructionIndex)
    } else if tx.len() == 0 {
        Err(ProtocolError::MissingRepayIx)
    } else {
        let ix = tx.at(tx.len() - 1);
        if ix.program_id != program_id {
            Err(ProtocolError::InvalidProgram)
        } else if !starts_with(ix.data@, REPAY_DISCRIMINATOR@) {
            Err(ProtocolError::InvalidAmount)
        } else if ix.accounts@.len() <= 3 || ix.accounts@[3] != a.borrower_ata {
            Err(ProtocolError::InvalidBorrowerAta)
        } else if ix.accounts@.len() <= 4 || ix.accounts@[4] != a.protocol_ata {
            Err(ProtocolError::InvalidProtocolAta)
        } else {
            Ok(())
        }
    }
}

pub open spec fn lift(r: Result<Accounts, TokenError>) -> Result<Accounts, ProtocolError> {
    match r {
        Ok(m) => Ok(m),
        Err(e) => Err(ProtocolError::Token(e)),
    }
}

/// What Borrow does to the accounts; `derived` is the protocol authority's address.
pub open spec fn borrow_result(m: Accounts, tx: Instructions, program_id: Pubkey, a: Loan, amount: u64, derived: Pubkey) -> Result<Accounts, ProtocolError> {
    if amount == 0 {
        Err(ProtocolError::InvalidAmount)
    } else if a.protocol != derived {
        Err(ProtocolError::InvalidProtocolAuthority)
    } else {
        match transfer_result(m, a.protocol_ata, a.borrower_ata, a.protocol, amount) {
            Err(x) => Err(ProtocolError::Token(x)),
            Ok(m1) => match repay_guard(tx, program_id, a) {
                Ok(()) => Ok(m1),
                Err(x) => Err(x),
            },
        }
    }
}

/// What Repay does to the accounts.
pub open spec fn repay_result(m: Accounts, tx: Instructions, a: Loan) -> Result<Accounts, ProtocolError> {
    match borrowed_amount(tx) {
        None => Err(ProtocolError::MissingBorrowIx),
        Some(x) => {
            if x + fee_of(x) > u64::MAX {
                Err(ProtocolError::Overflow)
            } else {
                lift(transfer_result(m, a.borrower_ata, a.protocol_ata, a.borrower, (x + fee_of(x)) as u64))
            }
        },
    }
}

fn check_repay_ix(ix: &IntrospectedInstruction, program_id: &Pubkey, a: &Loan) -> (r: Result<(), ProtocolError>)
    ensures
        r == (if ix.program_id != *program_id {
            Err(ProtocolError::InvalidProgram)
        } else if !starts_with(ix.data@, REPAY_DISCRIMINATOR@) {
            Err(ProtocolError::InvalidAmount)
        } else if ix.accounts@.len() <= 3 || ix.accounts@[3] != a.borrower_ata {
            Err(ProtocolError::InvalidBorrowerAta)
        } else if ix.accounts@.len() <= 4 || ix.accounts@[4] != a.protocol_ata {
            Err(ProtocolError::InvalidProtocolAta)
        } else {
            Ok(())
        }),
{
    if !pubkey_eq(&ix.program_id, program_id) {
        return Err(ProtocolError::InvalidProgram);
    }
    let disc = REPAY_DISCRIMINATOR;
    if !has_prefix(ix.data.as_slice(), &disc) {
        return Err(ProtocolError::InvalidAmount);
    }
    if ix.accounts.len() <= BORROWER_ATA_INDEX || !pubkey_eq(&ix.accounts[BORROWER_ATA_INDEX], &a.borrower_ata) {
        return Err(ProtocolError::InvalidBorrowerAta);
    }
    if ix.accounts.len() <= PROTOCOL_ATA_INDEX || !pubkey_eq(&ix.accounts[PROTOCOL_ATA_INDEX], &a.protocol_ata) {
        return Err(ProtocolError::InvalidProtocolAta);
    }
    Ok(())
}

/// Checks that the loan is the first instruction and that the last one repays it.
pub fn check_repay_guard(tx: &Instructions, program_id: &Pubkey, a: &Loan) -> (r: Result<(), ProtocolError>)
    ensures
        r == repay_guard(*tx, *program_id, *a),
{
    if tx.load_current_index() != 0 {
        return Err(ProtocolError::InvalidInstructionIndex);
    }
    let n = tx.num_instructions();
    if n == 0 {
        return Err(ProtocolError::MissingRepayIx);
    }
    match tx.load_instruction_at(n - 1) {
        Some(ix) => check_repay_ix(ix, program_id, a),
        None => Err(ProtocolError::MissingRepayIx),
    }
}

/// The amount that the Borrow at position zero asks for, if that instruction is one.
pub fn load_borrowed_amount(tx: &Instructions) -> (r: Option<u64>)
    ensures
        r == borrowed_amount(*tx),
{
    match tx.load_instruction_at(0) {
        Some(ix) => {
            let disc = BORROW_DISCRIMINATOR;
            if has_prefix(ix.data.as_slice(), &disc) {
                read_u64_le(ix.data.as_slice(), 8)
            } else {
                None
            }
        },
        None => None,
    }
}

/// Lends `borrow_amount` from the pool to the borrower under the protocol's
/// derived authority, provided the transaction ends with the matching Repay.
/// `derived` is the address that the runtime derives from `crate::seeds::protocol_seeds`
/// with the pool's bump; the protocol account must be that address.
pub fn borrow(ledger: &mut Ledger, tx: &Instructions, program_id: &Pubkey, accounts: &Loan, borrow_amount: u64, derived: &Pubkey) -> (r: Result<(), ProtocolError>)
    requires
        old(ledger).wf(),
    ensures
        final(ledger).wf(),
        settles(r, old(ledger).model(), final(ledger).model(), borrow_result(old(ledger).model(), *tx, *program_id, *accounts, borrow_amount, *derived)),
{
    if borrow_amount == 0 {
        return Err(ProtocolError::InvalidAmount);
    }
    if !pubkey_eq(&accounts.protocol, derived) {
        return Err(ProtocolError::InvalidProtocolAuthority);
    }
    let saved = ledger.snapshot();
    if let Err(x) = ledger.transfer(&accounts.protocol_ata, &accounts.borrower_ata, &accounts.protocol, borrow_amount) {
        return Err(ProtocolError::Token(x));
    }
    match check_repay_guard(tx, program_id, accounts) {
        Ok(()) => Ok(()),
        Err(x) => {
            *ledger = saved;
            Err(x)
        },
    }
}

/// Pays back the amount recorded by the Borrow at position zero, plus the fee,
/// from the borrower to the pool under the borrower's signature.
pub fn repay(ledger: &mut Ledger, tx: &Instructions, accounts: &Loan) -> (r: Result<(), ProtocolError>)
    requires
        old(ledger).wf(),
    ensures
        final(ledger).wf(),
        settles(r, old(ledger).model(), final(ledger).model(), repay_result(old(ledger).model(), *tx, *accounts)),
{
    let amount_borrowed = match load_borrowed_amount(tx) {
        Some(x) => x,
        None => return Err(ProtocolError::MissingBorrowIx),
    };
    let total = match repay_total(amount_borrowed) {
        Some(t) => t,
        None => return Err(ProtocolError::Overflow),
    };
    match ledger.transfer(&accounts.borrower_ata, &accounts.protocol_ata, &accounts.borrower, total) {
        Ok(()) => Ok(()),
        Err(x) => Err(ProtocolError::Token(x)),
    }
}

/// A transaction that opens with a Borrow of `amount` and ends with this
/// program's Repay on the same accounts goes through both instructions when the
/// protocol account is its derived address, the pool holds the loan and the
/// borrower can already cover the fee: the pool ends richer by the fee and the
/// borrower poorer by it.
pub proof fn lemma_borrow_then_repay(m: Accounts, tx: Instructions, program_id: Pubkey, a: Loan, amount: u64)
    requires
        amount > 0,
        tx.current == 0,
        borrowed_amount(tx) == Some(amount),
        tx.at(tx.len() - 1).program_id == program_id,
        starts_with(tx.at(tx.len() - 1).data@, REPAY_DISCRIMINATOR@),
        tx.at(tx.len() - 1).accounts@.len() > 4,
        tx.at(tx.len() - 1).accounts@[3] == a.borrower_ata,
        tx.at(tx.len() - 1).accounts@[4] == a.protocol_ata,
        a.borrower_ata != a.protocol_ata,
        token_at(m, a.protocol_ata) is Some,
        token_at(m, a.protocol_ata)->Some_0.owner == a.protocol,
        token_at(m, a.borrower_ata) is Some,
        token_at(m, a.borrower_ata)->Some_0.owner == a.borrower,
        token_at(m, a.borrower_ata)->Some_0.mint == token_at(m, a.protocol_ata)->Some_0.mint,
        balance(m, a.protocol_ata) >= amount,
        balance(m, a.protocol_ata) + fee_of(amount) <= u64::MAX,
        balance(m, a.borrower_ata) >= fee_of(amount),
        balance(m, a.borrower_ata) + amount <= u64::MAX,
    ensures
        borrow_result(m, tx, program_id, a, amount, a.protocol) is Ok,
        repay_result(borrow_result(m, tx, program_id, a, amount, a.protocol)->Ok_0, tx, a) is Ok,
        balance(repay_result(borrow_result(m, tx, program_id, a, amount, a.protocol)->Ok_0, tx, a)->Ok_0, a.protocol_ata)
            == balance(m, a.protocol_ata) + fee_of(amount),
        balance(repay_result(borrow_result(m, tx, program_id, a, amount, a.protocol)->Ok_0, tx, a)->Ok_0, a.borrower_ata)
            == balance(m, a.borrower_ata) - fee_of(amount),
{
    let m1 = transfer_result(m, a.protocol_ata, a.borrower_ata, a.protocol, amount)->Ok_0;
    assert(token_at(m1, a.borrower_ata)->Some_0.amount == balance(m, a.borrower_ata) + amount);
    assert(token_at(m1, a.protocol_ata)->Some_0.amount == balance(m, a.protocol_ata) - amount);
}

/// Borrow fails, and so moves nothing, when the last instruction of its
/// transaction belongs to another program or is not a Repay.
pub proof fn lemma_borrow_needs_trailing_repay(m: Accounts, tx: Instructions, program_id: Pubkey, a: Loan, amount: u64, derived: Pubkey)
    requires
        tx.len() > 0,
        tx.at(tx.len() - 1).program_id != program_id || !starts_with(tx.at(tx.len() - 1).data@, REPAY_DISCRIMINATOR@),
    ensures
        borrow_result(m, tx, program_id, a, amount, derived) is Err,
{
}

/// A Borrow payload is never a Repay payload, so a transaction whose only
/// instruction is a Borrow has no trailing Repay.
pub proof fn lemma_borrow_is_not_repay(data: Seq<u8>)
    requires
        starts_with(data, BORROW_DISCRIMINATOR@),
    ensures
        !starts_with(data, REPAY_DISCRIMINATOR@),
{
    assert(data.subrange(0, 8)[0] == BORROW_DISCRIMINATOR@[0]);
}

} // verus!
