//! The two-party swap escrow: Make, Take and Refund.
//!
//! The maker locks `deposit` of asset A in a vault owned by the escrow record's
//! derived address and asks for `receive` of asset B. Any taker settles the swap;
//! the maker alone can cancel it. Each instruction either completes every step
//! or leaves the ledger as it found it. The rent of the record and of the vault
//! is paid by the maker and goes back to the maker when the offer closes.

use vstd::prelude::*;
use crate::bytes::{Pubkey, le_u64, pubkey_eq};
use crate::seeds::{escrow_seeds, escrow_tag};
use crate::ledger::{
    Accounts, AccountData, Contents, Ledger, TokenError, TokenState, balance, close_result,
    close_token_result, create_result, escrow_at, init_token_result, lamports_of, settles,
    reaches, token_at, transfer_result,
};

verus! {

/// The long-lived record of one swap offer.
#[derive(Clone, Copy, Debug, PartialEq, Eq)]
pub struct Escrow {
    pub seed: u64,
    pub maker: Pubkey,
    pub mint_a: Pubkey,
    pub mint_b: Pubkey,
    pub receive: u64,
    pub bump: u8,
    /// The vault that Make opened for this offer.
    pub vault: Pubkey,
}

#[derive(Clone, Copy, Debug, PartialEq, Eq, Structural)]
pub enum EscrowError {
    /// The amount asked for or the amount deposited is zero.
    InvalidAmount,
    /// The signer or the maker account is not the recorded maker.
    InvalidMaker,
    /// The asset A account is not the recorded one.
    InvalidMintA,
    /// The asset B account is not the recorded one.
    InvalidMintB,
    /// No escrow record lives at the given identity.
    UnknownEscrow,
    /// The record's identity is not the address derived from its seeds.
    InvalidEscrowAddress,
    /// The vault is not the one recorded, or not a token account of asset A
    /// owned by the escrow record.
    InvalidVault,
    /// A party's token account holds another asset or belongs to someone else.
    InvalidTokenAccount,
    /// The asset-transfer service refused a step.
    Token(TokenError),
}

pub open spec fn lift(r: Result<Accounts, TokenError>) -> Result<Accounts, EscrowError> {
    match r {
        Ok(m) => Ok(m),
        Err(e) => Err(EscrowError::Token(e)),
    }
}

/// The accounts of Make: the maker signs, the escrow record and the vault are new.
#[derive(Clone, Copy, Debug)]
pub struct Make {
    pub maker: Pubkey,
    pub escrow: Pubkey,
    pub mint_a: Pubkey,
    pub mint_b: Pubkey,
    pub maker_ata_token_a: Pubkey,
    pub vault: Pubkey,
}

/// The accounts of Take: the taker signs.
#[derive(Clone, Copy, Debug)]
pub struct Take {
    pub taker: Pubkey,
    pub maker: Pubkey,
    pub escrow: Pubkey,
    pub mint_a: Pubkey,
    pub mint_b: Pubkey,
    pub vault: Pubkey,
    pub taker_ata_token_a: Pubkey,
    pub taker_ata_token_b: Pubkey,
    pub maker_ata_token_b: Pubkey,
}

/// The accounts of Refund: the maker signs.
#[derive(Clone, Copy, Debug)]
pub struct Refund {
    pub maker: Pubkey,
    pub escrow: Pubkey,
    pub mint_a: Pubkey,
    pub vault: Pubkey,
    pub maker_ata_token_a: Pubkey,
}

impl Escrow {
    /// The seed list of the record's derived address: `"escrow"`, the maker,
    /// the seed as eight little-endian bytes, and the recorded bump.
    pub fn authority_seeds(&self) -> (r: Vec<Vec<u8>>)
        ensures
            r@.len() == 4,
            r@[0]@ == escrow_tag(),
            r@[1]@ == self.maker@,
            r@[2]@.len() == 8 && le_u64(r@[2]@) == self.seed,
            r@[3]@ == seq![self.bump],
    {
        escrow_seeds(&self.maker, self.seed, self.bump)
    }
}

/// The record that Make writes.
pub open spec fn offer(a: Make, seed: u64, receive: u64, bump: u8) -> Escrow {
    Escrow { seed, maker: a.maker, mint_a: a.mint_a, mint_b: a.mint_b, receive, bump, vault: a.vault }
}

/// The accounts once the record and the empty vault are allocated, both paid by the maker.
pub open spec fn opened(m: Accounts, a: Make, seed: u64, receive: u64, bump: u8, escrow_rent: u64, vault_rent: u64) -> Result<Accounts, EscrowError> {
    match create_result(m, a.maker, a.escrow, Contents::Escrow(offer(a, seed, receive, bump)), escrow_rent) {
        Err(x) => Err(EscrowError::Token(x)),
        Ok(m1) => lift(
            create_result(m1, a.maker, a.vault, Contents::Token(TokenState { mint: a.mint_a, owner: a.escrow, amount: 0 }), vault_rent),
        ),
    }
}

/// What Make does to the accounts.
pub open spec fn make_result(
    m: Accounts,
    a: Make,
    seed: u64,
    receive: u64,
    deposit: u64,
    bump: u8,
    escrow_rent: u64,
    vault_rent: u64,
) -> Result<Accounts, EscrowError> {
    if receive == 0 || deposit == 0 {
        Err(EscrowError::InvalidAmount)
    } else {
        match opened(m, a, seed, receive, bump, escrow_rent, vault_rent) {
            Ok(m2) => lift(transfer_result(m2, a.maker_ata_token_a, a.vault, a.maker, deposit)),
            Err(e) => Err(e),
        }
    }
}

/// Whether `k` is a token account of `mint` owned by `owner`.
pub open spec fn holds_asset(m: Accounts, k: Pubkey, mint: Pubkey, owner: Pubkey) -> bool {
    token_at(m, k) is Some && token_at(m, k)->Some_0.mint == mint && token_at(m, k)->Some_0.owner == owner
}

/// Whether `k` is free, or a token account of `mint` owned by `owner`.
pub open spec fn fits_asset(m: Accounts, k: Pubkey, mint: Pubkey, owner: Pubkey) -> bool {
    !m.contains_key(k) || holds_asset(m, k, mint, owner)
}

/// The parties' token accounts of Take hold the right assets for the right owners.
pub open spec fn take_accounts_fit(m: Accounts, a: Take) -> bool {
    &&& holds_asset(m, a.taker_ata_token_b, a.mint_b, a.taker)
    &&& fits_asset(m, a.maker_ata_token_b, a.mint_b, a.maker)
    &&& fits_asset(m, a.taker_ata_token_a, a.mint_a, a.taker)
}

/// Whether `vault` is the recorded vault, a token account of asset A owned by the record.
pub open spec fn is_vault(m: Accounts, escrow: Pubkey, e: Escrow, vault: Pubkey) -> bool {
    vault == e.vault && holds_asset(m, vault, e.mint_a, escrow)
}

/// The recorded offer, once it and the vault match Take's accounts.
pub open spec fn take_checked(m: Accounts, a: Take, derived: Pubkey) -> Result<Escrow, EscrowError> {
    match escrow_at(m, a.escrow) {
        None => Err(EscrowError::UnknownEscrow),
        Some(e) => {
            if a.escrow != derived {
                Err(EscrowError::InvalidEscrowAddress)
            } else if e.maker != a.maker {
                Err(EscrowError::InvalidMaker)
            } else if e.mint_a != a.mint_a {
                Err(EscrowError::InvalidMintA)
            } else if e.mint_b != a.mint_b {
                Err(EscrowError::InvalidMintB)
            } else if !is_vault(m, a.escrow, e, a.vault) {
                Err(EscrowError::InvalidVault)
            } else if !take_accounts_fit(m, a) {
                Err(EscrowError::InvalidTokenAccount)
            } else {
                Ok(e)
            }
        },
    }
}

/// Empties the vault's whole balance into `to`, closes the vault and then the
/// record; both rents go to `rent_to`.
pub open spec fn drain_and_close(m: Accounts, escrow: Pubkey, vault: Pubkey, to: Pubkey, rent_to: Pubkey) -> Result<Accounts, EscrowError> {
    match token_at(m, vault) {
        None => Err(EscrowError::InvalidVault),
        Some(v) => match transfer_result(m, vault, to, escrow, v.amount) {
            Err(x) => Err(EscrowError::Token(x)),
            Ok(m1) => match close_token_result(m1, vault, rent_to, escrow) {
                Err(x) => Err(EscrowError::Token(x)),
                Ok(m2) => lift(close_result(m2, escrow, rent_to)),
            },
        },
    }
}

/// What Take does to the accounts; missing asset accounts of the parties are
/// created at `rent` each, paid by the taker.
pub open spec fn take_result(m: Accounts, a: Take, rent: u64, derived: Pubkey) -> Result<Accounts, EscrowError> {
    match take_checked(m, a, derived) {
        Err(x) => Err(x),
        Ok(e) => match init_token_result(m, a.taker_ata_token_a, a.mint_a, a.taker, a.taker, rent) {
            Err(x) => Err(EscrowError::Token(x)),
            Ok(m0) => match init_token_result(m0, a.maker_ata_token_b, a.mint_b, a.maker, a.taker, rent) {
                Err(x) => Err(EscrowError::Token(x)),
                Ok(m1) => match transfer_result(m1, a.taker_ata_token_b, a.maker_ata_token_b, a.taker, e.receive) {
                    Err(x) => Err(EscrowError::Token(x)),
                    Ok(m2) => drain_and_close(m2, a.escrow, a.vault, a.taker_ata_token_a, a.maker),
                },
            },
        },
    }
}

/// The checks that the recorded offer and the vault make of Refund's accounts.
pub open spec fn refund_checked(m: Accounts, a: Refund, derived: Pubkey) -> Result<Escrow, EscrowError> {
    match escrow_at(m, a.escrow) {
        None => Err(EscrowError::UnknownEscrow),
        Some(e) => {
            if a.escrow != derived {
                Err(EscrowError::InvalidEscrowAddress)
            } else if e.maker != a.maker {
                Err(EscrowError::InvalidMaker)
            } else if e.mint_a != a.mint_a {
                Err(EscrowError::InvalidMintA)
            } else if !is_vault(m, a.escrow, e, a.vault) {
                Err(EscrowError::InvalidVault)
            } else if !fits_asset(m, a.maker_ata_token_a, a.mint_a, a.maker) {
                Err(EscrowError::InvalidTokenAccount)
            } else {
                Ok(e)
            }
        },
    }
}

/// What Refund does to the accounts; a missing asset A account of the maker is
/// created at `rent`, paid by the maker.
pub open spec fn refund_result(m: Accounts, a: Refund, rent: u64, derived: Pubkey) -> Result<Accounts, EscrowError> {
    match refund_checked(m, a, derived) {
        Err(x) => Err(x),
        Ok(e) => match init_token_result(m, a.maker_ata_token_a, a.mint_a, a.maker, a.maker, rent) {
            Err(x) => Err(EscrowError::Token(x)),
            Ok(m1) => drain_and_close(m1, a.escrow, a.vault, a.maker_ata_token_a, a.maker),
        },
    }
}

/// Whether `key` is a token account of `mint` owned by `owner`, or, unless
/// `required`, free.
fn account_fits(ledger: &Ledger, key: &Pubkey, mint: &Pubkey, owner: &Pubkey, required: bool) -> (r: bool)
    requires
        ledger.wf(),
    ensures
        r == (if required {
            holds_asset(ledger.model(), *key, *mint, *owner)
        } else {
            fits_asset(ledger.model(), *key, *mint, *owner)
        }),
{
    match ledger.token(key) {
        Some(t) => pubkey_eq(&t.mint, mint) && pubkey_eq(&t.owner, owner),
        None => !required && !ledger.contains(key),
    }
}

/// Whether `vault` is the vault recorded in `e`, holding asset A for the record.
fn vault_fits(ledger: &Ledger, escrow: &Pubkey, e: &Escrow, vault: &Pubkey) -> (r: bool)
    requires
        ledger.wf(),
    ensures
        r == is_vault(ledger.model(), *escrow, *e, *vault),
{
    pubkey_eq(vault, &e.vault) && account_fits(ledger, vault, &e.mint_a, escrow, true)
}

/// Empties the vault into `to` under the escrow record's authority, then closes
/// the vault and the record, their rents going to `rent_to`.
fn close_offer(ledger: &mut Ledger, escrow: &Pubkey, vault: &Pubkey, to: &Pubkey, rent_to: &Pubkey) -> (r: Result<(), EscrowError>)
    requires
        old(ledger).wf(),
    ensures
        final(ledger).wf(),
        reaches(r, final(ledger).model(), drain_and_close(old(ledger).model(), *escrow, *vault, *to, *rent_to)),
{
    let amount = match ledger.token(vault) {
        Some(v) => v.amount,
        None => return Err(EscrowError::InvalidVault),
    };
    if let Err(x) = ledger.transfer(vault, to, escrow, amount) {
        return Err(EscrowError::Token(x));
    }
    if let Err(x) = ledger.close_token(vault, rent_to, escrow) {
        return Err(EscrowError::Token(x));
    }
    match ledger.close(escrow, rent_to) {
        Ok(()) => Ok(()),
        Err(x) => Err(EscrowError::Token(x)),
    }
}

impl Make {
    /// Writes the offer record and allocates the empty vault, both paid by the maker.
    pub fn populate_escrow(&self, ledger: &mut Ledger, seed: u64, receive: u64, bump: u8, escrow_rent: u64, vault_rent: u64) -> (r: Result<(), EscrowError>)
        requires
            old(ledger).wf(),
        ensures
            final(ledger).wf(),
            reaches(r, final(ledger).model(), opened(old(ledger).model(), *self, seed, receive, bump, escrow_rent, vault_rent)),
    {
        let record = Escrow { seed, maker: self.maker, mint_a: self.mint_a, mint_b: self.mint_b, receive, bump, vault: self.vault };
        if let Err(x) = ledger.create(&self.maker, self.escrow, AccountData::Escrow(record), escrow_rent) {
            return Err(EscrowError::Token(x));
        }
        let vault = TokenState { mint: self.mint_a, owner: self.escrow, amount: 0 };
        match ledger.create(&self.maker, self.vault, AccountData::Token(vault), vault_rent) {
            Ok(()) => Ok(()),
            Err(x) => Err(EscrowError::Token(x)),
        }
    }

    /// Moves `amount` from the maker's account into the vault, signed by the maker.
    pub fn deposit(&self, ledger: &mut Ledger, amount: u64) -> (r: Result<(), EscrowError>)
        requires
            old(ledger).wf(),
        ensures
            final(ledger).wf(),
            reaches(r, final(ledger).model(), lift(transfer_result(old(ledger).model(), self.maker_ata_token_a, self.vault, self.maker, amount))),
    {
        match ledger.transfer(&self.maker_ata_token_a, &self.vault, &self.maker, amount) {
            Ok(()) => Ok(()),
            Err(x) => Err(EscrowError::Token(x)),
        }
    }
}

/// Opens an offer of `deposit` of asset A for `receive` of asset B; the maker
/// pays `escrow_rent` for the record and `vault_rent` for the vault.
pub fn make(
    ledger: &mut Ledger,
    accounts: &Make,
    seed: u64,
    receive: u64,
    deposit: u64,
    bump: u8,
    escrow_rent: u64,
    vault_rent: u64,
) -> (r: Result<(), EscrowError>)
    requires
        old(ledger).wf(),
    ensures
        final(ledger).wf(),
        settles(
            r,
            old(ledger).model(),
            final(ledger).model(),
            make_result(old(ledger).model(), *accounts, seed, receive, deposit, bump, escrow_rent, vault_rent),
        ),
{
    if receive == 0 || deposit == 0 {
        return Err(EscrowError::InvalidAmount);
    }
    let saved = ledger.snapshot();
    let r = match accounts.populate_escrow(ledger, seed, receive, bump, escrow_rent, vault_rent) {
        Ok(()) => accounts.deposit(ledger, deposit),
        Err(x) => Err(x),
    };
    if r.is_err() {
        *ledger = saved;
    }
    r
}

impl Take {
    /// The recorded offer, once it and the vault match the accounts given.
    fn check(&self, ledger: &Ledger, derived: &Pubkey) -> (r: Result<Escrow, EscrowError>)
        requires
            ledger.wf(),
        ensures
            r == take_checked(ledger.model(), *self, *derived),
    {
        let e = match ledger.escrow(&self.escrow) {
            Some(e) => e,
            None => return Err(EscrowError::UnknownEscrow),
        };
        if !pubkey_eq(&self.escrow, derived) {
            return Err(EscrowError::InvalidEscrowAddress);
        }
        if !pubkey_eq(&e.maker, &self.maker) {
            return Err(EscrowError::InvalidMaker);
        }
        if !pubkey_eq(&e.mint_a, &self.mint_a) {
            return Err(EscrowError::InvalidMintA);
        }
        if !pubkey_eq(&e.mint_b, &self.mint_b) {
            return Err(EscrowError::InvalidMintB);
        }
        if !vault_fits(ledger, &self.escrow, &e, &self.vault) {
            return Err(EscrowError::InvalidVault);
        }
        if !account_fits(ledger, &self.taker_ata_token_b, &self.mint_b, &self.taker, true)
            || !account_fits(ledger, &self.maker_ata_token_b, &self.mint_b, &self.maker, false)
            || !account_fits(ledger, &self.taker_ata_token_a, &self.mint_a, &self.taker, false) {
            return Err(EscrowError::InvalidTokenAccount);
        }
        Ok(e)
    }

    /// Pays the maker `receive` of asset B from the taker's account, signed by the taker.
    pub fn transfer_to_maker(&self, ledger: &mut Ledger, receive: u64) -> (r: Result<(), EscrowError>)
        requires
            old(ledger).wf(),
        ensures
            final(ledger).wf(),
            reaches(r, final(ledger).model(), lift(transfer_result(old(ledger).model(), self.taker_ata_token_b, self.maker_ata_token_b, self.taker, receive))),
    {
        match ledger.transfer(&self.taker_ata_token_b, &self.maker_ata_token_b, &self.taker, receive) {
            Ok(()) => Ok(()),
            Err(x) => Err(EscrowError::Token(x)),
        }
    }

    /// Hands the vault's whole balance to the taker, then closes the vault and
    /// the record; both rents go to the maker.
    pub fn transfer_to_taker_and_close_vault(&self, ledger: &mut Ledger) -> (r: Result<(), EscrowError>)
        requires
            old(ledger).wf(),
        ensures
            final(ledger).wf(),
            reaches(r, final(ledger).model(), drain_and_close(old(ledger).model(), self.escrow, self.vault, self.taker_ata_token_a, self.maker)),
    {
        close_offer(ledger, &self.escrow, &self.vault, &self.taker_ata_token_a, &self.maker)
    }
}

/// Settles the offer: the maker receives asset B, the taker the whole vault,
/// and the rents of vault and record go back to the maker. Missing asset
/// accounts of the parties are created at `rent` each, paid by the taker.
/// `derived` is the address that the runtime derives from the record's
/// [`Escrow::authority_seeds`]; the record must live there.
pub fn take(ledger: &mut Ledger, accounts: &Take, rent: u64, derived: &Pubkey) -> (r: Result<(), EscrowError>)
    requires
        old(ledger).wf(),
    ensures
        final(ledger).wf(),
        settles(r, old(ledger).model(), final(ledger).model(), take_result(old(ledger).model(), *accounts, rent, *derived)),
{
    let e = match accounts.check(ledger, derived) {
        Ok(e) => e,
        Err(x) => return Err(x),
    };
    let saved = ledger.snapshot();
    let r = match ledger.init_if_needed(&accounts.taker_ata_token_a, &accounts.mint_a, &accounts.taker, &accounts.taker, rent) {
        Err(x) => Err(EscrowError::Token(x)),
        Ok(()) => match ledger.init_if_needed(&accounts.maker_ata_token_b, &accounts.mint_b, &accounts.maker, &accounts.taker, rent) {
            Err(x) => Err(EscrowError::Token(x)),
            Ok(()) => match accounts.transfer_to_maker(ledger, e.receive) {
                Ok(()) => accounts.transfer_to_taker_and_close_vault(ledger),
                Err(x) => Err(x),
            },
        },
    };
    if r.is_err() {
        *ledger = saved;
    }
    r
}

impl Refund {
    /// The recorded offer, once it and the vault match the accounts given.
    fn check(&self, ledger: &Ledger, derived: &Pubkey) -> (r: Result<Escrow, EscrowError>)
        requires
            ledger.wf(),
        ensures
            r == refund_checked(ledger.model(), *self, *derived),
    {
        let e = match ledger.escrow(&self.escrow) {
            Some(e) => e,
            None => return Err(EscrowError::UnknownEscrow),
        };
        if !pubkey_eq(&self.escrow, derived) {
            return Err(EscrowError::InvalidEscrowAddress);
        }
        if !pubkey_eq(&e.maker, &self.maker) {
            return Err(EscrowError::InvalidMaker);
        }
        if !pubkey_eq(&e.mint_a, &self.mint_a) {
            return Err(EscrowError::InvalidMintA);
        }
        if !vault_fits(ledger, &self.escrow, &e, &self.vault) {
            return Err(EscrowError::InvalidVault);
        }
        if !account_fits(ledger, &self.maker_ata_token_a, &self.mint_a, &self.maker, false) {
            return Err(EscrowError::InvalidTokenAccount);
        }
        Ok(e)
    }

    /// Returns the vault's whole balance to the maker, then closes the vault
    /// and the record; both rents go to the maker.
    pub fn transfer_to_maker_and_close_vault(&self, ledger: &mut Ledger) -> (r: Result<(), EscrowError>)
        requires
            old(ledger).wf(),
        ensures
            final(ledger).wf(),
            reaches(r, final(ledger).model(), drain_and_close(old(ledger).model(), self.escrow, self.vault, self.maker_ata_token_a, self.maker)),
    {
        close_offer(ledger, &self.escrow, &self.vault, &self.maker_ata_token_a, &self.maker)
    }
}

/// Cancels the offer: the maker takes the whole vault back, and the rents of
/// vault and record. A missing asset A account of the maker is created at
/// `rent`, paid by the maker. `derived` is the address that the runtime derives
/// from the record's [`Escrow::authority_seeds`]; the record must live there.
pub fn refund(ledger: &mut Ledger, accounts: &Refund, rent: u64, derived: &Pubkey) -> (r: Result<(), EscrowError>)
    requires
        old(ledger).wf(),
    ensures
        final(ledger).wf(),
        settles(r, old(ledger).model(), final(ledger).model(), refund_result(old(ledger).model(), *accounts, rent, *derived)),
{
    if let Err(x) = accounts.check(ledger, derived) {
        return Err(x);
    }
    let saved = ledger.snapshot();
    let r = match ledger.init_if_needed(&accounts.maker_ata_token_a, &accounts.mint_a, &accounts.maker, &accounts.maker, rent) {
        Err(x) => Err(EscrowError::Token(x)),
        Ok(()) => accounts.transfer_to_maker_and_close_vault(ledger),
    };
    if r.is_err() {
        *ledger = saved;
    }
    r
}

/// Whether `k` is a live wallet: an account with a native balance and no data.
pub open spec fn is_wallet(m: Accounts, k: Pubkey) -> bool {
    m.contains_key(k) && m[k].data is System
}

/// Make with both amounts positive, on fresh record and vault identities, a
/// maker's wallet that covers both rents and a maker's account of asset A that
/// holds the deposit, succeeds: it adds exactly the record and a vault holding
/// the deposit, takes the deposit from the maker's account and the two rents
/// from the maker's wallet, and changes nothing else. With either amount zero it
/// fails with `InvalidAmount`.
pub proof fn lemma_make_opens_one_offer(
    m: Accounts,
    a: Make,
    seed: u64,
    receive: u64,
    deposit: u64,
    bump: u8,
    escrow_rent: u64,
    vault_rent: u64,
)
    requires
        !m.contains_key(a.escrow),
        !m.contains_key(a.vault),
        a.escrow != a.vault,
        is_wallet(m, a.maker),
        lamports_of(m, a.maker) >= escrow_rent + vault_rent,
        holds_asset(m, a.maker_ata_token_a, a.mint_a, a.maker),
        balance(m, a.maker_ata_token_a) >= deposit,
    ensures
        receive == 0 || deposit == 0 ==> make_result(m, a, seed, receive, deposit, bump, escrow_rent, vault_rent)
            == Err::<Accounts, EscrowError>(EscrowError::InvalidAmount),
        receive > 0 && deposit > 0 ==> {
            let r = make_result(m, a, seed, receive, deposit, bump, escrow_rent, vault_rent);
            &&& r is Ok
            &&& escrow_at(r->Ok_0, a.escrow) == Some(offer(a, seed, receive, bump))
            &&& token_at(r->Ok_0, a.vault) == Some(TokenState { mint: a.mint_a, owner: a.escrow, amount: deposit })
            &&& balance(r->Ok_0, a.maker_ata_token_a) == balance(m, a.maker_ata_token_a) - deposit
            &&& lamports_of(r->Ok_0, a.maker) == lamports_of(m, a.maker) - escrow_rent - vault_rent
            &&& lamports_of(r->Ok_0, a.escrow) == escrow_rent
            &&& lamports_of(r->Ok_0, a.vault) == vault_rent
            &&& r->Ok_0.dom() == m.dom().insert(a.escrow).insert(a.vault)
            &&& forall|k: Pubkey| #[trigger] m.contains_key(k) && k != a.maker_ata_token_a && k != a.maker ==> r->Ok_0[k] == m[k]
        },
{
    if receive > 0 && deposit > 0 {
        let m1 = create_result(m, a.maker, a.escrow, Contents::Escrow(offer(a, seed, receive, bump)), escrow_rent)->Ok_0;
        assert(m1[a.maker].lamports == m[a.maker].lamports - escrow_rent);
        let m2 = opened(m, a, seed, receive, bump, escrow_rent, vault_rent)->Ok_0;
        assert(token_at(m2, a.vault) is Some);
        assert(token_at(m2, a.maker_ata_token_a) == token_at(m, a.maker_ata_token_a));
        let r = make_result(m, a, seed, receive, deposit, bump, escrow_rent, vault_rent);
        assert(r->Ok_0.dom() =~= m.dom().insert(a.escrow).insert(a.vault));
    }
}

/// Take on a matching offer succeeds whoever the taker is, when the parties'
/// accounts hold the right assets, the taker's asset B account holds the price,
/// the taker's wallet covers the rent of any asset account it must create, and
/// no balance is pushed past `u64::MAX`. Then the vault and the record are gone,
/// the maker's asset B account gains exactly the recorded price, the taker's
/// asset A account the vault's whole balance, and the maker's wallet the rents of
/// the vault and the record.
pub proof fn lemma_take_settles(m: Accounts, a: Take, rent: u64, derived: Pubkey)
    requires
        take_checked(m, a, derived) is Ok,
        a.taker_ata_token_a != a.taker_ata_token_b,
        a.taker_ata_token_a != a.maker_ata_token_b,
        a.taker_ata_token_b != a.maker_ata_token_b,
        a.vault != a.taker_ata_token_a,
        a.vault != a.taker_ata_token_b,
        a.vault != a.maker_ata_token_b,
        a.escrow != a.taker_ata_token_a,
        a.escrow != a.taker_ata_token_b,
        a.escrow != a.maker_ata_token_b,
        is_wallet(m, a.maker),
        is_wallet(m, a.taker),
        a.maker != a.taker,
        lamports_of(m, a.taker) >= 2 * rent,
        balance(m, a.taker_ata_token_b) >= take_checked(m, a, derived)->Ok_0.receive,
        balance(m, a.maker_ata_token_b) + take_checked(m, a, derived)->Ok_0.receive <= u64::MAX,
        balance(m, a.taker_ata_token_a) + balance(m, a.vault) <= u64::MAX,
        lamports_of(m, a.maker) + lamports_of(m, a.vault) + lamports_of(m, a.escrow) <= u64::MAX,
    ensures
        take_result(m, a, rent, derived) is Ok,
        !take_result(m, a, rent, derived)->Ok_0.contains_key(a.vault),
        !take_result(m, a, rent, derived)->Ok_0.contains_key(a.escrow),
        balance(take_result(m, a, rent, derived)->Ok_0, a.maker_ata_token_b) == balance(m, a.maker_ata_token_b) + take_checked(m, a, derived)->Ok_0.receive,
        balance(take_result(m, a, rent, derived)->Ok_0, a.taker_ata_token_a) == balance(m, a.taker_ata_token_a) + balance(m, a.vault),
        balance(take_result(m, a, rent, derived)->Ok_0, a.taker_ata_token_b) == balance(m, a.taker_ata_token_b) - take_checked(m, a, derived)->Ok_0.receive,
        lamports_of(take_result(m, a, rent, derived)->Ok_0, a.maker) == lamports_of(m, a.maker) + lamports_of(m, a.vault) + lamports_of(m, a.escrow),
{
    let e = take_checked(m, a, derived)->Ok_0;
    let m0 = init_token_result(m, a.taker_ata_token_a, a.mint_a, a.taker, a.taker, rent)->Ok_0;
    assert(m0[a.taker].lamports >= rent);
    let m1 = init_token_result(m0, a.maker_ata_token_b, a.mint_b, a.maker, a.taker, rent)->Ok_0;
    assert(token_at(m1, a.taker_ata_token_b) == token_at(m, a.taker_ata_token_b));
    assert(token_at(m1, a.vault) == token_at(m, a.vault));
    assert(m1[a.vault] == m[a.vault]);
    assert(m1[a.escrow] == m[a.escrow]);
    assert(m1[a.maker] == m[a.maker]);
    assert(token_at(m1, a.maker_ata_token_b) is Some);
    assert(token_at(m1, a.taker_ata_token_a) is Some);
    assert(balance(m1, a.maker_ata_token_b) == balance(m, a.maker_ata_token_b));
    assert(balance(m1, a.taker_ata_token_a) == balance(m, a.taker_ata_token_a));
    let m2 = transfer_result(m1, a.taker_ata_token_b, a.maker_ata_token_b, a.taker, e.receive)->Ok_0;
    assert(token_at(m2, a.vault) == token_at(m, a.vault));
    assert(m2[a.vault].lamports == m[a.vault].lamports);
    assert(m2[a.escrow] == m[a.escrow]);
    assert(m2[a.maker] == m[a.maker]);
    assert(token_at(m2, a.taker_ata_token_a) == token_at(m1, a.taker_ata_token_a));
    let v = token_at(m2, a.vault)->Some_0;
    let m3 = transfer_result(m2, a.vault, a.taker_ata_token_a, a.escrow, v.amount)->Ok_0;
    assert(token_at(m3, a.vault)->Some_0.amount == 0);
    assert(m3[a.vault].lamports == m[a.vault].lamports);
    assert(m3[a.escrow] == m[a.escrow]);
    assert(m3[a.maker] == m[a.maker]);
    assert(token_at(m3, a.maker_ata_token_b) == token_at(m2, a.maker_ata_token_b));
    assert(token_at(m3, a.taker_ata_token_b) == token_at(m2, a.taker_ata_token_b));
    let m4 = close_token_result(m3, a.vault, a.maker, a.escrow)->Ok_0;
    assert(m4[a.maker].lamports == m[a.maker].lamports + m[a.vault].lamports);
    assert(m4[a.escrow] == m[a.escrow]);
}

/// Refund goes through only for the recorded maker: any other signer is refused
/// with `InvalidMaker`.
pub proof fn lemma_refund_only_by_maker(m: Accounts, a: Refund, rent: u64, derived: Pubkey)
    requires
        escrow_at(m, a.escrow) is Some,
        a.escrow == derived,
    ensures
        refund_result(m, a, rent, derived) is Ok ==> a.maker == escrow_at(m, a.escrow)->Some_0.maker,
        a.maker != escrow_at(m, a.escrow)->Some_0.maker ==> refund_result(m, a, rent, derived) == Err::<Accounts, EscrowError>(EscrowError::InvalidMaker),
{
}

/// A Refund that succeeds leaves neither the record nor the vault that Make
/// recorded for it. When the maker's asset A account existed already, that
/// account gains the vault's whole balance and the maker's wallet gains the
/// rents of the vault and the record.
pub proof fn lemma_refund_closes_offer(m: Accounts, a: Refund, rent: u64, derived: Pubkey)
    requires
        refund_result(m, a, rent, derived) is Ok,
        m.contains_key(a.maker_ata_token_a) ==> a.maker_ata_token_a != a.vault && a.maker_ata_token_a != a.maker,
    ensures
        !refund_result(m, a, rent, derived)->Ok_0.contains_key(a.escrow),
        !refund_result(m, a, rent, derived)->Ok_0.contains_key(escrow_at(m, a.escrow)->Some_0.vault),
        m.contains_key(a.maker_ata_token_a) ==> balance(refund_result(m, a, rent, derived)->Ok_0, a.maker_ata_token_a)
            == balance(m, a.maker_ata_token_a) + balance(m, a.vault),
        m.contains_key(a.maker_ata_token_a) ==> lamports_of(refund_result(m, a, rent, derived)->Ok_0, a.maker)
            == lamports_of(m, a.maker) + lamports_of(m, a.vault) + lamports_of(m, a.escrow),
{
    let e = refund_checked(m, a, derived)->Ok_0;
    assert(a.vault == e.vault);
    if m.contains_key(a.maker_ata_token_a) {
        let v = token_at(m, a.vault)->Some_0;
        let m3 = transfer_result(m, a.vault, a.maker_ata_token_a, a.escrow, v.amount)->Ok_0;
        assert(m3[a.vault].lamports == m[a.vault].lamports);
        assert(m3[a.escrow] == m[a.escrow]);
        assert(m3[a.maker] == m[a.maker]);
        let m4 = close_token_result(m3, a.vault, a.maker, a.escrow)->Ok_0;
        assert(m4[a.maker].lamports == m[a.maker].lamports + m[a.vault].lamports);
        assert(m4[a.escrow] == m[a.escrow]);
        assert(token_at(m4, a.maker_ata_token_a) == token_at(m3, a.maker_ata_token_a));
    }
}

} // verus!
