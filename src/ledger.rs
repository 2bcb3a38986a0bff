//! A model of the accounts that a transaction touches: wallets, token accounts,
//! escrow records and loan-record accounts, keyed by identity. Every account
//! holds a native balance (its rent); creating an account takes that balance
//! from a payer and closing one hands it to a destination. Token movements
//! follow the rules of the asset-transfer service.

use vstd::prelude::*;
use crate::bytes::{Pubkey, pubkey_eq};
use crate::escrow::Escrow;
use crate::batch_loan::LoanData;

verus! {

/// A token account: which asset it holds, who may move it, and how much.
#[derive(Clone, Copy, Debug, PartialEq, Eq)]
pub struct TokenState {
    pub mint: Pubkey,
    pub owner: Pubkey,
    pub amount: u64,
}

/// What an account holds besides its native balance.
#[derive(Debug)]
pub enum AccountData {
    /// A user's wallet: native balance only.
    System,
    Token(TokenState),
    Escrow(Escrow),
    Loans(Vec<LoanData>),
}

/// The data of an account, as the contracts see it.
pub enum Contents {
    System,
    Token(TokenState),
    Escrow(Escrow),
    Loans(Seq<LoanData>),
}

impl View for AccountData {
    type V = Contents;

    open spec fn view(&self) -> Contents {
        match self {
            AccountData::System => Contents::System,
            AccountData::Token(t) => Contents::Token(*t),
            AccountData::Escrow(e) => Contents::Escrow(*e),
            AccountData::Loans(v) => Contents::Loans(v@),
        }
    }
}

impl AccountData {
    /// A copy with the same contents.
    pub fn duplicate(&self) -> (r: AccountData)
        ensures
            r@ == self@,
    {
        match self {
            AccountData::System => AccountData::System,
            AccountData::Token(t) => AccountData::Token(*t),
            AccountData::Escrow(e) => AccountData::Escrow(*e),
            AccountData::Loans(v) => {
                let mut w: Vec<LoanData> = Vec::new();
                let mut i: usize = 0;
                while i < v.len()
                    invariant
                        i <= v@.len(),
                        w@ == v@.subrange(0, i as int),
                    decreases v@.len() - i,
                {
                    w.push(v[i]);
                    i += 1;
                    assert(w@ =~= v@.subrange(0, i as int));
                }
                assert(w@ =~= v@);
                AccountData::Loans(w)
            },
        }
    }
}

#[derive(Debug)]
pub struct Account {
    pub key: Pubkey,
    /// Native balance, in the runtime's smallest unit.
    pub lamports: u64,
    pub data: AccountData,
}

/// A live account as the contracts see it.
pub struct AccountState {
    pub lamports: u64,
    pub data: Contents,
}

/// The live accounts of a ledger, by identity.
pub type Accounts = Map<Pubkey, AccountState>;

/// Failures of the runtime and of the asset-transfer service.
#[derive(Clone, Copy, Debug, PartialEq, Eq, Structural)]
pub enum TokenError {
    /// The account does not exist or is not of the expected kind.
    AccountNotFound,
    /// The signing authority does not own the source account.
    OwnerMismatch,
    /// Source and destination hold different assets.
    MintMismatch,
    /// The source holds less than the amount asked for.
    InsufficientFunds,
    /// A balance would exceed `u64::MAX`.
    Overflow,
    /// A token account can only be closed once it is empty.
    NonEmptyAccount,
    /// An account with this identity already exists.
    AlreadyInUse,
    /// The payer's native balance does not cover the new account's rent.
    InsufficientLamports,
    /// An account cannot be closed into itself or into a missing account.
    InvalidDestination,
}

/// One `(identity, state)` pair per account.
pub type Entries = Seq<(Pubkey, AccountState)>;

pub open spec fn entries_of(s: Seq<Account>) -> Entries {
    s.map_values(|a: Account| (a.key, AccountState { lamports: a.lamports, data: a.data@ }))
}

pub open spec fn keys_unique(s: Entries) -> bool {
    forall|i: int, j: int| 0 <= i < s.len() && 0 <= j < s.len() && i != j ==> s[i].0 != s[j].0
}

pub open spec fn holds_key(s: Entries, k: Pubkey) -> bool {
    exists|i: int| 0 <= i < s.len() && s[i].0 == k
}

/// The accounts as a map from identity to state.
pub open spec fn accounts_map(s: Entries) -> Accounts {
    Map::new(
        |k: Pubkey| holds_key(s, k),
        |k: Pubkey| s[choose|i: int| 0 <= i < s.len() && s[i].0 == k].1,
    )
}

/// The token account at `k`, if there is one.
pub open spec fn token_at(m: Accounts, k: Pubkey) -> Option<TokenState> {
    if m.contains_key(k) {
        match m[k].data {
            Contents::Token(t) => Some(t),
            _ => None,
        }
    } else {
        None
    }
}

/// The escrow record at `k`, if there is one.
pub open spec fn escrow_at(m: Accounts, k: Pubkey) -> Option<Escrow> {
    if m.contains_key(k) {
        match m[k].data {
            Contents::Escrow(e) => Some(e),
            _ => None,
        }
    } else {
        None
    }
}

/// The loan records held at `k`, if that account holds any.
pub open spec fn loans_at(m: Accounts, k: Pubkey) -> Option<Seq<LoanData>> {
    if m.contains_key(k) {
        match m[k].data {
            Contents::Loans(v) => Some(v),
            _ => None,
        }
    } else {
        None
    }
}

/// The native balance at `k`; zero where no account is live.
pub open spec fn lamports_of(m: Accounts, k: Pubkey) -> int {
    if m.contains_key(k) {
        m[k].lamports as int
    } else {
        0
    }
}

/// The token balance at `k`; zero where no token account is live.
pub open spec fn balance(m: Accounts, k: Pubkey) -> int {
    match token_at(m, k) {
        Some(t) => t.amount as int,
        None => 0,
    }
}

/// The accounts with the data of the live account `k` replaced, its native balance kept.
pub open spec fn with_data(m: Accounts, k: Pubkey, d: Contents) -> Accounts {
    m.insert(k, AccountState { lamports: m[k].lamports, data: d })
}

/// A token transfer of `amount` from `from` to `to`, signed by `authority`.
pub open spec fn transfer_result(
    m: Accounts,
    from: Pubkey,
    to: Pubkey,
    authority: Pubkey,
    amount: u64,
) -> Result<Accounts, TokenError> {
    match (token_at(m, from), token_at(m, to)) {
        (Some(f), Some(t)) => {
            if f.owner != authority {
                Err(TokenError::OwnerMismatch)
            } else if f.mint != t.mint {
                Err(TokenError::MintMismatch)
            } else if f.amount < amount {
                Err(TokenError::InsufficientFunds)
            } else if from == to {
                Ok(m)
            } else if t.amount + amount > u64::MAX {
                Err(TokenError::Overflow)
            } else {
                Ok(
                    with_data(
                        with_data(m, from, Contents::Token(TokenState { amount: (f.amount - amount) as u64, ..f })),
                        to,
                        Contents::Token(TokenState { amount: (t.amount + amount) as u64, ..t }),
                    ),
                )
            }
        },
        _ => Err(TokenError::AccountNotFound),
    }
}

/// Allocating `key` with `data`, its rent `rent` paid from the native balance of `payer`.
pub open spec fn create_result(m: Accounts, payer: Pubkey, key: Pubkey, data: Contents, rent: u64) -> Result<Accounts, TokenError> {
    if m.contains_key(key) {
        Err(TokenError::AlreadyInUse)
    } else if !m.contains_key(payer) {
        Err(TokenError::AccountNotFound)
    } else if m[payer].lamports < rent {
        Err(TokenError::InsufficientLamports)
    } else {
        Ok(
            m.insert(payer, AccountState { lamports: (m[payer].lamports - rent) as u64, data: m[payer].data })
                .insert(key, AccountState { lamports: rent, data }),
        )
    }
}

/// Deleting `account` and crediting its whole native balance to `destination`.
pub open spec fn close_result(m: Accounts, account: Pubkey, destination: Pubkey) -> Result<Accounts, TokenError> {
    if !m.contains_key(account) {
        Err(TokenError::AccountNotFound)
    } else if !m.contains_key(destination) || destination == account {
        Err(TokenError::InvalidDestination)
    } else if m[destination].lamports + m[account].lamports > u64::MAX {
        Err(TokenError::Overflow)
    } else {
        Ok(
            m.insert(
                destination,
                AccountState { lamports: (m[destination].lamports + m[account].lamports) as u64, data: m[destination].data },
            ).remove(account),
        )
    }
}

/// Closing the empty token account `account`, signed by `authority`, its rent to `destination`.
pub open spec fn close_token_result(
    m: Accounts,
    account: Pubkey,
    destination: Pubkey,
    authority: Pubkey,
) -> Result<Accounts, TokenError> {
    match token_at(m, account) {
        Some(t) => {
            if t.owner != authority {
                Err(TokenError::OwnerMismatch)
            } else if t.amount != 0 {
                Err(TokenError::NonEmptyAccount)
            } else {
                close_result(m, account, destination)
            }
        },
        None => Err(TokenError::AccountNotFound),
    }
}

/// Creating an empty token account at `k` for `mint` and `owner`, paid by
/// `payer`, unless `k` is live already.
pub open spec fn init_token_result(m: Accounts, k: Pubkey, mint: Pubkey, owner: Pubkey, payer: Pubkey, rent: u64) -> Result<Accounts, TokenError> {
    if m.contains_key(k) {
        Ok(m)
    } else {
        create_result(m, payer, k, Contents::Token(TokenState { mint, owner, amount: 0 }), rent)
    }
}

/// A step that, on success, leaves exactly `expected`, and fails with its error.
pub open spec fn reaches<E>(r: Result<(), E>, after: Accounts, expected: Result<Accounts, E>) -> bool {
    match expected {
        Ok(m) => r is Ok && after == m,
        Err(e) => r == Err::<(), E>(e),
    }
}

/// An instruction that either succeeds with `expected` or fails and changes nothing.
pub open spec fn settles<E>(r: Result<(), E>, before: Accounts, after: Accounts, expected: Result<Accounts, E>) -> bool {
    reaches(r, after, expected) && (r is Err ==> after == before)
}

proof fn lemma_map_at(s: Entries, i: int)
    requires
        keys_unique(s),
        0 <= i < s.len(),
    ensures
        accounts_map(s).contains_key(s[i].0),
        accounts_map(s)[s[i].0] == s[i].1,
{
    let k = s[i].0;
    assert(holds_key(s, k));
    let j = choose|j: int| 0 <= j < s.len() && s[j].0 == k;
    assert(j == i);
}

proof fn lemma_map_update(s: Entries, i: int, d: AccountState)
    requires
        keys_unique(s),
        0 <= i < s.len(),
    ensures
        keys_unique(s.update(i, (s[i].0, d))),
        accounts_map(s.update(i, (s[i].0, d))) =~= accounts_map(s).insert(s[i].0, d),
{
    let t = s.update(i, (s[i].0, d));
    let m = accounts_map(s).insert(s[i].0, d);
    assert forall|k: Pubkey| holds_key(t, k) <==> m.contains_key(k) by {
        if holds_key(s, k) {
            let j = choose|j: int| 0 <= j < s.len() && s[j].0 == k;
            assert(t[j].0 == k);
        }
        if holds_key(t, k) {
            let j = choose|j: int| 0 <= j < t.len() && t[j].0 == k;
            assert(s[j].0 == k);
        }
    }
    assert forall|k: Pubkey| #[trigger] m.contains_key(k) implies accounts_map(t)[k] == m[k] by {
        assert(holds_key(t, k));
        let j = choose|j: int| 0 <= j < t.len() && t[j].0 == k;
        if k != s[i].0 {
            lemma_map_at(s, j);
        }
    }
}

proof fn lemma_map_push(s: Entries, a: (Pubkey, AccountState))
    requires
        keys_unique(s),
        !accounts_map(s).contains_key(a.0),
    ensures
        keys_unique(s.push(a)),
        accounts_map(s.push(a)) =~= accounts_map(s).insert(a.0, a.1),
{
    let t = s.push(a);
    let m = accounts_map(s).insert(a.0, a.1);
    assert forall|i: int| 0 <= i < s.len() implies s[i].0 != a.0 by {
        assert(holds_key(s, s[i].0));
    }
    assert forall|k: Pubkey| holds_key(t, k) <==> m.contains_key(k) by {
        if holds_key(s, k) {
            let j = choose|j: int| 0 <= j < s.len() && s[j].0 == k;
            assert(t[j].0 == k);
        }
        if k == a.0 {
            assert(t[s.len() as int].0 == k);
        }
        if holds_key(t, k) && k != a.0 {
            let j = choose|j: int| 0 <= j < t.len() && t[j].0 == k;
            assert(s[j].0 == k);
        }
    }
    assert forall|k: Pubkey| #[trigger] m.contains_key(k) implies accounts_map(t)[k] == m[k] by {
        assert(holds_key(t, k));
        let j = choose|j: int| 0 <= j < t.len() && t[j].0 == k;
        if k != a.0 {
            lemma_map_at(s, j);
        }
    }
}

proof fn lemma_map_remove(s: Entries, i: int)
    requires
        keys_unique(s),
        0 <= i < s.len(),
    ensures
        keys_unique(s.remove(i)),
        accounts_map(s.remove(i)) =~= accounts_map(s).remove(s[i].0),
{
    let t = s.remove(i);
    let m = accounts_map(s).remove(s[i].0);
    assert forall|a: int, b: int| 0 <= a < t.len() && 0 <= b < t.len() && a != b implies t[a].0 != t[b].0 by {
        let a2 = if a < i { a } else { a + 1 };
        let b2 = if b < i { b } else { b + 1 };
        assert(t[a] == s[a2] && t[b] == s[b2]);
    }
    assert forall|k: Pubkey| holds_key(t, k) <==> m.contains_key(k) by {
        if holds_key(s, k) && k != s[i].0 {
            let j = choose|j: int| 0 <= j < s.len() && s[j].0 == k;
            let j2 = if j < i { j } else { j - 1 };
            assert(t[j2].0 == k);
        }
        if holds_key(t, k) {
            let j = choose|j: int| 0 <= j < t.len() && t[j].0 == k;
            let j2 = if j < i { j } else { j + 1 };
            assert(s[j2].0 == k);
        }
    }
    assert forall|k: Pubkey| #[trigger] m.contains_key(k) implies accounts_map(t)[k] == m[k] by {
        assert(holds_key(t, k));
        let j = choose|j: int| 0 <= j < t.len() && t[j].0 == k;
        let j2 = if j < i { j } else { j + 1 };
        assert(s[j2] == t[j]);
        lemma_map_at(s, j2);
        lemma_map_at(t, j);
    }
}

/// The accounts that a transaction can read and change.
pub struct Ledger {
    pub accounts: Vec<Account>,
}

impl Ledger {
    pub open spec fn entries(&self) -> Entries {
        entries_of(self.accounts@)
    }

    /// Each identity is live at most once.
    pub open spec fn wf(&self) -> bool {
        keys_unique(self.entries())
    }

    /// The live accounts by identity.
    pub open spec fn model(&self) -> Accounts {
        accounts_map(self.entries())
    }

    /// An empty ledger.
    pub fn new() -> (r: Ledger)
        ensures
            r.wf(),
            r.model() == Map::<Pubkey, AccountState>::empty(),
    {
        let r = Ledger { accounts: Vec::new() };
        assert(r.model() =~= Map::<Pubkey, AccountState>::empty());
        r
    }

    /// A copy of every account, used to undo a failed instruction.
    pub fn snapshot(&self) -> (r: Ledger)
        ensures
            r.entries() == self.entries(),
    {
        let mut v: Vec<Account> = Vec::new();
        let mut i: usize = 0;
        while i < self.accounts.len()
            invariant
                i <= self.accounts@.len(),
                entries_of(v@) == self.entries().subrange(0, i as int),
            decreases self.accounts@.len() - i,
        {
            let a = &self.accounts[i];
            let d = a.data.duplicate();
            let ghost before = v@;
            v.push(Account { key: a.key, lamports: a.lamports, data: d });
            assert(entries_of(v@) =~= entries_of(before).push(self.entries()[i as int]));
            i += 1;
            assert(entries_of(v@) =~= self.entries().subrange(0, i as int));
        }
        assert(entries_of(v@) =~= self.entries());
        Ledger { accounts: v }
    }

    /// Position of the account `key`, if it is live.
    pub fn position(&self, key: &Pubkey) -> (r: Option<usize>)
        requires
            self.wf(),
        ensures
            r is None <==> !self.model().contains_key(*key),
            r matches Some(i) ==> i < self.accounts@.len() && self.accounts@[i as int].key == *key,
    {
        let mut i: usize = 0;
        while i < self.accounts.len()
            invariant
                i <= self.accounts@.len(),
                forall|j: int| 0 <= j < i ==> self.accounts@[j].key != *key,
            decreases self.accounts@.len() - i,
        {
            if pubkey_eq(&self.accounts[i].key, key) {
                assert(self.entries()[i as int].0 == *key);
                return Some(i);
            }
            i += 1;
        }
        proof {
            if holds_key(self.entries(), *key) {
                let j = choose|j: int| 0 <= j < self.entries().len() && self.entries()[j].0 == *key;
                assert(self.accounts@[j].key == *key);
            }
        }
        None
    }

    /// Whether the account `key` is live.
    pub fn contains(&self, key: &Pubkey) -> (r: bool)
        requires
            self.wf(),
        ensures
            r == self.model().contains_key(*key),
    {
        match self.position(key) {
            Some(i) => {
                proof {
                    lemma_map_at(self.entries(), i as int);
                }
                true
            },
            None => false,
        }
    }

    /// The native balance of the live account `key`, if it is live.
    pub fn lamports(&self, key: &Pubkey) -> (r: Option<u64>)
        requires
            self.wf(),
        ensures
            r is Some <==> self.model().contains_key(*key),
            r matches Some(l) ==> l == self.model()[*key].lamports,
    {
        match self.position(key) {
            Some(i) => {
                proof {
                    lemma_map_at(self.entries(), i as int);
                }
                Some(self.accounts[i].lamports)
            },
            None => None,
        }
    }

    /// The token account at `key`, if there is one.
    pub fn token(&self, key: &Pubkey) -> (r: Option<TokenState>)
        requires
            self.wf(),
        ensures
            r == token_at(self.model(), *key),
    {
        match self.position(key) {
            Some(i) => {
                proof {
                    lemma_map_at(self.entries(), i as int);
                }
                match &self.accounts[i].data {
                    AccountData::Token(t) => Some(*t),
                    _ => None,
                }
            },
            None => None,
        }
    }

    /// The escrow record at `key`, if there is one.
    pub fn escrow(&self, key: &Pubkey) -> (r: Option<Escrow>)
        requires
            self.wf(),
        ensures
            r == escrow_at(self.model(), *key),
    {
        match self.position(key) {
            Some(i) => {
                proof {
                    lemma_map_at(self.entries(), i as int);
                }
                match &self.accounts[i].data {
                    AccountData::Escrow(e) => Some(*e),
                    _ => None,
                }
            },
            None => None,
        }
    }

    /// A copy of the loan records held at `key`, if that account holds any.
    pub fn loan_records(&self, key: &Pubkey) -> (r: Option<Vec<LoanData>>)
        requires
            self.wf(),
        ensures
            r is Some <==> loans_at(self.model(), *key) is Some,
            r matches Some(v) ==> loans_at(self.model(), *key) == Some(v@),
    {
        match self.position(key) {
            Some(i) => {
                proof {
                    lemma_map_at(self.entries(), i as int);
                }
                match self.accounts[i].data.duplicate() {
                    AccountData::Loans(v) => Some(v),
                    _ => None,
                }
            },
            None => None,
        }
    }

    /// Adds an account that exists already, with its native balance, as the
    /// runtime hands it over; fails when the identity is already live.
    pub fn load(&mut self, key: Pubkey, lamports: u64, data: AccountData) -> (r: Result<(), TokenError>)
        requires
            old(self).wf(),
        ensures
            final(self).wf(),
            settles(
                r,
                old(self).model(),
                final(self).model(),
                if old(self).model().contains_key(key) {
                    Err(TokenError::AlreadyInUse)
                } else {
                    Ok(old(self).model().insert(key, AccountState { lamports, data: data@ }))
                },
            ),
    {
        if self.contains(&key) {
            return Err(TokenError::AlreadyInUse);
        }
        proof {
            lemma_map_push(self.entries(), (key, AccountState { lamports, data: data@ }));
        }
        let ghost before = self.accounts@;
        let ghost dv = data@;
        self.accounts.push(Account { key, lamports, data });
        assert(self.entries() =~= entries_of(before).push((key, AccountState { lamports, data: dv })));
        Ok(())
    }

    /// Sets the native balance and data of the live account `key`.
    fn set(&mut self, key: &Pubkey, lamports: u64, data: AccountData)
        requires
            old(self).wf(),
            old(self).model().contains_key(*key),
        ensures
            final(self).wf(),
            final(self).model() == old(self).model().insert(*key, AccountState { lamports, data: data@ }),
    {
        let i = self.position(key).unwrap();
        proof {
            lemma_map_update(self.entries(), i as int, AccountState { lamports, data: data@ });
        }
        let ghost before = self.accounts@;
        let ghost dv = data@;
        self.accounts.set(i, Account { key: *key, lamports, data });
        assert(self.entries() =~= entries_of(before).update(i as int, (*key, AccountState { lamports, data: dv })));
    }

    /// Replaces the data of the live account `key`, keeping its native balance.
    pub fn replace(&mut self, key: &Pubkey, data: AccountData)
        requires
            old(self).wf(),
            old(self).model().contains_key(*key),
        ensures
            final(self).wf(),
            final(self).model() == with_data(old(self).model(), *key, data@),
    {
        let lamports = self.lamports(key).unwrap();
        self.set(key, lamports, data);
    }

    /// Allocates `key` holding `data`; its rent `rent` comes out of the native
    /// balance of `payer`.
    pub fn create(&mut self, payer: &Pubkey, key: Pubkey, data: AccountData, rent: u64) -> (r: Result<(), TokenError>)
        requires
            old(self).wf(),
        ensures
            final(self).wf(),
            settles(r, old(self).model(), final(self).model(), create_result(old(self).model(), *payer, key, data@, rent)),
    {
        if self.contains(&key) {
            return Err(TokenError::AlreadyInUse);
        }
        let i = match self.position(payer) {
            Some(i) => i,
            None => return Err(TokenError::AccountNotFound),
        };
        proof {
            lemma_map_at(self.entries(), i as int);
        }
        let paid = self.accounts[i].lamports;
        if paid < rent {
            return Err(TokenError::InsufficientLamports);
        }
        let payer_data = self.accounts[i].data.duplicate();
        self.set(payer, paid - rent, payer_data);
        let _ = self.load(key, rent, data);
        Ok(())
    }

    /// Creates an empty token account at `key` for `mint` and `owner`, paid by
    /// `payer`, unless `key` is live already.
    pub fn init_if_needed(&mut self, key: &Pubkey, mint: &Pubkey, owner: &Pubkey, payer: &Pubkey, rent: u64) -> (r: Result<(), TokenError>)
        requires
            old(self).wf(),
        ensures
            final(self).wf(),
            settles(r, old(self).model(), final(self).model(), init_token_result(old(self).model(), *key, *mint, *owner, *payer, rent)),
    {
        if self.contains(key) {
            return Ok(());
        }
        self.create(payer, *key, AccountData::Token(TokenState { mint: *mint, owner: *owner, amount: 0 }), rent)
    }

    /// Deletes `account` and credits its whole native balance to `destination`.
    pub fn close(&mut self, account: &Pubkey, destination: &Pubkey) -> (r: Result<(), TokenError>)
        requires
            old(self).wf(),
        ensures
            final(self).wf(),
            settles(r, old(self).model(), final(self).model(), close_result(old(self).model(), *account, *destination)),
    {
        let i = match self.position(account) {
            Some(i) => i,
            None => return Err(TokenError::AccountNotFound),
        };
        let j = match self.position(destination) {
            Some(j) => j,
            None => return Err(TokenError::InvalidDestination),
        };
        if pubkey_eq(account, destination) {
            return Err(TokenError::InvalidDestination);
        }
        proof {
            lemma_map_at(self.entries(), i as int);
            lemma_map_at(self.entries(), j as int);
        }
        let rent = self.accounts[i].lamports;
        let held = self.accounts[j].lamports;
        if held > u64::MAX - rent {
            return Err(TokenError::Overflow);
        }
        let dest_data = self.accounts[j].data.duplicate();
        self.set(destination, held + rent, dest_data);
        let k = self.position(account).unwrap();
        proof {
            lemma_map_remove(self.entries(), k as int);
        }
        let ghost before = self.accounts@;
        self.accounts.remove(k);
        assert(self.entries() =~= entries_of(before).remove(k as int));
        Ok(())
    }

    /// Moves `amount` tokens from `from` to `to` under the signature of `authority`.
    pub fn transfer(&mut self, from: &Pubkey, to: &Pubkey, authority: &Pubkey, amount: u64) -> (r: Result<(), TokenError>)
        requires
            old(self).wf(),
        ensures
            final(self).wf(),
            settles(r, old(self).model(), final(self).model(), transfer_result(old(self).model(), *from, *to, *authority, amount)),
    {
        let f = match self.token(from) {
            Some(f) => f,
            None => return Err(TokenError::AccountNotFound),
        };
        let t = match self.token(to) {
            Some(t) => t,
            None => return Err(TokenError::AccountNotFound),
        };
        if !pubkey_eq(&f.owner, authority) {
            return Err(TokenError::OwnerMismatch);
        }
        if !pubkey_eq(&f.mint, &t.mint) {
            return Err(TokenError::MintMismatch);
        }
        if f.amount < amount {
            return Err(TokenError::InsufficientFunds);
        }
        if pubkey_eq(from, to) {
            return Ok(());
        }
        if t.amount > u64::MAX - amount {
            return Err(TokenError::Overflow);
        }
        self.replace(from, AccountData::Token(TokenState { amount: f.amount - amount, ..f }));
        self.replace(to, AccountData::Token(TokenState { amount: t.amount + amount, ..t }));
        Ok(())
    }

    /// Closes the empty token account `account` under the signature of
    /// `authority`; its native balance goes to `destination`.
    pub fn close_token(&mut self, account: &Pubkey, destination: &Pubkey, authority: &Pubkey) -> (r: Result<(), TokenError>)
        requires
            old(self).wf(),
        ensures
            final(self).wf(),
            settles(r, old(self).model(), final(self).model(), close_token_result(old(self).model(), *account, *destination, *authority)),
    {
        let t = match self.token(account) {
            Some(t) => t,
            None => return Err(TokenError::AccountNotFound),
        };
        if !pubkey_eq(&t.owner, authority) {
            return Err(TokenError::OwnerMismatch);
        }
        if t.amount != 0 {
            return Err(TokenError::NonEmptyAccount);
        }
        self.close(account, destination)
    }
}

} // verus!
