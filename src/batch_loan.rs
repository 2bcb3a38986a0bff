//! Batched flash loans. Loan lends several assets at once and writes, per loan,
//! the pool account and the balance it must reach again (its balance before the
//! loan plus the fee); it must be answered by this program's Repay as the last
//! instruction of the transaction. Repay moves nothing itself: it checks each
//! pool against its record and then deletes the record account.

use vstd::prelude::*;
use crate::bytes::{Pubkey, le_u16, le_u64, pubkey_eq, read_pubkey, read_u16_le, read_u64_le, u64_to_le};
use crate::introspect::Instructions;
use crate::ledger::{
    Accounts, AccountData, Contents, Ledger, TokenError, close_result, create_result, loans_at, reaches, settles,
    token_at, transfer_result, with_data,
};

verus! {

/// Identity of the runtime's instruction-introspection account.
pub const INSTRUCTIONS_SYSVAR_ID: Pubkey = [
    0x06, 0xa7, 0xd5, 0x17, 0x18, 0x7b, 0xd1, 0x66, 0x35, 0xda, 0xd4, 0x04, 0x55, 0xfd, 0xc2, 0xc0,
    0xc1, 0x24, 0xc6, 0x8f, 0x21, 0x56, 0x75, 0xa5, 0xdb, 0xba, 0xcb, 0x5f, 0x08, 0x00, 0x00, 0x00,
];

/// First payload byte of a Loan instruction.
pub const LOAN_DISCRIMINATOR: u8 = 0;

/// First payload byte of a Repay instruction.
pub const REPAY_DISCRIMINATOR: u8 = 1;

/// Accounts that precede the token accounts in a Loan: borrower, protocol, loan
/// record, introspection account, token program, system program.
pub const LOAN_FIXED_ACCOUNTS: usize = 6;

/// Bytes of one packed loan record: a 32-byte identity and a `u64`.
pub const LOAN_DATA_SIZE: usize = 40;

#[derive(Clone, Copy, Debug, PartialEq, Eq, Structural)]
pub enum LoanError {
    NotEnoughAccountKeys,
    UnsupportedSysvar,
    InvalidAccountData,
    InvalidInstructionData,
    /// The protocol account is not the address derived from its seeds.
    InvalidProtocolAuthority,
    /// The asset-transfer service refused a step.
    Token(TokenError),
}

/// One loan of a batch: the pool account and the balance it must reach again.
#[derive(Clone, Copy, Debug, PartialEq, Eq)]
pub struct LoanData {
    pub protocol_token_account: Pubkey,
    pub balance: u64,
}

/// Whether the record at `i` of `recs` is stored in `b` at byte `40 * i`: the
/// pool identity, then the balance as a little-endian `u64`.
pub open spec fn record_stored(b: Seq<u8>, recs: Seq<LoanData>, i: int) -> bool {
    &&& recs[i].protocol_token_account@ == b.subrange(40 * i, 40 * i + 32)
    &&& recs[i].balance == le_u64(b.subrange(40 * i + 32, 40 * i + 40))
}

/// The packed layout of a record account: 40 bytes per record, in order.
pub open spec fn packs(b: Seq<u8>, recs: Seq<LoanData>) -> bool {
    &&& b.len() == 40 * recs.len()
    &&& forall|i: int| 0 <= i < recs.len() ==> #[trigger] record_stored(b, recs, i)
}

/// Packs the records into a record account's data.
pub fn encode_loan_records(records: &Vec<LoanData>) -> (r: Vec<u8>)
    requires
        40 * records@.len() <= usize::MAX,
    ensures
        packs(r@, records@),
{
    let mut out: Vec<u8> = Vec::new();
    let mut i: usize = 0;
    while i < records.len()
        invariant
            i <= records@.len(),
            40 * records@.len() <= usize::MAX,
            out@.len() == 40 * i,
            forall|j: int| 0 <= j < i ==> #[trigger] record_stored(out@, records@, j),
        decreases records@.len() - i,
    {
        let rec = records[i];
        let ghost before = out@;
        let mut j: usize = 0;
        while j < 32
            invariant
                j <= 32,
                out@.len() == 40 * i + j,
                out@.subrange(0, 40 * i as int) == before,
                forall|t: int| 0 <= t < j ==> out@[40 * i + t] == rec.protocol_token_account@[t],
            decreases 32 - j,
        {
            out.push(rec.protocol_token_account[j]);
            j += 1;
            assert(out@.subrange(0, 40 * i as int) =~= before);
        }
        let bytes = u64_to_le(rec.balance);
        let mut j: usize = 0;
        while j < 8
            invariant
                j <= 8,
                out@.len() == 40 * i + 32 + j,
                out@.subrange(0, 40 * i as int) == before,
                forall|t: int| 0 <= t < 32 ==> out@[40 * i + t] == rec.protocol_token_account@[t],
                forall|t: int| 0 <= t < j ==> out@[40 * i + 32 + t] == bytes@[t],
            decreases 8 - j,
        {
            out.push(bytes[j]);
            j += 1;
            assert(out@.subrange(0, 40 * i as int) =~= before);
        }
        assert(out@.subrange(40 * i as int, 40 * i + 32) =~= rec.protocol_token_account@);
        assert(out@.subrange(40 * i + 32, 40 * i + 40) =~= bytes@);
        assert forall|k: int| 0 <= k < i + 1 implies #[trigger] record_stored(out@, records@, k) by {
            if k < i {
                assert(record_stored(before, records@, k));
                assert(out@.subrange(40 * k, 40 * k + 32) =~= before.subrange(40 * k, 40 * k + 32));
                assert(out@.subrange(40 * k + 32, 40 * k + 40) =~= before.subrange(40 * k + 32, 40 * k + 40));
            }
        }
        i += 1;
    }
    out
}

/// Unpacks the records of a record account's data; trailing bytes that make no
/// whole record are ignored.
pub fn decode_loan_records(data: &[u8]) -> (r: Vec<LoanData>)
    ensures
        r@.len() == data@.len() / 40,
        forall|i: int| 0 <= i < r@.len() ==> #[trigger] record_stored(data@, r@, i),
{
    let n = data.len() / LOAN_DATA_SIZE;
    let len = data.len();
    let mut out: Vec<LoanData> = Vec::new();
    let mut i: usize = 0;
    while i < n
        invariant
            len == data@.len(),
            n == data@.len() / 40,
            i <= n,
            out@.len() == i,
            forall|j: int| 0 <= j < i ==> #[trigger] record_stored(data@, out@, j),
        decreases n - i,
    {
        assert(40 * i + 40 <= data@.len()) by (nonlinear_arith)
            requires
                i < n,
                n == data@.len() / 40,
        ;
        let key = read_pubkey(data, LOAN_DATA_SIZE * i).unwrap();
        let balance = read_u64_le(data, LOAN_DATA_SIZE * i + 32).unwrap();
        let ghost before = out@;
        out.push(LoanData { protocol_token_account: key, balance });
        assert forall|j: int| 0 <= j < i + 1 implies #[trigger] record_stored(data@, out@, j) by {
            if j < i {
                assert(out@[j] == before[j]);
                assert(record_stored(data@, before, j));
            }
        }
        i += 1;
    }
    out
}

/// Packing records and unpacking the bytes gives the same records back.
pub proof fn lemma_records_round_trip(b: Seq<u8>, recs: Seq<LoanData>, back: Seq<LoanData>)
    requires
        packs(b, recs),
        back.len() == b.len() / 40,
        forall|i: int| 0 <= i < back.len() ==> #[trigger] record_stored(b, back, i),
    ensures
        back =~= recs,
{
    assert(back.len() == recs.len()) by (nonlinear_arith)
        requires
            b.len() == 40 * recs.len(),
            back.len() == b.len() / 40,
    ;
    assert forall|i: int| 0 <= i < recs.len() implies back[i] == recs[i] by {
        assert(record_stored(b, back, i));
        assert(record_stored(b, recs, i));
        assert(back[i].protocol_token_account@ =~= recs[i].protocol_token_account@);
        assert(back[i].protocol_token_account =~= recs[i].protocol_token_account);
    }
}

/// Identity of the asset-transfer service, the owner of every token account.
pub const TOKEN_PROGRAM_ID: Pubkey = [
    0x06, 0xdd, 0xf6, 0xe1, 0xd7, 0x65, 0xa1, 0x93, 0xd9, 0xcb, 0xe1, 0x46, 0xce, 0xeb, 0x79, 0xac,
    0x1c, 0xb4, 0x85, 0xed, 0x5f, 0x5b, 0x37, 0x91, 0x3a, 0x8c, 0xf5, 0x85, 0x7e, 0xff, 0x00, 0xa9,
];

/// Bytes of a token account's data.
pub const TOKEN_ACCOUNT_LEN: usize = 165;

/// Reads the balance out of a token account: the account must be owned by the
/// asset-transfer service and hold exactly a token account's bytes; the balance
/// is the little-endian `u64` that follows the 32-byte mint and the 32-byte owner.
pub fn get_token_amount(owner: &Pubkey, data: &[u8]) -> (r: Result<u64, LoanError>)
    ensures
        r is Ok <==> *owner == TOKEN_PROGRAM_ID && data@.len() == 165,
        r matches Ok(v) ==> v == le_u64(data@.subrange(64, 72)),
        r is Err ==> r == Err::<u64, LoanError>(LoanError::InvalidAccountData),
{
    let token_program = TOKEN_PROGRAM_ID;
    if !pubkey_eq(owner, &token_program) || data.len() != TOKEN_ACCOUNT_LEN {
        return Err(LoanError::InvalidAccountData);
    }
    match read_u64_le(data, 64) {
        Some(v) => Ok(v),
        None => Err(LoanError::InvalidAccountData),
    }
}

/// The accounts of Loan.
#[derive(Debug)]
pub struct LoanAccounts {
    pub borrower: Pubkey,
    pub protocol: Pubkey,
    pub loan: Pubkey,
    pub instruction_sysvar: Pubkey,
    pub token_accounts: Vec<Pubkey>,
}

/// Why Loan's account list is refused, if it is.
pub open spec fn loan_accounts_error(keys: Seq<Pubkey>, m: Accounts) -> Option<LoanError> {
    if keys.len() < 6 {
        Some(LoanError::NotEnoughAccountKeys)
    } else if keys[3] != INSTRUCTIONS_SYSVAR_ID {
        Some(LoanError::UnsupportedSysvar)
    } else if (keys.len() - 6) % 2 != 0 || keys.len() == 6 {
        Some(LoanError::InvalidAccountData)
    } else if m.contains_key(keys[2]) {
        Some(LoanError::InvalidAccountData)
    } else {
        None
    }
}

impl LoanAccounts {
    /// The fields name the accounts of `keys`, in Loan's order.
    pub open spec fn lists(&self, keys: Seq<Pubkey>) -> bool {
        &&& self.borrower == keys[0]
        &&& self.protocol == keys[1]
        &&& self.loan == keys[2]
        &&& self.instruction_sysvar == keys[3]
        &&& self.token_accounts@ == keys.subrange(6, keys.len() as int)
    }

    /// Splits Loan's account list; the loan record account must not exist yet.
    pub fn try_from(keys: &[Pubkey], ledger: &Ledger) -> (r: Result<LoanAccounts, LoanError>)
        requires
            ledger.wf(),
        ensures
            match loan_accounts_error(keys@, ledger.model()) {
                Some(e) => r matches Err(x) && x == e,
                None => r matches Ok(a) && a.lists(keys@),
            },
    {
        if keys.len() < LOAN_FIXED_ACCOUNTS {
            return Err(LoanError::NotEnoughAccountKeys);
        }
        let sysvar = INSTRUCTIONS_SYSVAR_ID;
        if !pubkey_eq(&keys[3], &sysvar) {
            return Err(LoanError::UnsupportedSysvar);
        }
        let n = keys.len() - LOAN_FIXED_ACCOUNTS;
        if n % 2 != 0 || n == 0 {
            return Err(LoanError::InvalidAccountData);
        }
        if ledger.contains(&keys[2]) {
            return Err(LoanError::InvalidAccountData);
        }
        let mut token_accounts: Vec<Pubkey> = Vec::new();
        let mut i: usize = LOAN_FIXED_ACCOUNTS;
        while i < keys.len()
            invariant
                6 <= i <= keys@.len(),
                token_accounts@ == keys@.subrange(6, i as int),
            decreases keys@.len() - i,
        {
            token_accounts.push(keys[i]);
            i += 1;
            assert(token_accounts@ =~= keys@.subrange(6, i as int));
        }
        Ok(LoanAccounts { borrower: keys[0], protocol: keys[1], loan: keys[2], instruction_sysvar: keys[3], token_accounts })
    }
}

/// The payload of Loan: the protocol authority's bump, the fee in basis points,
/// and one amount per loan.
#[derive(Debug)]
pub struct LoanInstructionData {
    pub bump: [u8; 1],
    pub fees: u16,
    pub amounts: Vec<u64>,
}

/// The little-endian `u64`s packed in `b`; trailing bytes that make no whole value are ignored.
pub open spec fn amounts_of(b: Seq<u8>) -> Seq<u64> {
    Seq::new(b.len() / 8, |i: int| le_u64(b.subrange(8 * i, 8 * i + 8)) as u64)
}

impl LoanInstructionData {
    /// The fields are those encoded in `data`.
    pub open spec fn decodes(&self, data: Seq<u8>) -> bool {
        &&& self.bump@[0] == data[0]
        &&& self.fees == le_u16(data.subrange(1, 3))
        &&& self.amounts@ == amounts_of(data.subrange(3, data.len() as int))
    }

    /// Decodes a payload of a bump byte, a little-endian `u16` fee and the amounts.
    pub fn try_from(data: &[u8]) -> (r: Result<LoanInstructionData, LoanError>)
        ensures
            r is Ok <==> data@.len() >= 3,
            r matches Ok(d) ==> d.decodes(data@),
            r is Err ==> (r matches Err(x) && x == LoanError::InvalidInstructionData),
    {
        if data.len() < 1 {
            return Err(LoanError::InvalidInstructionData);
        }
        let fees = match read_u16_le(data, 1) {
            Some(f) => f,
            None => return Err(LoanError::InvalidInstructionData),
        };
        let ghost rest = data@.subrange(3, data@.len() as int);
        let len = data.len();
        let n = (len - 3) / 8;
        let mut amounts: Vec<u64> = Vec::new();
        let mut i: usize = 0;
        while i < n
            invariant
                len == data@.len(),
                n == (data@.len() - 3) / 8,
                data@.len() >= 3,
                rest == data@.subrange(3, data@.len() as int),
                i <= n,
                amounts@ == amounts_of(rest).subrange(0, i as int),
            decreases n - i,
        {
            assert(8 * i + 8 <= data@.len() - 3) by (nonlinear_arith)
                requires
                    i < n,
                    n == (data@.len() - 3) / 8,
                    data@.len() >= 3,
            ;
            let v = read_u64_le(data, 3 + 8 * i).unwrap();
            assert(data@.subrange(3 + 8 * i, 3 + 8 * i + 8) =~= rest.subrange(8 * i, 8 * i + 8));
            amounts.push(v);
            i += 1;
            assert(amounts@ =~= amounts_of(rest).subrange(0, i as int));
        }
        assert(amounts@ =~= amounts_of(rest));
        Ok(LoanInstructionData { bump: [data[0]], fees, amounts })
    }
}

/// A decoded Loan instruction.
#[derive(Debug)]
pub struct Loan {
    pub accounts: LoanAccounts,
    pub instruction_data: LoanInstructionData,
}

/// Why a Loan instruction is refused before anything moves, if it is.
pub open spec fn loan_parse_error(data: Seq<u8>, keys: Seq<Pubkey>, m: Accounts) -> Option<LoanError> {
    match loan_accounts_error(keys, m) {
        Some(e) => Some(e),
        None => {
            if data.len() < 3 {
                Some(LoanError::InvalidInstructionData)
            } else if amounts_of(data.subrange(3, data.len() as int)).len() != (keys.len() - 6) / 2 {
                Some(LoanError::InvalidInstructionData)
            } else {
                None
            }
        },
    }
}

/// Lending the `j`-th loan: its record and the accounts after its transfer.
pub open spec fn lend_step(m: Accounts, protocol: Pubkey, ta: Seq<Pubkey>, amounts: Seq<u64>, fees: u16, j: int) -> Result<(Accounts, LoanData), LoanError> {
    let pool = ta[2 * j];
    let amount = amounts[j];
    match token_at(m, pool) {
        None => Err(LoanError::InvalidAccountData),
        Some(p) => {
            if amount * fees > u64::MAX {
                Err(LoanError::InvalidInstructionData)
            } else if p.amount + amount * fees / 10000 > u64::MAX {
                Err(LoanError::InvalidInstructionData)
            } else {
                match transfer_result(m, pool, ta[2 * j + 1], protocol, amount) {
                    Err(x) => Err(LoanError::Token(x)),
                    Ok(m2) => Ok((m2, LoanData { protocol_token_account: pool, balance: (p.amount + amount * fees / 10000) as u64 })),
                }
            }
        },
    }
}

/// Lending the first `i` loans, one after the other.
pub open spec fn lend_from(m: Accounts, protocol: Pubkey, ta: Seq<Pubkey>, amounts: Seq<u64>, fees: u16, i: nat) -> Result<(Accounts, Seq<LoanData>), LoanError>
    decreases i,
{
    if i == 0 {
        Ok((m, Seq::empty()))
    } else {
        match lend_from(m, protocol, ta, amounts, fees, (i - 1) as nat) {
            Err(e) => Err(e),
            Ok((m1, recs)) => match lend_step(m1, protocol, ta, amounts, fees, i - 1) {
                Err(e) => Err(e),
                Ok((m2, rec)) => Ok((m2, recs.push(rec))),
            },
        }
    }
}

/// Whether the last instruction of `tx` is this program's Repay for the record account `loan`.
pub open spec fn repays_loan(tx: Instructions, program_id: Pubkey, loan: Pubkey) -> bool {
    &&& tx.len() > 0
    &&& tx.at(tx.len() - 1).program_id == program_id
    &&& tx.at(tx.len() - 1).data@.len() > 0
    &&& tx.at(tx.len() - 1).data@[0] == REPAY_DISCRIMINATOR
    &&& tx.at(tx.len() - 1).accounts@.len() > 1
    &&& tx.at(tx.len() - 1).accounts@[1] == loan
}

/// What a decoded Loan does to the accounts; the record account's rent `rent`
/// is paid by the borrower, and `derived` is the protocol authority's address.
pub open spec fn lend_result(
    m: Accounts,
    tx: Instructions,
    program_id: Pubkey,
    borrower: Pubkey,
    rent: u64,
    derived: Pubkey,
    protocol: Pubkey,
    loan: Pubkey,
    ta: Seq<Pubkey>,
    amounts: Seq<u64>,
    fees: u16,
) -> Result<Accounts, LoanError> {
    if protocol != derived {
        Err(LoanError::InvalidProtocolAuthority)
    } else {
    match create_result(m, borrower, loan, Contents::Loans(Seq::empty()), rent) {
        Err(x) => Err(LoanError::Token(x)),
        Ok(m0) => match lend_from(m0, protocol, ta, amounts, fees, amounts.len()) {
            Err(e) => Err(e),
            Ok((m1, recs)) => {
                if repays_loan(tx, program_id, loan) {
                    Ok(with_data(m1, loan, Contents::Loans(recs)))
                } else {
                    Err(LoanError::InvalidInstructionData)
                }
            },
        },
    }
    }
}

/// What a Loan instruction with payload `data` and accounts `keys` does to the
/// accounts, the record account's rent being `rent`.
pub open spec fn loan_result(m: Accounts, tx: Instructions, program_id: Pubkey, data: Seq<u8>, keys: Seq<Pubkey>, rent: u64, derived: Pubkey) -> Result<Accounts, LoanError> {
    match loan_parse_error(data, keys, m) {
        Some(e) => Err(e),
        None => lend_result(
            m,
            tx,
            program_id,
            keys[0],
            rent,
            derived,
            keys[1],
            keys[2],
            keys.subrange(6, keys.len() as int),
            amounts_of(data.subrange(3, data.len() as int)),
            le_u16(data.subrange(1, 3)) as u16,
        ),
    }
}

proof fn lemma_lend_failure_persists(m: Accounts, protocol: Pubkey, ta: Seq<Pubkey>, amounts: Seq<u64>, fees: u16, i: nat, n: nat)
    requires
        i <= n,
        lend_from(m, protocol, ta, amounts, fees, i) is Err,
    ensures
        lend_from(m, protocol, ta, amounts, fees, n) == lend_from(m, protocol, ta, amounts, fees, i),
    decreases n,
{
    if n > i {
        lemma_lend_failure_persists(m, protocol, ta, amounts, fees, i, (n - 1) as nat);
    }
}

impl Loan {
    /// One amount per pair of pool and borrower accounts.
    pub open spec fn wf(&self) -> bool {
        self.accounts.token_accounts@.len() == 2 * self.instruction_data.amounts@.len()
    }

    /// What this Loan does to the accounts.
    pub open spec fn result(&self, m: Accounts, tx: Instructions, program_id: Pubkey, rent: u64, derived: Pubkey) -> Result<Accounts, LoanError> {
        lend_result(
            m,
            tx,
            program_id,
            self.accounts.borrower,
            rent,
            derived,
            self.accounts.protocol,
            self.accounts.loan,
            self.accounts.token_accounts@,
            self.instruction_data.amounts@,
            self.instruction_data.fees,
        )
    }

    /// Decodes a Loan instruction; there must be one amount per pair of token accounts.
    pub fn try_from(data: &[u8], keys: &[Pubkey], ledger: &Ledger) -> (r: Result<Loan, LoanError>)
        requires
            ledger.wf(),
        ensures
            match loan_parse_error(data@, keys@, ledger.model()) {
                Some(e) => r matches Err(x) && x == e,
                None => r matches Ok(l) && l.wf() && l.accounts.lists(keys@) && l.instruction_data.decodes(data@),
            },
    {
        let accounts = match LoanAccounts::try_from(keys, ledger) {
            Ok(a) => a,
            Err(x) => return Err(x),
        };
        let instruction_data = match LoanInstructionData::try_from(data) {
            Ok(d) => d,
            Err(x) => return Err(x),
        };
        if instruction_data.amounts.len() != accounts.token_accounts.len() / 2 {
            return Err(LoanError::InvalidInstructionData);
        }
        Ok(Loan { accounts, instruction_data })
    }

    /// Allocates the record account, lends each amount under the protocol's
    /// authority while recording what its pool must hold again, and checks that
    /// the transaction ends with this program's Repay for the record account.
    pub fn process(&self, ledger: &mut Ledger, tx: &Instructions, program_id: &Pubkey, rent: u64, derived: &Pubkey) -> (r: Result<(), LoanError>)
        requires
            old(ledger).wf(),
            self.wf(),
        ensures
            final(ledger).wf(),
            settles(r, old(ledger).model(), final(ledger).model(), self.result(old(ledger).model(), *tx, *program_id, rent, *derived)),
    {
        let saved = ledger.snapshot();
        let r = self.lend(ledger, tx, program_id, rent, derived);
        if r.is_err() {
            *ledger = saved;
        }
        r
    }

    fn lend(&self, ledger: &mut Ledger, tx: &Instructions, program_id: &Pubkey, rent: u64, derived: &Pubkey) -> (r: Result<(), LoanError>)
        requires
            old(ledger).wf(),
            self.wf(),
        ensures
            final(ledger).wf(),
            reaches(r, final(ledger).model(), self.result(old(ledger).model(), *tx, *program_id, rent, *derived)),
    {
        let loan = self.accounts.loan;
        let protocol = self.accounts.protocol;
        let fees = self.instruction_data.fees;
        let ghost ta = self.accounts.token_accounts@;
        let ghost amounts = self.instruction_data.amounts@;
        let borrower = self.accounts.borrower;
        if !pubkey_eq(&protocol, derived) {
            return Err(LoanError::InvalidProtocolAuthority);
        }
        if let Err(x) = ledger.create(&borrower, loan, AccountData::Loans(Vec::new()), rent) {
            return Err(LoanError::Token(x));
        }
        let ghost m0 = ledger.model();
        let n = self.instruction_data.amounts.len();
        let tlen = self.accounts.token_accounts.len();
        let mut records: Vec<LoanData> = Vec::new();
        let mut i: usize = 0;
        while i < n
            invariant
                ledger.wf(),
                self.wf(),
                i <= n,
                n == amounts.len(),
                tlen == ta.len(),
                ta == self.accounts.token_accounts@,
                amounts == self.instruction_data.amounts@,
                protocol == self.accounts.protocol,
                fees == self.instruction_data.fees,
                lend_from(m0, protocol, ta, amounts, fees, i as nat) == Ok::<(Accounts, Seq<LoanData>), LoanError>((ledger.model(), records@)),
                ledger.model().contains_key(loan),
                create_result(old(ledger).model(), borrower, loan, Contents::Loans(Seq::empty()), rent) == Ok::<Accounts, TokenError>(m0),
                borrower == self.accounts.borrower,
                protocol == *derived,
                loan == self.accounts.loan,
            decreases n - i,
        {
            let pool = &self.accounts.token_accounts[2 * i];
            let to = &self.accounts.token_accounts[2 * i + 1];
            let amount = self.instruction_data.amounts[i];
            let p = match ledger.token(pool) {
                Some(p) => p,
                None => {
                    proof {
                        assert(lend_step(ledger.model(), protocol, ta, amounts, fees, i as int) == Err::<(Accounts, LoanData), LoanError>(LoanError::InvalidAccountData));
                        assert(lend_from(m0, protocol, ta, amounts, fees, (i + 1) as nat) == Err::<(Accounts, Seq<LoanData>), LoanError>(LoanError::InvalidAccountData));
                        lemma_lend_failure_persists(m0, protocol, ta, amounts, fees, (i + 1) as nat, n as nat);
                    }
                    return Err(LoanError::InvalidAccountData);
                },
            };
            let fee = match amount.checked_mul(fees as u64) {
                Some(x) => x / 10_000,
                None => {
                    proof {
                        assert(lend_step(ledger.model(), protocol, ta, amounts, fees, i as int) == Err::<(Accounts, LoanData), LoanError>(LoanError::InvalidInstructionData));
                        assert(lend_from(m0, protocol, ta, amounts, fees, (i + 1) as nat) == Err::<(Accounts, Seq<LoanData>), LoanError>(LoanError::InvalidInstructionData));
                        lemma_lend_failure_persists(m0, protocol, ta, amounts, fees, (i + 1) as nat, n as nat);
                    }
                    return Err(LoanError::InvalidInstructionData);
                },
            };
            let balance = match p.amount.checked_add(fee) {
                Some(b) => b,
                None => {
                    proof {
                        assert(lend_step(ledger.model(), protocol, ta, amounts, fees, i as int) == Err::<(Accounts, LoanData), LoanError>(LoanError::InvalidInstructionData));
                        assert(lend_from(m0, protocol, ta, amounts, fees, (i + 1) as nat) == Err::<(Accounts, Seq<LoanData>), LoanError>(LoanError::InvalidInstructionData));
                        lemma_lend_failure_persists(m0, protocol, ta, amounts, fees, (i + 1) as nat, n as nat);
                    }
                    return Err(LoanError::InvalidInstructionData);
                },
            };
            let ghost ghost_before = ledger.model();
            if let Err(x) = ledger.transfer(pool, to, &protocol, amount) {
                proof {
                    assert(lend_step(ghost_before, protocol, ta, amounts, fees, i as int) is Err);
                    assert(lend_from(m0, protocol, ta, amounts, fees, (i + 1) as nat) is Err);
                    lemma_lend_failure_persists(m0, protocol, ta, amounts, fees, (i + 1) as nat, n as nat);
                }
                return Err(LoanError::Token(x));
            }
            records.push(LoanData { protocol_token_account: *pool, balance });
            assert(lend_step(ghost_before, protocol, ta, amounts, fees, i as int) == Ok::<(Accounts, LoanData), LoanError>((ledger.model(), LoanData { protocol_token_account: *pool, balance })));
            i += 1;
        }
        if !check_repays_loan(tx, program_id, &loan) {
            return Err(LoanError::InvalidInstructionData);
        }
        ledger.replace(&loan, AccountData::Loans(records));
        Ok(())
    }
}

/// Whether the last instruction of `tx` is this program's Repay for the record account `loan`.
pub fn check_repays_loan(tx: &Instructions, program_id: &Pubkey, loan: &Pubkey) -> (r: bool)
    ensures
        r == repays_loan(*tx, *program_id, *loan),
{
    let n = tx.num_instructions();
    if n == 0 {
        return false;
    }
    match tx.load_instruction_at(n - 1) {
        Some(ix) => {
            pubkey_eq(&ix.program_id, program_id) && ix.data.len() > 0 && ix.data[0] == REPAY_DISCRIMINATOR
                && ix.accounts.len() > 1 && pubkey_eq(&ix.accounts[1], loan)
        },
        None => false,
    }
}

/// Runs a Loan instruction with payload `data` on the accounts `keys`.
pub fn loan(ledger: &mut Ledger, tx: &Instructions, program_id: &Pubkey, data: &[u8], keys: &[Pubkey], rent: u64, derived: &Pubkey) -> (r: Result<(), LoanError>)
    requires
        old(ledger).wf(),
    ensures
        final(ledger).wf(),
        settles(r, old(ledger).model(), final(ledger).model(), loan_result(old(ledger).model(), *tx, *program_id, data@, keys@, rent, *derived)),
{
    let l = match Loan::try_from(data, keys, ledger) {
        Ok(l) => l,
        Err(x) => return Err(x),
    };
    l.process(ledger, tx, program_id, rent, derived)
}

/// The accounts of Repay.
#[derive(Debug)]
pub struct RepayAccounts {
    pub borrower: Pubkey,
    pub loan: Pubkey,
    pub token_accounts: Vec<Pubkey>,
}

impl RepayAccounts {
    /// The fields name the accounts of `keys`, in Repay's order.
    pub open spec fn lists(&self, keys: Seq<Pubkey>) -> bool {
        &&& self.borrower == keys[0]
        &&& self.loan == keys[1]
        &&& self.token_accounts@ == keys.subrange(2, keys.len() as int)
    }

    /// Splits Repay's account list: borrower, record account, then the pools.
    pub fn try_from(keys: &[Pubkey]) -> (r: Result<RepayAccounts, LoanError>)
        ensures
            keys@.len() < 2 ==> (r matches Err(x) && x == LoanError::NotEnoughAccountKeys),
            keys@.len() >= 2 ==> (r matches Ok(a) && a.lists(keys@)),
    {
        if keys.len() < 2 {
            return Err(LoanError::NotEnoughAccountKeys);
        }
        let mut token_accounts: Vec<Pubkey> = Vec::new();
        let mut i: usize = 2;
        while i < keys.len()
            invariant
                2 <= i <= keys@.len(),
                token_accounts@ == keys@.subrange(2, i as int),
            decreases keys@.len() - i,
        {
            token_accounts.push(keys[i]);
            i += 1;
            assert(token_accounts@ =~= keys@.subrange(2, i as int));
        }
        Ok(RepayAccounts { borrower: keys[0], loan: keys[1], token_accounts })
    }
}

/// A decoded Repay instruction.
#[derive(Debug)]
pub struct Repay {
    pub accounts: RepayAccounts,
}

/// Whether every pool named in `pools` holds at least what its record asks for.
pub open spec fn repaid(m: Accounts, recs: Seq<LoanData>, pools: Seq<Pubkey>) -> bool {
    &&& recs.len() == pools.len()
    &&& forall|i: int| 0 <= i < recs.len() ==> {
        &&& #[trigger] recs[i].protocol_token_account == pools[i]
        &&& token_at(m, pools[i]) is Some
        &&& token_at(m, pools[i])->Some_0.amount >= recs[i].balance
    }
}

/// What Repay does to the accounts: the record account's rent goes to the borrower.
pub open spec fn repay_result(m: Accounts, borrower: Pubkey, loan: Pubkey, pools: Seq<Pubkey>) -> Result<Accounts, LoanError> {
    match loans_at(m, loan) {
        None => Err(LoanError::InvalidAccountData),
        Some(recs) => {
            if repaid(m, recs, pools) {
                match close_result(m, loan, borrower) {
                    Ok(m1) => Ok(m1),
                    Err(x) => Err(LoanError::Token(x)),
                }
            } else {
                Err(LoanError::InvalidAccountData)
            }
        },
    }
}

impl Repay {
    /// Decodes a Repay instruction's accounts.
    pub fn try_from(keys: &[Pubkey]) -> (r: Result<Repay, LoanError>)
        ensures
            keys@.len() < 2 ==> (r matches Err(x) && x == LoanError::NotEnoughAccountKeys),
            keys@.len() >= 2 ==> (r matches Ok(a) && a.accounts.lists(keys@)),
    {
        match RepayAccounts::try_from(keys) {
            Ok(accounts) => Ok(Repay { accounts }),
            Err(x) => Err(x),
        }
    }

    /// Checks every pool against its record, then closes the record account
    /// into the borrower.
    pub fn process(&self, ledger: &mut Ledger) -> (r: Result<(), LoanError>)
        requires
            old(ledger).wf(),
        ensures
            final(ledger).wf(),
            settles(r, old(ledger).model(), final(ledger).model(), repay_result(old(ledger).model(), self.accounts.borrower, self.accounts.loan, self.accounts.token_accounts@)),
    {
        let records = match ledger.loan_records(&self.accounts.loan) {
            Some(v) => v,
            None => return Err(LoanError::InvalidAccountData),
        };
        let pools = &self.accounts.token_accounts;
        if records.len() != pools.len() {
            return Err(LoanError::InvalidAccountData);
        }
        if !check_repaid(ledger, &records, pools) {
            return Err(LoanError::InvalidAccountData);
        }
        match ledger.close(&self.accounts.loan, &self.accounts.borrower) {
            Ok(()) => Ok(()),
            Err(x) => Err(LoanError::Token(x)),
        }
    }
}

/// Whether every pool holds at least what its record asks for.
fn check_repaid(ledger: &Ledger, records: &Vec<LoanData>, pools: &Vec<Pubkey>) -> (r: bool)
    requires
        ledger.wf(),
        records@.len() == pools@.len(),
    ensures
        r == repaid(ledger.model(), records@, pools@),
{
    let mut i: usize = 0;
    while i < records.len()
        invariant
            ledger.wf(),
            i <= records@.len(),
            records@.len() == pools@.len(),
            forall|j: int| 0 <= j < i ==> {
                &&& #[trigger] records@[j].protocol_token_account == pools@[j]
                &&& token_at(ledger.model(), pools@[j]) is Some
                &&& token_at(ledger.model(), pools@[j])->Some_0.amount >= records@[j].balance
            },
        decreases records@.len() - i,
    {
        let rec = records[i];
        if !pubkey_eq(&rec.protocol_token_account, &pools[i]) {
            assert(records@[i as int].protocol_token_account != pools@[i as int]);
            return false;
        }
        match ledger.token(&pools[i]) {
            Some(t) => {
                if t.amount < rec.balance {
                    assert(records@[i as int].protocol_token_account == pools@[i as int]);
                    return false;
                }
            },
            None => {
                assert(records@[i as int].protocol_token_account == pools@[i as int]);
                return false;
            },
        }
        i += 1;
    }
    true
}

/// Runs a Repay instruction on the accounts `keys`.
pub fn repay(ledger: &mut Ledger, keys: &[Pubkey]) -> (r: Result<(), LoanError>)
    requires
        old(ledger).wf(),
    ensures
        final(ledger).wf(),
        settles(
            r,
            old(ledger).model(),
            final(ledger).model(),
            if keys@.len() < 2 {
                Err(LoanError::NotEnoughAccountKeys)
            } else {
                repay_result(old(ledger).model(), keys@[0], keys@[1], keys@.subrange(2, keys@.len() as int))
            },
        ),
{
    let r = match Repay::try_from(keys) {
        Ok(r) => r,
        Err(x) => return Err(x),
    };
    r.process(ledger)
}

/// A Loan whose amounts do not pair up with its token accounts is refused with
/// `InvalidInstructionData`; since a refused Loan changes nothing, no record
/// account is allocated.
pub proof fn lemma_unpaired_amounts_refused(m: Accounts, tx: Instructions, program_id: Pubkey, data: Seq<u8>, keys: Seq<Pubkey>, rent: u64, derived: Pubkey)
    requires
        loan_accounts_error(keys, m) is None,
        data.len() >= 3,
        amounts_of(data.subrange(3, data.len() as int)).len() != (keys.len() - 6) / 2,
    ensures
        loan_result(m, tx, program_id, data, keys, rent, derived) == Err::<Accounts, LoanError>(LoanError::InvalidInstructionData),
{
}

} // verus!
