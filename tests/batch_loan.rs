use custody::batch_loan::{
    get_token_amount, loan, repay, Loan, LoanAccounts, LoanError, LoanInstructionData, Repay,
    RepayAccounts, INSTRUCTIONS_SYSVAR_ID, TOKEN_PROGRAM_ID, LOAN_DISCRIMINATOR, REPAY_DISCRIMINATOR,
};
use custody::introspect::{Instructions, IntrospectedInstruction};
use custody::ledger::{AccountData, Ledger, TokenError, TokenState};

fn key(b: u8) -> [u8; 32] {
    [b; 32]
}

const PROGRAM: u8 = 50;
const BORROWER: u8 = 1;
const PROTOCOL: u8 = 2;
const LOAN: u8 = 3;
const POOL_X: u8 = 10;
const USER_X: u8 = 11;
const POOL_Y: u8 = 12;
const USER_Y: u8 = 13;
const MINT_X: u8 = 20;
const MINT_Y: u8 = 21;

const TOKEN_RENT: u64 = 2_039_280;
const LOAN_RENT: u64 = 1_169_280;
const WALLET: u64 = 10_000_000;

fn payload(bump: u8, fees: u16, amounts: &[u64]) -> Vec<u8> {
    let mut data = vec![bump];
    data.extend_from_slice(&fees.to_le_bytes());
    for a in amounts {
        data.extend_from_slice(&a.to_le_bytes());
    }
    data
}

fn loan_keys(pairs: &[(u8, u8)]) -> Vec<[u8; 32]> {
    let mut keys = vec![key(BORROWER), key(PROTOCOL), key(LOAN), INSTRUCTIONS_SYSVAR_ID, key(40), key(41)];
    for (p, u) in pairs {
        keys.push(key(*p));
        keys.push(key(*u));
    }
    keys
}

fn repay_keys(pools: &[u8]) -> Vec<[u8; 32]> {
    let mut keys = vec![key(BORROWER), key(LOAN)];
    for p in pools {
        keys.push(key(*p));
    }
    keys
}

fn loan_ix(data: Vec<u8>) -> IntrospectedInstruction {
    let mut d = vec![LOAN_DISCRIMINATOR];
    d.extend_from_slice(&data);
    IntrospectedInstruction { program_id: key(PROGRAM), accounts: loan_keys(&[]), data: d }
}

fn repay_ix(program: u8, loan_account: u8) -> IntrospectedInstruction {
    IntrospectedInstruction {
        program_id: key(program),
        accounts: vec![key(BORROWER), key(loan_account)],
        data: vec![REPAY_DISCRIMINATOR],
    }
}

fn tx_with_repay(program: u8, loan_account: u8) -> Instructions {
    Instructions { instructions: vec![loan_ix(vec![]), repay_ix(program, loan_account)], current: 0 }
}

fn ledger() -> Ledger {
    let mut l = Ledger::new();
    for (k, mint, owner, amount) in [
        (POOL_X, MINT_X, PROTOCOL, 100_000u64),
        (USER_X, MINT_X, BORROWER, 1_000),
        (POOL_Y, MINT_Y, PROTOCOL, 50_000),
        (USER_Y, MINT_Y, BORROWER, 0),
    ] {
        l.load(key(k), TOKEN_RENT, AccountData::Token(TokenState { mint: key(mint), owner: key(owner), amount })).unwrap();
    }
    l.load(key(BORROWER), WALLET, AccountData::System).unwrap();
    l
}

fn amount(l: &Ledger, k: u8) -> u64 {
    l.token(&key(k)).unwrap().amount
}

fn pay_back(l: &mut Ledger, from: u8, to: u8, amount: u64) {
    l.transfer(&key(from), &key(to), &key(BORROWER), amount).unwrap();
}

#[test]
fn token_amount_is_read_after_mint_and_owner() {
    let mut data = vec![0u8; 165];
    data[64..72].copy_from_slice(&987_654_321u64.to_le_bytes());
    assert_eq!(get_token_amount(&TOKEN_PROGRAM_ID, &data), Ok(987_654_321));
    assert_eq!(get_token_amount(&key(7), &data), Err(LoanError::InvalidAccountData));
    assert_eq!(get_token_amount(&TOKEN_PROGRAM_ID, &data[..72]), Err(LoanError::InvalidAccountData));
    let mut longer = data.clone();
    longer.push(0);
    assert_eq!(get_token_amount(&TOKEN_PROGRAM_ID, &longer), Err(LoanError::InvalidAccountData));
}

#[test]
fn loan_payload_decodes() {
    let data = payload(254, 500, &[7, 1 << 40]);
    let d = LoanInstructionData::try_from(&data).unwrap();
    assert_eq!(d.bump, [254]);
    assert_eq!(d.fees, 500);
    assert_eq!(d.amounts, vec![7, 1 << 40]);
}

#[test]
fn loan_payload_ignores_partial_amount() {
    let mut data = payload(1, 300, &[9]);
    data.extend_from_slice(&[1, 2, 3]);
    let d = LoanInstructionData::try_from(&data).unwrap();
    assert_eq!(d.amounts, vec![9]);
    let d = LoanInstructionData::try_from(&[5, 0x10, 0x27]).unwrap();
    assert_eq!(d.fees, 10_000);
    assert!(d.amounts.is_empty());
}

#[test]
fn loan_payload_too_short() {
    assert!(matches!(LoanInstructionData::try_from(&[]), Err(LoanError::InvalidInstructionData)));
    assert!(matches!(LoanInstructionData::try_from(&[1, 2]), Err(LoanError::InvalidInstructionData)));
}

#[test]
fn loan_accounts_checks() {
    let l = ledger();
    assert!(matches!(LoanAccounts::try_from(&loan_keys(&[])[..5], &l), Err(LoanError::NotEnoughAccountKeys)));
    assert!(matches!(LoanAccounts::try_from(&loan_keys(&[]), &l), Err(LoanError::InvalidAccountData)));
    let mut odd = loan_keys(&[(POOL_X, USER_X)]);
    odd.push(key(POOL_Y));
    assert!(matches!(LoanAccounts::try_from(&odd, &l), Err(LoanError::InvalidAccountData)));
    let mut bad_sysvar = loan_keys(&[(POOL_X, USER_X)]);
    bad_sysvar[3] = key(9);
    assert!(matches!(LoanAccounts::try_from(&bad_sysvar, &l), Err(LoanError::UnsupportedSysvar)));
    let mut live_loan = loan_keys(&[(POOL_X, USER_X)]);
    live_loan[2] = key(POOL_Y);
    assert!(matches!(LoanAccounts::try_from(&live_loan, &l), Err(LoanError::InvalidAccountData)));
    let a = LoanAccounts::try_from(&loan_keys(&[(POOL_X, USER_X), (POOL_Y, USER_Y)]), &l).unwrap();
    assert_eq!(a.loan, key(LOAN));
    assert_eq!(a.token_accounts, vec![key(POOL_X), key(USER_X), key(POOL_Y), key(USER_Y)]);
}

#[test]
fn unpaired_amounts_refused_without_record_account() {
    let mut l = ledger();
    let tx = tx_with_repay(PROGRAM, LOAN);
    let keys = loan_keys(&[(POOL_X, USER_X), (POOL_Y, USER_Y)]);
    let r = loan(&mut l, &tx, &key(PROGRAM), &payload(1, 500, &[10]), &keys, LOAN_RENT, &key(PROTOCOL));
    assert_eq!(r, Err(LoanError::InvalidInstructionData));
    let r = loan(&mut l, &tx, &key(PROGRAM), &payload(1, 500, &[10, 20, 30]), &keys, LOAN_RENT, &key(PROTOCOL));
    assert_eq!(r, Err(LoanError::InvalidInstructionData));
    assert!(!l.contains(&key(LOAN)));
    assert_eq!(amount(&l, POOL_X), 100_000);
    assert!(matches!(Loan::try_from(&payload(1, 500, &[10]), &keys, &l), Err(LoanError::InvalidInstructionData)));
}

#[test]
fn batch_loan_and_repay_round_trip() {
    let mut l = ledger();
    let tx = tx_with_repay(PROGRAM, LOAN);
    let keys = loan_keys(&[(POOL_X, USER_X), (POOL_Y, USER_Y)]);
    loan(&mut l, &tx, &key(PROGRAM), &payload(255, 500, &[10_000, 2_000]), &keys, LOAN_RENT, &key(PROTOCOL)).unwrap();
    assert_eq!(amount(&l, POOL_X), 90_000);
    assert_eq!(amount(&l, USER_X), 11_000);
    assert_eq!(amount(&l, POOL_Y), 48_000);
    assert_eq!(amount(&l, USER_Y), 2_000);
    assert!(l.contains(&key(LOAN)));
    assert_eq!(l.lamports(&key(LOAN)), Some(LOAN_RENT));
    assert_eq!(l.lamports(&key(BORROWER)), Some(WALLET - LOAN_RENT));
    pay_back(&mut l, USER_X, POOL_X, 10_500);
    pay_back(&mut l, USER_Y, POOL_Y, 2_000);
    assert_eq!(repay(&mut l, &repay_keys(&[POOL_X, POOL_Y])), Err(LoanError::InvalidAccountData));
    assert!(l.contains(&key(LOAN)));
    l.load(key(70), TOKEN_RENT, AccountData::Token(TokenState { mint: key(MINT_Y), owner: key(BORROWER), amount: 100 })).unwrap();
    pay_back(&mut l, 70, POOL_Y, 100);
    repay(&mut l, &repay_keys(&[POOL_X, POOL_Y])).unwrap();
    assert!(!l.contains(&key(LOAN)));
    assert_eq!(l.lamports(&key(BORROWER)), Some(WALLET));
    assert_eq!(amount(&l, POOL_X), 100_500);
    assert_eq!(amount(&l, POOL_Y), 50_100);
}

#[test]
fn batch_loan_records_balance_plus_fee() {
    let mut l = ledger();
    let tx = tx_with_repay(PROGRAM, LOAN);
    let keys = loan_keys(&[(POOL_X, USER_X)]);
    let parsed = Loan::try_from(&payload(7, 30, &[1_000]), &keys, &l).unwrap();
    parsed.process(&mut l, &tx, &key(PROGRAM), LOAN_RENT, &key(PROTOCOL)).unwrap();
    match &l.accounts.last().unwrap().data {
        AccountData::Loans(records) => {
            assert_eq!(records.len(), 1);
            assert_eq!(records[0].protocol_token_account, key(POOL_X));
            assert_eq!(records[0].balance, 100_003);
        }
        _ => panic!("loan account holds no records"),
    }
}

#[test]
fn batch_loan_without_repay_moves_nothing() {
    let mut l = ledger();
    let keys = loan_keys(&[(POOL_X, USER_X)]);
    for tx in [tx_with_repay(60, LOAN), tx_with_repay(PROGRAM, 61)] {
        let r = loan(&mut l, &tx, &key(PROGRAM), &payload(1, 500, &[10]), &keys, LOAN_RENT, &key(PROTOCOL));
        assert_eq!(r, Err(LoanError::InvalidInstructionData));
    }
    let alone = Instructions { instructions: vec![loan_ix(vec![])], current: 0 };
    let r = loan(&mut l, &alone, &key(PROGRAM), &payload(1, 500, &[10]), &keys, LOAN_RENT, &key(PROTOCOL));
    assert_eq!(r, Err(LoanError::InvalidInstructionData));
    assert!(!l.contains(&key(LOAN)));
    assert_eq!(amount(&l, POOL_X), 100_000);
    assert_eq!(amount(&l, USER_X), 1_000);
    assert_eq!(l.lamports(&key(BORROWER)), Some(WALLET));
}

#[test]
fn batch_loan_failed_transfer_rolls_back() {
    let mut l = ledger();
    let tx = tx_with_repay(PROGRAM, LOAN);
    let keys = loan_keys(&[(POOL_X, USER_X), (POOL_Y, USER_Y)]);
    let r = loan(&mut l, &tx, &key(PROGRAM), &payload(1, 500, &[10, 60_000]), &keys, LOAN_RENT, &key(PROTOCOL));
    assert_eq!(r, Err(LoanError::Token(TokenError::InsufficientFunds)));
    assert!(!l.contains(&key(LOAN)));
    assert_eq!(amount(&l, POOL_X), 100_000);
    assert_eq!(amount(&l, USER_X), 1_000);
    assert_eq!(l.lamports(&key(BORROWER)), Some(WALLET));
}

#[test]
fn batch_loan_fee_overflow_is_instruction_error() {
    let mut l = ledger();
    let tx = tx_with_repay(PROGRAM, LOAN);
    let keys = loan_keys(&[(POOL_X, USER_X)]);
    let r = loan(&mut l, &tx, &key(PROGRAM), &payload(1, 2, &[u64::MAX]), &keys, LOAN_RENT, &key(PROTOCOL));
    assert_eq!(r, Err(LoanError::InvalidInstructionData));
    let r = loan(&mut l, &tx, &key(PROGRAM), &payload(1, 500, &[10]), &loan_keys(&[(99, USER_X)]), LOAN_RENT, &key(PROTOCOL));
    assert_eq!(r, Err(LoanError::InvalidAccountData));
}

#[test]
fn repay_accounts_checks() {
    assert!(matches!(RepayAccounts::try_from(&[key(1)]), Err(LoanError::NotEnoughAccountKeys)));
    let a = RepayAccounts::try_from(&repay_keys(&[POOL_X])).unwrap();
    assert_eq!(a.loan, key(LOAN));
    assert_eq!(a.token_accounts, vec![key(POOL_X)]);
    assert!(matches!(Repay::try_from(&[]), Err(LoanError::NotEnoughAccountKeys)));
}

#[test]
fn repay_with_mismatched_pools_fails() {
    let mut l = ledger();
    let tx = tx_with_repay(PROGRAM, LOAN);
    loan(&mut l, &tx, &key(PROGRAM), &payload(1, 0, &[10]), &loan_keys(&[(POOL_X, USER_X)]), LOAN_RENT, &key(PROTOCOL)).unwrap();
    assert_eq!(repay(&mut l, &repay_keys(&[POOL_Y])), Err(LoanError::InvalidAccountData));
    assert_eq!(repay(&mut l, &repay_keys(&[POOL_X, POOL_Y])), Err(LoanError::InvalidAccountData));
    assert_eq!(repay(&mut l, &repay_keys(&[POOL_X])), Err(LoanError::InvalidAccountData));
    pay_back(&mut l, USER_X, POOL_X, 10);
    assert_eq!(repay(&mut l, &repay_keys(&[POOL_X])), Ok(()));
    assert_eq!(repay(&mut l, &repay_keys(&[POOL_X])), Err(LoanError::InvalidAccountData));
}

#[test]
fn batch_loan_from_underived_protocol_fails() {
    let mut l = ledger();
    let tx = tx_with_repay(PROGRAM, LOAN);
    let keys = loan_keys(&[(POOL_X, USER_X)]);
    let r = loan(&mut l, &tx, &key(PROGRAM), &payload(1, 500, &[10]), &keys, LOAN_RENT, &key(77));
    assert_eq!(r, Err(LoanError::InvalidProtocolAuthority));
    assert!(!l.contains(&key(LOAN)));
}
