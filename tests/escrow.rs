use custody::escrow::{make, refund, take, EscrowError, Make, Refund, Take};
use custody::ledger::{AccountData, Ledger, TokenError, TokenState};

fn key(b: u8) -> [u8; 32] {
    [b; 32]
}

const MAKER: u8 = 1;
const TAKER: u8 = 2;
const ESCROW: u8 = 3;
const MINT_A: u8 = 4;
const MINT_B: u8 = 5;
const MAKER_A: u8 = 6;
const VAULT: u8 = 7;
const TAKER_A: u8 = 8;
const TAKER_B: u8 = 9;
const MAKER_B: u8 = 10;
const STRANGER: u8 = 11;

const TOKEN_RENT: u64 = 2_039_280;
const ESCROW_RENT: u64 = 1_350_000;
const WALLET: u64 = 10_000_000;

fn wallet(ledger: &mut Ledger, k: u8) {
    ledger.load(key(k), WALLET, AccountData::System).unwrap();
}

fn lamports(ledger: &Ledger, k: u8) -> u64 {
    ledger.lamports(&key(k)).unwrap()
}

fn token(ledger: &mut Ledger, k: u8, mint: u8, owner: u8, amount: u64) {
    ledger
        .load(key(k), TOKEN_RENT, AccountData::Token(TokenState { mint: key(mint), owner: key(owner), amount }))
        .unwrap();
}

fn setup() -> Ledger {
    let mut ledger = Ledger::new();
    wallet(&mut ledger, MAKER);
    wallet(&mut ledger, TAKER);
    wallet(&mut ledger, STRANGER);
    token(&mut ledger, MAKER_A, MINT_A, MAKER, 2_000);
    token(&mut ledger, TAKER_B, MINT_B, TAKER, 5_000);
    ledger
}

fn make_accounts() -> Make {
    Make {
        maker: key(MAKER),
        escrow: key(ESCROW),
        mint_a: key(MINT_A),
        mint_b: key(MINT_B),
        maker_ata_token_a: key(MAKER_A),
        vault: key(VAULT),
    }
}

fn take_accounts(taker: u8) -> Take {
    Take {
        taker: key(taker),
        maker: key(MAKER),
        escrow: key(ESCROW),
        mint_a: key(MINT_A),
        mint_b: key(MINT_B),
        vault: key(VAULT),
        taker_ata_token_a: key(TAKER_A),
        taker_ata_token_b: key(TAKER_B),
        maker_ata_token_b: key(MAKER_B),
    }
}

fn refund_accounts(signer: u8) -> Refund {
    Refund {
        maker: key(signer),
        escrow: key(ESCROW),
        mint_a: key(MINT_A),
        vault: key(VAULT),
        maker_ata_token_a: key(MAKER_A),
    }
}

fn amount(ledger: &Ledger, k: u8) -> u64 {
    ledger.token(&key(k)).unwrap().amount
}

#[test]
fn make_opens_record_and_funded_vault() {
    let mut ledger = setup();
    make(&mut ledger, &make_accounts(), 1, 1000, 500, 254, ESCROW_RENT, TOKEN_RENT).unwrap();
    let record = ledger.escrow(&key(ESCROW)).unwrap();
    assert_eq!(record.seed, 1);
    assert_eq!(record.maker, key(MAKER));
    assert_eq!(record.mint_a, key(MINT_A));
    assert_eq!(record.mint_b, key(MINT_B));
    assert_eq!(record.receive, 1000);
    assert_eq!(record.bump, 254);
    let vault = ledger.token(&key(VAULT)).unwrap();
    assert_eq!(vault.amount, 500);
    assert_eq!(vault.mint, key(MINT_A));
    assert_eq!(vault.owner, key(ESCROW));
    assert_eq!(amount(&ledger, MAKER_A), 1_500);
    assert_eq!(record.vault, key(VAULT));
    assert_eq!(lamports(&ledger, MAKER), WALLET - ESCROW_RENT - TOKEN_RENT);
    assert_eq!(lamports(&ledger, ESCROW), ESCROW_RENT);
    assert_eq!(lamports(&ledger, VAULT), TOKEN_RENT);
    assert_eq!(ledger.accounts.len(), 7);
}

#[test]
fn make_rejects_zero_receive() {
    let mut ledger = setup();
    assert_eq!(make(&mut ledger, &make_accounts(), 1, 0, 500, 254, ESCROW_RENT, TOKEN_RENT), Err(EscrowError::InvalidAmount));
    assert!(!ledger.contains(&key(ESCROW)));
    assert!(!ledger.contains(&key(VAULT)));
}

#[test]
fn make_rejects_zero_deposit() {
    let mut ledger = setup();
    assert_eq!(make(&mut ledger, &make_accounts(), 1, 1000, 0, 254, ESCROW_RENT, TOKEN_RENT), Err(EscrowError::InvalidAmount));
    assert!(!ledger.contains(&key(ESCROW)));
}

#[test]
fn make_without_funds_leaves_nothing_behind() {
    let mut ledger = setup();
    let r = make(&mut ledger, &make_accounts(), 1, 1000, 3_000, 254, ESCROW_RENT, TOKEN_RENT);
    assert_eq!(r, Err(EscrowError::Token(TokenError::InsufficientFunds)));
    assert!(!ledger.contains(&key(ESCROW)));
    assert!(!ledger.contains(&key(VAULT)));
    assert_eq!(amount(&ledger, MAKER_A), 2_000);
}

#[test]
fn make_twice_on_same_record_fails() {
    let mut ledger = setup();
    make(&mut ledger, &make_accounts(), 1, 1000, 500, 254, ESCROW_RENT, TOKEN_RENT).unwrap();
    let r = make(&mut ledger, &make_accounts(), 1, 1000, 500, 254, ESCROW_RENT, TOKEN_RENT);
    assert_eq!(r, Err(EscrowError::Token(TokenError::AlreadyInUse)));
    assert_eq!(amount(&ledger, MAKER_A), 1_500);
}

#[test]
fn make_then_take_swaps_and_closes() {
    let mut ledger = setup();
    make(&mut ledger, &make_accounts(), 1, 1000, 500, 254, ESCROW_RENT, TOKEN_RENT).unwrap();
    take(&mut ledger, &take_accounts(TAKER), TOKEN_RENT, &key(ESCROW)).unwrap();
    assert_eq!(amount(&ledger, MAKER_B), 1000);
    assert_eq!(amount(&ledger, TAKER_A), 500);
    assert_eq!(amount(&ledger, TAKER_B), 4_000);
    assert_eq!(amount(&ledger, MAKER_A), 1_500);
    assert!(!ledger.contains(&key(ESCROW)));
    assert!(!ledger.contains(&key(VAULT)));
    assert_eq!(lamports(&ledger, MAKER), WALLET);
    assert_eq!(lamports(&ledger, TAKER), WALLET - 2 * TOKEN_RENT);
}

#[test]
fn take_by_any_taker_drains_whole_vault() {
    let mut ledger = setup();
    token(&mut ledger, 20, MINT_B, STRANGER, 1_000);
    make(&mut ledger, &make_accounts(), 9, 1000, 700, 1, ESCROW_RENT, TOKEN_RENT).unwrap();
    let mut accounts = take_accounts(STRANGER);
    accounts.taker_ata_token_b = key(20);
    take(&mut ledger, &accounts, TOKEN_RENT, &key(ESCROW)).unwrap();
    assert_eq!(amount(&ledger, 20), 0);
    assert_eq!(amount(&ledger, MAKER_B), 1000);
    assert_eq!(amount(&ledger, TAKER_A), 700);
    assert!(!ledger.contains(&key(VAULT)));
}

#[test]
fn take_with_wrong_maker_fails() {
    let mut ledger = setup();
    make(&mut ledger, &make_accounts(), 1, 1000, 500, 254, ESCROW_RENT, TOKEN_RENT).unwrap();
    let mut accounts = take_accounts(TAKER);
    accounts.maker = key(STRANGER);
    assert_eq!(take(&mut ledger, &accounts, TOKEN_RENT, &key(ESCROW)), Err(EscrowError::InvalidMaker));
    assert!(ledger.contains(&key(ESCROW)));
}

#[test]
fn take_with_wrong_mints_fails() {
    let mut ledger = setup();
    make(&mut ledger, &make_accounts(), 1, 1000, 500, 254, ESCROW_RENT, TOKEN_RENT).unwrap();
    let mut accounts = take_accounts(TAKER);
    accounts.mint_b = key(STRANGER);
    assert_eq!(take(&mut ledger, &accounts, TOKEN_RENT, &key(ESCROW)), Err(EscrowError::InvalidMintB));
    let mut accounts = take_accounts(TAKER);
    accounts.mint_a = key(STRANGER);
    assert_eq!(take(&mut ledger, &accounts, TOKEN_RENT, &key(ESCROW)), Err(EscrowError::InvalidMintA));
}

#[test]
fn take_with_wrong_vault_fails() {
    let mut ledger = setup();
    make(&mut ledger, &make_accounts(), 1, 1000, 500, 254, ESCROW_RENT, TOKEN_RENT).unwrap();
    let mut accounts = take_accounts(TAKER);
    accounts.vault = key(MAKER_A);
    assert_eq!(take(&mut ledger, &accounts, TOKEN_RENT, &key(ESCROW)), Err(EscrowError::InvalidVault));
}

#[test]
fn take_of_unknown_offer_fails() {
    let mut ledger = setup();
    assert_eq!(take(&mut ledger, &take_accounts(TAKER), TOKEN_RENT, &key(ESCROW)), Err(EscrowError::UnknownEscrow));
}

#[test]
fn take_without_price_rolls_back() {
    let mut ledger = Ledger::new();
    wallet(&mut ledger, MAKER);
    wallet(&mut ledger, TAKER);
    token(&mut ledger, MAKER_A, MINT_A, MAKER, 2_000);
    token(&mut ledger, TAKER_B, MINT_B, TAKER, 10);
    make(&mut ledger, &make_accounts(), 1, 1000, 500, 254, ESCROW_RENT, TOKEN_RENT).unwrap();
    let r = take(&mut ledger, &take_accounts(TAKER), TOKEN_RENT, &key(ESCROW));
    assert_eq!(r, Err(EscrowError::Token(TokenError::InsufficientFunds)));
    assert!(ledger.contains(&key(ESCROW)));
    assert_eq!(amount(&ledger, VAULT), 500);
    assert!(!ledger.contains(&key(TAKER_A)));
    assert!(!ledger.contains(&key(MAKER_B)));
    assert_eq!(amount(&ledger, TAKER_B), 10);
}

#[test]
fn refund_returns_deposit_to_maker() {
    let mut ledger = setup();
    make(&mut ledger, &make_accounts(), 1, 1000, 500, 254, ESCROW_RENT, TOKEN_RENT).unwrap();
    refund(&mut ledger, &refund_accounts(MAKER), TOKEN_RENT, &key(ESCROW)).unwrap();
    assert_eq!(amount(&ledger, MAKER_A), 2_000);
    assert_eq!(lamports(&ledger, MAKER), WALLET);
    assert!(!ledger.contains(&key(ESCROW)));
    assert!(!ledger.contains(&key(VAULT)));
}

#[test]
fn refund_by_other_signer_fails() {
    let mut ledger = setup();
    make(&mut ledger, &make_accounts(), 1, 1000, 500, 254, ESCROW_RENT, TOKEN_RENT).unwrap();
    assert_eq!(refund(&mut ledger, &refund_accounts(STRANGER), TOKEN_RENT, &key(ESCROW)), Err(EscrowError::InvalidMaker));
    assert_eq!(refund(&mut ledger, &refund_accounts(TAKER), TOKEN_RENT, &key(ESCROW)), Err(EscrowError::InvalidMaker));
    assert!(ledger.contains(&key(ESCROW)));
    assert_eq!(amount(&ledger, VAULT), 500);
}

#[test]
fn refund_with_wrong_mint_fails() {
    let mut ledger = setup();
    make(&mut ledger, &make_accounts(), 1, 1000, 500, 254, ESCROW_RENT, TOKEN_RENT).unwrap();
    let mut accounts = refund_accounts(MAKER);
    accounts.mint_a = key(MINT_B);
    assert_eq!(refund(&mut ledger, &accounts, TOKEN_RENT, &key(ESCROW)), Err(EscrowError::InvalidMintA));
}

#[test]
fn take_into_foreign_asset_account_fails() {
    let mut ledger = setup();
    token(&mut ledger, MAKER_B, MINT_A, MAKER, 0);
    make(&mut ledger, &make_accounts(), 1, 1000, 500, 254, ESCROW_RENT, TOKEN_RENT).unwrap();
    assert_eq!(take(&mut ledger, &take_accounts(TAKER), TOKEN_RENT, &key(ESCROW)), Err(EscrowError::InvalidTokenAccount));
    assert_eq!(amount(&ledger, TAKER_B), 5_000);
    assert!(ledger.contains(&key(VAULT)));
}

#[test]
fn take_paying_from_other_asset_fails() {
    let mut ledger = setup();
    token(&mut ledger, 21, MINT_A, TAKER, 5_000);
    make(&mut ledger, &make_accounts(), 1, 1000, 500, 254, ESCROW_RENT, TOKEN_RENT).unwrap();
    let mut accounts = take_accounts(TAKER);
    accounts.taker_ata_token_b = key(21);
    assert_eq!(take(&mut ledger, &accounts, TOKEN_RENT, &key(ESCROW)), Err(EscrowError::InvalidTokenAccount));
}

#[test]
fn refund_into_someone_elses_account_fails() {
    let mut ledger = setup();
    token(&mut ledger, 22, MINT_A, STRANGER, 0);
    make(&mut ledger, &make_accounts(), 1, 1000, 500, 254, ESCROW_RENT, TOKEN_RENT).unwrap();
    let mut accounts = refund_accounts(MAKER);
    accounts.maker_ata_token_a = key(22);
    assert_eq!(refund(&mut ledger, &accounts, TOKEN_RENT, &key(ESCROW)), Err(EscrowError::InvalidTokenAccount));
    assert_eq!(amount(&ledger, VAULT), 500);
}

#[test]
fn make_without_rent_leaves_nothing_behind() {
    let mut ledger = Ledger::new();
    ledger.load(key(MAKER), ESCROW_RENT, AccountData::System).unwrap();
    token(&mut ledger, MAKER_A, MINT_A, MAKER, 2_000);
    let r = make(&mut ledger, &make_accounts(), 1, 1000, 500, 254, ESCROW_RENT, TOKEN_RENT);
    assert_eq!(r, Err(EscrowError::Token(TokenError::InsufficientLamports)));
    assert!(!ledger.contains(&key(ESCROW)));
    assert_eq!(lamports(&ledger, MAKER), ESCROW_RENT);
}

#[test]
fn refund_with_decoy_vault_fails() {
    let mut ledger = setup();
    token(&mut ledger, 23, MINT_A, ESCROW, 0);
    make(&mut ledger, &make_accounts(), 1, 1000, 500, 254, ESCROW_RENT, TOKEN_RENT).unwrap();
    let mut accounts = refund_accounts(MAKER);
    accounts.vault = key(23);
    assert_eq!(refund(&mut ledger, &accounts, TOKEN_RENT, &key(ESCROW)), Err(EscrowError::InvalidVault));
    let mut accounts = take_accounts(TAKER);
    accounts.vault = key(23);
    assert_eq!(take(&mut ledger, &accounts, TOKEN_RENT, &key(ESCROW)), Err(EscrowError::InvalidVault));
    assert!(ledger.contains(&key(ESCROW)));
    assert_eq!(amount(&ledger, VAULT), 500);
}

#[test]
fn record_off_its_derived_address_is_refused() {
    let mut ledger = setup();
    make(&mut ledger, &make_accounts(), 1, 1000, 500, 254, ESCROW_RENT, TOKEN_RENT).unwrap();
    let r = refund(&mut ledger, &refund_accounts(MAKER), TOKEN_RENT, &key(30));
    assert_eq!(r, Err(EscrowError::InvalidEscrowAddress));
    let r = take(&mut ledger, &take_accounts(TAKER), TOKEN_RENT, &key(30));
    assert_eq!(r, Err(EscrowError::InvalidEscrowAddress));
    assert!(ledger.contains(&key(ESCROW)));
    let seeds = ledger.escrow(&key(ESCROW)).unwrap().authority_seeds();
    assert_eq!(seeds, vec![b"escrow".to_vec(), vec![MAKER; 32], 1u64.to_le_bytes().to_vec(), vec![254]]);
}
