use escrow::state::{derive_record_address, derive_vault_address, Ledger, CANONICAL_SALT};

const MAKER: u64 = 1;
const TAKER: u64 = 2;
const ASSET_A: u64 = 10;
const ASSET_B: u64 = 20;

fn funded_ledger() -> Ledger {
    let mut ledger = Ledger::new();
    ledger.mint(MAKER, ASSET_A, 1000);
    ledger.mint(TAKER, ASSET_B, 500);
    ledger
}

#[test]
fn record_address_is_deterministic_and_distinct() {
    assert_eq!(derive_record_address(1, 7), derive_record_address(1, 7));
    assert_eq!(derive_record_address(1, 7), (1u128 << 64) + 7);
    assert_ne!(derive_record_address(1, 7), derive_record_address(1, 8));
    assert_ne!(derive_record_address(1, 7), derive_record_address(2, 7));
    let rec_addr = derive_record_address(3, 9);
    assert_eq!(derive_vault_address(rec_addr), derive_vault_address(rec_addr));
}

#[test]
fn open_creates_record_and_vault_and_debits_maker() {
    let mut ledger = funded_ledger();
    assert_eq!(ledger.make(MAKER, 7, ASSET_A, 100, ASSET_B, 50), Ok(()));

    let rec_addr = derive_record_address(MAKER, 7);
    let rec = ledger.get_record(rec_addr).expect("record must exist after open");
    assert_eq!(rec.identifier, 7);
    assert_eq!(rec.maker, MAKER);
    assert_eq!(rec.asset_offered, ASSET_A);
    assert_eq!(rec.asset_requested, ASSET_B);
    assert_eq!(rec.amount_offered, 100);
    assert_eq!(rec.amount_requested, 50);
    assert_eq!(rec.derivation_salt, CANONICAL_SALT);
    // Any party can re-derive the record's own address from its fields.
    assert_eq!(derive_record_address(rec.maker, rec.identifier), rec_addr);

    let vault = ledger
        .get_vault(derive_vault_address(rec_addr))
        .expect("vault must exist after open");
    assert_eq!(vault.asset, ASSET_A);
    assert_eq!(vault.balance, 100);

    assert_eq!(ledger.balance_of(MAKER, ASSET_A), 900);
    assert_eq!(ledger.balance_of(TAKER, ASSET_B), 500);
}

#[test]
fn fulfill_swaps_assets_and_deletes_record() {
    // The maker opens an offer of 100 units of asset A, wanting 50
    // units of asset B, under identifier 7; the taker fulfills it.
    let mut ledger = funded_ledger();
    assert_eq!(ledger.make(MAKER, 7, ASSET_A, 100, ASSET_B, 50), Ok(()));
    let rec_addr = derive_record_address(MAKER, 7);

    assert_eq!(ledger.take(TAKER, rec_addr), Ok(()));

    assert_eq!(ledger.balance_of(TAKER, ASSET_B), 450);
    assert_eq!(ledger.balance_of(MAKER, ASSET_B), 50);
    assert_eq!(ledger.balance_of(TAKER, ASSET_A), 100);
    assert_eq!(ledger.balance_of(MAKER, ASSET_A), 900);
    assert!(!ledger.has_record(rec_addr));
    assert!(ledger.get_vault(derive_vault_address(rec_addr)).is_none());
}

#[test]
fn cancel_restores_maker_balance() {
    // Same offer; the maker cancels before any fulfill: the maker's
    // asset-A balance returns to its pre-open value.
    let mut ledger = funded_ledger();
    assert_eq!(ledger.make(MAKER, 7, ASSET_A, 100, ASSET_B, 50), Ok(()));
    assert_eq!(ledger.balance_of(MAKER, ASSET_A), 900);

    let rec_addr = derive_record_address(MAKER, 7);
    assert_eq!(ledger.refund(MAKER, rec_addr), Ok(()));

    assert_eq!(ledger.balance_of(MAKER, ASSET_A), 1000);
    assert_eq!(ledger.balance_of(TAKER, ASSET_B), 500);
    assert!(!ledger.has_record(rec_addr));
    assert!(ledger.get_vault(derive_vault_address(rec_addr)).is_none());
}

#[test]
fn open_then_cancel_is_balance_neutral() {
    let mut ledger = funded_ledger();
    let before_a = ledger.balance_of(MAKER, ASSET_A);
    let before_b = ledger.balance_of(MAKER, ASSET_B);
    assert_eq!(ledger.make(MAKER, 11, ASSET_A, 250, ASSET_B, 99), Ok(()));
    assert_eq!(ledger.refund(MAKER, derive_record_address(MAKER, 11)), Ok(()));
    assert_eq!(ledger.balance_of(MAKER, ASSET_A), before_a);
    assert_eq!(ledger.balance_of(MAKER, ASSET_B), before_b);
}

#[test]
fn one_maker_can_hold_several_offers() {
    let mut ledger = funded_ledger();
    assert_eq!(ledger.make(MAKER, 1, ASSET_A, 100, ASSET_B, 50), Ok(()));
    assert_eq!(ledger.make(MAKER, 2, ASSET_A, 200, ASSET_B, 80), Ok(()));
    assert_eq!(ledger.balance_of(MAKER, ASSET_A), 700);
    assert!(ledger.has_record(derive_record_address(MAKER, 1)));
    assert!(ledger.has_record(derive_record_address(MAKER, 2)));

    assert_eq!(ledger.take(TAKER, derive_record_address(MAKER, 2)), Ok(()));
    assert!(ledger.has_record(derive_record_address(MAKER, 1)));
    assert!(!ledger.has_record(derive_record_address(MAKER, 2)));
    assert_eq!(ledger.balance_of(TAKER, ASSET_A), 200);
}

#[test]
fn zero_requested_amount_is_a_valid_offer() {
    // Only the deposited quantity must be positive; a giveaway offer
    // wanting zero in return is accepted and can be fulfilled.
    let mut ledger = funded_ledger();
    assert_eq!(ledger.make(MAKER, 3, ASSET_A, 40, ASSET_B, 0), Ok(()));
    assert_eq!(ledger.take(TAKER, derive_record_address(MAKER, 3)), Ok(()));
    assert_eq!(ledger.balance_of(TAKER, ASSET_A), 40);
    assert_eq!(ledger.balance_of(TAKER, ASSET_B), 500);
    assert_eq!(ledger.balance_of(MAKER, ASSET_B), 0);
}

#[test]
fn maker_may_fulfill_own_offer() {
    let mut ledger = Ledger::new();
    ledger.mint(MAKER, ASSET_A, 300);
    ledger.mint(MAKER, ASSET_B, 60);
    assert_eq!(ledger.make(MAKER, 5, ASSET_A, 100, ASSET_B, 50), Ok(()));
    assert_eq!(ledger.take(MAKER, derive_record_address(MAKER, 5)), Ok(()));
    // Paying oneself is a wash; the deposit simply comes back.
    assert_eq!(ledger.balance_of(MAKER, ASSET_A), 300);
    assert_eq!(ledger.balance_of(MAKER, ASSET_B), 60);
}
