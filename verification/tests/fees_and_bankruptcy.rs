use marginfi_core::address::Address;
use marginfi_core::bank::{AccountSnapshot, Bank, FeeCollection, Mint};
use marginfi_core::config::{BankConfig, InterestRateConfig, OracleRef, RiskTier};
use marginfi_core::error::MarginfiError;
use marginfi_core::oracle::PriceReading;
use marginfi_core::vault::{derive_bank_vaults, BankVaultType};

fn classic_program() -> Address {
    Address::new([
        6, 221, 246, 225, 215, 101, 161, 147, 217, 203, 225, 70, 206, 235, 121, 172, 28, 180, 133, 237, 95, 91, 55,
        145, 58, 140, 245, 133, 126, 255, 0, 169,
    ])
}

fn extended_program() -> Address {
    Address::new(spl_token_2022::id().to_bytes())
}

fn books_bank(token_program: Address) -> Bank {
    let key = Address::new([2; 32]);
    let group = Address::new([1; 32]);
    let program = Address::new([3; 32]);
    let mint = Mint { key: Address::new([4; 32]), token_program, decimals: 6 };
    let config = BankConfig {
        asset_weight_init: 500_000,
        asset_weight_maint: 600_000,
        liability_weight_init: 1_500_000,
        liability_weight_maint: 1_200_000,
        deposit_limit: 1_000_000_000,
        borrow_limit: 1_000_000_000,
        oracle: OracleRef::Direct(Address::new([5; 32])),
        oracle_max_age: 60,
        interest_rate_config: InterestRateConfig {
            optimal_utilization_rate: 800_000,
            plateau_interest_rate: 100_000,
            max_interest_rate: 1_000_000,
            insurance_ir_fee: 100_000,
            protocol_ir_fee: 50_000,
        },
        deposits_paused: false,
        borrows_paused: false,
        risk_tier: RiskTier::Collateral,
    };
    let vaults = derive_bank_vaults(&group, &key, &program).unwrap();
    let mut bank = Bank::open(key, group, mint, config, Address::new([5; 32]), vaults, 1_000);
    bank.total_deposits = 10_000;
    bank.total_liabilities = 6_000;
    bank.liquidity_vault_balance = 4_000;
    bank
}

fn fresh_reading(price: u64, confidence: u64) -> PriceReading {
    PriceReading { price, confidence, timestamp: 1_000 }
}

#[test]
fn collecting_without_outstanding_fees_is_a_noop() {
    for program in [classic_program(), extended_program()] {
        let bank = books_bank(program);
        for mint_account in [None, Some(bank.mint.key), Some(Address::new([9; 32]))] {
            let (after, moved) = bank.collect_fees(mint_account).unwrap();
            assert_eq!(moved, FeeCollection { insurance_transfer: 0, fee_transfer: 0 });
            assert_eq!(format!("{:?}", after), format!("{:?}", bank));
        }
    }
}

#[test]
fn collecting_moves_outstanding_fees_into_their_vaults() {
    let mut bank = books_bank(classic_program());
    bank.insurance_fees_outstanding = 300;
    bank.protocol_fees_outstanding = 500;
    bank.insurance_vault_balance = 7;
    bank.fee_vault_balance = 11;
    let (after, moved) = bank.collect_fees(None).unwrap();
    assert_eq!(moved, FeeCollection { insurance_transfer: 300, fee_transfer: 500 });
    assert_eq!(after.liquidity_vault_balance, 3_200);
    assert_eq!(after.insurance_vault_balance, 307);
    assert_eq!(after.fee_vault_balance, 511);
    assert_eq!(after.insurance_fees_outstanding, 0);
    assert_eq!(after.protocol_fees_outstanding, 0);
    assert_eq!(after.total_deposits, 10_000);
    let (again, moved_again) = after.collect_fees(None).unwrap();
    assert_eq!(moved_again, FeeCollection { insurance_transfer: 0, fee_transfer: 0 });
    assert_eq!(format!("{:?}", again), format!("{:?}", after));
}

#[test]
fn collecting_is_limited_by_the_liquidity_vault() {
    let mut bank = books_bank(classic_program());
    bank.insurance_fees_outstanding = 3_000;
    bank.protocol_fees_outstanding = 2_500;
    let (after, moved) = bank.collect_fees(None).unwrap();
    assert_eq!(moved, FeeCollection { insurance_transfer: 3_000, fee_transfer: 1_000 });
    assert_eq!(after.liquidity_vault_balance, 0);
    assert_eq!(after.insurance_fees_outstanding, 0);
    assert_eq!(after.protocol_fees_outstanding, 1_500);
    bank.insurance_fees_outstanding = 5_000;
    let (after, moved) = bank.collect_fees(None).unwrap();
    assert_eq!(moved, FeeCollection { insurance_transfer: 4_000, fee_transfer: 0 });
    assert_eq!(after.insurance_fees_outstanding, 1_000);
    assert_eq!(after.protocol_fees_outstanding, 2_500);
    assert_eq!(after.fee_vault_balance, 0);
}

#[test]
fn collecting_for_an_extended_mint_needs_the_mint_account() {
    let mut bank = books_bank(extended_program());
    bank.protocol_fees_outstanding = 10;
    assert!(matches!(bank.collect_fees(None), Err(MarginfiError::MintAccountMissing)));
    assert!(matches!(bank.collect_fees(Some(Address::new([9; 32]))), Err(MarginfiError::MintAccountMissing)));
    let (after, moved) = bank.collect_fees(Some(bank.mint.key)).unwrap();
    assert_eq!(moved, FeeCollection { insurance_transfer: 0, fee_transfer: 10 });
    assert_eq!(after.fee_vault_balance, 10);
    let mut classic = books_bank(classic_program());
    classic.protocol_fees_outstanding = 10;
    assert!(classic.collect_fees(None).is_ok());
}

#[test]
fn collecting_refuses_a_vault_balance_beyond_its_integer() {
    let mut bank = books_bank(classic_program());
    bank.protocol_fees_outstanding = 10;
    bank.fee_vault_balance = u64::MAX - 9;
    assert!(matches!(bank.collect_fees(None), Err(MarginfiError::MathError)));
    bank.fee_vault_balance = u64::MAX - 10;
    assert_eq!(bank.collect_fees(None).unwrap().0.fee_vault_balance, u64::MAX);
}

#[test]
fn price_reading_values_collateral_at_the_low_end() {
    let reading = PriceReading { price: 2_500_000, confidence: 500_000, timestamp: 0 };
    assert_eq!(reading.value_of(1_000), 2_000);
    assert_eq!(reading.value_of(3), 6);
    assert_eq!(PriceReading { price: 1_500_000, confidence: 0, timestamp: 0 }.value_of(3), 4);
    assert_eq!(PriceReading { price: 5, confidence: 6, timestamp: 0 }.value_of(1_000_000), 0);
    assert_eq!(
        PriceReading { price: u64::MAX, confidence: 0, timestamp: 0 }.value_of(u64::MAX),
        (u64::MAX as u128) * (u64::MAX as u128) / 1_000_000
    );
}

#[test]
fn price_reading_goes_stale_after_the_maximum_age() {
    let reading = PriceReading { price: 1, confidence: 0, timestamp: 1_000 };
    assert!(!reading.check_stale(1_000, 60));
    assert!(!reading.check_stale(1_060, 60));
    assert!(reading.check_stale(1_061, 60));
    assert!(!reading.check_stale(900, 0));
    assert!(reading.check_stale(1_001, 0));
    let old = PriceReading { price: 1, confidence: 0, timestamp: i64::MIN };
    assert!(old.check_stale(i64::MAX, u64::MAX - 1));
    assert!(!old.check_stale(i64::MAX, u64::MAX));
}

#[test]
fn solvent_account_is_not_bankrupt() {
    let mut bank = books_bank(classic_program());
    bank.insurance_vault_balance = 500;
    let reading = fresh_reading(1_000_000, 0);
    for (collateral, liability) in [(1_000u64, 1_000u64), (1_001, 1_000), (0, 0), (u64::MAX, u64::MAX)] {
        let account = AccountSnapshot { account: Address::new([8; 32]), collateral, liability };
        assert!(matches!(bank.resolve_bankruptcy(&account, &reading, 1_010), Err(MarginfiError::NotBankrupt)));
    }
}

#[test]
fn shortfall_beyond_insurance_drains_the_vault_and_is_shared_by_depositors() {
    let mut bank = books_bank(classic_program());
    bank.insurance_vault_balance = 500;
    let account = AccountSnapshot { account: Address::new([8; 32]), collateral: 2_000, liability: 3_000 };
    let reading = fresh_reading(600_000, 100_000);
    let (after, event) = bank.resolve_bankruptcy(&account, &reading, 1_010).unwrap();
    assert_eq!(event.account, account.account);
    assert_eq!(event.bank, bank.key);
    assert_eq!(event.seized_collateral, 1_000);
    assert_eq!(event.shortfall, 2_000);
    assert_eq!(event.covered_by_insurance, 500);
    assert_eq!(event.socialized_loss, 1_500);
    assert_eq!(after.insurance_vault_balance, 0);
    assert_eq!(after.liquidity_vault_balance, 4_500);
    assert_eq!(after.total_deposits, 8_500);
    assert_eq!(after.total_liabilities, 3_000);
    assert_eq!(after.seized_collateral, 1_000);
    assert_eq!(after.fee_vault_balance, 0);
}

#[test]
fn shortfall_within_insurance_leaves_depositors_whole() {
    let mut bank = books_bank(classic_program());
    bank.insurance_vault_balance = 5_000;
    let account = AccountSnapshot { account: Address::new([8; 32]), collateral: 0, liability: 1_200 };
    let (after, event) = bank.resolve_bankruptcy(&account, &fresh_reading(1_000_000, 0), 1_010).unwrap();
    assert_eq!(event.shortfall, 1_200);
    assert_eq!(event.covered_by_insurance, 1_200);
    assert_eq!(event.socialized_loss, 0);
    assert_eq!(event.seized_collateral, 0);
    assert_eq!(after.insurance_vault_balance, 3_800);
    assert_eq!(after.liquidity_vault_balance, 5_200);
    assert_eq!(after.total_deposits, 10_000);
    assert_eq!(after.total_liabilities, 4_800);
}

#[test]
fn shortfall_equal_to_insurance_empties_the_vault_exactly() {
    let mut bank = books_bank(classic_program());
    bank.insurance_vault_balance = 700;
    let account = AccountSnapshot { account: Address::new([8; 32]), collateral: 0, liability: 700 };
    let (after, event) = bank.resolve_bankruptcy(&account, &fresh_reading(1_000_000, 0), 1_010).unwrap();
    assert_eq!(event.covered_by_insurance, 700);
    assert_eq!(event.socialized_loss, 0);
    assert_eq!(after.insurance_vault_balance, 0);
    assert_eq!(after.total_deposits, 10_000);
}

#[test]
fn loss_beyond_deposits_takes_all_that_depositors_are_owed() {
    let reading = fresh_reading(1_000_000, 0);
    let mut thin = books_bank(classic_program());
    thin.total_deposits = 99;
    thin.insurance_vault_balance = 10;
    let account = AccountSnapshot { account: Address::new([8; 32]), collateral: 0, liability: 200 };
    let (after, event) = thin.resolve_bankruptcy(&account, &reading, 1_010).unwrap();
    assert_eq!(event.shortfall, 200);
    assert_eq!(event.covered_by_insurance, 10);
    assert_eq!(event.socialized_loss, 99);
    assert_eq!(after.total_deposits, 0);
    assert_eq!(after.insurance_vault_balance, 0);
    assert_eq!(after.total_liabilities, 5_800);
    thin.total_deposits = 190;
    let (after, event) = thin.resolve_bankruptcy(&account, &reading, 1_010).unwrap();
    assert_eq!(event.socialized_loss, 190);
    assert_eq!(after.total_deposits, 0);
    thin.total_deposits = 191;
    let (after, event) = thin.resolve_bankruptcy(&account, &reading, 1_010).unwrap();
    assert_eq!(event.socialized_loss, 190);
    assert_eq!(after.total_deposits, 1);
}

#[test]
fn vault_authority_derives_its_address_from_bank_purpose_and_bump() {
    let bank = books_bank(classic_program());
    let program = Address::new([3; 32]);
    let authority = bank.vault_authority(BankVaultType::Fee);
    assert_eq!(authority.address(&bank.group, &program), Ok(bank.vaults.fee.authority));
    let mut forged = authority;
    forged.bump = authority.bump.wrapping_sub(1);
    assert_eq!(forged.address(&bank.group, &program), Err(MarginfiError::DerivationExhausted));
    let mut moved = authority;
    moved.vault_type = BankVaultType::Liquidity;
    assert_ne!(moved.address(&bank.group, &program), Ok(bank.vaults.fee.authority));
}

#[test]
fn stale_reading_stops_the_resolution() {
    let bank = books_bank(classic_program());
    let account = AccountSnapshot { account: Address::new([8; 32]), collateral: 0, liability: 100 };
    let reading = fresh_reading(1_000_000, 0);
    assert!(matches!(bank.resolve_bankruptcy(&account, &reading, 1_061), Err(MarginfiError::StaleOracleData)));
    assert!(bank.resolve_bankruptcy(&account, &reading, 1_060).is_ok());
    let solvent = AccountSnapshot { account: Address::new([8; 32]), collateral: 100, liability: 100 };
    assert!(matches!(bank.resolve_bankruptcy(&solvent, &reading, 1_061), Err(MarginfiError::StaleOracleData)));
}

#[test]
fn resolution_refuses_what_the_books_do_not_hold() {
    let bank = books_bank(classic_program());
    let reading = fresh_reading(1_000_000, 0);
    let owes_more = AccountSnapshot { account: Address::new([8; 32]), collateral: 0, liability: 6_001 };
    assert!(matches!(bank.resolve_bankruptcy(&owes_more, &reading, 1_010), Err(MarginfiError::MathError)));
    let mut full = books_bank(classic_program());
    full.seized_collateral = u64::MAX;
    let some = AccountSnapshot { account: Address::new([8; 32]), collateral: 1, liability: 100 };
    assert!(matches!(full.resolve_bankruptcy(&some, &reading, 1_010), Err(MarginfiError::MathError)));
}

#[test]
fn vault_authority_names_bank_purpose_and_bump() {
    let bank = books_bank(classic_program());
    for vault_type in [BankVaultType::Liquidity, BankVaultType::Insurance, BankVaultType::Fee] {
        let authority = bank.vault_authority(vault_type);
        assert_eq!(authority.bank, bank.key);
        assert_eq!(authority.vault_type, vault_type);
        assert_eq!(authority.bump, bank.vaults.get(vault_type).authority_bump);
    }
}
