use marginfi_core::address::Address;
use marginfi_core::bank::{Bank, Mint};
use marginfi_core::config::{BankConfig, InterestRateConfig, OracleRef, RiskTier};
use marginfi_core::error::MarginfiError;
use marginfi_core::vault::derive_bank_vaults;

const YEAR: i64 = 31_536_000;

fn accrual_curve() -> InterestRateConfig {
    InterestRateConfig {
        optimal_utilization_rate: 800_000,
        plateau_interest_rate: 100_000,
        max_interest_rate: 1_000_000,
        insurance_ir_fee: 100_000,
        protocol_ir_fee: 50_000,
    }
}

fn accrual_bank(deposits: u64, liabilities: u64, curve: InterestRateConfig) -> Bank {
    let key = Address::new([2; 32]);
    let group = Address::new([1; 32]);
    let program = Address::new([3; 32]);
    let mint = Mint {
        key: Address::new([4; 32]),
        token_program: Address::new(spl_token_2022::id().to_bytes()),
        decimals: 6,
    };
    let config = BankConfig {
        asset_weight_init: 500_000,
        asset_weight_maint: 600_000,
        liability_weight_init: 1_500_000,
        liability_weight_maint: 1_200_000,
        deposit_limit: 1_000_000_000,
        borrow_limit: 1_000_000_000,
        oracle: OracleRef::Direct(Address::new([5; 32])),
        oracle_max_age: 60,
        interest_rate_config: curve,
        deposits_paused: false,
        borrows_paused: false,
        risk_tier: RiskTier::Collateral,
    };
    let vaults = derive_bank_vaults(&group, &key, &program).unwrap();
    let mut bank = Bank::open(key, group, mint, config, Address::new([5; 32]), vaults, 1_000);
    bank.total_deposits = deposits;
    bank.total_liabilities = liabilities;
    bank
}

#[test]
fn opened_bank_has_empty_books() {
    let bank = accrual_bank(0, 0, accrual_curve());
    assert_eq!(bank.last_update, 1_000);
    assert_eq!(bank.accrued_deposit_interest, 0);
    assert_eq!(bank.accrued_liability_interest, 0);
    assert_eq!(bank.insurance_fees_outstanding, 0);
    assert_eq!(bank.protocol_fees_outstanding, 0);
    assert_eq!(bank.seized_collateral, 0);
    assert_eq!(bank.liquidity_vault_balance, 0);
    assert_eq!(bank.insurance_vault_balance, 0);
    assert_eq!(bank.fee_vault_balance, 0);
}

#[test]
fn accrual_below_the_bend_charges_the_first_line() {
    let bank = accrual_bank(2_000_000, 1_000_000, accrual_curve());
    let after = bank.accrue_interest(1_000 + YEAR).unwrap();
    assert_eq!(after.last_update, 1_000 + YEAR);
    assert_eq!(after.total_liabilities, 1_062_500);
    assert_eq!(after.accrued_liability_interest, 62_500);
    assert_eq!(after.insurance_fees_outstanding, 6_250);
    assert_eq!(after.protocol_fees_outstanding, 3_125);
    assert_eq!(after.accrued_deposit_interest, 53_125);
    assert_eq!(after.total_deposits, 2_053_125);
    assert_eq!(after.liquidity_vault_balance, 0);
    assert_eq!(after.key, bank.key);
}

#[test]
fn accrual_above_the_bend_charges_the_second_line() {
    let bank = accrual_bank(2_000_000, 1_800_000, accrual_curve());
    let after = bank.accrue_interest(1_000 + YEAR / 10).unwrap();
    assert_eq!(after.accrued_liability_interest, 99_000);
    assert_eq!(after.total_liabilities, 1_899_000);
    assert_eq!(after.insurance_fees_outstanding, 9_900);
    assert_eq!(after.protocol_fees_outstanding, 4_950);
    assert_eq!(after.total_deposits, 2_000_000 + 99_000 - 9_900 - 4_950);
}

#[test]
fn accrual_at_full_utilization_charges_the_maximum_rate() {
    let bank = accrual_bank(1_000, 5_000, accrual_curve());
    let after = bank.accrue_interest(1_000 + YEAR).unwrap();
    assert_eq!(after.accrued_liability_interest, 5_000);
    assert_eq!(after.total_liabilities, 10_000);
}

#[test]
fn accrual_rounds_down() {
    let bank = accrual_bank(1_000, 1_000, accrual_curve());
    let after = bank.accrue_interest(1_001).unwrap();
    assert_eq!(after.accrued_liability_interest, 0);
    assert_eq!(after.total_liabilities, 1_000);
    assert_eq!(after.last_update, 1_001);
    let later = bank.accrue_interest(1_000 + 31_536).unwrap();
    assert_eq!(later.accrued_liability_interest, 1);
    assert_eq!(later.insurance_fees_outstanding, 0);
    assert_eq!(later.protocol_fees_outstanding, 0);
    assert_eq!(later.total_deposits, 1_001);
}

#[test]
fn accrual_without_deposits_or_liabilities_only_moves_the_clock() {
    let empty = accrual_bank(0, 0, accrual_curve());
    let after = empty.accrue_interest(5_000).unwrap();
    assert_eq!(after.last_update, 5_000);
    assert_eq!(after.total_liabilities, 0);
    assert_eq!(after.total_deposits, 0);
    let no_deposits = accrual_bank(0, 700, accrual_curve());
    let after = no_deposits.accrue_interest(1_000 + YEAR).unwrap();
    assert_eq!(after.total_liabilities, 700);
    assert_eq!(after.accrued_liability_interest, 0);
}

#[test]
fn accrual_at_or_before_the_last_accrual_is_a_noop() {
    let bank = accrual_bank(2_000_000, 1_000_000, accrual_curve());
    for now in [1_000i64, 999, 0, -5, i64::MIN] {
        let after = bank.accrue_interest(now).unwrap();
        assert_eq!(format!("{:?}", after), format!("{:?}", bank));
    }
}

#[test]
fn accrual_twice_at_the_same_moment_changes_nothing_more() {
    let bank = accrual_bank(2_000_000, 1_000_000, accrual_curve());
    let once = bank.accrue_interest(1_000 + YEAR).unwrap();
    let twice = once.accrue_interest(1_000 + YEAR).unwrap();
    assert_eq!(format!("{:?}", twice), format!("{:?}", once));
    assert_ne!(format!("{:?}", once), format!("{:?}", bank));
}

#[test]
fn accrual_is_monotonic_over_time() {
    let mut bank = accrual_bank(2_000_000, 1_500_000, accrual_curve());
    let mut now = bank.last_update;
    for step in [1i64, 10, 86_400, YEAR, 3, 0, YEAR * 2] {
        now += step;
        let after = bank.accrue_interest(now).unwrap();
        assert!(after.accrued_liability_interest >= bank.accrued_liability_interest);
        assert!(after.accrued_deposit_interest >= bank.accrued_deposit_interest);
        assert!(after.last_update >= bank.last_update);
        bank = after;
    }
    assert!(bank.accrued_liability_interest > 0);
    let base = accrual_bank(2_000_000, 1_500_000, accrual_curve());
    let early = base.accrue_interest(1_000 + 86_400).unwrap();
    let late = base.accrue_interest(1_000 + YEAR).unwrap();
    assert!(early.accrued_liability_interest <= late.accrued_liability_interest);
}

#[test]
fn accrual_refuses_amounts_beyond_their_integer() {
    let bank = accrual_bank(u64::MAX, u64::MAX, accrual_curve());
    assert!(matches!(bank.accrue_interest(1_000 + YEAR), Err(MarginfiError::MathError)));
    let far = accrual_bank(1_000_000_000, 1_000_000_000, accrual_curve());
    assert!(matches!(far.accrue_interest(i64::MAX), Err(MarginfiError::MathError)));
    let near = accrual_bank(1_000, 1_000, accrual_curve());
    let after = near.accrue_interest(1_000 + 100 * YEAR).unwrap();
    assert_eq!(after.total_liabilities, 101_000);
    let mut full = accrual_bank(2_000_000, 1_000_000, accrual_curve());
    full.protocol_fees_outstanding = u64::MAX;
    assert!(matches!(full.accrue_interest(1_000 + YEAR), Err(MarginfiError::MathError)));
    let mut total = accrual_bank(2_000_000, 1_000_000, accrual_curve());
    total.accrued_liability_interest = u128::MAX;
    assert!(matches!(total.accrue_interest(1_000 + YEAR), Err(MarginfiError::MathError)));
}

#[test]
fn accrual_refuses_a_curve_out_of_bounds() {
    let mut curve = accrual_curve();
    curve.optimal_utilization_rate = 0;
    let bank = accrual_bank(2_000_000, 1_000_000, curve);
    assert!(matches!(bank.accrue_interest(2_000), Err(MarginfiError::InvalidConfig)));
    assert!(bank.accrue_interest(1_000).is_ok());
}

#[test]
fn accrual_with_all_interest_taken_as_fees_credits_depositors_nothing() {
    let mut curve = accrual_curve();
    curve.insurance_ir_fee = 400_000;
    curve.protocol_ir_fee = 600_000;
    let bank = accrual_bank(2_000_000, 1_000_000, curve);
    let after = bank.accrue_interest(1_000 + YEAR).unwrap();
    assert_eq!(after.accrued_liability_interest, 62_500);
    assert_eq!(after.insurance_fees_outstanding, 25_000);
    assert_eq!(after.protocol_fees_outstanding, 37_500);
    assert_eq!(after.accrued_deposit_interest, 0);
    assert_eq!(after.total_deposits, 2_000_000);
}
