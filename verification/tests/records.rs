use marginfi_core::address::Address;
use marginfi_core::bank::{Bank, Mint};
use marginfi_core::config::{BankConfig, InterestRateConfig, OracleRef, RiskTier};
use marginfi_core::fixture::MarginfiGroupFixture;
use marginfi_core::group::MarginfiGroup;
use marginfi_core::vault::derive_bank_vaults;

fn sample_group() -> MarginfiGroup {
    let mut key = [0u8; 32];
    let mut admin = [0u8; 32];
    for i in 0..32 {
        key[i] = i as u8;
        admin[i] = 200 - i as u8;
    }
    MarginfiGroup {
        key: Address::new(key),
        admin: Address::new(admin),
        emergency_paused: true,
        isolated_tier_enabled: false,
    }
}

fn sample_bank() -> Bank {
    let key = Address::new([2; 32]);
    let group = Address::new([1; 32]);
    let program = Address::new([3; 32]);
    let mint = Mint { key: Address::new([4; 32]), token_program: Address::new([6; 32]), decimals: 9 };
    let config = BankConfig {
        asset_weight_init: 500_000,
        asset_weight_maint: i64::MAX,
        liability_weight_init: -1,
        liability_weight_maint: i64::MIN,
        deposit_limit: 0,
        borrow_limit: 77,
        oracle: OracleRef::Feed(Address::new([5; 32])),
        oracle_max_age: u64::MAX,
        interest_rate_config: InterestRateConfig {
            optimal_utilization_rate: 1,
            plateau_interest_rate: 2,
            max_interest_rate: 3,
            insurance_ir_fee: 4,
            protocol_ir_fee: 0x0102_0304_0506_0708,
        },
        deposits_paused: false,
        borrows_paused: true,
        risk_tier: RiskTier::Isolated,
    };
    let vaults = derive_bank_vaults(&group, &key, &program).unwrap();
    let mut bank = Bank::open(key, group, mint, config, Address::new([7; 32]), vaults, -12_345);
    bank.total_deposits = 11;
    bank.total_liabilities = 12;
    bank.accrued_deposit_interest = u128::MAX;
    bank.accrued_liability_interest = 1 << 100;
    bank.insurance_fees_outstanding = 13;
    bank.protocol_fees_outstanding = 14;
    bank.seized_collateral = 15;
    bank.liquidity_vault_balance = 16;
    bank.insurance_vault_balance = 17;
    bank.fee_vault_balance = u64::MAX;
    bank
}

#[test]
fn group_record_has_the_stated_layout() {
    let group = sample_group();
    let bytes = group.to_bytes();
    assert_eq!(bytes.len(), MarginfiGroupFixture::get_size());
    assert_eq!(&bytes[..8], b"mfgroup\x01");
    assert_eq!(&bytes[8..40], &group.key.bytes);
    assert_eq!(&bytes[40..72], &group.admin.bytes);
    assert_eq!(&bytes[72..], &[1, 0]);
}

#[test]
fn group_record_is_read_as_it_was_written() {
    let group = sample_group();
    let read = MarginfiGroup::from_bytes(&group.to_bytes()).unwrap();
    assert_eq!(format!("{:?}", read), format!("{:?}", group));
    assert_eq!(read.to_bytes(), group.to_bytes());
    let mut other = group;
    other.emergency_paused = false;
    other.isolated_tier_enabled = true;
    let read = MarginfiGroup::from_bytes(&other.to_bytes()).unwrap();
    assert_eq!(format!("{:?}", read), format!("{:?}", other));
}

#[test]
fn group_record_with_a_fault_is_not_read() {
    let bytes = sample_group().to_bytes();
    assert!(MarginfiGroup::from_bytes(&bytes[..73].to_vec()).is_none());
    assert!(MarginfiGroup::from_bytes(&[bytes.clone(), vec![0]].concat()).is_none());
    assert!(MarginfiGroup::from_bytes(&vec![]).is_none());
    for place in 0..8 {
        let mut wrong = bytes.clone();
        wrong[place] ^= 1;
        assert!(MarginfiGroup::from_bytes(&wrong).is_none());
    }
    for place in [72usize, 73] {
        let mut wrong = bytes.clone();
        wrong[place] = 2;
        assert!(MarginfiGroup::from_bytes(&wrong).is_none());
    }
    let mut fine = bytes.clone();
    fine[20] ^= 0xff;
    assert!(MarginfiGroup::from_bytes(&fine).is_some());
}

#[test]
fn bank_record_has_the_stated_layout() {
    let bank = sample_bank();
    let bytes = bank.to_bytes();
    assert_eq!(bytes.len(), 603);
    assert_eq!(&bytes[..8], b"mfibank\x01");
    assert_eq!(&bytes[8..40], &bank.key.bytes);
    assert_eq!(&bytes[40..72], &bank.group.bytes);
    assert_eq!(&bytes[72..104], &bank.mint.key.bytes);
    assert_eq!(&bytes[104..136], &bank.mint.token_program.bytes);
    assert_eq!(bytes[136], 9);
    assert_eq!(&bytes[137..145], &(500_000u64 + (1 << 63)).to_le_bytes());
    assert_eq!(&bytes[145..153], &u64::MAX.to_le_bytes());
    assert_eq!(&bytes[153..161], &((1u64 << 63) - 1).to_le_bytes());
    assert_eq!(&bytes[161..169], &0u64.to_le_bytes());
    assert_eq!(&bytes[169..177], &(1u64 << 63).to_le_bytes());
    assert_eq!(&bytes[177..185], &((1u64 << 63) + 77).to_le_bytes());
    assert_eq!(bytes[185], 1);
    assert_eq!(&bytes[186..218], &[5u8; 32]);
    assert_eq!(&bytes[218..226], &u64::MAX.to_le_bytes());
    assert_eq!(&bytes[226..234], &1u64.to_le_bytes());
    assert_eq!(&bytes[258..266], &[8, 7, 6, 5, 4, 3, 2, 1]);
    assert_eq!(&bytes[266..269], &[0, 1, 1]);
    assert_eq!(&bytes[269..301], &[7u8; 32]);
    assert_eq!(&bytes[301..333], &bank.vaults.liquidity.vault.bytes);
    assert_eq!(bytes[333], bank.vaults.liquidity.vault_bump);
    assert_eq!(&bytes[334..366], &bank.vaults.liquidity.authority.bytes);
    assert_eq!(bytes[366], bank.vaults.liquidity.authority_bump);
    assert_eq!(&bytes[367..399], &bank.vaults.insurance.vault.bytes);
    assert_eq!(&bytes[433..465], &bank.vaults.fee.vault.bytes);
    assert_eq!(bytes[498], bank.vaults.fee.authority_bump);
    assert_eq!(&bytes[499..507], &((1u64 << 63) - 12_345).to_le_bytes());
    assert_eq!(&bytes[507..515], &11u64.to_le_bytes());
    assert_eq!(&bytes[523..539], &u128::MAX.to_le_bytes());
    assert_eq!(&bytes[539..555], &(1u128 << 100).to_le_bytes());
    assert_eq!(&bytes[595..603], &u64::MAX.to_le_bytes());
}

#[test]
fn bank_record_is_read_as_it_was_written() {
    let bank = sample_bank();
    let read = Bank::from_bytes(&bank.to_bytes()).unwrap();
    assert_eq!(format!("{:?}", read), format!("{:?}", bank));
    assert_eq!(read.to_bytes(), bank.to_bytes());
    let mut other = bank;
    other.config.oracle = OracleRef::Direct(Address::new([9; 32]));
    other.config.risk_tier = RiskTier::Collateral;
    other.config.deposits_paused = true;
    other.last_update = i64::MAX;
    let read = Bank::from_bytes(&other.to_bytes()).unwrap();
    assert_eq!(format!("{:?}", read), format!("{:?}", other));
}

#[test]
fn bank_record_with_a_fault_is_not_read() {
    let bytes = sample_bank().to_bytes();
    assert!(Bank::from_bytes(&bytes[..602].to_vec()).is_none());
    assert!(Bank::from_bytes(&[bytes.clone(), vec![0]].concat()).is_none());
    assert!(Bank::from_bytes(&sample_group().to_bytes()).is_none());
    for place in 0..8 {
        let mut wrong = bytes.clone();
        wrong[place] = wrong[place].wrapping_add(1);
        assert!(Bank::from_bytes(&wrong).is_none());
    }
    for place in [185usize, 266, 267, 268] {
        let mut wrong = bytes.clone();
        wrong[place] = 2;
        assert!(Bank::from_bytes(&wrong).is_none());
        wrong[place] = 255;
        assert!(Bank::from_bytes(&wrong).is_none());
    }
    let mut fine = bytes.clone();
    fine[300] ^= 0xff;
    fine[600] ^= 0xff;
    let read = Bank::from_bytes(&fine).unwrap();
    assert_eq!(read.to_bytes(), fine);
}

#[test]
fn address_is_read_from_any_thirty_two_bytes_in_range() {
    let bytes: Vec<u8> = (0u8..40).collect();
    let a = Address::from_slice(&bytes, 3).unwrap();
    assert_eq!(a.to_vec(), (3u8..35).collect::<Vec<u8>>());
    assert!(Address::from_slice(&bytes, 8).is_some());
    assert!(Address::from_slice(&bytes, 9).is_none());
    assert!(Address::from_slice(&bytes, usize::MAX).is_none());
    assert!(Address::from_slice(&vec![1, 2, 3], 0).is_none());
}
