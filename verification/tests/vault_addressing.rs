use marginfi_core::address::Address;
use marginfi_core::bank::Mint;
use marginfi_core::config::OracleRef;
use marginfi_core::error::MarginfiError;
use marginfi_core::fixture::BankFixture;
use marginfi_core::oracle::{resolve_oracle, OracleResolver};
use marginfi_core::vault::{
    derive_bank_vaults, derive_vault_slot, find_bank_vault_authority_pda, find_bank_vault_pda,
    find_seeded_bank_pda, BankVaultType,
};
use solana_program::pubkey::Pubkey;

fn addr(tag: u8) -> Address {
    Address::new([tag; 32])
}

fn key_of(a: &Address) -> Pubkey {
    Pubkey::new_from_array(a.bytes)
}

#[test]
fn vault_derivation_is_deterministic() {
    let (group, bank, program) = (addr(1), addr(2), addr(3));
    for vault_type in [BankVaultType::Liquidity, BankVaultType::Insurance, BankVaultType::Fee] {
        let first = find_bank_vault_pda(&group, &bank, vault_type, &program).unwrap();
        let second = find_bank_vault_pda(&group, &bank, vault_type, &program).unwrap();
        assert_eq!(first, second);
        let auth_first = find_bank_vault_authority_pda(&group, &bank, vault_type, &program).unwrap();
        let auth_second = find_bank_vault_authority_pda(&group, &bank, vault_type, &program).unwrap();
        assert_eq!(auth_first, auth_second);
    }
}

#[test]
fn vault_address_is_the_runtime_derivation_of_its_seeds() {
    let (group, bank, program) = (addr(11), addr(12), addr(13));
    let cases: [(BankVaultType, &[u8], &[u8]); 3] = [
        (BankVaultType::Liquidity, b"liquidity_vault", b"liquidity_vault_auth"),
        (BankVaultType::Insurance, b"insurance_vault", b"insurance_vault_auth"),
        (BankVaultType::Fee, b"fee_vault", b"fee_vault_auth"),
    ];
    for (vault_type, vault_tag, auth_tag) in cases {
        let (vault, bump) = find_bank_vault_pda(&group, &bank, vault_type, &program).unwrap();
        let (expected, expected_bump) =
            Pubkey::find_program_address(&[vault_tag, &group.bytes, &bank.bytes], &key_of(&program));
        assert_eq!(vault.bytes, expected.to_bytes());
        assert_eq!(bump, expected_bump);
        let (auth, auth_bump) = find_bank_vault_authority_pda(&group, &bank, vault_type, &program).unwrap();
        let (expected, expected_bump) =
            Pubkey::find_program_address(&[auth_tag, &group.bytes, &bank.bytes], &key_of(&program));
        assert_eq!(auth.bytes, expected.to_bytes());
        assert_eq!(auth_bump, expected_bump);
        assert_ne!(vault, group);
        assert_ne!(vault, bank);
        assert_ne!(vault, program);
    }
}

#[test]
fn distinct_inputs_derive_distinct_vaults() {
    let program = addr(3);
    let base = find_bank_vault_pda(&addr(1), &addr(2), BankVaultType::Liquidity, &program).unwrap().0;
    let other_group = find_bank_vault_pda(&addr(9), &addr(2), BankVaultType::Liquidity, &program).unwrap().0;
    let other_bank = find_bank_vault_pda(&addr(1), &addr(9), BankVaultType::Liquidity, &program).unwrap().0;
    let other_type = find_bank_vault_pda(&addr(1), &addr(2), BankVaultType::Fee, &program).unwrap().0;
    let other_program = find_bank_vault_pda(&addr(1), &addr(2), BankVaultType::Liquidity, &addr(4)).unwrap().0;
    let authority = find_bank_vault_authority_pda(&addr(1), &addr(2), BankVaultType::Liquidity, &program).unwrap().0;
    let all = [base, other_group, other_bank, other_type, other_program, authority];
    for i in 0..all.len() {
        for j in 0..all.len() {
            if i != j {
                assert_ne!(all[i], all[j]);
            }
        }
    }
}

#[test]
fn seeded_bank_key_is_the_runtime_derivation_of_group_mint_and_seed() {
    let (group, mint, program) = (addr(21), addr(22), addr(23));
    for seed in [0u64, 1, 7, 300, u64::MAX] {
        let (bank, bump) = find_seeded_bank_pda(&group, &mint, seed, &program).unwrap();
        let (expected, expected_bump) =
            Pubkey::find_program_address(&[&group.bytes, &mint.bytes, &seed.to_le_bytes()], &key_of(&program));
        assert_eq!(bank.bytes, expected.to_bytes());
        assert_eq!(bump, expected_bump);
        assert_eq!(find_seeded_bank_pda(&group, &mint, seed, &program).unwrap(), (bank, bump));
    }
    let a = find_seeded_bank_pda(&group, &mint, 1, &program).unwrap().0;
    let b = find_seeded_bank_pda(&group, &mint, 2, &program).unwrap().0;
    assert_ne!(a, b);
}

#[test]
fn vault_slots_hold_both_derivations() {
    let (group, bank, program) = (addr(31), addr(32), addr(33));
    let vaults = derive_bank_vaults(&group, &bank, &program).unwrap();
    for vault_type in [BankVaultType::Liquidity, BankVaultType::Insurance, BankVaultType::Fee] {
        let slot = vaults.get(vault_type);
        let single = derive_vault_slot(&group, &bank, vault_type, &program).unwrap();
        let (vault, bump) = find_bank_vault_pda(&group, &bank, vault_type, &program).unwrap();
        let (auth, auth_bump) = find_bank_vault_authority_pda(&group, &bank, vault_type, &program).unwrap();
        assert_eq!((slot.vault, slot.vault_bump, slot.authority, slot.authority_bump), (vault, bump, auth, auth_bump));
        assert_eq!((single.vault, single.vault_bump, single.authority, single.authority_bump), (vault, bump, auth, auth_bump));
    }
    let bumps = vaults.bumps();
    assert_eq!(bumps.liquidity_vault_bump, vaults.liquidity.vault_bump);
    assert_eq!(bumps.liquidity_vault_auth_bump, vaults.liquidity.authority_bump);
    assert_eq!(bumps.insurance_vault_bump, vaults.insurance.vault_bump);
    assert_eq!(bumps.insurance_vault_auth_bump, vaults.insurance.authority_bump);
    assert_eq!(bumps.fee_vault_bump, vaults.fee.vault_bump);
    assert_eq!(bumps.fee_vault_auth_bump, vaults.fee.authority_bump);
}

#[test]
fn bank_fixture_derives_the_same_vaults() {
    let (group, bank, program) = (addr(41), addr(42), addr(43));
    let mint = Mint { key: addr(44), token_program: Address::new(spl_token_2022::id().to_bytes()), decimals: 6 };
    let fixture = BankFixture::new(program, group, bank, &mint);
    assert_eq!(fixture.key, bank);
    assert_eq!(fixture.group, group);
    assert_eq!(fixture.get_token_program(), mint.token_program);
    assert_eq!(
        fixture.get_vault(BankVaultType::Insurance),
        find_bank_vault_pda(&group, &bank, BankVaultType::Insurance, &program)
    );
    assert_eq!(
        fixture.get_vault_authority(BankVaultType::Insurance),
        find_bank_vault_authority_pda(&group, &bank, BankVaultType::Insurance, &program)
    );
}

#[test]
fn direct_oracle_resolves_to_itself() {
    let resolver = OracleResolver { program: addr(50), shard: 0 };
    assert_eq!(resolve_oracle(&OracleRef::Direct(addr(51)), &resolver), Ok(addr(51)));
}

#[test]
fn feed_oracle_resolves_to_the_derived_price_account() {
    let feed = addr(61);
    for shard in [0u16, 1, 513] {
        let resolver = OracleResolver { program: addr(60), shard };
        let resolved = resolve_oracle(&OracleRef::Feed(feed), &resolver).unwrap();
        let (expected, _) =
            Pubkey::find_program_address(&[&shard.to_le_bytes(), &feed.bytes], &key_of(&resolver.program));
        assert_eq!(resolved.bytes, expected.to_bytes());
        assert_ne!(resolved, feed);
    }
}

#[test]
fn mint_support_follows_token_program_and_decimals() {
    let classic = Address::new([
        6, 221, 246, 225, 215, 101, 161, 147, 217, 203, 225, 70, 206, 235, 121, 172, 28, 180, 133, 237, 95, 91, 55,
        145, 58, 140, 245, 133, 126, 255, 0, 169,
    ]);
    let extended = Address::new(spl_token_2022::id().to_bytes());
    assert!(Mint { key: addr(70), token_program: classic, decimals: 0 }.check_supported());
    assert!(Mint { key: addr(70), token_program: classic, decimals: 19 }.check_supported());
    assert!(Mint { key: addr(70), token_program: extended, decimals: 9 }.check_supported());
    assert!(!Mint { key: addr(70), token_program: classic, decimals: 20 }.check_supported());
    assert!(!Mint { key: addr(70), token_program: extended, decimals: 255 }.check_supported());
    assert!(!Mint { key: addr(70), token_program: addr(71), decimals: 6 }.check_supported());
    assert!(!Mint { key: addr(70), token_program: addr(0), decimals: 6 }.check_supported());
}

#[test]
fn address_equality_is_by_bytes() {
    let mut bytes = [5u8; 32];
    let a = Address::new(bytes);
    assert_eq!(a, Address::new([5u8; 32]));
    assert_eq!(a.to_vec(), vec![5u8; 32]);
    bytes[31] = 6;
    assert_ne!(a, Address::new(bytes));
    bytes[31] = 5;
    bytes[0] = 4;
    assert_ne!(a, Address::new(bytes));
    let e: Result<(), MarginfiError> = Err(MarginfiError::DerivationExhausted);
    assert_ne!(e, Ok(()));
}
