//! Vault addressing: the custody vaults of a bank, their authorities, and seeded bank
//! identifiers, all derived from seeds and never stored as free pointers.
use vstd::prelude::*;
use crate::address::{Address, address_of, lemma_address_of_view};
use crate::error::MarginfiError;
use crate::pda::{program_address, try_find_program_address};

verus! {

/// What a vault of a bank is for.
#[derive(Clone, Copy, Debug, PartialEq, Eq, Structural)]
pub enum BankVaultType {
    Liquidity,
    Insurance,
    Fee,
}

/// The tag that opens the seeds of a vault: `liquidity_vault`, `insurance_vault`, `fee_vault`.
pub open spec fn vault_seed(vault_type: BankVaultType) -> Seq<u8> {
    match vault_type {
        BankVaultType::Liquidity => seq![108u8, 105, 113, 117, 105, 100, 105, 116, 121, 95, 118, 97, 117, 108, 116],
        BankVaultType::Insurance => seq![105u8, 110, 115, 117, 114, 97, 110, 99, 101, 95, 118, 97, 117, 108, 116],
        BankVaultType::Fee => seq![102u8, 101, 101, 95, 118, 97, 117, 108, 116],
    }
}

/// The tag that opens the seeds of a vault's authority: the vault's tag followed by `_auth`.
pub open spec fn vault_authority_seed(vault_type: BankVaultType) -> Seq<u8> {
    vault_seed(vault_type) + seq![95u8, 97, 117, 116, 104]
}

/// The seeds of a bank's vault.
pub open spec fn vault_seeds(group: Address, bank: Address, vault_type: BankVaultType) -> Seq<Seq<u8>> {
    seq![vault_seed(vault_type), group@, bank@]
}

/// The seeds of the authority over a bank's vault.
pub open spec fn vault_authority_seeds(group: Address, bank: Address, vault_type: BankVaultType) -> Seq<Seq<u8>> {
    seq![vault_authority_seed(vault_type), group@, bank@]
}

/// The seeds of a bank that is identified by its group, its mint and a number.
pub open spec fn seeded_bank_seeds(group: Address, mint: Address, bank_seed: u64) -> Seq<Seq<u8>> {
    seq![group@, mint@, vstd::bytes::spec_u64_to_le_bytes(bank_seed)]
}

/// The outcome of deriving from seeds under a program: the address and bump, or
/// `DerivationExhausted` where the search finds none.
pub open spec fn derive_spec(seeds: Seq<Seq<u8>>, program_id: Address) -> Result<(Address, u8), MarginfiError> {
    match program_address(seeds, program_id@) {
        Some((bytes, bump)) => Ok((address_of(bytes), bump)),
        None => Err(MarginfiError::DerivationExhausted),
    }
}

fn vault_seed_bytes(vault_type: BankVaultType) -> (v: Vec<u8>)
    ensures
        v@ == vault_seed(vault_type),
{
    let v: Vec<u8> = match vault_type {
        BankVaultType::Liquidity => vec![108u8, 105, 113, 117, 105, 100, 105, 116, 121, 95, 118, 97, 117, 108, 116],
        BankVaultType::Insurance => vec![105u8, 110, 115, 117, 114, 97, 110, 99, 101, 95, 118, 97, 117, 108, 116],
        BankVaultType::Fee => vec![102u8, 101, 101, 95, 118, 97, 117, 108, 116],
    };
    assert(v@ =~= vault_seed(vault_type));
    v
}

fn vault_authority_seed_bytes(vault_type: BankVaultType) -> (v: Vec<u8>)
    ensures
        v@ == vault_authority_seed(vault_type),
{
    let mut v: Vec<u8> = vault_seed_bytes(vault_type);
    v.push(95u8);
    v.push(97u8);
    v.push(117u8);
    v.push(116u8);
    v.push(104u8);
    assert(v@ =~= vault_authority_seed(vault_type));
    v
}

/// Derives from a list of seeds under the program.
pub(crate) fn derive_address(seeds: &Vec<Vec<u8>>, program_id: &Address) -> (r: Result<(Address, u8), MarginfiError>)
    ensures
        r == derive_spec(seeds.deep_view(), *program_id),
{
    match try_find_program_address(seeds, program_id) {
        Some((address, bump)) => {
            proof {
                lemma_address_of_view(address);
            }
            Ok((address, bump))
        },
        None => Err(MarginfiError::DerivationExhausted),
    }
}

fn derive_from_three(first: Vec<u8>, second: Vec<u8>, third: Vec<u8>, program_id: &Address) -> (r: Result<(Address, u8), MarginfiError>)
    ensures
        r == derive_spec(seq![first@, second@, third@], *program_id),
{
    let mut seeds: Vec<Vec<u8>> = Vec::new();
    seeds.push(first);
    seeds.push(second);
    seeds.push(third);
    proof {
        assert(seeds@[0].deep_view() =~= first@);
        assert(seeds@[1].deep_view() =~= second@);
        assert(seeds@[2].deep_view() =~= third@);
        assert(seeds.deep_view() =~= seq![first@, second@, third@]);
    }
    derive_address(&seeds, program_id)
}

/// The address and bump of the vault that holds a bank's asset for one purpose.
pub fn find_bank_vault_pda(group: &Address, bank: &Address, vault_type: BankVaultType, program_id: &Address) -> (r: Result<(Address, u8), MarginfiError>)
    ensures
        r == derive_spec(vault_seeds(*group, *bank, vault_type), *program_id),
{
    derive_from_three(vault_seed_bytes(vault_type), group.to_vec(), bank.to_vec(), program_id)
}

/// The address and bump of the authority over a bank's vault.
pub fn find_bank_vault_authority_pda(group: &Address, bank: &Address, vault_type: BankVaultType, program_id: &Address) -> (r: Result<(Address, u8), MarginfiError>)
    ensures
        r == derive_spec(vault_authority_seeds(*group, *bank, vault_type), *program_id),
{
    derive_from_three(vault_authority_seed_bytes(vault_type), group.to_vec(), bank.to_vec(), program_id)
}

/// The address and bump of the bank that a group, a mint and a number identify.
pub fn find_seeded_bank_pda(group: &Address, mint: &Address, bank_seed: u64, program_id: &Address) -> (r: Result<(Address, u8), MarginfiError>)
    ensures
        r == derive_spec(seeded_bank_seeds(*group, *mint, bank_seed), *program_id),
{
    derive_from_three(group.to_vec(), mint.to_vec(), vstd::bytes::u64_to_le_bytes(bank_seed), program_id)
}

/// A vault of a bank and the authority over it, each with the bump of its derivation.
#[derive(Clone, Copy, Debug)]
pub struct VaultSlot {
    pub vault: Address,
    pub vault_bump: u8,
    pub authority: Address,
    pub authority_bump: u8,
}

/// The vaults of a bank, one for each purpose.
#[derive(Clone, Copy, Debug)]
pub struct BankVaults {
    pub liquidity: VaultSlot,
    pub insurance: VaultSlot,
    pub fee: VaultSlot,
}

/// The bumps of a bank's vaults and authorities, as a caller may supply them.
#[derive(Clone, Copy, Debug, PartialEq, Eq, Structural)]
pub struct VaultBumps {
    pub liquidity_vault_bump: u8,
    pub liquidity_vault_auth_bump: u8,
    pub insurance_vault_bump: u8,
    pub insurance_vault_auth_bump: u8,
    pub fee_vault_bump: u8,
    pub fee_vault_auth_bump: u8,
}

/// The capability to move funds out of one vault of one bank. It names the bank, the purpose
/// and the bump; the address it acts under is derived from these and held by no key.
#[derive(Clone, Copy, Debug)]
pub struct VaultAuthority {
    pub bank: Address,
    pub vault_type: BankVaultType,
    pub bump: u8,
}

impl VaultAuthority {
    /// The address that the capability acts under: the one its bank and purpose derive, if
    /// the bump it names is the derived one.
    pub open spec fn address_spec(self, group: Address, program_id: Address) -> Result<Address, MarginfiError> {
        match derive_spec(vault_authority_seeds(group, self.bank, self.vault_type), program_id) {
            Err(e) => Err(e),
            Ok((address, bump)) => if bump == self.bump {
                Ok(address)
            } else {
                Err(MarginfiError::DerivationExhausted)
            },
        }
    }

    /// Derives the address that the capability acts under.
    pub fn address(&self, group: &Address, program_id: &Address) -> (r: Result<Address, MarginfiError>)
        ensures
            r == self.address_spec(*group, *program_id),
    {
        match find_bank_vault_authority_pda(group, &self.bank, self.vault_type, program_id) {
            Err(e) => Err(e),
            Ok((address, bump)) => if bump == self.bump {
                Ok(address)
            } else {
                Err(MarginfiError::DerivationExhausted)
            },
        }
    }
}

/// The vault and authority that a bank has for one purpose.
pub open spec fn vault_slot_spec(group: Address, bank: Address, vault_type: BankVaultType, program_id: Address) -> Result<VaultSlot, MarginfiError> {
    match derive_spec(vault_seeds(group, bank, vault_type), program_id) {
        Err(e) => Err(e),
        Ok((vault, vault_bump)) => match derive_spec(vault_authority_seeds(group, bank, vault_type), program_id) {
            Err(e) => Err(e),
            Ok((authority, authority_bump)) => Ok(VaultSlot { vault, vault_bump, authority, authority_bump }),
        },
    }
}

/// The vaults of a bank: all three purposes derive, or the derivation is exhausted.
pub open spec fn bank_vaults_spec(group: Address, bank: Address, program_id: Address) -> Result<BankVaults, MarginfiError> {
    match vault_slot_spec(group, bank, BankVaultType::Liquidity, program_id) {
        Err(e) => Err(e),
        Ok(liquidity) => match vault_slot_spec(group, bank, BankVaultType::Insurance, program_id) {
            Err(e) => Err(e),
            Ok(insurance) => match vault_slot_spec(group, bank, BankVaultType::Fee, program_id) {
                Err(e) => Err(e),
                Ok(fee) => Ok(BankVaults { liquidity, insurance, fee }),
            },
        },
    }
}

impl VaultSlot {
    /// The slot holds what the seeds of the bank and purpose derive.
    pub open spec fn is_derived_for(self, group: Address, bank: Address, vault_type: BankVaultType, program_id: Address) -> bool {
        vault_slot_spec(group, bank, vault_type, program_id) == Ok::<VaultSlot, MarginfiError>(self)
    }
}

impl BankVaults {
    /// The slot for a purpose.
    pub open spec fn slot(self, vault_type: BankVaultType) -> VaultSlot {
        match vault_type {
            BankVaultType::Liquidity => self.liquidity,
            BankVaultType::Insurance => self.insurance,
            BankVaultType::Fee => self.fee,
        }
    }

    /// The six bumps of the vaults.
    pub open spec fn bumps_spec(self) -> VaultBumps {
        VaultBumps {
            liquidity_vault_bump: self.liquidity.vault_bump,
            liquidity_vault_auth_bump: self.liquidity.authority_bump,
            insurance_vault_bump: self.insurance.vault_bump,
            insurance_vault_auth_bump: self.insurance.authority_bump,
            fee_vault_bump: self.fee.vault_bump,
            fee_vault_auth_bump: self.fee.authority_bump,
        }
    }

    /// The six bumps of the vaults.
    pub fn bumps(&self) -> (b: VaultBumps)
        ensures
            b == self.bumps_spec(),
    {
        VaultBumps {
            liquidity_vault_bump: self.liquidity.vault_bump,
            liquidity_vault_auth_bump: self.liquidity.authority_bump,
            insurance_vault_bump: self.insurance.vault_bump,
            insurance_vault_auth_bump: self.insurance.authority_bump,
            fee_vault_bump: self.fee.vault_bump,
            fee_vault_auth_bump: self.fee.authority_bump,
        }
    }

    /// The slot for a purpose.
    pub fn get(&self, vault_type: BankVaultType) -> (s: VaultSlot)
        ensures
            s == self.slot(vault_type),
    {
        match vault_type {
            BankVaultType::Liquidity => self.liquidity,
            BankVaultType::Insurance => self.insurance,
            BankVaultType::Fee => self.fee,
        }
    }
}

/// Derives the vault and the authority that a bank has for one purpose.
pub fn derive_vault_slot(group: &Address, bank: &Address, vault_type: BankVaultType, program_id: &Address) -> (r: Result<VaultSlot, MarginfiError>)
    ensures
        r == vault_slot_spec(*group, *bank, vault_type, *program_id),
{
    match find_bank_vault_pda(group, bank, vault_type, program_id) {
        Err(e) => Err(e),
        Ok((vault, vault_bump)) => match find_bank_vault_authority_pda(group, bank, vault_type, program_id) {
            Err(e) => Err(e),
            Ok((authority, authority_bump)) => Ok(VaultSlot { vault, vault_bump, authority, authority_bump }),
        },
    }
}

/// Derives all vaults of a bank.
pub fn derive_bank_vaults(group: &Address, bank: &Address, program_id: &Address) -> (r: Result<BankVaults, MarginfiError>)
    ensures
        r == bank_vaults_spec(*group, *bank, *program_id),
{
    match derive_vault_slot(group, bank, BankVaultType::Liquidity, program_id) {
        Err(e) => Err(e),
        Ok(liquidity) => match derive_vault_slot(group, bank, BankVaultType::Insurance, program_id) {
            Err(e) => Err(e),
            Ok(insurance) => match derive_vault_slot(group, bank, BankVaultType::Fee, program_id) {
                Err(e) => Err(e),
                Ok(fee) => Ok(BankVaults { liquidity, insurance, fee }),
            },
        },
    }
}

} // verus!
