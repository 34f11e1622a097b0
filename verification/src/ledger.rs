//! The ledger: every group and bank of the protocol, and the operations on them. Each
//! operation either takes full effect or fails and leaves the ledger exactly as it was.
use vstd::prelude::*;
use crate::address::Address;
use crate::bank::{AccountSnapshot, Bank, BankruptcyEvent, FeeCollection, Mint};
use crate::config::{BankConfig, BankConfigOpt, GroupConfig};
use crate::error::MarginfiError;
use crate::group::MarginfiGroup;
use crate::oracle::{resolve_oracle, resolved_oracle, OracleResolver, PriceReading};
use crate::vault::{bank_vaults_spec, derive_bank_vaults, derive_spec, find_seeded_bank_pda, seeded_bank_seeds, BankVaults, VaultBumps};

verus! {

/// The protocol-wide record of fees: the running total of what fee collections have moved
/// into fee vaults.
#[derive(Clone, Copy, Debug, PartialEq, Eq, Structural)]
pub struct FeeState {
    pub total_fees_collected: u128,
}

/// The state that operations run against.
#[derive(Debug)]
pub struct Ledger {
    /// The program under which banks and vaults are derived.
    pub program_id: Address,
    /// The principal on whose behalf the group handles act.
    pub payer: Address,
    /// The present time, in seconds.
    pub unix_timestamp: i64,
    pub oracle_resolver: OracleResolver,
    /// The fee record, where the protocol keeps one.
    pub fee_state: Option<FeeState>,
    pub groups: Vec<MarginfiGroup>,
    pub banks: Vec<Bank>,
}

/// `i` is the first place in `groups` that holds a group under `key`.
pub open spec fn is_first_group(groups: Seq<MarginfiGroup>, key: Address, i: int) -> bool {
    &&& 0 <= i < groups.len()
    &&& groups[i].key == key
    &&& forall|j: int| 0 <= j < i ==> (#[trigger] groups[j]).key != key
}

/// `i` is the first place in `banks` that holds a bank under `key`.
pub open spec fn is_first_bank(banks: Seq<Bank>, key: Address, i: int) -> bool {
    &&& 0 <= i < banks.len()
    &&& banks[i].key == key
    &&& forall|j: int| 0 <= j < i ==> (#[trigger] banks[j]).key != key
}

/// The first place of a key among groups is unique.
pub proof fn lemma_first_group_unique(groups: Seq<MarginfiGroup>, key: Address, i: int, j: int)
    requires
        is_first_group(groups, key, i),
        is_first_group(groups, key, j),
    ensures
        i == j,
{
    if i < j {
        assert(groups[i].key != key);
    } else if j < i {
        assert(groups[j].key != key);
    }
}

/// The first place of a key among banks is unique.
pub proof fn lemma_first_bank_unique(banks: Seq<Bank>, key: Address, i: int, j: int)
    requires
        is_first_bank(banks, key, i),
        is_first_bank(banks, key, j),
    ensures
        i == j,
{
    if i < j {
        assert(banks[i].key != key);
    } else if j < i {
        assert(banks[j].key != key);
    }
}

/// Among groups that hold a key up to place `n`, one holds it first.
pub proof fn lemma_first_group_exists(groups: Seq<MarginfiGroup>, key: Address, n: int)
    requires
        0 <= n < groups.len(),
        groups[n].key == key,
    ensures
        exists|i: int| is_first_group(groups, key, i),
    decreases n,
{
    if exists|j: int| 0 <= j < n && (#[trigger] groups[j]).key == key {
        let j = choose|j: int| 0 <= j < n && (#[trigger] groups[j]).key == key;
        lemma_first_group_exists(groups, key, j);
    } else {
        assert(is_first_group(groups, key, n));
    }
}

/// Among banks that hold a key up to place `n`, one holds it first.
pub proof fn lemma_first_bank_exists(banks: Seq<Bank>, key: Address, n: int)
    requires
        0 <= n < banks.len(),
        banks[n].key == key,
    ensures
        exists|i: int| is_first_bank(banks, key, i),
    decreases n,
{
    if exists|j: int| 0 <= j < n && (#[trigger] banks[j]).key == key {
        let j = choose|j: int| 0 <= j < n && (#[trigger] banks[j]).key == key;
        lemma_first_bank_exists(banks, key, j);
    } else {
        assert(is_first_bank(banks, key, n));
    }
}

impl Ledger {
    /// A group is recorded under the key.
    pub open spec fn has_group(&self, key: Address) -> bool {
        exists|i: int| 0 <= i < self.groups@.len() && (#[trigger] self.groups@[i]).key == key
    }

    /// The first place of the group under the key.
    pub open spec fn group_index(&self, key: Address) -> int {
        choose|i: int| is_first_group(self.groups@, key, i)
    }

    /// The group under the key.
    pub open spec fn group(&self, key: Address) -> MarginfiGroup {
        self.groups@[self.group_index(key)]
    }

    /// A bank is recorded under the key.
    pub open spec fn has_bank(&self, key: Address) -> bool {
        exists|i: int| 0 <= i < self.banks@.len() && (#[trigger] self.banks@[i]).key == key
    }

    /// The first place of the bank under the key.
    pub open spec fn bank_index(&self, key: Address) -> int {
        choose|i: int| is_first_bank(self.banks@, key, i)
    }

    /// The bank under the key.
    pub open spec fn bank(&self, key: Address) -> Bank {
        self.banks@[self.bank_index(key)]
    }

    /// No two groups share a key, and no two banks.
    pub open spec fn keys_unique(&self) -> bool {
        &&& forall|i: int, j: int|
            0 <= i < j < self.groups@.len() ==> (#[trigger] self.groups@[i]).key != (#[trigger] self.groups@[j]).key
        &&& forall|i: int, j: int|
            0 <= i < j < self.banks@.len() ==> (#[trigger] self.banks@[i]).key != (#[trigger] self.banks@[j]).key
    }

    /// Every bank holds the vaults that its group and key derive under the ledger's program.
    pub open spec fn vaults_derived(&self) -> bool {
        forall|i: int|
            0 <= i < self.banks@.len() ==> bank_vaults_spec(
                (#[trigger] self.banks@[i]).group,
                self.banks@[i].key,
                self.program_id,
            ) == Ok::<BankVaults, MarginfiError>(self.banks@[i].vaults)
    }

    /// Keys are unique and vaults are the derived ones.
    pub open spec fn well_formed(&self) -> bool {
        self.keys_unique() && self.vaults_derived()
    }

    /// The banks that belong to a group.
    pub open spec fn group_banks(&self, group: Address) -> Set<Address> {
        Set::new(|bank: Address| self.has_bank(bank) && self.bank(bank).group == group)
    }

    /// `after` differs from this ledger in its banks at most.
    pub open spec fn same_but_banks(&self, after: Ledger) -> bool {
        &&& after.program_id == self.program_id
        &&& after.payer == self.payer
        &&& after.unix_timestamp == self.unix_timestamp
        &&& after.oracle_resolver == self.oracle_resolver
        &&& after.fee_state == self.fee_state
        &&& after.groups@ == self.groups@
    }

    /// `after` differs from this ledger in its groups at most.
    pub open spec fn same_but_groups(&self, after: Ledger) -> bool {
        &&& after.program_id == self.program_id
        &&& after.payer == self.payer
        &&& after.unix_timestamp == self.unix_timestamp
        &&& after.oracle_resolver == self.oracle_resolver
        &&& after.fee_state == self.fee_state
        &&& after.banks@ == self.banks@
    }

    /// A ledger without groups or banks.
    pub fn new(program_id: Address, payer: Address, unix_timestamp: i64, oracle_resolver: OracleResolver) -> (l: Ledger)
        ensures
            l.program_id == program_id,
            l.payer == payer,
            l.unix_timestamp == unix_timestamp,
            l.oracle_resolver == oracle_resolver,
            l.fee_state is None,
            l.groups@ == Seq::<MarginfiGroup>::empty(),
            l.banks@ == Seq::<Bank>::empty(),
    {
        Ledger { program_id, payer, unix_timestamp, oracle_resolver, fee_state: None, groups: Vec::new(), banks: Vec::new() }
    }

    /// The place of the group under a key, if there is one.
    pub fn find_group(&self, key: &Address) -> (r: Option<usize>)
        ensures
            match r {
                Some(i) => self.has_group(*key) && self.group_index(*key) == i && i < self.groups@.len(),
                None => !self.has_group(*key),
            },
    {
        let mut i: usize = 0;
        while i < self.groups.len()
            invariant
                i <= self.groups@.len(),
                forall|j: int| 0 <= j < i ==> (#[trigger] self.groups@[j]).key != *key,
            decreases self.groups@.len() - i,
        {
            if self.groups[i].key == *key {
                proof {
                    assert(is_first_group(self.groups@, *key, i as int));
                    lemma_first_group_unique(self.groups@, *key, i as int, self.group_index(*key));
                }
                return Some(i);
            }
            i = i + 1;
        }
        None
    }

    /// The place of the bank under a key, if there is one.
    pub fn find_bank(&self, key: &Address) -> (r: Option<usize>)
        ensures
            match r {
                Some(i) => self.has_bank(*key) && self.bank_index(*key) == i && i < self.banks@.len(),
                None => !self.has_bank(*key),
            },
    {
        let mut i: usize = 0;
        while i < self.banks.len()
            invariant
                i <= self.banks@.len(),
                forall|j: int| 0 <= j < i ==> (#[trigger] self.banks@[j]).key != *key,
            decreases self.banks@.len() - i,
        {
            if self.banks[i].key == *key {
                proof {
                    assert(is_first_bank(self.banks@, *key, i as int));
                    lemma_first_bank_unique(self.banks@, *key, i as int, self.bank_index(*key));
                }
                return Some(i);
            }
            i = i + 1;
        }
        None
    }

    /// The place of a group in which `signer` holds the administrator's authority:
    /// `GroupNotFound` without the group, `Unauthorized` for any other principal.
    pub open spec fn group_authority(&self, group: Address, signer: Address) -> Result<int, MarginfiError> {
        if !self.has_group(group) {
            Err(MarginfiError::GroupNotFound)
        } else if self.group(group).admin != signer {
            Err(MarginfiError::Unauthorized)
        } else {
            Ok(self.group_index(group))
        }
    }

    /// The place of a bank of a group: `BankNotFound` where the key names no bank, or a bank
    /// of another group.
    pub open spec fn bank_under(&self, group: Address, bank: Address) -> Result<int, MarginfiError> {
        if self.has_bank(bank) && self.bank(bank).group == group {
            Ok(self.bank_index(bank))
        } else {
            Err(MarginfiError::BankNotFound)
        }
    }

    /// Checks that `signer` is the administrator of the group.
    pub fn check_group_authority(&self, group: &Address, signer: &Address) -> (r: Result<usize, MarginfiError>)
        ensures
            match r {
                Ok(i) => self.group_authority(*group, *signer) == Ok::<int, MarginfiError>(i as int) && i < self.groups@.len(),
                Err(e) => self.group_authority(*group, *signer) == Err::<int, MarginfiError>(e),
            },
    {
        match self.find_group(group) {
            None => Err(MarginfiError::GroupNotFound),
            Some(i) => if self.groups[i].admin == *signer {
                Ok(i)
            } else {
                Err(MarginfiError::Unauthorized)
            },
        }
    }

    /// Looks a bank of a group up.
    pub fn find_bank_under(&self, group: &Address, bank: &Address) -> (r: Result<usize, MarginfiError>)
        ensures
            match r {
                Ok(i) => self.bank_under(*group, *bank) == Ok::<int, MarginfiError>(i as int) && i < self.banks@.len(),
                Err(e) => self.bank_under(*group, *bank) == Err::<int, MarginfiError>(e),
            },
    {
        match self.find_bank(bank) {
            None => Err(MarginfiError::BankNotFound),
            Some(i) => if self.banks[i].group == *group {
                Ok(i)
            } else {
                Err(MarginfiError::BankNotFound)
            },
        }
    }

    /// Records a new group under `admin`. Fails with `GroupAlreadyExists` where the key is
    /// taken.
    pub fn initialize_group(&mut self, group: Address, admin: Address) -> (r: Result<(), MarginfiError>)
        ensures
            old(self).has_group(group) ==> r == Err::<(), MarginfiError>(MarginfiError::GroupAlreadyExists) && *final(self) == *old(self),
            !old(self).has_group(group) ==> r is Ok && old(self).same_but_groups(*final(self))
                && final(self).groups@ == old(self).groups@.push(MarginfiGroup::created(group, admin)),
    {
        match self.find_group(&group) {
            Some(_) => Err(MarginfiError::GroupAlreadyExists),
            None => {
                self.groups.push(MarginfiGroup::create(group, admin));
                Ok(())
            },
        }
    }

    /// Installs a group configuration as a whole, on the administrator's authority.
    pub fn configure_group(&mut self, group: Address, signer: Address, config: &GroupConfig) -> (r: Result<(), MarginfiError>)
        ensures
            match old(self).group_authority(group, signer) {
                Ok(i) => r is Ok && old(self).same_but_groups(*final(self))
                    && final(self).groups@ == old(self).groups@.update(i, old(self).group(group).configured(*config)),
                Err(e) => r == Err::<(), MarginfiError>(e) && *final(self) == *old(self),
            },
    {
        match self.check_group_authority(&group, &signer) {
            Err(e) => Err(e),
            Ok(i) => {
                let updated: MarginfiGroup = self.groups[i].configure(config);
                self.groups.set(i, updated);
                Ok(())
            },
        }
    }

    /// The bank that an administrator's request to add one yields.
    ///
    /// The request is refused, in this order: without the group or its administrator's
    /// authority; with `BankAlreadyExists` where the key is taken; with `UnsupportedMint`;
    /// with `InvalidConfig`; with `OracleResolutionFailed` where the configured reference
    /// does not resolve to the account supplied; with `DerivationExhausted` where a vault
    /// cannot be derived. Otherwise the bank is opened with empty books at the present time,
    /// with the vaults that its group and key derive.
    pub open spec fn bank_to_add(&self, group: Address, signer: Address, mint: Mint, bank: Address, config: BankConfig, oracle_account: Address) -> Result<Bank, MarginfiError> {
        match self.group_authority(group, signer) {
            Err(e) => Err(e),
            Ok(_) => if self.has_bank(bank) {
                Err(MarginfiError::BankAlreadyExists)
            } else if !mint.is_supported() {
                Err(MarginfiError::UnsupportedMint)
            } else if !config.is_valid() {
                Err(MarginfiError::InvalidConfig)
            } else {
                match resolved_oracle(config.oracle, self.oracle_resolver) {
                    Err(_) => Err(MarginfiError::OracleResolutionFailed),
                    Ok(account) => if account != oracle_account {
                        Err(MarginfiError::OracleResolutionFailed)
                    } else {
                        match bank_vaults_spec(group, bank, self.program_id) {
                            Err(e) => Err(e),
                            Ok(vaults) => Ok(Bank::opened(bank, group, mint, config, account, vaults, self.unix_timestamp)),
                        }
                    },
                }
            },
        }
    }

    /// The bank that a request yields which identifies the bank by its group, its mint and a
    /// number: `DerivationExhausted` where these derive no key, else what adding a bank
    /// under the derived key yields.
    pub open spec fn seeded_bank_to_add(&self, group: Address, signer: Address, mint: Mint, config: BankConfig, oracle_account: Address, bank_seed: u64) -> Result<Bank, MarginfiError> {
        match derive_spec(seeded_bank_seeds(group, mint.key, bank_seed), self.program_id) {
            Err(e) => Err(e),
            Ok((bank, _)) => self.bank_to_add(group, signer, mint, bank, config, oracle_account),
        }
    }

    /// The same where the request also states the bumps of the vaults: bumps other than the
    /// derived ones are refused with `DerivationExhausted`.
    pub open spec fn seeded_bank_to_add_with_bumps(&self, group: Address, signer: Address, mint: Mint, config: BankConfig, oracle_account: Address, bank_seed: u64, bumps: VaultBumps) -> Result<Bank, MarginfiError> {
        match self.seeded_bank_to_add(group, signer, mint, config, oracle_account, bank_seed) {
            Err(e) => Err(e),
            Ok(bank) => if bank.vaults.bumps_spec() == bumps {
                Ok(bank)
            } else {
                Err(MarginfiError::DerivationExhausted)
            },
        }
    }

    /// `after` is this ledger with `bank` recorded behind its banks.
    pub open spec fn with_bank_added(&self, bank: Bank, after: Ledger) -> bool {
        self.same_but_banks(after) && after.banks@ == self.banks@.push(bank)
    }

    /// `after` is this ledger with the bank at place `i` replaced by `bank`.
    pub open spec fn with_bank_replaced(&self, i: int, bank: Bank, after: Ledger) -> bool {
        self.same_but_banks(after) && after.banks@ == self.banks@.update(i, bank)
    }

    fn prepare_bank(&self, group: &Address, signer: &Address, mint: &Mint, bank: &Address, config: &BankConfig, oracle_account: &Address) -> (r: Result<Bank, MarginfiError>)
        ensures
            r == self.bank_to_add(*group, *signer, *mint, *bank, *config, *oracle_account),
    {
        match self.check_group_authority(group, signer) {
            Err(e) => {
                return Err(e);
            },
            Ok(_) => {},
        }
        if self.find_bank(bank).is_some() {
            return Err(MarginfiError::BankAlreadyExists);
        }
        if !mint.check_supported() {
            return Err(MarginfiError::UnsupportedMint);
        }
        match config.validate() {
            Err(e) => {
                return Err(e);
            },
            Ok(()) => {},
        }
        let account: Address = match resolve_oracle(&config.oracle, &self.oracle_resolver) {
            Err(_) => {
                return Err(MarginfiError::OracleResolutionFailed);
            },
            Ok(account) => account,
        };
        if account != *oracle_account {
            return Err(MarginfiError::OracleResolutionFailed);
        }
        match derive_bank_vaults(group, bank, &self.program_id) {
            Err(e) => Err(e),
            Ok(vaults) => Ok(Bank::open(*bank, *group, *mint, *config, account, vaults, self.unix_timestamp)),
        }
    }

    /// Adds a bank to a group under a key that the caller supplies.
    pub fn add_bank(&mut self, group: Address, signer: Address, mint: &Mint, bank: Address, config: &BankConfig, oracle_account: Address) -> (r: Result<(), MarginfiError>)
        ensures
            match old(self).bank_to_add(group, signer, *mint, bank, *config, oracle_account) {
                Ok(added) => r is Ok && old(self).with_bank_added(added, *final(self)),
                Err(e) => r == Err::<(), MarginfiError>(e) && *final(self) == *old(self),
            },
    {
        match self.prepare_bank(&group, &signer, mint, &bank, config, &oracle_account) {
            Err(e) => Err(e),
            Ok(added) => {
                self.banks.push(added);
                Ok(())
            },
        }
    }

    /// Adds a bank to a group under the key that the group, the mint and `bank_seed` derive,
    /// and returns the key.
    pub fn add_bank_with_seed(&mut self, group: Address, signer: Address, mint: &Mint, config: &BankConfig, oracle_account: Address, bank_seed: u64) -> (r: Result<Address, MarginfiError>)
        ensures
            match old(self).seeded_bank_to_add(group, signer, *mint, *config, oracle_account, bank_seed) {
                Ok(added) => r == Ok::<Address, MarginfiError>(added.key) && old(self).with_bank_added(added, *final(self)),
                Err(e) => r == Err::<Address, MarginfiError>(e) && *final(self) == *old(self),
            },
    {
        let bank: Address = match find_seeded_bank_pda(&group, &mint.key, bank_seed, &self.program_id) {
            Err(e) => {
                return Err(e);
            },
            Ok((bank, _)) => bank,
        };
        match self.prepare_bank(&group, &signer, mint, &bank, config, &oracle_account) {
            Err(e) => Err(e),
            Ok(added) => {
                self.banks.push(added);
                Ok(bank)
            },
        }
    }

    /// Adds a seeded bank whose vault bumps the caller states; they must be the derived ones.
    pub fn add_bank_with_seed_and_bump(&mut self, group: Address, signer: Address, mint: &Mint, config: &BankConfig, oracle_account: Address, bank_seed: u64, bumps: &VaultBumps) -> (r: Result<Address, MarginfiError>)
        ensures
            match old(self).seeded_bank_to_add_with_bumps(group, signer, *mint, *config, oracle_account, bank_seed, *bumps) {
                Ok(added) => r == Ok::<Address, MarginfiError>(added.key) && old(self).with_bank_added(added, *final(self)),
                Err(e) => r == Err::<Address, MarginfiError>(e) && *final(self) == *old(self),
            },
    {
        let bank: Address = match find_seeded_bank_pda(&group, &mint.key, bank_seed, &self.program_id) {
            Err(e) => {
                return Err(e);
            },
            Ok((bank, _)) => bank,
        };
        match self.prepare_bank(&group, &signer, mint, &bank, config, &oracle_account) {
            Err(e) => Err(e),
            Ok(added) => {
                if added.vaults.bumps() == *bumps {
                    self.banks.push(added);
                    Ok(bank)
                } else {
                    Err(MarginfiError::DerivationExhausted)
                }
            },
        }
    }

    /// The bank after an administrator's partial update of its configuration: refused
    /// without the group or the administrator's authority, with `BankNotFound` without the
    /// bank, and as the bank itself refuses it.
    pub open spec fn bank_configured(&self, group: Address, signer: Address, bank: Address, update: BankConfigOpt, oracle_accounts: Seq<Address>) -> Result<Bank, MarginfiError> {
        match self.group_authority(group, signer) {
            Err(e) => Err(e),
            Ok(_) => match self.bank_under(group, bank) {
                Err(e) => Err(e),
                Ok(_) => self.bank(bank).configured(update, oracle_accounts, self.oracle_resolver),
            },
        }
    }

    /// Updates a bank's configuration in part, on the administrator's authority.
    pub fn configure_bank(&mut self, group: Address, signer: Address, bank: Address, update: &BankConfigOpt, oracle_accounts: &Vec<Address>) -> (r: Result<(), MarginfiError>)
        ensures
            match old(self).bank_configured(group, signer, bank, *update, oracle_accounts@) {
                Ok(after) => r is Ok && old(self).with_bank_replaced(old(self).bank_index(bank), after, *final(self)),
                Err(e) => r == Err::<(), MarginfiError>(e) && *final(self) == *old(self),
            },
    {
        match self.check_group_authority(&group, &signer) {
            Err(e) => {
                return Err(e);
            },
            Ok(_) => {},
        }
        let i: usize = match self.find_bank_under(&group, &bank) {
            Err(e) => {
                return Err(e);
            },
            Ok(i) => i,
        };
        match self.banks[i].configure(update, oracle_accounts, &self.oracle_resolver) {
            Err(e) => Err(e),
            Ok(after) => {
                self.banks.set(i, after);
                Ok(())
            },
        }
    }

    /// The bank after anyone's request to accrue its interest up to the present time.
    pub open spec fn bank_accrued(&self, group: Address, bank: Address) -> Result<Bank, MarginfiError> {
        match self.bank_under(group, bank) {
            Err(e) => Err(e),
            Ok(_) => self.bank(bank).accrued(self.unix_timestamp),
        }
    }

    /// Accrues a bank's interest up to the present time. Anyone may ask for it.
    pub fn accrue_interest(&mut self, group: Address, bank: Address) -> (r: Result<(), MarginfiError>)
        ensures
            match old(self).bank_accrued(group, bank) {
                Ok(after) => r is Ok && old(self).with_bank_replaced(old(self).bank_index(bank), after, *final(self)),
                Err(e) => r == Err::<(), MarginfiError>(e) && *final(self) == *old(self),
            },
    {
        let i: usize = match self.find_bank_under(&group, &bank) {
            Err(e) => {
                return Err(e);
            },
            Ok(i) => i,
        };
        match self.banks[i].accrue_interest(self.unix_timestamp) {
            Err(e) => Err(e),
            Ok(after) => {
                self.banks.set(i, after);
                Ok(())
            },
        }
    }

    /// The fee record after a collection has moved `fee_transfer` into a fee vault: the
    /// running total grows by it where a record is kept; `MathError` where the total leaves
    /// its integer.
    pub open spec fn fee_state_after(&self, fee_transfer: u64) -> Result<Option<FeeState>, MarginfiError> {
        match self.fee_state {
            None => Ok(None),
            Some(state) => if state.total_fees_collected + fee_transfer > u128::MAX {
                Err(MarginfiError::MathError)
            } else {
                Ok(Some(FeeState { total_fees_collected: (state.total_fees_collected + fee_transfer) as u128 }))
            },
        }
    }

    /// The outcome of anyone's request to collect a bank's fees: the bank after it, what
    /// was moved, and the fee record after it.
    pub open spec fn bank_fees_collected(&self, group: Address, bank: Address, mint_account: Option<Address>) -> Result<(Bank, FeeCollection, Option<FeeState>), MarginfiError> {
        match self.bank_under(group, bank) {
            Err(e) => Err(e),
            Ok(_) => match self.bank(bank).fees_collected(mint_account) {
                Err(e) => Err(e),
                Ok((after, moved)) => match self.fee_state_after(moved.fee_transfer) {
                    Err(e) => Err(e),
                    Ok(state) => Ok((after, moved, state)),
                },
            },
        }
    }

    /// Collects a bank's outstanding fees into their vaults. Anyone may ask for it.
    pub fn collect_fees(&mut self, group: Address, bank: Address, mint_account: Option<Address>) -> (r: Result<FeeCollection, MarginfiError>)
        ensures
            match old(self).bank_fees_collected(group, bank, mint_account) {
                Ok((after, moved, state)) => r == Ok::<FeeCollection, MarginfiError>(moved)
                    && final(self).banks@ == old(self).banks@.update(old(self).bank_index(bank), after)
                    && final(self).fee_state == state
                    && final(self).groups@ == old(self).groups@
                    && final(self).program_id == old(self).program_id
                    && final(self).payer == old(self).payer
                    && final(self).unix_timestamp == old(self).unix_timestamp
                    && final(self).oracle_resolver == old(self).oracle_resolver,
                Err(e) => r == Err::<FeeCollection, MarginfiError>(e) && *final(self) == *old(self),
            },
    {
        let i: usize = match self.find_bank_under(&group, &bank) {
            Err(e) => {
                return Err(e);
            },
            Ok(i) => i,
        };
        let (after, moved) = match self.banks[i].collect_fees(mint_account) {
            Err(e) => {
                return Err(e);
            },
            Ok(outcome) => outcome,
        };
        let state: Option<FeeState> = match self.fee_state {
            None => None,
            Some(state) => match state.total_fees_collected.checked_add(moved.fee_transfer as u128) {
                None => {
                    return Err(MarginfiError::MathError);
                },
                Some(total) => Some(FeeState { total_fees_collected: total }),
            },
        };
        self.banks.set(i, after);
        self.fee_state = state;
        Ok(moved)
    }

    /// The outcome of an operator's request to resolve the bankruptcy of an account in a
    /// bank, judged at a price reading and the present time: refused without the group or
    /// the administrator's authority, with `BankNotFound` without the bank, and as the bank
    /// itself refuses it.
    pub open spec fn bank_bankruptcy_resolved(&self, group: Address, signer: Address, bank: Address, account: AccountSnapshot, reading: PriceReading) -> Result<(Bank, BankruptcyEvent), MarginfiError> {
        match self.group_authority(group, signer) {
            Err(e) => Err(e),
            Ok(_) => match self.bank_under(group, bank) {
                Err(e) => Err(e),
                Ok(_) => self.bank(bank).bankruptcy_resolved(account, reading, self.unix_timestamp),
            },
        }
    }

    /// Resolves the bankruptcy of an account in a bank. On success the account owes nothing
    /// and holds no collateral any more; on failure the account and the ledger are as before.
    pub fn handle_bankruptcy(&mut self, group: Address, signer: Address, bank: Address, account: &mut AccountSnapshot, reading: &PriceReading) -> (r: Result<BankruptcyEvent, MarginfiError>)
        ensures
            match old(self).bank_bankruptcy_resolved(group, signer, bank, *old(account), *reading) {
                Ok((after, event)) => r == Ok::<BankruptcyEvent, MarginfiError>(event)
                    && old(self).with_bank_replaced(old(self).bank_index(bank), after, *final(self))
                    && *final(account) == (AccountSnapshot { account: old(account).account, collateral: 0, liability: 0 }),
                Err(e) => r == Err::<BankruptcyEvent, MarginfiError>(e) && *final(self) == *old(self) && *final(account) == *old(account),
            },
    {
        match self.check_group_authority(&group, &signer) {
            Err(e) => {
                return Err(e);
            },
            Ok(_) => {},
        }
        let i: usize = match self.find_bank_under(&group, &bank) {
            Err(e) => {
                return Err(e);
            },
            Ok(i) => i,
        };
        match self.banks[i].resolve_bankruptcy(account, reading, self.unix_timestamp) {
            Err(e) => Err(e),
            Ok((after, event)) => {
                self.banks.set(i, after);
                account.collateral = 0;
                account.liability = 0;
                Ok(event)
            },
        }
    }
}

} // verus!
