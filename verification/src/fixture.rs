//! Handles on a group and its banks. A handle holds keys only; every operation runs against
//! the ledger it is given, on behalf of the ledger's payer.
use vstd::prelude::*;
use crate::address::Address;
use crate::bank::{AccountSnapshot, Bank, Mint};
use crate::config::{BankConfig, BankConfigOpt, GroupConfig, OracleRef};
use crate::error::MarginfiError;
use crate::group::{MarginfiGroup, GROUP_RECORD_LEN};
use crate::ledger::Ledger;
use crate::oracle::{resolve_oracle, resolved_oracle, OracleResolver, PriceReading};
use crate::pda::{is_token_2022_program, new_keypair_address, token_2022_program_bytes};
use crate::vault::{derive_bank_vaults, derive_spec, find_bank_vault_authority_pda, find_bank_vault_pda, find_seeded_bank_pda, vault_authority_seeds, vault_seeds, BankVaultType, VaultBumps};

verus! {

/// An account that an operation is given, and in what role.
#[derive(Clone, Copy, Debug)]
pub struct AccountMeta {
    pub pubkey: Address,
    pub is_signer: bool,
    pub is_writable: bool,
}

impl AccountMeta {
    /// An account that the operation may change.
    pub fn new(pubkey: Address, is_signer: bool) -> (m: AccountMeta)
        ensures
            m == (AccountMeta { pubkey, is_signer, is_writable: true }),
    {
        AccountMeta { pubkey, is_signer, is_writable: true }
    }

    /// An account that the operation only reads.
    pub fn new_readonly(pubkey: Address, is_signer: bool) -> (m: AccountMeta)
        ensures
            m == (AccountMeta { pubkey, is_signer, is_writable: false }),
    {
        AccountMeta { pubkey, is_signer, is_writable: false }
    }
}

/// A request to update a bank's configuration in part: the accounts it is given and the
/// update itself.
#[derive(Debug)]
pub struct ConfigureBankInstruction {
    pub program_id: Address,
    pub accounts: Vec<AccountMeta>,
    pub bank_config_opt: BankConfigOpt,
}

/// The account that is offered as the oracle of a reference: the one it resolves to, and the
/// reference's own key where it resolves to none.
pub open spec fn offered_oracle(oracle: OracleRef, resolver: OracleResolver) -> Address {
    match resolved_oracle(oracle, resolver) {
        Ok(account) => account,
        Err(_) => match oracle {
            OracleRef::Direct(key) => key,
            OracleRef::Feed(key) => key,
        },
    }
}

/// The oracle accounts that go with a partial update: the resolved account of the oracle it
/// names, and none where it names no oracle or the oracle resolves to no account.
pub open spec fn update_oracle_accounts(update: BankConfigOpt, resolver: OracleResolver) -> Seq<Address> {
    match update.oracle {
        None => Seq::<Address>::empty(),
        Some(oracle) => match resolved_oracle(oracle, resolver) {
            Ok(account) => seq![account],
            Err(_) => Seq::<Address>::empty(),
        },
    }
}

/// The accounts of a request to configure a bank: the group, its administrator as signer,
/// the bank to be changed, then the oracle accounts, read-only.
pub open spec fn configure_bank_accounts(group: Address, admin: Address, bank: Address, oracle_accounts: Seq<Address>) -> Seq<AccountMeta> {
    seq![
        AccountMeta { pubkey: group, is_signer: false, is_writable: false },
        AccountMeta { pubkey: admin, is_signer: true, is_writable: false },
        AccountMeta { pubkey: bank, is_signer: false, is_writable: true },
    ] + oracle_accounts.map_values(|account: Address| AccountMeta { pubkey: account, is_signer: false, is_writable: false })
}

/// The mint account that is offered with a transfer of a bank's asset: the mint itself where
/// its token program is the extension-bearing one, none otherwise.
pub open spec fn offered_mint_account(mint: Mint) -> Option<Address> {
    if mint.token_program@ == token_2022_program_bytes() {
        Some(mint.key)
    } else {
        None
    }
}

fn offer_oracle(oracle: &OracleRef, resolver: &OracleResolver) -> (a: Address)
    ensures
        a == offered_oracle(*oracle, *resolver),
{
    match resolve_oracle(oracle, resolver) {
        Ok(account) => account,
        Err(_) => match oracle {
            OracleRef::Direct(key) => *key,
            OracleRef::Feed(key) => *key,
        },
    }
}

fn offer_mint_account(mint: &Mint) -> (a: Option<Address>)
    ensures
        a == offered_mint_account(*mint),
{
    if is_token_2022_program(&mint.token_program) {
        Some(mint.key)
    } else {
        None
    }
}

/// The keys of the accounts from place `from` on.
fn keys_from(accounts: &Vec<AccountMeta>, from: usize) -> (keys: Vec<Address>)
    requires
        from <= accounts@.len(),
    ensures
        keys@ == accounts@.skip(from as int).map_values(|m: AccountMeta| m.pubkey),
{
    let mut keys: Vec<Address> = Vec::new();
    let mut i: usize = from;
    while i < accounts.len()
        invariant
            from <= i <= accounts@.len(),
            keys@ == accounts@.subrange(from as int, i as int).map_values(|m: AccountMeta| m.pubkey),
        decreases accounts@.len() - i,
    {
        keys.push(accounts[i].pubkey);
        i = i + 1;
        assert(keys@ =~= accounts@.subrange(from as int, i as int).map_values(|m: AccountMeta| m.pubkey));
    }
    assert(accounts@.subrange(from as int, i as int) =~= accounts@.skip(from as int));
    keys
}

/// A handle on a bank: its key, its group, its mint, and the program it is derived under.
#[derive(Clone, Copy, Debug)]
pub struct BankFixture {
    pub key: Address,
    pub group: Address,
    pub mint: Mint,
    pub program_id: Address,
}

impl BankFixture {
    /// A handle on the bank under `key`.
    pub fn new(program_id: Address, group: Address, key: Address, mint: &Mint) -> (b: BankFixture)
        ensures
            b == (BankFixture { key, group, mint: *mint, program_id }),
    {
        BankFixture { key, group, mint: *mint, program_id }
    }

    /// The address and bump of the bank's vault for a purpose.
    pub fn get_vault(&self, vault_type: BankVaultType) -> (r: Result<(Address, u8), MarginfiError>)
        ensures
            r == derive_spec(vault_seeds(self.group, self.key, vault_type), self.program_id),
    {
        find_bank_vault_pda(&self.group, &self.key, vault_type, &self.program_id)
    }

    /// The address and bump of the authority over the bank's vault for a purpose.
    pub fn get_vault_authority(&self, vault_type: BankVaultType) -> (r: Result<(Address, u8), MarginfiError>)
        ensures
            r == derive_spec(vault_authority_seeds(self.group, self.key, vault_type), self.program_id),
    {
        find_bank_vault_authority_pda(&self.group, &self.key, vault_type, &self.program_id)
    }

    /// The token program of the bank's mint.
    pub fn get_token_program(&self) -> (p: Address)
        ensures
            p == self.mint.token_program,
    {
        self.mint.token_program
    }
}

/// A handle on a group.
#[derive(Clone, Copy, Debug)]
pub struct MarginfiGroupFixture {
    pub key: Address,
}

impl MarginfiGroupFixture {
    /// Creates a group under a fresh key, with the ledger's payer as its administrator, and
    /// installs `config` in it. The two steps take effect together or not at all: where the
    /// key is taken the ledger stays as it was. In a ledger without groups no key is taken.
    pub fn new(ctx: &mut Ledger, config: GroupConfig) -> (r: Result<MarginfiGroupFixture, MarginfiError>)
        ensures
            old(ctx).groups@.len() == 0 ==> r is Ok,
            match r {
                Ok(fixture) => !old(ctx).has_group(fixture.key) && old(ctx).same_but_groups(*final(ctx))
                    && final(ctx).groups@ == old(ctx).groups@.push(
                    MarginfiGroup::created(fixture.key, old(ctx).payer).configured(config)),
                Err(e) => e == MarginfiError::GroupAlreadyExists && *final(ctx) == *old(ctx),
            },
    {
        let key: Address = new_keypair_address();
        let payer: Address = ctx.payer;
        match ctx.initialize_group(key, payer) {
            Err(e) => {
                return Err(e);
            },
            Ok(()) => {},
        }
        proof {
            let n = old(ctx).groups@.len() as int;
            assert(ctx.groups@[n].key == key);
            assert(crate::ledger::is_first_group(ctx.groups@, key, n));
            crate::ledger::lemma_first_group_unique(ctx.groups@, key, n, ctx.group_index(key));
        }
        match ctx.configure_group(key, payer, &config) {
            Err(e) => Err(e),
            Ok(()) => {
                assert(ctx.groups@ =~= old(ctx).groups@.push(MarginfiGroup::created(key, payer).configured(config)));
                Ok(MarginfiGroupFixture { key })
            },
        }
    }

    /// Adds a bank to the group under a fresh key, on the payer's authority, offering the
    /// account that the configured oracle resolves to.
    pub fn try_lending_pool_add_bank(&self, ctx: &mut Ledger, bank_asset_mint_fixture: &Mint, bank_config: BankConfig) -> (r: Result<BankFixture, MarginfiError>)
        ensures
            match r {
                Ok(bank) => {
                    &&& bank == (BankFixture { key: bank.key, group: self.key, mint: *bank_asset_mint_fixture, program_id: old(ctx).program_id })
                    &&& old(ctx).bank_to_add(self.key, old(ctx).payer, *bank_asset_mint_fixture, bank.key, bank_config,
                        offered_oracle(bank_config.oracle, old(ctx).oracle_resolver)) matches Ok(added)
                    &&& old(ctx).with_bank_added(added, *final(ctx))
                },
                Err(e) => *final(ctx) == *old(ctx) && exists|key: Address| #[trigger] old(ctx).bank_to_add(self.key, old(ctx).payer,
                        *bank_asset_mint_fixture, key, bank_config, offered_oracle(bank_config.oracle, old(ctx).oracle_resolver))
                        == Err::<Bank, MarginfiError>(e),
            },
    {
        let bank_key: Address = new_keypair_address();
        let oracle_key: Address = offer_oracle(&bank_config.oracle, &ctx.oracle_resolver);
        let payer: Address = ctx.payer;
        let program_id: Address = ctx.program_id;
        match ctx.add_bank(self.key, payer, bank_asset_mint_fixture, bank_key, &bank_config, oracle_key) {
            Err(e) => Err(e),
            Ok(()) => Ok(BankFixture::new(program_id, self.key, bank_key, bank_asset_mint_fixture)),
        }
    }

    /// Adds a bank to the group under the key that the group, the mint and `bank_seed`
    /// derive, on the payer's authority.
    pub fn try_lending_pool_add_bank_with_seed(&self, ctx: &mut Ledger, bank_asset_mint_fixture: &Mint, bank_config: BankConfig, bank_seed: u64) -> (r: Result<BankFixture, MarginfiError>)
        ensures
            match old(ctx).seeded_bank_to_add(self.key, old(ctx).payer, *bank_asset_mint_fixture, bank_config,
                offered_oracle(bank_config.oracle, old(ctx).oracle_resolver), bank_seed) {
                Ok(added) => r == Ok::<BankFixture, MarginfiError>(
                    BankFixture { key: added.key, group: self.key, mint: *bank_asset_mint_fixture, program_id: old(ctx).program_id })
                    && old(ctx).with_bank_added(added, *final(ctx)),
                Err(e) => r == Err::<BankFixture, MarginfiError>(e) && *final(ctx) == *old(ctx),
            },
    {
        let oracle_key: Address = offer_oracle(&bank_config.oracle, &ctx.oracle_resolver);
        let payer: Address = ctx.payer;
        let program_id: Address = ctx.program_id;
        match ctx.add_bank_with_seed(self.key, payer, bank_asset_mint_fixture, &bank_config, oracle_key, bank_seed) {
            Err(e) => Err(e),
            Ok(bank_key) => Ok(BankFixture::new(program_id, self.key, bank_key, bank_asset_mint_fixture)),
        }
    }

    /// Adds a seeded bank and states the bumps of its vaults in the request: the bumps that
    /// the bank's key derives.
    pub fn try_lending_pool_add_bank_with_seed_and_bump(&self, ctx: &mut Ledger, bank_asset_mint_fixture: &Mint, bank_config: BankConfig, bank_seed: u64) -> (r: Result<BankFixture, MarginfiError>)
        ensures
            match old(ctx).seeded_bank_to_add(self.key, old(ctx).payer, *bank_asset_mint_fixture, bank_config,
                offered_oracle(bank_config.oracle, old(ctx).oracle_resolver), bank_seed) {
                Ok(added) => r == Ok::<BankFixture, MarginfiError>(
                    BankFixture { key: added.key, group: self.key, mint: *bank_asset_mint_fixture, program_id: old(ctx).program_id })
                    && old(ctx).with_bank_added(added, *final(ctx)),
                Err(e) => r == Err::<BankFixture, MarginfiError>(e) && *final(ctx) == *old(ctx),
            },
    {
        let oracle_key: Address = offer_oracle(&bank_config.oracle, &ctx.oracle_resolver);
        let payer: Address = ctx.payer;
        let program_id: Address = ctx.program_id;
        let none: VaultBumps = VaultBumps {
            liquidity_vault_bump: 0,
            liquidity_vault_auth_bump: 0,
            insurance_vault_bump: 0,
            insurance_vault_auth_bump: 0,
            fee_vault_bump: 0,
            fee_vault_auth_bump: 0,
        };
        let bumps: VaultBumps = match find_seeded_bank_pda(&self.key, &bank_asset_mint_fixture.key, bank_seed, &program_id) {
            Err(_) => none,
            Ok((pda, _)) => match derive_bank_vaults(&self.key, &pda, &program_id) {
                Err(_) => none,
                Ok(vaults) => vaults.bumps(),
            },
        };
        match ctx.add_bank_with_seed_and_bump(self.key, payer, bank_asset_mint_fixture, &bank_config, oracle_key, bank_seed, &bumps) {
            Err(e) => Err(e),
            Ok(bank_key) => Ok(BankFixture::new(program_id, self.key, bank_key, bank_asset_mint_fixture)),
        }
    }

    /// Builds the request to update a bank's configuration in part. A request that names an
    /// oracle carries the account that the oracle resolves to.
    pub fn make_lending_pool_configure_bank_ix(&self, ctx: &Ledger, bank: &BankFixture, bank_config_opt: BankConfigOpt) -> (ix: ConfigureBankInstruction)
        ensures
            ix.program_id == ctx.program_id,
            ix.bank_config_opt == bank_config_opt,
            ix.accounts@ == configure_bank_accounts(self.key, ctx.payer, bank.key,
                update_oracle_accounts(bank_config_opt, ctx.oracle_resolver)),
    {
        let mut accounts: Vec<AccountMeta> = Vec::new();
        accounts.push(AccountMeta::new_readonly(self.key, false));
        accounts.push(AccountMeta::new_readonly(ctx.payer, true));
        accounts.push(AccountMeta::new(bank.key, false));
        match bank_config_opt.oracle {
            None => {},
            Some(oracle) => match resolve_oracle(&oracle, &ctx.oracle_resolver) {
                Err(_) => {},
                Ok(account) => {
                    accounts.push(AccountMeta::new_readonly(account, false));
                },
            },
        }
        assert(accounts@ =~= configure_bank_accounts(self.key, ctx.payer, bank.key,
            update_oracle_accounts(bank_config_opt, ctx.oracle_resolver)));
        ConfigureBankInstruction { program_id: ctx.program_id, accounts, bank_config_opt }
    }

    /// Updates a bank's configuration in part, on the payer's authority.
    pub fn try_lending_pool_configure_bank(&self, ctx: &mut Ledger, bank: &BankFixture, bank_config_opt: BankConfigOpt) -> (r: Result<(), MarginfiError>)
        ensures
            match old(ctx).bank_configured(self.key, old(ctx).payer, bank.key, bank_config_opt,
                update_oracle_accounts(bank_config_opt, old(ctx).oracle_resolver)) {
                Ok(after) => r is Ok && old(ctx).with_bank_replaced(old(ctx).bank_index(bank.key), after, *final(ctx)),
                Err(e) => r == Err::<(), MarginfiError>(e) && *final(ctx) == *old(ctx),
            },
    {
        let ix: ConfigureBankInstruction = self.make_lending_pool_configure_bank_ix(ctx, bank, bank_config_opt);
        let oracle_accounts: Vec<Address> = keys_from(&ix.accounts, 3);
        proof {
            let offered = update_oracle_accounts(bank_config_opt, ctx.oracle_resolver);
            assert(ix.accounts@.skip(3) =~= offered.map_values(|account: Address| AccountMeta { pubkey: account, is_signer: false, is_writable: false }));
            assert(oracle_accounts@ =~= offered);
        }
        let payer: Address = ctx.payer;
        ctx.configure_bank(self.key, payer, bank.key, &ix.bank_config_opt, &oracle_accounts)
    }

    /// Accrues a bank's interest up to the present time.
    pub fn try_accrue_interest(&self, ctx: &mut Ledger, bank: &BankFixture) -> (r: Result<(), MarginfiError>)
        ensures
            match old(ctx).bank_accrued(self.key, bank.key) {
                Ok(after) => r is Ok && old(ctx).with_bank_replaced(old(ctx).bank_index(bank.key), after, *final(ctx)),
                Err(e) => r == Err::<(), MarginfiError>(e) && *final(ctx) == *old(ctx),
            },
    {
        ctx.accrue_interest(self.key, bank.key)
    }

    /// Installs a group configuration as a whole, on the payer's authority.
    pub fn try_update(&self, ctx: &mut Ledger, config: GroupConfig) -> (r: Result<(), MarginfiError>)
        ensures
            match old(ctx).group_authority(self.key, old(ctx).payer) {
                Ok(i) => r is Ok && old(ctx).same_but_groups(*final(ctx))
                    && final(ctx).groups@ == old(ctx).groups@.update(i, old(ctx).group(self.key).configured(config)),
                Err(e) => r == Err::<(), MarginfiError>(e) && *final(ctx) == *old(ctx),
            },
    {
        let payer: Address = ctx.payer;
        ctx.configure_group(self.key, payer, &config)
    }

    /// Collects a bank's outstanding fees, offering the mint account where the bank's token
    /// program asks for it.
    pub fn try_collect_fees(&self, ctx: &mut Ledger, bank: &BankFixture) -> (r: Result<(), MarginfiError>)
        ensures
            match old(ctx).bank_fees_collected(self.key, bank.key, offered_mint_account(bank.mint)) {
                Ok((after, moved, state)) => r is Ok
                    && final(ctx).banks@ == old(ctx).banks@.update(old(ctx).bank_index(bank.key), after)
                    && final(ctx).fee_state == state
                    && final(ctx).groups@ == old(ctx).groups@
                    && final(ctx).program_id == old(ctx).program_id
                    && final(ctx).payer == old(ctx).payer
                    && final(ctx).unix_timestamp == old(ctx).unix_timestamp
                    && final(ctx).oracle_resolver == old(ctx).oracle_resolver,
                Err(e) => r == Err::<(), MarginfiError>(e) && *final(ctx) == *old(ctx),
            },
    {
        let mint_account: Option<Address> = offer_mint_account(&bank.mint);
        match ctx.collect_fees(self.key, bank.key, mint_account) {
            Err(e) => Err(e),
            Ok(_) => Ok(()),
        }
    }

    /// Resolves the bankruptcy of an account in a bank, on the payer's authority.
    pub fn try_handle_bankruptcy(&self, ctx: &mut Ledger, bank: &BankFixture, marginfi_account: &mut AccountSnapshot, reading: &PriceReading) -> (r: Result<(), MarginfiError>)
        ensures
            match old(ctx).bank_bankruptcy_resolved(self.key, old(ctx).payer, bank.key, *old(marginfi_account), *reading) {
                Ok((after, event)) => r is Ok
                    && old(ctx).with_bank_replaced(old(ctx).bank_index(bank.key), after, *final(ctx))
                    && *final(marginfi_account) == (AccountSnapshot { account: old(marginfi_account).account, collateral: 0, liability: 0 }),
                Err(e) => r == Err::<(), MarginfiError>(e) && *final(ctx) == *old(ctx)
                    && *final(marginfi_account) == *old(marginfi_account),
            },
    {
        self.try_handle_bankruptcy_with_nonce(ctx, bank, marginfi_account, reading, 100)
    }

    /// Resolves the bankruptcy of an account in a bank. The nonce is a hint to whoever
    /// schedules the request and has no part in the outcome.
    pub fn try_handle_bankruptcy_with_nonce(&self, ctx: &mut Ledger, bank: &BankFixture, marginfi_account: &mut AccountSnapshot, reading: &PriceReading, nonce: u64) -> (r: Result<(), MarginfiError>)
        ensures
            match old(ctx).bank_bankruptcy_resolved(self.key, old(ctx).payer, bank.key, *old(marginfi_account), *reading) {
                Ok((after, event)) => r is Ok
                    && old(ctx).with_bank_replaced(old(ctx).bank_index(bank.key), after, *final(ctx))
                    && *final(marginfi_account) == (AccountSnapshot { account: old(marginfi_account).account, collateral: 0, liability: 0 }),
                Err(e) => r == Err::<(), MarginfiError>(e) && *final(ctx) == *old(ctx)
                    && *final(marginfi_account) == *old(marginfi_account),
            },
    {
        let payer: Address = ctx.payer;
        match ctx.handle_bankruptcy(self.key, payer, bank.key, marginfi_account, reading) {
            Err(e) => Err(e),
            Ok(_) => Ok(()),
        }
    }

    /// The length in bytes of a persisted group: that of the tag and of the group's fields.
    pub fn get_size() -> (n: usize)
        ensures
            n == GROUP_RECORD_LEN,
            forall|group: MarginfiGroup| (#[trigger] group.record()).len() == n,
    {
        8 + 66
    }

    /// The group's record as it stands in the ledger, if the ledger holds the group.
    pub fn load(&self, ctx: &Ledger) -> (r: Option<MarginfiGroup>)
        ensures
            match r {
                Some(group) => ctx.has_group(self.key) && group == ctx.group(self.key),
                None => !ctx.has_group(self.key),
            },
    {
        match ctx.find_group(&self.key) {
            None => None,
            Some(i) => Some(ctx.groups[i]),
        }
    }
}

} // verus!
