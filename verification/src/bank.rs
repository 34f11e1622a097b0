//! A bank: one asset market of a group, with its configuration, its vaults and its books, and
//! the steps that move the books: interest accrual, fee collection, bankruptcy resolution and
//! reconfiguration. Each step is a function from a bank to the bank after it; a step that is
//! refused yields an error and no bank.
use vstd::prelude::*;
use crate::address::Address;
use crate::config::{BankConfig, BankConfigOpt};
use crate::error::MarginfiError;
use crate::interest::{borrow_rate, compute_borrow_rate, compute_fee_share, compute_interest, compute_utilization, fee_share, interest_due, lemma_fee_shares_bounded, utilization};
use crate::oracle::{resolve_oracle, resolved_oracle, OracleResolver, PriceReading};
use crate::pda::{is_spl_token_program, is_token_2022_program, token_2022_program_bytes, token_program_bytes};
use crate::vault::{BankVaults, BankVaultType, VaultAuthority};

verus! {

/// The most decimals a mint may have: with more, one whole token would not fit the integer
/// that amounts are counted in.
pub const MAX_MINT_DECIMALS: u8 = 19;

/// The asset of a bank: its mint, the token program that owns the mint, and its decimals.
#[derive(Clone, Copy, Debug)]
pub struct Mint {
    pub key: Address,
    pub token_program: Address,
    pub decimals: u8,
}

impl Mint {
    /// The mint belongs to one of the two token programs and one whole token fits an amount.
    pub open spec fn is_supported(self) -> bool {
        &&& self.decimals <= MAX_MINT_DECIMALS
        &&& (self.token_program@ == token_program_bytes() || self.token_program@ == token_2022_program_bytes())
    }

    /// Whether a bank can be opened for the mint.
    pub fn check_supported(&self) -> (r: bool)
        ensures
            r == self.is_supported(),
    {
        self.decimals <= MAX_MINT_DECIMALS && is_spl_token_program(&self.token_program)
    }
}

/// What is known of a borrower's position in a bank when its bankruptcy is judged: the
/// collateral that can be seized and the amount it owes the bank.
#[derive(Clone, Copy, Debug)]
pub struct AccountSnapshot {
    pub account: Address,
    pub collateral: u64,
    pub liability: u64,
}

/// The record of a resolved bankruptcy: whose, in which bank, how large the shortfall was and
/// who bore it. A shortfall beyond the insurance vault's balance is no failure: the part
/// that insurance does not cover appears here as the loss that depositors share, as far as
/// they are owed anything.
#[derive(Clone, Copy, Debug)]
pub struct BankruptcyEvent {
    pub account: Address,
    pub bank: Address,
    pub shortfall: u64,
    pub covered_by_insurance: u64,
    pub socialized_loss: u64,
    pub seized_collateral: u64,
}

/// What a fee collection moved out of the liquidity vault: into the insurance vault and
/// into the fee vault.
#[derive(Clone, Copy, Debug, PartialEq, Eq, Structural)]
pub struct FeeCollection {
    pub insurance_transfer: u64,
    pub fee_transfer: u64,
}

/// A bank.
#[derive(Clone, Copy, Debug)]
pub struct Bank {
    pub key: Address,
    pub group: Address,
    pub mint: Mint,
    pub config: BankConfig,
    /// The account that the configured oracle reference resolves to.
    pub oracle_account: Address,
    pub vaults: BankVaults,
    /// When interest was last accrued.
    pub last_update: i64,
    /// What depositors are owed.
    pub total_deposits: u64,
    /// What borrowers owe.
    pub total_liabilities: u64,
    /// All interest ever credited to depositors.
    pub accrued_deposit_interest: u128,
    /// All interest ever charged to borrowers.
    pub accrued_liability_interest: u128,
    /// Interest earned for the insurance reserve and not yet moved to its vault.
    pub insurance_fees_outstanding: u64,
    /// Interest earned for the protocol and not yet moved to the fee vault.
    pub protocol_fees_outstanding: u64,
    /// The realizable value of collateral seized from bankrupt accounts.
    pub seized_collateral: u64,
    pub liquidity_vault_balance: u64,
    pub insurance_vault_balance: u64,
    pub fee_vault_balance: u64,
}

impl Bank {
    /// A bank as it is opened: nothing deposited, nothing lent, empty vaults.
    pub open spec fn opened(key: Address, group: Address, mint: Mint, config: BankConfig, oracle_account: Address, vaults: BankVaults, now: i64) -> Bank {
        Bank {
            key,
            group,
            mint,
            config,
            oracle_account,
            vaults,
            last_update: now,
            total_deposits: 0,
            total_liabilities: 0,
            accrued_deposit_interest: 0,
            accrued_liability_interest: 0,
            insurance_fees_outstanding: 0,
            protocol_fees_outstanding: 0,
            seized_collateral: 0,
            liquidity_vault_balance: 0,
            insurance_vault_balance: 0,
            fee_vault_balance: 0,
        }
    }

    /// Opens a bank with empty books.
    pub fn open(key: Address, group: Address, mint: Mint, config: BankConfig, oracle_account: Address, vaults: BankVaults, now: i64) -> (b: Bank)
        ensures
            b == Bank::opened(key, group, mint, config, oracle_account, vaults, now),
    {
        Bank {
            key,
            group,
            mint,
            config,
            oracle_account,
            vaults,
            last_update: now,
            total_deposits: 0,
            total_liabilities: 0,
            accrued_deposit_interest: 0,
            accrued_liability_interest: 0,
            insurance_fees_outstanding: 0,
            protocol_fees_outstanding: 0,
            seized_collateral: 0,
            liquidity_vault_balance: 0,
            insurance_vault_balance: 0,
            fee_vault_balance: 0,
        }
    }

    /// The capability over the vault of one purpose.
    pub fn vault_authority(&self, vault_type: BankVaultType) -> (a: VaultAuthority)
        ensures
            a.bank == self.key,
            a.vault_type == vault_type,
            a.bump == self.vaults.slot(vault_type).authority_bump,
    {
        VaultAuthority { bank: self.key, vault_type, bump: self.vaults.get(vault_type).authority_bump }
    }

    /// The interest that borrowers owe for the time from the last accrual to `now`.
    pub open spec fn interest_over(self, now: i64) -> int {
        interest_due(
            self.total_liabilities,
            borrow_rate(self.config.interest_rate_config, utilization(self.total_liabilities, self.total_deposits)),
            now - self.last_update,
        )
    }

    /// The bank after interest is accrued up to `now`.
    ///
    /// At or before the last accrual nothing changes. Later, borrowers are charged the
    /// interest on what they owe at the curve's rate for the present utilization; the
    /// insurance and protocol shares of it go to the outstanding fee balances, the rest to
    /// depositors; and the clock moves to `now`. A curve out of bounds is refused with
    /// `InvalidConfig`, an amount that leaves its integer with `MathError`.
    pub open spec fn accrued(self, now: i64) -> Result<Bank, MarginfiError> {
        let interest = self.interest_over(now);
        let insurance = fee_share(interest, self.config.interest_rate_config.insurance_ir_fee as int);
        let protocol = fee_share(interest, self.config.interest_rate_config.protocol_ir_fee as int);
        let deposit = interest - insurance - protocol;
        if now <= self.last_update {
            Ok(self)
        } else if !self.config.interest_rate_config.is_valid() {
            Err(MarginfiError::InvalidConfig)
        } else if self.total_liabilities + interest > u64::MAX
            || self.total_deposits + deposit > u64::MAX
            || self.insurance_fees_outstanding + insurance > u64::MAX
            || self.protocol_fees_outstanding + protocol > u64::MAX
            || self.accrued_liability_interest + interest > u128::MAX
            || self.accrued_deposit_interest + deposit > u128::MAX {
            Err(MarginfiError::MathError)
        } else {
            Ok(Bank {
                last_update: now,
                total_liabilities: (self.total_liabilities + interest) as u64,
                total_deposits: (self.total_deposits + deposit) as u64,
                insurance_fees_outstanding: (self.insurance_fees_outstanding + insurance) as u64,
                protocol_fees_outstanding: (self.protocol_fees_outstanding + protocol) as u64,
                accrued_liability_interest: (self.accrued_liability_interest + interest) as u128,
                accrued_deposit_interest: (self.accrued_deposit_interest + deposit) as u128,
                ..self
            })
        }
    }

    /// Accrues interest up to `now`.
    pub fn accrue_interest(&self, now: i64) -> (r: Result<Bank, MarginfiError>)
        ensures
            r == self.accrued(now),
            r matches Ok(after) ==> after.accrued_liability_interest >= self.accrued_liability_interest
                && after.accrued_deposit_interest >= self.accrued_deposit_interest
                && after.last_update >= self.last_update,
    {
        if now <= self.last_update {
            return Ok(*self);
        }
        let curve = self.config.interest_rate_config;
        if !curve.check_valid() {
            return Err(MarginfiError::InvalidConfig);
        }
        let elapsed: u64 = (now as i128 - self.last_update as i128) as u64;
        let used: u64 = compute_utilization(self.total_liabilities, self.total_deposits);
        let rate: u64 = compute_borrow_rate(&curve, used);
        let interest: u64 = match compute_interest(self.total_liabilities, rate, elapsed) {
            Some(interest) => interest,
            None => {
                return Err(MarginfiError::MathError);
            },
        };
        proof {
            lemma_fee_shares_bounded(interest as int, curve.insurance_ir_fee as int, curve.protocol_ir_fee as int);
        }
        let insurance: u64 = compute_fee_share(interest, curve.insurance_ir_fee);
        let protocol: u64 = compute_fee_share(interest, curve.protocol_ir_fee);
        let deposit: u64 = interest - insurance - protocol;
        let total_liabilities = self.total_liabilities.checked_add(interest);
        let total_deposits = self.total_deposits.checked_add(deposit);
        let insurance_fees = self.insurance_fees_outstanding.checked_add(insurance);
        let protocol_fees = self.protocol_fees_outstanding.checked_add(protocol);
        let accrued_liability = self.accrued_liability_interest.checked_add(interest as u128);
        let accrued_deposit = self.accrued_deposit_interest.checked_add(deposit as u128);
        match (total_liabilities, total_deposits, insurance_fees, protocol_fees, accrued_liability, accrued_deposit) {
            (Some(l), Some(d), Some(i), Some(p), Some(al), Some(ad)) => Ok(Bank {
                last_update: now,
                total_liabilities: l,
                total_deposits: d,
                insurance_fees_outstanding: i,
                protocol_fees_outstanding: p,
                accrued_liability_interest: al,
                accrued_deposit_interest: ad,
                ..*self
            }),
            _ => Err(MarginfiError::MathError),
        }
    }

    /// The bank's mint belongs to the token program whose transfers need the mint account.
    pub open spec fn needs_mint_account(self) -> bool {
        self.mint.token_program@ == token_2022_program_bytes()
    }

    /// What would go to the insurance vault now: the outstanding insurance fees, as far as the
    /// liquidity vault holds them.
    pub open spec fn insurance_transfer_due(self) -> int {
        if self.insurance_fees_outstanding <= self.liquidity_vault_balance {
            self.insurance_fees_outstanding as int
        } else {
            self.liquidity_vault_balance as int
        }
    }

    /// What would go to the fee vault now: the outstanding protocol fees, as far as the
    /// liquidity vault holds them once the insurance vault has had its part.
    pub open spec fn fee_transfer_due(self) -> int {
        if self.protocol_fees_outstanding <= self.liquidity_vault_balance - self.insurance_transfer_due() {
            self.protocol_fees_outstanding as int
        } else {
            self.liquidity_vault_balance - self.insurance_transfer_due()
        }
    }

    /// The bank after its outstanding fees are collected, and what was moved.
    ///
    /// With nothing outstanding nothing changes. Otherwise a mint of the extension-bearing
    /// token program must come with its mint account, or the collection is refused with
    /// `MintAccountMissing`; the transfers leave the liquidity vault and the outstanding
    /// balances and reach the insurance vault and the fee vault.
    pub open spec fn fees_collected(self, mint_account: Option<Address>) -> Result<(Bank, FeeCollection), MarginfiError> {
        let insurance = self.insurance_transfer_due();
        let fee = self.fee_transfer_due();
        if self.insurance_fees_outstanding == 0 && self.protocol_fees_outstanding == 0 {
            Ok((self, FeeCollection { insurance_transfer: 0, fee_transfer: 0 }))
        } else if self.needs_mint_account() && mint_account != Some(self.mint.key) {
            Err(MarginfiError::MintAccountMissing)
        } else if self.insurance_vault_balance + insurance > u64::MAX || self.fee_vault_balance + fee > u64::MAX {
            Err(MarginfiError::MathError)
        } else {
            Ok((
                Bank {
                    insurance_fees_outstanding: (self.insurance_fees_outstanding - insurance) as u64,
                    protocol_fees_outstanding: (self.protocol_fees_outstanding - fee) as u64,
                    liquidity_vault_balance: (self.liquidity_vault_balance - insurance - fee) as u64,
                    insurance_vault_balance: (self.insurance_vault_balance + insurance) as u64,
                    fee_vault_balance: (self.fee_vault_balance + fee) as u64,
                    ..self
                },
                FeeCollection { insurance_transfer: insurance as u64, fee_transfer: fee as u64 },
            ))
        }
    }

    /// Collects the outstanding fees into their vaults.
    pub fn collect_fees(&self, mint_account: Option<Address>) -> (r: Result<(Bank, FeeCollection), MarginfiError>)
        ensures
            r == self.fees_collected(mint_account),
    {
        if self.insurance_fees_outstanding == 0 && self.protocol_fees_outstanding == 0 {
            return Ok((*self, FeeCollection { insurance_transfer: 0, fee_transfer: 0 }));
        }
        if is_token_2022_program(&self.mint.token_program) {
            let supplied: bool = match mint_account {
                Some(account) => account == self.mint.key,
                None => false,
            };
            if !supplied {
                return Err(MarginfiError::MintAccountMissing);
            }
        }
        let insurance: u64 = if self.insurance_fees_outstanding <= self.liquidity_vault_balance {
            self.insurance_fees_outstanding
        } else {
            self.liquidity_vault_balance
        };
        let left: u64 = self.liquidity_vault_balance - insurance;
        let fee: u64 = if self.protocol_fees_outstanding <= left {
            self.protocol_fees_outstanding
        } else {
            left
        };
        match (self.insurance_vault_balance.checked_add(insurance), self.fee_vault_balance.checked_add(fee)) {
            (Some(insurance_balance), Some(fee_balance)) => Ok((
                Bank {
                    insurance_fees_outstanding: self.insurance_fees_outstanding - insurance,
                    protocol_fees_outstanding: self.protocol_fees_outstanding - fee,
                    liquidity_vault_balance: left - fee,
                    insurance_vault_balance: insurance_balance,
                    fee_vault_balance: fee_balance,
                    ..*self
                },
                FeeCollection { insurance_transfer: insurance, fee_transfer: fee },
            )),
            _ => Err(MarginfiError::MathError),
        }
    }

    /// The part of a shortfall that the insurance vault covers: all of it, as far as the
    /// vault's balance goes.
    pub open spec fn insurance_cover(self, shortfall: int) -> int {
        if shortfall <= self.insurance_vault_balance {
            shortfall
        } else {
            self.insurance_vault_balance as int
        }
    }

    /// The part of an uncovered loss that depositors bear: all of it, as far as they are owed
    /// anything.
    pub open spec fn depositor_loss(self, uncovered: int) -> int {
        if uncovered <= self.total_deposits {
            uncovered
        } else {
            self.total_deposits as int
        }
    }

    /// The bank after the bankruptcy of an account is resolved, and the record of it.
    ///
    /// A stale price reading is refused with `StaleOracleData`. An account whose realizable
    /// collateral covers its liability is refused with `NotBankrupt`. Otherwise the shortfall
    /// is the liability less the realizable collateral; the insurance vault pays what it can
    /// into the liquidity vault, depositors lose the rest as far as they are owed anything,
    /// the liability leaves the bank's books and the collateral's value enters its reserve.
    /// A liability that the bank's books do not hold, and a balance that leaves its integer,
    /// is refused with `MathError`.
    pub open spec fn bankruptcy_resolved(self, account: AccountSnapshot, reading: PriceReading, now: i64) -> Result<(Bank, BankruptcyEvent), MarginfiError> {
        let realizable = reading.realizable_value(account.collateral);
        let shortfall = account.liability - realizable;
        let covered = self.insurance_cover(shortfall);
        let socialized = self.depositor_loss(shortfall - covered);
        if reading.is_stale(now, self.config.oracle_max_age) {
            Err(MarginfiError::StaleOracleData)
        } else if realizable >= account.liability {
            Err(MarginfiError::NotBankrupt)
        } else if account.liability > self.total_liabilities || self.liquidity_vault_balance + covered > u64::MAX
            || self.seized_collateral + realizable > u64::MAX {
            Err(MarginfiError::MathError)
        } else {
            Ok((
                Bank {
                    total_liabilities: (self.total_liabilities - account.liability) as u64,
                    total_deposits: (self.total_deposits - socialized) as u64,
                    insurance_vault_balance: (self.insurance_vault_balance - covered) as u64,
                    liquidity_vault_balance: (self.liquidity_vault_balance + covered) as u64,
                    seized_collateral: (self.seized_collateral + realizable) as u64,
                    ..self
                },
                BankruptcyEvent {
                    account: account.account,
                    bank: self.key,
                    shortfall: shortfall as u64,
                    covered_by_insurance: covered as u64,
                    socialized_loss: socialized as u64,
                    seized_collateral: realizable as u64,
                },
            ))
        }
    }

    /// Judges an account at a price reading and resolves its bankruptcy.
    pub fn resolve_bankruptcy(&self, account: &AccountSnapshot, reading: &PriceReading, now: i64) -> (r: Result<(Bank, BankruptcyEvent), MarginfiError>)
        ensures
            r == self.bankruptcy_resolved(*account, *reading, now),
    {
        if reading.check_stale(now, self.config.oracle_max_age) {
            return Err(MarginfiError::StaleOracleData);
        }
        let value: u128 = reading.value_of(account.collateral);
        if value >= account.liability as u128 {
            return Err(MarginfiError::NotBankrupt);
        }
        let realizable: u64 = value as u64;
        let shortfall: u64 = account.liability - realizable;
        let covered: u64 = if shortfall <= self.insurance_vault_balance {
            shortfall
        } else {
            self.insurance_vault_balance
        };
        let uncovered: u64 = shortfall - covered;
        let socialized: u64 = if uncovered <= self.total_deposits {
            uncovered
        } else {
            self.total_deposits
        };
        if account.liability > self.total_liabilities {
            return Err(MarginfiError::MathError);
        }
        match (self.liquidity_vault_balance.checked_add(covered), self.seized_collateral.checked_add(realizable)) {
            (Some(liquidity_balance), Some(seized)) => Ok((
                Bank {
                    total_liabilities: self.total_liabilities - account.liability,
                    total_deposits: self.total_deposits - socialized,
                    insurance_vault_balance: self.insurance_vault_balance - covered,
                    liquidity_vault_balance: liquidity_balance,
                    seized_collateral: seized,
                    ..*self
                },
                BankruptcyEvent {
                    account: account.account,
                    bank: self.key,
                    shortfall,
                    covered_by_insurance: covered,
                    socialized_loss: socialized,
                    seized_collateral: realizable,
                },
            )),
            _ => Err(MarginfiError::MathError),
        }
    }

    /// The bank after a partial update of its configuration.
    ///
    /// The updated configuration must be within bounds, or the update is refused with
    /// `InvalidConfig`. An update that names an oracle must come with exactly the one account
    /// that the new reference resolves to, or it is refused with `OracleResolutionFailed`.
    pub open spec fn configured(self, update: BankConfigOpt, oracle_accounts: Seq<Address>, resolver: OracleResolver) -> Result<Bank, MarginfiError> {
        let config = self.config.overlaid(update);
        if !config.is_valid() {
            Err(MarginfiError::InvalidConfig)
        } else {
            match update.oracle {
                None => Ok(Bank { config, ..self }),
                Some(oracle) => match resolved_oracle(oracle, resolver) {
                    Ok(account) => if oracle_accounts.len() == 1 && oracle_accounts[0] == account {
                        Ok(Bank { config, oracle_account: account, ..self })
                    } else {
                        Err(MarginfiError::OracleResolutionFailed)
                    },
                    Err(_) => Err(MarginfiError::OracleResolutionFailed),
                },
            }
        }
    }

    /// Applies a partial update to the bank's configuration.
    pub fn configure(&self, update: &BankConfigOpt, oracle_accounts: &Vec<Address>, resolver: &OracleResolver) -> (r: Result<Bank, MarginfiError>)
        ensures
            r == self.configured(*update, oracle_accounts@, *resolver),
    {
        let config = self.config.apply(update);
        match config.validate() {
            Err(e) => {
                return Err(e);
            },
            Ok(()) => {},
        }
        match update.oracle {
            None => Ok(Bank { config, ..*self }),
            Some(oracle) => match resolve_oracle(&oracle, resolver) {
                Ok(account) => if oracle_accounts.len() == 1 && oracle_accounts[0] == account {
                    Ok(Bank { config, oracle_account: account, ..*self })
                } else {
                    Err(MarginfiError::OracleResolutionFailed)
                },
                Err(_) => Err(MarginfiError::OracleResolutionFailed),
            },
        }
    }
}

} // verus!
