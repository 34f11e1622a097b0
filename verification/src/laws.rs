//! What holds of the protocol on every input, stated over the functions that the operations
//! are specified by.
use vstd::prelude::*;
use crate::address::{lemma_address_view_injective, Address};
use crate::bank::{AccountSnapshot, Bank, BankruptcyEvent, FeeCollection, Mint};
use crate::config::{BankConfig, BankConfigOpt, GroupConfig, RATE_SCALE};
use crate::group::MarginfiGroup;
use crate::error::MarginfiError;
use crate::interest::{borrow_rate, fee_share, lemma_fee_shares_bounded, lemma_scaled_part_bounded, utilization, YEAR_SCALE};
use crate::ledger::{is_first_bank, lemma_first_bank_exists, lemma_first_bank_unique, lemma_first_group_exists, Ledger};
use crate::oracle::PriceReading;
use crate::vault::{bank_vaults_spec, derive_spec, seeded_bank_seeds, vault_authority_seed, vault_authority_seeds, vault_seed, vault_seeds, BankVaultType, BankVaults};

verus! {

/// Vault addressing is a function of the bytes it is given: the same group, bank, purpose and
/// program always derive the same vault, the same authority, and the same bumps.
pub proof fn law_vault_derivation_deterministic(
    group: Address,
    bank: Address,
    vault_type: BankVaultType,
    program_id: Address,
    group_again: Address,
    bank_again: Address,
    program_id_again: Address,
)
    requires
        group@ == group_again@,
        bank@ == bank_again@,
        program_id@ == program_id_again@,
    ensures
        derive_spec(vault_seeds(group, bank, vault_type), program_id) == derive_spec(
            vault_seeds(group_again, bank_again, vault_type),
            program_id_again,
        ),
        derive_spec(vault_authority_seeds(group, bank, vault_type), program_id) == derive_spec(
            vault_authority_seeds(group_again, bank_again, vault_type),
            program_id_again,
        ),
{
    lemma_address_view_injective(group, group_again);
    lemma_address_view_injective(bank, bank_again);
    lemma_address_view_injective(program_id, program_id_again);
}

/// Distinct (group, bank, purpose) never hand the same seeds to the derivation, and no vault
/// shares its seeds with an authority.
pub proof fn law_vault_seeds_distinct(
    group: Address,
    bank: Address,
    vault_type: BankVaultType,
    other_group: Address,
    other_bank: Address,
    other_type: BankVaultType,
)
    ensures
        vault_seeds(group, bank, vault_type) == vault_seeds(other_group, other_bank, other_type) ==> group == other_group
            && bank == other_bank && vault_type == other_type,
        vault_authority_seeds(group, bank, vault_type) == vault_authority_seeds(other_group, other_bank, other_type)
            ==> group == other_group && bank == other_bank && vault_type == other_type,
        vault_seeds(group, bank, vault_type) != vault_authority_seeds(other_group, other_bank, other_type),
{
    let a = vault_seeds(group, bank, vault_type);
    let b = vault_seeds(other_group, other_bank, other_type);
    let c = vault_authority_seeds(group, bank, vault_type);
    let d = vault_authority_seeds(other_group, other_bank, other_type);
    assert(a[0] == vault_seed(vault_type) && a[1] == group@ && a[2] == bank@);
    assert(b[0] == vault_seed(other_type) && b[1] == other_group@ && b[2] == other_bank@);
    assert(c[0] == vault_authority_seed(vault_type) && c[1] == group@ && c[2] == bank@);
    assert(d[0] == vault_authority_seed(other_type) && d[1] == other_group@ && d[2] == other_bank@);
    assert(vault_seed(vault_type).len() == 15 || vault_seed(vault_type).len() == 9);
    assert(vault_authority_seed(other_type).len() == 20 || vault_authority_seed(other_type).len() == 14);
    if a == b {
        assert(vault_seed(vault_type)[0] == vault_seed(other_type)[0]);
        lemma_address_view_injective(group, other_group);
        lemma_address_view_injective(bank, other_bank);
    }
    if c == d {
        assert(vault_authority_seed(vault_type)[0] == vault_authority_seed(other_type)[0]);
        lemma_address_view_injective(group, other_group);
        lemma_address_view_injective(bank, other_bank);
    }
    if a == d {
        assert(a[0].len() == d[0].len());
    }
}

/// A bank that is added holds the vaults that its group and key derive: they can be derived
/// again at any time, and no operation on a bank changes its key, its group or its vaults.
pub proof fn law_vaults_rederivable(
    ledger: Ledger,
    group: Address,
    signer: Address,
    mint: Mint,
    bank: Address,
    config: BankConfig,
    oracle_account: Address,
)
    ensures
        ledger.bank_to_add(group, signer, mint, bank, config, oracle_account) matches Ok(added) ==> added.key == bank
            && added.group == group && bank_vaults_spec(group, bank, ledger.program_id) == Ok::<_, MarginfiError>(
            added.vaults,
        ) && forall|vault_type: BankVaultType| #[trigger]
            added.vaults.slot(vault_type).is_derived_for(group, bank, vault_type, ledger.program_id),
{
}

/// No step of a bank changes its key, its group, its mint or its vaults.
pub proof fn law_bank_identity_kept(
    bank: Bank,
    now: i64,
    mint_account: Option<Address>,
    account: AccountSnapshot,
    reading: PriceReading,
    update: BankConfigOpt,
    oracle_accounts: Seq<Address>,
    resolver: crate::oracle::OracleResolver,
)
    ensures
        bank.accrued(now) matches Ok(after) ==> after.key == bank.key && after.group == bank.group && after.mint
            == bank.mint && after.vaults == bank.vaults,
        bank.fees_collected(mint_account) matches Ok((after, _)) ==> after.key == bank.key && after.group == bank.group
            && after.mint == bank.mint && after.vaults == bank.vaults,
        bank.bankruptcy_resolved(account, reading, now) matches Ok((after, _)) ==> after.key == bank.key && after.group
            == bank.group && after.mint == bank.mint && after.vaults == bank.vaults,
        bank.configured(update, oracle_accounts, resolver) matches Ok(after) ==> after.key == bank.key && after.group
            == bank.group && after.mint == bank.mint && after.vaults == bank.vaults,
{
}

/// The same group, mint and number always derive the same bank key, and once a bank stands
/// under that key a second request with the same group, mint and number fails with
/// `BankAlreadyExists`, whatever else it asks for.
pub proof fn law_seed_reuse_collides(
    before: Ledger,
    after: Ledger,
    group: Address,
    signer: Address,
    mint: Mint,
    config: BankConfig,
    oracle_account: Address,
    bank_seed: u64,
    added: Bank,
    second_mint: Mint,
    second_config: BankConfig,
    second_oracle_account: Address,
)
    requires
        before.seeded_bank_to_add(group, signer, mint, config, oracle_account, bank_seed) == Ok::<Bank, MarginfiError>(added),
        before.with_bank_added(added, after),
        second_mint.key == mint.key,
    ensures
        derive_spec(seeded_bank_seeds(group, mint.key, bank_seed), before.program_id) matches Ok((key, _)) && key
            == added.key,
        after.seeded_bank_to_add(group, signer, second_mint, second_config, second_oracle_account, bank_seed) == Err::<
            Bank,
            MarginfiError,
        >(MarginfiError::BankAlreadyExists),
{
    let n = before.banks@.len() as int;
    assert(after.banks@[n].key == added.key);
    assert(after.has_bank(added.key));
    assert(after.has_group(group) == before.has_group(group));
    assert(after.group_index(group) == before.group_index(group));
}

/// Accruing interest a second time at the same moment changes nothing.
pub proof fn law_accrual_idempotent(bank: Bank, now: i64)
    ensures
        bank.accrued(now) matches Ok(after) ==> after.accrued(now) == Ok::<Bank, MarginfiError>(after),
{
}

/// Asking twice at one moment for a bank's interest to be accrued leaves the ledger after
/// the second request as it was after the first.
pub proof fn law_accrual_request_idempotent(before: Ledger, after: Ledger, group: Address, bank: Address, first: Bank)
    requires
        before.bank_accrued(group, bank) == Ok::<Bank, MarginfiError>(first),
        before.with_bank_replaced(before.bank_index(bank), first, after),
    ensures
        after.bank_accrued(group, bank) == Ok::<Bank, MarginfiError>(first),
        after.banks@.update(after.bank_index(bank), first) == after.banks@,
{
    let w = choose|i: int| 0 <= i < before.banks@.len() && (#[trigger] before.banks@[i]).key == bank;
    lemma_first_bank_exists(before.banks@, bank, w);
    let i = before.bank_index(bank);
    assert(after.banks@[i] == first);
    assert(is_first_bank(after.banks@, bank, i)) by {
        assert forall|j: int| 0 <= j < i implies (#[trigger] after.banks@[j]).key != bank by {
            assert(after.banks@[j] == before.banks@[j]);
        }
    }
    lemma_first_bank_unique(after.banks@, bank, i, after.bank_index(bank));
    assert(after.banks@.update(i, first) =~= after.banks@);
}

/// Accrual never lowers what borrowers have been charged or what depositors have been
/// credited, and never moves the clock back.
pub proof fn law_accrual_monotonic(bank: Bank, now: i64)
    ensures
        bank.accrued(now) matches Ok(after) ==> after.accrued_liability_interest >= bank.accrued_liability_interest
            && after.accrued_deposit_interest >= bank.accrued_deposit_interest && after.total_liabilities
            >= bank.total_liabilities && after.last_update >= bank.last_update && after.last_update >= now,
{
    if bank.accrued(now) is Ok && now > bank.last_update {
        lemma_interest_nonnegative(bank, now);
    }
}

/// Accrual moves no tokens: the balances of the three vaults and the seized collateral are
/// what they were, and so are the configuration and the oracle account.
pub proof fn law_accrual_moves_no_tokens(bank: Bank, now: i64)
    ensures
        bank.accrued(now) matches Ok(after) ==> after.liquidity_vault_balance == bank.liquidity_vault_balance
            && after.insurance_vault_balance == bank.insurance_vault_balance && after.fee_vault_balance
            == bank.fee_vault_balance && after.seized_collateral == bank.seized_collateral && after.config == bank.config
            && after.oracle_account == bank.oracle_account,
{
}

/// What accrual charges borrowers is what it credits to depositors and the two reserves
/// together.
pub proof fn law_accrual_splits_the_interest(bank: Bank, now: i64)
    ensures
        bank.accrued(now) matches Ok(after) ==> (after.total_liabilities - bank.total_liabilities) == (
        after.total_deposits - bank.total_deposits) + (after.insurance_fees_outstanding
            - bank.insurance_fees_outstanding) + (after.protocol_fees_outstanding - bank.protocol_fees_outstanding),
{
    if bank.accrued(now) is Ok && now > bank.last_update {
        lemma_interest_nonnegative(bank, now);
    }
}

/// Fee collection moves tokens between the bank's own vaults only: what leaves the liquidity
/// vault reaches the insurance vault and the fee vault, and the outstanding fees fall by
/// what was moved.
pub proof fn law_collection_conserves_tokens(bank: Bank, mint_account: Option<Address>)
    ensures
        bank.fees_collected(mint_account) matches Ok((after, moved)) ==> {
            &&& after.liquidity_vault_balance + after.insurance_vault_balance + after.fee_vault_balance
                == bank.liquidity_vault_balance + bank.insurance_vault_balance + bank.fee_vault_balance
            &&& after.insurance_vault_balance == bank.insurance_vault_balance + moved.insurance_transfer
            &&& after.fee_vault_balance == bank.fee_vault_balance + moved.fee_transfer
            &&& after.insurance_fees_outstanding == bank.insurance_fees_outstanding - moved.insurance_transfer
            &&& after.protocol_fees_outstanding == bank.protocol_fees_outstanding - moved.fee_transfer
            &&& after.total_deposits == bank.total_deposits
            &&& after.total_liabilities == bank.total_liabilities
        },
{
}

/// Banks do not stand in each other's way: after a bank is replaced by one under the same
/// key, every other bank is found as before, so that whatever is asked of another bank has
/// the outcome it would have had.
pub proof fn law_other_banks_unaffected(
    before: Ledger,
    after: Ledger,
    place: int,
    replacement: Bank,
    group: Address,
    other: Address,
    mint_account: Option<Address>,
)
    requires
        0 <= place < before.banks@.len(),
        replacement.key == before.banks@[place].key,
        before.with_bank_replaced(place, replacement, after),
        other != replacement.key,
    ensures
        after.has_bank(other) == before.has_bank(other),
        after.has_bank(other) ==> after.bank(other) == before.bank(other),
        after.bank_accrued(group, other) == before.bank_accrued(group, other),
        after.bank_fees_collected(group, other, mint_account) == before.bank_fees_collected(group, other, mint_account),
{
    if before.has_bank(other) {
        let w = choose|i: int| 0 <= i < before.banks@.len() && (#[trigger] before.banks@[i]).key == other;
        lemma_first_bank_exists(before.banks@, other, w);
        let i = before.bank_index(other);
        assert(after.banks@[i] == before.banks@[i]);
        assert(is_first_bank(after.banks@, other, i)) by {
            assert forall|j: int| 0 <= j < i implies (#[trigger] after.banks@[j]).key != other by {
                if j != place {
                    assert(after.banks@[j] == before.banks@[j]);
                }
            }
        }
        lemma_first_bank_unique(after.banks@, other, i, after.bank_index(other));
    }
    if after.has_bank(other) {
        let w = choose|i: int| 0 <= i < after.banks@.len() && (#[trigger] after.banks@[i]).key == other;
        assert(w != place);
        assert(before.banks@[w] == after.banks@[w]);
    }
}

/// The interest of a span is never negative and its fee shares never exceed it.
pub proof fn lemma_interest_nonnegative(bank: Bank, now: i64)
    requires
        bank.config.interest_rate_config.is_valid(),
        now >= bank.last_update,
    ensures
        borrow_rate(bank.config.interest_rate_config, utilization(bank.total_liabilities, bank.total_deposits)) >= 0,
        bank.interest_over(now) >= 0,
        fee_share(bank.interest_over(now), bank.config.interest_rate_config.insurance_ir_fee as int) + fee_share(
            bank.interest_over(now),
            bank.config.interest_rate_config.protocol_ir_fee as int,
        ) <= bank.interest_over(now),
{
    let curve = bank.config.interest_rate_config;
    let used = utilization(bank.total_liabilities, bank.total_deposits);
    assert(0 <= used <= RATE_SCALE) by {
        if bank.total_deposits != 0 {
            assert(bank.total_liabilities * RATE_SCALE / (bank.total_deposits as int) >= 0) by (nonlinear_arith)
                requires
                    bank.total_liabilities >= 0,
                    bank.total_deposits > 0,
                    RATE_SCALE > 0,
            ;
        }
    }
    if used <= curve.optimal_utilization_rate {
        lemma_scaled_part_bounded(curve.plateau_interest_rate as int, used, curve.optimal_utilization_rate as int);
    } else {
        lemma_scaled_part_bounded(
            curve.max_interest_rate - curve.plateau_interest_rate,
            used - curve.optimal_utilization_rate,
            RATE_SCALE - curve.optimal_utilization_rate,
        );
    }
    let rate = borrow_rate(curve, used);
    let elapsed = now - bank.last_update;
    assert(bank.total_liabilities * rate * elapsed / (YEAR_SCALE as int) >= 0) by (nonlinear_arith)
        requires
            bank.total_liabilities >= 0,
            rate >= 0,
            elapsed >= 0,
            YEAR_SCALE > 0,
    ;
    lemma_fee_shares_bounded(bank.interest_over(now), curve.insurance_ir_fee as int, curve.protocol_ir_fee as int);
}

/// From the same books, accruing up to a later moment charges borrowers no less than
/// accruing up to an earlier one.
pub proof fn law_accrual_monotonic_in_time(bank: Bank, earlier: i64, later: i64)
    requires
        earlier <= later,
    ensures
        bank.accrued(earlier) matches Ok(first) ==> (bank.accrued(later) matches Ok(second)
            ==> first.accrued_liability_interest <= second.accrued_liability_interest),
{
    if bank.accrued(earlier) is Ok && bank.accrued(later) is Ok && later > bank.last_update {
        lemma_interest_nonnegative(bank, later);
        if earlier > bank.last_update {
            let rate = borrow_rate(bank.config.interest_rate_config, utilization(bank.total_liabilities, bank.total_deposits));
            let e1 = earlier - bank.last_update;
            let e2 = later - bank.last_update;
            assert(bank.total_liabilities * rate * e1 / (YEAR_SCALE as int) <= bank.total_liabilities * rate * e2 / (
            YEAR_SCALE as int)) by (nonlinear_arith)
                requires
                    bank.total_liabilities >= 0,
                    rate >= 0,
                    0 <= e1 <= e2,
                    YEAR_SCALE > 0,
            ;
        }
    }
}

/// Collecting the fees of a bank that has none outstanding succeeds and changes nothing:
/// not the bank, not what its neighbours hold, not the fee record.
pub proof fn law_collect_without_fees_is_noop(ledger: Ledger, group: Address, bank: Address, mint_account: Option<Address>)
    requires
        ledger.bank_under(group, bank) is Ok,
        ledger.bank(bank).insurance_fees_outstanding == 0,
        ledger.bank(bank).protocol_fees_outstanding == 0,
    ensures
        ledger.bank(bank).fees_collected(mint_account) == Ok::<_, MarginfiError>(
            (ledger.bank(bank), FeeCollection { insurance_transfer: 0, fee_transfer: 0 }),
        ),
        ledger.bank_fees_collected(group, bank, mint_account) == Ok::<_, MarginfiError>(
            (ledger.bank(bank), FeeCollection { insurance_transfer: 0, fee_transfer: 0 }, ledger.fee_state),
        ),
        ledger.banks@.update(ledger.bank_index(bank), ledger.bank(bank)) == ledger.banks@,
{
    let i = choose|i: int| 0 <= i < ledger.banks@.len() && (#[trigger] ledger.banks@[i]).key == bank;
    lemma_first_bank_exists(ledger.banks@, bank, i);
    assert(ledger.banks@.update(ledger.bank_index(bank), ledger.bank(bank)) =~= ledger.banks@);
}

/// An account whose realizable collateral covers its liability is never resolved: the
/// request fails, and with `NotBankrupt` where the operator is the group's administrator,
/// the bank is the group's and the price reading is fresh.
pub proof fn law_solvent_account_not_bankrupt(
    ledger: Ledger,
    group: Address,
    signer: Address,
    bank: Address,
    account: AccountSnapshot,
    reading: PriceReading,
)
    requires
        reading.realizable_value(account.collateral) >= account.liability,
    ensures
        ledger.bank_bankruptcy_resolved(group, signer, bank, account, reading) is Err,
        ledger.group_authority(group, signer) is Ok && ledger.bank_under(group, bank) is Ok && !reading.is_stale(
            ledger.unix_timestamp,
            ledger.bank(bank).config.oracle_max_age,
        ) ==> ledger.bank_bankruptcy_resolved(group, signer, bank, account, reading) == Err::<
            (Bank, BankruptcyEvent),
            MarginfiError,
        >(MarginfiError::NotBankrupt),
{
}

/// A resolved bankruptcy whose shortfall is beyond the insurance vault's balance empties the
/// vault and, where depositors are owed that much, takes exactly the rest from what they are
/// owed. In every resolved bankruptcy the shortfall is the liability less the realizable
/// collateral, the liability leaves the books, and insurance and depositors never bear more
/// than the shortfall.
pub proof fn law_bankruptcy_shortfall_borne(bank: Bank, account: AccountSnapshot, reading: PriceReading, now: i64)
    ensures
        bank.bankruptcy_resolved(account, reading, now) matches Ok((after, event)) ==> {
            &&& event.shortfall == account.liability - reading.realizable_value(account.collateral)
            &&& event.shortfall > 0
            &&& event.covered_by_insurance + event.socialized_loss <= event.shortfall
            &&& after.insurance_vault_balance == bank.insurance_vault_balance - event.covered_by_insurance
            &&& after.liquidity_vault_balance == bank.liquidity_vault_balance + event.covered_by_insurance
            &&& after.total_deposits == bank.total_deposits - event.socialized_loss
            &&& after.total_liabilities == bank.total_liabilities - account.liability
            &&& bank.insurance_vault_balance < event.shortfall ==> after.insurance_vault_balance == 0
            &&& bank.insurance_vault_balance < event.shortfall && event.shortfall - bank.insurance_vault_balance
                <= bank.total_deposits ==> bank.total_deposits - after.total_deposits == event.shortfall
                - bank.insurance_vault_balance
            &&& bank.insurance_vault_balance >= event.shortfall ==> after.total_deposits == bank.total_deposits
        },
{
}

/// The size of a shortfall never stops a resolution: with an authorized operator, a fresh
/// reading and a liability that the bank's books hold, an account whose liability exceeds
/// its realizable collateral is resolved, unless a balance would leave its integer.
pub proof fn law_shortfall_is_never_refused(bank: Bank, account: AccountSnapshot, reading: PriceReading, now: i64)
    requires
        !reading.is_stale(now, bank.config.oracle_max_age),
        reading.realizable_value(account.collateral) < account.liability <= bank.total_liabilities,
        bank.liquidity_vault_balance + bank.insurance_vault_balance <= u64::MAX,
        bank.seized_collateral + account.liability <= u64::MAX,
    ensures
        bank.bankruptcy_resolved(account, reading, now) is Ok,
{
    assert(reading.realizable_value(account.collateral) >= 0) by (nonlinear_arith)
        requires
            account.collateral >= 0,
            reading.low_price() >= 0,
            reading.realizable_value(account.collateral) == account.collateral * reading.low_price() / (
            crate::oracle::PRICE_SCALE as int),
            crate::oracle::PRICE_SCALE > 0,
    ;
}

/// Looking a bank up after another was added under a fresh key: the banks that stood in
/// the ledger are found as before, and the added one under its key.
pub proof fn lemma_lookup_after_add(before: Ledger, after: Ledger, added: Bank, key: Address)
    requires
        !before.has_bank(added.key),
        before.with_bank_added(added, after),
    ensures
        after.has_bank(key) == (before.has_bank(key) || key == added.key),
        before.has_bank(key) ==> after.bank(key) == before.bank(key),
        after.bank(added.key) == added,
{
    let n = before.banks@.len() as int;
    assert(after.banks@[n] == added);
    if before.has_bank(key) {
        let w = choose|i: int| 0 <= i < before.banks@.len() && (#[trigger] before.banks@[i]).key == key;
        lemma_first_bank_exists(before.banks@, key, w);
        let i = before.bank_index(key);
        assert(after.banks@[i] == before.banks@[i]);
        assert(is_first_bank(after.banks@, key, i)) by {
            assert forall|j: int| 0 <= j < i implies (#[trigger] after.banks@[j]).key != key by {
                assert(after.banks@[j] == before.banks@[j]);
            }
        }
        lemma_first_bank_unique(after.banks@, key, i, after.bank_index(key));
    }
    if after.has_bank(key) && key != added.key {
        let w = choose|i: int| 0 <= i < after.banks@.len() && (#[trigger] after.banks@[i]).key == key;
        assert(w < n);
        assert(before.banks@[w] == after.banks@[w]);
    }
    assert(is_first_bank(after.banks@, added.key, n)) by {
        assert forall|j: int| 0 <= j < n implies (#[trigger] after.banks@[j]).key != added.key by {
            assert(after.banks@[j] == before.banks@[j]);
        }
    }
    lemma_first_bank_unique(after.banks@, added.key, n, after.bank_index(added.key));
}

/// A bank that is added joins the banks of its group and of no other group.
pub proof fn law_added_bank_joins_its_group(
    before: Ledger,
    after: Ledger,
    group: Address,
    signer: Address,
    mint: Mint,
    bank: Address,
    config: BankConfig,
    oracle_account: Address,
    added: Bank,
    other_group: Address,
)
    requires
        before.bank_to_add(group, signer, mint, bank, config, oracle_account) == Ok::<Bank, MarginfiError>(added),
        before.with_bank_added(added, after),
        other_group != group,
    ensures
        !before.group_banks(group).contains(bank),
        after.group_banks(group) == before.group_banks(group).insert(bank),
        after.group_banks(other_group) == before.group_banks(other_group),
{
    assert forall|key: Address| #![auto] after.group_banks(group).contains(key) == before.group_banks(group).insert(bank).contains(key) by {
        lemma_lookup_after_add(before, after, added, key);
    }
    assert forall|key: Address| #![auto] after.group_banks(other_group).contains(key) == before.group_banks(other_group).contains(key) by {
        lemma_lookup_after_add(before, after, added, key);
    }
    assert(after.group_banks(group) =~= before.group_banks(group).insert(bank));
    assert(after.group_banks(other_group) =~= before.group_banks(other_group));
}

/// A well-formed ledger stays well-formed: where no two groups and no two banks share a key
/// and every bank holds its derived vaults, the same is true after a group is created or
/// configured, after a bank is added, and after a bank is replaced by one with the same key,
/// group and vaults, which is what every step of a bank yields.
pub proof fn law_ledger_stays_well_formed(
    before: Ledger,
    after: Ledger,
    group: Address,
    admin: Address,
    signer: Address,
    group_config: GroupConfig,
    mint: Mint,
    bank: Address,
    config: BankConfig,
    oracle_account: Address,
    place: int,
    replacement: Bank,
)
    requires
        before.well_formed(),
    ensures
        !before.has_group(group) && before.same_but_groups(after) && after.groups@ == before.groups@.push(
            MarginfiGroup::created(group, admin),
        ) ==> after.well_formed(),
        before.group_authority(group, signer) matches Ok(i) && before.same_but_groups(after) && after.groups@
            == before.groups@.update(i, before.group(group).configured(group_config)) ==> after.well_formed(),
        before.bank_to_add(group, signer, mint, bank, config, oracle_account) matches Ok(added) && before.with_bank_added(
            added,
            after,
        ) ==> after.well_formed(),
        0 <= place < before.banks@.len() && replacement.key == before.banks@[place].key && replacement.group
            == before.banks@[place].group && replacement.vaults == before.banks@[place].vaults
            && before.with_bank_replaced(place, replacement, after) ==> after.well_formed(),
{
    if before.group_authority(group, signer) is Ok {
        let i = choose|i: int| 0 <= i < before.groups@.len() && (#[trigger] before.groups@[i]).key == group;
        lemma_first_group_exists(before.groups@, group, i);
    }
    let outcome = before.bank_to_add(group, signer, mint, bank, config, oracle_account);
    if outcome is Ok && before.with_bank_added(outcome->Ok_0, after) {
        assert forall|i: int| 0 <= i < after.banks@.len() implies bank_vaults_spec(
            (#[trigger] after.banks@[i]).group,
            after.banks@[i].key,
            after.program_id,
        ) == Ok::<BankVaults, MarginfiError>(after.banks@[i].vaults) by {
            if i < before.banks@.len() {
                assert(after.banks@[i] == before.banks@[i]);
            }
        }
    }
    if 0 <= place < before.banks@.len() && before.with_bank_replaced(place, replacement, after) {
        assert forall|i: int| 0 <= i < after.banks@.len() && replacement.key == before.banks@[place].key
            && replacement.group == before.banks@[place].group && replacement.vaults
            == before.banks@[place].vaults implies bank_vaults_spec(
            (#[trigger] after.banks@[i]).group,
            after.banks@[i].key,
            after.program_id,
        ) == Ok::<BankVaults, MarginfiError>(after.banks@[i].vaults) by {
            if i != place {
                assert(after.banks@[i] == before.banks@[i]);
            }
        }
    }
}

/// A request to configure a bank from anyone but the group's administrator fails with
/// `Unauthorized`.
pub proof fn law_configure_bank_needs_admin(
    ledger: Ledger,
    group: Address,
    signer: Address,
    bank: Address,
    update: BankConfigOpt,
    oracle_accounts: Seq<Address>,
)
    requires
        ledger.has_group(group),
        ledger.group(group).admin != signer,
    ensures
        ledger.bank_configured(group, signer, bank, update, oracle_accounts) == Err::<Bank, MarginfiError>(
            MarginfiError::Unauthorized,
        ),
{
}

/// A partial update leaves every field that it does not name as it was.
pub proof fn law_update_keeps_unnamed_fields(config: BankConfig, update: BankConfigOpt)
    ensures
        update.asset_weight_init is None ==> config.overlaid(update).asset_weight_init == config.asset_weight_init,
        update.asset_weight_maint is None ==> config.overlaid(update).asset_weight_maint == config.asset_weight_maint,
        update.liability_weight_init is None ==> config.overlaid(update).liability_weight_init
            == config.liability_weight_init,
        update.liability_weight_maint is None ==> config.overlaid(update).liability_weight_maint
            == config.liability_weight_maint,
        update.deposit_limit is None ==> config.overlaid(update).deposit_limit == config.deposit_limit,
        update.borrow_limit is None ==> config.overlaid(update).borrow_limit == config.borrow_limit,
        update.oracle is None ==> config.overlaid(update).oracle == config.oracle,
        update.oracle_max_age is None ==> config.overlaid(update).oracle_max_age == config.oracle_max_age,
        update.interest_rate_config is None ==> config.overlaid(update).interest_rate_config
            == config.interest_rate_config,
        update.deposits_paused is None ==> config.overlaid(update).deposits_paused == config.deposits_paused,
        update.borrows_paused is None ==> config.overlaid(update).borrows_paused == config.borrows_paused,
        update.risk_tier is None ==> config.overlaid(update).risk_tier == config.risk_tier,
{
}

} // verus!
