//! Configuration records of groups and banks, their bounds, and partial updates.
use vstd::prelude::*;
use crate::address::Address;
use crate::error::MarginfiError;

verus! {

/// One whole, for rates, shares and weights: they are counted in millionths.
pub const RATE_SCALE: u64 = 1_000_000;

/// The highest yearly borrow rate a curve may reach, in millionths: ten times the principal.
pub const MAX_INTEREST_RATE: u64 = 10_000_000;

/// What names the account that prices a bank's asset.
#[derive(Clone, Copy, Debug)]
pub enum OracleRef {
    /// The price account itself.
    Direct(Address),
    /// A feed identifier, from which the price account is derived.
    Feed(Address),
}

/// How a bank's collateral may be combined with that of other banks.
#[derive(Clone, Copy, Debug, PartialEq, Eq, Structural)]
pub enum RiskTier {
    Collateral,
    Isolated,
}

/// The borrow-rate curve of a bank and the split of the interest it earns.
///
/// The yearly rate rises in a straight line from zero to the plateau rate as utilization goes
/// from zero to the optimal utilization, and in a second line from the plateau rate to the
/// maximum rate as utilization goes on to one whole.
#[derive(Clone, Copy, Debug, PartialEq, Eq, Structural)]
pub struct InterestRateConfig {
    pub optimal_utilization_rate: u64,
    pub plateau_interest_rate: u64,
    pub max_interest_rate: u64,
    /// The share of borrow interest that goes to the insurance reserve.
    pub insurance_ir_fee: u64,
    /// The share of borrow interest that goes to the protocol's fee balance.
    pub protocol_ir_fee: u64,
}

impl InterestRateConfig {
    /// The curve has a bend strictly inside the range, rates that rise and stay within the
    /// ceiling, and fee shares that leave no more than the whole interest.
    pub open spec fn is_valid(self) -> bool {
        &&& 0 < self.optimal_utilization_rate < RATE_SCALE
        &&& self.plateau_interest_rate <= self.max_interest_rate <= MAX_INTEREST_RATE
        &&& self.insurance_ir_fee + self.protocol_ir_fee <= RATE_SCALE
    }

    /// Whether the curve is within the protocol's bounds.
    pub fn check_valid(&self) -> (r: bool)
        ensures
            r == self.is_valid(),
    {
        0 < self.optimal_utilization_rate && self.optimal_utilization_rate < RATE_SCALE
            && self.plateau_interest_rate <= self.max_interest_rate
            && self.max_interest_rate <= MAX_INTEREST_RATE
            && self.insurance_ir_fee <= RATE_SCALE
            && self.protocol_ir_fee <= RATE_SCALE - self.insurance_ir_fee
    }
}

/// The configuration of a bank.
#[derive(Clone, Copy, Debug)]
pub struct BankConfig {
    pub asset_weight_init: i64,
    pub asset_weight_maint: i64,
    pub liability_weight_init: i64,
    pub liability_weight_maint: i64,
    pub deposit_limit: i64,
    pub borrow_limit: i64,
    pub oracle: OracleRef,
    /// The age in seconds beyond which a price reading is stale.
    pub oracle_max_age: u64,
    pub interest_rate_config: InterestRateConfig,
    pub deposits_paused: bool,
    pub borrows_paused: bool,
    pub risk_tier: RiskTier,
}

/// A partial update of a bank's configuration: a field that is `None` leaves the bank's value
/// as it is.
#[derive(Clone, Copy, Debug)]
pub struct BankConfigOpt {
    pub asset_weight_init: Option<i64>,
    pub asset_weight_maint: Option<i64>,
    pub liability_weight_init: Option<i64>,
    pub liability_weight_maint: Option<i64>,
    pub deposit_limit: Option<i64>,
    pub borrow_limit: Option<i64>,
    pub oracle: Option<OracleRef>,
    pub oracle_max_age: Option<u64>,
    pub interest_rate_config: Option<InterestRateConfig>,
    pub deposits_paused: Option<bool>,
    pub borrows_paused: Option<bool>,
    pub risk_tier: Option<RiskTier>,
}

/// The value a field takes under a partial update.
pub open spec fn overlay<T>(current: T, update: Option<T>) -> T {
    match update {
        Some(value) => value,
        None => current,
    }
}

fn pick<T: Copy>(current: T, update: Option<T>) -> (r: T)
    ensures
        r == overlay(current, update),
{
    match update {
        Some(value) => value,
        None => current,
    }
}

impl BankConfig {
    /// No weight and no limit is negative, and the interest curve is within bounds.
    pub open spec fn is_valid(self) -> bool {
        &&& self.asset_weight_init >= 0
        &&& self.asset_weight_maint >= 0
        &&& self.liability_weight_init >= 0
        &&& self.liability_weight_maint >= 0
        &&& self.deposit_limit >= 0
        &&& self.borrow_limit >= 0
        &&& self.interest_rate_config.is_valid()
    }

    /// This configuration with every field that the update names replaced.
    pub open spec fn overlaid(self, update: BankConfigOpt) -> BankConfig {
        BankConfig {
            asset_weight_init: overlay(self.asset_weight_init, update.asset_weight_init),
            asset_weight_maint: overlay(self.asset_weight_maint, update.asset_weight_maint),
            liability_weight_init: overlay(self.liability_weight_init, update.liability_weight_init),
            liability_weight_maint: overlay(self.liability_weight_maint, update.liability_weight_maint),
            deposit_limit: overlay(self.deposit_limit, update.deposit_limit),
            borrow_limit: overlay(self.borrow_limit, update.borrow_limit),
            oracle: overlay(self.oracle, update.oracle),
            oracle_max_age: overlay(self.oracle_max_age, update.oracle_max_age),
            interest_rate_config: overlay(self.interest_rate_config, update.interest_rate_config),
            deposits_paused: overlay(self.deposits_paused, update.deposits_paused),
            borrows_paused: overlay(self.borrows_paused, update.borrows_paused),
            risk_tier: overlay(self.risk_tier, update.risk_tier),
        }
    }

    /// Accepts the configuration if it is within the protocol's bounds.
    pub fn validate(&self) -> (r: Result<(), MarginfiError>)
        ensures
            r == (if self.is_valid() { Ok::<(), MarginfiError>(()) } else { Err(MarginfiError::InvalidConfig) }),
    {
        if self.asset_weight_init >= 0 && self.asset_weight_maint >= 0
            && self.liability_weight_init >= 0 && self.liability_weight_maint >= 0
            && self.deposit_limit >= 0 && self.borrow_limit >= 0
            && self.interest_rate_config.check_valid() {
            Ok(())
        } else {
            Err(MarginfiError::InvalidConfig)
        }
    }

    /// Applies a partial update: named fields are replaced, the others kept.
    pub fn apply(&self, update: &BankConfigOpt) -> (c: BankConfig)
        ensures
            c == self.overlaid(*update),
    {
        BankConfig {
            asset_weight_init: pick(self.asset_weight_init, update.asset_weight_init),
            asset_weight_maint: pick(self.asset_weight_maint, update.asset_weight_maint),
            liability_weight_init: pick(self.liability_weight_init, update.liability_weight_init),
            liability_weight_maint: pick(self.liability_weight_maint, update.liability_weight_maint),
            deposit_limit: pick(self.deposit_limit, update.deposit_limit),
            borrow_limit: pick(self.borrow_limit, update.borrow_limit),
            oracle: pick(self.oracle, update.oracle),
            oracle_max_age: pick(self.oracle_max_age, update.oracle_max_age),
            interest_rate_config: pick(self.interest_rate_config, update.interest_rate_config),
            deposits_paused: pick(self.deposits_paused, update.deposits_paused),
            borrows_paused: pick(self.borrows_paused, update.borrows_paused),
            risk_tier: pick(self.risk_tier, update.risk_tier),
        }
    }
}

impl BankConfigOpt {
    /// The update names no field.
    pub open spec fn names_nothing(self) -> bool {
        &&& self.asset_weight_init is None
        &&& self.asset_weight_maint is None
        &&& self.liability_weight_init is None
        &&& self.liability_weight_maint is None
        &&& self.deposit_limit is None
        &&& self.borrow_limit is None
        &&& self.oracle is None
        &&& self.oracle_max_age is None
        &&& self.interest_rate_config is None
        &&& self.deposits_paused is None
        &&& self.borrows_paused is None
        &&& self.risk_tier is None
    }

    /// The update that names no field: applied to any configuration, it leaves the
    /// configuration as it is.
    pub fn empty() -> (u: BankConfigOpt)
        ensures
            u.names_nothing(),
            forall|c: BankConfig| #[trigger] c.overlaid(u) == c,
    {
        BankConfigOpt {
            asset_weight_init: None,
            asset_weight_maint: None,
            liability_weight_init: None,
            liability_weight_maint: None,
            deposit_limit: None,
            borrow_limit: None,
            oracle: None,
            oracle_max_age: None,
            interest_rate_config: None,
            deposits_paused: None,
            borrows_paused: None,
            risk_tier: None,
        }
    }
}

/// The group-wide configuration that an administrator installs as a whole.
#[derive(Clone, Copy, Debug)]
pub struct GroupConfig {
    /// The administrator from now on; `None` keeps the present one.
    pub admin: Option<Address>,
    /// The emergency flag: the group's banks take no new business while it is set.
    pub emergency_paused: bool,
    /// Whether banks of the isolated risk tier may be borrowed from.
    pub isolated_tier_enabled: bool,
}

} // verus!
