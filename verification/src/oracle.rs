//! Oracle references and price readings: which account prices a bank's asset, whether a
//! reading is fresh, and what an amount of collateral is worth at a reading.
use vstd::prelude::*;
use crate::address::Address;
use crate::config::OracleRef;
use crate::error::MarginfiError;
use crate::vault::{derive_address, derive_spec};

verus! {

/// One whole, for prices: they are counted in millionths of the bank's asset per unit of
/// collateral.
pub const PRICE_SCALE: u64 = 1_000_000;

/// Where the price accounts of feeds live: the program that owns them and the shard.
#[derive(Clone, Copy, Debug)]
pub struct OracleResolver {
    pub program: Address,
    pub shard: u16,
}

/// What an oracle reported: a price, the width of its confidence band, and when.
#[derive(Clone, Copy, Debug, PartialEq, Eq, Structural)]
pub struct PriceReading {
    pub price: u64,
    pub confidence: u64,
    pub timestamp: i64,
}

/// The seeds of the price account of a feed: the shard in little-endian, then the feed.
pub open spec fn feed_seeds(shard: u16, feed: Address) -> Seq<Seq<u8>> {
    seq![vstd::bytes::spec_u16_to_le_bytes(shard), feed@]
}

/// The one account that an oracle reference stands for: the account itself for a direct
/// reference, the derived price account for a feed, and `OracleResolutionFailed` where the
/// feed derives no account.
pub open spec fn resolved_oracle(oracle: OracleRef, resolver: OracleResolver) -> Result<Address, MarginfiError> {
    match oracle {
        OracleRef::Direct(account) => Ok(account),
        OracleRef::Feed(feed) => match derive_spec(feed_seeds(resolver.shard, feed), resolver.program) {
            Ok((account, _)) => Ok(account),
            Err(_) => Err(MarginfiError::OracleResolutionFailed),
        },
    }
}

/// Resolves an oracle reference to its price account.
pub fn resolve_oracle(oracle: &OracleRef, resolver: &OracleResolver) -> (r: Result<Address, MarginfiError>)
    ensures
        r == resolved_oracle(*oracle, *resolver),
{
    match oracle {
        OracleRef::Direct(account) => Ok(*account),
        OracleRef::Feed(feed) => {
            let shard_bytes: Vec<u8> = vstd::bytes::u16_to_le_bytes(resolver.shard);
            let feed_bytes: Vec<u8> = feed.to_vec();
            let mut seeds: Vec<Vec<u8>> = Vec::new();
            seeds.push(shard_bytes);
            seeds.push(feed_bytes);
            proof {
                assert(seeds@[0].deep_view() =~= shard_bytes@);
                assert(seeds@[1].deep_view() =~= feed_bytes@);
                assert(seeds.deep_view() =~= feed_seeds(resolver.shard, *feed));
            }
            match derive_address(&seeds, &resolver.program) {
                Ok((account, _)) => Ok(account),
                Err(_) => Err(MarginfiError::OracleResolutionFailed),
            }
        },
    }
}

impl PriceReading {
    /// The reading is older at `now` than `max_age` seconds.
    pub open spec fn is_stale(self, now: i64, max_age: u64) -> bool {
        now - self.timestamp > max_age
    }

    /// The low end of the confidence band, and zero where the band reaches below zero.
    pub open spec fn low_price(self) -> int {
        if self.price >= self.confidence {
            self.price - self.confidence
        } else {
            0
        }
    }

    /// What `collateral` units can be realized for at the low end of the band, in units of the
    /// bank's asset.
    pub open spec fn realizable_value(self, collateral: u64) -> int {
        collateral * self.low_price() / (PRICE_SCALE as int)
    }

    /// Whether the reading is too old to trust at `now`.
    pub fn check_stale(&self, now: i64, max_age: u64) -> (r: bool)
        ensures
            r == self.is_stale(now, max_age),
    {
        let age: i128 = now as i128 - self.timestamp as i128;
        age > max_age as i128
    }

    /// The realizable value of `collateral` units at this reading.
    pub fn value_of(&self, collateral: u64) -> (v: u128)
        ensures
            v == self.realizable_value(collateral),
    {
        let low: u64 = if self.price >= self.confidence {
            self.price - self.confidence
        } else {
            0
        };
        assert(collateral * low <= 0xffff_ffff_ffff_ffff * 0xffff_ffff_ffff_ffff) by (nonlinear_arith)
            requires
                collateral <= 0xffff_ffff_ffff_ffff,
                low <= 0xffff_ffff_ffff_ffff,
        ;
        let product: u128 = collateral as u128 * low as u128;
        product / PRICE_SCALE as u128
    }
}

} // verus!
