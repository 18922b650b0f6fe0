//! Snapshots of the two external capabilities the proxy consumes.
//!
//! The upstream oracle and the per-pool info providers are remote contracts;
//! the hosting environment performs the actual calls and hands their current
//! answers to the library as plain data: an [`OracleSnapshot`] of the
//! upstream feed and a [`PoolDirectory`] of the registered pools' states.

use vstd::prelude::*;

verus! {

use crate::types::{Address, Asset, PriceData};

/// What the upstream oracle currently reports: its declared base asset and
/// its price samples, one per quoted asset.
pub struct OracleSnapshot {
    /// The feed's declared base asset.
    pub base: Asset,
    /// The feed's quotes; an asset that is absent has no upstream price.
    pub prices: Vec<(Asset, PriceData)>,
    /// The decimal count the feed reports for itself; the proxy ignores it.
    pub decimals: u32,
}

/// The first quote for `a` in `s`, if any.
pub open spec fn quote_of(s: Seq<(Asset, PriceData)>, a: Asset) -> Option<PriceData>
    decreases s.len(),
{
    if s.len() == 0 {
        None
    } else if s[0].0 == a {
        Some(s[0].1)
    } else {
        quote_of(s.drop_first(), a)
    }
}

/// Every price a well-formed feed reports is non-negative.
pub proof fn lemma_quote_nonneg(s: Seq<(Asset, PriceData)>, a: Asset)
    requires
        forall|i: int| 0 <= i < s.len() ==> (#[trigger] s[i]).1.price >= 0,
    ensures
        quote_of(s, a) matches Some(p) ==> p.price >= 0,
    decreases s.len(),
{
    if s.len() != 0 && s[0].0 != a {
        lemma_quote_nonneg(s.drop_first(), a);
    }
}

impl OracleSnapshot {
    /// A well-formed feed reports only non-negative prices.
    pub open spec fn wf(self) -> bool {
        forall|i: int| 0 <= i < self.prices@.len() ==> (#[trigger] self.prices@[i]).1.price >= 0
    }

    /// The feed's answer for `a`.
    pub open spec fn quote(self, a: Asset) -> Option<PriceData> {
        quote_of(self.prices@, a)
    }

    /// The upstream `lastprice` call: the feed's most recent sample for
    /// `asset`, or `None` when the feed has no price for it.
    pub fn lastprice(&self, asset: Asset) -> (r: Option<PriceData>)
        ensures
            r == self.quote(asset),
    {
        proof {
            assert(self.prices@.skip(0) =~= self.prices@);
        }
        let mut i: usize = 0;
        while i < self.prices.len()
            invariant
                i <= self.prices@.len(),
                quote_of(self.prices@, asset) == quote_of(self.prices@.skip(i as int), asset),
            decreases self.prices@.len() - i,
        {
            let (a, p) = self.prices[i];
            if a == asset {
                return Some(p);
            }
            proof {
                assert(self.prices@.skip(i as int).drop_first() =~= self.prices@.skip(
                    i as int + 1,
                ));
            }
            i = i + 1;
        }
        None
    }
}

/// One pool's state as its info provider reports it: the share count, the
/// constituent token addresses and the reserves, positionally aligned. A
/// conforming provider reports exactly two tokens and two reserves, but
/// nothing here may rely on that.
pub struct PoolState {
    pub total_shares: u128,
    pub tokens: Vec<Address>,
    pub reserves: Vec<u128>,
}

/// The first state recorded for pool contract `addr` in `s`, if any.
pub open spec fn state_of(s: Seq<(Address, PoolState)>, addr: Address) -> Option<PoolState>
    decreases s.len(),
{
    if s.len() == 0 {
        None
    } else if s[0].0 == addr {
        Some(s[0].1)
    } else {
        state_of(s.drop_first(), addr)
    }
}

/// The current states of pool contracts, keyed by pool contract address.
pub struct PoolDirectory {
    pub pools: Vec<(Address, PoolState)>,
}

impl PoolDirectory {
    /// The recorded state of the pool contract at `addr`.
    pub open spec fn state(self, addr: Address) -> Option<PoolState> {
        state_of(self.pools@, addr)
    }

    /// Looks up the state of the pool contract at `addr`.
    pub fn get(&self, addr: Address) -> (r: Option<&PoolState>)
        ensures
            match r {
                Some(p) => self.state(addr) == Some(*p),
                None => self.state(addr) is None,
            },
    {
        proof {
            assert(self.pools@.skip(0) =~= self.pools@);
        }
        let mut i: usize = 0;
        while i < self.pools.len()
            invariant
                i <= self.pools@.len(),
                state_of(self.pools@, addr) == state_of(self.pools@.skip(i as int), addr),
            decreases self.pools@.len() - i,
        {
            if self.pools[i].0 == addr {
                return Some(&self.pools[i].1);
            }
            proof {
                assert(self.pools@.skip(i as int).drop_first() =~= self.pools@.skip(i as int + 1));
            }
            i = i + 1;
        }
        None
    }
}

} // verus!
