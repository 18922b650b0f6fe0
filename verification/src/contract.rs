//! The proxy contract: admin-gated configuration operations and the price
//! router, with the pool fair-value computation.

use vstd::prelude::*;

verus! {

use crate::feeds::{
    lemma_quote_nonneg, quote_of, OracleSnapshot, PoolDirectory, PoolState,
};
use crate::store::ConfigStore;
use crate::types::{Address, Asset, ConfigData, Error, PriceData, DECIMALS, PRICE_ONE};
use crate::wide::{add_wide, div_wide, lemma_wide_hi_bound, mul_wide, two_to_128, wide};
use vstd::arithmetic::div_mod::{lemma_div_by_multiple, lemma_div_is_ordered};
use vstd::arithmetic::mul::lemma_mul_inequality;
use vstd::arithmetic::power::pow;

broadcast use vstd::std_specs::hash::group_hash_axioms;

/// The proxy: a price feed over one durable configuration store.
pub struct ProxyContract {
    pub store: ConfigStore,
}

/// The anchor: one unit of the base asset is worth exactly one normalized
/// unit, and the sample is as fresh as the call itself.
pub open spec fn anchor_price(now: u64) -> PriceData {
    PriceData { price: PRICE_ONE, timestamp: now }
}

/// The price of one leg of a pool, and of any plain asset: the anchor for
/// the base asset itself, otherwise the upstream feed's quote.
pub open spec fn leg_price_spec(oracle: OracleSnapshot, base: Asset, asset: Asset, now: u64) -> Option<
    PriceData,
> {
    if asset == base {
        Some(anchor_price(now))
    } else {
        quote_of(oracle.prices@, asset)
    }
}

/// The combined value of both reserves at their leg prices.
pub open spec fn share_value(r0: u128, p0: int, r1: u128, p1: int) -> int {
    r0 * p0 + r1 * p1
}

/// Narrowing a per-share quotient to the signed price width: a quotient that
/// does not fit is soft absence, not an error.
pub open spec fn narrowed_price(q: int, ts: u64) -> Option<PriceData> {
    if q > i128::MAX {
        None
    } else {
        Some(PriceData { price: q as i128, timestamp: ts })
    }
}

/// The fair value of one share of a pool in the reported state `pool`:
/// reserves valued at the legs' prices, divided by the outstanding shares.
pub open spec fn pool_price_spec(
    pool: PoolState,
    oracle: OracleSnapshot,
    base: Asset,
    now: u64,
) -> Result<Option<PriceData>, Error> {
    if pool.total_shares == 0 {
        Ok(None)
    } else if pool.tokens@.len() != 2 {
        Err(Error::InvalidPool)
    } else if pool.reserves@.len() != 2 {
        Err(Error::InvalidPool)
    } else {
        let pa = leg_price_spec(oracle, base, Asset::Stellar(pool.tokens@[0]), now);
        let pb = leg_price_spec(oracle, base, Asset::Stellar(pool.tokens@[1]), now);
        if pa is None || pb is None {
            Ok(None)
        } else {
            Ok(
                narrowed_price(
                    share_value(
                        pool.reserves@[0],
                        pa.unwrap().price as int,
                        pool.reserves@[1],
                        pb.unwrap().price as int,
                    ) / (pool.total_shares as int),
                    pa.unwrap().timestamp,
                ),
            )
        }
    }
}

/// The router's answer: the anchor for the base asset, the pool fair value
/// for a registered share token, the upstream quote for any other supported
/// asset; `Unauthorized` before an oracle is configured, `AssetNotSupported`
/// for an unsupported variant.
pub open spec fn lastprice_spec(
    c: ProxyContract,
    oracle: OracleSnapshot,
    pools: PoolDirectory,
    asset: Asset,
    now: u64,
) -> Result<Option<PriceData>, Error> {
    if c.store.oracle is None {
        Err(Error::Unauthorized)
    } else if asset == oracle.base {
        Ok(Some(anchor_price(now)))
    } else {
        match asset {
            Asset::Stellar(a) => if c.store.pools@.contains_key(a) {
                pool_price_spec(pools.state(c.store.pools@[a]).unwrap(), oracle, oracle.base, now)
            } else {
                Ok(quote_of(oracle.prices@, asset))
            },
            Asset::Other(_) => Err(Error::AssetNotSupported),
        }
    }
}

/// The registry after upserting each entry of `s` in order.
pub open spec fn upserted(m: Map<Address, Address>, s: Seq<(Address, Address)>) -> Map<
    Address,
    Address,
>
    decreases s.len(),
{
    if s.len() == 0 {
        m
    } else {
        upserted(m, s.drop_last()).insert(s.last().0, s.last().1)
    }
}

/// The registry after removing each key of `s` in order.
pub open spec fn removed(m: Map<Address, Address>, s: Seq<Address>) -> Map<Address, Address>
    decreases s.len(),
{
    if s.len() == 0 {
        m
    } else {
        removed(m, s.drop_last()).remove(s.last())
    }
}

/// The anchor price for the current time.
pub fn get_base_price(now: u64) -> (r: PriceData)
    ensures
        r == anchor_price(now),
{
    PriceData { price: PRICE_ONE, timestamp: now }
}

/// The price of one asset as the pool valuation sees it: the anchor for the
/// base asset, the upstream quote otherwise.
pub fn get_price(oracle: &OracleSnapshot, base: Asset, asset: Asset, now: u64) -> (r: Option<
    PriceData,
>)
    ensures
        r == leg_price_spec(*oracle, base, asset, now),
{
    if base == asset {
        Some(get_base_price(now))
    } else {
        oracle.lastprice(asset)
    }
}

/// The weighted-reserve valuation: `(reserves[0] * price_a + reserves[1] *
/// price_b) / total_shares`, carried out in 256-bit arithmetic so that no
/// intermediate overflows; only the final quotient is narrowed, and a
/// quotient beyond the signed price width is soft absence. The sample keeps
/// the first leg's timestamp.
pub fn calculate_price(
    reserves: &Vec<u128>,
    total_shares: u128,
    token_a_price: &PriceData,
    token_b_price: &PriceData,
) -> (r: Option<PriceData>)
    requires
        reserves@.len() == 2,
        total_shares >= 1,
        token_a_price.price >= 0,
        token_b_price.price >= 0,
    ensures
        r == narrowed_price(
            share_value(
                reserves@[0],
                token_a_price.price as int,
                reserves@[1],
                token_b_price.price as int,
            ) / (total_shares as int),
            token_a_price.timestamp,
        ),
{
    let (h0, l0) = mul_wide(reserves[0], token_a_price.price as u128);
    let (h1, l1) = mul_wide(reserves[1], token_b_price.price as u128);
    proof {
        lemma_wide_hi_bound(h0, l0, reserves@[0], token_a_price.price as u128);
        lemma_wide_hi_bound(h1, l1, reserves@[1], token_b_price.price as u128);
    }
    let (sh, sl) = add_wide((h0, l0), (h1, l1));
    let ghost value: int = share_value(
        reserves@[0],
        token_a_price.price as int,
        reserves@[1],
        token_b_price.price as int,
    );
    proof {
        assert(wide(sh, sl) == value);
    }
    if sh >= total_shares {
        proof {
            lemma_mul_inequality(total_shares as int, sh as int, two_to_128());
            lemma_div_is_ordered(
                total_shares as int * two_to_128(),
                wide(sh, sl),
                total_shares as int,
            );
            lemma_div_by_multiple(two_to_128(), total_shares as int);
        }
        return None;
    }
    let q = div_wide(sh, sl, total_shares);
    if q > (i128::MAX as u128) {
        None
    } else {
        Some(PriceData { price: q as i128, timestamp: token_a_price.timestamp })
    }
}

/// Values one share of the pool whose reported state is `pool`: requires a
/// two-token, two-reserve shape, both legs priced, and a non-empty pool.
pub fn get_pool_price(
    pool: &PoolState,
    oracle: &OracleSnapshot,
    base: Asset,
    now: u64,
) -> (r: Result<Option<PriceData>, Error>)
    requires
        oracle.wf(),
    ensures
        r == pool_price_spec(*pool, *oracle, base, now),
{
    let total_shares = pool.total_shares;
    if total_shares == 0 {
        return Ok(None);
    }
    if pool.tokens.len() != 2 {
        return Err(Error::InvalidPool);
    }
    if pool.reserves.len() != 2 {
        return Err(Error::InvalidPool);
    }
    let token_a_price = get_price(oracle, base, Asset::Stellar(pool.tokens[0]), now);
    let token_b_price = get_price(oracle, base, Asset::Stellar(pool.tokens[1]), now);
    if token_a_price.is_none() || token_b_price.is_none() {
        return Ok(None);
    }
    let pa = token_a_price.unwrap();
    let pb = token_b_price.unwrap();
    proof {
        lemma_quote_nonneg(oracle.prices@, Asset::Stellar(pool.tokens@[0]));
        lemma_quote_nonneg(oracle.prices@, Asset::Stellar(pool.tokens@[1]));
    }
    Ok(calculate_price(&pool.reserves, total_shares, &pa, &pb))
}

impl ProxyContract {
    /// A fresh, uninitialized proxy.
    pub fn new() -> (r: ProxyContract)
        ensures
            r.store.admin is None,
            r.store.oracle is None,
            r.store.pools@ == Map::<Address, Address>::empty(),
    {
        ProxyContract { store: ConfigStore::new() }
    }

    /// Whether a pool's reported state is on hand for every route the
    /// request can take: the hosting environment guarantees that a
    /// registered pool address is a live contract, so its state is always
    /// obtainable.
    pub open spec fn covers(self, oracle: OracleSnapshot, pools: PoolDirectory, asset: Asset) -> bool {
        match asset {
            Asset::Stellar(a) => (self.store.oracle is Some && asset != oracle.base
                && self.store.pools@.contains_key(a)) ==> pools.state(self.store.pools@[a]) is Some,
            Asset::Other(_) => true,
        }
    }

    /// The most recent price for `asset`, normalized to [`DECIMALS`]
    /// digits: the anchor for the base asset, the synthesized fair value for
    /// a registered pool share token, the upstream quote for any other
    /// supported asset.
    pub fn lastprice(
        &self,
        oracle: &OracleSnapshot,
        pools: &PoolDirectory,
        asset: Asset,
        now: u64,
    ) -> (r: Result<Option<PriceData>, Error>)
        requires
            oracle.wf(),
            self.covers(*oracle, *pools, asset),
        ensures
            r == lastprice_spec(*self, *oracle, *pools, asset, now),
    {
        if self.store.get_oracle().is_none() {
            // no upstream feed is configured, so there is no client to query
            return Err(Error::Unauthorized);
        }
        let base: Asset = oracle.base;
        if base == asset {
            return Ok(Some(get_base_price(now)));
        }
        match asset {
            Asset::Stellar(address) => {
                match self.store.pool_of(address) {
                    Some(pool_addr) => {
                        let state = pools.get(pool_addr);
                        get_pool_price(state.unwrap(), oracle, base, now)
                    },
                    None => Ok(oracle.lastprice(asset)),
                }
            },
            Asset::Other(_) => Err(Error::AssetNotSupported),
        }
    }

    /// The fixed decimal count of every price this contract returns,
    /// whatever the upstream feed reports for itself.
    pub fn decimals(&self) -> (r: u32)
        ensures
            r == DECIMALS,
            r == 14,
    {
        DECIMALS
    }

    /// The upstream feed's current base asset: always a live read, never
    /// cached.
    pub fn base(&self, oracle: &OracleSnapshot) -> (r: Result<Asset, Error>)
        ensures
            self.store.oracle is None ==> r == Err::<Asset, Error>(Error::Unauthorized),
            self.store.oracle is Some ==> r == Ok::<Asset, Error>(oracle.base),
    {
        if self.store.get_oracle().is_none() {
            return Err(Error::Unauthorized);
        }
        Ok(oracle.base)
    }

    /// One-time initialization with the given configuration. The caller must
    /// authenticate as `config.admin`; a second initialization fails with
    /// `AlreadyInitialized` and changes nothing.
    pub fn config(&mut self, caller: Address, config: ConfigData) -> (r: Result<(), Error>)
        ensures
            caller != config.admin ==> r == Err::<(), Error>(Error::Unauthorized) && *final(self)
                == *old(self),
            caller == config.admin && old(self).store.admin is Some ==> r == Err::<(), Error>(
                Error::AlreadyInitialized,
            ) && *final(self) == *old(self),
            caller == config.admin && old(self).store.admin is None ==> r == Ok::<(), Error>(())
                && final(self).store.admin == Some(config.admin) && final(self).store.oracle
                == Some(config.oracle) && final(self).store.pools@ == config.pools@,
    {
        if caller != config.admin {
            return Err(Error::Unauthorized);
        }
        if self.store.is_initialized() {
            return Err(Error::AlreadyInitialized);
        }
        self.store.set_admin(config.admin);
        self.store.set_oracle(config.oracle);
        self.store.set_pools(config.pools);
        Ok(())
    }

    /// Points the proxy at another upstream oracle. Admin only; a failed
    /// gate changes nothing.
    pub fn set_oracle(&mut self, caller: Address, oracle: Address) -> (r: Result<(), Error>)
        ensures
            old(self).store.admin != Some(caller) ==> r == Err::<(), Error>(Error::Unauthorized)
                && *final(self) == *old(self),
            old(self).store.admin == Some(caller) ==> r == Ok::<(), Error>(()) && final(self).store.oracle == Some(oracle) && final(self).store.admin == old(self).store.admin
                && final(self).store.pools@ == old(self).store.pools@,
    {
        match self.store.require_admin(caller) {
            Err(e) => {
                return Err(e);
            },
            Ok(()) => {},
        }
        self.store.set_oracle(oracle);
        Ok(())
    }

    /// Upserts the given registry entries: inserts an absent key, overwrites
    /// a present one. Admin only; a failed gate changes nothing.
    pub fn add_pools(&mut self, caller: Address, pools: Vec<(Address, Address)>) -> (r: Result<
        (),
        Error,
    >)
        ensures
            old(self).store.admin != Some(caller) ==> r == Err::<(), Error>(Error::Unauthorized)
                && *final(self) == *old(self),
            old(self).store.admin == Some(caller) ==> r == Ok::<(), Error>(()) && final(self).store.pools@ == upserted(old(self).store.pools@, pools@) && final(self).store.admin
                == old(self).store.admin && final(self).store.oracle == old(self).store.oracle,
    {
        match self.store.require_admin(caller) {
            Err(e) => {
                return Err(e);
            },
            Ok(()) => {},
        }
        proof {
            assert(pools@.take(0) =~= Seq::<(Address, Address)>::empty());
        }
        let mut i: usize = 0;
        while i < pools.len()
            invariant
                i <= pools@.len(),
                self.store.pools@ == upserted(old(self).store.pools@, pools@.take(i as int)),
                self.store.admin == old(self).store.admin,
                self.store.oracle == old(self).store.oracle,
            decreases pools@.len() - i,
        {
            let (k, v) = pools[i];
            let _ = self.store.pools.insert(k, v);
            proof {
                assert(pools@.take(i as int + 1).drop_last() =~= pools@.take(i as int));
                assert(pools@.take(i as int + 1).last() == pools@[i as int]);
            }
            i = i + 1;
        }
        proof {
            assert(pools@.take(pools@.len() as int) =~= pools@);
        }
        Ok(())
    }

    /// Removes the given keys from the registry; an absent key is no error.
    /// Admin only; a failed gate changes nothing.
    pub fn remove_pools(&mut self, caller: Address, pools: Vec<Address>) -> (r: Result<(), Error>)
        ensures
            old(self).store.admin != Some(caller) ==> r == Err::<(), Error>(Error::Unauthorized)
                && *final(self) == *old(self),
            old(self).store.admin == Some(caller) ==> r == Ok::<(), Error>(()) && final(self).store.pools@ == removed(old(self).store.pools@, pools@) && final(self).store.admin
                == old(self).store.admin && final(self).store.oracle == old(self).store.oracle,
    {
        match self.store.require_admin(caller) {
            Err(e) => {
                return Err(e);
            },
            Ok(()) => {},
        }
        proof {
            assert(pools@.take(0) =~= Seq::<Address>::empty());
        }
        let mut i: usize = 0;
        while i < pools.len()
            invariant
                i <= pools@.len(),
                self.store.pools@ == removed(old(self).store.pools@, pools@.take(i as int)),
                self.store.admin == old(self).store.admin,
                self.store.oracle == old(self).store.oracle,
            decreases pools@.len() - i,
        {
            let k = pools[i];
            let _ = self.store.pools.remove(&k);
            proof {
                assert(pools@.take(i as int + 1).drop_last() =~= pools@.take(i as int));
                assert(pools@.take(i as int + 1).last() == pools@[i as int]);
            }
            i = i + 1;
        }
        proof {
            assert(pools@.take(pools@.len() as int) =~= pools@);
        }
        Ok(())
    }
}

/// Law: a request for the base asset always returns the anchor — price
/// `10^DECIMALS`, timestamped at the time of the call.
pub proof fn lemma_base_asset_anchor(
    c: ProxyContract,
    oracle: OracleSnapshot,
    pools: PoolDirectory,
    now: u64,
)
    requires
        c.store.oracle is Some,
    ensures
        lastprice_spec(c, oracle, pools, oracle.base, now) == Ok::<Option<PriceData>, Error>(
            Some(anchor_price(now)),
        ),
        anchor_price(now).price == pow(10, 14),
        anchor_price(now).timestamp == now,
{
    assert(pow(10, 14) == 100_000_000_000_000) by {
        reveal_with_fuel(pow, 15);
    }
}

/// Law: the share token of a registered two-asset pool with reserves
/// `r0, r1`, resolved leg prices `p0, p1` and `s > 0` outstanding shares is
/// priced at `floor((r0*p0 + r1*p1) / s)`, with the first leg's timestamp,
/// whenever that quotient fits the signed price width.
pub proof fn lemma_pool_share_fair_value(
    c: ProxyContract,
    oracle: OracleSnapshot,
    pools: PoolDirectory,
    a: Address,
    ps: PoolState,
    now: u64,
    p0: PriceData,
    p1: PriceData,
)
    requires
        c.store.oracle is Some,
        Asset::Stellar(a) != oracle.base,
        c.store.pools@.contains_key(a),
        pools.state(c.store.pools@[a]) == Some(ps),
        ps.total_shares > 0,
        ps.tokens@.len() == 2,
        ps.reserves@.len() == 2,
        leg_price_spec(oracle, oracle.base, Asset::Stellar(ps.tokens@[0]), now) == Some(p0),
        leg_price_spec(oracle, oracle.base, Asset::Stellar(ps.tokens@[1]), now) == Some(p1),
        share_value(ps.reserves@[0], p0.price as int, ps.reserves@[1], p1.price as int) / (
        ps.total_shares as int) <= i128::MAX,
    ensures
        lastprice_spec(c, oracle, pools, Asset::Stellar(a), now) == Ok::<Option<PriceData>, Error>(
            Some(
                PriceData {
                    price: ((ps.reserves@[0] * p0.price + ps.reserves@[1] * p1.price) / (
                    ps.total_shares as int)) as i128,
                    timestamp: p0.timestamp,
                },
            ),
        ),
{
}

/// Law: a plain asset that is neither the base asset nor a registered pool
/// share token, and that the upstream feed has no quote for, resolves to
/// soft absence, not an error.
pub proof fn lemma_unregistered_plain_asset_none(
    c: ProxyContract,
    oracle: OracleSnapshot,
    pools: PoolDirectory,
    a: Address,
    now: u64,
)
    requires
        c.store.oracle is Some,
        Asset::Stellar(a) != oracle.base,
        !c.store.pools@.contains_key(a),
        quote_of(oracle.prices@, Asset::Stellar(a)) is None,
    ensures
        lastprice_spec(c, oracle, pools, Asset::Stellar(a), now) == Ok::<Option<PriceData>, Error>(
            None,
        ),
{
}

/// Law: a registered pool with no outstanding shares has no per-share value:
/// the answer is soft absence.
pub proof fn lemma_empty_pool_none(
    c: ProxyContract,
    oracle: OracleSnapshot,
    pools: PoolDirectory,
    a: Address,
    now: u64,
)
    requires
        c.store.oracle is Some,
        Asset::Stellar(a) != oracle.base,
        c.store.pools@.contains_key(a),
        pools.state(c.store.pools@[a]) matches Some(ps) && ps.total_shares == 0,
    ensures
        lastprice_spec(c, oracle, pools, Asset::Stellar(a), now) == Ok::<Option<PriceData>, Error>(
            None,
        ),
{
}

/// Law: a registered, non-empty pool whose provider reports other than two
/// tokens or two reserves fails with `InvalidPool`.
pub proof fn lemma_misshapen_pool_invalid(
    c: ProxyContract,
    oracle: OracleSnapshot,
    pools: PoolDirectory,
    a: Address,
    now: u64,
)
    requires
        c.store.oracle is Some,
        Asset::Stellar(a) != oracle.base,
        c.store.pools@.contains_key(a),
        pools.state(c.store.pools@[a]) matches Some(ps) && ps.total_shares != 0 && (ps.tokens@.len()
            != 2 || ps.reserves@.len() != 2),
    ensures
        lastprice_spec(c, oracle, pools, Asset::Stellar(a), now) == Err::<Option<PriceData>, Error>(
            Error::InvalidPool,
        ),
{
}

/// Law: upserting a fresh key and then removing it restores the registry to
/// its prior state.
pub proof fn lemma_add_remove_pools_round_trip(m: Map<Address, Address>, k: Address, v: Address)
    requires
        !m.contains_key(k),
    ensures
        removed(upserted(m, seq![(k, v)]), seq![k]) == m,
{
    let entries: Seq<(Address, Address)> = seq![(k, v)];
    let keys: Seq<Address> = seq![k];
    assert(entries.drop_last() =~= Seq::<(Address, Address)>::empty());
    assert(upserted(m, Seq::<(Address, Address)>::empty()) == m);
    assert(upserted(m, entries) == m.insert(k, v));
    assert(keys.drop_last() =~= Seq::<Address>::empty());
    assert(removed(m.insert(k, v), Seq::<Address>::empty()) == m.insert(k, v));
    assert(removed(upserted(m, entries), keys) == m.insert(k, v).remove(k));
    assert(m.insert(k, v).remove(k) =~= m);
}

} // verus!
