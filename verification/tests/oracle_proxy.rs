use std::collections::HashMap;

use oracle_proxy::contract::ProxyContract;
use oracle_proxy::feeds::{OracleSnapshot, PoolDirectory, PoolState};
use oracle_proxy::types::{Asset, ConfigData, Error, PriceData};

const NOW: u64 = 500;

fn snapshot(base: Asset, prices: Vec<(Asset, PriceData)>) -> OracleSnapshot {
    OracleSnapshot { base, prices, decimals: 14 }
}

fn configured_proxy(admin: u64, oracle: u64, pools: Vec<(u64, u64)>) -> ProxyContract {
    let mut proxy = ProxyContract::new();
    let mut registry = HashMap::new();
    for (k, v) in pools {
        registry.insert(k, v);
    }
    proxy
        .config(admin, ConfigData { admin, pools: registry, oracle })
        .unwrap();
    proxy
}

#[test]
fn test() {
    let asset1: u64 = 1;
    let asset2: u64 = 2;
    let oracle_address: u64 = 3;
    let pool_asset: u64 = 4;
    let pool_address: u64 = 5;
    let admin: u64 = 6;

    let oracle = snapshot(
        Asset::Stellar(99),
        vec![
            (
                Asset::Stellar(asset1),
                PriceData { price: 10i128.pow(14), timestamp: 1000 },
            ),
            (
                Asset::Stellar(asset2),
                PriceData { price: 10i128.pow(14), timestamp: 1000 },
            ),
        ],
    );
    let pools = PoolDirectory {
        pools: vec![(
            pool_address,
            PoolState {
                total_shares: 10u128.pow(7),
                tokens: vec![asset1, asset2],
                reserves: vec![10u128.pow(7), 10u128.pow(7)],
            },
        )],
    };
    let proxy = configured_proxy(admin, oracle_address, vec![(pool_asset, pool_address)]);

    assert_eq!(
        proxy
            .lastprice(&oracle, &pools, Asset::Stellar(asset1), NOW)
            .unwrap()
            .unwrap()
            .price,
        10i128.pow(14)
    );

    assert_eq!(
        proxy
            .lastprice(&oracle, &pools, Asset::Stellar(asset2), NOW)
            .unwrap()
            .unwrap()
            .price,
        10i128.pow(14)
    );

    assert_eq!(proxy.decimals(), 14);

    assert_eq!(
        proxy.lastprice(&oracle, &pools, Asset::Stellar(77), NOW),
        Ok(None)
    );

    let price = proxy
        .lastprice(&oracle, &pools, Asset::Stellar(pool_asset), NOW)
        .unwrap();

    assert_eq!(price.unwrap().price, 10i128.pow(14) * 2);
}

#[test]
fn base_asset_returns_anchor() {
    let base = Asset::Stellar(9);
    let oracle = snapshot(base, vec![]);
    let pools = PoolDirectory { pools: vec![] };
    let proxy = configured_proxy(6, 3, vec![]);

    assert_eq!(
        proxy.lastprice(&oracle, &pools, base, NOW),
        Ok(Some(PriceData { price: 100_000_000_000_000, timestamp: NOW }))
    );
    assert_eq!(proxy.base(&oracle), Ok(base));
}

#[test]
fn other_variant_as_base_returns_anchor() {
    let base = Asset::Other(42);
    let oracle = snapshot(base, vec![]);
    let pools = PoolDirectory { pools: vec![] };
    let proxy = configured_proxy(6, 3, vec![]);

    assert_eq!(
        proxy.lastprice(&oracle, &pools, base, NOW),
        Ok(Some(PriceData { price: 100_000_000_000_000, timestamp: NOW }))
    );
}

#[test]
fn unsupported_asset_variant_fails() {
    let oracle = snapshot(Asset::Stellar(9), vec![]);
    let pools = PoolDirectory { pools: vec![] };
    let proxy = configured_proxy(6, 3, vec![]);

    assert_eq!(
        proxy.lastprice(&oracle, &pools, Asset::Other(8), NOW),
        Err(Error::AssetNotSupported)
    );
}

#[test]
fn reads_before_initialization_are_unauthorized() {
    let oracle = snapshot(Asset::Stellar(9), vec![]);
    let pools = PoolDirectory { pools: vec![] };
    let proxy = ProxyContract::new();

    assert_eq!(
        proxy.lastprice(&oracle, &pools, Asset::Stellar(1), NOW),
        Err(Error::Unauthorized)
    );
    assert_eq!(proxy.base(&oracle), Err(Error::Unauthorized));
}

#[test]
fn empty_pool_has_no_price() {
    let oracle = snapshot(
        Asset::Stellar(9),
        vec![(Asset::Stellar(1), PriceData { price: 5, timestamp: 10 })],
    );
    let pools = PoolDirectory {
        pools: vec![(
            5,
            PoolState { total_shares: 0, tokens: vec![1, 1], reserves: vec![2, 2] },
        )],
    };
    let proxy = configured_proxy(6, 3, vec![(4, 5)]);

    assert_eq!(
        proxy.lastprice(&oracle, &pools, Asset::Stellar(4), NOW),
        Ok(None)
    );
}

#[test]
fn misshapen_pool_is_invalid() {
    let oracle = snapshot(
        Asset::Stellar(9),
        vec![(Asset::Stellar(1), PriceData { price: 5, timestamp: 10 })],
    );
    let three_tokens = PoolDirectory {
        pools: vec![(
            5,
            PoolState { total_shares: 10, tokens: vec![1, 1, 1], reserves: vec![2, 2] },
        )],
    };
    let one_reserve = PoolDirectory {
        pools: vec![(
            5,
            PoolState { total_shares: 10, tokens: vec![1, 1], reserves: vec![2] },
        )],
    };
    let proxy = configured_proxy(6, 3, vec![(4, 5)]);

    assert_eq!(
        proxy.lastprice(&oracle, &three_tokens, Asset::Stellar(4), NOW),
        Err(Error::InvalidPool)
    );
    assert_eq!(
        proxy.lastprice(&oracle, &one_reserve, Asset::Stellar(4), NOW),
        Err(Error::InvalidPool)
    );
}

#[test]
fn pool_with_unpriced_leg_has_no_price() {
    // only token 1 is quoted; token 2 has no upstream price
    let oracle = snapshot(
        Asset::Stellar(9),
        vec![(Asset::Stellar(1), PriceData { price: 5, timestamp: 10 })],
    );
    let pools = PoolDirectory {
        pools: vec![(
            5,
            PoolState { total_shares: 10, tokens: vec![1, 2], reserves: vec![2, 2] },
        )],
    };
    let proxy = configured_proxy(6, 3, vec![(4, 5)]);

    assert_eq!(
        proxy.lastprice(&oracle, &pools, Asset::Stellar(4), NOW),
        Ok(None)
    );
}

#[test]
fn pool_price_is_floored_weighted_value() {
    // (7 * 10 + 3 * 7) / 4 = floor(91 / 4) = 22, with the first leg's timestamp
    let oracle = snapshot(
        Asset::Stellar(9),
        vec![
            (Asset::Stellar(1), PriceData { price: 10, timestamp: 111 }),
            (Asset::Stellar(2), PriceData { price: 7, timestamp: 222 }),
        ],
    );
    let pools = PoolDirectory {
        pools: vec![(
            5,
            PoolState { total_shares: 4, tokens: vec![1, 2], reserves: vec![7, 3] },
        )],
    };
    let proxy = configured_proxy(6, 3, vec![(4, 5)]);

    assert_eq!(
        proxy.lastprice(&oracle, &pools, Asset::Stellar(4), NOW),
        Ok(Some(PriceData { price: 22, timestamp: 111 }))
    );
}

#[test]
fn pool_with_base_asset_leg_uses_anchor() {
    // token 1 is the base asset itself: its leg is the anchor price 10^14
    let base = Asset::Stellar(1);
    let oracle = snapshot(
        base,
        vec![(Asset::Stellar(2), PriceData { price: 10i128.pow(14), timestamp: 1000 })],
    );
    let pools = PoolDirectory {
        pools: vec![(
            5,
            PoolState { total_shares: 2, tokens: vec![1, 2], reserves: vec![2, 2] },
        )],
    };
    let proxy = configured_proxy(6, 3, vec![(4, 5)]);

    assert_eq!(
        proxy.lastprice(&oracle, &pools, Asset::Stellar(4), NOW),
        Ok(Some(PriceData { price: 2 * 10i128.pow(14), timestamp: NOW }))
    );
}

#[test]
fn quotient_beyond_price_width_is_absent() {
    // u128::MAX * 1 / 1 exceeds i128::MAX: the narrowing fails softly
    let oracle = snapshot(
        Asset::Stellar(9),
        vec![
            (Asset::Stellar(1), PriceData { price: 1, timestamp: 10 }),
            (Asset::Stellar(2), PriceData { price: 0, timestamp: 10 }),
        ],
    );
    let pools = PoolDirectory {
        pools: vec![(
            5,
            PoolState { total_shares: 1, tokens: vec![1, 2], reserves: vec![u128::MAX, 0] },
        )],
    };
    let proxy = configured_proxy(6, 3, vec![(4, 5)]);

    assert_eq!(
        proxy.lastprice(&oracle, &pools, Asset::Stellar(4), NOW),
        Ok(None)
    );
}

#[test]
fn huge_reserve_value_is_absent_not_wrong() {
    // both reserve values near 2^255: the 256-bit sum divided by one share
    // is far beyond the price width, so the answer is soft absence
    let oracle = snapshot(
        Asset::Stellar(9),
        vec![
            (Asset::Stellar(1), PriceData { price: i128::MAX, timestamp: 10 }),
            (Asset::Stellar(2), PriceData { price: i128::MAX, timestamp: 10 }),
        ],
    );
    let pools = PoolDirectory {
        pools: vec![(
            5,
            PoolState {
                total_shares: 1,
                tokens: vec![1, 2],
                reserves: vec![u128::MAX, u128::MAX],
            },
        )],
    };
    let proxy = configured_proxy(6, 3, vec![(4, 5)]);

    assert_eq!(
        proxy.lastprice(&oracle, &pools, Asset::Stellar(4), NOW),
        Ok(None)
    );
}

#[test]
fn wide_division_is_exact_above_128_bits() {
    // reserves * price overflows 128 bits, yet the per-share quotient is
    // small: 2^127 * 4 / 32 = 2^124
    let oracle = snapshot(
        Asset::Stellar(9),
        vec![
            (Asset::Stellar(1), PriceData { price: 4, timestamp: 10 }),
            (Asset::Stellar(2), PriceData { price: 0, timestamp: 10 }),
        ],
    );
    let pools = PoolDirectory {
        pools: vec![(
            5,
            PoolState {
                total_shares: 32,
                tokens: vec![1, 2],
                reserves: vec![1u128 << 127, 0],
            },
        )],
    };
    let proxy = configured_proxy(6, 3, vec![(4, 5)]);

    assert_eq!(
        proxy.lastprice(&oracle, &pools, Asset::Stellar(4), NOW),
        Ok(Some(PriceData { price: 1i128 << 124, timestamp: 10 }))
    );
}

#[test]
fn decimals_ignores_upstream_report() {
    let proxy = configured_proxy(6, 3, vec![]);
    let oracle = snapshot(Asset::Stellar(9), vec![]);
    assert_eq!(oracle.decimals, 14);

    let odd = OracleSnapshot { base: Asset::Stellar(9), prices: vec![], decimals: 7 };
    assert_eq!(odd.decimals, 7);
    assert_eq!(proxy.decimals(), 14);
}

#[test]
fn mutating_operations_require_admin() {
    let admin: u64 = 6;
    let intruder: u64 = 7;

    let mut fresh = ProxyContract::new();
    assert_eq!(fresh.set_oracle(admin, 3), Err(Error::Unauthorized));
    assert_eq!(fresh.add_pools(admin, vec![(4, 5)]), Err(Error::Unauthorized));
    assert_eq!(fresh.remove_pools(admin, vec![4]), Err(Error::Unauthorized));

    let mut proxy = configured_proxy(admin, 3, vec![(4, 5)]);
    assert_eq!(proxy.set_oracle(intruder, 8), Err(Error::Unauthorized));
    assert_eq!(proxy.add_pools(intruder, vec![(40, 50)]), Err(Error::Unauthorized));
    assert_eq!(proxy.remove_pools(intruder, vec![4]), Err(Error::Unauthorized));

    // the failed gates left the configuration untouched
    assert_eq!(proxy.store.get_oracle(), Some(3));
    assert_eq!(proxy.store.pool_of(4), Some(5));
    assert_eq!(proxy.store.pool_of(40), None);
}

#[test]
fn initialization_happens_at_most_once() {
    let admin: u64 = 6;
    let mut proxy = ProxyContract::new();
    assert!(!proxy.store.is_initialized());

    // the caller must authenticate as the configured admin
    let mut cfg = ConfigData { admin, pools: HashMap::new(), oracle: 3 };
    assert_eq!(proxy.config(7, cfg), Err(Error::Unauthorized));
    assert!(!proxy.store.is_initialized());

    cfg = ConfigData { admin, pools: HashMap::new(), oracle: 3 };
    assert_eq!(proxy.config(admin, cfg), Ok(()));
    assert!(proxy.store.is_initialized());
    assert_eq!(proxy.store.get_admin(), Some(admin));
    assert_eq!(proxy.store.get_oracle(), Some(3));

    // a second initialization fails and changes nothing
    cfg = ConfigData { admin: 8, pools: HashMap::new(), oracle: 9 };
    assert_eq!(proxy.config(8, cfg), Err(Error::AlreadyInitialized));
    assert_eq!(proxy.store.get_admin(), Some(admin));
    assert_eq!(proxy.store.get_oracle(), Some(3));
}

#[test]
fn set_oracle_overwrites_reference() {
    let admin: u64 = 6;
    let mut proxy = configured_proxy(admin, 3, vec![]);
    assert_eq!(proxy.set_oracle(admin, 8), Ok(()));
    assert_eq!(proxy.store.get_oracle(), Some(8));
}

#[test]
fn add_then_remove_pools_round_trips() {
    let admin: u64 = 6;
    let mut proxy = configured_proxy(admin, 3, vec![(1, 10)]);

    assert_eq!(proxy.store.pool_of(2), None);
    assert_eq!(proxy.add_pools(admin, vec![(2, 20)]), Ok(()));
    assert_eq!(proxy.store.pool_of(2), Some(20));
    assert_eq!(proxy.remove_pools(admin, vec![2]), Ok(()));
    assert_eq!(proxy.store.pool_of(2), None);

    // the pre-existing entry is untouched
    assert_eq!(proxy.store.pool_of(1), Some(10));
}

#[test]
fn add_pools_upserts_and_remove_pools_ignores_absent_keys() {
    let admin: u64 = 6;
    let mut proxy = configured_proxy(admin, 3, vec![(1, 10)]);

    // overwriting an existing key is no error
    assert_eq!(proxy.add_pools(admin, vec![(1, 11), (2, 20)]), Ok(()));
    assert_eq!(proxy.store.pool_of(1), Some(11));
    assert_eq!(proxy.store.pool_of(2), Some(20));

    // removing an absent key is no error
    assert_eq!(proxy.remove_pools(admin, vec![9, 2]), Ok(()));
    assert_eq!(proxy.store.pool_of(2), None);
    assert_eq!(proxy.store.pool_of(1), Some(11));
}
