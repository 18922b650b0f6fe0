//! The data model: assets, price samples, configuration, and the error
//! taxonomy of fatal conditions.

use vstd::prelude::*;

verus! {

/// Number of fractional decimal digits of every price this crate returns,
/// whatever the upstream feed reports for itself.
pub const DECIMALS: u32 = 14;

/// `10^DECIMALS`: the fixed-point representation of one normalized unit.
pub const PRICE_ONE: i128 = 100_000_000_000_000;

/// An opaque address-like identifier for accounts, contracts and tokens.
pub type Address = u64;

/// A priceable thing. Only the `Stellar` variant, carrying a token address,
/// is supported by this system; any other variant is structurally valid but
/// unsupported. Equality is structural.
#[derive(Clone, Copy, Debug, PartialEq, Eq, Structural)]
pub enum Asset {
    /// A native token, identified by its address.
    Stellar(Address),
    /// Any other asset class, identified by an opaque symbol code.
    Other(u64),
}

/// A price sample: a fixed-point value with [`DECIMALS`] fractional digits,
/// and the sample's timestamp in seconds. The price is non-negative whenever
/// a sample is present.
#[derive(Clone, Copy, Debug, PartialEq, Eq, Structural)]
pub struct PriceData {
    pub price: i128,
    pub timestamp: u64,
}

/// The configuration parameters handed to the one-time initialization.
pub struct ConfigData {
    /// The admin address.
    pub admin: Address,
    /// Supported pools: pool share token address -> pool contract address.
    pub pools: std::collections::HashMap<Address, Address>,
    /// Upstream oracle contract address.
    pub oracle: Address,
}

/// The fatal error conditions; each aborts the whole operation with no
/// partial effect. Soft absence of a price is `None`, not an error.
#[derive(Clone, Copy, Debug, PartialEq, Eq, Structural)]
pub enum Error {
    /// Initialization was attempted after one already succeeded.
    AlreadyInitialized,
    /// No admin is configured yet, or the caller is not the configured admin.
    Unauthorized,
    /// The requested asset variant is not the supported kind.
    AssetNotSupported,
    /// A registered pool reports other than two tokens or two reserves.
    InvalidPool,
}

} // verus!
