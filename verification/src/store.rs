//! The durable configuration store and the admin gate.
//!
//! Three named slots — admin identity, upstream oracle reference, pool
//! registry — created by the one-time initialization and mutated in place by
//! admin operations. The hosting environment persists the store between
//! invocations and verifies caller identity; `require_admin` receives the
//! authenticated caller and decides.

use vstd::prelude::*;

verus! {

use std::collections::HashMap;
use crate::types::{Address, Error};

broadcast use vstd::std_specs::hash::group_hash_axioms;

/// The configuration slots. `admin` is set exactly once, by initialization;
/// its presence is what "initialized" means.
pub struct ConfigStore {
    /// The admin identity; `None` until initialization.
    pub admin: Option<Address>,
    /// The upstream oracle reference; `None` until initialization.
    pub oracle: Option<Address>,
    /// The pool registry: pool share token address -> pool contract address.
    /// Empty until set.
    pub pools: HashMap<Address, Address>,
}

impl ConfigStore {
    /// A fresh store, before any initialization.
    pub fn new() -> (r: ConfigStore)
        ensures
            r.admin is None,
            r.oracle is None,
            r.pools@ == Map::<Address, Address>::empty(),
    {
        ConfigStore { admin: None, oracle: None, pools: HashMap::new() }
    }

    /// Whether initialization has happened: an admin value is present.
    pub fn is_initialized(&self) -> (r: bool)
        ensures
            r == (self.admin is Some),
    {
        self.admin.is_some()
    }

    pub fn get_admin(&self) -> (r: Option<Address>)
        ensures
            r == self.admin,
    {
        self.admin
    }

    pub fn set_admin(&mut self, admin: Address)
        ensures
            final(self).admin == Some(admin),
            final(self).oracle == old(self).oracle,
            final(self).pools@ == old(self).pools@,
    {
        self.admin = Some(admin);
    }

    pub fn get_oracle(&self) -> (r: Option<Address>)
        ensures
            r == self.oracle,
    {
        self.oracle
    }

    pub fn set_oracle(&mut self, oracle: Address)
        ensures
            final(self).oracle == Some(oracle),
            final(self).admin == old(self).admin,
            final(self).pools@ == old(self).pools@,
    {
        self.oracle = Some(oracle);
    }

    pub fn set_pools(&mut self, pools: HashMap<Address, Address>)
        ensures
            final(self).pools@ == pools@,
            final(self).admin == old(self).admin,
            final(self).oracle == old(self).oracle,
    {
        self.pools = pools;
    }

    pub fn get_pools(&self) -> (r: &HashMap<Address, Address>)
        ensures
            r@ == self.pools@,
    {
        &self.pools
    }

    /// The registry entry for the share token at `token`, if it is
    /// registered.
    pub fn pool_of(&self, token: Address) -> (r: Option<Address>)
        ensures
            r == if self.pools@.contains_key(token) {
                Some(self.pools@[token])
            } else {
                None::<Address>
            },
    {
        match self.pools.get(&token) {
            Some(v) => Some(*v),
            None => None,
        }
    }

    /// The admin gate: every mutating operation except initialization passes
    /// here first. Fails with `Unauthorized` when no admin is configured yet,
    /// or when the authenticated caller is not the configured admin; the
    /// identity proof itself is the hosting environment's, which hands over
    /// `caller` only once proven.
    pub fn require_admin(&self, caller: Address) -> (r: Result<(), Error>)
        ensures
            r == if self.admin == Some(caller) {
                Ok::<(), Error>(())
            } else {
                Err::<(), Error>(Error::Unauthorized)
            },
    {
        match self.admin {
            Some(a) => {
                if a == caller {
                    Ok(())
                } else {
                    Err(Error::Unauthorized)
                }
            },
            None => Err(Error::Unauthorized),
        }
    }
}

} // verus!
