//! The signers that may authorise claims.

use vstd::prelude::*;
use crate::config::PlatformConfig;
use crate::identity::{same_bytes, Identity};
use crate::store::Record;

verus! {

/// One signer's whitelist entry. Entries are keyed by `signer`: the store
/// that holds them keeps at most one per signer.
#[derive(Clone, Copy, Debug, PartialEq, Eq)]
pub struct Whitelist {
    /// The platform authority that wrote the entry.
    pub authority: Identity,
    /// The signer the entry is about.
    pub signer: Identity,
    /// Whether bundles signed by the signer are accepted.
    pub is_whitelisted: bool,
}

impl Whitelist {
    /// The entry vouches for `signer`: it is that signer's entry, and it is
    /// enabled. A signer without an entry is vouched for by none.
    pub open spec fn allows(&self, signer: Identity) -> bool {
        self.is_whitelisted && self.signer == signer
    }

    /// Whether the entry vouches for `signer`.
    pub fn permits(&self, signer: &Identity) -> (allowed: bool)
        ensures
            allowed == self.allows(*signer),
    {
        self.is_whitelisted && same_bytes(&self.signer, signer)
    }
}

/// Entries are kept by signer; what an entry holds for the signer is whether
/// it is enabled.
impl Record for Whitelist {
    type Key = Identity;

    type Value = bool;

    open spec fn key(&self) -> Identity {
        self.signer
    }

    open spec fn value(&self) -> bool {
        self.is_whitelisted
    }

    fn has_key(&self, key: &Identity) -> (same: bool) {
        same_bytes(&self.signer, key)
    }

    fn same_key(&self, other: &Whitelist) -> (same: bool) {
        same_bytes(&self.signer, &other.signer)
    }
}

/// The entry to store for `signer` so that its bundles are accepted. It
/// replaces the signer's earlier entry, if there is one. `caller` must be the
/// platform authority.
pub fn add_to_whitelist(config: &PlatformConfig, caller: &Identity, signer: Identity) -> (entry:
    Whitelist)
    requires
        *caller == config.authority,
    ensures
        entry.authority == config.authority,
        entry.signer == signer,
        entry.is_whitelisted,
        entry.allows(signer),
{
    Whitelist { authority: config.authority, signer, is_whitelisted: true }
}

/// The entry to store for `signer` so that its bundles are refused. It
/// replaces the signer's earlier entry, if there is one. `caller` must be the
/// platform authority.
pub fn remove_from_whitelist(
    config: &PlatformConfig,
    caller: &Identity,
    signer: Identity,
) -> (entry: Whitelist)
    requires
        *caller == config.authority,
    ensures
        entry.authority == config.authority,
        entry.signer == signer,
        !entry.is_whitelisted,
        !entry.allows(signer),
{
    Whitelist { authority: config.authority, signer, is_whitelisted: false }
}

} // verus!
