//! The platform's one configuration record: who may administer it, and the
//! fee taken from deposits.

use vstd::prelude::*;
use crate::errors::ErrorCode;
use crate::identity::Identity;

verus! {

/// The largest fee ratio: 10000 basis points are the whole deposit.
pub const MAX_FEE_RATIO: u16 = 10000;

/// The platform configuration. There is one per platform; it is made once by
/// `initialize` and changed only by its authority.
#[derive(Clone, Copy, Debug, PartialEq, Eq)]
pub struct PlatformConfig {
    /// The identity that may change the fee and the whitelist.
    pub authority: Identity,
    /// The fee on deposits, in basis points.
    pub platform_fee_ratio: u16,
}

impl PlatformConfig {
    /// The fee ratio is at most the whole deposit.
    pub open spec fn wf(&self) -> bool {
        self.platform_fee_ratio <= MAX_FEE_RATIO
    }

    /// Makes the configuration, owned by `authority`, with no fee.
    pub fn initialize(authority: Identity) -> (config: PlatformConfig)
        ensures
            config.authority == authority,
            config.platform_fee_ratio == 0,
            config.wf(),
    {
        PlatformConfig { authority, platform_fee_ratio: 0 }
    }

    /// Sets the fee ratio. `caller` is the identity on whose behalf the change
    /// is made, and must be the authority. A ratio above `MAX_FEE_RATIO` is
    /// refused and changes nothing.
    pub fn update_platform_fee(&mut self, caller: &Identity, fee_ratio: u16) -> (result: Result<
        (),
        ErrorCode,
    >)
        requires
            *caller == old(self).authority,
        ensures
            fee_ratio > MAX_FEE_RATIO ==> result == Err::<(), ErrorCode>(ErrorCode::InvalidFeeRatio)
                && *final(self) == *old(self),
            fee_ratio <= MAX_FEE_RATIO ==> result == Ok::<(), ErrorCode>(())
                && final(self).platform_fee_ratio == fee_ratio
                && final(self).authority == old(self).authority
                && final(self).wf(),
    {
        if fee_ratio > MAX_FEE_RATIO {
            return Err(ErrorCode::InvalidFeeRatio);
        }
        self.platform_fee_ratio = fee_ratio;
        Ok(())
    }
}

} // verus!
