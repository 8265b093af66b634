//! A counter that its authority can advance.

use vstd::prelude::*;
use crate::errors::ErrorCode;
use crate::identity::Identity;

verus! {

/// A counter and the identity that may advance it.
#[derive(Clone, Copy, Debug, PartialEq, Eq)]
pub struct Counter {
    /// Who may advance the counter.
    pub authority: Identity,
    /// How often it has been advanced.
    pub count: u64,
}

/// What the creation of a counter works on: the identity that creates it,
/// and the record to fill.
#[derive(Clone, Copy, Debug, PartialEq, Eq)]
pub struct CreateCounter {
    /// Who creates the counter, and will be its authority.
    pub authority: Identity,
    /// The record of the new counter.
    pub counter: Counter,
}

/// What an advance of a counter works on: the identity that advances it, and
/// the counter.
#[derive(Clone, Copy, Debug, PartialEq, Eq)]
pub struct UpdateCounter {
    /// Who advances the counter.
    pub authority: Identity,
    /// The counter.
    pub counter: Counter,
}

impl UpdateCounter {
    /// The counter belongs to the identity that advances it.
    pub open spec fn wf(&self) -> bool {
        self.counter.authority == self.authority
    }
}

/// Creates the counter: it belongs to the creator and stands at 0.
pub fn create_counter(ctx: &mut CreateCounter) -> (result: Result<(), ErrorCode>)
    ensures
        result == Ok::<(), ErrorCode>(()),
        final(ctx).authority == old(ctx).authority,
        final(ctx).counter.authority == old(ctx).authority,
        final(ctx).counter.count == 0,
{
    ctx.counter.authority = ctx.authority;
    ctx.counter.count = 0;
    Ok(())
}

/// Advances the counter by 1. A counter that stands at the largest 64-bit
/// number is left as it is.
pub fn update_counter(ctx: &mut UpdateCounter) -> (result: Result<(), ErrorCode>)
    requires
        old(ctx).wf(),
    ensures
        final(ctx).wf(),
        final(ctx).authority == old(ctx).authority,
        old(ctx).counter.count == u64::MAX ==> {
            &&& result == Err::<(), ErrorCode>(ErrorCode::ArithmeticOverflow)
            &&& *final(ctx) == *old(ctx)
        },
        old(ctx).counter.count < u64::MAX ==> {
            &&& result == Ok::<(), ErrorCode>(())
            &&& final(ctx).counter.count == old(ctx).counter.count + 1
        },
{
    match ctx.counter.count.checked_add(1) {
        Some(count) => {
            ctx.counter.count = count;
            Ok(())
        },
        None => Err(ErrorCode::ArithmeticOverflow),
    }
}

} // verus!
