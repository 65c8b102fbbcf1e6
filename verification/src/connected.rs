//! A context together with the backing store it is loaded from.

use vstd::prelude::*;

verus! {

/// A context, or a transaction on one, paired with the provider of its
/// backing store, so that whoever has the one has the other at hand.
pub struct Connected<C, P> {
    /// The tables and derived values, or a transaction on them.
    pub ctx: C,
    /// The handle of the backing store.
    pub provider: P,
}

impl<C, P> Connected<C, P> {
    /// Pairs `ctx` with `provider`.
    pub fn new(ctx: C, provider: P) -> (r: Self)
        ensures
            r.ctx == ctx,
            r.provider == provider,
    {
        Connected { ctx, provider }
    }

    /// The same pair by reference: what a reader holds.
    pub fn by_ref(&self) -> (r: Connected<&C, &P>)
        ensures
            *r.ctx == self.ctx,
            *r.provider == self.provider,
    {
        Connected { ctx: &self.ctx, provider: &self.provider }
    }

    /// The two parts.
    pub fn into_parts(self) -> (r: (C, P))
        ensures
            r == (self.ctx, self.provider),
    {
        (self.ctx, self.provider)
    }
}

} // verus!
