//! The delay service: a blocking wait, asked for in milliseconds or
//! nanoseconds. The wait itself is the caller's part; what is settled here
//! is how long it lasts.

use vstd::prelude::*;

verus! {

/// What the delay service owns: nothing so far.
#[derive(Clone, Copy, Debug, PartialEq, Eq, Structural)]
pub struct DelayCtx {

}

/// A wait to block for.
#[derive(Clone, Copy, Debug, PartialEq, Eq, Structural)]
pub struct Wait {
    /// Its length in nanoseconds.
    pub nanos: u64,
}

/// A host state that holds the delay service.
pub trait DelayView {
    /// The service held.
    spec fn delay_state(&self) -> DelayCtx;

    /// The service held, for the length of one capability call.
    fn delay_ctx(&mut self) -> (ctx: &mut DelayCtx)
        ensures
            *ctx == old(self).delay_state(),
            final(self).delay_state() == *final(ctx),
    ;
}

/// The delay capability, bound to a host state for one call.
pub struct DelayImpl<'a, T> {
    pub host: &'a mut T,
}

impl<'a, T: DelayView> DelayImpl<'a, T> {
    /// The wait for a delay of `ms` milliseconds.
    pub fn delay_ms(&mut self, ms: u32) -> (wait: Wait)
        ensures
            *final(final(self).host) == *final(old(self).host),
            wait.nanos == ms * 1_000_000,
            *final(self).host == *old(self).host,
    {
        Wait { nanos: ms as u64 * 1_000_000 }
    }

    /// The wait for a delay of `ns` nanoseconds.
    pub fn delay_ns(&mut self, ns: u64) -> (wait: Wait)
        ensures
            *final(final(self).host) == *final(old(self).host),
            wait.nanos == ns,
            *final(self).host == *old(self).host,
    {
        Wait { nanos: ns }
    }
}

} // verus!
