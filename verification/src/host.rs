//! The host context: the one value that holds every service the guest can
//! reach, each behind its own narrow interface.

use vstd::prelude::*;
use crate::delay::{DelayCtx, DelayView};
use crate::gpio::{GpioCtx, GpioView};
use crate::spi::{SpiCtx, SpiView};

verus! {

/// The state of the host for one guest.
pub struct HostState {
    pub spi_ctx: SpiCtx,
    pub gpio_ctx: GpioCtx,
    pub delay_ctx: DelayCtx,
}

impl HostState {
    /// A host with no bus device open and the given lines registered.
    pub fn new(gpio_ctx: GpioCtx) -> (host: HostState)
        ensures
            host.spi_ctx.handles() == Map::<u32, u8>::empty(),
            host.spi_ctx.configured() is None,
            host.gpio_ctx == gpio_ctx,
    {
        HostState { spi_ctx: SpiCtx::new(), gpio_ctx, delay_ctx: DelayCtx {  } }
    }
}

impl SpiView for HostState {
    open spec fn spi_state(&self) -> SpiCtx {
        self.spi_ctx
    }

    fn spi_ctx(&mut self) -> (ctx: &mut SpiCtx)
        ensures
            final(self).gpio_ctx == old(self).gpio_ctx,
            final(self).delay_ctx == old(self).delay_ctx,
    {
        &mut self.spi_ctx
    }
}

impl GpioView for HostState {
    open spec fn gpio_state(&self) -> GpioCtx {
        self.gpio_ctx
    }

    fn gpio_ctx(&mut self) -> (ctx: &mut GpioCtx)
        ensures
            final(self).spi_ctx == old(self).spi_ctx,
            final(self).delay_ctx == old(self).delay_ctx,
    {
        &mut self.gpio_ctx
    }
}

impl DelayView for HostState {
    open spec fn delay_state(&self) -> DelayCtx {
        self.delay_ctx
    }

    fn delay_ctx(&mut self) -> (ctx: &mut DelayCtx)
        ensures
            final(self).spi_ctx == old(self).spi_ctx,
            final(self).gpio_ctx == old(self).gpio_ctx,
    {
        &mut self.delay_ctx
    }
}

} // verus!
