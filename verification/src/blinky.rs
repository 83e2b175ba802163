//! The first capability set of the host: one LED, a delay, and a list of
//! numbers as text to exercise the passing of strings.

use vstd::prelude::*;
use crate::delay::Wait;
use crate::gpio::{Level, PinCommand, PinHandle};

verus! {

/// What the blinky capability owns: the LED.
#[derive(Clone, Copy, Debug, PartialEq, Eq, Structural)]
pub struct BlinkyCtx {
    pub led: PinHandle,
}

/// A host state that holds the LED.
pub trait BlinkyView {
    /// The context held.
    spec fn blinky_state(&self) -> BlinkyCtx;

    /// The context held, for the length of one capability call.
    fn blinky_ctx(&mut self) -> (ctx: &mut BlinkyCtx)
        ensures
            *ctx == old(self).blinky_state(),
            final(self).blinky_state() == *final(ctx),
    ;
}

/// The blinky capability, bound to a host state for one call.
pub struct BlinkyImpl<'a, T> {
    pub host: &'a mut T,
}

/// The digit `d` as a character.
pub open spec fn digit(d: nat) -> char
    recommends
        d < 10,
{
    if d == 0 {
        '0'
    } else if d == 1 {
        '1'
    } else if d == 2 {
        '2'
    } else if d == 3 {
        '3'
    } else if d == 4 {
        '4'
    } else if d == 5 {
        '5'
    } else if d == 6 {
        '6'
    } else if d == 7 {
        '7'
    } else if d == 8 {
        '8'
    } else {
        '9'
    }
}

/// The number `n` in decimal, without leading zeros.
pub open spec fn decimal(n: nat) -> Seq<char>
    decreases n,
{
    if n < 10 {
        seq![digit(n)]
    } else {
        decimal(n / 10).push(digit(n % 10))
    }
}

/// `ToString::to_string` of std on a `u32`: the number in decimal digits,
/// without sign or leading zeros.
#[verifier::external_body]
fn decimal_string(n: u32) -> (text: String)
    ensures
        text@ == decimal(n as nat),
{
    n.to_string()
}

impl<'a, T: BlinkyView> BlinkyImpl<'a, T> {
    /// The LED as the host last drove it.
    pub open spec fn led(&self) -> PinHandle {
        self.host.blinky_state().led
    }

    fn switch(&mut self, level: Level) -> (command: PinCommand)
        ensures
            *final(final(self).host) == *final(old(self).host),
            final(self).led() == (PinHandle { line: old(self).led().line, level }),
            command == (PinCommand { line: old(self).led().line, level }),
    {
        let ctx = self.host.blinky_ctx();
        ctx.led.level = level;
        PinCommand { line: ctx.led.line, level }
    }

    /// Turns the LED on: its line goes high.
    pub fn on(&mut self) -> (command: PinCommand)
        ensures
            *final(final(self).host) == *final(old(self).host),
            final(self).led() == (PinHandle { line: old(self).led().line, level: Level::High }),
            command == (PinCommand { line: old(self).led().line, level: Level::High }),
    {
        self.switch(Level::High)
    }

    /// Turns the LED off: its line goes low.
    pub fn off(&mut self) -> (command: PinCommand)
        ensures
            *final(final(self).host) == *final(old(self).host),
            final(self).led() == (PinHandle { line: old(self).led().line, level: Level::Low }),
            command == (PinCommand { line: old(self).led().line, level: Level::Low }),
    {
        self.switch(Level::Low)
    }

    /// The wait for a delay of `ms` milliseconds.
    pub fn delay(&mut self, ms: u32) -> (wait: Wait)
        ensures
            *final(final(self).host) == *final(old(self).host),
            wait.nanos == ms * 1_000_000,
            *final(self).host == *old(self).host,
    {
        Wait { nanos: ms as u64 * 1_000_000 }
    }

    /// The numbers from 0 to `n`, both included, each in decimal.
    pub fn get_range_strings(&mut self, n: u32) -> (texts: Vec<String>)
        ensures
            *final(final(self).host) == *final(old(self).host),
            texts@.len() == n + 1,
            forall|i: int| 0 <= i <= n ==> (#[trigger] texts@[i])@ == decimal(i as nat),
            *final(self).host == *old(self).host,
    {
        let mut texts: Vec<String> = Vec::new();
        let mut i: u32 = 0;
        while i < n
            invariant
                i <= n,
                texts@.len() == i,
                forall|k: int| 0 <= k < i ==> (#[trigger] texts@[k])@ == decimal(k as nat),
            decreases n - i,
        {
            texts.push(decimal_string(i));
            i += 1;
        }
        texts.push(decimal_string(n));
        texts
    }
}

/// A host that holds nothing but the LED is its own context.
impl BlinkyView for BlinkyCtx {
    open spec fn blinky_state(&self) -> BlinkyCtx {
        *self
    }

    fn blinky_ctx(&mut self) -> (ctx: &mut BlinkyCtx) {
        self
    }
}

} // verus!
