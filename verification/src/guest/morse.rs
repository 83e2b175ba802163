//! The blinking guest: it spells SOS on the LED of the host, over and over.
//!
//! What the guest asks of the host is a list of [`Signal`]s; the caller makes
//! the calls in order.

use vstd::prelude::*;

verus! {

/// One call of the blinking guest on the host.
#[derive(Clone, Copy, Debug, PartialEq, Eq, Structural)]
pub enum Signal {
    /// LED on.
    On,
    /// LED off.
    Off,
    /// Wait that many milliseconds.
    Delay(u32),
}

/// A short flash and the gap after it.
pub open spec fn dot_signals() -> Seq<Signal> {
    seq![Signal::On, Signal::Delay(100), Signal::Off, Signal::Delay(100)]
}

/// A long flash and the gap after it.
pub open spec fn dash_signals() -> Seq<Signal> {
    seq![Signal::On, Signal::Delay(400), Signal::Off, Signal::Delay(100)]
}

/// `unit` said `n` times in a row.
pub open spec fn repeated(unit: Seq<Signal>, n: nat) -> Seq<Signal>
    decreases n,
{
    if n == 0 {
        Seq::empty()
    } else {
        repeated(unit, (n - 1) as nat) + unit
    }
}

/// The word: three dots, three dashes, three dots, with the gaps between
/// the letters and the pause after the word.
pub open spec fn sos_signals() -> Seq<Signal> {
    repeated(dot_signals(), 3) + seq![Signal::Delay(200)] + repeated(dash_signals(), 3)
        + seq![Signal::Delay(200)] + repeated(dot_signals(), 3) + seq![Signal::Delay(1000)]
}

/// The blinking guest.
pub struct MyGuest;

impl MyGuest {
    /// The calls of a dot.
    pub fn dot() -> (signals: Vec<Signal>)
        ensures
            signals@ == dot_signals(),
    {
        let signals = vec![Signal::On, Signal::Delay(100), Signal::Off, Signal::Delay(100)];
        assert(signals@ =~= dot_signals());
        signals
    }

    /// The calls of a dash.
    pub fn dash() -> (signals: Vec<Signal>)
        ensures
            signals@ == dash_signals(),
    {
        let signals = vec![Signal::On, Signal::Delay(400), Signal::Off, Signal::Delay(100)];
        assert(signals@ =~= dash_signals());
        signals
    }

    fn say(signals: &mut Vec<Signal>, unit: &Vec<Signal>, times: usize)
        ensures
            final(signals)@ == old(signals)@ + repeated(unit@, times as nat),
    {
        let mut said: usize = 0;
        assert(signals@ =~= old(signals)@ + repeated(unit@, 0));
        while said < times
            invariant
                said <= times,
                signals@ == old(signals)@ + repeated(unit@, said as nat),
            decreases times - said,
        {
            let ghost before = signals@;
            let mut i: usize = 0;
            while i < unit.len()
                invariant
                    i <= unit.len(),
                    signals@ == before + unit@.subrange(0, i as int),
                decreases unit.len() - i,
            {
                signals.push(unit[i]);
                assert(signals@ =~= before + unit@.subrange(0, i + 1));
                i += 1;
            }
            assert(unit@.subrange(0, unit.len() as int) =~= unit@);
            said += 1;
            assert(signals@ =~= old(signals)@ + repeated(unit@, said as nat));
        }
    }

    /// The calls of one SOS.
    pub fn sos() -> (signals: Vec<Signal>)
        ensures
            signals@ == sos_signals(),
    {
        let dot = Self::dot();
        let dash = Self::dash();
        let mut signals: Vec<Signal> = Vec::new();
        Self::say(&mut signals, &dot, 3);
        signals.push(Signal::Delay(200));
        Self::say(&mut signals, &dash, 3);
        signals.push(Signal::Delay(200));
        Self::say(&mut signals, &dot, 3);
        signals.push(Signal::Delay(1000));
        assert(signals@ =~= sos_signals());
        signals
    }
}

} // verus!
