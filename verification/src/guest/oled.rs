//! Driver of a 128 by 32 monochrome OLED module on the bus.
//!
//! The driver keeps the frame in memory, one bit per pixel, and talks to the
//! module through the host: pins, delays and writes on the bus. What it asks
//! of the host it hands out as a list of [`HostCall`]s for the caller to make.

use vstd::prelude::*;
use crate::guest::script::{Effect, HostCall, HostCallView, Item, ItemView, Outcome, Pin, PinState, Plan, PlanView};
use crate::wire::{Config, Mode};

verus! {

/// Pixels in a row.
pub const WIDTH: u32 = 128;

/// Rows.
pub const HEIGHT: u32 = 32;

/// Bytes of a frame: one bit per pixel, a byte holding eight rows of one
/// column.
pub const FRAME_BYTES: usize = 512;

/// Whether a pixel is lit.
#[derive(Clone, Copy, Debug, PartialEq, Eq, Structural)]
pub enum PixelColor {
    On,
    Off,
}

/// Why an operation of the driver failed.
#[derive(Clone, Copy, Debug, PartialEq, Eq, Structural)]
pub enum DisplayError {
    /// The display is off.
    DisplayOff,
    /// The pixel is not on the screen.
    OutOfBounds,
    /// A call on the host failed.
    HardwareError,
}

/// Bit `n` of `byte`.
pub open spec fn bit(byte: u8, n: u8) -> bool {
    (byte >> n) & 1 == 1
}

/// Whether `(x, y)` is a pixel of the screen.
pub open spec fn on_screen(x: int, y: int) -> bool {
    0 <= x < WIDTH && 0 <= y < HEIGHT
}

/// Whether the pixel `(x, y)` is lit in a frame.
pub open spec fn lit(frame: Seq<u8>, x: int, y: int) -> bool
    recommends
        frame.len() == FRAME_BYTES,
        on_screen(x, y),
{
    bit(frame[x + (y / 8) * 128], (y % 8) as u8)
}

/// The driver's state as a mathematical value.
pub struct DisplayView {
    /// The frame in memory.
    pub frame: Seq<u8>,
    /// Whether the module is powered and initialised.
    pub is_on: bool,
}

impl DisplayView {
    /// Whether the pixel `(x, y)` is lit in the frame in memory.
    pub open spec fn lit(self, x: int, y: int) -> bool {
        lit(self.frame, x, y)
    }

    /// The same state with the pixel `(x, y)` set to `color`.
    pub open spec fn painted(self, other: DisplayView, x: int, y: int, color: PixelColor) -> bool {
        &&& other.is_on == self.is_on
        &&& other.frame.len() == self.frame.len()
        &&& forall|px: int, py: int| #![trigger other.lit(px, py)]
            on_screen(px, py) ==> other.lit(px, py) == if px == x && py == y {
                color is On
            } else {
                self.lit(px, py)
            }
    }
}

/// The OLED module and its frame in memory.
#[derive(Debug)]
pub struct Display {
    buffer: Vec<u8>,
    is_on: bool,
}

impl View for Display {
    type V = DisplayView;

    closed spec fn view(&self) -> DisplayView {
        DisplayView { frame: self.buffer@, is_on: self.is_on }
    }
}

proof fn lemma_set_bit(byte: u8, b: u8, c: u8)
    by (bit_vector)
    requires
        b < 8,
        c < 8,
    ensures
        (((byte | (1u8 << b)) >> c) & 1 == 1) == (if c == b {
            true
        } else {
            (byte >> c) & 1 == 1
        }),
        (((byte & !(1u8 << b)) >> c) & 1 == 1) == (if c == b {
            false
        } else {
            (byte >> c) & 1 == 1
        }),
{
}

proof fn lemma_zero_bits(c: u8)
    by (bit_vector)
    requires
        c < 8,
    ensures
        (0u8 >> c) & 1 == 0,
{
}

impl Display {
    #[verifier::type_invariant]
    spec fn inv(self) -> bool {
        self.buffer.len() == FRAME_BYTES
    }

    /// A display that is off, with a dark frame.
    pub fn new() -> (display: Display)
        ensures
            display@ == (DisplayView { frame: dark(), is_on: false }),
            forall|x: int, y: int| on_screen(x, y) ==> !#[trigger] display@.lit(x, y),
    {
        let buffer = Self::dark_frame();
        Display { buffer, is_on: false }
    }

    fn dark_frame() -> (buffer: Vec<u8>)
        ensures
            buffer@ == dark(),
            forall|x: int, y: int| on_screen(x, y) ==> !#[trigger] lit(buffer@, x, y),
    {
        let mut buffer: Vec<u8> = Vec::new();
        let mut i: usize = 0;
        while i < FRAME_BYTES
            invariant
                i <= FRAME_BYTES,
                buffer.len() == i,
                forall|k: int| 0 <= k < i ==> buffer[k] == 0,
            decreases FRAME_BYTES - i,
        {
            buffer.push(0);
            i += 1;
        }
        proof {
            assert forall|x: int, y: int| on_screen(x, y) implies !#[trigger] lit(
                buffer@,
                x,
                y,
            ) by {
                lemma_zero_bits((y % 8) as u8);
            }
            assert(buffer@ =~= dark());
        }
        buffer
    }

    fn take(&mut self) -> (taken: Display)
        ensures
            taken == *old(self),
    {
        let mut taken = Display { buffer: Self::dark_frame(), is_on: false };
        core::mem::swap(self, &mut taken);
        taken
    }

    /// Whether the module is powered and initialised.
    pub fn is_on(&self) -> (on: bool)
        ensures
            on == self@.is_on,
            self@.frame.len() == FRAME_BYTES,
    {
        proof {
            use_type_invariant(self);
        }
        self.is_on
    }

    /// Pixels in a row.
    pub fn width(&self) -> (w: u32)
        ensures
            w == WIDTH,
    {
        WIDTH
    }

    /// Rows.
    pub fn height(&self) -> (h: u32)
        ensures
            h == HEIGHT,
    {
        HEIGHT
    }

    /// Whether the pixel `(x, y)` is lit in the frame in memory.
    pub fn pixel(&self, x: u32, y: u32) -> (on: bool)
        requires
            on_screen(x as int, y as int),
        ensures
            on == self@.lit(x as int, y as int),
    {
        proof {
            use_type_invariant(self);
        }
        let idx: usize = x as usize + (y as usize / 8) * 128;
        let n: u8 = (y % 8) as u8;
        (self.buffer[idx] >> n) & 1 == 1
    }

    /// Darkens the frame in memory. A display that is off refuses.
    pub fn clear(&mut self) -> (done: Result<(), DisplayError>)
        ensures
            final(self)@.is_on == old(self)@.is_on,
            final(self)@.frame.len() == FRAME_BYTES,
            old(self)@.is_on ==> done is Ok && final(self)@.frame == dark() && forall|
                x: int,
                y: int,
            | on_screen(x, y) ==> !#[trigger] final(self)@.lit(x, y),
            !old(self)@.is_on ==> done == Err::<(), DisplayError>(DisplayError::DisplayOff)
                && final(self)@ == old(self)@,
    {
        proof {
            use_type_invariant(&*self);
        }
        if !self.is_on {
            return Err(DisplayError::DisplayOff);
        }
        *self = Display { buffer: Self::dark_frame(), is_on: true };
        Ok(())
    }

    /// Sets one pixel of the frame in memory.
    ///
    /// A display that is off refuses with `DisplayOff`, a pixel outside the
    /// screen is refused with `OutOfBounds`; neither changes anything.
    /// Otherwise the pixel takes the colour and every other pixel keeps its
    /// own.
    pub fn set_pixel(&mut self, x: i32, y: i32, color: PixelColor) -> (done: Result<
        (),
        DisplayError,
    >)
        ensures
            done == set_pixel_verdict(old(self)@.is_on, x as int, y as int),
            done is Ok ==> old(self)@.painted(final(self)@, x as int, y as int, color),
            done is Err ==> final(self)@ == old(self)@,
    {
        proof {
            use_type_invariant(&*self);
        }
        if !self.is_on {
            return Err(DisplayError::DisplayOff);
        }
        if x < 0 || x >= 128 || y < 0 || y >= 32 {
            return Err(DisplayError::OutOfBounds);
        }
        let idx: usize = x as usize + (y as usize / 8) * 128;
        let n: u8 = (y % 8) as u8;
        let Display { mut buffer, is_on } = self.take();
        let before: u8 = buffer[idx];
        let after: u8 = match color {
            PixelColor::On => before | (1u8 << n),
            PixelColor::Off => before & !(1u8 << n),
        };
        buffer.set(idx, after);
        proof {
            assert forall|px: int, py: int| on_screen(px, py) implies #[trigger] lit(
                buffer@,
                px,
                py,
            ) == if px == x && py == y {
                color is On
            } else {
                lit(old(self).buffer@, px, py)
            } by {
                let pidx = px + (py / 8) * 128;
                let c = (py % 8) as u8;
                if pidx == idx {
                    lemma_set_bit(before, n, c);
                }
            }
        }
        *self = Display { buffer, is_on };
        Ok(())
    }
}

/// Whether a pixel can be set: not while the display is off, and not outside
/// the screen.
pub open spec fn set_pixel_verdict(is_on: bool, x: int, y: int) -> Result<(), DisplayError> {
    if !is_on {
        Err(DisplayError::DisplayOff)
    } else if !on_screen(x, y) {
        Err(DisplayError::OutOfBounds)
    } else {
        Ok(())
    }
}

/// A call whose failure ends the operation.
pub open spec fn required(call: HostCallView) -> ItemView {
    ItemView { call, required: true }
}

/// A call whose failure is passed over.
pub open spec fn optional(call: HostCallView) -> ItemView {
    ItemView { call, required: false }
}

/// The calls that send one command byte: the data/command line goes
/// inactive, then the byte is written.
pub open spec fn command(c: u8) -> Seq<ItemView> {
    seq![
        required(HostCallView::SetPin(Pin::Dc, PinState::Inactive)),
        required(HostCallView::Write(seq![c])),
    ]
}

/// The calls that send these command bytes one by one.
pub open spec fn commands(bytes: Seq<u8>) -> Seq<ItemView>
    decreases bytes.len(),
{
    if bytes.len() == 0 {
        Seq::empty()
    } else {
        commands(bytes.drop_last()) + command(bytes.last())
    }
}

/// The commands that initialise the module.
pub open spec fn init_sequence() -> Seq<u8> {
    seq![
        0xAE,
        0x2E,
        0xD5,
        0x80,
        0xA8,
        0x1F,
        0xD3,
        0x00,
        0x40,
        0x8D,
        0x14,
        0x20,
        0x00,
        0xA1,
        0xC8,
        0xDA,
        0x02,
        0x81,
        0x8F,
        0xD9,
        0xF1,
        0xDB,
        0x40,
        0xA4,
        0xA6,
    ]
}

/// The commands that address the whole screen: columns 0 to 127, pages 0
/// to 3.
pub open spec fn window() -> Seq<u8> {
    seq![0x21, 0, 127, 0x22, 0, 3]
}

/// The calls that bring the module from no power to ready for commands.
/// Nothing in them is checked.
pub open spec fn power_up() -> Seq<ItemView> {
    seq![
        optional(HostCallView::SetPin(Pin::Vbatc, PinState::Inactive)),
        optional(HostCallView::SetPin(Pin::Vddc, PinState::Inactive)),
        optional(HostCallView::DelayMs(100)),
        optional(HostCallView::SetPin(Pin::Vddc, PinState::Active)),
        optional(HostCallView::DelayMs(100)),
        optional(HostCallView::SetPin(Pin::Vbatc, PinState::Active)),
        optional(HostCallView::DelayMs(100)),
        optional(HostCallView::SetPin(Pin::Res, PinState::Inactive)),
        optional(HostCallView::DelayMs(1)),
        optional(HostCallView::SetPin(Pin::Res, PinState::Active)),
        optional(HostCallView::DelayMs(10)),
        optional(HostCallView::SetPin(Pin::Res, PinState::Inactive)),
    ]
}

/// The calls that send a frame: the window, then the data/command line
/// active and all bytes of the frame in one write.
pub open spec fn frame_calls(frame: Seq<u8>) -> Seq<ItemView> {
    commands(window()) + seq![
        required(HostCallView::SetPin(Pin::Dc, PinState::Active)),
        required(HostCallView::Write(frame)),
    ]
}

/// The dark frame.
pub open spec fn dark() -> Seq<u8> {
    Seq::new(FRAME_BYTES as nat, |i: int| 0u8)
}

impl DisplayView {
    /// The plan that sends one command byte.
    pub open spec fn send_cmd(self, c: u8) -> PlanView {
        PlanView { calls: command(c), commit_at: 2, effect: Effect::Keep }
    }

    /// The plan that sends the frame in memory, or `DisplayOff`.
    pub open spec fn present(self) -> Result<PlanView, DisplayError> {
        if self.is_on {
            Ok(
                PlanView {
                    calls: frame_calls(self.frame),
                    commit_at: frame_calls(self.frame).len(),
                    effect: Effect::Keep,
                },
            )
        } else {
            Err(DisplayError::DisplayOff)
        }
    }

    /// The plan that turns the display on. A display that is on has nothing
    /// to do. Otherwise the module is powered up and initialised; from
    /// there on the display counts as on with a dark frame, which is sent,
    /// and the panel is lit.
    pub open spec fn on(self) -> PlanView {
        if self.is_on {
            PlanView { calls: Seq::empty(), commit_at: 0, effect: Effect::Keep }
        } else {
            PlanView {
                calls: power_up() + commands(init_sequence()) + frame_calls(dark()) + command(0xAF),
                commit_at: (power_up() + commands(init_sequence())).len(),
                effect: Effect::TurnOn,
            }
        }
    }

    /// The plan that turns the display off. A display that is off has
    /// nothing to do. Otherwise the panel is put to sleep, and then the
    /// display counts as off.
    pub open spec fn off(self) -> PlanView {
        if !self.is_on {
            PlanView { calls: Seq::empty(), commit_at: 0, effect: Effect::Keep }
        } else {
            PlanView { calls: command(0xAE), commit_at: 2, effect: Effect::TurnOff }
        }
    }

    /// The driver after a plan ended like that.
    pub open spec fn settled(self, outcome: Outcome) -> DisplayView {
        if outcome.committed {
            match outcome.effect {
                Effect::Keep => self,
                Effect::TurnOn => DisplayView { frame: dark(), is_on: true },
                Effect::TurnOff => DisplayView { is_on: false, ..self },
            }
        } else {
            self
        }
    }
}

/// What the operation gives back when its plan ended like that.
pub open spec fn verdict(outcome: Outcome) -> Result<(), DisplayError> {
    if outcome.failed {
        Err(DisplayError::HardwareError)
    } else {
        Ok(())
    }
}

fn push_command(calls: &mut Vec<Item>, c: u8)
    ensures
        final(calls).deep_view() == old(calls).deep_view() + command(c),
{
    let mut byte: Vec<u8> = Vec::new();
    byte.push(c);
    assert(byte@ =~= seq![c]);
    calls.push(Item { call: HostCall::SetPin(Pin::Dc, PinState::Inactive), required: true });
    calls.push(Item { call: HostCall::Write(byte), required: true });
    assert(calls.deep_view() =~= old(calls).deep_view() + command(c));
}

fn push_commands(calls: &mut Vec<Item>, bytes: &Vec<u8>)
    ensures
        final(calls).deep_view() == old(calls).deep_view() + commands(bytes@),
{
    let mut i: usize = 0;
    assert(bytes@.subrange(0, 0) =~= Seq::<u8>::empty());
    while i < bytes.len()
        invariant
            i <= bytes.len(),
            calls.deep_view() == old(calls).deep_view() + commands(bytes@.subrange(0, i as int)),
        decreases bytes.len() - i,
    {
        push_command(calls, bytes[i]);
        proof {
            let next = bytes@.subrange(0, i + 1);
            assert(next.drop_last() =~= bytes@.subrange(0, i as int));
            assert(next.last() == bytes[i as int]);
            assert(calls.deep_view() =~= old(calls).deep_view() + commands(next));
        }
        i += 1;
    }
    assert(bytes@.subrange(0, bytes.len() as int) =~= bytes@);
}

fn push_optional(calls: &mut Vec<Item>, call: HostCall)
    ensures
        final(calls).deep_view() == old(calls).deep_view().push(optional(call@)),
{
    calls.push(Item { call, required: false });
    assert(calls.deep_view() =~= old(calls).deep_view().push(optional(call@)));
}

fn push_frame(calls: &mut Vec<Item>, frame: Vec<u8>)
    ensures
        final(calls).deep_view() == old(calls).deep_view() + frame_calls(frame@),
{
    let window: Vec<u8> = vec![0x21, 0, 127, 0x22, 0, 3];
    assert(window@ =~= self::window());
    push_commands(calls, &window);
    let ghost sent = calls.deep_view();
    calls.push(Item { call: HostCall::SetPin(Pin::Dc, PinState::Active), required: true });
    calls.push(Item { call: HostCall::Write(frame), required: true });
    proof {
        let tail = seq![
            required(HostCallView::SetPin(Pin::Dc, PinState::Active)),
            required(HostCallView::Write(frame@)),
        ];
        assert(sent == old(calls).deep_view() + commands(self::window()));
        assert(calls.deep_view() =~= sent + tail);
        assert(sent + tail =~= old(calls).deep_view() + (commands(self::window()) + tail));
    }
}

impl Display {
    /// What the driver asks of the bus before it talks to the module.
    pub fn bus_config() -> (config: Config)
        ensures
            config == (Config { frequency: 8_000_000, mode: Mode::Mode0, lsb_first: false }),
    {
        Config { frequency: 8_000_000, mode: Mode::Mode0, lsb_first: false }
    }

    /// The plan that sends one command byte to the module.
    pub fn send_cmd(&self, c: u8) -> (plan: Plan)
        ensures
            plan@ == self@.send_cmd(c),
    {
        let mut calls: Vec<Item> = Vec::new();
        assert(calls.deep_view() =~= Seq::<ItemView>::empty());
        push_command(&mut calls, c);
        assert(calls.deep_view() =~= command(c));
        Plan { calls, commit_at: 2, effect: Effect::Keep }
    }

    /// The plan that sends the frame in memory to the module. A display
    /// that is off refuses.
    pub fn present(&self) -> (plan: Result<Plan, DisplayError>)
        ensures
            match plan {
                Ok(p) => self@.present() == Ok::<PlanView, DisplayError>(p@),
                Err(e) => self@.present() == Err::<PlanView, DisplayError>(e),
            },
    {
        if !self.is_on {
            return Err(DisplayError::DisplayOff);
        }
        let frame = self.buffer.clone();
        assert(frame@ =~= self.buffer@);
        let mut calls: Vec<Item> = Vec::new();
        assert(calls.deep_view() =~= Seq::<ItemView>::empty());
        push_frame(&mut calls, frame);
        assert(calls.deep_view() =~= frame_calls(self.buffer@));
        let commit_at = calls.len();
        Ok(Plan { calls, commit_at, effect: Effect::Keep })
    }

    /// The plan that turns the display on.
    pub fn on(&self) -> (plan: Plan)
        ensures
            plan@ == self@.on(),
    {
        let mut calls: Vec<Item> = Vec::new();
        assert(calls.deep_view() =~= Seq::<ItemView>::empty());
        if self.is_on {
            return Plan { calls, commit_at: 0, effect: Effect::Keep };
        }
        push_optional(&mut calls, HostCall::SetPin(Pin::Vbatc, PinState::Inactive));
        push_optional(&mut calls, HostCall::SetPin(Pin::Vddc, PinState::Inactive));
        push_optional(&mut calls, HostCall::DelayMs(100));
        push_optional(&mut calls, HostCall::SetPin(Pin::Vddc, PinState::Active));
        push_optional(&mut calls, HostCall::DelayMs(100));
        push_optional(&mut calls, HostCall::SetPin(Pin::Vbatc, PinState::Active));
        push_optional(&mut calls, HostCall::DelayMs(100));
        push_optional(&mut calls, HostCall::SetPin(Pin::Res, PinState::Inactive));
        push_optional(&mut calls, HostCall::DelayMs(1));
        push_optional(&mut calls, HostCall::SetPin(Pin::Res, PinState::Active));
        push_optional(&mut calls, HostCall::DelayMs(10));
        push_optional(&mut calls, HostCall::SetPin(Pin::Res, PinState::Inactive));
        assert(calls.deep_view() =~= power_up());
        let init: Vec<u8> = vec![
            0xAE,
            0x2E,
            0xD5,
            0x80,
            0xA8,
            0x1F,
            0xD3,
            0x00,
            0x40,
            0x8D,
            0x14,
            0x20,
            0x00,
            0xA1,
            0xC8,
            0xDA,
            0x02,
            0x81,
            0x8F,
            0xD9,
            0xF1,
            0xDB,
            0x40,
            0xA4,
            0xA6,
        ];
        assert(init@ =~= init_sequence());
        push_commands(&mut calls, &init);
        let commit_at = calls.len();
        push_frame(&mut calls, Self::dark_frame());
        push_command(&mut calls, 0xAF);
        Plan { calls, commit_at, effect: Effect::TurnOn }
    }

    /// The plan that turns the display off.
    pub fn off(&self) -> (plan: Plan)
        ensures
            plan@ == self@.off(),
    {
        let mut calls: Vec<Item> = Vec::new();
        assert(calls.deep_view() =~= Seq::<ItemView>::empty());
        if !self.is_on {
            return Plan { calls, commit_at: 0, effect: Effect::Keep };
        }
        push_command(&mut calls, 0xAE);
        assert(calls.deep_view() =~= command(0xAE));
        Plan { calls, commit_at: 2, effect: Effect::TurnOff }
    }

    /// The call that waits `ms` milliseconds.
    pub fn delay_ms(&self, ms: u32) -> (call: HostCall)
        ensures
            call@ == HostCallView::DelayMs(ms as u64),
    {
        HostCall::DelayMs(ms as u64)
    }

    /// Takes the end of a plan of this driver: the driver changes as the
    /// operation says if the plan got far enough, and the operation fails
    /// with `HardwareError` if a required call did.
    pub fn settle(&mut self, outcome: Outcome) -> (done: Result<(), DisplayError>)
        ensures
            final(self)@ == old(self)@.settled(outcome),
            done == verdict(outcome),
    {
        proof {
            use_type_invariant(&*self);
        }
        if outcome.committed {
            match outcome.effect {
                Effect::Keep => {},
                Effect::TurnOn => {
                    *self = Display { buffer: Self::dark_frame(), is_on: true };
                },
                Effect::TurnOff => {
                    let Display { buffer, is_on } = self.take();
                    *self = Display { buffer, is_on: false };
                },
            }
        }
        if outcome.failed {
            Err(DisplayError::HardwareError)
        } else {
            Ok(())
        }
    }
}

} // verus!
