//! The pin registry: the digital output lines that the guest may drive, each
//! under a label.
//!
//! The registry knows which line stands behind a label and how it was driven
//! last. Driving the line itself is the caller's part: a call that changes a
//! line hands back the [`PinCommand`] to carry out.

use vstd::prelude::*;

verus! {

/// The level of a digital line.
#[derive(Clone, Copy, Debug, PartialEq, Eq, Structural)]
pub enum Level {
    High,
    Low,
}

/// An output line owned by the registry.
#[derive(Clone, Copy, Debug, PartialEq, Eq, Structural)]
pub struct PinHandle {
    /// The number of the physical line.
    pub line: u8,
    /// The level the line was driven to last.
    pub level: Level,
}

/// A line to drive, and the level to drive it to.
#[derive(Clone, Copy, Debug, PartialEq, Eq, Structural)]
pub struct PinCommand {
    pub line: u8,
    pub level: Level,
}

/// The output lines handed over at startup, by label.
pub struct GpioCtx {
    labels: Vec<String>,
    handles: Vec<PinHandle>,
}

impl GpioCtx {
    #[verifier::type_invariant]
    spec fn inv(self) -> bool {
        &&& self.labels.len() == self.handles.len()
        &&& forall|i: int, j: int|
            0 <= i < j < self.labels.len() ==> #[trigger] self.labels[i]@
                != #[trigger] self.labels[j]@
        &&& forall|i: int, j: int|
            0 <= i < j < self.handles.len() ==> #[trigger] self.handles[i].line
                != #[trigger] self.handles[j].line
    }

    spec fn holds(&self, label: Seq<char>, i: int) -> bool {
        0 <= i < self.labels.len() && self.labels[i]@ == label
    }

    /// The registry: each registered label with its line.
    pub closed spec fn pins(&self) -> Map<Seq<char>, PinHandle> {
        Map::new(
            |label: Seq<char>| exists|i: int| self.holds(label, i),
            |label: Seq<char>| self.handles[choose|i: int| self.holds(label, i)],
        )
    }

    /// Whether no two labels of a registry share a line.
    pub open spec fn one_owner_per_line(pins: Map<Seq<char>, PinHandle>) -> bool {
        forall|a: Seq<char>, b: Seq<char>|
            a != b && #[trigger] pins.contains_key(a) && #[trigger] pins.contains_key(b)
                ==> pins[a].line != pins[b].line
    }

    /// Whether a label other than `label` owns the line.
    pub open spec fn line_taken(&self, label: Seq<char>, line: u8) -> bool {
        exists|other: Seq<char>|
            other != label && #[trigger] self.pins().contains_key(other) && self.pins()[other].line
                == line
    }

    /// `after` is `before` with `handle` entered under `label` at position
    /// `at`: in place of the entry that stood there under that label, or as
    /// a new last entry under a label that was not registered. Then the
    /// registry of `after` is that of `before` with the one entry put in.
    proof fn lemma_entered(
        before: GpioCtx,
        after: GpioCtx,
        label: Seq<char>,
        handle: PinHandle,
        at: int,
    )
        requires
            before.inv(),
            after.inv(),
            after.holds(label, at),
            after.handles[at] == handle,
            before.holds(label, at) && after.labels.len() == before.labels.len() || (at
                == before.labels.len() && after.labels.len() == before.labels.len() + 1
                && !before.pins().contains_key(label)),
            forall|k: int|
                #![trigger before.labels[k]]
                #![trigger after.labels[k]]
                0 <= k < before.labels.len() && k != at ==> after.labels[k]@ == before.labels[k]@
                    && after.handles[k] == before.handles[k],
        ensures
            after.pins() == before.pins().insert(label, handle),
    {
        let n = before.labels.len() as int;
        assert forall|l: Seq<char>| #[trigger]
            after.pins().contains_key(l) == before.pins().insert(label, handle).contains_key(
                l,
            ) by {
            if after.pins().contains_key(l) {
                let k = choose|k: int| after.holds(l, k);
                assert(after.holds(l, k));
                if k != at {
                    assert(k < n);
                    assert(before.holds(l, k));
                }
            }
            if before.pins().contains_key(l) {
                let k = choose|k: int| before.holds(l, k);
                assert(before.holds(l, k));
                if k != at {
                    assert(after.holds(l, k));
                }
            }
        }
        assert forall|l: Seq<char>| #[trigger]
            after.pins().contains_key(l) implies after.pins()[l] == before.pins().insert(
            label,
            handle,
        )[l] by {
            let k = choose|k: int| after.holds(l, k);
            assert(after.holds(l, k));
            if l == label {
                assert(k == at);
            } else {
                assert(k < n);
                assert(before.holds(l, k));
                let k0 = choose|k0: int| before.holds(l, k0);
                assert(before.holds(l, k0));
                assert(k0 == k);
            }
        }
        assert(after.pins() =~= before.pins().insert(label, handle));
    }

    /// A registry without lines.
    pub fn new() -> (ctx: GpioCtx)
        ensures
            ctx.pins() == Map::<Seq<char>, PinHandle>::empty(),
    {
        let ctx = GpioCtx { labels: Vec::new(), handles: Vec::new() };
        assert(ctx.pins() =~= Map::<Seq<char>, PinHandle>::empty());
        ctx
    }

    /// Moves the registry out and leaves an empty one behind.
    fn take(&mut self) -> (taken: GpioCtx)
        ensures
            taken == *old(self),
    {
        let mut taken = GpioCtx { labels: Vec::new(), handles: Vec::new() };
        core::mem::swap(self, &mut taken);
        taken
    }

    fn position(&self, label: &String) -> (at: Option<usize>)
        ensures
            match at {
                Some(i) => self.holds(label@, i as int) && self.pins().contains_key(label@)
                    && self.pins()[label@] == self.handles[i as int],
                None => !self.pins().contains_key(label@),
            },
    {
        proof {
            use_type_invariant(self);
        }
        let mut i: usize = 0;
        while i < self.labels.len()
            invariant
                i <= self.labels.len(),
                forall|k: int| 0 <= k < i ==> !self.holds(label@, k),
            decreases self.labels.len() - i,
        {
            if self.labels[i] == *label {
                proof {
                    use_type_invariant(self);
                }
                assert(self.holds(label@, i as int));
                let ghost chosen = choose|k: int| self.holds(label@, k);
                assert(self.holds(label@, chosen));
                assert(chosen == i);
                return Some(i);
            }
            i += 1;
        }
        None
    }

    fn owner_of_line(&self, line: u8) -> (at: Option<usize>)
        ensures
            match at {
                Some(i) => 0 <= i < self.handles.len() && self.handles[i as int].line == line,
                None => forall|k: int| 0 <= k < self.handles.len() ==> self.handles[k].line != line,
            },
    {
        let mut i: usize = 0;
        while i < self.handles.len()
            invariant
                i <= self.handles.len(),
                forall|k: int| 0 <= k < i ==> self.handles[k].line != line,
            decreases self.handles.len() - i,
        {
            if self.handles[i].line == line {
                return Some(i);
            }
            i += 1;
        }
        None
    }

    /// The line registered under `label` and the level it was driven to last.
    /// In every registry each line has one owner.
    pub fn pin(&self, label: &String) -> (handle: Option<PinHandle>)
        ensures
            handle == if self.pins().contains_key(label@) {
                Some(self.pins()[label@])
            } else {
                None
            },
            Self::one_owner_per_line(self.pins()),
    {
        proof {
            use_type_invariant(self);
            assert forall|a: Seq<char>, b: Seq<char>|
                a != b && #[trigger] self.pins().contains_key(a) && #[trigger] self.pins().contains_key(
                    b,
                ) implies self.pins()[a].line != self.pins()[b].line by {
                let i = choose|i: int| self.holds(a, i);
                let j = choose|j: int| self.holds(b, j);
                assert(self.holds(a, i) && self.holds(b, j));
                assert(i != j);
            }
        }
        match self.position(label) {
            Some(i) => Some(self.handles[i]),
            None => None,
        }
    }

    /// Hands a line over to the registry under `label`, driven to `level`.
    ///
    /// A label that is registered already gives up its old line for the new
    /// one. A line that another label owns is refused: no two labels share a
    /// line.
    pub fn register(&mut self, label: String, line: u8, level: Level) -> (accepted: bool)
        ensures
            accepted == !old(self).line_taken(label@, line),
            final(self).pins() == if accepted {
                old(self).pins().insert(label@, PinHandle { line, level })
            } else {
                old(self).pins()
            },
    {
        proof {
            use_type_invariant(&*self);
        }
        let handle = PinHandle { line, level };
        let at = self.position(&label);
        let owner = self.owner_of_line(line);
        let taken = match owner {
            Some(j) => match at {
                Some(i) => i != j,
                None => true,
            },
            None => false,
        };
        proof {
            if taken {
                let j = owner->Some_0 as int;
                assert(self.holds(self.labels[j]@, j));
                let chosen = choose|k: int| self.holds(self.labels[j]@, k);
                assert(self.holds(self.labels[j]@, chosen));
                assert(chosen == j);
                assert(self.pins().contains_key(self.labels[j]@));
            } else {
                if self.line_taken(label@, line) {
                    let other = choose|other: Seq<char>|
                        other != label@ && #[trigger] self.pins().contains_key(other)
                            && self.pins()[other].line == line;
                    let k = choose|k: int| self.holds(other, k);
                    assert(self.holds(other, k));
                    assert(self.handles[k].line == line);
                    assert(false);
                }
            }
        }
        if taken {
            return false;
        }
        match at {
            Some(i) => {
                let GpioCtx { labels, mut handles } = self.take();
                handles.set(i, handle);
                *self = GpioCtx { labels, handles };
                proof {
                    use_type_invariant(&*self);
                    Self::lemma_entered(*old(self), *self, label@, handle, i as int);
                }
            },
            None => {
                let ghost n = self.labels.len() as int;
                let GpioCtx { mut labels, mut handles } = self.take();
                labels.push(label);
                handles.push(handle);
                proof {
                    assert forall|a: int, b: int| 0 <= a < b < labels.len() implies (
                    #[trigger] labels[a]@) != (#[trigger] labels[b]@) by {
                        if b == n {
                            assert(!old(self).holds(label@, a));
                        }
                    }
                }
                *self = GpioCtx { labels, handles };
                proof {
                    use_type_invariant(&*self);
                    Self::lemma_entered(*old(self), *self, label@, handle, n);
                }
            },
        }
        true
    }

    /// Records that the line under `label` is driven to `level` and says
    /// which line that is. A label that was never registered has no line:
    /// nothing is recorded and there is nothing to drive.
    pub fn drive(&mut self, label: &String, level: Level) -> (command: Option<PinCommand>)
        ensures
            (*final(self)).pins() == driven(old(self).pins(), label@, level),
            command == command_for(old(self).pins(), label@, level),
    {
        proof {
            use_type_invariant(&*self);
        }
        match self.position(label) {
            Some(i) => {
                let line = self.handles[i].line;
                let handle = PinHandle { line, level };
                let GpioCtx { labels, mut handles } = self.take();
                handles.set(i, handle);
                *self = GpioCtx { labels, handles };
                proof {
                    use_type_invariant(&*self);
                    Self::lemma_entered(*old(self), *self, label@, handle, i as int);
                }
                Some(PinCommand { line, level })
            },
            None => None,
        }
    }
}

/// The registry after a request to drive the line under `label` to `level`:
/// the line keeps its number and stands at `level`; an unknown label changes
/// nothing.
pub open spec fn driven(pins: Map<Seq<char>, PinHandle>, label: Seq<char>, level: Level) -> Map<
    Seq<char>,
    PinHandle,
> {
    if pins.contains_key(label) {
        pins.insert(label, PinHandle { line: pins[label].line, level })
    } else {
        pins
    }
}

/// What has to happen on the hardware for such a request: the line under
/// `label` goes to `level`; for an unknown label, nothing.
pub open spec fn command_for(pins: Map<Seq<char>, PinHandle>, label: Seq<char>, level: Level)
    -> Option<PinCommand> {
    if pins.contains_key(label) {
        Some(PinCommand { line: pins[label].line, level })
    } else {
        None
    }
}

/// A host state that holds the pin registry.
pub trait GpioView {
    /// The registry held.
    spec fn gpio_state(&self) -> GpioCtx;

    /// The registry held, for the length of one capability call.
    fn gpio_ctx(&mut self) -> (ctx: &mut GpioCtx)
        ensures
            *ctx == old(self).gpio_state(),
            final(self).gpio_state() == *final(ctx),
    ;
}

/// The pin capability, bound to a host state for one call.
pub struct GpioImpl<'a, T> {
    pub host: &'a mut T,
}

impl<'a, T: GpioView> GpioImpl<'a, T> {
    /// The registry of the host.
    pub open spec fn pins(&self) -> Map<Seq<char>, PinHandle> {
        self.host.gpio_state().pins()
    }

    /// Sets the line registered under `label` to `level`.
    ///
    /// The returned command names the physical line to drive; the caller
    /// drives it before it returns to the guest. For a label that was never
    /// registered the call does nothing at all: the registry stays as it
    /// was and there is no command.
    pub fn set_pin_state(&mut self, label: String, level: Level) -> (command: Option<PinCommand>)
        ensures
            *final(final(self).host) == *final(old(self).host),
            final(self).pins() == driven(old(self).pins(), label@, level),
            command == command_for(old(self).pins(), label@, level),
            !old(self).pins().contains_key(label@) ==> command is None && final(self).host.gpio_state() == old(self).host.gpio_state(),
    {
        let ctx = self.host.gpio_ctx();
        if ctx.pin(&label).is_some() {
            ctx.drive(&label, level)
        } else {
            None
        }
    }
}

/// Driving a line changes no other label's line, and never which line a
/// label owns.
pub proof fn lemma_drive_is_local(
    pins: Map<Seq<char>, PinHandle>,
    label: Seq<char>,
    level: Level,
    other: Seq<char>,
)
    ensures
        driven(pins, label, level).dom() == pins.dom(),
        pins.contains_key(other) ==> driven(pins, label, level)[other].line == pins[other].line,
        pins.contains_key(other) && other != label ==> driven(pins, label, level)[other]
            == pins[other],
        pins.contains_key(label) ==> driven(pins, label, level)[label].level == level,
{
    assert(driven(pins, label, level).dom() =~= pins.dom());
}

} // verus!
