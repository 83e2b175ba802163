//! What a driver asks of the host, and the order in which it is asked.
//!
//! A driver operation is a [`Plan`]: the calls to make on the host, one
//! after the other. The host is not reachable from here, so a [`Run`] walks
//! the plan: the caller makes the call it points at, says whether the call
//! went well, and is told what comes next.

use vstd::prelude::*;

verus! {

/// The lines of the display module.
#[derive(Clone, Copy, Debug, PartialEq, Eq, Structural)]
pub enum Pin {
    /// Data or command.
    Dc,
    /// Reset.
    Res,
    /// Power of the panel.
    Vbatc,
    /// Power of the logic.
    Vddc,
}

/// The logical state of a line.
#[derive(Clone, Copy, Debug, PartialEq, Eq, Structural)]
pub enum PinState {
    Active,
    Inactive,
}

impl Pin {
    /// Whether the line is active when it is high. Only the data/command
    /// line is; the others are active low.
    pub fn active_high(self) -> (high: bool)
        ensures
            high == (self is Dc),
    {
        match self {
            Pin::Dc => true,
            _ => false,
        }
    }

    /// The label under which the host knows the line.
    pub fn label(self) -> (label: &'static str)
        ensures
            label@ == match self {
                Pin::Dc => "DC"@,
                Pin::Res => "RES"@,
                Pin::Vbatc => "VBATC"@,
                Pin::Vddc => "VDDC"@,
            },
    {
        match self {
            Pin::Dc => "DC",
            Pin::Res => "RES",
            Pin::Vbatc => "VBATC",
            Pin::Vddc => "VDDC",
        }
    }
}

/// One call on the host.
#[derive(Debug, PartialEq, Eq)]
pub enum HostCall {
    /// Put a line into a state.
    SetPin(Pin, PinState),
    /// Wait that many milliseconds.
    DelayMs(u64),
    /// Write these bytes to the module.
    Write(Vec<u8>),
}

/// A [`HostCall`] as a mathematical value.
pub enum HostCallView {
    SetPin(Pin, PinState),
    DelayMs(u64),
    Write(Seq<u8>),
}

impl View for HostCall {
    type V = HostCallView;

    open spec fn view(&self) -> HostCallView {
        match self {
            HostCall::SetPin(pin, state) => HostCallView::SetPin(*pin, *state),
            HostCall::DelayMs(ms) => HostCallView::DelayMs(*ms),
            HostCall::Write(bytes) => HostCallView::Write(bytes@),
        }
    }
}

/// A call of a plan, and whether the operation ends when it fails.
#[derive(Debug, PartialEq, Eq)]
pub struct Item {
    pub call: HostCall,
    pub required: bool,
}

/// An [`Item`] as a mathematical value.
pub struct ItemView {
    pub call: HostCallView,
    pub required: bool,
}

impl View for Item {
    type V = ItemView;

    open spec fn view(&self) -> ItemView {
        ItemView { call: self.call@, required: self.required }
    }
}

impl DeepView for Item {
    type V = ItemView;

    open spec fn deep_view(&self) -> ItemView {
        self@
    }
}

/// What an operation does to the driver once its plan has got far enough.
#[derive(Clone, Copy, Debug, PartialEq, Eq, Structural)]
pub enum Effect {
    /// Nothing.
    Keep,
    /// The display counts as on, with a dark frame in memory.
    TurnOn,
    /// The display counts as off.
    TurnOff,
}

/// A driver operation: its calls in order, what it does to the driver, and
/// how many calls must be behind it before it does so.
#[derive(Debug, PartialEq, Eq)]
pub struct Plan {
    pub calls: Vec<Item>,
    pub commit_at: usize,
    pub effect: Effect,
}

/// A [`Plan`] as a mathematical value.
pub struct PlanView {
    pub calls: Seq<ItemView>,
    pub commit_at: nat,
    pub effect: Effect,
}

impl View for Plan {
    type V = PlanView;

    open spec fn view(&self) -> PlanView {
        PlanView {
            calls: self.calls.deep_view(),
            commit_at: self.commit_at as nat,
            effect: self.effect,
        }
    }
}

/// How a plan ended.
#[derive(Clone, Copy, Debug, PartialEq, Eq, Structural)]
pub struct Outcome {
    /// What the operation does to the driver.
    pub effect: Effect,
    /// Whether the plan got far enough for that.
    pub committed: bool,
    /// Whether a required call failed.
    pub failed: bool,
}

/// A plan in progress as a mathematical value: `issued` calls have gone
/// out, the last of them is the one to make now.
pub struct RunView {
    pub plan: PlanView,
    pub issued: nat,
}

/// A [`Turn`] as a mathematical value.
pub enum TurnView {
    Call(RunView),
    Done(Outcome),
}

impl RunView {
    /// The states a run can reach.
    pub open spec fn wf(self) -> bool {
        1 <= self.issued <= self.plan.calls.len()
    }

    /// The call to make now.
    pub open spec fn current(self) -> HostCallView {
        self.plan.calls[self.issued - 1].call
    }

    /// How a plan starts: with its first call, or done at once if it has
    /// none.
    pub open spec fn start(plan: PlanView) -> TurnView {
        if plan.calls.len() == 0 {
            TurnView::Done(Outcome { effect: plan.effect, committed: true, failed: false })
        } else {
            TurnView::Call(RunView { plan, issued: 1 })
        }
    }

    /// What follows the call made last. A required call that failed ends
    /// the plan, and no further call goes out; the operation has taken
    /// effect if as many calls as it needs were behind it. Any other call
    /// lets the next one go out, and after the last one the plan is done
    /// and has taken effect.
    pub open spec fn resume(self, ok: bool) -> TurnView {
        if !ok && self.plan.calls[self.issued - 1].required {
            TurnView::Done(
                Outcome {
                    effect: self.plan.effect,
                    committed: self.issued - 1 >= self.plan.commit_at,
                    failed: true,
                },
            )
        } else if self.issued < self.plan.calls.len() {
            TurnView::Call(RunView { issued: self.issued + 1, ..self })
        } else {
            TurnView::Done(Outcome { effect: self.plan.effect, committed: true, failed: false })
        }
    }
}

/// A plan in progress.
#[derive(Debug)]
pub struct Run {
    plan: Plan,
    issued: usize,
}

impl View for Run {
    type V = RunView;

    closed spec fn view(&self) -> RunView {
        RunView { plan: self.plan@, issued: self.issued as nat }
    }
}

/// One turn of a plan.
#[derive(Debug)]
pub enum Turn {
    /// The caller makes the call that the run points at and hands the run
    /// what came of it.
    Call(Run),
    /// The plan is over.
    Done(Outcome),
}

impl View for Turn {
    type V = TurnView;

    open spec fn view(&self) -> TurnView {
        match self {
            Turn::Call(run) => TurnView::Call(run@),
            Turn::Done(outcome) => TurnView::Done(*outcome),
        }
    }
}

impl Run {
    #[verifier::type_invariant]
    spec fn inv(self) -> bool {
        self@.wf()
    }

    /// Starts a plan.
    pub fn start(plan: Plan) -> (turn: Turn)
        ensures
            turn@ == RunView::start(plan@),
            turn matches Turn::Call(run) ==> run@.wf(),
    {
        if plan.calls.len() == 0 {
            Turn::Done(Outcome { effect: plan.effect, committed: true, failed: false })
        } else {
            Turn::Call(Run { plan, issued: 1 })
        }
    }

    /// The call to make now.
    pub fn current(&self) -> (call: &HostCall)
        ensures
            self@.wf(),
            call@ == self@.current(),
    {
        proof {
            use_type_invariant(self);
        }
        &self.plan.calls[self.issued - 1].call
    }

    /// Takes what came of the call made last and says what comes next.
    pub fn resume(self, ok: bool) -> (turn: Turn)
        ensures
            self@.wf(),
            turn@ == self@.resume(ok),
            turn matches Turn::Call(run) ==> run@.wf(),
    {
        proof {
            use_type_invariant(&self);
        }
        let Run { plan, issued } = self;
        if !ok && plan.calls[issued - 1].required {
            Turn::Done(
                Outcome { effect: plan.effect, committed: issued - 1 >= plan.commit_at, failed: true },
            )
        } else if issued < plan.calls.len() {
            Turn::Call(Run { plan, issued: issued + 1 })
        } else {
            Turn::Done(Outcome { effect: plan.effect, committed: true, failed: false })
        }
    }
}

/// The calls of a plan go out in order, one at a time.
pub proof fn lemma_calls_in_order(run: RunView, ok: bool)
    requires
        run.wf(),
    ensures
        run.resume(ok) matches TurnView::Call(next) ==> next.wf() && next.plan == run.plan
            && next.issued == run.issued + 1,
{
}

/// A plan fails only on a required call that failed, and then at once; it
/// ends well only after its last call.
pub proof fn lemma_plan_ends(run: RunView, ok: bool)
    requires
        run.wf(),
    ensures
        run.resume(ok) matches TurnView::Done(outcome) ==> {
            &&& outcome.effect == run.plan.effect
            &&& outcome.failed == (!ok && run.plan.calls[run.issued - 1].required)
            &&& !outcome.failed ==> outcome.committed && run.issued == run.plan.calls.len()
            &&& outcome.failed ==> outcome.committed == (run.issued - 1 >= run.plan.commit_at)
        },
        !ok && run.plan.calls[run.issued - 1].required ==> run.resume(ok) is Done,
{
}

} // verus!
