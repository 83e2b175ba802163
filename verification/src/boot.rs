//! The order in which the host comes up.
//!
//! The steps that bring the guest to life touch the heap, the hardware and
//! the interpreter, none of which is reachable from here. What is settled
//! here is their order and what a failure means: the steps run one by one,
//! each only after the one before it went well; the first failure halts the
//! host for good; the entry point of the guest is invoked once.

use vstd::prelude::*;

verus! {

/// The steps of the startup, in their order.
#[derive(Clone, Copy, Debug, PartialEq, Eq, Structural)]
pub enum Stage {
    /// Hand the heap region to the allocator.
    InitHeap,
    /// Take the bus and the output pins, and build the host context.
    InitHardware,
    /// Configure and build the execution context.
    ConfigureEngine,
    /// Register the capabilities under their names.
    RegisterCapabilities,
    /// Load the precompiled artifact.
    LoadArtifact,
    /// Instantiate the artifact against the capabilities.
    Instantiate,
    /// Invoke the entry point of the guest.
    InvokeEntry,
}

/// What the host does next.
#[derive(Clone, Copy, Debug, PartialEq, Eq, Structural)]
pub enum Action {
    /// Carry out this step and report how it went.
    Run(Stage),
    /// Log that this step failed, and stop.
    Halt(Stage),
    /// The guest has returned: there is nothing left to do.
    Rest,
}

impl Stage {
    /// The position of the step in the startup.
    pub open spec fn index(self) -> int {
        match self {
            Stage::InitHeap => 0,
            Stage::InitHardware => 1,
            Stage::ConfigureEngine => 2,
            Stage::RegisterCapabilities => 3,
            Stage::LoadArtifact => 4,
            Stage::Instantiate => 5,
            Stage::InvokeEntry => 6,
        }
    }

    /// The step that follows, if there is one.
    pub open spec fn following(self) -> Option<Stage> {
        match self {
            Stage::InitHeap => Some(Stage::InitHardware),
            Stage::InitHardware => Some(Stage::ConfigureEngine),
            Stage::ConfigureEngine => Some(Stage::RegisterCapabilities),
            Stage::RegisterCapabilities => Some(Stage::LoadArtifact),
            Stage::LoadArtifact => Some(Stage::Instantiate),
            Stage::Instantiate => Some(Stage::InvokeEntry),
            Stage::InvokeEntry => None,
        }
    }

    /// The step that follows, if there is one.
    pub fn next(self) -> (next: Option<Stage>)
        ensures
            next == self.following(),
    {
        match self {
            Stage::InitHeap => Some(Stage::InitHardware),
            Stage::InitHardware => Some(Stage::ConfigureEngine),
            Stage::ConfigureEngine => Some(Stage::RegisterCapabilities),
            Stage::RegisterCapabilities => Some(Stage::LoadArtifact),
            Stage::LoadArtifact => Some(Stage::Instantiate),
            Stage::Instantiate => Some(Stage::InvokeEntry),
            Stage::InvokeEntry => None,
        }
    }
}

/// Where the startup stands.
#[derive(Clone, Copy, Debug, PartialEq, Eq, Structural)]
pub enum Binder {
    /// This step is being carried out.
    Running(Stage),
    /// This step failed; the host has stopped.
    Halted(Stage),
    /// The entry point was invoked and has returned.
    Ended,
}

impl Binder {
    /// What follows the report on the step that is being carried out: after
    /// a failure the host halts, after a success the next step runs, and
    /// after the guest returned the host rests. A host that has stopped
    /// stays stopped whatever is reported.
    pub open spec fn reported(self, ok: bool) -> (Binder, Action) {
        match self {
            Binder::Running(stage) => if !ok {
                (Binder::Halted(stage), Action::Halt(stage))
            } else {
                match stage.following() {
                    Some(next) => (Binder::Running(next), Action::Run(next)),
                    None => (Binder::Ended, Action::Rest),
                }
            },
            Binder::Halted(stage) => (Binder::Halted(stage), Action::Halt(stage)),
            Binder::Ended => (Binder::Ended, Action::Rest),
        }
    }

    /// The startup at its beginning: the heap comes first.
    pub fn start() -> (begin: (Binder, Action))
        ensures
            begin == (Binder::Running(Stage::InitHeap), Action::Run(Stage::InitHeap)),
    {
        (Binder::Running(Stage::InitHeap), Action::Run(Stage::InitHeap))
    }

    /// Takes the report on the step that is being carried out and says what
    /// the host does next.
    pub fn report(&mut self, ok: bool) -> (action: Action)
        ensures
            (*final(self), action) == old(self).reported(ok),
    {
        let (binder, action) = match *self {
            Binder::Running(stage) => {
                if !ok {
                    (Binder::Halted(stage), Action::Halt(stage))
                } else {
                    match stage.next() {
                        Some(next) => (Binder::Running(next), Action::Run(next)),
                        None => (Binder::Ended, Action::Rest),
                    }
                }
            },
            Binder::Halted(stage) => (Binder::Halted(stage), Action::Halt(stage)),
            Binder::Ended => (Binder::Ended, Action::Rest),
        };
        *self = binder;
        action
    }
}

/// The startup after these reports, one for each step carried out so far.
pub open spec fn after(reports: Seq<bool>) -> Binder
    decreases reports.len(),
{
    if reports.len() == 0 {
        Binder::Running(Stage::InitHeap)
    } else {
        after(reports.drop_last()).reported(reports.last()).0
    }
}

/// The steps run in strict order and a failure is final: whatever is
/// reported, a step is being carried out only if it is the one whose turn
/// it is and every report before it was good; the host has halted on a step
/// only if that step was the first to fail.
pub proof fn lemma_strict_order(reports: Seq<bool>)
    ensures
        match after(reports) {
            Binder::Running(stage) => {
                &&& stage.index() == reports.len()
                &&& forall|i: int| 0 <= i < reports.len() ==> reports[i]
            },
            Binder::Halted(stage) => {
                &&& stage.index() < reports.len()
                &&& !reports[stage.index()]
                &&& forall|i: int| 0 <= i < stage.index() ==> reports[i]
            },
            Binder::Ended => {
                &&& reports.len() >= 7
                &&& forall|i: int| 0 <= i < 7 ==> reports[i]
            },
        },
    decreases reports.len(),
{
    if reports.len() > 0 {
        lemma_strict_order(reports.drop_last());
        assert forall|i: int| 0 <= i < reports.len() - 1 implies reports[i]
            == reports.drop_last()[i] by {}
    }
}

/// The entry point of the guest is invoked at most once, and only after
/// the six steps before it went well: the step `InvokeEntry` is handed out
/// by the report on `Instantiate` alone, and only if that report is good.
pub proof fn lemma_entry_invoked_once(binder: Binder, ok: bool)
    ensures
        binder.reported(ok).1 == Action::Run(Stage::InvokeEntry) <==> binder == Binder::Running(
            Stage::Instantiate,
        ) && ok,
        binder.reported(ok).1 is Run ==> binder is Running && ok && binder.reported(ok).1
            == Action::Run(binder.reported(ok).0->Running_0) && binder.reported(
            ok,
        ).0->Running_0.index() == binder->Running_0.index() + 1,
{
}

} // verus!
