//! The chip-select envelope of the shared bus.
//!
//! A call on the bus is a conversation with the hardware: select the device,
//! carry out the sub-operations in order, release the device. The hardware is
//! not reachable from here, so the conversation is a state machine. An
//! [`Envelope`] holds a call in progress; each [`Step`] either names the next
//! [`BusCommand`] for the caller to carry out on the wire, or ends the call.
//! The caller answers every command with a [`BusReply`] and hands that to
//! [`Envelope::advance`].

use vstd::prelude::*;
use crate::wire::{Config, Error, ErrorView, Operation, OperationResult, OperationResultView, OperationView, outcome_view};

verus! {

/// What the caller has to do on the wire next.
#[derive(Debug, PartialEq, Eq)]
pub enum BusCommand {
    /// Activate the chip-select line, with the bus set up as the
    /// configuration says if one was asked for.
    Select(Option<Config>),
    /// Carry out one sub-operation on the selected device.
    Perform(Operation),
    /// Deactivate the chip-select line.
    Deselect,
}

/// A [`BusCommand`] as a mathematical value.
pub enum CommandView {
    Select(Option<Config>),
    Perform(OperationView),
    Deselect,
}

impl View for BusCommand {
    type V = CommandView;

    open spec fn view(&self) -> CommandView {
        match self {
            BusCommand::Select(config) => CommandView::Select(*config),
            BusCommand::Perform(op) => CommandView::Perform(op@),
            BusCommand::Deselect => CommandView::Deselect,
        }
    }
}

/// What the hardware answered to a command.
#[derive(Debug, PartialEq, Eq)]
pub enum BusReply {
    /// The command was carried out and gave no data.
    Done,
    /// The command was carried out and read these bytes.
    Data(Vec<u8>),
    /// The hardware reported a failure.
    Failed,
}

/// A [`BusReply`] as a mathematical value.
pub enum ReplyView {
    Done,
    Data(Seq<u8>),
    Failed,
}

impl View for BusReply {
    type V = ReplyView;

    open spec fn view(&self) -> ReplyView {
        match self {
            BusReply::Done => ReplyView::Done,
            BusReply::Data(bytes) => ReplyView::Data(bytes@),
            BusReply::Failed => ReplyView::Failed,
        }
    }
}

/// Where a call on the bus stands.
#[derive(Clone, Copy, Debug, PartialEq, Eq, Structural)]
pub enum Phase {
    /// `Select` was issued; no sub-operation yet.
    Selecting,
    /// A sub-operation was issued and its reply is awaited.
    Running,
    /// `Deselect` was issued; the call ends with the next reply.
    Releasing,
}

/// The chip-select line.
#[derive(Clone, Copy, Debug, PartialEq, Eq, Structural)]
pub enum Line {
    Idle,
    Selected,
}

/// The description with which a failed sub-operation is reported. A single
/// read, write or transfer words it differently from a locked sequence.
pub open spec fn failure_text(single: bool, op: OperationView) -> Seq<char> {
    match op {
        OperationView::Read(_) => if single {
            "Read failed"@
        } else {
            "Read error"@
        },
        OperationView::Write(_) => if single {
            "Write failed"@
        } else {
            "Write error"@
        },
        OperationView::Transfer(_) => if single {
            "Transfer failed"@
        } else {
            "Transfer error"@
        },
        OperationView::DelayNs(_) => "Delay error"@,
    }
}

/// What a reply means for the sub-operation it answers: its result, or the
/// error of the call. A read must bring exactly the bytes asked for, a
/// transfer as many as it sent, a write must be done; a delay cannot fail.
pub open spec fn settle_spec(single: bool, op: OperationView, reply: ReplyView) -> Result<
    OperationResultView,
    ErrorView,
> {
    match op {
        OperationView::Read(len) => if reply is Data && reply->Data_0.len() == len {
            Ok(OperationResultView::Read(reply->Data_0))
        } else {
            Err(ErrorView::Other(failure_text(single, op)))
        },
        OperationView::Write(_) => if reply is Done {
            Ok(OperationResultView::Write)
        } else {
            Err(ErrorView::Other(failure_text(single, op)))
        },
        OperationView::Transfer(data) => if reply is Data && reply->Data_0.len() == data.len() {
            Ok(OperationResultView::Transfer(reply->Data_0))
        } else {
            Err(ErrorView::Other(failure_text(single, op)))
        },
        OperationView::DelayNs(_) => Ok(OperationResultView::Delay),
    }
}

/// Whether `result` is what `op` gives when it succeeds.
pub open spec fn answers(op: OperationView, result: OperationResultView) -> bool {
    match op {
        OperationView::Read(len) => result is Read && result->Read_0.len() == len,
        OperationView::Write(_) => result is Write,
        OperationView::Transfer(data) => result is Transfer && result->Transfer_0.len()
            == data.len(),
        OperationView::DelayNs(_) => result is Delay,
    }
}

/// The commands that carry out the given operations, in order.
pub open spec fn performs(ops: Seq<OperationView>) -> Seq<CommandView> {
    Seq::new(ops.len(), |i: int| CommandView::Perform(ops[i]))
}

/// How often `Select` occurs in a trace of commands.
pub open spec fn selects(trace: Seq<CommandView>) -> nat
    decreases trace.len(),
{
    if trace.len() == 0 {
        0
    } else {
        selects(trace.drop_last()) + if trace.last() is Select {
            1nat
        } else {
            0nat
        }
    }
}

/// How often `Deselect` occurs in a trace of commands.
pub open spec fn deselects(trace: Seq<CommandView>) -> nat
    decreases trace.len(),
{
    if trace.len() == 0 {
        0
    } else {
        deselects(trace.drop_last()) + if trace.last() is Deselect {
            1nat
        } else {
            0nat
        }
    }
}

/// Where the chip-select line stands once every command of the trace has been
/// carried out, starting from an idle line.
pub open spec fn line_after(trace: Seq<CommandView>) -> Line
    decreases trace.len(),
{
    if trace.len() == 0 {
        Line::Idle
    } else {
        match trace.last() {
            CommandView::Select(_) => Line::Selected,
            CommandView::Deselect => Line::Idle,
            CommandView::Perform(_) => line_after(trace.drop_last()),
        }
    }
}

/// A call in progress as a mathematical value.
pub struct EnvelopeView {
    /// A single read, write or transfer (`true`) or a locked sequence.
    pub single: bool,
    /// The configuration of the bus that the call runs under, if one was
    /// asked for.
    pub config: Option<Config>,
    /// The sub-operations of the call.
    pub operations: Seq<OperationView>,
    /// The results of the sub-operations that have succeeded so far.
    pub results: Seq<OperationResultView>,
    pub phase: Phase,
    /// The error of the sub-operation that failed, if one did.
    pub failure: Option<ErrorView>,
}

/// A [`Step`] as a mathematical value.
pub enum StepView {
    Issue { envelope: EnvelopeView, command: CommandView },
    Finished(Result<Seq<OperationResultView>, ErrorView>),
}

impl EnvelopeView {
    /// The state right after `Select` was issued for a call.
    pub open spec fn start(
        single: bool,
        config: Option<Config>,
        operations: Seq<OperationView>,
    ) -> EnvelopeView {
        EnvelopeView {
            single,
            config,
            operations,
            results: Seq::empty(),
            phase: Phase::Selecting,
            failure: None,
        }
    }

    /// The states that a call can reach.
    pub open spec fn wf(self) -> bool {
        &&& self.results.len() <= self.operations.len()
        &&& forall|i: int|
            0 <= i < self.results.len() ==> answers(
                #[trigger] self.operations[i],
                self.results[i],
            )
        &&& match self.phase {
            Phase::Selecting => self.results.len() == 0 && self.failure is None,
            Phase::Running => self.results.len() < self.operations.len() && self.failure is None,
            Phase::Releasing => match self.failure {
                None => self.results.len() == self.operations.len(),
                Some(e) => self.results.len() < self.operations.len() && e == ErrorView::Other(
                    failure_text(self.single, self.operations[self.results.len() as int]),
                ),
            },
        }
    }

    /// How many sub-operations have been issued so far.
    pub open spec fn attempted(self) -> int {
        match self.phase {
            Phase::Selecting => 0int,
            Phase::Running => self.results.len() as int + 1,
            Phase::Releasing => if self.failure is Some {
                self.results.len() as int + 1
            } else {
                self.results.len() as int
            },
        }
    }

    /// Every command issued for the call so far, oldest first.
    pub open spec fn issued(self) -> Seq<CommandView> {
        let body = seq![CommandView::Select(self.config)] + performs(
            self.operations.subrange(0, self.attempted()),
        );
        if self.phase is Releasing {
            body.push(CommandView::Deselect)
        } else {
            body
        }
    }

    /// With these results gathered and nothing failed: lets the next
    /// sub-operation go out, or releases the line when none is left.
    pub open spec fn proceed(self, results: Seq<OperationResultView>) -> StepView {
        if results.len() < self.operations.len() {
            StepView::Issue {
                envelope: EnvelopeView { results, phase: Phase::Running, failure: None, ..self },
                command: CommandView::Perform(self.operations[results.len() as int]),
            }
        } else {
            StepView::Issue {
                envelope: EnvelopeView { results, phase: Phase::Releasing, failure: None, ..self },
                command: CommandView::Deselect,
            }
        }
    }

    /// What the call does with the reply to the command it issued last.
    ///
    /// The line is selected once, before the first sub-operation. A
    /// sub-operation that succeeds adds its result and lets the next one go
    /// out; after the last one the line is released. A sub-operation that
    /// fails lets no further one go out: the line is released at once and the
    /// call then ends with that sub-operation's error, without the results
    /// gathered before. Replies to `Select` and `Deselect` carry no
    /// information: the line cannot fail.
    pub open spec fn advance(self, reply: ReplyView) -> StepView {
        match self.phase {
            Phase::Selecting => self.proceed(self.results),
            Phase::Running => {
                let op = self.operations[self.results.len() as int];
                match settle_spec(self.single, op, reply) {
                    Ok(result) => self.proceed(self.results.push(result)),
                    Err(e) => StepView::Issue {
                        envelope: EnvelopeView {
                            phase: Phase::Releasing,
                            failure: Some(e),
                            ..self
                        },
                        command: CommandView::Deselect,
                    },
                }
            },
            Phase::Releasing => StepView::Finished(
                match self.failure {
                    Some(e) => Err(e),
                    None => Ok(self.results),
                },
            ),
        }
    }
}

/// A trace that selects and then only performs sub-operations holds one
/// `Select`, no `Deselect`, and leaves the line selected.
proof fn lemma_selected_trace(config: Option<Config>, ops: Seq<OperationView>)
    ensures
        selects(seq![CommandView::Select(config)] + performs(ops)) == 1,
        deselects(seq![CommandView::Select(config)] + performs(ops)) == 0,
        line_after(seq![CommandView::Select(config)] + performs(ops)) == Line::Selected,
    decreases ops.len(),
{
    let trace = seq![CommandView::Select(config)] + performs(ops);
    if ops.len() == 0 {
        assert(trace.drop_last() =~= Seq::<CommandView>::empty());
        assert(selects(trace.drop_last()) == 0);
        assert(deselects(trace.drop_last()) == 0);
    } else {
        lemma_selected_trace(config, ops.drop_last());
        assert(trace.drop_last() =~= seq![CommandView::Select(config)] + performs(
            ops.drop_last(),
        ));
        assert(trace.last() == CommandView::Perform(ops.last()));
    }
}

/// A call opens with `Select` and nothing else.
pub proof fn lemma_call_opens_selected(
    single: bool,
    config: Option<Config>,
    operations: Seq<OperationView>,
)
    ensures
        EnvelopeView::start(single, config, operations).wf(),
        EnvelopeView::start(single, config, operations).issued() == seq![
            CommandView::Select(config),
        ],
{
    let v = EnvelopeView::start(single, config, operations);
    assert(operations.subrange(0, 0) =~= Seq::<OperationView>::empty());
    assert(v.issued() =~= seq![CommandView::Select(config)]);
}

/// Every step leads to a state that a call can reach, and `issued` is the
/// history of the call: the command of the step is appended to it. A call
/// ends only from the state in which the line has been released.
pub proof fn lemma_advance_extends_trace(v: EnvelopeView, reply: ReplyView)
    requires
        v.wf(),
    ensures
        match v.advance(reply) {
            StepView::Issue { envelope, command } => {
                &&& envelope.wf()
                &&& envelope.single == v.single
                &&& envelope.config == v.config
                &&& envelope.operations == v.operations
                &&& envelope.issued() == v.issued().push(command)
            },
            StepView::Finished(_) => v.phase is Releasing,
        },
{
    match v.advance(reply) {
        StepView::Issue { envelope, command } => {
            let n = v.attempted();
            let m = envelope.attempted();
            let before = seq![CommandView::Select(v.config)] + performs(
                v.operations.subrange(0, n),
            );
            let after = seq![CommandView::Select(v.config)] + performs(
                v.operations.subrange(0, m),
            );
            if envelope.phase is Running {
                assert(m == n + 1);
                assert(after =~= before.push(command));
            } else {
                assert(m == n);
                assert(after =~= before);
            }
            assert(envelope.issued() =~= v.issued().push(command));
        },
        StepView::Finished(_) => {},
    }
}

/// The chip-select line is paired, whatever the number of sub-operations and
/// whether or not one of them failed: in every state of a call the history
/// begins with the one `Select` it holds; until the release it holds no
/// `Deselect` and the line is selected; from the release on it ends with the
/// one `Deselect` it holds and the line is idle.
pub proof fn lemma_select_line_paired(v: EnvelopeView)
    requires
        v.wf(),
    ensures
        v.issued().len() >= 1,
        v.issued()[0] == CommandView::Select(v.config),
        selects(v.issued()) == 1,
        !(v.phase is Releasing) ==> deselects(v.issued()) == 0 && line_after(v.issued())
            == Line::Selected,
        v.phase is Releasing ==> deselects(v.issued()) == 1 && v.issued().last()
            == CommandView::Deselect && line_after(v.issued()) == Line::Idle,
        forall|i: int|
            0 < i < v.issued().len() - 1 ==> #[trigger] v.issued()[i] == CommandView::Perform(
                v.operations[i - 1],
            ),
{
    let ops = v.operations.subrange(0, v.attempted());
    let body = seq![CommandView::Select(v.config)] + performs(ops);
    lemma_selected_trace(v.config, ops);
    if v.phase is Releasing {
        let trace = body.push(CommandView::Deselect);
        assert(trace.drop_last() =~= body);
        assert(v.issued() =~= trace);
    } else {
        assert(v.issued() =~= body);
    }
}

/// A sub-operation that fails releases the line before anything is reported:
/// the step that takes the failing reply issues `Deselect` and nothing else,
/// and the step after it ends the call with the error of that sub-operation,
/// whatever had been gathered before.
pub proof fn lemma_failure_releases_then_reports(v: EnvelopeView, reply: ReplyView, ack: ReplyView)
    requires
        v.wf(),
        v.phase is Running,
        settle_spec(v.single, v.operations[v.results.len() as int], reply) is Err,
    ensures
        v.advance(reply) matches StepView::Issue { envelope, command } && command
            == CommandView::Deselect && envelope.advance(ack) == StepView::Finished(
            Err(
                ErrorView::Other(
                    failure_text(v.single, v.operations[v.results.len() as int]),
                ),
            ),
        ),
{
}

/// A call that ends well went through all its sub-operations and holds one
/// fitting result for each, in order; a call that ends badly reports the
/// first sub-operation whose reply did not settle it.
pub proof fn lemma_finished_call(v: EnvelopeView, ack: ReplyView)
    requires
        v.wf(),
        v.phase is Releasing,
    ensures
        match v.advance(ack) {
            StepView::Finished(Ok(results)) => {
                &&& results.len() == v.operations.len()
                &&& v.attempted() == v.operations.len()
                &&& forall|i: int|
                    0 <= i < results.len() ==> answers(#[trigger] v.operations[i], results[i])
            },
            StepView::Finished(Err(e)) => {
                &&& v.attempted() <= v.operations.len()
                &&& e == ErrorView::Other(
                    failure_text(v.single, v.operations[v.attempted() - 1]),
                )
            },
            StepView::Issue { .. } => false,
        },
{
}

/// Where a call stands after the replies in `replies` were handed to it one
/// after the other, beginning at `step`. Replies that come after the end of
/// the call are not looked at.
pub open spec fn fed(step: StepView, replies: Seq<ReplyView>) -> StepView
    decreases replies.len(),
{
    if replies.len() == 0 {
        step
    } else {
        match step {
            StepView::Issue { envelope, .. } => fed(
                envelope.advance(replies[0]),
                replies.drop_first(),
            ),
            StepView::Finished(_) => step,
        }
    }
}

/// The results of the first `count` sub-operations when each of them is
/// settled by the reply at its position.
pub open spec fn results_of(
    single: bool,
    operations: Seq<OperationView>,
    replies: Seq<ReplyView>,
    count: int,
) -> Seq<OperationResultView> {
    Seq::new(count as nat, |i: int| settle_spec(single, operations[i], replies[i])->Ok_0)
}

/// The step that opens a call.
pub open spec fn opening(
    single: bool,
    config: Option<Config>,
    operations: Seq<OperationView>,
) -> StepView {
    StepView::Issue {
        envelope: EnvelopeView::start(single, config, operations),
        command: CommandView::Select(config),
    }
}

/// The state of a call in which the first `done` sub-operations have
/// succeeded and the next step is under way.
spec fn midway(start: EnvelopeView, replies: Seq<ReplyView>, done: int) -> StepView {
    start.proceed(results_of(start.single, start.operations, replies, done))
}

proof fn lemma_fed_midway(start: EnvelopeView, replies: Seq<ReplyView>, done: int, upto: int)
    requires
        0 <= done <= upto <= start.operations.len(),
        upto <= replies.len(),
        forall|i: int|
            0 <= i < upto ==> settle_spec(start.single, start.operations[i], replies[i]) is Ok,
    ensures
        fed(midway(start, replies, done), replies.subrange(done, upto)) == midway(
            start,
            replies,
            upto,
        ),
    decreases upto - done,
{
    let rest = replies.subrange(done, upto);
    if done < upto {
        let here = midway(start, replies, done);
        let results = results_of(start.single, start.operations, replies, done);
        assert(here matches StepView::Issue { envelope, .. } && envelope.phase is Running
            && envelope.results == results);
        let envelope = here->envelope;
        assert(rest[0] == replies[done]);
        let result = settle_spec(start.single, start.operations[done], replies[done])->Ok_0;
        assert(results.push(result) =~= results_of(
            start.single,
            start.operations,
            replies,
            done + 1,
        ));
        assert(envelope.advance(rest[0]) == midway(start, replies, done + 1));
        assert(rest.drop_first() =~= replies.subrange(done + 1, upto));
        lemma_fed_midway(start, replies, done + 1, upto);
    } else {
        assert(rest.len() == 0);
    }
}

/// A call whose sub-operations are all settled by their replies ends with
/// the results that those replies give, one for each sub-operation, in
/// order. The first reply answers `Select`, the last one `Deselect`; what
/// they hold does not matter.
pub proof fn lemma_call_succeeds(
    single: bool,
    config: Option<Config>,
    operations: Seq<OperationView>,
    selected: ReplyView,
    replies: Seq<ReplyView>,
    released: ReplyView,
)
    requires
        replies.len() == operations.len(),
        forall|i: int|
            0 <= i < operations.len() ==> settle_spec(single, operations[i], replies[i]) is Ok,
    ensures
        fed(opening(single, config, operations), seq![selected] + replies + seq![released])
            == StepView::Finished(
            Ok(results_of(single, operations, replies, operations.len() as int)),
        ),
{
    let n = operations.len() as int;
    let all = seq![selected] + replies + seq![released];
    let start = EnvelopeView::start(single, config, operations);
    assert(results_of(single, operations, replies, 0) =~= Seq::empty());
    assert(start.advance(all[0]) == midway(start, replies, 0));
    assert(all.drop_first() =~= replies + seq![released]);
    lemma_fed_midway(start, replies, 0, n);
    assert(replies.subrange(0, n) =~= replies);
    lemma_fed_append(midway(start, replies, 0), replies, seq![released]);
    let last = midway(start, replies, n);
    assert(last matches StepView::Issue { envelope, .. } && envelope.phase is Releasing
        && envelope.failure is None);
    let tail = seq![released];
    assert(tail.drop_first() =~= Seq::empty());
    assert(fed(last->envelope.advance(tail[0]), tail.drop_first()) == last->envelope.advance(
        released,
    ));
}

/// A call stops at the first sub-operation that its reply does not settle:
/// after that reply nothing goes out but `Deselect`, and the call ends with
/// the error of that sub-operation, whatever the ones before it gave.
pub proof fn lemma_call_fails_at_first_failure(
    single: bool,
    config: Option<Config>,
    operations: Seq<OperationView>,
    selected: ReplyView,
    replies: Seq<ReplyView>,
    released: ReplyView,
)
    requires
        1 <= replies.len() <= operations.len(),
        forall|i: int|
            0 <= i < replies.len() - 1 ==> settle_spec(single, operations[i], replies[i]) is Ok,
        settle_spec(
            single,
            operations[replies.len() - 1],
            replies[replies.len() - 1],
        ) is Err,
    ensures
        fed(opening(single, config, operations), seq![selected] + replies + seq![released])
            == StepView::Finished(
            Err(ErrorView::Other(failure_text(single, operations[replies.len() - 1]))),
        ),
{
    let k = replies.len() - 1;
    let all = seq![selected] + replies + seq![released];
    let start = EnvelopeView::start(single, config, operations);
    assert(results_of(single, operations, replies, 0) =~= Seq::empty());
    assert(start.advance(all[0]) == midway(start, replies, 0));
    assert(all.drop_first() =~= replies.subrange(0, k) + seq![replies[k], released]);
    lemma_fed_midway(start, replies, 0, k);
    lemma_fed_append(midway(start, replies, 0), replies.subrange(0, k), seq![replies[k], released]);
    let here = midway(start, replies, k);
    assert(here matches StepView::Issue { envelope, .. } && envelope.phase is Running
        && envelope.results.len() == k);
    let tail = seq![replies[k], released];
    let next = here->envelope.advance(tail[0]);
    assert(next matches StepView::Issue { envelope, command } && envelope.phase is Releasing);
    assert(tail.drop_first() =~= seq![released]);
    let end = seq![released];
    assert(end.drop_first() =~= Seq::empty());
    assert(fed(next, end) == fed(next->envelope.advance(end[0]), end.drop_first()));
}

proof fn lemma_fed_append(step: StepView, first: Seq<ReplyView>, second: Seq<ReplyView>)
    ensures
        fed(step, first + second) == fed(fed(step, first), second),
    decreases first.len(),
{
    if first.len() == 0 {
        assert(first + second =~= second);
    } else {
        let all = first + second;
        assert(all[0] == first[0]);
        assert(all.drop_first() =~= first.drop_first() + second);
        match step {
            StepView::Issue { envelope, .. } => {
                lemma_fed_append(envelope.advance(first[0]), first.drop_first(), second);
            },
            StepView::Finished(_) => {
                lemma_fed_finished(step, second);
            },
        }
    }
}

proof fn lemma_fed_finished(step: StepView, replies: Seq<ReplyView>)
    requires
        step is Finished,
    ensures
        fed(step, replies) == step,
{
}

/// A call on the bus in progress.
#[derive(Debug)]
pub struct Envelope {
    single: bool,
    config: Option<Config>,
    operations: Vec<Operation>,
    results: Vec<OperationResult>,
    phase: Phase,
    failure: Option<Error>,
}

/// One turn of a call on the bus.
#[derive(Debug)]
pub enum Step {
    /// The caller carries out `command` and hands the reply to
    /// [`Envelope::advance`] of `envelope`.
    Issue { envelope: Envelope, command: BusCommand },
    /// The call is over: the results of all its sub-operations, or the error
    /// of the one that failed.
    Finished(Result<Vec<OperationResult>, Error>),
}

impl View for Step {
    type V = StepView;

    open spec fn view(&self) -> StepView {
        match self {
            Step::Issue { envelope, command } => StepView::Issue {
                envelope: envelope@,
                command: command@,
            },
            Step::Finished(outcome) => StepView::Finished(outcome_view(*outcome)),
        }
    }
}

impl View for Envelope {
    type V = EnvelopeView;

    closed spec fn view(&self) -> EnvelopeView {
        EnvelopeView {
            single: self.single,
            config: self.config,
            operations: self.operations.deep_view(),
            results: self.results.deep_view(),
            phase: self.phase,
            failure: match self.failure {
                Some(e) => Some(e@),
                None => None,
            },
        }
    }
}

/// Decides what a reply means for the sub-operation it answers.
pub fn settle(single: bool, op: &Operation, reply: BusReply) -> (verdict: Result<
    OperationResult,
    Error,
>)
    ensures
        match verdict {
            Ok(result) => settle_spec(single, op@, reply@) == Ok::<OperationResultView, ErrorView>(
                result@,
            ),
            Err(e) => settle_spec(single, op@, reply@) == Err::<OperationResultView, ErrorView>(
                e@,
            ),
        },
{
    match op {
        Operation::Read(len) => {
            match reply {
                BusReply::Data(bytes) => {
                    if bytes.len() as u64 == *len {
                        Ok(OperationResult::Read(bytes))
                    } else {
                        Err(Error::other(if single { "Read failed" } else { "Read error" }))
                    }
                },
                _ => Err(Error::other(if single { "Read failed" } else { "Read error" })),
            }
        },
        Operation::Write(_) => {
            match reply {
                BusReply::Done => Ok(OperationResult::Write),
                _ => Err(Error::other(if single { "Write failed" } else { "Write error" })),
            }
        },
        Operation::Transfer(data) => {
            match reply {
                BusReply::Data(bytes) => {
                    if bytes.len() == data.len() {
                        Ok(OperationResult::Transfer(bytes))
                    } else {
                        Err(Error::other(if single { "Transfer failed" } else { "Transfer error" }))
                    }
                },
                _ => Err(Error::other(if single { "Transfer failed" } else { "Transfer error" })),
            }
        },
        Operation::DelayNs(_) => Ok(OperationResult::Delay),
    }
}

impl Envelope {
    #[verifier::type_invariant]
    spec fn inv(self) -> bool {
        self@.wf()
    }

    /// Opens a call under the given configuration of the bus: the returned
    /// step issues `Select`.
    pub fn open(single: bool, config: Option<Config>, operations: Vec<Operation>) -> (step: Step)
        ensures
            step@ == opening(single, config, operations.deep_view()),
            step matches Step::Issue { envelope, .. } && envelope@.wf(),
    {
        let results: Vec<OperationResult> = Vec::new();
        assert(results.deep_view() =~= Seq::empty());
        let envelope = Envelope {
            single,
            config,
            operations,
            results,
            phase: Phase::Selecting,
            failure: None,
        };
        Step::Issue { envelope, command: BusCommand::Select(config) }
    }

    fn proceed(
        single: bool,
        config: Option<Config>,
        operations: Vec<Operation>,
        results: Vec<OperationResult>,
    ) -> (step: Step)
        requires
            results.len() <= operations.len(),
            forall|i: int|
                0 <= i < results.len() ==> answers(
                    #[trigger] operations.deep_view()[i],
                    results.deep_view()[i],
                ),
        ensures
            step@ == EnvelopeView::start(single, config, operations.deep_view()).proceed(
                results.deep_view(),
            ),
            step matches Step::Issue { envelope, .. } && envelope@.wf(),
    {
        if results.len() < operations.len() {
            let command = BusCommand::Perform(operations[results.len()].duplicate());
            let envelope = Envelope {
                single,
                config,
                operations,
                results,
                phase: Phase::Running,
                failure: None,
            };
            Step::Issue { envelope, command }
        } else {
            let envelope = Envelope {
                single,
                config,
                operations,
                results,
                phase: Phase::Releasing,
                failure: None,
            };
            Step::Issue { envelope, command: BusCommand::Deselect }
        }
    }

    /// Takes the reply to the command issued last and says what comes next.
    pub fn advance(self, reply: BusReply) -> (step: Step)
        ensures
            self@.wf(),
            step@ == self@.advance(reply@),
            step matches Step::Issue { envelope, .. } ==> envelope@.wf(),
    {
        proof {
            use_type_invariant(&self);
        }
        let Envelope { single, config, operations, mut results, phase, failure } = self;
        match phase {
            Phase::Selecting => {
                assert(results.deep_view() =~= Seq::empty());
                Self::proceed(single, config, operations, results)
            },
            Phase::Running => {
                let ghost before = results.deep_view();
                let at: usize = results.len();
                match settle(single, &operations[at], reply) {
                    Ok(result) => {
                        results.push(result);
                        assert(results.deep_view() =~= before.push(result@));
                        Self::proceed(single, config, operations, results)
                    },
                    Err(e) => {
                        let envelope = Envelope {
                            single,
                            config,
                            operations,
                            results,
                            phase: Phase::Releasing,
                            failure: Some(e),
                        };
                        Step::Issue { envelope, command: BusCommand::Deselect }
                    },
                }
            },
            Phase::Releasing => {
                match failure {
                    Some(e) => Step::Finished(Err(e)),
                    None => Step::Finished(Ok(results)),
                }
            },
        }
    }
}

} // verus!
