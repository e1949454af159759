//! What the two socket workers decide.
//!
//! Each worker is a loop around a blocking call. The loop itself, with its
//! socket and its queue, lives with the caller; what to do with the outcome
//! of each call is decided here, as a step from the worker's state and an
//! event to the next state and an action.

use vstd::prelude::*;
use crate::codec::{decode, encode};
use crate::command::{Command, CommandModel, DecodeError, EncodeError, MAX_PAYLOAD, MAX_UNIVERSE};
use crate::wire::{decoded, encoded, lemma_round_trip, HEADER_LEN};

verus! {

/// Whether a worker still runs. A stopped worker never runs again.
#[derive(Clone, Copy, Debug, PartialEq, Eq, Structural)]
pub enum WorkerState {
    Running,
    Stopped,
}

/// What happened at the inbound worker's socket.
#[derive(Clone, Copy, Debug, PartialEq, Eq)]
pub enum InboundEvent<'a> {
    /// A datagram arrived.
    Datagram(&'a [u8]),
    /// The receive call timed out with nothing read.
    TimedOut,
    /// The socket failed for good.
    SocketFailed,
    /// The server handle was closed.
    Shutdown,
}

/// What an [`InboundEvent`] stands for in contracts.
pub enum InboundEventModel {
    Datagram(Seq<u8>),
    TimedOut,
    SocketFailed,
    Shutdown,
}

impl View for InboundEvent<'_> {
    type V = InboundEventModel;

    open spec fn view(&self) -> InboundEventModel {
        match *self {
            InboundEvent::Datagram(bytes) => InboundEventModel::Datagram(bytes@),
            InboundEvent::TimedOut => InboundEventModel::TimedOut,
            InboundEvent::SocketFailed => InboundEventModel::SocketFailed,
            InboundEvent::Shutdown => InboundEventModel::Shutdown,
        }
    }
}

/// What the inbound worker does next.
#[derive(Debug, PartialEq, Eq)]
pub enum InboundAction {
    /// Push the command onto the inbound queue, then receive again.
    Enqueue(Command),
    /// Drop the datagram, which was no command, then receive again.
    Discard(DecodeError),
    /// Receive again.
    Wait,
    /// Report the socket's failure, once, and leave the loop.
    ReportFailure,
    /// Leave the loop.
    Exit,
}

/// What an [`InboundAction`] stands for in contracts.
pub enum InboundActionModel {
    Enqueue(CommandModel),
    Discard(DecodeError),
    Wait,
    ReportFailure,
    Exit,
}

impl View for InboundAction {
    type V = InboundActionModel;

    open spec fn view(&self) -> InboundActionModel {
        match *self {
            InboundAction::Enqueue(command) => InboundActionModel::Enqueue(command@),
            InboundAction::Discard(error) => InboundActionModel::Discard(error),
            InboundAction::Wait => InboundActionModel::Wait,
            InboundAction::ReportFailure => InboundActionModel::ReportFailure,
            InboundAction::Exit => InboundActionModel::Exit,
        }
    }
}

/// The inbound worker's step. While it runs, a datagram is queued if it
/// decodes and dropped if not, a timeout changes nothing, and only the
/// socket's failure or a shutdown stops it.
pub open spec fn inbound_transition(state: WorkerState, event: InboundEventModel) -> (
    WorkerState,
    InboundActionModel,
) {
    match state {
        WorkerState::Stopped => (WorkerState::Stopped, InboundActionModel::Exit),
        WorkerState::Running => match event {
            InboundEventModel::Datagram(bytes) => match decoded(bytes) {
                Ok(command) => (WorkerState::Running, InboundActionModel::Enqueue(command)),
                Err(error) => (WorkerState::Running, InboundActionModel::Discard(error)),
            },
            InboundEventModel::TimedOut => (WorkerState::Running, InboundActionModel::Wait),
            InboundEventModel::SocketFailed => (
                WorkerState::Stopped,
                InboundActionModel::ReportFailure,
            ),
            InboundEventModel::Shutdown => (WorkerState::Stopped, InboundActionModel::Exit),
        },
    }
}

/// One step of the inbound worker: the next state and what to do.
pub fn inbound_step(state: WorkerState, event: InboundEvent<'_>) -> (next: (
    WorkerState,
    InboundAction,
))
    ensures
        (next.0, next.1@) == inbound_transition(state, event@),
{
    match state {
        WorkerState::Stopped => (WorkerState::Stopped, InboundAction::Exit),
        WorkerState::Running => match event {
            InboundEvent::Datagram(bytes) => match decode(bytes) {
                Ok(command) => (WorkerState::Running, InboundAction::Enqueue(command)),
                Err(error) => (WorkerState::Running, InboundAction::Discard(error)),
            },
            InboundEvent::TimedOut => (WorkerState::Running, InboundAction::Wait),
            InboundEvent::SocketFailed => (WorkerState::Stopped, InboundAction::ReportFailure),
            InboundEvent::Shutdown => (WorkerState::Stopped, InboundAction::Exit),
        },
    }
}

/// What happened at the outbound worker's queue or socket.
#[derive(Debug, PartialEq, Eq)]
pub enum OutboundEvent {
    /// A command was taken from the outbound queue.
    Dequeued(Command),
    /// The datagram of the last command could not be sent.
    SendFailed,
    /// The server handle was closed and the queue is empty.
    QueueClosed,
}

/// What an [`OutboundEvent`] stands for in contracts.
pub enum OutboundEventModel {
    Dequeued(CommandModel),
    SendFailed,
    QueueClosed,
}

impl View for OutboundEvent {
    type V = OutboundEventModel;

    open spec fn view(&self) -> OutboundEventModel {
        match *self {
            OutboundEvent::Dequeued(command) => OutboundEventModel::Dequeued(command@),
            OutboundEvent::SendFailed => OutboundEventModel::SendFailed,
            OutboundEvent::QueueClosed => OutboundEventModel::QueueClosed,
        }
    }
}

/// What the outbound worker does next.
#[derive(Debug, PartialEq, Eq)]
pub enum OutboundAction {
    /// Send the frame to the broadcast address, then take the next command.
    Transmit(Vec<u8>),
    /// Report that the command has no frame and drop it, then take the next.
    Skip(EncodeError),
    /// Report that a datagram was lost, then take the next command.
    ReportSendFailure,
    /// Leave the loop.
    Exit,
}

/// What an [`OutboundAction`] stands for in contracts.
pub enum OutboundActionModel {
    Transmit(Seq<u8>),
    Skip(EncodeError),
    ReportSendFailure,
    Exit,
}

impl View for OutboundAction {
    type V = OutboundActionModel;

    open spec fn view(&self) -> OutboundActionModel {
        match *self {
            OutboundAction::Transmit(frame) => OutboundActionModel::Transmit(frame@),
            OutboundAction::Skip(error) => OutboundActionModel::Skip(error),
            OutboundAction::ReportSendFailure => OutboundActionModel::ReportSendFailure,
            OutboundAction::Exit => OutboundActionModel::Exit,
        }
    }
}

/// The outbound worker's step. While it runs, a command is sent as its
/// frame or skipped if it has none, a failed send is reported and nothing
/// more, and only the closing of the queue stops it.
pub open spec fn outbound_transition(state: WorkerState, event: OutboundEventModel) -> (
    WorkerState,
    OutboundActionModel,
) {
    match state {
        WorkerState::Stopped => (WorkerState::Stopped, OutboundActionModel::Exit),
        WorkerState::Running => match event {
            OutboundEventModel::Dequeued(command) => match encoded(command) {
                Ok(frame) => (WorkerState::Running, OutboundActionModel::Transmit(frame)),
                Err(error) => (WorkerState::Running, OutboundActionModel::Skip(error)),
            },
            OutboundEventModel::SendFailed => (
                WorkerState::Running,
                OutboundActionModel::ReportSendFailure,
            ),
            OutboundEventModel::QueueClosed => (WorkerState::Stopped, OutboundActionModel::Exit),
        },
    }
}

/// One step of the outbound worker: the next state and what to do.
pub fn outbound_step(state: WorkerState, event: OutboundEvent) -> (next: (
    WorkerState,
    OutboundAction,
))
    ensures
        (next.0, next.1@) == outbound_transition(state, event@),
{
    match state {
        WorkerState::Stopped => (WorkerState::Stopped, OutboundAction::Exit),
        WorkerState::Running => match event {
            OutboundEvent::Dequeued(command) => match encode(&command) {
                Ok(frame) => (WorkerState::Running, OutboundAction::Transmit(frame)),
                Err(error) => (WorkerState::Running, OutboundAction::Skip(error)),
            },
            OutboundEvent::SendFailed => (WorkerState::Running, OutboundAction::ReportSendFailure),
            OutboundEvent::QueueClosed => (WorkerState::Stopped, OutboundAction::Exit),
        },
    }
}

/// The inbound worker after a run of events: its state, and what it did at
/// each event, in order.
pub open spec fn inbound_run(state: WorkerState, events: Seq<InboundEventModel>) -> (
    WorkerState,
    Seq<InboundActionModel>,
)
    decreases events.len(),
{
    if events.len() == 0 {
        (state, Seq::empty())
    } else {
        let before = inbound_run(state, events.drop_last());
        let step = inbound_transition(before.0, events.last());
        (step.0, before.1.push(step.1))
    }
}

/// The outbound worker after a run of events: its state, and what it did at
/// each event, in order.
pub open spec fn outbound_run(state: WorkerState, events: Seq<OutboundEventModel>) -> (
    WorkerState,
    Seq<OutboundActionModel>,
)
    decreases events.len(),
{
    if events.len() == 0 {
        (state, Seq::empty())
    } else {
        let before = outbound_run(state, events.drop_last());
        let step = outbound_transition(before.0, events.last());
        (step.0, before.1.push(step.1))
    }
}

/// The commands that a run of actions asks to queue, in their order.
pub open spec fn queued(actions: Seq<InboundActionModel>) -> Seq<CommandModel>
    decreases actions.len(),
{
    if actions.len() == 0 {
        Seq::empty()
    } else {
        match actions.last() {
            InboundActionModel::Enqueue(command) => queued(actions.drop_last()).push(command),
            _ => queued(actions.drop_last()),
        }
    }
}

/// The commands that a run of events brings: those of the datagrams that
/// decode, in the order of arrival.
pub open spec fn arrived(events: Seq<InboundEventModel>) -> Seq<CommandModel>
    decreases events.len(),
{
    if events.len() == 0 {
        Seq::empty()
    } else {
        match events.last() {
            InboundEventModel::Datagram(bytes) => match decoded(bytes) {
                Ok(command) => arrived(events.drop_last()).push(command),
                Err(_) => arrived(events.drop_last()),
            },
            _ => arrived(events.drop_last()),
        }
    }
}

/// The datagrams of a list as events.
pub open spec fn datagrams(list: Seq<Seq<u8>>) -> Seq<InboundEventModel> {
    list.map_values(|bytes: Seq<u8>| InboundEventModel::Datagram(bytes))
}

/// No datagram stops the inbound worker, whatever it holds, and none stands
/// in the way of a later one: after any run of datagrams and timeouts the
/// worker still runs, and it has treated each datagram as if it had been
/// the first, queueing it if it decodes and dropping it if not, in the
/// order of arrival.
pub proof fn lemma_inbound_survives_datagrams(events: Seq<InboundEventModel>)
    requires
        forall|i: int|
            0 <= i < events.len() ==> events[i] is Datagram || events[i] is TimedOut,
    ensures
        inbound_run(WorkerState::Running, events).0 == WorkerState::Running,
        inbound_run(WorkerState::Running, events).1.len() == events.len(),
        forall|i: int|
            0 <= i < events.len() ==> inbound_run(WorkerState::Running, events).1[i]
                == inbound_transition(WorkerState::Running, events[i]).1,
    decreases events.len(),
{
    if events.len() > 0 {
        lemma_inbound_survives_datagrams(events.drop_last());
    }
}

/// While it runs, the inbound worker asks to queue exactly the commands
/// that arrive, in the order of arrival, and nothing for any other
/// datagram.
pub proof fn lemma_queue_gets_what_arrives(events: Seq<InboundEventModel>)
    requires
        forall|i: int|
            0 <= i < events.len() ==> events[i] is Datagram || events[i] is TimedOut,
    ensures
        queued(inbound_run(WorkerState::Running, events).1) == arrived(events),
    decreases events.len(),
{
    if events.len() > 0 {
        lemma_queue_gets_what_arrives(events.drop_last());
        lemma_inbound_survives_datagrams(events.drop_last());
        let run = inbound_run(WorkerState::Running, events);
        assert(run.1.drop_last() =~= inbound_run(WorkerState::Running, events.drop_last()).1);
    }
}

/// Datagrams that are no commands bring nothing, and frames behind them
/// bring their commands: after any garbage, the commands of the frames that
/// follow are what arrives, in their order.
pub proof fn lemma_frames_after_garbage_arrive(
    garbage: Seq<Seq<u8>>,
    frames: Seq<Seq<u8>>,
    commands: Seq<CommandModel>,
)
    requires
        forall|i: int| 0 <= i < garbage.len() ==> decoded(#[trigger] garbage[i]) is Err,
        frames.len() == commands.len(),
        forall|j: int|
            0 <= j < frames.len() ==> decoded(#[trigger] frames[j]) == Ok::<
                CommandModel,
                DecodeError,
            >(commands[j]),
    ensures
        arrived(datagrams(garbage + frames)) == commands,
        queued(inbound_run(WorkerState::Running, datagrams(garbage + frames)).1) == commands,
    decreases frames.len(), garbage.len(),
{
    let events = datagrams(garbage + frames);
    if frames.len() > 0 {
        lemma_frames_after_garbage_arrive(garbage, frames.drop_last(), commands.drop_last());
        assert(events.drop_last() =~= datagrams(garbage + frames.drop_last()));
        assert(events.last() == InboundEventModel::Datagram(frames.last()));
        assert(commands =~= commands.drop_last().push(commands.last()));
    } else if garbage.len() > 0 {
        lemma_frames_after_garbage_arrive(garbage.drop_last(), frames, commands);
        assert(events.drop_last() =~= datagrams(garbage.drop_last() + frames));
        assert(events.last() == InboundEventModel::Datagram(garbage.last()));
    } else {
        assert(commands =~= Seq::<CommandModel>::empty());
    }
    lemma_queue_gets_what_arrives(events);
}

/// A command that decodes from a datagram is queued even after any number
/// of datagrams that were no commands.
pub proof fn lemma_valid_datagram_after_garbage(garbage: Seq<Seq<u8>>, bytes: Seq<u8>)
    requires
        decoded(bytes) is Ok,
    ensures
        inbound_run(
            WorkerState::Running,
            garbage.map_values(|g: Seq<u8>| InboundEventModel::Datagram(g)).push(
                InboundEventModel::Datagram(bytes),
            ),
        ) == (
            WorkerState::Running,
            inbound_run(
                WorkerState::Running,
                garbage.map_values(|g: Seq<u8>| InboundEventModel::Datagram(g)),
            ).1.push(InboundActionModel::Enqueue(decoded(bytes)->Ok_0)),
        ),
{
    let before = garbage.map_values(|g: Seq<u8>| InboundEventModel::Datagram(g));
    let events = before.push(InboundEventModel::Datagram(bytes));
    lemma_inbound_survives_datagrams(before);
    assert(events.drop_last() =~= before);
}

/// No command and no failed send stops the outbound worker: until the queue
/// closes it runs, and it has sent the frame of each command that has one,
/// in the order in which the commands left the queue.
pub proof fn lemma_outbound_survives_failures(events: Seq<OutboundEventModel>)
    requires
        forall|i: int| 0 <= i < events.len() ==> !(events[i] is QueueClosed),
    ensures
        outbound_run(WorkerState::Running, events).0 == WorkerState::Running,
        outbound_run(WorkerState::Running, events).1.len() == events.len(),
        forall|i: int|
            0 <= i < events.len() ==> outbound_run(WorkerState::Running, events).1[i]
                == outbound_transition(WorkerState::Running, events[i]).1,
    decreases events.len(),
{
    if events.len() > 0 {
        lemma_outbound_survives_failures(events.drop_last());
    }
}

/// A datagram that is no command is dropped and changes nothing: the
/// worker runs on and queues nothing for it. Every datagram shorter than
/// the header of an output packet is of this kind.
pub proof fn lemma_bad_datagram_is_dropped(bytes: Seq<u8>)
    requires
        decoded(bytes) is Err || bytes.len() < HEADER_LEN,
    ensures
        decoded(bytes) is Err,
        inbound_transition(WorkerState::Running, InboundEventModel::Datagram(bytes)) == (
            WorkerState::Running,
            InboundActionModel::Discard(decoded(bytes)->Err_0),
        ),
{
}

/// A command with more than [`MAX_PAYLOAD`] bytes is skipped and changes
/// nothing: the worker sends nothing for it, runs on, and treats what
/// leaves the queue after it as if the command had never been there.
pub proof fn lemma_oversize_command_is_skipped(
    command: CommandModel,
    later: Seq<OutboundEventModel>,
)
    requires
        command.channel_data().len() > MAX_PAYLOAD,
        forall|i: int| 0 <= i < later.len() ==> !(later[i] is QueueClosed),
    ensures
        outbound_transition(WorkerState::Running, OutboundEventModel::Dequeued(command)) == (
            WorkerState::Running,
            OutboundActionModel::Skip(EncodeError::PayloadTooLarge),
        ),
        outbound_run(
            WorkerState::Running,
            seq![OutboundEventModel::Dequeued(command)] + later,
        ) == (
            WorkerState::Running,
            seq![OutboundActionModel::Skip(EncodeError::PayloadTooLarge)] + outbound_run(
                WorkerState::Running,
                later,
            ).1,
        ),
{
    let first = seq![OutboundEventModel::Dequeued(command)];
    let events = first + later;
    lemma_outbound_survives_failures(later);
    lemma_outbound_survives_failures(events);
    let expected = seq![OutboundActionModel::Skip(EncodeError::PayloadTooLarge)] + outbound_run(
        WorkerState::Running,
        later,
    ).1;
    assert(outbound_run(WorkerState::Running, events).1 =~= expected);
}

/// A stopped worker stays stopped and does nothing more.
pub proof fn lemma_stopped_is_final(inbound: InboundEventModel, outbound: OutboundEventModel)
    ensures
        inbound_transition(WorkerState::Stopped, inbound) == (
            WorkerState::Stopped,
            InboundActionModel::Exit,
        ),
        outbound_transition(WorkerState::Stopped, outbound) == (
            WorkerState::Stopped,
            OutboundActionModel::Exit,
        ),
{
}

/// From one server to its peer: what the outbound worker sends for a
/// command with an even payload of at most [`MAX_PAYLOAD`] bytes
/// and a universe of at most [`MAX_UNIVERSE`], the peer's inbound worker
/// queues as that same command.
pub proof fn lemma_sent_command_arrives(command: CommandModel)
    requires
        command.channel_data().len() <= MAX_PAYLOAD,
        command.channel_data().len() % 2 == 0,
        command.universe() <= MAX_UNIVERSE,
    ensures
        outbound_transition(WorkerState::Running, OutboundEventModel::Dequeued(command)).1
            is Transmit,
        inbound_transition(
            WorkerState::Running,
            InboundEventModel::Datagram(
                outbound_transition(
                    WorkerState::Running,
                    OutboundEventModel::Dequeued(command),
                ).1->Transmit_0,
            ),
        ) == (WorkerState::Running, InboundActionModel::Enqueue(command)),
{
    lemma_round_trip(command);
}

} // verus!
