//! The server handle: the application's side of the two command queues.
//!
//! Commands to send go onto the outbound queue, from which the outbound
//! worker takes them; commands that the inbound worker decoded wait on the
//! inbound queue until the application polls. Neither operation blocks.
//!
//! The other side of each queue belongs to a worker thread, so the handle
//! can say of a queue only what it has seen of it: what it has put in, and
//! what it has counted there and not yet taken out.

use vstd::prelude::*;
use crossbeam_channel::{Receiver, Sender};
use crate::command::{models, Command, CommandModel};
use crate::worker::{
    inbound_step, inbound_transition, InboundAction, InboundActionModel, InboundEvent, WorkerState,
};

verus! {

/// `crossbeam_channel::Sender`, the sending end of a channel, carried
/// through as it is.
#[verifier::external_type_specification]
#[verifier::external_body]
#[verifier::reject_recursive_types(T)]
pub struct ExSender<T>(Sender<T>);

/// `crossbeam_channel::Receiver`, the receiving end of a channel, carried
/// through as it is.
#[verifier::external_type_specification]
#[verifier::external_body]
#[verifier::reject_recursive_types(T)]
pub struct ExReceiver<T>(Receiver<T>);

/// Whether the channel behind a sending end was made without a capacity, so
/// that sending on it never waits for room.
pub uninterp spec fn unbounded(queue: Sender<Command>) -> bool;

/// The commands that a sending end has put into its channel, oldest first.
pub uninterp spec fn accepted(queue: Sender<Command>) -> Seq<CommandModel>;

/// Whether a receiving end is the only one of its channel, so that what
/// waits there waits for it. An end is so when it is made and stays so
/// until it is cloned; the server handle keeps its end to itself.
pub uninterp spec fn exclusive(queue: Receiver<Command>) -> bool;

/// The commands that a receiving end has counted in its channel and not
/// taken since, oldest first. The channel may hold more behind them: what
/// the sending side has put in after the count.
pub uninterp spec fn counted(queue: Receiver<Command>) -> Seq<CommandModel>;

/// The channel that a sending end feeds, as a number that stands for it.
/// Which number that is stays open; the two ends of one channel have the
/// same.
pub uninterp spec fn fed(queue: Sender<Command>) -> int;

/// The channel that a receiving end drains, as a number that stands for it.
pub uninterp spec fn drained(queue: Receiver<Command>) -> int;

/// What is left of a queue when its oldest entry, if it has one, is taken.
pub open spec fn rest(queue: Seq<CommandModel>) -> Seq<CommandModel> {
    if queue.len() > 0 {
        queue.drop_first()
    } else {
        queue
    }
}

/// Calls `crossbeam_channel::unbounded`.
///
/// Trusted: the channel that the crate makes here has no capacity limit
/// and is empty, and the two ends, which are the only ones it has, are
/// ends of this one channel.
#[verifier::external_body]
fn open_queue() -> (ends: (Sender<Command>, Receiver<Command>))
    ensures
        unbounded(ends.0),
        accepted(ends.0) == Seq::<CommandModel>::empty(),
        exclusive(ends.1),
        counted(ends.1) == Seq::<CommandModel>::empty(),
        fed(ends.0) == drained(ends.1),
{
    crossbeam_channel::unbounded()
}

/// Calls `crossbeam_channel::Sender::send`.
///
/// Trusted: on a channel without capacity limit the call returns at once
/// and does not panic. It either puts the message behind all that the
/// channel holds, or, where every receiving end is gone, puts nothing in
/// and returns the very message that was passed in. The end stays an end
/// of the same channel.
#[verifier::external_body]
fn push(queue: &mut Sender<Command>, command: Command) -> (result: Result<(), Command>)
    requires
        unbounded(*old(queue)),
    ensures
        unbounded(*final(queue)),
        fed(*final(queue)) == fed(*old(queue)),
        result.is_ok() ==> accepted(*final(queue)) == accepted(*old(queue)).push(command@),
        result.is_err() ==> result.unwrap_err() == command,
        result.is_err() ==> accepted(*final(queue)) == accepted(*old(queue)),
    no_unwind
{
    match queue.send(command) {
        Ok(()) => Ok(()),
        Err(error) => Err(error.0),
    }
}

/// Calls `crossbeam_channel::Receiver::try_recv`.
///
/// Trusted: the crate takes the oldest message of the channel, fails only
/// where the channel is empty, and does not panic. So the only receiving
/// end gets the oldest of what it has counted, if anything; where it has
/// counted nothing, the result is up to the sending side. The end stays an
/// end of the same channel.
#[verifier::external_body]
fn try_pop(queue: &mut Receiver<Command>) -> (polled: Option<Command>)
    requires
        exclusive(*old(queue)),
    ensures
        exclusive(*final(queue)),
        drained(*final(queue)) == drained(*old(queue)),
        polled.is_none() ==> counted(*old(queue)).len() == 0,
        polled.is_some() && counted(*old(queue)).len() > 0 ==> polled.unwrap()@ == counted(
            *old(queue),
        )[0],
        counted(*final(queue)) == rest(counted(*old(queue))),
    no_unwind
{
    queue.try_recv().ok()
}

/// Calls `crossbeam_channel::Receiver::len`.
///
/// Trusted: the crate returns the number of messages in the channel and
/// does not panic. For the only receiving end these are what it had
/// counted before, and behind them what came in since. The end stays an
/// end of the same channel.
#[verifier::external_body]
fn depth(queue: &mut Receiver<Command>) -> (waiting: usize)
    requires
        exclusive(*old(queue)),
    ensures
        exclusive(*final(queue)),
        drained(*final(queue)) == drained(*old(queue)),
        waiting == counted(*final(queue)).len(),
        counted(*old(queue)).is_prefix_of(counted(*final(queue))),
    no_unwind
{
    queue.len()
}

/// The application's handle on the transport.
pub struct ArtNetServer {
    tx_send: Sender<Command>,
    rx_recv: Receiver<Command>,
}

/// The inbound worker's end of the inbound queue.
pub struct InboundFeed {
    queue: Sender<Command>,
}

/// The workers' ends of the two queues: the outbound worker takes commands
/// from `outbound`, the inbound worker pushes onto `inbound`.
pub struct WorkerEndpoints {
    pub outbound: Receiver<Command>,
    pub inbound: InboundFeed,
}

impl InboundFeed {
    #[verifier::type_invariant]
    spec fn well_formed(&self) -> bool {
        unbounded(self.queue)
    }

    /// The commands that were put onto the inbound queue through this end,
    /// oldest first.
    pub closed spec fn delivered(&self) -> Seq<CommandModel> {
        accepted(self.queue)
    }

    /// The channel that this end feeds.
    pub closed spec fn channel(&self) -> int {
        fed(self.queue)
    }

    /// Puts a command onto the inbound queue, behind all that were
    /// delivered before. Never waits; fails only where the server handle is
    /// gone, and then hands the command back and leaves the queue as it
    /// was.
    pub fn deliver(&mut self, command: Command) -> (result: Result<(), Command>)
        ensures
            match result {
                Ok(()) => final(self).delivered() == old(self).delivered().push(command@),
                Err(returned) => returned == command && final(self).delivered() == old(
                    self,
                ).delivered(),
            },
            final(self).channel() == old(self).channel(),
    {
        proof {
            use_type_invariant(&*self);
        }
        push(&mut self.queue, command)
    }

    /// One step of the inbound worker, carried out on the queue: decides as
    /// [`inbound_step`] does, and where that is to queue a command, queues
    /// it.
    ///
    /// The queue gets the command of a datagram that decodes, and nothing
    /// on any other event. The result is what was decided and done; where
    /// the queue refuses the command, because the server handle is gone,
    /// the worker stops.
    pub fn handle(&mut self, state: WorkerState, event: InboundEvent<'_>) -> (next: (
        WorkerState,
        InboundAction,
    ))
        ensures
            final(self).channel() == old(self).channel(),
            match inbound_transition(state, event@).1 {
                InboundActionModel::Enqueue(command) => {
                    ||| {
                        &&& final(self).delivered() == old(self).delivered().push(command)
                        &&& (next.0, next.1@) == inbound_transition(state, event@)
                    }
                    ||| {
                        &&& final(self).delivered() == old(self).delivered()
                        &&& (next.0, next.1@) == (WorkerState::Stopped, InboundActionModel::Exit)
                    }
                },
                _ => {
                    &&& final(self).delivered() == old(self).delivered()
                    &&& (next.0, next.1@) == inbound_transition(state, event@)
                },
            },
    {
        let (decided, action) = inbound_step(state, event);
        match action {
            InboundAction::Enqueue(command) => {
                let copy = command.clone();
                match self.deliver(command) {
                    Ok(()) => (decided, InboundAction::Enqueue(copy)),
                    Err(_) => inbound_step(decided, InboundEvent::Shutdown),
                }
            },
            other => (decided, other),
        }
    }
}

/// Adds what one poll returned to a batch, behind what the batch holds, and
/// says whether the poll returned anything.
pub fn gather(batch: &mut Vec<Command>, polled: Option<Command>) -> (more: bool)
    ensures
        more == polled is Some,
        polled is Some ==> final(batch)@ == old(batch)@.push(polled->0),
        polled is None ==> final(batch)@ == old(batch)@,
{
    match polled {
        Some(command) => {
            batch.push(command);
            true
        },
        None => false,
    }
}

impl ArtNetServer {
    #[verifier::type_invariant]
    spec fn well_formed(&self) -> bool {
        unbounded(self.tx_send) && exclusive(self.rx_recv)
    }

    /// The commands that were put onto the outbound queue through this
    /// handle, oldest first.
    pub closed spec fn sent(&self) -> Seq<CommandModel> {
        accepted(self.tx_send)
    }

    /// The commands that this handle has counted on the inbound queue and
    /// not taken since, oldest first.
    pub closed spec fn waiting(&self) -> Seq<CommandModel> {
        counted(self.rx_recv)
    }

    /// The channel that is this handle's outbound queue.
    pub closed spec fn outbound(&self) -> int {
        fed(self.tx_send)
    }

    /// The channel that is this handle's inbound queue.
    pub closed spec fn inbound(&self) -> int {
        drained(self.rx_recv)
    }

    /// Makes the two queues, both empty and without capacity limit, and
    /// returns the handle together with the workers' ends: the outbound
    /// worker drains the queue that `send` feeds, and the inbound worker
    /// feeds the queue that `poll` drains.
    pub fn new() -> (made: (ArtNetServer, WorkerEndpoints))
        ensures
            made.0.sent() == Seq::<CommandModel>::empty(),
            made.0.waiting() == Seq::<CommandModel>::empty(),
            drained(made.1.outbound) == made.0.outbound(),
            made.1.inbound.channel() == made.0.inbound(),
            made.1.inbound.delivered() == Seq::<CommandModel>::empty(),
    {
        let (tx_send, rx_send) = open_queue();
        let (tx_recv, rx_recv) = open_queue();
        (
            ArtNetServer { tx_send, rx_recv },
            WorkerEndpoints { outbound: rx_send, inbound: InboundFeed { queue: tx_recv } },
        )
    }

    /// Counts the commands on the inbound queue. From then on they are
    /// known to wait, behind those that were known before.
    pub fn pending(&mut self) -> (count: usize)
        ensures
            count == final(self).waiting().len(),
            old(self).waiting().is_prefix_of(final(self).waiting()),
            final(self).sent() == old(self).sent(),
            final(self).outbound() == old(self).outbound(),
            final(self).inbound() == old(self).inbound(),
    {
        proof {
            use_type_invariant(&*self);
        }
        depth(&mut self.rx_recv)
    }

    /// Puts a command onto the outbound queue, behind all that were sent
    /// before. Never waits; fails only where the outbound worker is gone,
    /// and then hands the command back and leaves the queue as it was.
    pub fn send(&mut self, command: Command) -> (result: Result<(), Command>)
        ensures
            match result {
                Ok(()) => final(self).sent() == old(self).sent().push(command@),
                Err(returned) => returned == command && final(self).sent() == old(self).sent(),
            },
            final(self).waiting() == old(self).waiting(),
            final(self).outbound() == old(self).outbound(),
            final(self).inbound() == old(self).inbound(),
    {
        proof {
            use_type_invariant(&*self);
        }
        push(&mut self.tx_send, command)
    }

    /// Takes the oldest command from the inbound queue, if one waits.
    ///
    /// Where commands are known to wait, the result is the oldest of them;
    /// where none is, it is whatever has arrived, or nothing.
    pub fn poll(&mut self) -> (polled: Option<Command>)
        ensures
            polled is None ==> old(self).waiting().len() == 0,
            polled is Some && old(self).waiting().len() > 0 ==> polled->0@ == old(
                self,
            ).waiting()[0],
            final(self).waiting() == rest(old(self).waiting()),
            final(self).sent() == old(self).sent(),
            final(self).outbound() == old(self).outbound(),
            final(self).inbound() == old(self).inbound(),
    {
        proof {
            use_type_invariant(&*self);
        }
        try_pop(&mut self.rx_recv)
    }

    /// Takes the commands that are known to wait on the inbound queue:
    /// all of them, oldest first, and nothing else. `count` is their
    /// number, as [`ArtNetServer::pending`] returned it.
    pub fn take_counted(&mut self, count: usize) -> (commands: Vec<Command>)
        requires
            count == old(self).waiting().len(),
        ensures
            models(commands@) == old(self).waiting(),
            final(self).waiting() == Seq::<CommandModel>::empty(),
            final(self).sent() == old(self).sent(),
            final(self).outbound() == old(self).outbound(),
            final(self).inbound() == old(self).inbound(),
    {
        proof {
            use_type_invariant(&*self);
        }
        let ghost found = counted(self.rx_recv);
        let mut commands: Vec<Command> = Vec::new();
        let mut taken: usize = 0;
        while taken < count
            invariant
                taken <= count,
                count == found.len(),
                exclusive(self.rx_recv),
                unbounded(self.tx_send),
                self.tx_send == old(self).tx_send,
                drained(self.rx_recv) == drained(old(self).rx_recv),
                commands@.len() == taken,
                models(commands@) == found.subrange(0, taken as int),
                counted(self.rx_recv) == found.subrange(taken as int, found.len() as int),
            ensures
                models(commands@) == found,
                counted(self.rx_recv) == Seq::<CommandModel>::empty(),
                self.tx_send == old(self).tx_send,
                drained(self.rx_recv) == drained(old(self).rx_recv),
                exclusive(self.rx_recv),
                unbounded(self.tx_send),
            decreases count - taken,
        {
            let ghost before = counted(self.rx_recv);
            if !gather(&mut commands, try_pop(&mut self.rx_recv)) {
                break;
            }
            proof {
                assert(before[0] == found[taken as int]);
                assert(rest(before) =~= found.subrange(taken + 1, found.len() as int));
                assert(models(commands@) =~= found.subrange(0, taken + 1));
            }
            taken = taken + 1;
        }
        proof {
            assert(found.subrange(0, found.len() as int) =~= found);
            assert(found.subrange(found.len() as int, found.len() as int) =~= Seq::<
                CommandModel,
            >::empty());
        }
        commands
    }

    /// Takes what waits on the inbound queue, oldest first: as many
    /// commands as wait when the call begins, so that a sender that outruns
    /// the caller cannot hold it here.
    ///
    /// The result opens with the commands that were known to wait, in
    /// their order; behind them come those that arrived since they were
    /// counted. Nothing is known to wait afterwards.
    pub fn poll_all(&mut self) -> (commands: Vec<Command>)
        ensures
            old(self).waiting().is_prefix_of(models(commands@)),
            final(self).waiting() == Seq::<CommandModel>::empty(),
            final(self).sent() == old(self).sent(),
            final(self).outbound() == old(self).outbound(),
            final(self).inbound() == old(self).inbound(),
    {
        let count = self.pending();
        self.take_counted(count)
    }
}

} // verus!
