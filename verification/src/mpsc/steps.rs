//! What can be done to a channel, one step at a time.
use crate::mpsc::ChannelState;
use crate::thingbuf::Ref;
use vstd::prelude::*;

verus! {

/// One thing that is done to a channel.
pub enum Step<T, N> {
    /// A producer is given a slot.
    Reserve,
    /// A producer is refused a slot.
    Refuse,
    /// A producer has finished with its slot.
    FinishSend(Ref<T>),
    /// A producer is given a slot, leaves a message in it and has finished with
    /// it.
    Send(T),
    /// A producer that was refused starts to wait.
    Link(usize, N),
    /// A producer that waits goes on waiting, in another task.
    Relink(usize, N),
    /// A producer leaves its place in the queue.
    Unlink(usize),
    /// The consumer takes a message.
    Take,
    /// The consumer finds nothing and waits.
    Park(N),
    /// The consumer gives a slot back.
    FinishRecv(T),
    /// There is one producer more.
    AddTx,
    /// There is one producer less.
    DropTx,
    /// The consumer is gone.
    CloseRx,
}

impl<T, N> Step<T, N> {
    /// Whether the step can be taken.
    pub open spec fn enabled(self, s: ChannelState<T, N>) -> bool {
        match self {
            Step::Reserve => s.buffer.has_room(),
            Step::Refuse => !s.buffer.has_room(),
            Step::FinishSend(slot) => s.buffer.is_writing(slot.index as int),
            Step::Send(_) => s.buffer.has_room(),
            Step::Link(key, _) => !s.buffer.has_room() && !s.tx.closed && !s.tx.has_key(key),
            Step::Relink(key, _) => !s.tx.closed && s.tx.is_linked(key),
            Step::Unlink(_) => true,
            Step::Take => s.buffer.is_ready(),
            Step::Park(_) => !s.can_receive(),
            Step::FinishRecv(_) => s.buffer.lent > 0,
            Step::AddTx => true,
            Step::DropTx => true,
            Step::CloseRx => true,
        }
    }

    /// The channel once the step has been taken.
    pub open spec fn next(self, s: ChannelState<T, N>) -> ChannelState<T, N> {
        match self {
            Step::Reserve => s.reserve(),
            Step::Refuse => s.refuse(),
            Step::FinishSend(slot) => s.finish_send(slot),
            Step::Send(value) => s.send(value),
            Step::Link(key, task) => ChannelState { tx: s.tx.forget().link(key, task), ..s },
            Step::Relink(key, task) => ChannelState { tx: s.tx.relink(key, task), ..s },
            Step::Unlink(key) => s.unlink(key),
            Step::Take => s.take(),
            Step::Park(task) => s.park(task),
            Step::FinishRecv(value) => s.finish_recv(value),
            Step::AddTx => s.add_tx(),
            Step::DropTx => s.drop_tx(),
            Step::CloseRx => s.close_rx(),
        }
    }

    /// The consumer's task, if the step hands it out to be woken.
    pub open spec fn wakes_consumer(self, s: ChannelState<T, N>) -> Option<N> {
        match self {
            Step::Refuse => s.woken_by_refusal(),
            Step::FinishSend(_) => s.rx.waiter,
            Step::Send(_) => s.rx.waiter,
            Step::DropTx => if s.tx_count > 1 {
                None
            } else {
                s.rx.waiter
            },
            _ => None,
        }
    }
}

impl<T, N> ChannelState<T, N> {
    /// The channel once the steps have been taken, one after the other.
    pub open spec fn run(self, steps: Seq<Step<T, N>>) -> Self
        decreases steps.len(),
    {
        if steps.len() == 0 {
            self
        } else {
            steps.last().next(self.run(steps.drop_last()))
        }
    }

    /// Whether the steps can be taken, one after the other.
    pub open spec fn all_enabled(self, steps: Seq<Step<T, N>>) -> bool
        decreases steps.len(),
    {
        steps.len() == 0 || {
            &&& self.all_enabled(steps.drop_last())
            &&& steps.last().enabled(self.run(steps.drop_last()))
        }
    }

    /// Whether the channel can come to be in the state `other`, by steps.
    pub open spec fn reaches(self, other: Self) -> bool {
        exists|steps: Seq<Step<T, N>>| #[trigger]
            self.all_enabled(steps) && self.run(steps) == other
    }

    /// The messages that the consumer takes in the course of the steps.
    pub open spec fn taken(self, steps: Seq<Step<T, N>>) -> Seq<T>
        decreases steps.len(),
    {
        if steps.len() == 0 {
            Seq::empty()
        } else {
            let before = self.taken(steps.drop_last());
            match steps.last() {
                Step::Take => before.push(self.run(steps.drop_last()).buffer.front().value),
                _ => before,
            }
        }
    }

    /// The slots in the queue, the one that the consumer takes next first.
    pub open spec fn pending(self) -> Seq<Option<T>> {
        self.buffer.slots.skip(self.buffer.popped as int)
    }

    /// The slots that were in the queue, followed by those that are handed out in
    /// the course of the steps, in the order in which they are handed out, each
    /// with what its producer leaves in it; `None`, if it has not finished.
    pub open spec fn ledger(self, steps: Seq<Step<T, N>>) -> Seq<Option<T>>
        decreases steps.len(),
    {
        if steps.len() == 0 {
            self.pending()
        } else {
            let before = self.ledger(steps.drop_last());
            let state = self.run(steps.drop_last());
            match steps.last() {
                Step::Reserve => before.push(None),
                Step::Send(value) => before.push(Some(value)),
                Step::FinishSend(slot) => before.update(
                    state.buffer.number(slot.index as int) - self.buffer.popped,
                    Some(slot.value),
                ),
                _ => before,
            }
        }
    }

    /// Whether no slot in the queue is still being written.
    pub open spec fn all_written(self) -> bool {
        forall|i: int|
            self.buffer.popped <= i < self.buffer.slots.len() ==> (
            #[trigger] self.buffer.slots[i]) is Some
    }

    /// The messages in the queue, the first one first; for a channel in whose
    /// queue no slot is still being written.
    pub open spec fn messages(self) -> Seq<T> {
        Seq::new(self.buffer.queued(), |i: int| self.buffer.slots[self.buffer.popped + i]->0)
    }
}

/// How a channel began. All that is ever done to it is to take steps.
pub struct Origin<T, N> {
    /// The channel as it was made.
    pub initial: ChannelState<T, N>,
}

impl<T, N> Origin<T, N> {
    /// Whether the channel can be in the state `state`.
    pub open spec fn admits(self, state: ChannelState<T, N>) -> bool {
        self.initial.wf() && self.initial.reaches(state)
    }
}

} // verus!
