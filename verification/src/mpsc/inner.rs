//! The channel as one value.
use crate::mpsc::{Closed, TrySendError};
use crate::thingbuf::{BufferState, Ref, ThingBuf};
use crate::wait::cell::WaitCell;
use crate::wait::queue::{ContinueWait, QueueState, StartWait, WaitQueue};
use core::task::Poll;
use std::collections::VecDeque;
use vstd::prelude::*;

verus! {

/// What an [`Inner`] is, mathematically.
#[verifier::ext_equal]
pub struct ChannelState<T, N> {
    /// The messages and the free slots.
    pub buffer: BufferState<T>,
    /// The consumer's place.
    pub rx: WaitCell<N>,
    /// The places of the producers that wait for a free slot.
    pub tx: QueueState<N>,
    /// How many producers there are.
    pub tx_count: usize,
}

impl<T, N> ChannelState<T, N> {
    /// Whether the consumer learns something at once: there is a message, or
    /// there will never be another one.
    pub open spec fn can_receive(self) -> bool {
        self.buffer.is_ready() || self.buffer.is_finished()
    }

    /// The parts are well formed, they agree on which ends of the channel are
    /// gone, and the consumer does not sleep while there is something for it.
    pub open spec fn wf(self) -> bool {
        &&& self.buffer.wf()
        &&& self.buffer.capacity <= usize::MAX
        &&& self.tx.wf()
        &&& self.buffer.closed == (self.rx.tx_closed || self.rx.rx_closed)
        &&& self.tx.closed == self.rx.rx_closed
        &&& self.rx.waiter is Some && !self.rx.rx_closed ==> !self.can_receive()
    }

    /// A channel with one producer and the slots of `buffer`.
    pub open spec fn initial(buffer: BufferState<T>) -> Self {
        ChannelState {
            buffer,
            rx: WaitCell { waiter: None, tx_closed: false, rx_closed: false },
            tx: QueueState { waiters: Seq::empty(), stored: false, closed: false },
            tx_count: 1,
        }
    }

    /// Why a producer is refused, when no slot can be handed out.
    pub open spec fn send_error(self) -> TrySendError {
        if self.rx.rx_closed {
            TrySendError::Closed(())
        } else {
            TrySendError::Full(())
        }
    }

    /// The task that is woken when a producer is refused: the consumer, which is
    /// to make room.
    pub open spec fn woken_by_refusal(self) -> Option<N> {
        if self.rx.rx_closed {
            None
        } else {
            self.rx.waiter
        }
    }

    /// The channel once a producer has been refused.
    pub open spec fn refuse(self) -> Self {
        if self.rx.rx_closed {
            self
        } else {
            ChannelState { rx: WaitCell { waiter: None, ..self.rx }, ..self }
        }
    }

    /// The channel once a producer has been given a slot.
    pub open spec fn reserve(self) -> Self {
        ChannelState { buffer: self.buffer.reserve(), ..self }
    }

    /// The channel once a producer has finished with the slot `slot`.
    pub open spec fn finish_send(self, slot: Ref<T>) -> Self {
        ChannelState {
            buffer: self.buffer.fill(slot.index as int, slot.value),
            rx: WaitCell { waiter: None, ..self.rx },
            ..self
        }
    }

    /// The channel once the message `value` has been sent.
    pub open spec fn send(self, value: T) -> Self {
        self.reserve().finish_send(Ref { index: self.buffer.next_slot().index, value })
    }

    /// The channel once the consumer has taken a message.
    pub open spec fn take(self) -> Self {
        ChannelState { buffer: self.buffer.pop(), ..self }
    }

    /// The channel once the consumer waits in the task `task`.
    pub open spec fn park(self, task: N) -> Self {
        ChannelState { rx: WaitCell { waiter: Some(task), ..self.rx }, ..self }
    }

    /// The channel once the consumer has given a slot back that holds `value`.
    pub open spec fn finish_recv(self, value: T) -> Self {
        ChannelState { buffer: self.buffer.give_back(value), tx: self.tx.notify(), ..self }
    }

    /// What the consumer gets that asks for the slot of the next message and is
    /// ready to wait in `task`.
    pub open spec fn recv_ref_answer(self, task: N) -> RecvPoll<T, N> {
        if self.buffer.is_ready() {
            RecvPoll { poll: Poll::Ready(Some(self.buffer.front())), unused: Some(task) }
        } else if self.buffer.is_finished() {
            RecvPoll { poll: Poll::Ready(None), unused: Some(task) }
        } else {
            RecvPoll { poll: Poll::Pending, unused: self.rx.waiter }
        }
    }

    /// The channel once the consumer has asked for the slot of the next message.
    pub open spec fn recv_ref(self, task: N) -> Self {
        if self.buffer.is_ready() {
            self.take()
        } else if self.buffer.is_finished() {
            self
        } else {
            self.park(task)
        }
    }

    /// What the consumer gets that asks for the next message itself, is ready to
    /// wait in `task`, and leaves `left` where it took the message from.
    pub open spec fn recv_answer(self, task: N, left: Option<T>) -> RecvValuePoll<T, N> {
        if self.buffer.is_ready() {
            RecvValuePoll {
                poll: Poll::Ready(Some(self.buffer.front().value)),
                left: None,
                woken: self.tx.notified_task(),
                unused: Some(task),
            }
        } else if self.buffer.is_finished() {
            RecvValuePoll { poll: Poll::Ready(None), left, woken: None, unused: Some(task) }
        } else {
            RecvValuePoll { poll: Poll::Pending, left, woken: None, unused: self.rx.waiter }
        }
    }

    /// The channel once the consumer has asked for the next message itself.
    pub open spec fn recv(self, task: N, left: Option<T>) -> Self {
        if self.buffer.is_ready() {
            self.take().finish_recv(left->0)
        } else {
            self.recv_ref(task)
        }
    }

    /// The channel once the producer at the place `key` of the queue has left it.
    pub open spec fn unlink(self, key: usize) -> Self {
        ChannelState { tx: self.tx.unlink(key), ..self }
    }

    /// The channel once there is one producer more.
    pub open spec fn add_tx(self) -> Self {
        ChannelState {
            tx_count: if self.tx_count == usize::MAX {
                0
            } else {
                (self.tx_count + 1) as usize
            },
            ..self
        }
    }

    /// The channel once there is one producer less. The last one closes it.
    pub open spec fn drop_tx(self) -> Self {
        if self.tx_count > 1 {
            ChannelState { tx_count: (self.tx_count - 1) as usize, ..self }
        } else {
            ChannelState {
                buffer: self.buffer.close(),
                rx: WaitCell { waiter: None, tx_closed: true, ..self.rx },
                tx_count: if self.tx_count == 1 {
                    0
                } else {
                    usize::MAX
                },
                ..self
            }
        }
    }

    /// The channel once the consumer is gone.
    pub open spec fn close_rx(self) -> Self {
        ChannelState {
            buffer: self.buffer.close(),
            rx: WaitCell { rx_closed: true, ..self.rx },
            tx: self.tx.close(),
            ..self
        }
    }

    /// What a producer that does not wait yet gets when it asks for a slot and is
    /// ready to wait in `task`: from this channel and `state`, to `after` and
    /// `after_state`, with the answer `r`.
    pub open spec fn attempts_send(
        self,
        state: State,
        task: N,
        after: Self,
        after_state: State,
        r: SendPoll<T, N>,
    ) -> bool {
        if self.buffer.has_room() {
            &&& r.poll == Poll::Ready(Ok::<Ref<T>, Closed>(self.buffer.next_slot()))
            &&& r.woken is None
            &&& r.unused == Some(task)
            &&& after_state == state
            &&& after == self.reserve()
        } else if self.rx.rx_closed {
            &&& r.poll == Poll::Ready(Err::<Ref<T>, Closed>(Closed(())))
            &&& r.woken is None
            &&& r.unused == Some(task)
            &&& after_state == state
            &&& after == self
        } else {
            &&& r.poll is Pending
            &&& r.woken == self.rx.waiter
            &&& r.unused is None
            &&& after_state is Waiting
            &&& !self.tx.has_key(after_state->Waiting_0)
            &&& after == (ChannelState {
                rx: WaitCell { waiter: None, ..self.rx },
                tx: self.tx.forget().link(after_state->Waiting_0, task),
                ..self
            })
        }
    }

    /// What a producer gets that asks for a slot and is ready to wait in `task`:
    /// from this channel and `state`, to `after` and `after_state`, with the
    /// answer `r`.
    pub open spec fn polls_send(
        self,
        state: State,
        task: N,
        after: Self,
        after_state: State,
        r: SendPoll<T, N>,
    ) -> bool {
        match state {
            State::Waiting(key) => if self.tx.closed {
                &&& r.poll == Poll::Ready(Err::<Ref<T>, Closed>(Closed(())))
                &&& r.woken is None
                &&& r.unused == Some(task)
                &&& after_state == State::Done
                &&& after == self.unlink(key)
            } else if self.tx.is_linked(key) {
                &&& r.poll is Pending
                &&& r.woken is None
                &&& r.unused == self.tx.waiters[self.tx.position(key)].task
                &&& after_state == state
                &&& after == (ChannelState { tx: self.tx.relink(key, task), ..self })
            } else {
                self.unlink(key).attempts_send(State::Done, task, after, after_state, r)
            },
            _ => self.attempts_send(state, task, after, after_state, r),
        }
    }
}

impl<T, N> ChannelState<T, N> {
    /// What a producer that does not wait yet gets when it sends the message
    /// `val` and is ready to wait in `task`: from this channel and `state`, to
    /// `after` and `after_state`, with the answer `r`.
    pub open spec fn attempts_send_value(
        self,
        state: State,
        task: N,
        val: T,
        after: Self,
        after_state: State,
        r: SendValuePoll<T, N>,
    ) -> bool {
        if self.buffer.has_room() {
            &&& r.poll == Poll::Ready(Ok::<(), Closed<T>>(()))
            &&& r.val is None
            &&& r.woken == self.rx.waiter
            &&& r.unused == Some(task)
            &&& r.replaced == Some(self.buffer.spare[0])
            &&& after_state == state
            &&& after == self.send(val)
        } else if self.rx.rx_closed {
            &&& r.poll == Poll::Ready(Err::<(), Closed<T>>(Closed(val)))
            &&& r.val is None
            &&& r.woken is None
            &&& r.unused == Some(task)
            &&& r.replaced is None
            &&& after_state == state
            &&& after == self
        } else {
            &&& r.poll is Pending
            &&& r.val == Some(val)
            &&& r.woken == self.rx.waiter
            &&& r.unused is None
            &&& r.replaced is None
            &&& after_state is Waiting
            &&& !self.tx.has_key(after_state->Waiting_0)
            &&& after == (ChannelState {
                rx: WaitCell { waiter: None, ..self.rx },
                tx: self.tx.forget().link(after_state->Waiting_0, task),
                ..self
            })
        }
    }

    /// What a producer gets that sends the message `val` and is ready to wait in
    /// `task`: from this channel and `state`, to `after` and `after_state`, with
    /// the answer `r`.
    pub open spec fn polls_send_value(
        self,
        state: State,
        task: N,
        val: T,
        after: Self,
        after_state: State,
        r: SendValuePoll<T, N>,
    ) -> bool {
        match state {
            State::Waiting(key) => if self.tx.closed {
                &&& r.poll == Poll::Ready(Err::<(), Closed<T>>(Closed(val)))
                &&& r.val is None
                &&& r.woken is None
                &&& r.unused == Some(task)
                &&& r.replaced is None
                &&& after_state == State::Done
                &&& after == self.unlink(key)
            } else if self.tx.is_linked(key) {
                &&& r.poll is Pending
                &&& r.val == Some(val)
                &&& r.woken is None
                &&& r.unused == self.tx.waiters[self.tx.position(key)].task
                &&& r.replaced is None
                &&& after_state == state
                &&& after == (ChannelState { tx: self.tx.relink(key, task), ..self })
            } else {
                self.unlink(key).attempts_send_value(
                    State::Done,
                    task,
                    val,
                    after,
                    after_state,
                    r,
                )
            },
            _ => self.attempts_send_value(state, task, val, after, after_state, r),
        }
    }
}

/// How far a producer that asks for a slot has come.
#[derive(Debug, Copy, Clone, PartialEq, Eq)]
pub enum State {
    /// It does not wait.
    Start,
    /// It waits, at the place with this key.
    Waiting(usize),
    /// It has been notified.
    Done,
}

/// What became of a message.
#[derive(Debug)]
pub struct Sent<T, N> {
    /// Whether the message was sent; if not, why not.
    pub result: Result<(), TrySendError<T>>,
    /// The task to wake.
    pub woken: Option<N>,
    /// What the slot held before the message.
    pub replaced: Option<T>,
}

/// What a producer gets that asks for a slot.
#[verifier::reject_recursive_types(T)]
#[derive(Debug)]
pub struct SendPoll<T, N> {
    /// The slot, if there is one; pending, if the producer waits.
    pub poll: Poll<Result<Ref<T>, Closed>>,
    /// The task to wake.
    pub woken: Option<N>,
    /// The task that does not wait, or no longer waits.
    pub unused: Option<N>,
}

/// What a producer gets that sends a message.
#[verifier::reject_recursive_types(T)]
#[derive(Debug)]
pub struct SendValuePoll<T, N> {
    /// Whether the message was sent; pending, if the producer waits.
    pub poll: Poll<Result<(), Closed<T>>>,
    /// The message, if it is still to be sent.
    pub val: Option<T>,
    /// The task to wake.
    pub woken: Option<N>,
    /// The task that does not wait, or no longer waits.
    pub unused: Option<N>,
    /// What the slot held before the message.
    pub replaced: Option<T>,
}

/// What the consumer gets that asks for the next message itself.
#[verifier::reject_recursive_types(T)]
#[derive(Debug)]
pub struct RecvValuePoll<T, N> {
    /// The message; none, if there will never be another one; pending, if the
    /// consumer waits.
    pub poll: Poll<Option<T>>,
    /// What was to be left in place of a message, if none was taken.
    pub left: Option<T>,
    /// The task to wake.
    pub woken: Option<N>,
    /// The task that does not wait, or no longer waits.
    pub unused: Option<N>,
}

/// What the consumer gets that asks for the slot of the next message.
#[verifier::reject_recursive_types(T)]
#[derive(Debug)]
pub struct RecvPoll<T, N> {
    /// The slot with the message; none, if there will never be another message;
    /// pending, if the consumer waits.
    pub poll: Poll<Option<Ref<T>>>,
    /// The task that does not wait, or no longer waits.
    pub unused: Option<N>,
}

/// The state that the two ends of a channel share: the buffer of slots, the
/// number of producers, and who waits for what.
///
/// `N` is what a waiting task leaves behind to be woken. No operation wakes a
/// task by itself: it hands out what is to be woken, so that this can be done
/// when the channel is no longer held.
pub struct Inner<T, N> {
    thingbuf: ThingBuf<T>,
    rx_wait: WaitCell<N>,
    tx_count: usize,
    tx_wait: WaitQueue<N>,
}

impl<T, N> View for Inner<T, N> {
    type V = ChannelState<T, N>;

    closed spec fn view(&self) -> ChannelState<T, N> {
        ChannelState {
            buffer: self.thingbuf@,
            rx: self.rx_wait,
            tx: self.tx_wait@,
            tx_count: self.tx_count,
        }
    }
}

impl<T, N> Inner<T, N> {
    /// The buffer is well formed, and so is the channel as a whole.
    pub closed spec fn wf(&self) -> bool {
        self.thingbuf.wf() && self@.wf()
    }

    /// A well-formed channel has a well-formed state.
    pub proof fn lemma_wf(&self)
        requires
            self.wf(),
        ensures
            self@.wf(),
    {
    }

    /// A channel with one producer, whose messages go into the slots of
    /// `thingbuf`.
    pub fn new(thingbuf: ThingBuf<T>) -> (r: Self)
        requires
            thingbuf.wf(),
            !thingbuf@.closed,
        ensures
            r.wf(),
            r@ == ChannelState::<T, N>::initial(thingbuf@),
    {
        proof {
            thingbuf.lemma_wf();
        }
        Inner {
            thingbuf,
            rx_wait: WaitCell::new(),
            tx_count: 1,
            tx_wait: WaitQueue::new(),
        }
    }

    /// Gives a free slot to a producer. If there is none, the consumer is to be
    /// woken; if the consumer is gone, the channel is closed.
    pub fn try_send_ref(&mut self) -> (r: (Result<Ref<T>, TrySendError>, Option<N>))
        requires
            old(self).wf(),
        ensures
            final(self).wf(),
            old(self)@.buffer.has_room() ==> {
                &&& r.0 == Ok::<Ref<T>, TrySendError>(old(self)@.buffer.next_slot())
                &&& r.1 is None
                &&& final(self)@ == old(self)@.reserve()
                &&& final(self)@.buffer.is_writing(old(self)@.buffer.next_slot().index as int)
            },
            !old(self)@.buffer.has_room() ==> {
                &&& r.0 == Err::<Ref<T>, TrySendError>(old(self)@.send_error())
                &&& r.1 == old(self)@.woken_by_refusal()
                &&& final(self)@ == old(self)@.refuse()
            },
    {
        match self.thingbuf.push_ref() {
            Some(slot) => (Ok(slot), None),
            None => if self.rx_wait.is_rx_closed() {
                (Err(TrySendError::Closed(())), None)
            } else {
                let woken = self.rx_wait.notify();
                (Err(TrySendError::Full(())), woken)
            },
        }
    }

    /// Whether `slot` is in the hands of a producer of this channel.
    pub fn is_sending(&self, slot: &Ref<T>) -> (r: bool)
        requires
            self.wf(),
        ensures
            r == self@.buffer.is_writing(slot.index as int),
    {
        self.thingbuf.is_writing(slot.index)
    }

    /// Takes back the slot of a producer that has finished with it, and hands out
    /// the consumer's task, to be woken.
    pub fn finish_send(&mut self, slot: Ref<T>) -> (r: Option<N>)
        requires
            old(self).wf(),
            old(self)@.buffer.is_writing(slot.index as int),
        ensures
            final(self).wf(),
            r == old(self)@.rx.waiter,
            final(self)@ == old(self)@.finish_send(slot),
    {
        self.thingbuf.fill(slot);
        self.rx_wait.notify()
    }

    /// Sends the message `val`, if a slot is free.
    pub fn try_send(&mut self, val: T) -> (r: Sent<T, N>)
        requires
            old(self).wf(),
        ensures
            final(self).wf(),
            old(self)@.buffer.has_room() ==> {
                &&& r.result == Ok::<(), TrySendError<T>>(())
                &&& r.woken == old(self)@.rx.waiter
                &&& r.replaced == Some(old(self)@.buffer.spare[0])
                &&& final(self)@ == old(self)@.send(val)
            },
            !old(self)@.buffer.has_room() ==> {
                &&& r.result == Err::<(), TrySendError<T>>(
                    old(self)@.send_error().spec_with_value(val),
                )
                &&& r.woken == old(self)@.woken_by_refusal()
                &&& r.replaced is None
                &&& final(self)@ == old(self)@.refuse()
            },
    {
        match self.try_send_ref() {
            (Ok(slot), _) => {
                let Ref { index, value } = slot;
                let woken = self.finish_send(Ref { index, value: val });
                Sent { result: Ok(()), woken, replaced: Some(value) }
            },
            (Err(e), woken) => Sent { result: Err(e.with_value(val)), woken, replaced: None },
        }
    }

    /// Asks for a slot on behalf of a producer that has come as far as `state`,
    /// and lets it wait in `task` if no slot is free.
    ///
    /// A producer that waits gets no slot before it has been notified. One that
    /// has been notified and finds that another was quicker waits again, behind
    /// all the others.
    pub fn poll_send_ref(&mut self, state: &mut State, task: N) -> (r: SendPoll<T, N>)
        requires
            old(self).wf(),
        ensures
            final(self).wf(),
            old(self)@.polls_send(*old(state), task, final(self)@, *final(state), r),
            r.poll matches Poll::Ready(Ok(slot)) ==> final(self)@.buffer.is_writing(
                slot.index as int,
            ),
    {
        let ghost start = self@;
        let ghost first = *state;
        // The channel on which a slot is asked for, and the state in which it is
        // asked for: a producer that has been notified has left the queue.
        let ghost base = match first {
            State::Waiting(key) => start.unlink(key),
            _ => start,
        };
        let ghost entry = match first {
            State::Waiting(_) => State::Done,
            _ => first,
        };
        let mut woken: Option<N> = None;
        let mut unused = task;
        loop
            invariant
                self.wf(),
                unused == task,
                start == old(self)@,
                first == *old(state),
                base == (match first {
                    State::Waiting(key) => start.unlink(key),
                    _ => start,
                }),
                entry == (match first {
                    State::Waiting(_) => State::Done,
                    _ => first,
                }),
                ({
                    // Nothing has happened yet.
                    ||| *state is Waiting && *state == first && self@ == start && woken is None
                    // A slot is about to be asked for.
                    ||| *state == entry && self@ == base && woken is None && (first is Waiting
                        ==> !start.tx.closed && !start.tx.is_linked(first->Waiting_0))
                    // A slot has been asked for, and refused.
                    ||| {
                        &&& *state is Start
                        &&& first is Waiting ==> !start.tx.closed && !start.tx.is_linked(
                            first->Waiting_0,
                        )
                        &&& !base.buffer.has_room()
                        &&& !base.rx.rx_closed
                        &&& woken == base.rx.waiter
                        &&& self@ == (ChannelState { tx: self@.tx, ..base.refuse() })
                        &&& self@.tx == base.tx || self@.tx == base.tx.forget()
                    }
                }),
            decreases
                    (match *state {
                        State::Waiting(_) => 3nat,
                        State::Done => 2nat,
                        State::Start => 1nat,
                    }),
                    (if self@.tx.stored {
                        1nat
                    } else {
                        0nat
                    }),
        {
            match *state {
                State::Start => {
                    let (attempt, consumer) = self.try_send_ref();
                    if consumer.is_some() {
                        woken = consumer;
                    }
                    match attempt {
                        Ok(slot) => {
                            return SendPoll {
                                poll: Poll::Ready(Ok(slot)),
                                woken,
                                unused: Some(unused),
                            };
                        },
                        Err(TrySendError::Closed(_)) => {
                            return SendPoll {
                                poll: Poll::Ready(Err(Closed(()))),
                                woken,
                                unused: Some(unused),
                            };
                        },
                        Err(_) => {},
                    }
                    match self.tx_wait.start_wait(unused) {
                        StartWait::Closed(back) => {
                            *state = State::Done;
                            return SendPoll {
                                poll: Poll::Ready(Err(Closed(()))),
                                woken,
                                unused: Some(back),
                            };
                        },
                        StartWait::Wait(key) => {
                            *state = State::Waiting(key);
                            return SendPoll { poll: Poll::Pending, woken, unused: None };
                        },
                        StartWait::Notified(back) => {
                            unused = back;
                        },
                    }
                },
                State::Waiting(key) => match self.tx_wait.continue_wait(key, unused) {
                    ContinueWait::Closed(back) => {
                        *state = State::Done;
                        return SendPoll {
                            poll: Poll::Ready(Err(Closed(()))),
                            woken,
                            unused: Some(back),
                        };
                    },
                    ContinueWait::Wait(replaced) => {
                        return SendPoll { poll: Poll::Pending, woken, unused: replaced };
                    },
                    ContinueWait::Notified(back) => {
                        unused = back;
                        *state = State::Done;
                    },
                },
                State::Done => {
                    let (attempt, consumer) = self.try_send_ref();
                    if consumer.is_some() {
                        woken = consumer;
                    }
                    match attempt {
                        Ok(slot) => {
                            return SendPoll {
                                poll: Poll::Ready(Ok(slot)),
                                woken,
                                unused: Some(unused),
                            };
                        },
                        Err(TrySendError::Closed(_)) => {
                            return SendPoll {
                                poll: Poll::Ready(Err(Closed(()))),
                                woken,
                                unused: Some(unused),
                            };
                        },
                        Err(_) => {
                            *state = State::Start;
                        },
                    }
                },
            }
        }
    }

    /// Sends the message `val` on behalf of a producer that has come as far as
    /// `state`, and lets it wait in `task` if no slot is free.
    pub fn poll_send(&mut self, state: &mut State, task: N, val: T) -> (r: SendValuePoll<T, N>)
        requires
            old(self).wf(),
        ensures
            final(self).wf(),
            old(self)@.polls_send_value(*old(state), task, val, final(self)@, *final(state), r),
    {
        let SendPoll { poll, woken, unused } = self.poll_send_ref(state, task);
        match poll {
            Poll::Pending => SendValuePoll {
                poll: Poll::Pending,
                val: Some(val),
                woken,
                unused,
                replaced: None,
            },
            Poll::Ready(Ok(slot)) => {
                let Ref { index, value } = slot;
                let woken = self.finish_send(Ref { index, value: val });
                SendValuePoll {
                    poll: Poll::Ready(Ok(())),
                    val: None,
                    woken,
                    unused,
                    replaced: Some(value),
                }
            },
            Poll::Ready(Err(_)) => SendValuePoll {
                poll: Poll::Ready(Err(Closed(val))),
                val: None,
                woken,
                unused,
                replaced: None,
            },
        }
    }

    /// Gives up asking for a slot, on behalf of a producer that has come as far as
    /// `state`, and hands out the task that waited, if it still did.
    pub fn cancel_send(&mut self, state: State) -> (r: Option<N>)
        requires
            old(self).wf(),
        ensures
            final(self).wf(),
            match state {
                State::Waiting(key) => {
                    &&& final(self)@ == old(self)@.unlink(key)
                    &&& old(self)@.tx.has_key(key) ==> r == old(self)@.tx.waiters[old(
                        self,
                    )@.tx.position(key)].task
                    &&& !old(self)@.tx.has_key(key) ==> r is None
                },
                _ => final(self)@ == old(self)@ && r is None,
            },
    {
        match state {
            State::Waiting(key) => self.tx_wait.remove(key),
            _ => None,
        }
    }

    /// Takes the next message on behalf of the consumer, or lets the consumer
    /// wait in `task`, in place of the task that it waited in before.
    pub fn poll_recv_ref(&mut self, task: N) -> (r: RecvPoll<T, N>)
        requires
            old(self).wf(),
        ensures
            final(self).wf(),
            r == old(self)@.recv_ref_answer(task),
            final(self)@ == old(self)@.recv_ref(task),
    {
        match self.thingbuf.pop_ref() {
            Some(slot) => RecvPoll { poll: Poll::Ready(Some(slot)), unused: Some(task) },
            None => if self.thingbuf.is_finished() {
                RecvPoll { poll: Poll::Ready(None), unused: Some(task) }
            } else {
                let replaced = self.rx_wait.wait_with(task);
                RecvPoll { poll: Poll::Pending, unused: replaced }
            },
        }
    }

    /// Whether there is a message to be taken.
    pub fn is_ready(&self) -> (r: bool)
        requires
            self.wf(),
        ensures
            r == self@.buffer.is_ready(),
    {
        self.thingbuf.is_ready()
    }

    /// Takes the next message itself on behalf of the consumer, leaves `left` in
    /// its place and gives the slot back; or lets the consumer wait in `task`, in
    /// place of the task that it waited in before.
    pub fn poll_recv(&mut self, task: N, left: Option<T>) -> (r: RecvValuePoll<T, N>)
        requires
            old(self).wf(),
            old(self)@.buffer.is_ready() ==> left is Some,
        ensures
            final(self).wf(),
            r == old(self)@.recv_answer(task, left),
            final(self)@ == old(self)@.recv(task, left),
    {
        let RecvPoll { poll, unused } = self.poll_recv_ref(task);
        match poll {
            Poll::Pending => RecvValuePoll { poll: Poll::Pending, left, woken: None, unused },
            Poll::Ready(None) => RecvValuePoll {
                poll: Poll::Ready(None),
                left,
                woken: None,
                unused,
            },
            Poll::Ready(Some(slot)) => {
                let woken = self.finish_recv(left.unwrap());
                RecvValuePoll {
                    poll: Poll::Ready(Some(slot.value)),
                    left: None,
                    woken,
                    unused,
                }
            },
        }
    }

    /// Whether a slot is in the hands of the consumer.
    pub fn is_receiving(&self) -> (r: bool)
        ensures
            r == (self@.buffer.lent > 0),
    {
        self.thingbuf.is_lent()
    }

    /// Takes back a slot that the consumer has finished with and that holds
    /// `value`, and hands out the task of the producer that has waited longest,
    /// to be woken.
    pub fn finish_recv(&mut self, value: T) -> (r: Option<N>)
        requires
            old(self).wf(),
            old(self)@.buffer.lent > 0,
        ensures
            final(self).wf(),
            r == old(self)@.tx.notified_task(),
            final(self)@ == old(self)@.finish_recv(value),
    {
        self.thingbuf.give_back(value);
        self.tx_wait.notify()
    }

    /// Counts one producer more.
    pub fn add_tx(&mut self)
        requires
            old(self).wf(),
        ensures
            final(self).wf(),
            final(self)@ == old(self)@.add_tx(),
    {
        self.tx_count = self.tx_count.wrapping_add(1);
    }

    /// Counts one producer less. With the last one the channel is closed, and
    /// the consumer's task is handed out, to be woken.
    pub fn drop_tx(&mut self) -> (r: Option<N>)
        requires
            old(self).wf(),
        ensures
            final(self).wf(),
            final(self)@ == old(self)@.drop_tx(),
            r == if old(self)@.tx_count > 1 {
                None
            } else {
                old(self)@.rx.waiter
            },
    {
        let before: usize = self.tx_count;
        self.tx_count = before.wrapping_sub(1);
        if before > 1 {
            return None;
        }
        self.thingbuf.close();
        self.rx_wait.close_tx()
    }

    /// Closes the channel because the consumer is gone, and hands out the tasks
    /// of the producers that wait, to be woken.
    pub fn close_rx(&mut self) -> (r: VecDeque<N>)
        requires
            old(self).wf(),
        ensures
            final(self).wf(),
            final(self)@ == old(self)@.close_rx(),
            r@ == old(self)@.tx.tasks(),
    {
        self.thingbuf.close();
        self.rx_wait.close_rx();
        self.tx_wait.close()
    }

    /// Whether at most one producer is left.
    pub fn is_closed(&self) -> (r: bool)
        ensures
            r == (self@.tx_count <= 1),
    {
        self.tx_count <= 1
    }
}

} // verus!
