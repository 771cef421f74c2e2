//! The handles of a channel on which tasks wait.
//!
//! A method that does something to the channel takes it out of its lock, calls the
//! method of [`Inner`] that does the work, puts the channel back and wakes the tasks
//! that it was handed. Its contract says so: that call was made on what was taken
//! out of the lock, with the arguments of the handle; what it left was put back
//! into the same lock; both are states that the channel can be in; what the handle
//! answers is what the call answered; and the tasks were notified. It also says what
//! became of the queue, see [`effects`]. Which state was found, and what the lock
//! holds by the time the method returns, rests on the other tasks.
//!
//! The methods are written for any rules `P` of a channel that their own
//! [kind of change](crate::mpsc::changes) keeps, so that they can make no other. A
//! poll makes its change once, and so does a handle, a slot or a future that is given
//! up: see [`gate`].
use crate::mpsc::changes::{
    AskingForSlot, AskingToSend, Closing, FinishingRecv, FinishingSend, GivingUp, Joining, Leaving,
    Receiving, Reserving, Rules, Sending, Slot, Taking,
};
use crate::mpsc::gate::{Gate, Keeps, Looking, Pass};
use crate::mpsc::{
    effects, gate, laws, ChannelState, Closed, Inner, Origin, RecvPoll, RecvValuePoll, SendPoll,
    SendRefInner, SendValuePoll, Sent, Shared, State, TrySendError,
};
use crate::thingbuf::{Ref, ThingBuf};
use crate::wait::{clone_waker, context_waker, notify_all, notify_one};
use core::task::{Context, Poll, Waker};
use std::collections::VecDeque;
use std::sync::Arc;
use vstd::prelude::*;
use vstd::rwlock::{RwLock, RwLockPredicate};

verus! {

/// Returns a new multi-producer, single consumer channel.
pub fn channel<T>(thingbuf: ThingBuf<T>) -> (r: (Sender<T>, Receiver<T>))
    requires
        thingbuf.wf(),
        !thingbuf@.closed,
    ensures
        r.0.channel().initial == ChannelState::<T, Waker>::initial(thingbuf@),
        r.1.shared() == r.0.shared(),
        exists|inner: Inner<T, Waker>|
            {
                &&& #[trigger] call_ensures(Inner::<T, Waker>::new, (thingbuf,), inner)
                &&& call_ensures(
                    RwLock::<Inner<T, Waker>, Origin<T, Waker>>::new,
                    (inner, Ghost(r.0.channel())),
                    r.0.shared(),
                )
            },
{
    let channel: Inner<T, Waker> = Inner::new(thingbuf);
    let ghost origin = Origin { initial: channel@ };
    proof {
        channel.lemma_wf();
        laws::law_beginning_is_admitted(origin);
    }
    let (gate, leaving, closing) = Gate::new(channel, Ghost(origin));
    let inner = Arc::new(gate);
    let tx = Sender { inner: inner.clone(), pass: leaving };
    let rx = Receiver { inner, pass: closing };
    (tx, rx)
}

/// A handle of a producer.
///
/// A producer that is done calls [`drop`](Sender::drop): with the last one, the
/// channel is closed.
pub struct Sender<T, P: RwLockPredicate<Inner<T, Waker>> = Origin<T, Waker>> {
    inner: Arc<Gate<Inner<T, Waker>, P>>,
    pass: Pass<Leaving>,
}

/// The handle of the consumer.
///
/// A consumer that is done calls [`drop`](Receiver::drop), and the channel is
/// closed.
pub struct Receiver<T, P: RwLockPredicate<Inner<T, Waker>> = Origin<T, Waker>> {
    inner: Arc<Gate<Inner<T, Waker>, P>>,
    pass: Pass<Closing>,
}

/// A slot in the hands of a producer.
///
/// What the producer leaves in it is sent by [`drop`](SendRef::drop), which has
/// to be called.
#[must_use]
pub struct SendRef<'sender, T, P: RwLockPredicate<Inner<T, Waker>> = Origin<T, Waker>>(
    SendRefInner<'sender, T, Waker, P>,
);

impl<'sender, T, P: Rules<T, Waker>> SendRef<'sender, T, P> {
    /// The channel that the slot belongs to.
    pub closed spec fn shared(self) -> Shared<T, Waker, P> {
        self.0.shared()
    }

    /// Which states that channel can be in.
    pub open spec fn channel(self) -> P {
        self.shared().pred()
    }

    /// The slot.
    pub closed spec fn slot(self) -> Ref<T> {
        self.0.slot()
    }

    /// Calls `f` with a reference to the contents of the slot.
    pub fn with<U>(&self, f: impl FnOnce(&T) -> U) -> (r: U)
        requires
            f.requires((&self.slot().value,)),
        ensures
            f.ensures((&self.slot().value,), r),
    {
        self.0.with(f)
    }

    /// Calls `f` with a mutable reference to the contents of the slot.
    pub fn with_mut<U>(&mut self, f: impl FnOnce(&mut T) -> U) -> (r: U)
        requires
            forall|v: &mut T| *v == old(self).slot().value ==> f.requires((v,)),
        ensures
            final(self).shared() == old(self).shared(),
            final(self).slot().index == old(self).slot().index,
            exists|v: &mut T|
                #![trigger f.ensures((v,), r)]
                *v == old(self).slot().value && *final(v) == final(self).slot().value && f.ensures(
                    (v,),
                    r,
                ),
    {
        self.0.with_mut(f)
    }

    /// Sends what the slot holds, and wakes the consumer.
    pub fn drop(self) where P: Keeps<Inner<T, Waker>, FinishingSend>
        ensures
            ({
                ||| exists|channel: &mut Inner<T, Waker>, woken: Option<Waker>|
                    {
                        &&& #[trigger] call_ensures(
                            Inner::<T, Waker>::finish_send,
                            (channel, self.slot()),
                            woken,
                        )
                        &&& self.shared().inv(*channel)
                        &&& self.shared().inv(*final(channel))
                        &&& crate::mpsc::exchanged(self.shared(), *channel, *final(channel))
                        &&& effects::completes(channel@, final(channel)@, self.slot())
                        &&& crate::wait::is_notified(woken)
                    }
                ||| exists|channel: Inner<T, Waker>|
                    {
                        &&& #[trigger] call_ensures(
                            Inner::<T, Waker>::is_sending,
                            (&channel, &self.slot()),
                            false,
                        )
                        &&& self.shared().inv(channel)
                        &&& crate::mpsc::exchanged(self.shared(), channel, channel)
                    }
            }),
    {
        let SendRef(slot) = self;
        assert(self.slot() == slot.slot() && self.shared() == slot.shared());
        slot.drop()
    }
}

impl<T, P: Rules<T, Waker>> Sender<T, P> {
    /// The channel.
    pub closed spec fn shared(self) -> Shared<T, Waker, P> {
        self.inner.lock()
    }

    /// Which states the channel can be in.
    pub open spec fn channel(self) -> P {
        self.shared().pred()
    }

    /// Asks for a slot to put a message in.
    pub fn try_send_ref(&self) -> (r: Result<SendRef<'_, T, P>, TrySendError>) where
        P: Keeps<Inner<T, Waker>, Reserving>,

        ensures
            exists|
                channel: &mut Inner<T, Waker>,
                answer: (Result<Ref<T>, TrySendError>, Option<Waker>),
            |
                {
                    &&& #[trigger] call_ensures(
                        Inner::<T, Waker>::try_send_ref,
                        (channel,),
                        answer,
                    )
                    &&& self.shared().inv(*channel)
                    &&& self.shared().inv(*final(channel))
                    &&& crate::mpsc::exchanged(self.shared(), *channel, *final(channel))
                    &&& crate::wait::is_notified(answer.1)
                    &&& match r {
                        Ok(slot) => {
                            &&& answer.0 == Ok::<Ref<T>, TrySendError>(slot.slot())
                            &&& slot.shared() == self.shared()
                            &&& effects::reserves(channel@, final(channel)@, slot.slot())
                        },
                        Err(e) => {
                            &&& answer.0 == Err::<Ref<T>, TrySendError>(e)
                            &&& effects::refuses(channel@, final(channel)@)
                        },
                    }
                },
            exists|state: ChannelState<T, Waker>| #[trigger]
                self.channel().admits(state) && match r {
                    Ok(slot) => {
                        &&& state.buffer.has_room()
                        &&& slot.slot() == state.buffer.next_slot()
                        &&& slot.shared() == self.shared()
                    },
                    Err(e) => !state.buffer.has_room() && e == state.send_error(),
                },
    {
        let ghost rules = self.channel();
        proof {
            assert forall|inner: Inner<T, Waker>| #[trigger] self.shared().inv(inner) implies {
                &&& inner.wf()
                &&& rules.admits(inner@)
            } by {
                rules.rules(inner);
            }
        }
        let (attempt, pass) = self.inner.operate(Reserving);
        proof {
            effects::law_try_send_ref_hands_out_what_it_returns::<T, Waker>();
        }
        match attempt {
            Ok(slot) => Ok(SendRef(SendRefInner { inner: &self.inner, slot, pass })),
            Err(e) => Err(e),
        }
    }

    /// Sends the message `val`, if a slot is free.
    pub fn try_send(&self, val: T) -> (r: Result<(), TrySendError<T>>) where
        P: Keeps<Inner<T, Waker>, Sending<T>>,

        ensures
            r matches Err(e) ==> e.value() == val,
            exists|channel: &mut Inner<T, Waker>, sent: Sent<T, Waker>|
                {
                    &&& #[trigger] call_ensures(
                        Inner::<T, Waker>::try_send,
                        (channel, val),
                        sent,
                    )
                    &&& self.shared().inv(*channel)
                    &&& self.shared().inv(*final(channel))
                    &&& crate::mpsc::exchanged(self.shared(), *channel, *final(channel))
                    &&& crate::wait::is_notified(sent.woken)
                    &&& r == sent.result
                    &&& match r {
                        Ok(()) => effects::sends(channel@, final(channel)@, val),
                        Err(_) => effects::refuses(channel@, final(channel)@),
                    }
                },
            exists|state: ChannelState<T, Waker>| #[trigger]
                self.channel().admits(state) && match r {
                    Ok(()) => state.buffer.has_room(),
                    Err(e) => !state.buffer.has_room() && e == state.send_error().spec_with_value(
                        val,
                    ),
                },
    {
        let ghost rules = self.channel();
        proof {
            assert forall|inner: Inner<T, Waker>| #[trigger] self.shared().inv(inner) implies {
                &&& inner.wf()
                &&& rules.admits(inner@)
            } by {
                rules.rules(inner);
            }
        }
        let (result, _pass) = self.inner.operate(Sending { val });
        proof {
            effects::law_try_send_puts_its_message_last::<T, Waker>(val);
        }
        result
    }

    /// Asks for a slot to put a message in, and waits until there is one.
    pub fn send_ref(&self) -> (r: SendRefFuture<'_, T, P>) where
        P: Keeps<Inner<T, Waker>, AskingForSlot>,

        ensures
            r.shared() == self.shared(),
            r.state() == State::Start,
        opens_invariants none
    {
        SendRefFuture {
            tx: self,
            state: State::Start,
            pass: self.inner.ask::<AskingForSlot>(),
        }
    }

    /// Sends the message `val`, and waits until there is a slot for it.
    pub fn send(&self, val: T) -> (r: SendFuture<'_, T, P>) where
        P: Keeps<Inner<T, Waker>, AskingToSend>,

        ensures
            r.shared() == self.shared(),
            r.state() == State::Start,
            r.message() == Some(val),
        opens_invariants none
    {
        let slot = SendRefFuture {
            tx: self,
            state: State::Start,
            pass: self.inner.ask::<AskingToSend>(),
        };
        SendFuture { slot, val: Some(val) }
    }

    /// Gives the handle up. With the last one the channel is closed, and the
    /// consumer is woken.
    pub fn drop(self) where P: Keeps<Inner<T, Waker>, Leaving>
        ensures
            exists|channel: &mut Inner<T, Waker>, woken: Option<Waker>|
                {
                    &&& #[trigger] call_ensures(Inner::<T, Waker>::drop_tx, (channel,), woken)
                    &&& self.shared().inv(*channel)
                    &&& self.shared().inv(*final(channel))
                    &&& crate::mpsc::exchanged(self.shared(), *channel, *final(channel))
                    &&& effects::same_slots(channel@, final(channel)@)
                    &&& crate::wait::is_notified(woken)
                },
    {
        let Sender { inner, pass } = self;
        assert(self.shared() == inner.lock());
        let (mut channel, lock) = inner.enter(pass);
        let ghost before = channel;
        let ghost rules = inner.lock().pred();
        proof {
            rules.rules(before);
        }
        let woken = channel.drop_tx();
        proof {
            rules.keeps(before, channel);
        }
        lock.release_write(channel);
        notify_one(woken);
    }
}

impl<T, P: Rules<T, Waker> + Keeps<Inner<T, Waker>, Joining>> Clone for Sender<T, P> {
    /// Another handle of a producer.
    fn clone(&self) -> (r: Self)
        ensures
            exists|channel: &mut Inner<T, Waker>|
                {
                    &&& #[trigger] call_ensures(
                        Inner::<T, Waker>::add_tx,
                        (channel,),
                        (),
                    )
                    &&& self.shared().inv(*channel)
                    &&& self.shared().inv(*final(channel))
                    &&& crate::mpsc::exchanged(self.shared(), *channel, *final(channel))
                    &&& effects::same_slots(channel@, final(channel)@)
                },
            r.shared() == self.shared(),
    {
        let ghost rules = self.channel();
        proof {
            assert forall|inner: Inner<T, Waker>| #[trigger]
                self.shared().inv(inner) implies inner.wf() by {
                rules.rules(inner);
            }
        }
        let (_, pass) = self.inner.operate(Joining);
        Sender { inner: self.inner.clone(), pass }
    }
}

/// A producer that asks for a slot.
///
/// This type is returned by [`Sender::send_ref`]. A producer that gives up before
/// it has got its slot calls [`drop`](SendRefFuture::drop).
#[must_use]
pub struct SendRefFuture<'sender, T, P: RwLockPredicate<Inner<T, Waker>> = Origin<T, Waker>> {
    tx: &'sender Sender<T, P>,
    state: State,
    pass: Pass<GivingUp>,
}

impl<'sender, T, P: Rules<T, Waker>> SendRefFuture<'sender, T, P> {
    /// The channel.
    pub closed spec fn shared(self) -> Shared<T, Waker, P> {
        self.tx.shared()
    }

    /// Which states the channel can be in.
    pub open spec fn channel(self) -> P {
        self.shared().pred()
    }

    /// How far the producer has come.
    pub closed spec fn state(self) -> State {
        self.state
    }

    /// Asks for a slot. If there is none, the task of `cx` is woken when it is
    /// worth asking again.
    pub fn poll(&mut self, cx: &mut Context<'_>) -> (r: Poll<
        Result<SendRef<'sender, T, P>, Closed>,
    >) where P: Keeps<Inner<T, Waker>, AskingForSlot>
        ensures
            final(self).shared() == old(self).shared(),
            exists|
                channel: &mut Inner<T, Waker>,
                state: &mut State,
                answer: SendPoll<T, Waker>,
            |
                {
                    &&& #[trigger] call_ensures(
                        Inner::<T, Waker>::poll_send_ref,
                        (channel, state, crate::wait::waker_of(*old(cx))),
                        answer,
                    )
                    &&& *state == old(self).state()
                    &&& *final(state) == final(self).state()
                    &&& old(self).shared().inv(*channel)
                    &&& old(self).shared().inv(*final(channel))
                    &&& crate::mpsc::exchanged(old(self).shared(), *channel, *final(channel))
                    &&& gate::exchanged_once(
                        old(self).shared(),
                        *old(cx),
                        *final(cx),
                        *channel,
                        *final(channel),
                    )
                    &&& match answer.poll {
                        Poll::Ready(Ok(slot)) => effects::reserves(
                            channel@,
                            final(channel)@,
                            slot,
                        ),
                        _ => {
                            &&& effects::same_ends(channel@, final(channel)@)
                            &&& effects::same_slots(channel@, final(channel)@)
                        },
                    }
                    &&& crate::wait::is_notified(answer.woken)
                    &&& match r {
                        Poll::Pending => answer.poll is Pending,
                        Poll::Ready(Ok(slot)) => {
                            &&& answer.poll == Poll::Ready(Ok::<Ref<T>, Closed>(slot.slot()))
                            &&& slot.shared() == old(self).shared()
                        },
                        Poll::Ready(Err(e)) => answer.poll == Poll::Ready(
                            Err::<Ref<T>, Closed>(e),
                        ),
                    }
                },
            exists|
                state: ChannelState<T, Waker>,
                after: ChannelState<T, Waker>,
                answer: SendPoll<T, Waker>,
            | #[trigger]
                state.polls_send(
                    old(self).state(),
                    crate::wait::waker_of(*old(cx)),
                    after,
                    final(self).state(),
                    answer,
                ) && old(self).channel().admits(state) && old(self).channel().admits(after)
                    && match r {
                    Poll::Pending => answer.poll is Pending,
                    Poll::Ready(Ok(slot)) => {
                        &&& answer.poll == Poll::Ready(Ok::<Ref<T>, Closed>(slot.slot()))
                        &&& slot.shared() == old(self).shared()
                    },
                    Poll::Ready(Err(e)) => answer.poll == Poll::Ready(Err::<Ref<T>, Closed>(e)),
                },
    {
        let waker = clone_waker(context_waker(cx));
        let (mut channel, lock, pass) = self.tx.inner.poll::<AskingForSlot>(cx);
        let ghost before = channel;
        let ghost rules = self.channel();
        proof {
            rules.rules(before);
        }
        let answer = channel.poll_send_ref(&mut self.state, waker);
        proof {
            effects::law_poll_send_ref_hands_out_what_it_returns::<T, Waker>(waker, answer);
            rules.keeps(before, channel);
            rules.rules(channel);
        }
        lock.release_write(channel);
        notify_one(answer.woken);
        match answer.poll {
            Poll::Pending => Poll::Pending,
            Poll::Ready(Ok(slot)) => Poll::Ready(
                Ok(SendRef(SendRefInner { inner: &self.tx.inner, slot: Slot::new(slot), pass })),
            ),
            Poll::Ready(Err(e)) => Poll::Ready(Err(e)),
        }
    }

    /// Gives up asking for a slot.
    pub fn drop(self) where P: Keeps<Inner<T, Waker>, GivingUp>
        ensures
            exists|channel: &mut Inner<T, Waker>, unused: Option<Waker>|
                {
                    &&& #[trigger] call_ensures(
                        Inner::<T, Waker>::cancel_send,
                        (channel, self.state()),
                        unused,
                    )
                    &&& self.shared().inv(*channel)
                    &&& self.shared().inv(*final(channel))
                    &&& crate::mpsc::exchanged(self.shared(), *channel, *final(channel))
                    &&& effects::same_slots(channel@, final(channel)@)
                },
    {
        let SendRefFuture { tx, state, pass } = self;
        assert(self.shared() == tx.inner.lock() && self.state() == state);
        let (mut channel, lock) = tx.inner.enter(pass);
        let ghost before = channel;
        let ghost rules = tx.inner.lock().pred();
        proof {
            rules.rules(before);
        }
        let _unused = channel.cancel_send(state);
        proof {
            match state {
                State::Waiting(_) => {
                    rules.keeps(before, channel);
                },
                _ => {
                    rules.rules(channel);
                },
            }
        }
        lock.release_write(channel);
    }
}

/// A producer that sends a message.
///
/// This type is returned by [`Sender::send`]. A producer that gives up before its
/// message has been sent calls [`drop`](SendFuture::drop).
#[must_use]
pub struct SendFuture<'sender, T, P: RwLockPredicate<Inner<T, Waker>> = Origin<T, Waker>> {
    slot: SendRefFuture<'sender, T, P>,
    val: Option<T>,
}

impl<'sender, T, P: Rules<T, Waker>> SendFuture<'sender, T, P> {
    /// The channel.
    pub closed spec fn shared(self) -> Shared<T, Waker, P> {
        self.slot.shared()
    }

    /// Which states the channel can be in.
    pub open spec fn channel(self) -> P {
        self.shared().pred()
    }

    /// How far the producer has come.
    pub closed spec fn state(self) -> State {
        self.slot.state()
    }

    /// The message, while it is still to be sent.
    pub closed spec fn message(self) -> Option<T> {
        self.val
    }

    /// Sends the message, if there is a slot. If there is none, the task of `cx`
    /// is woken when it is worth trying again.
    pub fn poll(&mut self, cx: &mut Context<'_>) -> (r: Poll<Result<(), Closed<T>>>) where
        P: Keeps<Inner<T, Waker>, AskingToSend>,

        requires
            old(self).message() is Some,
        ensures
            final(self).shared() == old(self).shared(),
            exists|
                channel: &mut Inner<T, Waker>,
                state: &mut State,
                answer: SendValuePoll<T, Waker>,
            |
                {
                    &&& #[trigger] call_ensures(
                        Inner::<T, Waker>::poll_send,
                        (channel, state, crate::wait::waker_of(*old(cx)), old(self).message()->0),
                        answer,
                    )
                    &&& *state == old(self).state()
                    &&& *final(state) == final(self).state()
                    &&& old(self).shared().inv(*channel)
                    &&& old(self).shared().inv(*final(channel))
                    &&& crate::mpsc::exchanged(old(self).shared(), *channel, *final(channel))
                    &&& gate::exchanged_once(
                        old(self).shared(),
                        *old(cx),
                        *final(cx),
                        *channel,
                        *final(channel),
                    )
                    &&& match r {
                        Poll::Ready(Ok(())) => effects::sends(
                            channel@,
                            final(channel)@,
                            old(self).message()->0,
                        ),
                        _ => {
                            &&& effects::same_ends(channel@, final(channel)@)
                            &&& effects::same_slots(channel@, final(channel)@)
                        },
                    }
                    &&& crate::wait::is_notified(answer.woken)
                    &&& r == answer.poll
                    &&& final(self).message() == answer.val
                },
            exists|
                state: ChannelState<T, Waker>,
                after: ChannelState<T, Waker>,
                answer: SendValuePoll<T, Waker>,
            | #[trigger]
                state.polls_send_value(
                    old(self).state(),
                    crate::wait::waker_of(*old(cx)),
                    old(self).message()->0,
                    after,
                    final(self).state(),
                    answer,
                ) && old(self).channel().admits(state) && old(self).channel().admits(after) && r
                    == answer.poll && final(self).message() == answer.val,
    {
        let waker = clone_waker(context_waker(cx));
        let val = self.val.take().unwrap();
        let (mut channel, lock, _pass) = self.slot.tx.inner.poll::<AskingToSend>(cx);
        let ghost before = channel;
        let ghost rules = self.channel();
        proof {
            rules.rules(before);
        }
        let answer = channel.poll_send(&mut self.slot.state, waker, val);
        proof {
            effects::law_poll_send_puts_its_message_last::<T, Waker>(waker, val, answer);
            rules.keeps(before, channel);
            rules.rules(channel);
        }
        lock.release_write(channel);
        notify_one(answer.woken);
        self.val = answer.val;
        answer.poll
    }

    /// Gives up sending the message.
    pub fn drop(self) where P: Keeps<Inner<T, Waker>, GivingUp>
        ensures
            exists|channel: &mut Inner<T, Waker>, unused: Option<Waker>|
                {
                    &&& #[trigger] call_ensures(
                        Inner::<T, Waker>::cancel_send,
                        (channel, self.state()),
                        unused,
                    )
                    &&& self.shared().inv(*channel)
                    &&& self.shared().inv(*final(channel))
                    &&& crate::mpsc::exchanged(self.shared(), *channel, *final(channel))
                    &&& effects::same_slots(channel@, final(channel)@)
                },
    {
        self.slot.drop()
    }
}

/// A slot with a message, in the hands of the consumer.
///
/// The consumer gives it back with [`drop`](RecvRef::drop), which has to be
/// called: until then, no producer can be given the slot.
#[must_use]
pub struct RecvRef<'recv, T, P: RwLockPredicate<Inner<T, Waker>> = Origin<T, Waker>> {
    slot: Ref<T>,
    inner: &'recv Gate<Inner<T, Waker>, P>,
    pass: Pass<FinishingRecv>,
}

impl<'recv, T, P: Rules<T, Waker>> RecvRef<'recv, T, P> {
    /// The channel that the slot belongs to.
    pub closed spec fn shared(self) -> Shared<T, Waker, P> {
        self.inner.lock()
    }

    /// Which states that channel can be in.
    pub open spec fn channel(self) -> P {
        self.shared().pred()
    }

    /// The slot.
    pub closed spec fn slot(self) -> Ref<T> {
        self.slot
    }

    /// Calls `f` with a reference to the contents of the slot.
    pub fn with<U>(&self, f: impl FnOnce(&T) -> U) -> (r: U)
        requires
            f.requires((&self.slot().value,)),
        ensures
            f.ensures((&self.slot().value,), r),
    {
        self.slot.with(f)
    }

    /// Calls `f` with a mutable reference to the contents of the slot.
    pub fn with_mut<U>(&mut self, f: impl FnOnce(&mut T) -> U) -> (r: U)
        requires
            forall|v: &mut T| *v == old(self).slot().value ==> f.requires((v,)),
        ensures
            final(self).shared() == old(self).shared(),
            final(self).slot().index == old(self).slot().index,
            exists|v: &mut T|
                #![trigger f.ensures((v,), r)]
                *v == old(self).slot().value && *final(v) == final(self).slot().value && f.ensures(
                    (v,),
                    r,
                ),
    {
        self.slot.with_mut(f)
    }

    /// Gives the slot back with what it holds, and wakes the producer that has
    /// waited longest for one.
    pub fn drop(self) where P: Keeps<Inner<T, Waker>, FinishingRecv>
        ensures
            ({
                ||| exists|channel: &mut Inner<T, Waker>, woken: Option<Waker>|
                    {
                        &&& #[trigger] call_ensures(
                            Inner::<T, Waker>::finish_recv,
                            (channel, self.slot().value),
                            woken,
                        )
                        &&& self.shared().inv(*channel)
                        &&& self.shared().inv(*final(channel))
                        &&& crate::mpsc::exchanged(self.shared(), *channel, *final(channel))
                        &&& effects::gives_back(channel@, final(channel)@, self.slot().value)
                        &&& crate::wait::is_notified(woken)
                    }
                ||| exists|channel: Inner<T, Waker>|
                    {
                        &&& #[trigger] call_ensures(
                            Inner::<T, Waker>::is_receiving,
                            (&channel,),
                            false,
                        )
                        &&& self.shared().inv(channel)
                        &&& crate::mpsc::exchanged(self.shared(), channel, channel)
                    }
            }),
    {
        let RecvRef { slot, inner, pass } = self;
        assert(self.slot() == slot && self.shared() == inner.lock());
        let (mut channel, lock) = inner.enter(pass);
        let ghost before = channel;
        let ghost rules = inner.lock().pred();
        proof {
            rules.rules(before);
        }
        if channel.is_receiving() {
            let woken = channel.finish_recv(slot.value);
            proof {
                rules.keeps(before, channel);
            }
            lock.release_write(channel);
            notify_one(woken);
        } else {
            // The slot has been given back before.
            lock.release_write(channel);
        }
    }
}

/// Whether `r` is what the consumer of the channel `shared` gets in the state
/// `state` when it asks, in the task `task`, for the slot of the next message.
pub open spec fn answers_recv_ref<T, P: Rules<T, Waker>>(
    shared: Shared<T, Waker, P>,
    state: ChannelState<T, Waker>,
    task: Waker,
    r: Poll<Option<RecvRef<'_, T, P>>>,
) -> bool {
    relays_recv_ref(shared, state.recv_ref_answer(task), r)
}

/// Whether `r` hands on the answer `answer`, with a slot of the channel `shared`.
pub open spec fn relays_recv_ref<T, P: Rules<T, Waker>>(
    shared: Shared<T, Waker, P>,
    answer: RecvPoll<T, Waker>,
    r: Poll<Option<RecvRef<'_, T, P>>>,
) -> bool {
    match r {
        Poll::Pending => answer.poll is Pending,
        Poll::Ready(None) => answer.poll == Poll::Ready(None::<Ref<T>>),
        Poll::Ready(Some(slot)) => {
            &&& answer.poll == Poll::Ready(Some(slot.slot()))
            &&& slot.shared() == shared
        },
    }
}

/// Whether `r` is what the consumer of the channel `shared`, asking in the task
/// `task` for the slot of the next message, gets in some state that the channel
/// can be in.
pub open spec fn allows_recv_ref<T, P: Rules<T, Waker>>(
    shared: Shared<T, Waker, P>,
    task: Waker,
    r: Poll<Option<RecvRef<'_, T, P>>>,
) -> bool {
    exists|state: ChannelState<T, Waker>|
        {
            &&& #[trigger] shared.pred().admits(state)
            &&& shared.pred().admits(state.recv_ref(task))
            &&& answers_recv_ref(shared, state, task, r)
        }
}

/// Whether `r` is what the consumer of the channel `shared`, asking in the task
/// `task` for the next message itself, gets in some state that the channel can be
/// in. A message that it gets has been replaced by the default value of `T`, and
/// its slot has been given back.
pub open spec fn allows_recv<T: Default, P: Rules<T, Waker>>(
    shared: Shared<T, Waker, P>,
    task: Waker,
    r: Poll<Option<T>>,
) -> bool {
    exists|state: ChannelState<T, Waker>, left: Option<T>|
        {
            &&& #[trigger] shared.pred().admits(state.recv(task, left))
            &&& shared.pred().admits(state)
            &&& state.buffer.is_ready() ==> left is Some
            &&& left matches Some(value) ==> call_ensures(T::default, (), value)
            &&& r == state.recv_answer(task, left).poll
        }
}

/// The consumer gets the same answer from the same state of the same channel,
/// whether it asks by [`Receiver::poll_recv_ref`] or by [`RecvRefFuture::poll`].
pub proof fn law_recv_ref_answers_agree<T, P: Rules<T, Waker>>(
    shared: Shared<T, Waker, P>,
    state: ChannelState<T, Waker>,
    task: Waker,
    first: Poll<Option<RecvRef<'_, T, P>>>,
    second: Poll<Option<RecvRef<'_, T, P>>>,
)
    requires
        answers_recv_ref(shared, state, task, first),
        answers_recv_ref(shared, state, task, second),
    ensures
        first == second,
{
    if let (Poll::Ready(Some(first)), Poll::Ready(Some(second))) = (first, second) {
        first.inner.lemma_lock(*second.inner);
        first.pass.lemma_pass(second.pass);
    }
}

impl<T, P: Rules<T, Waker>> Receiver<T, P> {
    /// The channel.
    pub closed spec fn shared(self) -> Shared<T, Waker, P> {
        self.inner.lock()
    }

    /// Which states the channel can be in.
    pub open spec fn channel(self) -> P {
        self.shared().pred()
    }

    /// Gives the handle up. The channel is closed, and the producers that wait
    /// for a slot are woken.
    pub fn drop(self) where P: Keeps<Inner<T, Waker>, Closing>
        ensures
            exists|channel: &mut Inner<T, Waker>, woken: VecDeque<Waker>|
                {
                    &&& #[trigger] call_ensures(
                        Inner::<T, Waker>::close_rx,
                        (channel,),
                        woken,
                    )
                    &&& self.shared().inv(*channel)
                    &&& self.shared().inv(*final(channel))
                    &&& crate::mpsc::exchanged(self.shared(), *channel, *final(channel))
                    &&& effects::same_slots(channel@, final(channel)@)
                    &&& forall|i: int|
                        0 <= i < woken@.len() ==> crate::wait::is_notified(
                            Some(#[trigger] woken@[i]),
                        )
                },
    {
        let Receiver { inner, pass } = self;
        assert(self.shared() == inner.lock());
        let (mut channel, lock) = inner.enter(pass);
        let ghost before = channel;
        let ghost rules = inner.lock().pred();
        proof {
            rules.rules(before);
        }
        let woken = channel.close_rx();
        proof {
            rules.keeps(before, channel);
        }
        lock.release_write(channel);
        notify_all(woken);
    }
}

impl<T: Default, P: Rules<T, Waker>> Receiver<T, P> {
    /// Asks for the slot of the next message, and waits until there is one.
    pub fn recv_ref(&self) -> (r: RecvRefFuture<'_, T, P>)
        ensures
            r.shared() == self.shared(),
        opens_invariants none
    {
        RecvRefFuture { rx: self }
    }

    /// Asks for the next message, and waits until there is one.
    pub fn recv(&self) -> (r: RecvFuture<'_, T, P>)
        ensures
            r.shared() == self.shared(),
        opens_invariants none
    {
        RecvFuture { rx: self }
    }

    /// # Returns
    ///
    ///  * `Poll::Pending` if no messages are available but the channel is not
    ///    closed.
    ///  * `Poll::Ready(Some(slot))` if a message is available.
    ///  * `Poll::Ready(None)` if the channel has been closed and all messages
    ///    sent before it was closed have been received.
    ///
    /// When the method returns [`Poll::Pending`], the [`Waker`] in the provided
    /// [`Context`] is scheduled to receive a wakeup when a message is sent on any
    /// sender, or when the channel is closed.  Note that on multiple calls to
    /// `poll_recv_ref`, only the [`Waker`] from the [`Context`] passed to the most
    /// recent call is scheduled to receive a wakeup.
    pub fn poll_recv_ref(&self, cx: &mut Context<'_>) -> (r: Poll<Option<RecvRef<'_, T, P>>>) where
        P: Keeps<Inner<T, Waker>, Taking>,

        ensures
            allows_recv_ref(self.shared(), crate::wait::waker_of(*old(cx)), r),
            exists|channel: &mut Inner<T, Waker>, answer: RecvPoll<T, Waker>|
                {
                    &&& #[trigger] call_ensures(
                        Inner::<T, Waker>::poll_recv_ref,
                        (channel, crate::wait::waker_of(*old(cx))),
                        answer,
                    )
                    &&& self.shared().inv(*channel)
                    &&& self.shared().inv(*final(channel))
                    &&& crate::mpsc::exchanged(self.shared(), *channel, *final(channel))
                    &&& gate::exchanged_once(
                        self.shared(),
                        *old(cx),
                        *final(cx),
                        *channel,
                        *final(channel),
                    )
                    &&& effects::receives(
                        channel@,
                        final(channel)@,
                        crate::wait::waker_of(*old(cx)),
                        effects::ref_value(answer.poll),
                    )
                    &&& answer.poll matches Poll::Ready(Some(_)) ==> effects::lends_slot(
                        channel@,
                        final(channel)@,
                    )
                    &&& relays_recv_ref(self.shared(), answer, r)
                },
    {
        let waker = clone_waker(context_waker(cx));
        let (mut channel, lock, pass) = self.inner.poll::<Taking>(cx);
        let ghost before = channel;
        let ghost rules = self.channel();
        proof {
            rules.rules(before);
        }
        let answer = channel.poll_recv_ref(waker);
        proof {
            effects::law_poll_recv_ref_takes_what_it_returns::<T, Waker>(waker, answer);
            rules.keeps(before, channel);
            rules.rules(channel);
        }
        lock.release_write(channel);
        match answer.poll {
            Poll::Pending => Poll::Pending,
            Poll::Ready(None) => Poll::Ready(None),
            Poll::Ready(Some(slot)) => Poll::Ready(
                Some(RecvRef { slot, inner: &self.inner, pass }),
            ),
        }
    }

    /// # Returns
    ///
    ///  * `Poll::Pending` if no messages are available but the channel is not
    ///    closed.
    ///  * `Poll::Ready(Some(message))` if a message is available.
    ///  * `Poll::Ready(None)` if the channel has been closed and all messages
    ///    sent before it was closed have been received.
    ///
    /// When the method returns [`Poll::Pending`], the [`Waker`] in the provided
    /// [`Context`] is scheduled to receive a wakeup when a message is sent on any
    /// sender, or when the channel is closed.  Note that on multiple calls to
    /// `poll_recv`, only the [`Waker`] from the [`Context`] passed to the most
    /// recent call is scheduled to receive a wakeup.
    pub fn poll_recv(&self, cx: &mut Context<'_>) -> (r: Poll<Option<T>>) where
        P: Keeps<Inner<T, Waker>, Receiving>,

        ensures
            allows_recv(self.shared(), crate::wait::waker_of(*old(cx)), r),
            exists|channel: &mut Inner<T, Waker>, left: Option<T>, answer: RecvValuePoll<T, Waker>|
                {
                    &&& #[trigger] call_ensures(
                        Inner::<T, Waker>::poll_recv,
                        (channel, crate::wait::waker_of(*old(cx)), left),
                        answer,
                    )
                    &&& self.shared().inv(*channel)
                    &&& self.shared().inv(*final(channel))
                    &&& crate::mpsc::exchanged(self.shared(), *channel, *final(channel))
                    &&& gate::exchanged_once(
                        self.shared(),
                        *old(cx),
                        *final(cx),
                        *channel,
                        *final(channel),
                    )
                    &&& effects::receives(
                        channel@,
                        final(channel)@,
                        crate::wait::waker_of(*old(cx)),
                        r,
                    )
                    &&& r matches Poll::Ready(Some(_)) ==> left is Some && effects::frees_slot(
                        channel@,
                        final(channel)@,
                        left->0,
                    )
                    &&& crate::wait::is_notified(answer.woken)
                    &&& left matches Some(value) ==> call_ensures(T::default, (), value)
                    &&& left is Some ==> exists|seen: Inner<T, Waker>|
                        {
                            &&& #[trigger] call_ensures(Inner::<T, Waker>::is_ready, (&seen,), true)
                            &&& self.shared().inv(seen)
                            &&& crate::mpsc::exchanged(self.shared(), seen, seen)
                        }
                    &&& r == answer.poll
                },
    {
        let waker = clone_waker(context_waker(cx));
        let ghost rules = self.channel();
        proof {
            assert forall|inner: Inner<T, Waker>| #[trigger]
                self.shared().inv(inner) implies inner.wf() by {
                rules.rules(inner);
            }
        }
        // The default value is made while the channel is not held.
        let (mut channel, lock, left) = self.inner.poll_prepared::<Receiving, _, _, _>(
            cx,
            Inner::<T, Waker>::is_ready,
            T::default,
        );
        let ghost before = channel;
        let answer = channel.poll_recv(waker, left);
        proof {
            effects::law_poll_recv_takes_what_it_returns::<T, Waker>(waker, left, answer);
            rules.keeps(before, channel);
            rules.rules(before);
            rules.rules(channel);
        }
        lock.release_write(channel);
        notify_one(answer.woken);
        answer.poll
    }

    /// Whether at most one producer is left.
    pub fn is_closed(&self) -> (r: bool) where P: Keeps<Inner<T, Waker>, Looking>
        ensures
            exists|channel: Inner<T, Waker>|
                {
                    &&& #[trigger] call_ensures(Inner::<T, Waker>::is_closed, (&channel,), r)
                    &&& self.shared().inv(channel)
                    &&& crate::mpsc::exchanged(self.shared(), channel, channel)
                },
            exists|state: ChannelState<T, Waker>| #[trigger]
                self.channel().admits(state) && r == (state.tx_count <= 1),
    {
        let ghost rules = self.channel();
        proof {
            assert forall|inner: Inner<T, Waker>| #[trigger] self.shared().inv(inner) implies {
                &&& inner.wf()
                &&& rules.admits(inner@)
            } by {
                rules.rules(inner);
            }
        }
        self.inner.inspect(Inner::<T, Waker>::is_closed)
    }
}

/// A consumer that asks for the slot of the next message.
///
/// This type is returned by [`Receiver::recv_ref`].
#[must_use]
pub struct RecvRefFuture<'a, T, P: RwLockPredicate<Inner<T, Waker>> = Origin<T, Waker>> {
    rx: &'a Receiver<T, P>,
}

/// A consumer that asks for the next message.
///
/// This type is returned by [`Receiver::recv`].
///
/// This is equivalent to [`RecvRefFuture`], but the message is moved out of its
/// slot after it is received. This means that allocations are not reused.
#[must_use]
pub struct RecvFuture<'a, T, P: RwLockPredicate<Inner<T, Waker>> = Origin<T, Waker>> {
    rx: &'a Receiver<T, P>,
}

impl<'a, T: Default, P: Rules<T, Waker>> RecvRefFuture<'a, T, P> {
    /// The channel.
    pub closed spec fn shared(self) -> Shared<T, Waker, P> {
        self.rx.shared()
    }

    /// Which states the channel can be in.
    pub open spec fn channel(self) -> P {
        self.shared().pred()
    }

    /// Asks for the slot of the next message, as [`Receiver::poll_recv_ref`] does.
    pub fn poll(&mut self, cx: &mut Context<'_>) -> (r: Poll<Option<RecvRef<'a, T, P>>>) where
        P: Keeps<Inner<T, Waker>, Taking>,

        ensures
            *final(self) == *old(self),
            allows_recv_ref(old(self).shared(), crate::wait::waker_of(*old(cx)), r),
            exists|channel: &mut Inner<T, Waker>, answer: RecvPoll<T, Waker>|
                {
                    &&& #[trigger] call_ensures(
                        Inner::<T, Waker>::poll_recv_ref,
                        (channel, crate::wait::waker_of(*old(cx))),
                        answer,
                    )
                    &&& old(self).shared().inv(*channel)
                    &&& old(self).shared().inv(*final(channel))
                    &&& crate::mpsc::exchanged(old(self).shared(), *channel, *final(channel))
                    &&& gate::exchanged_once(
                        old(self).shared(),
                        *old(cx),
                        *final(cx),
                        *channel,
                        *final(channel),
                    )
                    &&& effects::receives(
                        channel@,
                        final(channel)@,
                        crate::wait::waker_of(*old(cx)),
                        effects::ref_value(answer.poll),
                    )
                    &&& answer.poll matches Poll::Ready(Some(_)) ==> effects::lends_slot(
                        channel@,
                        final(channel)@,
                    )
                    &&& relays_recv_ref(old(self).shared(), answer, r)
                },
    {
        self.rx.poll_recv_ref(cx)
    }
}

impl<'a, T: Default, P: Rules<T, Waker>> RecvFuture<'a, T, P> {
    /// The channel.
    pub closed spec fn shared(self) -> Shared<T, Waker, P> {
        self.rx.shared()
    }

    /// Which states the channel can be in.
    pub open spec fn channel(self) -> P {
        self.shared().pred()
    }

    /// Asks for the next message, as [`Receiver::poll_recv`] does.
    pub fn poll(&mut self, cx: &mut Context<'_>) -> (r: Poll<Option<T>>) where
        P: Keeps<Inner<T, Waker>, Receiving>,

        ensures
            *final(self) == *old(self),
            allows_recv(old(self).shared(), crate::wait::waker_of(*old(cx)), r),
            exists|channel: &mut Inner<T, Waker>, left: Option<T>, answer: RecvValuePoll<T, Waker>|
                {
                    &&& #[trigger] call_ensures(
                        Inner::<T, Waker>::poll_recv,
                        (channel, crate::wait::waker_of(*old(cx)), left),
                        answer,
                    )
                    &&& old(self).shared().inv(*channel)
                    &&& old(self).shared().inv(*final(channel))
                    &&& crate::mpsc::exchanged(old(self).shared(), *channel, *final(channel))
                    &&& gate::exchanged_once(
                        old(self).shared(),
                        *old(cx),
                        *final(cx),
                        *channel,
                        *final(channel),
                    )
                    &&& effects::receives(
                        channel@,
                        final(channel)@,
                        crate::wait::waker_of(*old(cx)),
                        r,
                    )
                    &&& r matches Poll::Ready(Some(_)) ==> left is Some && effects::frees_slot(
                        channel@,
                        final(channel)@,
                        left->0,
                    )
                    &&& crate::wait::is_notified(answer.woken)
                    &&& left matches Some(value) ==> call_ensures(T::default, (), value)
                    &&& left is Some ==> exists|seen: Inner<T, Waker>|
                        {
                            &&& #[trigger] call_ensures(Inner::<T, Waker>::is_ready, (&seen,), true)
                            &&& old(self).shared().inv(seen)
                            &&& crate::mpsc::exchanged(old(self).shared(), seen, seen)
                        }
                    &&& r == answer.poll
                },
    {
        self.rx.poll_recv(cx)
    }
}

} // verus!
