//! Multi-producer, single-consumer channels using [`ThingBuf`](crate::ThingBuf).
//!
//! [`channel`] makes a channel whose ends belong to tasks: a task that asks for a
//! message when there is none, or for a slot when none is free, waits and is
//! woken.
use crate::mpsc::changes::{FinishingSend, Rules, Slot};
use crate::mpsc::gate::{Gate, Keeps, Pass};
use crate::thingbuf::Ref;
use crate::wait::{notify_one, Notify};
use vstd::prelude::*;
use vstd::rwlock::{RwLock, RwLockPredicate};

pub mod async_impl;
pub mod calls;
pub mod changes;
pub mod effects;
pub mod gate;
mod inner;
pub mod laws;
mod steps;

pub use self::async_impl::{
    channel, Receiver, RecvFuture, RecvRef, RecvRefFuture, SendFuture, SendRef, SendRefFuture,
    Sender,
};
pub use self::inner::{
    ChannelState, Inner, RecvPoll, RecvValuePoll, SendPoll, SendValuePoll, Sent, State,
};
pub use self::calls::Call;
pub use self::steps::{Origin, Step};

verus! {

/// [`Poll`](core::task::Poll), with its two variants: an answer, or none yet.
#[verifier::external_type_specification]
#[verifier::reject_recursive_types(T)]
pub struct ExPoll<T>(core::task::Poll<T>);

/// Why a message could not be sent at once. The message comes back with it.
#[derive(Debug)]
#[non_exhaustive]
pub enum TrySendError<T = ()> {
    /// No slot is free.
    Full(T),
    /// The consumer is gone.
    Closed(T),
}

/// The consumer is gone. The message that could not be sent comes back.
#[derive(Debug)]
pub struct Closed<T = ()>(pub T);

impl<T> TrySendError<T> {
    /// The message that could not be sent.
    pub open spec fn value(self) -> T {
        match self {
            TrySendError::Full(value) => value,
            TrySendError::Closed(value) => value,
        }
    }
}

impl TrySendError {
    /// The same error, with the message that could not be sent.
    pub open spec fn spec_with_value<T>(self, value: T) -> TrySendError<T> {
        match self {
            TrySendError::Full(()) => TrySendError::Full(value),
            TrySendError::Closed(()) => TrySendError::Closed(value),
        }
    }

    /// The same error, with the message that could not be sent.
    pub fn with_value<T>(self, value: T) -> (r: TrySendError<T>)
        ensures
            r == self.spec_with_value(value),
    {
        match self {
            TrySendError::Full(()) => TrySendError::Full(value),
            TrySendError::Closed(()) => TrySendError::Closed(value),
        }
    }
}

/// A channel in the hands of several tasks. Each of them can look at it, or
/// change it, only while it holds the lock, and does nothing to it but take steps.
pub type Shared<T, N, P = Origin<T, N>> = RwLock<Inner<T, N>, P>;

/// Whether `before` was taken out of the lock of the channel `shared`, and `after`
/// was put back in its place.
pub open spec fn exchanged<T, N, P: RwLockPredicate<Inner<T, N>>>(
    shared: Shared<T, N, P>,
    before: Inner<T, N>,
    after: Inner<T, N>,
) -> bool {
    gate::exchanged(shared, before, after)
}

/// A slot in the hands of a producer.
///
/// What the producer leaves in it is sent by [`drop`](SendRefInner::drop), which
/// has to be called: until then, the slot keeps its place in the queue, and the
/// consumer cannot get past it.
#[must_use]
pub struct SendRefInner<'a, T, N, P: RwLockPredicate<Inner<T, N>> = Origin<T, N>> {
    inner: &'a Gate<Inner<T, N>, P>,
    slot: Slot<T>,
    pass: Pass<FinishingSend>,
}

impl<'a, T, N, P: Rules<T, N>> SendRefInner<'a, T, N, P> {
    /// The channel that the slot belongs to.
    pub closed spec fn shared(self) -> Shared<T, N, P> {
        self.inner.lock()
    }

    /// Which states that channel can be in.
    pub open spec fn channel(self) -> P {
        self.shared().pred()
    }

    /// The slot.
    pub closed spec fn slot(self) -> Ref<T> {
        self.slot.slot()
    }

    /// Calls `f` with a reference to the contents of the slot.
    pub fn with<U>(&self, f: impl FnOnce(&T) -> U) -> (r: U)
        requires
            f.requires((&self.slot().value,)),
        ensures
            f.ensures((&self.slot().value,), r),
    {
        self.slot.with(f)
    }

    /// Calls `f` with a mutable reference to the contents of the slot.
    pub fn with_mut<U>(&mut self, f: impl FnOnce(&mut T) -> U) -> (r: U)
        requires
            forall|v: &mut T| *v == old(self).slot().value ==> f.requires((v,)),
        ensures
            final(self).shared() == old(self).shared(),
            final(self).slot().index == old(self).slot().index,
            exists|v: &mut T|
                #![trigger f.ensures((v,), r)]
                *v == old(self).slot().value && *final(v) == final(self).slot().value && f.ensures(
                    (v,),
                    r,
                ),
    {
        self.slot.with_mut(f)
    }
}

impl<
    'a,
    T,
    N: Notify,
    P: Rules<T, N> + Keeps<Inner<T, N>, FinishingSend>,
> SendRefInner<'a, T, N, P> {
    /// Sends what the slot holds, and wakes the consumer.
    pub fn drop(self)
        ensures
            ({
                ||| exists|channel: &mut Inner<T, N>, woken: Option<N>|
                    {
                        &&& #[trigger] call_ensures(
                            Inner::<T, N>::finish_send,
                            (channel, self.slot()),
                            woken,
                        )
                        &&& self.shared().inv(*channel)
                        &&& self.shared().inv(*final(channel))
                        &&& exchanged(self.shared(), *channel, *final(channel))
                        &&& effects::completes(channel@, final(channel)@, self.slot())
                        &&& crate::wait::is_notified(woken)
                    }
                ||| exists|channel: Inner<T, N>|
                    {
                        &&& #[trigger] call_ensures(
                            Inner::<T, N>::is_sending,
                            (&channel, &self.slot()),
                            false,
                        )
                        &&& self.shared().inv(channel)
                        &&& exchanged(self.shared(), channel, channel)
                    }
            }),
    {
        let SendRefInner { inner, slot, pass } = self;
        let slot = slot.into_ref(inner);
        assert(self.slot() == slot && self.shared() == inner.lock());
        let (mut channel, lock) = inner.enter(pass);
        let ghost before = channel;
        let ghost rules = inner.lock().pred();
        proof {
            rules.rules(before);
        }
        if channel.is_sending(&slot) {
            let woken = channel.finish_send(slot);
            proof {
                effects::law_finish_send_completes_its_slot::<T, N>(slot, woken);
                rules.keeps(before, channel);
            }
            lock.release_write(channel);
            notify_one(woken);
        } else {
            // The slot has been sent before.
            lock.release_write(channel);
        }
    }
}

} // verus!
