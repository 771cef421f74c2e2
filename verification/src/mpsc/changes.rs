//! What the methods of the handles do to a channel: the kinds of change for which
//! they open its lock.
use crate::mpsc::gate::{Change, Gate, Keeps, Looking, Operation, Polled};
use crate::mpsc::{
    laws, ChannelState, Inner, Origin, SendPoll, SendValuePoll, Sent, State, Step, TrySendError,
};
use crate::thingbuf::Ref;
use crate::wait::Notify;
use vstd::prelude::*;
use vstd::rwlock::RwLockPredicate;

verus! {

/// Which states a channel in the hands of several tasks can be in.
pub trait Rules<T, N>: RwLockPredicate<Inner<T, N>> {
    /// Whether the channel can be in the state `state`.
    spec fn admits(self, state: ChannelState<T, N>) -> bool;

    /// What is in the lock is a well-formed channel in such a state.
    proof fn rules(self, inner: Inner<T, N>)
        ensures
            self.inv(inner) <==> inner.wf() && self.admits(inner@),
    ;
}

impl<T, N> RwLockPredicate<Inner<T, N>> for Origin<T, N> {
    open spec fn inv(self, inner: Inner<T, N>) -> bool {
        inner.wf() && self.admits(inner@)
    }
}

impl<T, N> Rules<T, N> for Origin<T, N> {
    open spec fn admits(self, state: ChannelState<T, N>) -> bool {
        Origin::admits(self, state)
    }

    proof fn rules(self, inner: Inner<T, N>) {
    }
}

/// A slot in the hands of a producer, which can look at what it holds, but not at
/// where it is.
pub struct Slot<T> {
    slot: Ref<T>,
}

impl<T> Slot<T> {
    /// The slot.
    pub closed spec fn slot(self) -> Ref<T> {
        self.slot
    }

    /// The slot `slot`, in the hands of a producer.
    pub fn new(slot: Ref<T>) -> (r: Self)
        ensures
            r.slot() == slot,
    {
        Slot { slot }
    }

    /// The slot, to finish with it in the channel behind `_gate`.
    pub fn into_ref<N, P: Keeps<Inner<T, N>, FinishingSend>>(
        self,
        _gate: &Gate<Inner<T, N>, P>,
    ) -> (r: Ref<T>)
        ensures
            r == self.slot(),
    {
        self.slot
    }

    /// Calls `f` with a reference to the contents of the slot.
    pub fn with<U>(&self, f: impl FnOnce(&T) -> U) -> (r: U)
        requires
            f.requires((&self.slot().value,)),
        ensures
            f.ensures((&self.slot().value,), r),
    {
        self.slot.with(f)
    }

    /// Calls `f` with a mutable reference to the contents of the slot.
    pub fn with_mut<U>(&mut self, f: impl FnOnce(&mut T) -> U) -> (r: U)
        requires
            forall|v: &mut T| *v == old(self).slot().value ==> f.requires((v,)),
        ensures
            final(self).slot().index == old(self).slot().index,
            exists|v: &mut T|
                #![trigger f.ensures((v,), r)]
                *v == old(self).slot().value && *final(v) == final(self).slot().value && f.ensures(
                    (v,),
                    r,
                ),
    {
        self.slot.with_mut(f)
    }
}

/// A producer asks for a slot, once.
pub struct Reserving;

/// A producer has finished with its slot.
pub struct FinishingSend;

/// A producer sends a message, if there is a slot.
pub struct Sending<T> {
    /// The message.
    pub val: T,
}

/// A producer asks for a slot, and waits if there is none.
pub struct AskingForSlot;

/// A producer sends a message, and waits if there is no slot.
pub struct AskingToSend;

/// A producer gives up asking.
pub struct GivingUp;

/// There is one producer more.
pub struct Joining;

/// There is one producer less.
pub struct Leaving;

/// The consumer asks for the slot of the next message.
pub struct Taking;

/// The consumer gives a slot back.
pub struct FinishingRecv;

/// The consumer asks for the next message itself.
pub struct Receiving;

/// The consumer is gone.
pub struct Closing;

impl Polled for AskingForSlot {
    type Then = FinishingSend;

    type GiveUp = GivingUp;
}

impl Polled for AskingToSend {
    type Then = ();

    type GiveUp = GivingUp;
}

impl Polled for Taking {
    type Then = FinishingRecv;

    type GiveUp = ();
}

impl Polled for Receiving {
    type Then = ();

    type GiveUp = ();
}

impl<T, N> Change<Inner<T, N>> for Reserving {
    open spec fn changes(before: Inner<T, N>, after: Inner<T, N>) -> bool {
        after.wf() && after@ == if before@.buffer.has_room() {
            before@.reserve()
        } else {
            before@.refuse()
        }
    }
}

impl<T, N> Change<Inner<T, N>> for FinishingSend {
    open spec fn changes(before: Inner<T, N>, after: Inner<T, N>) -> bool {
        after.wf() && exists|slot: Ref<T>|
            before@.buffer.is_writing(slot.index as int) && after@ == #[trigger]
            before@.finish_send(slot)
    }
}

impl<T, N> Change<Inner<T, N>> for Sending<T> {
    open spec fn changes(before: Inner<T, N>, after: Inner<T, N>) -> bool {
        after.wf() && if before@.buffer.has_room() {
            exists|val: T| after@ == #[trigger] before@.send(val)
        } else {
            after@ == before@.refuse()
        }
    }
}

impl<T, N> Change<Inner<T, N>> for AskingForSlot {
    open spec fn changes(before: Inner<T, N>, after: Inner<T, N>) -> bool {
        after.wf() && exists|
            state: State,
            task: N,
            after_state: State,
            r: SendPoll<T, N>,
        | #[trigger]
            before@.polls_send(state, task, after@, after_state, r)
    }
}

impl<T, N> Change<Inner<T, N>> for AskingToSend {
    open spec fn changes(before: Inner<T, N>, after: Inner<T, N>) -> bool {
        after.wf() && exists|
            state: State,
            task: N,
            val: T,
            after_state: State,
            r: SendValuePoll<T, N>,
        | #[trigger]
            before@.polls_send_value(state, task, val, after@, after_state, r)
    }
}

impl<T, N> Change<Inner<T, N>> for GivingUp {
    open spec fn changes(before: Inner<T, N>, after: Inner<T, N>) -> bool {
        after.wf() && exists|key: usize| after@ == #[trigger] before@.unlink(key)
    }
}

impl<T, N> Change<Inner<T, N>> for Joining {
    open spec fn changes(before: Inner<T, N>, after: Inner<T, N>) -> bool {
        after.wf() && after@ == before@.add_tx()
    }
}

impl<T, N> Change<Inner<T, N>> for Leaving {
    open spec fn changes(before: Inner<T, N>, after: Inner<T, N>) -> bool {
        after.wf() && after@ == before@.drop_tx()
    }
}

impl<T, N> Change<Inner<T, N>> for Taking {
    open spec fn changes(before: Inner<T, N>, after: Inner<T, N>) -> bool {
        after.wf() && exists|task: N| after@ == #[trigger] before@.recv_ref(task)
    }
}

impl<T, N> Change<Inner<T, N>> for FinishingRecv {
    open spec fn changes(before: Inner<T, N>, after: Inner<T, N>) -> bool {
        after.wf() && before@.buffer.lent > 0 && exists|value: T|
            after@ == #[trigger] before@.finish_recv(value)
    }
}

impl<T, N> Change<Inner<T, N>> for Receiving {
    open spec fn changes(before: Inner<T, N>, after: Inner<T, N>) -> bool {
        after.wf() && exists|task: N, left: Option<T>|
            after@ == #[trigger] before@.recv(task, left)
    }
}

impl<T, N> Change<Inner<T, N>> for Closing {
    open spec fn changes(before: Inner<T, N>, after: Inner<T, N>) -> bool {
        after.wf() && after@ == before@.close_rx()
    }
}

impl<T, N: Notify> Operation<Inner<T, N>> for Reserving {
    type Answer = Result<Slot<T>, TrySendError>;

    type Task = N;

    type Rest = ();

    type Then = FinishingSend;

    open spec fn ready(before: Inner<T, N>) -> bool {
        before.wf()
    }

    fn perform(self, value: &mut Inner<T, N>) -> (r: (
        Result<Slot<T>, TrySendError>,
        Option<N>,
        (),
    ))
        ensures
            exists|channel: &mut Inner<T, N>, answer: (Result<Ref<T>, TrySendError>, Option<N>)|
                {
                    &&& #[trigger] call_ensures(Inner::<T, N>::try_send_ref, (channel,), answer)
                    &&& *channel == *old(value)
                    &&& *final(channel) == *final(value)
                    &&& match r.0 {
                        Ok(slot) => answer.0 == Ok::<Ref<T>, TrySendError>(slot.slot()),
                        Err(e) => answer.0 == Err::<Ref<T>, TrySendError>(e),
                    }
                    &&& r.1 == answer.1
                },
    {
        let (attempt, woken) = value.try_send_ref();
        match attempt {
            Ok(slot) => (Ok(Slot::new(slot)), woken, ()),
            Err(e) => (Err(e), woken, ()),
        }
    }
}

impl<T, N: Notify> Operation<Inner<T, N>> for Sending<T> {
    type Answer = Result<(), TrySendError<T>>;

    type Task = N;

    type Rest = Option<T>;

    type Then = ();

    open spec fn ready(before: Inner<T, N>) -> bool {
        before.wf()
    }

    fn perform(self, value: &mut Inner<T, N>) -> (r: (
        Result<(), TrySendError<T>>,
        Option<N>,
        Option<T>,
    ))
        ensures
            exists|channel: &mut Inner<T, N>, sent: Sent<T, N>|
                {
                    &&& #[trigger] call_ensures(Inner::<T, N>::try_send, (channel, self.val), sent)
                    &&& *channel == *old(value)
                    &&& *final(channel) == *final(value)
                    &&& r == (sent.result, sent.woken, sent.replaced)
                },
    {
        let Sent { result, woken, replaced } = value.try_send(self.val);
        (result, woken, replaced)
    }
}

impl<T, N: Notify> Operation<Inner<T, N>> for Joining {
    type Answer = ();

    type Task = N;

    type Rest = ();

    type Then = Leaving;

    open spec fn ready(before: Inner<T, N>) -> bool {
        before.wf()
    }

    fn perform(self, value: &mut Inner<T, N>) -> (r: ((), Option<N>, ()))
        ensures
            exists|channel: &mut Inner<T, N>|
                {
                    &&& #[trigger] call_ensures(Inner::<T, N>::add_tx, (channel,), ())
                    &&& *channel == *old(value)
                    &&& *final(channel) == *final(value)
                },
    {
        value.add_tx();
        ((), None, ())
    }
}

impl<T, N> Keeps<Inner<T, N>, Looking> for Origin<T, N> {
    proof fn keeps(self, before: Inner<T, N>, after: Inner<T, N>) {
    }
}

impl<T, N> Keeps<Inner<T, N>, Reserving> for Origin<T, N> {
    proof fn keeps(self, before: Inner<T, N>, after: Inner<T, N>) {
        let step = if before@.buffer.has_room() {
            Step::Reserve
        } else {
            Step::Refuse
        };
        laws::law_step_is_admitted(self, before@, step);
    }
}

impl<T, N> Keeps<Inner<T, N>, FinishingSend> for Origin<T, N> {
    proof fn keeps(self, before: Inner<T, N>, after: Inner<T, N>) {
        let slot = choose|slot: Ref<T>|
            before@.buffer.is_writing(slot.index as int) && after@ == #[trigger]
            before@.finish_send(slot);
        laws::law_step_is_admitted(self, before@, Step::FinishSend(slot));
    }
}

impl<T, N> Keeps<Inner<T, N>, Sending<T>> for Origin<T, N> {
    proof fn keeps(self, before: Inner<T, N>, after: Inner<T, N>) {
        if before@.buffer.has_room() {
            let val = choose|val: T| after@ == #[trigger] before@.send(val);
            laws::law_step_is_admitted(self, before@, Step::Send(val));
        } else {
            laws::law_step_is_admitted(self, before@, Step::Refuse);
        }
    }
}

impl<T, N> Keeps<Inner<T, N>, AskingForSlot> for Origin<T, N> {
    proof fn keeps(self, before: Inner<T, N>, after: Inner<T, N>) {
        let (state, task, after_state, r) = choose|
            state: State,
            task: N,
            after_state: State,
            r: SendPoll<T, N>,
        | #[trigger]
            before@.polls_send(state, task, after@, after_state, r);
        laws::law_admitted_state_is_wf(self, before@);
        laws::law_poll_takes_steps(before@, state, task, after@, after_state, r);
        laws::law_steps_are_admitted(
            self,
            before@,
            laws::poll_steps(before@, state, task, Step::Reserve, after_state),
        );
    }
}

impl<T, N> Keeps<Inner<T, N>, AskingToSend> for Origin<T, N> {
    proof fn keeps(self, before: Inner<T, N>, after: Inner<T, N>) {
        let (state, task, val, after_state, r) = choose|
            state: State,
            task: N,
            val: T,
            after_state: State,
            r: SendValuePoll<T, N>,
        | #[trigger]
            before@.polls_send_value(state, task, val, after@, after_state, r);
        laws::law_admitted_state_is_wf(self, before@);
        laws::law_poll_value_takes_steps(before@, state, task, val, after@, after_state, r);
        laws::law_steps_are_admitted(
            self,
            before@,
            laws::poll_steps(before@, state, task, Step::Send(val), after_state),
        );
    }
}

impl<T, N> Keeps<Inner<T, N>, GivingUp> for Origin<T, N> {
    proof fn keeps(self, before: Inner<T, N>, after: Inner<T, N>) {
        let key = choose|key: usize| after@ == #[trigger] before@.unlink(key);
        laws::law_step_is_admitted(self, before@, Step::Unlink(key));
    }
}

impl<T, N> Keeps<Inner<T, N>, Joining> for Origin<T, N> {
    proof fn keeps(self, before: Inner<T, N>, after: Inner<T, N>) {
        laws::law_step_is_admitted(self, before@, Step::AddTx);
    }
}

impl<T, N> Keeps<Inner<T, N>, Leaving> for Origin<T, N> {
    proof fn keeps(self, before: Inner<T, N>, after: Inner<T, N>) {
        laws::law_step_is_admitted(self, before@, Step::DropTx);
    }
}

impl<T, N> Keeps<Inner<T, N>, Taking> for Origin<T, N> {
    proof fn keeps(self, before: Inner<T, N>, after: Inner<T, N>) {
        let task = choose|task: N| after@ == #[trigger] before@.recv_ref(task);
        if before@.buffer.is_ready() {
            laws::law_step_is_admitted(self, before@, Step::Take);
        } else if !before@.can_receive() {
            laws::law_step_is_admitted(self, before@, Step::Park(task));
        }
    }
}

impl<T, N> Keeps<Inner<T, N>, FinishingRecv> for Origin<T, N> {
    proof fn keeps(self, before: Inner<T, N>, after: Inner<T, N>) {
        let value = choose|value: T| after@ == #[trigger] before@.finish_recv(value);
        laws::law_step_is_admitted(self, before@, Step::FinishRecv(value));
    }
}

impl<T, N> Keeps<Inner<T, N>, Receiving> for Origin<T, N> {
    proof fn keeps(self, before: Inner<T, N>, after: Inner<T, N>) {
        let (task, left) = choose|task: N, left: Option<T>|
            after@ == #[trigger] before@.recv(task, left);
        laws::law_admitted_state_is_wf(self, before@);
        laws::law_recv_takes_steps(before@, task, left);
        laws::law_steps_are_admitted(self, before@, laws::recv_steps(before@, task, left));
    }
}

impl<T, N> Keeps<Inner<T, N>, Closing> for Origin<T, N> {
    proof fn keeps(self, before: Inner<T, N>, after: Inner<T, N>) {
        laws::law_step_is_admitted(self, before@, Step::CloseRx);
    }
}

} // verus!
