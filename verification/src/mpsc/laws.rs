//! What holds of a channel as a whole, whatever is done to it and in whatever
//! order.
use crate::mpsc::{
    ChannelState, Closed, Origin, SendPoll, SendValuePoll, State, Step, TrySendError,
};
use crate::thingbuf::{BufferState, Ref};
use crate::wait::cell::WaitCell;
use crate::wait::queue::Waiter;
use core::task::Poll;
use vstd::prelude::*;

verus! {

/// The messages that are sent in the course of the steps, by producers that put
/// a message into their slot at once.
pub open spec fn sent<T, N>(steps: Seq<Step<T, N>>) -> Seq<T>
    decreases steps.len(),
{
    if steps.len() == 0 {
        Seq::empty()
    } else {
        let before = sent(steps.drop_last());
        match steps.last() {
            Step::Send(value) => before.push(value),
            _ => before,
        }
    }
}

/// Whether every producer puts its message into its slot at once.
pub open spec fn only_whole_sends<T, N>(steps: Seq<Step<T, N>>) -> bool {
    forall|i: int| 0 <= i < steps.len() ==> !((#[trigger] steps[i]) is Reserve)
}

/// Every step leaves a well-formed channel well formed.
pub proof fn law_step_keeps_wf<T, N>(s: ChannelState<T, N>, step: Step<T, N>)
    requires
        s.wf(),
        step.enabled(s),
    ensures
        step.next(s).wf(),
        step.next(s).buffer.capacity == s.buffer.capacity,
{
    s.tx.lemma_notify();
}

/// A slot that is handed to a producer takes its place at the end of the queue,
/// and a message put into it at once is the last message in the queue.
pub proof fn law_send_appends<T, N>(s: ChannelState<T, N>, value: T)
    requires
        s.wf(),
        s.buffer.has_room(),
    ensures
        s.reserve().buffer.is_writing(s.buffer.next_slot().index as int),
        s.send(value).buffer.slots == s.buffer.slots.push(Some(value)),
        s.send(value).buffer.popped == s.buffer.popped,
{
    assert(s.reserve().buffer.number(s.buffer.next_slot().index as int) == s.buffer.slots.len());
}

/// A channel stays well formed in the course of any steps, and its number of
/// slots does not change.
pub proof fn law_run_keeps_wf<T, N>(s: ChannelState<T, N>, steps: Seq<Step<T, N>>)
    requires
        s.wf(),
        s.all_enabled(steps),
    ensures
        s.run(steps).wf(),
        s.run(steps).buffer.capacity == s.buffer.capacity,
    decreases steps.len(),
{
    if steps.len() > 0 {
        law_run_keeps_wf(s, steps.drop_last());
        law_step_keeps_wf(s.run(steps.drop_last()), steps.last());
    }
}

/// A message that a producer has finished with is never changed, moved in the
/// queue or dropped by anything that is done to the channel: the slots that have
/// been handed out keep their order, and a slot that has been written keeps its
/// message. What the consumer has received is exactly what it had received
/// before, followed by what it takes in the course of the steps; and these are
/// the first slots that were handed out, in order.
pub proof fn law_messages_are_kept<T, N>(s: ChannelState<T, N>, steps: Seq<Step<T, N>>)
    requires
        s.wf(),
        s.all_enabled(steps),
    ensures
        s.buffer.slots.len() <= s.run(steps).buffer.slots.len(),
        forall|i: int|
            0 <= i < s.buffer.slots.len() && s.buffer.slots[i] is Some ==> (#[trigger] s.run(
                steps,
            ).buffer.slots[i]) == s.buffer.slots[i],
        s.run(steps).buffer.received() == s.buffer.received() + s.taken(steps),
        forall|i: int|
            0 <= i < s.run(steps).buffer.popped ==> s.run(steps).buffer.slots[i] == Some(
                #[trigger] s.run(steps).buffer.received()[i],
            ),
    decreases steps.len(),
{
    if steps.len() > 0 {
        let before = s.run(steps.drop_last());
        let after = s.run(steps);
        law_messages_are_kept(s, steps.drop_last());
        law_run_keeps_wf(s, steps.drop_last());
        law_run_keeps_wf(s, steps);
        match steps.last() {
            Step::Send(value) => {
                law_send_appends(before, value);
            },
            _ => {},
        }
        assert(forall|i: int|
            0 <= i < before.buffer.slots.len() && before.buffer.slots[i] is Some ==> (
            #[trigger] after.buffer.slots[i]) == before.buffer.slots[i]);
        match steps.last() {
            Step::Take => {
                assert(after.buffer.received() =~= before.buffer.received().push(
                    before.buffer.front().value,
                ));
            },
            _ => {},
        }
    }
}

/// Messages are received in the order in which they were sent, each of them once,
/// and none is lost: what was in the queue, followed by what was sent, is what was
/// received, followed by what is in the queue. This is for producers that put
/// their message into their slot at once; the others take their place in the
/// queue when they are given the slot.
pub proof fn law_fifo<T, N>(s: ChannelState<T, N>, steps: Seq<Step<T, N>>)
    requires
        s.wf(),
        s.all_written(),
        s.all_enabled(steps),
        only_whole_sends(steps),
    ensures
        s.run(steps).all_written(),
        s.messages() + sent(steps) == s.taken(steps) + s.run(steps).messages(),
    decreases steps.len(),
{
    if steps.len() > 0 {
        let rest = steps.drop_last();
        let before = s.run(rest);
        law_fifo(s, rest);
        law_run_keeps_wf(s, rest);
        match steps.last() {
            Step::Send(value) => {
                law_send_appends(before, value);
                assert(s.messages() + sent(steps) =~= (s.messages() + sent(rest)).push(value));
            },
            _ => {},
        }
    }
}

/// Messages are received in the order in which their slots were handed out,
/// however long a producer takes to finish with its slot: the slots that were in
/// the queue, followed by those that are handed out, each with what its producer
/// leaves in it, are those that the consumer takes, followed by those that are in
/// the queue. None is lost, and none comes twice.
pub proof fn law_fifo_by_reservation<T, N>(s: ChannelState<T, N>, steps: Seq<Step<T, N>>)
    requires
        s.wf(),
        s.all_enabled(steps),
    ensures
        s.ledger(steps) == s.taken(steps).map_values(|message: T| Some(message)) + s.run(
            steps,
        ).pending(),
{
    let end = s.run(steps);
    lemma_ledger(s, steps);
    law_run_keeps_wf(s, steps);
    law_messages_are_kept(s, steps);
    assert(end.buffer.received().len() == s.buffer.popped + s.taken(steps).len());
    assert forall|i: int| 0 <= i < s.taken(steps).len() implies (#[trigger] s.taken(steps)[i])
        == end.buffer.slots[s.buffer.popped + i]->0 by {
        assert((s.buffer.received() + s.taken(steps))[s.buffer.popped + i] == s.taken(steps)[i]);
    }
    assert(s.ledger(steps) =~= s.taken(steps).map_values(|message: T| Some(message))
        + end.pending());
}

/// The ledger is what the slots hold that the consumer had not taken.
proof fn lemma_ledger<T, N>(s: ChannelState<T, N>, steps: Seq<Step<T, N>>)
    requires
        s.wf(),
        s.all_enabled(steps),
    ensures
        s.ledger(steps) == s.run(steps).buffer.slots.skip(s.buffer.popped as int),
        s.buffer.popped <= s.run(steps).buffer.popped,
    decreases steps.len(),
{
    if steps.len() > 0 {
        let before = s.run(steps.drop_last());
        lemma_ledger(s, steps.drop_last());
        law_run_keeps_wf(s, steps.drop_last());
        match steps.last() {
            Step::Send(value) => {
                law_send_appends(before, value);
            },
            _ => {},
        }
        assert(s.ledger(steps) =~= s.run(steps).buffer.slots.skip(s.buffer.popped as int));
    }
}

/// A producer that has been given a slot finishes with that very slot, whatever is
/// done in the meantime: until it has finished, the slot is known by the same ring
/// position and keeps its place in the order of the slots.
pub proof fn law_producer_finishes_with_its_slot<T, N>(
    s: ChannelState<T, N>,
    steps: Seq<Step<T, N>>,
    value: T,
)
    requires
        s.wf(),
        s.buffer.has_room(),
        s.reserve().all_enabled(steps),
        s.reserve().run(steps).buffer.slots[s.buffer.slots.len() as int] is None,
    ensures
        ({
            let n = s.buffer.slots.len() as int;
            let index = s.buffer.next_slot().index;
            let later = s.reserve().run(steps);
            &&& later.buffer.is_writing(index as int)
            &&& later.finish_send(Ref { index, value }).buffer.slots == later.buffer.slots.update(
                n,
                Some(value),
            )
        }),
{
    law_send_appends(s, value);
    law_step_keeps_wf(s, Step::Reserve);
    lemma_writing_slot_keeps_number(
        s.reserve(),
        steps,
        s.buffer.next_slot().index as int,
        s.buffer.slots.len() as int,
    );
}

proof fn lemma_writing_slot_keeps_number<T, N>(
    s: ChannelState<T, N>,
    steps: Seq<Step<T, N>>,
    index: int,
    n: int,
)
    requires
        s.wf(),
        s.all_enabled(steps),
        s.buffer.is_writing(index),
        s.buffer.number(index) == n,
        s.run(steps).buffer.slots[n] is None,
    ensures
        s.run(steps).buffer.is_writing(index),
        s.run(steps).buffer.number(index) == n,
    decreases steps.len(),
{
    if steps.len() > 0 {
        let rest = steps.drop_last();
        let before = s.run(rest);
        law_run_keeps_wf(s, rest);
        law_messages_are_kept(s, rest);
        match steps.last() {
            Step::Send(value) => {
                law_send_appends(before, value);
            },
            _ => {},
        }
        lemma_writing_slot_keeps_number(s, rest, index, n);
    }
}

/// Nothing is received that nobody sent: a message in a slot is what the slot held
/// in the beginning, or what a producer left in it.
pub proof fn law_nothing_is_made_up<T, N>(
    s: ChannelState<T, N>,
    steps: Seq<Step<T, N>>,
    n: int,
    message: T,
)
    requires
        s.wf(),
        s.all_enabled(steps),
        0 <= n < s.run(steps).buffer.slots.len(),
        s.run(steps).buffer.slots[n] == Some(message),
    ensures
        ({
            ||| n < s.buffer.slots.len() && s.buffer.slots[n] == Some(message)
            ||| exists|i: int|
                0 <= i < steps.len() && ((#[trigger] steps[i]) == Step::<T, N>::Send(message) || (
                steps[i] is FinishSend && steps[i]->FinishSend_0.value == message))
        }),
    decreases steps.len(),
{
    if steps.len() > 0 {
        let rest = steps.drop_last();
        let before = s.run(rest);
        let last = steps.len() - 1;
        law_run_keeps_wf(s, rest);
        match steps[last] {
            Step::Send(value) => {
                law_send_appends(before, value);
            },
            _ => {},
        }
        if n < before.buffer.slots.len() && before.buffer.slots[n] == Some(message) {
            law_nothing_is_made_up(s, rest, n, message);
            if !(n < s.buffer.slots.len() && s.buffer.slots[n] == Some(message)) {
                let i = choose|i: int|
                    0 <= i < rest.len() && ((#[trigger] rest[i]) == Step::<T, N>::Send(message) || (
                    rest[i] is FinishSend && rest[i]->FinishSend_0.value == message));
                assert(steps[i] == rest[i]);
            }
        }
    }
}

/// A message sent into a channel without messages is the next one received.
pub proof fn law_round_trip<T, N>(s: ChannelState<T, N>, value: T)
    requires
        s.wf(),
        s.buffer.has_room(),
        s.buffer.queued() == 0,
    ensures
        s.send(value).buffer.is_ready(),
        s.send(value).buffer.front().value == value,
        s.send(value).take().buffer.queued() == 0,
{
    law_send_appends(s, value);
}

/// While a producer is writing, the consumer does not get past its slot, whatever
/// is sent behind it.
pub proof fn law_slots_keep_their_place<T, N>(
    s: ChannelState<T, N>,
    steps: Seq<Step<T, N>>,
    n: int,
)
    requires
        s.wf(),
        s.all_enabled(steps),
        s.buffer.popped <= n < s.buffer.slots.len(),
        s.run(steps).buffer.slots[n] is None,
    ensures
        s.run(steps).buffer.popped <= n,
        s.taken(steps).len() <= n - s.buffer.popped,
        s.run(steps).buffer.popped == n ==> !s.run(steps).buffer.is_ready(),
{
    law_run_keeps_wf(s, steps);
    law_messages_are_kept(s, steps);
    assert(s.run(steps).buffer.received().len() == s.buffer.received().len() + s.taken(
        steps,
    ).len());
}

/// A refused producer changes nothing but that the consumer is woken.
pub proof fn law_refusal_changes_nothing<T, N>(s: ChannelState<T, N>)
    requires
        s.wf(),
        !s.buffer.has_room(),
    ensures
        s.refuse().buffer == s.buffer,
        s.refuse().tx == s.tx,
        s.refuse().tx_count == s.tx_count,
        s.refuse().send_error() == s.send_error(),
        !s.rx.rx_closed ==> s.refuse().rx.waiter is None && s.woken_by_refusal() == s.rx.waiter,
{
}

/// `n` times the same step.
pub open spec fn times<T, N>(n: nat, step: Step<T, N>) -> Seq<Step<T, N>> {
    Seq::new(n, |i: int| step)
}

/// A channel whose producers are gone gives the consumer all the messages that
/// are still in it, in order, and then tells it that there are no more.
pub proof fn law_closed_channel_is_drained<T, N>(s: ChannelState<T, N>, n: nat)
    requires
        s.wf(),
        s.buffer.closed,
        s.all_written(),
        n <= s.buffer.queued(),
    ensures
        s.all_enabled(times(n, Step::Take)),
        s.taken(times(n, Step::Take)) == s.messages().take(n as int),
        s.run(times(n, Step::Take)).buffer.slots == s.buffer.slots,
        s.run(times(n, Step::Take)).buffer.popped == s.buffer.popped + n,
        s.run(times(n, Step::Take)).buffer.closed,
        n < s.buffer.queued() ==> s.run(times(n, Step::Take)).buffer.is_ready(),
        n == s.buffer.queued() ==> s.run(times(n, Step::Take)).buffer.is_finished(),
    decreases n,
{
    if n > 0 {
        let rest = times::<T, N>((n - 1) as nat, Step::Take);
        assert(times::<T, N>(n, Step::Take).drop_last() =~= rest);
        law_closed_channel_is_drained(s, (n - 1) as nat);
    }
}

/// Once the consumer has been told that there are no more messages, there never
/// are any.
pub proof fn law_finished_is_final<T, N>(s: ChannelState<T, N>, steps: Seq<Step<T, N>>)
    requires
        s.wf(),
        s.buffer.is_finished(),
        s.all_enabled(steps),
    ensures
        s.run(steps).buffer.is_finished(),
        s.taken(steps) == Seq::<T>::empty(),
    decreases steps.len(),
{
    if steps.len() > 0 {
        law_finished_is_final(s, steps.drop_last());
        law_run_keeps_wf(s, steps.drop_last());
    }
}

/// Once the consumer is gone, no producer is ever given a slot again: it is told
/// that the channel is closed, and a message that it wanted to send comes back.
pub proof fn law_no_send_without_consumer<T, N>(
    s: ChannelState<T, N>,
    steps: Seq<Step<T, N>>,
    value: T,
)
    requires
        s.wf(),
        s.rx.rx_closed,
        s.all_enabled(steps),
    ensures
        s.run(steps).rx.rx_closed,
        s.run(steps).buffer.slots.len() == s.buffer.slots.len(),
        !s.run(steps).buffer.has_room(),
        s.run(steps).send_error() == TrySendError::Closed(()),
        s.run(steps).send_error().spec_with_value(value) == TrySendError::Closed(value),
    decreases steps.len(),
{
    if steps.len() > 0 {
        law_no_send_without_consumer(s, steps.drop_last(), value);
        law_run_keeps_wf(s, steps.drop_last());
        law_run_keeps_wf(s, steps);
    }
}

/// A producer that asks for a slot once the consumer is gone, or that waited for
/// one when it went, is told that the channel is closed.
pub proof fn law_no_wait_without_consumer<T, N>(
    s: ChannelState<T, N>,
    state: State,
    task: N,
    after: ChannelState<T, N>,
    after_state: State,
    r: SendPoll<T, N>,
)
    requires
        s.wf(),
        s.rx.rx_closed,
        s.polls_send(state, task, after, after_state, r),
    ensures
        r.poll == Poll::Ready(Err::<Ref<T>, Closed>(Closed(()))),
        !(after_state is Waiting),
{
}

/// Dropping a copy of a producer's handle undoes making it.
pub proof fn law_clone_then_drop<T, N>(s: ChannelState<T, N>)
    requires
        s.wf(),
        1 <= s.tx_count < usize::MAX,
    ensures
        s.add_tx().drop_tx() == s,
{
}

/// Of `n` producers, the last one to go closes the channel, and no other does.
pub proof fn law_last_producer_closes<T, N>(s: ChannelState<T, N>, n: nat)
    requires
        s.wf(),
        !s.rx.tx_closed,
        1 <= n <= s.tx_count,
    ensures
        s.run(times(n, Step::DropTx)).tx_count == s.tx_count - n,
        n < s.tx_count ==> s.run(times(n, Step::DropTx)) == (ChannelState {
            tx_count: (s.tx_count - n) as usize,
            ..s
        }),
        n == s.tx_count ==> s.run(times(n, Step::DropTx)) == (ChannelState {
            buffer: s.buffer.close(),
            rx: WaitCell { waiter: None, tx_closed: true, ..s.rx },
            tx_count: 0,
            ..s
        }),
    decreases n,
{
    let steps = times::<T, N>(n, Step::DropTx);
    assert(steps.drop_last() =~= times((n - 1) as nat, Step::DropTx));
    if n > 1 {
        law_last_producer_closes(s, (n - 1) as nat);
    }
}

/// How many producers are alive after the steps, in a channel that began with one.
pub open spec fn producers<T, N>(steps: Seq<Step<T, N>>) -> int
    decreases steps.len(),
{
    if steps.len() == 0 {
        1
    } else {
        let before = producers(steps.drop_last());
        match steps.last() {
            Step::AddTx => before + 1,
            Step::DropTx => before - 1,
            _ => before,
        }
    }
}

/// Whether only living producers are copied and dropped in the course of the
/// steps, and their number fits in a `usize`.
pub open spec fn producers_are_real<T, N>(steps: Seq<Step<T, N>>) -> bool
    decreases steps.len(),
{
    steps.len() == 0 || {
        &&& producers_are_real(steps.drop_last())
        &&& steps.last() is AddTx || steps.last() is DropTx ==> producers(steps.drop_last()) > 0
        &&& producers(steps) <= usize::MAX
    }
}

/// While the consumer is there, a channel is closed exactly when no producer is
/// alive, and its count of producers is right. So the consumer is never told that
/// there will be no more messages while a producer lives.
pub proof fn law_closed_iff_no_producer_lives<T, N>(
    buffer: BufferState<T>,
    steps: Seq<Step<T, N>>,
)
    requires
        ChannelState::<T, N>::initial(buffer).wf(),
        ChannelState::<T, N>::initial(buffer).all_enabled(steps),
        producers_are_real(steps),
        forall|i: int| 0 <= i < steps.len() ==> !((#[trigger] steps[i]) is CloseRx),
    ensures
        ({
            let end = ChannelState::<T, N>::initial(buffer).run(steps);
            &&& end.tx_count == producers(steps)
            &&& end.rx.tx_closed <==> producers(steps) == 0
            &&& !end.rx.rx_closed
            &&& end.buffer.closed <==> producers(steps) == 0
            &&& end.buffer.is_finished() ==> producers(steps) == 0
        }),
    decreases steps.len(),
{
    let s = ChannelState::<T, N>::initial(buffer);
    if steps.len() > 0 {
        let rest = steps.drop_last();
        assert(forall|i: int| 0 <= i < rest.len() ==> rest[i] == steps[i]);
        assert(steps.last() == steps[steps.len() - 1]);
        law_closed_iff_no_producer_lives(buffer, rest);
        law_run_keeps_wf(s, steps);
    }
}

/// When the consumer goes, every producer that waits is among the tasks that are
/// handed out to be woken, and none waits any more.
pub proof fn law_close_wakes_every_producer<T, N>(s: ChannelState<T, N>, key: usize)
    requires
        s.wf(),
        s.tx.is_linked(key),
    ensures
        s.tx.tasks().contains(s.tx.waiters[s.tx.position(key)].task->0),
        !s.close_rx().tx.is_linked(key),
        !s.close_rx().tx.has_waiting(),
{
    s.tx.lemma_tasks();
    law_step_keeps_wf(s, Step::CloseRx);
}

/// A consumer that waits is not forgotten: its task waits until it has been
/// handed out to be woken, and it has been handed out before there is a message
/// for it, or before it could learn that there will be none.
pub proof fn law_consumer_is_woken<T, N>(s: ChannelState<T, N>, steps: Seq<Step<T, N>>, task: N)
    requires
        s.wf(),
        s.rx.waiter == Some(task),
        !s.rx.rx_closed,
        s.all_enabled(steps),
        forall|i: int|
            0 <= i < steps.len() ==> !((#[trigger] steps[i]) is Park) && !(steps[i] is CloseRx),
    ensures
        ({
            ||| s.run(steps).rx.waiter == Some(task) && !s.run(steps).can_receive()
            ||| exists|i: int|
                0 <= i < steps.len() && (#[trigger] steps[i]).wakes_consumer(
                    s.run(steps.take(i)),
                ) == Some(task)
        }),
        !s.run(steps).rx.rx_closed,
    decreases steps.len(),
{
    if steps.len() > 0 {
        let rest = steps.drop_last();
        let last = steps.len() - 1;
        let before = s.run(rest);
        assert(steps.take(last) =~= rest);
        law_consumer_is_woken(s, rest, task);
        law_run_keeps_wf(s, rest);
        law_run_keeps_wf(s, steps);
        if before.rx.waiter == Some(task) && !before.can_receive() {
            assert(s.run(steps).rx.waiter == Some(task) || steps[last].wakes_consumer(before)
                == Some(task));
        } else {
            let i = choose|i: int|
                0 <= i < rest.len() && (#[trigger] rest[i]).wakes_consumer(s.run(rest.take(i)))
                    == Some(task);
            assert(rest.take(i) =~= steps.take(i));
        }
    }
}

/// Only the task in which the consumer asked last is woken.
pub proof fn law_last_task_waits<T, N>(s: ChannelState<T, N>, first: N, second: N)
    requires
        s.wf(),
        !s.can_receive(),
    ensures
        s.park(first).park(second) == s.park(second),
        s.park(second).rx.waiter == Some(second),
{
}

/// A slot that the consumer gives back comes last among the free slots, and the
/// free slots are handed out in order, with what they hold.
pub proof fn law_slots_are_reused<T, N>(s: ChannelState<T, N>, value: T, n: nat)
    requires
        s.wf(),
        s.buffer.lent > 0,
        !s.buffer.closed,
        n <= s.buffer.spare.len(),
    ensures
        s.finish_recv(value).all_enabled(times(n, Step::Reserve)),
        s.finish_recv(value).run(times(n, Step::Reserve)).buffer.spare == s.buffer.spare.push(
            value,
        ).skip(n as int),
        n < s.buffer.spare.len() ==> s.finish_recv(value).run(
            times(n, Step::Reserve),
        ).buffer.next_slot().value == s.buffer.spare[n as int],
        n == s.buffer.spare.len() ==> s.finish_recv(value).run(
            times(n, Step::Reserve),
        ).buffer.next_slot().value == value,
        !s.finish_recv(value).run(times(n, Step::Reserve)).buffer.closed,
    decreases n,
{
    if n > 0 {
        let rest = times::<T, N>((n - 1) as nat, Step::Reserve);
        assert(times::<T, N>(n, Step::Reserve).drop_last() =~= rest);
        law_slots_are_reused(s, value, (n - 1) as nat);
    }
}

/// Producers that wait are notified in the order in which they started to wait,
/// one at a time.
pub proof fn law_producers_are_notified_in_order<T, N>(s: ChannelState<T, N>, value: T)
    requires
        s.wf(),
        s.buffer.lent > 0,
    ensures
        s.tx.has_waiting() <==> s.tx.tasks().len() > 0,
        s.tx.has_waiting() ==> {
            &&& s.tx.notified_task() == Some(s.tx.tasks()[0])
            &&& s.finish_recv(value).tx.tasks() == s.tx.tasks().drop_first()
        },
        !s.tx.has_waiting() ==> {
            &&& s.tx.notified_task() is None
            &&& s.finish_recv(value).tx.waiters == s.tx.waiters
        },
{
    s.tx.lemma_notify();
}

/// A producer that starts to wait waits behind all the others.
pub proof fn law_new_producer_waits_last<T, N>(s: ChannelState<T, N>, key: usize, task: N)
    requires
        s.wf(),
        Step::<T, N>::Link(key, task).enabled(s),
    ensures
        Step::<T, N>::Link(key, task).next(s).tx.tasks() == s.tx.tasks().push(task),
{
    let waiters = s.tx.waiters.push(Waiter { key, task: Some(task) });
    assert(waiters.drop_last() =~= s.tx.waiters);
}

/// When the consumer gives a slot back, the producer that has waited longest gets
/// a slot if it asks before another does.
pub proof fn law_notified_producer_gets_slot<T, N>(
    s: ChannelState<T, N>,
    value: T,
    task: N,
    after: ChannelState<T, N>,
    after_state: State,
    r: SendPoll<T, N>,
)
    requires
        s.wf(),
        !s.buffer.closed,
        s.buffer.lent > 0,
        s.tx.has_waiting(),
        s.finish_recv(value).polls_send(
            State::Waiting(s.tx.waiters[s.tx.first_waiting()].key),
            task,
            after,
            after_state,
            r,
        ),
    ensures
        r.poll == Poll::Ready(Ok::<Ref<T>, Closed>(s.finish_recv(value).buffer.next_slot())),
{
    let freed = s.finish_recv(value);
    let i = s.tx.first_waiting();
    law_step_keeps_wf(s, Step::FinishRecv(value));
    freed.tx.lemma_position(i);
}

/// A producer that waits and has not been notified goes on waiting, though a slot
/// may be free.
pub proof fn law_producer_waits_for_notification<T, N>(
    s: ChannelState<T, N>,
    key: usize,
    task: N,
    after: ChannelState<T, N>,
    after_state: State,
    r: SendPoll<T, N>,
)
    requires
        s.wf(),
        !s.rx.rx_closed,
        s.tx.is_linked(key),
        s.polls_send(State::Waiting(key), task, after, after_state, r),
    ensures
        r.poll is Pending,
        after_state == State::Waiting(key),
        after.tx.is_linked(key),
        after.tx.waiters[after.tx.position(key)].task == Some(task),
        after.tx.position(key) == s.tx.position(key),
        after.buffer == s.buffer,
{
    let i = s.tx.position(key);
    law_step_keeps_wf(s, Step::Relink(key, task));
    after.tx.lemma_position(i);
}

/// A producer that gives up leaves the queue, and the others keep their places
/// and their order.
pub proof fn law_cancel_leaves_the_others<T, N>(s: ChannelState<T, N>, key: usize, other: usize)
    requires
        s.wf(),
        other != key,
    ensures
        !s.unlink(key).tx.has_key(key),
        s.unlink(key).tx.has_key(other) == s.tx.has_key(other),
        s.tx.has_key(other) ==> s.unlink(key).tx.waiters[s.unlink(key).tx.position(other)]
            == s.tx.waiters[s.tx.position(other)],
        s.tx.has_key(key) && s.tx.has_key(other) ==> s.unlink(key).tx.position(other)
            == s.tx.position(other) - (if s.tx.position(key) < s.tx.position(other) {
            1int
        } else {
            0int
        }),
        s.unlink(key).buffer == s.buffer,
        s.unlink(key).rx == s.rx,
{
    let after = s.unlink(key);
    if s.tx.has_key(key) {
        let p = s.tx.position(key);
        law_step_keeps_wf(s, Step::Unlink(key));
        assert(forall|i: int|
            0 <= i < after.tx.waiters.len() ==> (#[trigger] after.tx.waiters[i]).key != key);
        if s.tx.has_key(other) {
            let q = s.tx.position(other);
            let q2 = if q < p {
                q
            } else {
                q - 1
            };
            after.tx.lemma_position(q2);
        }
    }
}

/// What is done to the channel when a producer asks for a slot, step by step;
/// `grant` is what is done if it gets one.
pub open spec fn poll_steps<T, N>(
    s: ChannelState<T, N>,
    state: State,
    task: N,
    grant: Step<T, N>,
    after_state: State,
) -> Seq<Step<T, N>> {
    match state {
        State::Waiting(key) => if s.tx.closed {
            seq![Step::Unlink(key)]
        } else if s.tx.is_linked(key) {
            seq![Step::Relink(key, task)]
        } else {
            seq![Step::Unlink(key)] + attempt_steps(s.unlink(key), task, grant, after_state)
        },
        _ => attempt_steps(s, task, grant, after_state),
    }
}

/// What is done to the channel when a producer that does not wait asks for a
/// slot, step by step; `grant` is what is done if it gets one.
pub open spec fn attempt_steps<T, N>(
    s: ChannelState<T, N>,
    task: N,
    grant: Step<T, N>,
    after_state: State,
) -> Seq<Step<T, N>> {
    if s.buffer.has_room() {
        seq![grant]
    } else if s.rx.rx_closed {
        seq![Step::Refuse]
    } else {
        seq![Step::Refuse, Step::Link(after_state->Waiting_0, task)]
    }
}

/// A producer that asks for a slot does nothing but take the steps of
/// [`poll_steps`]: what holds of all steps holds of it too.
pub proof fn law_poll_takes_steps<T, N>(
    s: ChannelState<T, N>,
    state: State,
    task: N,
    after: ChannelState<T, N>,
    after_state: State,
    r: SendPoll<T, N>,
)
    requires
        s.wf(),
        s.polls_send(state, task, after, after_state, r),
    ensures
        s.all_enabled(poll_steps(s, state, task, Step::Reserve, after_state)),
        s.run(poll_steps(s, state, task, Step::Reserve, after_state)) == after,
{
    let grant = Step::<T, N>::Reserve;
    match state {
        State::Waiting(key) => {
            law_step_keeps_wf(s, Step::Unlink(key));
            lemma_attempt_steps(s.unlink(key), task, grant, after_state);
        },
        _ => {
            lemma_attempt_steps(s, task, grant, after_state);
        },
    }
    lemma_poll_steps(s, state, task, grant, after_state);
}

/// A producer that sends a message does nothing but take the steps of
/// [`poll_steps`], and if it gets a slot it sends its message in one step.
pub proof fn law_poll_value_takes_steps<T, N>(
    s: ChannelState<T, N>,
    state: State,
    task: N,
    val: T,
    after: ChannelState<T, N>,
    after_state: State,
    r: SendValuePoll<T, N>,
)
    requires
        s.wf(),
        s.polls_send_value(state, task, val, after, after_state, r),
    ensures
        s.all_enabled(poll_steps(s, state, task, Step::Send(val), after_state)),
        s.run(poll_steps(s, state, task, Step::Send(val), after_state)) == after,
{
    let grant = Step::<T, N>::Send(val);
    match state {
        State::Waiting(key) => {
            law_step_keeps_wf(s, Step::Unlink(key));
            lemma_attempt_steps(s.unlink(key), task, grant, after_state);
        },
        _ => {
            lemma_attempt_steps(s, task, grant, after_state);
        },
    }
    lemma_poll_steps(s, state, task, grant, after_state);
}

/// Sending a message is asking for a slot, and, if one is granted, finishing with
/// it at once.
pub proof fn law_send_is_send_ref_and_finish<T, N>(
    s: ChannelState<T, N>,
    state: State,
    task: N,
    val: T,
    after: ChannelState<T, N>,
    after_state: State,
    r: SendValuePoll<T, N>,
) -> (answer: (ChannelState<T, N>, SendPoll<T, N>))
    requires
        s.wf(),
        s.polls_send_value(state, task, val, after, after_state, r),
    ensures
        s.polls_send(state, task, answer.0, after_state, answer.1),
        match answer.1.poll {
            Poll::Pending => {
                &&& r.poll is Pending
                &&& r.val == Some(val)
                &&& r.woken == answer.1.woken
                &&& after == answer.0
            },
            Poll::Ready(Ok(slot)) => {
                &&& r.poll == Poll::Ready(Ok::<(), Closed<T>>(()))
                &&& r.woken == answer.0.rx.waiter
                &&& r.replaced == Some(slot.value)
                &&& answer.0.buffer.is_writing(slot.index as int)
                &&& after == answer.0.finish_send(Ref { index: slot.index, value: val })
            },
            Poll::Ready(Err(_)) => {
                &&& r.poll == Poll::Ready(Err::<(), Closed<T>>(Closed(val)))
                &&& after == answer.0
            },
        },
{
    let base = match state {
        State::Waiting(key) => s.unlink(key),
        _ => s,
    };
    match state {
        State::Waiting(key) => {
            law_step_keeps_wf(s, Step::Unlink(key));
        },
        _ => {},
    }
    match r.poll {
        Poll::Pending => (
            after,
            SendPoll { poll: Poll::Pending, woken: r.woken, unused: r.unused },
        ),
        Poll::Ready(Ok(_)) => {
            law_send_appends(base, val);
            (
                base.reserve(),
                SendPoll {
                    poll: Poll::Ready(Ok(base.buffer.next_slot())),
                    woken: None,
                    unused: Some(task),
                },
            )
        },
        Poll::Ready(Err(_)) => (
            after,
            SendPoll { poll: Poll::Ready(Err(Closed(()))), woken: None, unused: Some(task) },
        ),
    }
}

/// A producer whose message has been sent has put it at the end of the queue, once,
/// and the consumer's task has been handed out to be woken.
pub proof fn law_completed_send_appends<T, N>(
    s: ChannelState<T, N>,
    state: State,
    task: N,
    val: T,
    after: ChannelState<T, N>,
    after_state: State,
    r: SendValuePoll<T, N>,
)
    requires
        s.wf(),
        s.polls_send_value(state, task, val, after, after_state, r),
        r.poll == Poll::Ready(Ok::<(), Closed<T>>(())),
    ensures
        after.buffer.slots == s.buffer.slots.push(Some(val)),
        after.pending() == s.pending().push(Some(val)),
        r.woken == s.rx.waiter,
        after.rx.waiter is None,
{
    match state {
        State::Waiting(key) => {
            law_step_keeps_wf(s, Step::Unlink(key));
            law_send_appends(s.unlink(key), val);
        },
        _ => {
            law_send_appends(s, val);
        },
    }
}

/// What is done to the channel when the consumer asks for the next message itself
/// and leaves `left` in its place, step by step.
pub open spec fn recv_steps<T, N>(
    s: ChannelState<T, N>,
    task: N,
    left: Option<T>,
) -> Seq<Step<T, N>> {
    if s.buffer.is_ready() {
        seq![Step::Take, Step::FinishRecv(left->0)]
    } else if s.buffer.is_finished() {
        seq![]
    } else {
        seq![Step::Park(task)]
    }
}

/// A consumer that asks for the next message does nothing but take the steps of
/// [`recv_steps`], and the message that it gets is the one that it takes. It sends
/// nothing.
pub proof fn law_recv_takes_steps<T, N>(s: ChannelState<T, N>, task: N, left: Option<T>)
    requires
        s.wf(),
    ensures
        s.all_enabled(recv_steps(s, task, left)),
        s.run(recv_steps(s, task, left)) == s.recv(task, left),
        s.taken(recv_steps(s, task, left)) == match s.recv_answer(task, left).poll {
            Poll::Ready(Some(message)) => seq![message],
            _ => Seq::empty(),
        },
        sent(recv_steps(s, task, left)) == Seq::<T>::empty(),
{
    let steps = recv_steps(s, task, left);
    if s.buffer.is_ready() {
        assert(steps =~= seq![Step::Take] + seq![Step::FinishRecv(left->0)]);
        lemma_run_one(s, Step::Take);
        lemma_run_one(s.take(), Step::FinishRecv(left->0));
        lemma_run_concat(s, seq![Step::Take], seq![Step::FinishRecv(left->0)]);
    } else if !s.buffer.is_finished() {
        lemma_run_one(s, Step::Park(task));
    }
}

/// Asking for the next message itself answers as asking for its slot does: it
/// waits in the same task, or tells that there are no more messages, or gives the
/// message that the slot holds. In that case the slot has been given back with
/// what was to be left in it, and the producer that has waited longest for a slot
/// has been notified.
pub proof fn law_recv_agrees_with_recv_ref<T, N>(s: ChannelState<T, N>, task: N, left: Option<T>)
    requires
        s.wf(),
        s.buffer.is_ready() ==> left is Some,
    ensures
        match s.recv_ref_answer(task).poll {
            Poll::Pending => {
                &&& s.recv_answer(task, left).poll is Pending
                &&& s.recv(task, left) == s.recv_ref(task)
                &&& s.recv(task, left).rx.waiter == Some(task)
            },
            Poll::Ready(None) => {
                &&& s.recv_answer(task, left).poll == Poll::Ready(None::<T>)
                &&& s.recv(task, left) == s.recv_ref(task)
            },
            Poll::Ready(Some(slot)) => {
                &&& s.recv_answer(task, left).poll == Poll::Ready(Some(slot.value))
                &&& s.recv(task, left) == s.recv_ref(task).finish_recv(left->0)
                &&& s.recv(task, left).buffer.lent == s.buffer.lent
                &&& s.recv(task, left).buffer.spare == s.buffer.spare.push(left->0)
                &&& s.recv_answer(task, left).woken == s.tx.notified_task()
            },
        },
{
}

/// The message that the consumer is given does not depend on what is left in its
/// place.
pub proof fn law_recv_answers_agree<T, N>(
    s: ChannelState<T, N>,
    task: N,
    first: Option<T>,
    second: Option<T>,
)
    ensures
        s.recv_answer(task, first).poll == s.recv_answer(task, second).poll,
        s.recv_answer(task, first).woken == s.recv_answer(task, second).woken,
{
}

pub(crate) proof fn lemma_run_one<T, N>(s: ChannelState<T, N>, step: Step<T, N>)
    ensures
        s.all_enabled(seq![step]) == step.enabled(s),
        s.run(seq![step]) == step.next(s),
        s.taken(seq![step]) == match step {
            Step::Take => seq![s.buffer.front().value],
            _ => Seq::<T>::empty(),
        },
        sent(seq![step]) == match step {
            Step::Send(value) => seq![value],
            _ => Seq::<T>::empty(),
        },
{
    let none = seq![step].drop_last();
    assert(none =~= Seq::<Step<T, N>>::empty());
    assert(s.all_enabled(none));
    assert(s.taken(none) =~= Seq::<T>::empty());
    assert(sent(none) =~= Seq::<T>::empty());
}

/// Taking two lists of steps, one after the other.
proof fn lemma_run_concat<T, N>(
    s: ChannelState<T, N>,
    first: Seq<Step<T, N>>,
    second: Seq<Step<T, N>>,
)
    ensures
        s.all_enabled(first + second) == (s.all_enabled(first) && s.run(first).all_enabled(second)),
        s.run(first + second) == s.run(first).run(second),
        s.taken(first + second) == s.taken(first) + s.run(first).taken(second),
        sent(first + second) == sent(first) + sent(second),
    decreases second.len(),
{
    let steps = first + second;
    if second.len() == 0 {
        assert(steps =~= first);
    } else {
        lemma_run_concat(s, first, second.drop_last());
        assert(steps.drop_last() =~= first + second.drop_last());
        assert(steps.last() == second.last());
    }
}

/// What a producer gets that does not wait and asks for a slot: `grant`, a place
/// in the queue, or a refusal.
pub(crate) proof fn lemma_attempt_steps<T, N>(
    s: ChannelState<T, N>,
    task: N,
    grant: Step<T, N>,
    after_state: State,
)
    requires
        s.wf(),
        grant is Reserve || grant is Send,
    ensures
        ({
            let steps = attempt_steps(s, task, grant, after_state);
            if s.buffer.has_room() {
                &&& s.all_enabled(steps)
                &&& s.run(steps) == grant.next(s)
                &&& sent(steps) == sent(seq![grant])
            } else if s.rx.rx_closed {
                &&& s.all_enabled(steps)
                &&& s.run(steps) == s
                &&& sent(steps) == Seq::<T>::empty()
            } else {
                &&& s.all_enabled(steps) == !s.tx.has_key(after_state->Waiting_0)
                &&& s.run(steps) == (ChannelState {
                    rx: WaitCell { waiter: None, ..s.rx },
                    tx: s.tx.forget().link(after_state->Waiting_0, task),
                    ..s
                })
                &&& sent(steps) == Seq::<T>::empty()
            }
        }),
        s.taken(attempt_steps(s, task, grant, after_state)) == Seq::<T>::empty(),
{
    if s.buffer.has_room() {
        lemma_run_one(s, grant);
    } else {
        lemma_run_one(s, Step::Refuse);
        if !s.rx.rx_closed {
            let link = Step::<T, N>::Link(after_state->Waiting_0, task);
            lemma_run_one(s.refuse(), link);
            lemma_run_concat(s, seq![Step::Refuse], seq![link]);
            assert(attempt_steps(s, task, grant, after_state) =~= seq![Step::Refuse] + seq![link]);
        }
    }
}

/// A producer that waits leaves its place, or stays there; one that does not wait
/// asks for a slot.
pub(crate) proof fn lemma_poll_steps<T, N>(
    s: ChannelState<T, N>,
    state: State,
    task: N,
    grant: Step<T, N>,
    after_state: State,
)
    ensures
        ({
            let steps = poll_steps(s, state, task, grant, after_state);
            match state {
                State::Waiting(key) => if s.tx.closed {
                    &&& s.all_enabled(steps)
                    &&& s.run(steps) == s.unlink(key)
                    &&& sent(steps) == Seq::<T>::empty()
                    &&& s.taken(steps) == Seq::<T>::empty()
                } else if s.tx.is_linked(key) {
                    &&& s.all_enabled(steps)
                    &&& s.run(steps) == (ChannelState { tx: s.tx.relink(key, task), ..s })
                    &&& sent(steps) == Seq::<T>::empty()
                    &&& s.taken(steps) == Seq::<T>::empty()
                } else {
                    let base = s.unlink(key);
                    let rest = attempt_steps(base, task, grant, after_state);
                    &&& s.all_enabled(steps) == base.all_enabled(rest)
                    &&& s.run(steps) == base.run(rest)
                    &&& sent(steps) == sent(rest)
                    &&& s.taken(steps) == base.taken(rest)
                },
                _ => steps == attempt_steps(s, task, grant, after_state),
            }
        }),
{
    match state {
        State::Waiting(key) => {
            let base = s.unlink(key);
            let rest = attempt_steps(base, task, grant, after_state);
            lemma_run_one(s, Step::Unlink(key));
            lemma_run_one(s, Step::Relink(key, task));
            lemma_run_concat(s, seq![Step::Unlink(key)], rest);
            assert(Seq::<T>::empty() + sent(rest) =~= sent(rest));
            assert(Seq::<T>::empty() + base.taken(rest) =~= base.taken(rest));
        },
        _ => {},
    }
}

/// How many of the places belong to producers that have been notified and have
/// not asked again since.
pub open spec fn notified_count<N>(waiters: Seq<Waiter<N>>) -> nat
    decreases waiters.len(),
{
    if waiters.len() == 0 {
        0
    } else {
        let rest = notified_count(waiters.drop_last());
        match waiters.last().task {
            Some(_) => rest,
            None => rest + 1,
        }
    }
}

/// Whether no producer waits in vain: while one waits, every free slot of the
/// open channel has a notified producer on its way to it.
pub open spec fn nobody_stranded<T, N>(s: ChannelState<T, N>) -> bool {
    !s.buffer.closed && s.tx.has_waiting() ==> s.buffer.spare.len() <= notified_count(s.tx.waiters)
}

/// No step leaves a producer waiting in vain, unless it is that a producer which
/// has been notified gives up.
pub proof fn law_step_strands_nobody<T, N>(s: ChannelState<T, N>, step: Step<T, N>)
    requires
        s.wf(),
        nobody_stranded(s),
        step.enabled(s),
        step matches Step::Unlink(key) ==> s.tx.is_linked(key) || !s.tx.has_key(key),
    ensures
        nobody_stranded(step.next(s)),
{
    let after = step.next(s);
    match step {
        Step::Relink(key, task) => {
            let i = s.tx.position(key);
            s.tx.lemma_waiting(i);
            lemma_count_update(s.tx.waiters, i, Waiter { key, task: Some(task) });
        },
        Step::Unlink(key) => if s.tx.has_key(key) {
            let i = s.tx.position(key);
            s.tx.lemma_waiting(i);
            lemma_count_remove(s.tx.waiters, i);
        },
        Step::FinishRecv(_) => if s.tx.has_waiting() {
            let i = s.tx.first_waiting();
            lemma_count_update(
                s.tx.waiters,
                i,
                Waiter { key: s.tx.waiters[i].key, task: None },
            );
        } else if after.tx.has_waiting() {
            s.tx.lemma_waiting(after.tx.first_waiting());
        },
        Step::CloseRx => {},
        _ => {
            if after.tx.has_waiting() && !(step is Link) {
                s.tx.lemma_waiting(after.tx.first_waiting());
            }
        },
    }
}

/// A producer that asks for a slot leaves no other one waiting in vain: if it had
/// been notified, it takes a slot, or there was none to take.
pub proof fn law_poll_strands_nobody<T, N>(
    s: ChannelState<T, N>,
    state: State,
    task: N,
    after: ChannelState<T, N>,
    after_state: State,
    r: SendPoll<T, N>,
)
    requires
        s.wf(),
        nobody_stranded(s),
        s.polls_send(state, task, after, after_state, r),
    ensures
        nobody_stranded(after),
{
    match state {
        State::Waiting(key) => if s.tx.closed {
        } else if s.tx.is_linked(key) {
            law_step_strands_nobody(s, Step::Relink(key, task));
        } else {
            let left = s.unlink(key);
            if s.tx.has_key(key) {
                let i = s.tx.position(key);
                lemma_count_remove(s.tx.waiters, i);
            }
            if after.tx.has_waiting() && left.buffer.has_room() {
                lemma_waiting_before(s, key);
            }
        },
        _ => if s.buffer.has_room() {
            law_step_strands_nobody(s, Step::Reserve);
        },
    }
}

/// If a task waits once a place has been left, a task waited before.
proof fn lemma_waiting_before<T, N>(s: ChannelState<T, N>, key: usize)
    requires
        s.wf(),
        s.unlink(key).tx.has_waiting(),
    ensures
        s.tx.has_waiting(),
{
    if s.tx.has_key(key) {
        let p = s.tx.position(key);
        let i = s.unlink(key).tx.first_waiting();
        let j = if i < p {
            i
        } else {
            i + 1
        };
        s.tx.lemma_waiting(j);
    }
}

proof fn lemma_count_update<N>(waiters: Seq<Waiter<N>>, i: int, waiter: Waiter<N>)
    requires
        0 <= i < waiters.len(),
        waiters[i].task is Some,
    ensures
        notified_count(waiters.update(i, waiter)) == notified_count(waiters) + (
        if waiter.task is None {
            1int
        } else {
            0int
        }),
    decreases waiters.len(),
{
    let updated = waiters.update(i, waiter);
    if i == waiters.len() - 1 {
        assert(updated.drop_last() =~= waiters.drop_last());
    } else {
        assert(updated.drop_last() =~= waiters.drop_last().update(i, waiter));
        lemma_count_update(waiters.drop_last(), i, waiter);
    }
}

proof fn lemma_count_remove<N>(waiters: Seq<Waiter<N>>, i: int)
    requires
        0 <= i < waiters.len(),
    ensures
        notified_count(waiters) == notified_count(waiters.remove(i)) + (
        if waiters[i].task is None {
            1int
        } else {
            0int
        }),
    decreases waiters.len(),
{
    let removed = waiters.remove(i);
    if i == waiters.len() - 1 {
    } else {
        assert(removed.drop_last() =~= waiters.drop_last().remove(i));
        lemma_count_remove(waiters.drop_last(), i);
    }
}

/// A state that a channel can be in is well formed, and has as many slots as the
/// channel had in the beginning.
pub proof fn law_admitted_state_is_wf<T, N>(origin: Origin<T, N>, state: ChannelState<T, N>)
    requires
        origin.admits(state),
    ensures
        state.wf(),
        state.buffer.capacity == origin.initial.buffer.capacity,
{
    let steps = choose|steps: Seq<Step<T, N>>| #[trigger]
        origin.initial.all_enabled(steps) && origin.initial.run(steps) == state;
    law_run_keeps_wf(origin.initial, steps);
}

/// A channel can be in the state in which it began.
pub proof fn law_beginning_is_admitted<T, N>(origin: Origin<T, N>)
    requires
        origin.initial.wf(),
    ensures
        origin.admits(origin.initial),
{
    let steps = Seq::<Step<T, N>>::empty();
    assert(origin.initial.all_enabled(steps));
}

/// Whatever steps are taken from a state that a channel can be in lead to a state
/// that it can be in.
pub proof fn law_steps_are_admitted<T, N>(
    origin: Origin<T, N>,
    state: ChannelState<T, N>,
    steps: Seq<Step<T, N>>,
)
    requires
        origin.admits(state),
        state.all_enabled(steps),
    ensures
        origin.admits(state.run(steps)),
    decreases steps.len(),
{
    if steps.len() > 0 {
        law_steps_are_admitted(origin, state, steps.drop_last());
        law_step_is_admitted(origin, state.run(steps.drop_last()), steps.last());
    }
}

/// A step from a state that a channel can be in leads to a state that it can be
/// in.
pub proof fn law_step_is_admitted<T, N>(
    origin: Origin<T, N>,
    state: ChannelState<T, N>,
    step: Step<T, N>,
)
    requires
        origin.admits(state),
        step.enabled(state),
    ensures
        origin.admits(step.next(state)),
{
    let before = choose|steps: Seq<Step<T, N>>| #[trigger]
        origin.initial.all_enabled(steps) && origin.initial.run(steps) == state;
    let steps = before.push(step);
    assert(steps.drop_last() =~= before);
    assert(origin.initial.all_enabled(steps));
}

} // verus!
