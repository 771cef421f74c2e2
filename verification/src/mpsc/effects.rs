//! What a call does to the queue, said of what goes into it and what comes out.
//!
//! The queue is the slots that have been handed to producers and that the consumer
//! has not taken, in order: see [`pending`](ChannelState::pending).
use crate::mpsc::{
    laws, ChannelState, Inner, RecvPoll, RecvValuePoll, SendPoll, SendValuePoll, Sent,
    State, Step, TrySendError,
};
use crate::thingbuf::Ref;
use core::task::Poll;
use vstd::prelude::*;

verus! {

/// Whether both ends of the channel are what they were.
pub open spec fn same_ends<T, N>(before: ChannelState<T, N>, after: ChannelState<T, N>) -> bool {
    &&& after.tx_count == before.tx_count
    &&& after.rx.tx_closed == before.rx.tx_closed
    &&& after.rx.rx_closed == before.rx.rx_closed
    &&& after.buffer.closed == before.buffer.closed
    &&& after.buffer.capacity == before.buffer.capacity
}

/// Whether the queue is what it was, and every other slot is where it was.
pub open spec fn same_slots<T, N>(before: ChannelState<T, N>, after: ChannelState<T, N>) -> bool {
    &&& after.pending() == before.pending()
    &&& after.buffer.spare == before.buffer.spare
    &&& after.buffer.lent == before.buffer.lent
}

/// Whether the consumer finds a message at the front of the queue.
pub open spec fn has_message<T, N>(s: ChannelState<T, N>) -> bool {
    s.pending().len() > 0 && s.pending()[0] is Some
}

/// Whether there will never be another message.
pub open spec fn has_ended<T, N>(s: ChannelState<T, N>) -> bool {
    s.pending().len() == 0 && s.buffer.closed
}

/// Whether the consumer, asking in the task `task`, has got `r`: the message at the
/// front of the queue, which leaves the queue, and nothing else does; or the news
/// that there will never be one; or nothing yet, and its task waits.
pub open spec fn receives<T, N>(
    before: ChannelState<T, N>,
    after: ChannelState<T, N>,
    task: N,
    r: Poll<Option<T>>,
) -> bool {
    &&& same_ends(before, after)
    &&& match r {
        Poll::Ready(Some(message)) => {
            &&& before.pending() == seq![Some(message)] + after.pending()
            &&& after.rx.waiter == before.rx.waiter
        },
        Poll::Ready(None) => {
            &&& has_ended(before)
            &&& same_slots(before, after)
            &&& after.rx.waiter == before.rx.waiter
            &&& after.tx == before.tx
        },
        Poll::Pending => {
            &&& !has_message(before) && !has_ended(before)
            &&& same_slots(before, after)
            &&& after.rx.waiter == Some(task)
            &&& after.tx == before.tx
        },
    }
}

/// Whether the slot of a message that the consumer has got has become a free slot,
/// the last one to be handed out, with `left` in it.
pub open spec fn frees_slot<T, N>(
    before: ChannelState<T, N>,
    after: ChannelState<T, N>,
    left: T,
) -> bool {
    &&& after.buffer.spare == before.buffer.spare.push(left)
    &&& after.buffer.lent == before.buffer.lent
}

/// Whether the slot of a message that the consumer has got is in its hands, and no
/// producer has been let in for it.
pub open spec fn lends_slot<T, N>(before: ChannelState<T, N>, after: ChannelState<T, N>) -> bool {
    &&& after.buffer.spare == before.buffer.spare
    &&& after.buffer.lent == before.buffer.lent + 1
    &&& after.tx == before.tx
}

/// Whether the first free slot has been handed out as `slot` and has its place right
/// behind the queue, where nothing has been put yet.
pub open spec fn reserves<T, N>(
    before: ChannelState<T, N>,
    after: ChannelState<T, N>,
    slot: Ref<T>,
) -> bool {
    &&& same_ends(before, after)
    &&& before.buffer.spare == seq![slot.value] + after.buffer.spare
    &&& after.buffer.lent == before.buffer.lent
    &&& after.pending() == before.pending().push(None)
    &&& after.buffer.number(slot.index as int) - after.buffer.popped == before.pending().len()
}

/// Whether the message `message` has been put right behind the queue, in the first
/// free slot.
pub open spec fn sends<T, N>(
    before: ChannelState<T, N>,
    after: ChannelState<T, N>,
    message: T,
) -> bool {
    &&& same_ends(before, after)
    &&& before.buffer.spare.len() > 0
    &&& after.buffer.spare == before.buffer.spare.drop_first()
    &&& after.buffer.lent == before.buffer.lent
    &&& after.pending() == before.pending().push(Some(message))
    &&& after.rx.waiter is None
}

/// Whether the consumer has given a slot back with `value` in it: it is free, and
/// the last one to be handed out.
pub open spec fn gives_back<T, N>(
    before: ChannelState<T, N>,
    after: ChannelState<T, N>,
    value: T,
) -> bool {
    &&& same_ends(before, after)
    &&& after.pending() == before.pending()
    &&& after.buffer.spare == before.buffer.spare.push(value)
    &&& after.buffer.lent + 1 == before.buffer.lent
    &&& after.rx == before.rx
}

/// Whether a producer can be given no slot, and has been given none.
pub open spec fn refuses<T, N>(before: ChannelState<T, N>, after: ChannelState<T, N>) -> bool {
    &&& before.buffer.closed || before.buffer.spare.len() == 0
    &&& same_ends(before, after)
    &&& same_slots(before, after)
}

/// Whether what `slot` holds has been put into the place of that slot in the queue,
/// which was empty, and the rest of the queue is what it was.
pub open spec fn completes<T, N>(
    before: ChannelState<T, N>,
    after: ChannelState<T, N>,
    slot: Ref<T>,
) -> bool {
    let place = before.buffer.number(slot.index as int) - before.buffer.popped;
    &&& same_ends(before, after)
    &&& 0 <= place < before.pending().len()
    &&& before.pending()[place] is None
    &&& after.pending() == before.pending().update(place, Some(slot.value))
    &&& after.buffer.spare == before.buffer.spare
    &&& after.buffer.lent == before.buffer.lent
    &&& after.tx == before.tx
    &&& after.rx.waiter is None
}

proof fn lemma_recv_ref<T, N>(s: ChannelState<T, N>, task: N)
    requires
        s.wf(),
    ensures
        receives(s, s.recv_ref(task), task, ref_value(s.recv_ref_answer(task).poll)),
        has_message(s) == s.buffer.is_ready(),
        s.buffer.is_ready() ==> lends_slot(s, s.recv_ref(task)),
{
    if s.buffer.is_ready() {
        assert(s.pending() =~= seq![s.pending()[0]] + s.take().pending());
    }
}

proof fn lemma_reserve<T, N>(s: ChannelState<T, N>)
    requires
        s.wf(),
        s.buffer.has_room(),
    ensures
        reserves(s, s.reserve(), s.buffer.next_slot()),
{
    let after = s.reserve();
    assert(s.buffer.spare =~= seq![s.buffer.spare[0]] + after.buffer.spare);
    assert(after.pending() =~= s.pending().push(None));
}

proof fn lemma_send<T, N>(s: ChannelState<T, N>, message: T)
    requires
        s.wf(),
        s.buffer.has_room(),
    ensures
        sends(s, s.send(message), message),
{
    laws::law_send_appends(s, message);
    assert(s.send(message).pending() =~= s.pending().push(Some(message)));
}

proof fn lemma_finish_send<T, N>(s: ChannelState<T, N>, slot: Ref<T>)
    requires
        s.wf(),
        s.buffer.is_writing(slot.index as int),
    ensures
        completes(s, s.finish_send(slot), slot),
{
    let place = s.buffer.number(slot.index as int) - s.buffer.popped;
    assert(s.finish_send(slot).pending() =~= s.pending().update(place, Some(slot.value)));
}

/// What is in the slot that a consumer gets.
pub open spec fn ref_value<T>(r: Poll<Option<Ref<T>>>) -> Poll<Option<T>> {
    match r {
        Poll::Pending => Poll::Pending,
        Poll::Ready(None) => Poll::Ready(None),
        Poll::Ready(Some(slot)) => Poll::Ready(Some(slot.value)),
    }
}

/// A consumer that asks for the next message itself takes the first message out of
/// the queue if it gets one, and takes nothing out of it if it gets none.
pub proof fn law_poll_recv_takes_what_it_returns<T, N>(
    task: N,
    left: Option<T>,
    answer: RecvValuePoll<T, N>,
)
    ensures
        forall|channel: &mut Inner<T, N>|
            {
                &&& #[trigger] call_ensures(
                    Inner::<T, N>::poll_recv,
                    (channel, task, left),
                    answer,
                )
                &&& channel.wf()
                &&& channel@.buffer.is_ready() ==> left is Some
            } ==> {
                &&& receives(channel@, final(channel)@, task, answer.poll)
                &&& answer.poll matches Poll::Ready(Some(_)) ==> left is Some && frees_slot(
                    channel@,
                    final(channel)@,
                    left->0,
                )
            },
{
    assert forall|channel: &mut Inner<T, N>|
        {
            &&& #[trigger] call_ensures(Inner::<T, N>::poll_recv, (channel, task, left), answer)
            &&& channel.wf()
            &&& channel@.buffer.is_ready() ==> left is Some
        } implies {
        &&& receives(channel@, final(channel)@, task, answer.poll)
        &&& answer.poll matches Poll::Ready(Some(_)) ==> left is Some && frees_slot(
            channel@,
            final(channel)@,
            left->0,
        )
    } by {
        channel.lemma_wf();
        lemma_recv_ref(channel@, task);
        if channel@.buffer.is_ready() {
            assert(channel@.recv(task, left).pending() =~= channel@.recv_ref(task).pending());
        }
    }
}

/// A consumer that asks for the slot of the next message takes the first slot out of
/// the queue if it gets one, holds that slot and no other one more than before, and
/// takes nothing out of the queue if it gets none.
pub proof fn law_poll_recv_ref_takes_what_it_returns<T, N>(task: N, answer: RecvPoll<T, N>)
    ensures
        forall|channel: &mut Inner<T, N>|
            {
                &&& #[trigger] call_ensures(
                    Inner::<T, N>::poll_recv_ref,
                    (channel, task),
                    answer,
                )
                &&& channel.wf()
            } ==> {
                &&& receives(channel@, final(channel)@, task, ref_value(answer.poll))
                &&& answer.poll matches Poll::Ready(Some(_)) ==> lends_slot(
                    channel@,
                    final(channel)@,
                )
            },
{
    assert forall|channel: &mut Inner<T, N>|
        {
            &&& #[trigger] call_ensures(Inner::<T, N>::poll_recv_ref, (channel, task), answer)
            &&& channel.wf()
        } implies {
        &&& receives(channel@, final(channel)@, task, ref_value(answer.poll))
        &&& answer.poll matches Poll::Ready(Some(_)) ==> lends_slot(channel@, final(channel)@)
    } by {
        channel.lemma_wf();
        lemma_recv_ref(channel@, task);
    }
}

/// A producer that asks for a slot is given the first free slot, which has its place
/// right behind the queue and in which nothing has been sent; if it is refused, the
/// queue and the free slots are what they were.
pub proof fn law_try_send_ref_hands_out_what_it_returns<T, N>()
    ensures
        forall|channel: &mut Inner<T, N>, answer: (Result<Ref<T>, TrySendError>, Option<N>)|
            {
                &&& #[trigger] call_ensures(Inner::<T, N>::try_send_ref, (channel,), answer)
                &&& channel.wf()
            } ==> match answer.0 {
                Ok(slot) => reserves(channel@, final(channel)@, slot),
                Err(_) => refuses(channel@, final(channel)@),
            },
{
    assert forall|channel: &mut Inner<T, N>, answer: (Result<Ref<T>, TrySendError>, Option<N>)|
        {
            &&& #[trigger] call_ensures(Inner::<T, N>::try_send_ref, (channel,), answer)
            &&& channel.wf()
        } implies match answer.0 {
        Ok(slot) => reserves(channel@, final(channel)@, slot),
        Err(_) => refuses(channel@, final(channel)@),
    } by {
        channel.lemma_wf();
        if channel@.buffer.has_room() {
            lemma_reserve(channel@);
        }
    }
}

/// A producer that sends a message puts it right behind the queue, or nowhere.
pub proof fn law_try_send_puts_its_message_last<T, N>(val: T)
    ensures
        forall|channel: &mut Inner<T, N>, sent: Sent<T, N>|
            {
                &&& #[trigger] call_ensures(Inner::<T, N>::try_send, (channel, val), sent)
                &&& channel.wf()
            } ==> match sent.result {
                Ok(()) => sends(channel@, final(channel)@, val),
                Err(_) => refuses(channel@, final(channel)@),
            },
{
    assert forall|channel: &mut Inner<T, N>, sent: Sent<T, N>|
        {
            &&& #[trigger] call_ensures(Inner::<T, N>::try_send, (channel, val), sent)
            &&& channel.wf()
        } implies match sent.result {
        Ok(()) => sends(channel@, final(channel)@, val),
        Err(_) => refuses(channel@, final(channel)@),
    } by {
        channel.lemma_wf();
        if channel@.buffer.has_room() {
            lemma_send(channel@, val);
        }
    }
}

/// A producer that has finished with its slot puts what it holds into the place of
/// that slot in the queue. No slot is handed out, and nothing else is sent.
pub proof fn law_finish_send_completes_its_slot<T, N>(slot: Ref<T>, woken: Option<N>)
    ensures
        forall|channel: &mut Inner<T, N>|
            {
                &&& #[trigger] call_ensures(Inner::<T, N>::finish_send, (channel, slot), woken)
                &&& channel.wf()
                &&& channel@.buffer.is_writing(slot.index as int)
            } ==> completes(channel@, final(channel)@, slot) && woken == channel@.rx.waiter,
{
    assert forall|channel: &mut Inner<T, N>|
        {
            &&& #[trigger] call_ensures(Inner::<T, N>::finish_send, (channel, slot), woken)
            &&& channel.wf()
            &&& channel@.buffer.is_writing(slot.index as int)
        } implies completes(channel@, final(channel)@, slot) && woken == channel@.rx.waiter by {
        channel.lemma_wf();
        lemma_finish_send(channel@, slot);
    }
}

proof fn lemma_polls_send<T, N>(
    s: ChannelState<T, N>,
    state: State,
    task: N,
    after: ChannelState<T, N>,
    after_state: State,
    answer: SendPoll<T, N>,
)
    requires
        s.wf(),
        s.polls_send(state, task, after, after_state, answer),
    ensures
        match answer.poll {
            Poll::Ready(Ok(slot)) => reserves(s, after, slot),
            _ => same_ends(s, after) && same_slots(s, after),
        },
{
    match state {
        State::Waiting(key) => {
            laws::law_step_keeps_wf(s, Step::Unlink(key));
            if s.unlink(key).buffer.has_room() {
                lemma_reserve(s.unlink(key));
            }
        },
        _ => {
            if s.buffer.has_room() {
                lemma_reserve(s);
            }
        },
    }
}

proof fn lemma_polls_send_value<T, N>(
    s: ChannelState<T, N>,
    state: State,
    task: N,
    val: T,
    after: ChannelState<T, N>,
    after_state: State,
    answer: SendValuePoll<T, N>,
)
    requires
        s.wf(),
        s.polls_send_value(state, task, val, after, after_state, answer),
    ensures
        match answer.poll {
            Poll::Ready(Ok(())) => sends(s, after, val),
            _ => same_ends(s, after) && same_slots(s, after),
        },
{
    match state {
        State::Waiting(key) => {
            laws::law_step_keeps_wf(s, Step::Unlink(key));
            if s.unlink(key).buffer.has_room() {
                lemma_send(s.unlink(key), val);
            }
        },
        _ => {
            if s.buffer.has_room() {
                lemma_send(s, val);
            }
        },
    }
}

/// A producer that asks for a slot and is ready to wait is given the first free slot,
/// which has its place right behind the queue; otherwise the queue and the free slots
/// are what they were.
pub proof fn law_poll_send_ref_hands_out_what_it_returns<T, N>(task: N, answer: SendPoll<T, N>)
    ensures
        forall|channel: &mut Inner<T, N>, state: &mut State|
            {
                &&& #[trigger] call_ensures(
                    Inner::<T, N>::poll_send_ref,
                    (channel, state, task),
                    answer,
                )
                &&& channel.wf()
            } ==> match answer.poll {
                Poll::Ready(Ok(slot)) => reserves(channel@, final(channel)@, slot),
                _ => same_ends(channel@, final(channel)@) && same_slots(
                    channel@,
                    final(channel)@,
                ),
            },
{
    assert forall|channel: &mut Inner<T, N>, state: &mut State|
        {
            &&& #[trigger] call_ensures(
                Inner::<T, N>::poll_send_ref,
                (channel, state, task),
                answer,
            )
            &&& channel.wf()
        } implies match answer.poll {
        Poll::Ready(Ok(slot)) => reserves(channel@, final(channel)@, slot),
        _ => same_ends(channel@, final(channel)@) && same_slots(channel@, final(channel)@),
    } by {
        channel.lemma_wf();
        lemma_polls_send(channel@, *state, task, final(channel)@, *final(state), answer);
    }
}

/// A producer that sends a message and is ready to wait puts it right behind the
/// queue if it succeeds; otherwise the queue and the free slots are what they were.
/// Either way it takes no message out of the queue.
pub proof fn law_poll_send_puts_its_message_last<T, N>(
    task: N,
    val: T,
    answer: SendValuePoll<T, N>,
)
    ensures
        forall|channel: &mut Inner<T, N>, state: &mut State|
            {
                &&& #[trigger] call_ensures(
                    Inner::<T, N>::poll_send,
                    (channel, state, task, val),
                    answer,
                )
                &&& channel.wf()
            } ==> match answer.poll {
                Poll::Ready(Ok(())) => sends(channel@, final(channel)@, val),
                _ => same_ends(channel@, final(channel)@) && same_slots(
                    channel@,
                    final(channel)@,
                ),
            },
{
    assert forall|channel: &mut Inner<T, N>, state: &mut State|
        {
            &&& #[trigger] call_ensures(
                Inner::<T, N>::poll_send,
                (channel, state, task, val),
                answer,
            )
            &&& channel.wf()
        } implies match answer.poll {
        Poll::Ready(Ok(())) => sends(channel@, final(channel)@, val),
        _ => same_ends(channel@, final(channel)@) && same_slots(channel@, final(channel)@),
    } by {
        channel.lemma_wf();
        lemma_polls_send_value(
            channel@,
            *state,
            task,
            val,
            final(channel)@,
            *final(state),
            answer,
        );
    }
}

/// A consumer that gets one message after the other gets the first messages of the
/// queue, in order, and each of them once; what it has not got is still in the queue.
pub proof fn law_receives_follow_the_queue<T, N>(
    states: Seq<ChannelState<T, N>>,
    tasks: Seq<N>,
    messages: Seq<T>,
)
    requires
        states.len() == messages.len() + 1,
        tasks.len() == messages.len(),
        forall|i: int|
            0 <= i < messages.len() ==> receives(
                #[trigger] states[i],
                states[i + 1],
                tasks[i],
                Poll::Ready(Some(messages[i])),
            ),
    ensures
        states[0].pending() == messages.map_values(|message: T| Some(message))
            + states.last().pending(),
    decreases messages.len(),
{
    let some = |message: T| Some(message);
    if messages.len() == 0 {
        assert(messages.map_values(some) =~= Seq::empty());
        assert(states[0].pending() =~= Seq::<Option<T>>::empty() + states[0].pending());
    } else {
        let n = messages.len() - 1;
        let rest = messages.drop_last();
        assert forall|i: int| 0 <= i < rest.len() implies receives(
            #[trigger] states.drop_last()[i],
            states.drop_last()[i + 1],
            tasks.drop_last()[i],
            Poll::Ready(Some(rest[i])),
        ) by {
            assert(states[i] == states.drop_last()[i]);
        }
        law_receives_follow_the_queue(states.drop_last(), tasks.drop_last(), rest);
        assert(states[n].pending() == seq![Some(messages[n])] + states[n + 1].pending());
        assert(states.drop_last().last() == states[n]);
        assert(rest.map_values(some) + (seq![Some(messages[n])] + states[n + 1].pending())
            =~= messages.map_values(some) + states[n + 1].pending());
    }
}

/// Messages that are sent one after the other stand behind what was in the queue, in
/// order, and each of them once.
pub proof fn law_sends_extend_the_queue<T, N>(
    states: Seq<ChannelState<T, N>>,
    messages: Seq<T>,
)
    requires
        states.len() == messages.len() + 1,
        forall|i: int|
            0 <= i < messages.len() ==> sends(
                #[trigger] states[i],
                states[i + 1],
                messages[i],
            ),
    ensures
        states.last().pending() == states[0].pending() + messages.map_values(
            |message: T| Some(message),
        ),
    decreases messages.len(),
{
    let some = |message: T| Some(message);
    if messages.len() == 0 {
        assert(messages.map_values(some) =~= Seq::empty());
        assert(states[0].pending() =~= states[0].pending() + Seq::<Option<T>>::empty());
    } else {
        let n = messages.len() - 1;
        let rest = messages.drop_last();
        assert forall|i: int| 0 <= i < rest.len() implies sends(
            #[trigger] states.drop_last()[i],
            states.drop_last()[i + 1],
            rest[i],
        ) by {
            assert(states[i] == states.drop_last()[i]);
        }
        law_sends_extend_the_queue(states.drop_last(), rest);
        assert(states[n].pending().push(Some(messages[n])) == states[n + 1].pending());
        assert(states.drop_last().last() == states[n]);
        assert((states[0].pending() + rest.map_values(some)).push(Some(messages[n]))
            =~= states[0].pending() + messages.map_values(some));
    }
}

/// What is sent on an empty channel is received, in order, and nothing else is: after
/// the messages `sent`, the messages `received` that a consumer gets are the first of
/// them, and if it gets as many, the channel is empty again.
pub proof fn law_what_is_sent_is_received<T, N>(
    sending: Seq<ChannelState<T, N>>,
    sent: Seq<T>,
    receiving: Seq<ChannelState<T, N>>,
    tasks: Seq<N>,
    received: Seq<T>,
)
    requires
        sending.len() == sent.len() + 1,
        sending[0].pending().len() == 0,
        forall|i: int|
            0 <= i < sent.len() ==> sends(#[trigger] sending[i], sending[i + 1], sent[i]),
        receiving.len() == received.len() + 1,
        tasks.len() == received.len(),
        receiving[0] == sending.last(),
        forall|i: int|
            0 <= i < received.len() ==> receives(
                #[trigger] receiving[i],
                receiving[i + 1],
                tasks[i],
                Poll::Ready(Some(received[i])),
            ),
    ensures
        received.is_prefix_of(sent),
        receiving.last().pending() == sent.skip(received.len() as int).map_values(
            |message: T| Some(message),
        ),
{
    let some = |message: T| Some(message);
    law_sends_extend_the_queue(sending, sent);
    law_receives_follow_the_queue(receiving, tasks, received);
    let queue = sending.last().pending();
    assert(queue =~= sent.map_values(some));
    assert(queue == received.map_values(some) + receiving.last().pending());
    assert forall|i: int| 0 <= i < received.len() implies received[i] == sent[i] by {
        assert(queue[i] == Some(received[i]));
        assert(queue[i] == Some(sent[i]));
    }
    assert(received =~= sent.take(received.len() as int));
    assert(receiving.last().pending() =~= queue.skip(received.len() as int));
    assert(queue.skip(received.len() as int) =~= sent.skip(received.len() as int).map_values(some));
}

/// A slot that is handed out and finished with at once has put one message behind the
/// queue: what was left in the slot.
pub proof fn law_slot_is_sent_once<T, N>(
    before: ChannelState<T, N>,
    reserved: ChannelState<T, N>,
    after: ChannelState<T, N>,
    slot: Ref<T>,
    value: T,
)
    requires
        reserves(before, reserved, slot),
        completes(reserved, after, Ref { index: slot.index, value }),
    ensures
        after.pending() == before.pending().push(Some(value)),
        after.buffer.spare.len() + 1 == before.buffer.spare.len(),
{
    assert(after.pending() =~= before.pending().push(Some(value)));
}

} // verus!
