//! What holds in the course of any calls of [`Inner`](crate::mpsc::Inner).
use crate::mpsc::{laws, ChannelState, SendPoll, SendValuePoll, State, Step};
use crate::thingbuf::BufferState;
use core::task::Poll;
use vstd::prelude::*;

verus! {

/// One call of a method of [`Inner`](crate::mpsc::Inner), with its arguments.
#[verifier::reject_recursive_types(T)]
pub enum Call<T, N> {
    /// `try_send`.
    TrySend(T),
    /// `poll_send_ref`, with the state that it leaves behind and its answer.
    PollSendRef { state: State, task: N, after_state: State, answer: SendPoll<T, N> },
    /// `poll_send`, with the state that it leaves behind and its answer.
    PollSend { state: State, task: N, val: T, after_state: State, result: SendValuePoll<T, N> },
    /// `poll_recv`.
    PollRecv { task: N, left: Option<T> },
    /// A method that takes one step.
    One(Step<T, N>),
}

impl<T, N> Call<T, N> {
    /// What the call does to the channel, step by step.
    pub open spec fn steps(self, s: ChannelState<T, N>) -> Seq<Step<T, N>> {
        match self {
            Call::TrySend(val) => if s.buffer.has_room() {
                seq![Step::Send(val)]
            } else {
                seq![Step::Refuse]
            },
            Call::PollSendRef { state, task, after_state, .. } => laws::poll_steps(
                s,
                state,
                task,
                Step::Reserve,
                after_state,
            ),
            Call::PollSend { state, task, val, after_state, .. } => laws::poll_steps(
                s,
                state,
                task,
                Step::Send(val),
                after_state,
            ),
            Call::PollRecv { task, left } => laws::recv_steps(s, task, left),
            Call::One(step) => seq![step],
        }
    }

    /// The channel after the call.
    pub open spec fn next(self, s: ChannelState<T, N>) -> ChannelState<T, N> {
        match self {
            Call::TrySend(val) => if s.buffer.has_room() {
                s.send(val)
            } else {
                s.refuse()
            },
            Call::PollRecv { task, left } => s.recv(task, left),
            _ => s.run(self.steps(s)),
        }
    }

    /// Whether the call can be made, and answers as it says.
    pub open spec fn valid(self, s: ChannelState<T, N>) -> bool {
        match self {
            Call::TrySend(_) => true,
            Call::PollSendRef { state, task, after_state, answer } => s.polls_send(
                state,
                task,
                self.next(s),
                after_state,
                answer,
            ),
            Call::PollSend { state, task, val, after_state, result } => s.polls_send_value(
                state,
                task,
                val,
                self.next(s),
                after_state,
                result,
            ),
            Call::PollRecv { left, .. } => s.buffer.is_ready() ==> left is Some,
            Call::One(step) => step.enabled(s),
        }
    }

    /// The message that the call sends, if its caller is told that it was sent.
    pub open spec fn sends(self, s: ChannelState<T, N>) -> Seq<T> {
        match self {
            Call::TrySend(val) => if s.buffer.has_room() {
                seq![val]
            } else {
                Seq::empty()
            },
            Call::PollSend { val, result, .. } => match result.poll {
                Poll::Ready(Ok(_)) => seq![val],
                _ => Seq::empty(),
            },
            Call::One(Step::Send(val)) => seq![val],
            _ => Seq::empty(),
        }
    }

    /// The message that the call gives to the consumer.
    pub open spec fn receives(self, s: ChannelState<T, N>) -> Seq<T> {
        match self {
            Call::PollRecv { task, left } => match s.recv_answer(task, left).poll {
                Poll::Ready(Some(message)) => seq![message],
                _ => Seq::empty(),
            },
            Call::One(Step::Take) => seq![s.buffer.front().value],
            _ => Seq::empty(),
        }
    }

    /// Whether the call can hand out a slot that is finished with later.
    pub open spec fn hands_out_slot(self) -> bool {
        self is PollSendRef || self == Call::<T, N>::One(Step::Reserve)
    }

    /// Whether with the call a producer gives up that has been notified.
    pub open spec fn wastes_notification(self, s: ChannelState<T, N>) -> bool {
        match self {
            Call::One(Step::Unlink(key)) => s.tx.has_key(key) && !s.tx.is_linked(key),
            _ => false,
        }
    }
}

impl<T, N> ChannelState<T, N> {
    /// The channel after the calls, one after the other.
    pub open spec fn after_calls(self, calls: Seq<Call<T, N>>) -> Self
        decreases calls.len(),
    {
        if calls.len() == 0 {
            self
        } else {
            calls.last().next(self.after_calls(calls.drop_last()))
        }
    }

    /// Whether the calls can be made, one after the other.
    pub open spec fn all_valid(self, calls: Seq<Call<T, N>>) -> bool
        decreases calls.len(),
    {
        calls.len() == 0 || {
            &&& self.all_valid(calls.drop_last())
            &&& calls.last().valid(self.after_calls(calls.drop_last()))
        }
    }

    /// The messages whose senders are told, in the course of the calls, that they
    /// were sent.
    pub open spec fn all_sends(self, calls: Seq<Call<T, N>>) -> Seq<T>
        decreases calls.len(),
    {
        if calls.len() == 0 {
            Seq::empty()
        } else {
            self.all_sends(calls.drop_last()) + calls.last().sends(
                self.after_calls(calls.drop_last()),
            )
        }
    }

    /// The messages that the consumer is given in the course of the calls.
    pub open spec fn all_receives(self, calls: Seq<Call<T, N>>) -> Seq<T>
        decreases calls.len(),
    {
        if calls.len() == 0 {
            Seq::empty()
        } else {
            self.all_receives(calls.drop_last()) + calls.last().receives(
                self.after_calls(calls.drop_last()),
            )
        }
    }

    /// Whether, in the course of the calls, no producer gives up that has been
    /// notified.
    pub open spec fn no_notification_wasted(self, calls: Seq<Call<T, N>>) -> bool
        decreases calls.len(),
    {
        calls.len() == 0 || {
            &&& self.no_notification_wasted(calls.drop_last())
            &&& !calls.last().wastes_notification(self.after_calls(calls.drop_last()))
        }
    }
}

/// A call does nothing but take steps: what holds of all steps holds of all calls.
pub proof fn law_call_takes_steps<T, N>(s: ChannelState<T, N>, call: Call<T, N>)
    requires
        s.wf(),
        call.valid(s),
    ensures
        s.all_enabled(call.steps(s)),
        s.run(call.steps(s)) == call.next(s),
        call.next(s).wf(),
        s.taken(call.steps(s)) == call.receives(s),
        !call.hands_out_slot() ==> laws::sent(call.steps(s)) == call.sends(s),
        !call.hands_out_slot() ==> laws::only_whole_sends(call.steps(s)),
{
    match call {
        Call::TrySend(val) => {
            laws::lemma_run_one(s, Step::Send(val));
            laws::lemma_run_one(s, Step::Refuse);
        },
        Call::PollSendRef { state, task, after_state, answer } => {
            laws::law_poll_takes_steps(s, state, task, call.next(s), after_state, answer);
            lemma_poll_takes_nothing(s, state, task, Step::Reserve, after_state);
        },
        Call::PollSend { state, task, val, after_state, result } => {
            laws::law_poll_value_takes_steps(
                s,
                state,
                task,
                val,
                call.next(s),
                after_state,
                result,
            );
            lemma_poll_takes_nothing(s, state, task, Step::Send(val), after_state);
            laws::lemma_run_one(s, Step::Send(val));
        },
        Call::PollRecv { task, left } => {
            laws::law_recv_takes_steps(s, task, left);
        },
        Call::One(step) => {
            laws::lemma_run_one(s, step);
        },
    }
    laws::law_run_keeps_wf(s, call.steps(s));
}

/// Whatever `poll_send_ref` answers is a call in this sense.
pub proof fn law_poll_send_ref_is_call<T, N>(
    s: ChannelState<T, N>,
    state: State,
    task: N,
    after: ChannelState<T, N>,
    after_state: State,
    answer: SendPoll<T, N>,
)
    requires
        s.wf(),
        s.polls_send(state, task, after, after_state, answer),
    ensures
        (Call::PollSendRef { state, task, after_state, answer }).valid(s),
        (Call::PollSendRef { state, task, after_state, answer }).next(s) == after,
{
    laws::law_poll_takes_steps(s, state, task, after, after_state, answer);
}

/// Whatever `poll_send` answers is a call in this sense.
pub proof fn law_poll_send_is_call<T, N>(
    s: ChannelState<T, N>,
    state: State,
    task: N,
    val: T,
    after: ChannelState<T, N>,
    after_state: State,
    result: SendValuePoll<T, N>,
)
    requires
        s.wf(),
        s.polls_send_value(state, task, val, after, after_state, result),
    ensures
        (Call::PollSend { state, task, val, after_state, result }).valid(s),
        (Call::PollSend { state, task, val, after_state, result }).next(s) == after,
{
    laws::law_poll_value_takes_steps(s, state, task, val, after, after_state, result);
}

/// A producer that asks for a slot takes no message, and sends only what is sent
/// by being granted one.
proof fn lemma_poll_takes_nothing<T, N>(
    s: ChannelState<T, N>,
    state: State,
    task: N,
    grant: Step<T, N>,
    after_state: State,
)
    requires
        s.wf(),
        grant is Reserve || grant is Send,
    ensures
        s.taken(laws::poll_steps(s, state, task, grant, after_state)) == Seq::<T>::empty(),
        laws::sent(laws::poll_steps(s, state, task, grant, after_state)) == (if (match state {
            State::Waiting(key) => s.tx.closed || s.tx.is_linked(key),
            _ => false,
        }) || !s.buffer.has_room() {
            Seq::<T>::empty()
        } else {
            laws::sent(seq![grant])
        }),
{
    match state {
        State::Waiting(key) => {
            laws::law_step_keeps_wf(s, Step::Unlink(key));
            laws::lemma_attempt_steps(s.unlink(key), task, grant, after_state);
        },
        _ => {
            laws::lemma_attempt_steps(s, task, grant, after_state);
        },
    }
    laws::lemma_poll_steps(s, state, task, grant, after_state);
}

/// In the course of any calls, a channel stays well formed.
pub proof fn law_calls_keep_wf<T, N>(s: ChannelState<T, N>, calls: Seq<Call<T, N>>)
    requires
        s.wf(),
        s.all_valid(calls),
    ensures
        s.after_calls(calls).wf(),
    decreases calls.len(),
{
    if calls.len() > 0 {
        law_calls_keep_wf(s, calls.drop_last());
        law_call_takes_steps(s.after_calls(calls.drop_last()), calls.last());
    }
}

/// Messages are received in the order in which they were sent: what was in the
/// queue, followed by the messages whose senders have been told that they were
/// sent, be it by `try_send` or by `poll_send`, is what `poll_recv` has given to
/// the consumer, followed by what is in the queue. Nothing is lost, comes twice or
/// is made up. This is for producers that are not given slots to be finished with
/// later; for those, see [`law_fifo_by_reservation`](laws::law_fifo_by_reservation).
pub proof fn law_calls_are_fifo<T, N>(s: ChannelState<T, N>, calls: Seq<Call<T, N>>)
    requires
        s.wf(),
        s.all_written(),
        s.all_valid(calls),
        forall|i: int| 0 <= i < calls.len() ==> !(#[trigger] calls[i]).hands_out_slot(),
    ensures
        s.after_calls(calls).all_written(),
        s.messages() + s.all_sends(calls) == s.all_receives(calls) + s.after_calls(
            calls,
        ).messages(),
    decreases calls.len(),
{
    if calls.len() == 0 {
        assert(s.messages() + s.all_sends(calls) =~= s.all_receives(calls) + s.messages());
    } else {
        let rest = calls.drop_last();
        let before = s.after_calls(rest);
        let call = calls.last();
        assert(call == calls[calls.len() - 1]);
        law_calls_are_fifo(s, rest);
        law_calls_keep_wf(s, rest);
        law_call_takes_steps(before, call);
        laws::law_fifo(before, call.steps(before));
        assert(s.messages() + s.all_sends(calls) =~= (s.messages() + s.all_sends(rest))
            + call.sends(before));
        assert((s.all_receives(rest) + before.messages()) + call.sends(before)
            =~= s.all_receives(rest) + (before.messages() + call.sends(before)));
        assert(s.all_receives(rest) + (call.receives(before) + call.next(before).messages())
            =~= s.all_receives(calls) + s.after_calls(calls).messages());
    }
}

/// What the consumer of a channel that began empty has received is the first part
/// of what has been sent, and the rest of it is in the queue.
pub proof fn law_received_is_prefix_of_sent<T, N>(
    buffer: BufferState<T>,
    calls: Seq<Call<T, N>>,
)
    requires
        ChannelState::<T, N>::initial(buffer).wf(),
        buffer.queued() == 0,
        ChannelState::<T, N>::initial(buffer).all_valid(calls),
        forall|i: int| 0 <= i < calls.len() ==> !(#[trigger] calls[i]).hands_out_slot(),
    ensures
        ({
            let s = ChannelState::<T, N>::initial(buffer);
            &&& s.all_receives(calls).is_prefix_of(s.all_sends(calls))
            &&& s.after_calls(calls).messages() == s.all_sends(calls).skip(
                s.all_receives(calls).len() as int,
            )
        }),
{
    let s = ChannelState::<T, N>::initial(buffer);
    law_calls_are_fifo(s, calls);
    assert(s.messages() + s.all_sends(calls) =~= s.all_sends(calls));
    assert(s.all_receives(calls) =~= s.all_sends(calls).take(s.all_receives(calls).len() as int));
    assert(s.after_calls(calls).messages() =~= s.all_sends(calls).skip(
        s.all_receives(calls).len() as int,
    ));
}

/// A call leaves no producer waiting in vain, unless with it a producer gives up
/// that has been notified.
pub proof fn law_call_strands_nobody<T, N>(s: ChannelState<T, N>, call: Call<T, N>)
    requires
        s.wf(),
        laws::nobody_stranded(s),
        call.valid(s),
        !call.wastes_notification(s),
    ensures
        laws::nobody_stranded(call.next(s)),
{
    let after = call.next(s);
    match call {
        Call::TrySend(val) => {
            let step = if s.buffer.has_room() {
                Step::Send(val)
            } else {
                Step::Refuse
            };
            laws::law_step_strands_nobody(s, step);
        },
        Call::PollSendRef { state, task, after_state, answer } => {
            laws::law_poll_strands_nobody(s, state, task, after, after_state, answer);
        },
        Call::PollSend { state, task, val, after_state, result } => {
            let (mid, answer) = laws::law_send_is_send_ref_and_finish(
                s,
                state,
                task,
                val,
                after,
                after_state,
                result,
            );
            laws::law_poll_strands_nobody(s, state, task, mid, after_state, answer);
        },
        Call::PollRecv { task, left } => if s.buffer.is_ready() {
            laws::law_step_strands_nobody(s, Step::Take);
            laws::law_step_keeps_wf(s, Step::Take);
            laws::law_step_strands_nobody(s.take(), Step::FinishRecv(left->0));
        } else if !s.buffer.is_finished() {
            laws::law_step_strands_nobody(s, Step::Park(task));
        },
        Call::One(step) => {
            laws::lemma_run_one(s, step);
            laws::law_step_strands_nobody(s, step);
        },
    }
}

/// In the course of any calls from the beginning of a channel, no producer waits
/// in vain: while one waits and the channel is open, every free slot has a
/// notified producer on its way to it. This is so as long as no producer gives up
/// that has been notified.
pub proof fn law_nobody_waits_in_vain<T, N>(buffer: BufferState<T>, calls: Seq<Call<T, N>>)
    requires
        ChannelState::<T, N>::initial(buffer).wf(),
        ChannelState::<T, N>::initial(buffer).all_valid(calls),
        ChannelState::<T, N>::initial(buffer).no_notification_wasted(calls),
    ensures
        laws::nobody_stranded(ChannelState::<T, N>::initial(buffer).after_calls(calls)),
    decreases calls.len(),
{
    let s = ChannelState::<T, N>::initial(buffer);
    if calls.len() == 0 {
        assert(!s.tx.has_waiting());
    } else {
        law_nobody_waits_in_vain(buffer, calls.drop_last());
        law_calls_keep_wf(s, calls.drop_last());
        law_call_strands_nobody(s.after_calls(calls.drop_last()), calls.last());
    }
}

} // verus!
