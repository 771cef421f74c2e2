//! What a task that has to wait leaves behind: how it is woken ([`Notify`]), the
//! cell in which the one consumer waits ([`cell::WaitCell`]) and the queue in
//! which the producers wait ([`queue::WaitQueue`]).
use core::task::{Context, Waker};
use std::collections::VecDeque;
use vstd::prelude::*;

pub mod cell;
pub mod queue;

verus! {

/// How a waiting task is woken.
pub trait Notify: Sized {
    /// Wakes the task.
    fn notify(self);
}

impl Notify for Waker {
    fn notify(self)
        ensures
            is_woken(self),
    {
        wake(self)
    }
}

/// Whether [`Waker::wake`] has been called on the waker.
pub closed spec fn is_woken(waker: Waker) -> bool {
    call_ensures(wake, (waker,), ())
}

/// Whether [`notify`](Notify::notify) has been called on the task, if there is one.
/// Of a [`Waker`] this means that it [`is_woken`].
pub open spec fn is_notified<N: Notify>(waiter: Option<N>) -> bool {
    waiter matches Some(waiter) ==> call_ensures(N::notify, (waiter,), ())
}

/// Wakes the task, if there is one.
pub fn notify_one<N: Notify>(waiter: Option<N>)
    ensures
        is_notified(waiter),
{
    match waiter {
        Some(waiter) => waiter.notify(),
        None => {},
    }
}

/// Wakes every task in `waiters`, the first one first.
pub fn notify_all<N: Notify>(waiters: VecDeque<N>)
    ensures
        forall|i: int| 0 <= i < waiters@.len() ==> is_notified(Some(#[trigger] waiters@[i])),
{
    let mut rest = waiters;
    let ghost mut done: int = 0;
    while rest.len() > 0
        invariant
            0 <= done <= waiters@.len(),
            rest@ == waiters@.skip(done),
            forall|i: int| 0 <= i < done ==> is_notified(Some(#[trigger] waiters@[i])),
        ensures
            done == waiters@.len(),
        decreases rest@.len(),
    {
        notify_one(rest.pop_front());
        proof {
            done = done + 1;
        }
    }
}

/// The waker of a task. In contracts a waker stands for the task that it wakes,
/// and nothing else is known of it.
#[verifier::external_type_specification]
#[verifier::external_body]
pub struct ExWaker(core::task::Waker);

/// The context in which a task is polled.
#[verifier::external_type_specification]
#[verifier::external_body]
pub struct ExContext<'a>(core::task::Context<'a>);

/// The waker that [`Context::waker`] returns.
pub uninterp spec fn waker_of(cx: Context<'_>) -> Waker;

/// [`Context::waker`]: the waker of the task that is being polled. It is the
/// same one for as long as the context is the same.
#[verifier::external_body]
pub(crate) fn context_waker<'a>(cx: &Context<'a>) -> (r: &'a Waker)
    ensures
        *r == waker_of(*cx),
{
    cx.waker()
}

/// [`Waker::clone`]: another waker that wakes the same task.
#[verifier::external_body]
pub(crate) fn clone_waker(waker: &Waker) -> (r: Waker)
    ensures
        r == *waker,
{
    waker.clone()
}

/// [`Waker::wake`]: wakes the task. Nothing is claimed of what the task then
/// does.
#[verifier::external_body]
fn wake(waker: Waker) {
    waker.wake()
}

} // verus!
