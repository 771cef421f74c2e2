//! The lock of a value in the hands of several tasks, and the right to open it.
//!
//! A change to the value is of some kind, and the lock is opened for changes of one
//! kind. Code that is written for every predicate which changes of that kind
//! [keep](Keeps) can make no others: of a value that was changed in another way it
//! cannot show that it may be put back. How often the lock can be opened depends on
//! the kind. For a kind that is [`Polled`], it is once in each poll of a task. For a
//! kind that follows another change, it is once for that change, with the [`Pass`]
//! that came with it. An [`Operation`] can be made as often as there is one to make,
//! and does not show the value.
use crate::wait::{notify_one, Notify};
use core::marker::PhantomData;
use core::task::Context;
use vstd::prelude::*;
use vstd::rwlock::{RwLock, RwLockPredicate, WriteHandle};

verus! {

/// A kind of change to a value.
pub trait Change<V> {
    /// Whether the change from `before` to `after` is of this kind.
    spec fn changes(before: V, after: V) -> bool;
}

/// A predicate that changes of the kind `K` keep.
pub trait Keeps<V, K: Change<V>>: RwLockPredicate<V> {
    /// A change of the kind `K` leaves a value that can be put back.
    proof fn keeps(self, before: V, after: V)
        requires
            self.inv(before),
            K::changes(before, after),
        ensures
            self.inv(after),
    ;
}

/// A change that can be made at any time, by one call.
pub trait Operation<V>: Change<V> + Sized {
    /// What the call answers.
    type Answer;

    /// The task that the call hands out, to be woken.
    type Task: Notify;

    /// What the call leaves over.
    type Rest;

    /// The kind of change that can follow it, once.
    type Then;

    /// Whether the call can be made.
    spec fn ready(before: V) -> bool;

    /// Makes the call.
    fn perform(self, value: &mut V) -> (r: (Self::Answer, Option<Self::Task>, Self::Rest))
        requires
            Self::ready(*old(value)),
        ensures
            Self::changes(*old(value), *final(value)),
    ;
}

/// A kind of change that can be made once in each poll of a task.
pub trait Polled {
    /// The kind of change that can follow it, once.
    type Then;

    /// The kind of change with which one who has asked can give up, once.
    type GiveUp;
}

/// No change.
pub struct Looking;

impl<V> Change<V> for Looking {
    open spec fn changes(before: V, after: V) -> bool {
        after == before
    }
}

/// The right to make one change of the kind `K`.
pub struct Pass<K> {
    kind: PhantomData<K>,
}

impl<K> Pass<K> {
    /// One pass is as good as another.
    pub proof fn lemma_pass(self, other: Self)
        ensures
            self == other,
    {
    }
}

/// A value behind a lock.
pub struct Gate<V, P: RwLockPredicate<V>> {
    lock: RwLock<V, P>,
}

/// Whether `before` was taken out of the lock `lock`, and `after` was put back in
/// its place.
pub open spec fn exchanged<V, P: RwLockPredicate<V>>(
    lock: RwLock<V, P>,
    before: V,
    after: V,
) -> bool {
    exists|handle: WriteHandle<'_, V, P>|
        {
            &&& handle.rwlock() == lock
            &&& call_ensures(RwLock::<V, P>::acquire_write, (&lock,), (before, handle))
            &&& #[trigger] call_ensures(
                WriteHandle::<'_, V, P>::release_write,
                (handle, after),
                (),
            )
        }
}

/// Whether a poll in the context `cx`, which is left as `after_cx`, has opened the
/// lock `lock` by taking `value` out with the handle `handle`, and has not opened it
/// otherwise.
pub closed spec fn opened<V, P: RwLockPredicate<V>>(
    lock: RwLock<V, P>,
    cx: Context<'_>,
    after_cx: Context<'_>,
    value: V,
    handle: WriteHandle<'_, V, P>,
) -> bool {
    &&& after_cx == cx
    &&& handle.rwlock() == lock
    &&& call_ensures(RwLock::<V, P>::acquire_write, (&lock,), (value, handle))
}

/// Whether the one change that a poll in the context `cx`, which is left as
/// `after_cx`, has made to what is in the lock `lock` is that from `before` to
/// `after`.
pub open spec fn exchanged_once<V, P: RwLockPredicate<V>>(
    lock: RwLock<V, P>,
    cx: Context<'_>,
    after_cx: Context<'_>,
    before: V,
    after: V,
) -> bool {
    exists|handle: WriteHandle<'_, V, P>|
        {
            &&& opened(lock, cx, after_cx, before, handle)
            &&& #[trigger] call_ensures(
                WriteHandle::<'_, V, P>::release_write,
                (handle, after),
                (),
            )
        }
}

/// The one change that a poll makes is a change that is made.
pub proof fn law_one_change_is_made<V, P: RwLockPredicate<V>>(
    lock: RwLock<V, P>,
    cx: Context<'_>,
    after_cx: Context<'_>,
    before: V,
    after: V,
)
    requires
        exchanged_once(lock, cx, after_cx, before, after),
    ensures
        exchanged(lock, before, after),
{
}

impl<V, P: RwLockPredicate<V>> Gate<V, P> {
    /// The lock.
    pub closed spec fn lock(&self) -> RwLock<V, P> {
        self.lock
    }

    /// There is nothing to a gate but its lock.
    pub proof fn lemma_lock(self, other: Self)
        requires
            self.lock() == other.lock(),
        ensures
            self == other,
    {
    }

    /// A new lock with the value `value`, and the passes of the two who share it.
    pub fn new<A, B>(value: V, Ghost(pred): Ghost<P>) -> (r: (Self, Pass<A>, Pass<B>))
        requires
            pred.inv(value),
        ensures
            r.0.lock().pred() == pred,
            call_ensures(RwLock::<V, P>::new, (value, Ghost(pred)), r.0.lock()),
    {
        let lock = RwLock::new(value, Ghost(pred));
        (Gate { lock }, Pass { kind: PhantomData }, Pass { kind: PhantomData })
    }

    /// Calls `f` with a reference to the value.
    pub fn inspect<R, F: FnOnce(&V) -> R>(&self, f: F) -> (r: R) where P: Keeps<V, Looking>
        requires
            forall|value: V| #[trigger] self.lock().inv(value) ==> call_requires(f, (&value,)),
        ensures
            exists|value: V|
                {
                    &&& #[trigger] call_ensures(f, (&value,), r)
                    &&& self.lock().inv(value)
                    &&& exchanged(self.lock(), value, value)
                },
    {
        let (value, handle) = self.lock.acquire_write();
        let r = f(&value);
        handle.release_write(value);
        r
    }

    /// Opens the lock for the operation `operation`, and then wakes the task that it
    /// hands out.
    pub fn operate<K: Operation<V>>(&self, operation: K) -> (r: (K::Answer, Pass<K::Then>)) where
        P: Keeps<V, K>,

        requires
            forall|value: V| #[trigger] self.lock().inv(value) ==> K::ready(value),
        ensures
            exists|value: &mut V, answer: (K::Answer, Option<K::Task>, K::Rest)|
                {
                    &&& #[trigger] call_ensures(K::perform, (operation, value), answer)
                    &&& self.lock().inv(*value)
                    &&& self.lock().inv(*final(value))
                    &&& exchanged(self.lock(), *value, *final(value))
                    &&& crate::wait::is_notified(answer.1)
                    &&& r.0 == answer.0
                },
    {
        let (mut value, handle) = self.lock.acquire_write();
        let ghost before = value;
        assert(self.lock().inv(before));
        let answer = operation.perform(&mut value);
        proof {
            self.lock.pred().keeps(before, value);
        }
        let ghost after = value;
        handle.release_write(value);
        assert(exchanged(self.lock(), before, after));
        let (r, woken, _rest) = answer;
        notify_one(woken);
        (r, Pass { kind: PhantomData })
    }

    /// Opens the lock for the change that `pass` is for.
    pub fn enter<K: Change<V>>(&self, pass: Pass<K>) -> (r: (V, WriteHandle<'_, V, P>)) where
        P: Keeps<V, K>,

        ensures
            r.1.rwlock() == self.lock(),
            self.lock().inv(r.0),
            call_ensures(RwLock::<V, P>::acquire_write, (&self.lock(),), r),
    {
        self.lock.acquire_write()
    }

    /// Opens the lock for the change that is made in the poll in the context `cx`.
    pub fn poll<K: Polled + Change<V>>(&self, cx: &mut Context<'_>) -> (r: (
        V,
        WriteHandle<'_, V, P>,
        Pass<K::Then>,
    )) where P: Keeps<V, K>
        ensures
            opened(self.lock(), *old(cx), *final(cx), r.0, r.1),
            r.1.rwlock() == self.lock(),
            self.lock().inv(r.0),
            call_ensures(RwLock::<V, P>::acquire_write, (&self.lock(),), (r.0, r.1)),
    {
        let (value, handle) = self.lock.acquire_write();
        (value, handle, Pass { kind: PhantomData })
    }

    /// Opens the lock for the change that is made in the poll in the context `cx`. If
    /// `wanted` says so of what is in it, `prepare` is called before, while the lock is
    /// not held.
    pub fn poll_prepared<K: Polled + Change<V>, R, C: FnOnce(&V) -> bool, F: FnOnce() -> R>(
        &self,
        cx: &mut Context<'_>,
        wanted: C,
        prepare: F,
    ) -> (r: (V, WriteHandle<'_, V, P>, Option<R>)) where P: Keeps<V, K>
        requires
            forall|value: V| #[trigger] self.lock().inv(value) ==> call_requires(wanted, (&value,)),
            call_requires(prepare, ()),
        ensures
            opened(self.lock(), *old(cx), *final(cx), r.0, r.1),
            r.1.rwlock() == self.lock(),
            self.lock().inv(r.0),
            call_ensures(RwLock::<V, P>::acquire_write, (&self.lock(),), (r.0, r.1)),
            match r.2 {
                None => call_ensures(wanted, (&r.0,), false),
                Some(prepared) => {
                    &&& call_ensures(prepare, (), prepared)
                    &&& exists|seen: V|
                        {
                            &&& #[trigger] call_ensures(wanted, (&seen,), true)
                            &&& self.lock().inv(seen)
                            &&& exchanged(self.lock(), seen, seen)
                        }
                },
            },
    {
        let (value, handle) = self.lock.acquire_write();
        assert(self.lock().inv(value));
        if wanted(&value) {
            handle.release_write(value);
            assert(exchanged(self.lock(), value, value));
            let prepared = prepare();
            let (value, handle) = self.lock.acquire_write();
            (value, handle, Some(prepared))
        } else {
            (value, handle, None)
        }
    }

    /// The pass of one who is going to poll, with which to give up.
    pub fn ask<K: Polled + Change<V>>(&self) -> Pass<K::GiveUp> where P: Keeps<V, K>
        opens_invariants none
    {
        Pass { kind: PhantomData }
    }
}

} // verus!
