//! The queue in which the producers wait.
use std::collections::VecDeque;
use vstd::prelude::*;

verus! {

/// A place in a [`WaitQueue`].
#[derive(Debug)]
pub struct Waiter<N> {
    /// What tells this place from the others in the queue.
    pub key: usize,
    /// The task that waits here; `None` once it has been notified.
    pub task: Option<N>,
}

/// What a [`WaitQueue`] is, mathematically.
#[verifier::ext_equal]
pub struct QueueState<N> {
    /// The places that have been taken and not left, the oldest one first.
    pub waiters: Seq<Waiter<N>>,
    /// Whether a notification is kept for the next task that wants to wait.
    pub stored: bool,
    /// Whether the queue refuses to let anybody wait.
    pub closed: bool,
}

impl<N> QueueState<N> {
    /// Whether `key` belongs to a place in the queue.
    pub open spec fn has_key(self, key: usize) -> bool {
        exists|i: int| 0 <= i < self.waiters.len() && (#[trigger] self.waiters[i]).key == key
    }

    /// Where the place with `key` is.
    pub open spec fn position(self, key: usize) -> int {
        choose|i: int| 0 <= i < self.waiters.len() && (#[trigger] self.waiters[i]).key == key
    }

    /// Whether the task at `key` waits: it has a place and has not been notified.
    pub open spec fn is_linked(self, key: usize) -> bool {
        self.has_key(key) && self.waiters[self.position(key)].task is Some
    }

    /// Whether the task at place `i` is the one that has waited longest.
    pub open spec fn is_first_waiting(self, i: int) -> bool {
        &&& 0 <= i < self.waiters.len()
        &&& self.waiters[i].task is Some
        &&& forall|j: int| 0 <= j < i ==> (#[trigger] self.waiters[j]).task is None
    }

    /// Whether any task waits.
    pub open spec fn has_waiting(self) -> bool {
        exists|i: int| self.is_first_waiting(i)
    }

    /// The place of the task that has waited longest.
    pub open spec fn first_waiting(self) -> int {
        choose|i: int| self.is_first_waiting(i)
    }

    /// No two places have the same key; a kept notification means that nobody
    /// waits, and so does a closed queue.
    pub open spec fn wf(self) -> bool {
        &&& forall|i: int, j: int|
            0 <= i < j < self.waiters.len() ==> (#[trigger] self.waiters[i]).key != (
            #[trigger] self.waiters[j]).key
        &&& self.stored || self.closed ==> forall|i: int|
            0 <= i < self.waiters.len() ==> (#[trigger] self.waiters[i]).task is None
    }

    /// The queue once `task` has taken the place `key` at its end.
    pub open spec fn link(self, key: usize, task: N) -> Self {
        QueueState { waiters: self.waiters.push(Waiter { key, task: Some(task) }), ..self }
    }

    /// The queue once the place `key` has been left.
    pub open spec fn unlink(self, key: usize) -> Self {
        if self.has_key(key) {
            QueueState { waiters: self.waiters.remove(self.position(key)), ..self }
        } else {
            self
        }
    }

    /// The queue once `task` waits at the place `key`, in place of what waited
    /// there.
    pub open spec fn relink(self, key: usize, task: N) -> Self {
        QueueState {
            waiters: self.waiters.update(self.position(key), Waiter { key, task: Some(task) }),
            ..self
        }
    }

    /// The queue without a kept notification.
    pub open spec fn forget(self) -> Self {
        QueueState { stored: false, ..self }
    }

    /// The task that the next notification goes to.
    pub open spec fn notified_task(self) -> Option<N> {
        if self.has_waiting() {
            self.waiters[self.first_waiting()].task
        } else {
            None
        }
    }

    /// The queue once the task that has waited longest has been notified; if
    /// nobody waits, the notification is kept, unless the queue is closed.
    pub open spec fn notify(self) -> Self {
        if self.has_waiting() {
            let i = self.first_waiting();
            QueueState {
                waiters: self.waiters.update(i, Waiter { key: self.waiters[i].key, task: None }),
                ..self
            }
        } else {
            QueueState { stored: !self.closed, ..self }
        }
    }

    /// The tasks that wait, the one that has waited longest first.
    pub open spec fn tasks(self) -> Seq<N> {
        waiting_tasks(self.waiters)
    }

    /// The queue once it lets nobody wait, and nobody waits.
    pub open spec fn close(self) -> Self {
        QueueState {
            waiters: self.waiters.map_values(|w: Waiter<N>| Waiter { key: w.key, task: None }),
            stored: false,
            closed: true,
        }
    }
}

/// The tasks that wait at the places in `waiters`, in their order.
pub open spec fn waiting_tasks<N>(waiters: Seq<Waiter<N>>) -> Seq<N>
    decreases waiters.len(),
{
    if waiters.len() == 0 {
        Seq::empty()
    } else {
        let rest = waiting_tasks(waiters.drop_last());
        match waiters.last().task {
            Some(task) => rest.push(task),
            None => rest,
        }
    }
}

/// What became of a task that wanted to wait. In every case but the first, the
/// task is handed back.
#[derive(Debug)]
pub enum StartWait<N> {
    /// It waits, at the place with this key.
    Wait(usize),
    /// It does not wait: there was a kept notification.
    Notified(N),
    /// It does not wait: the queue is closed.
    Closed(N),
}

/// What a task learns that comes back to its place in the queue.
#[derive(Debug)]
pub enum ContinueWait<N> {
    /// It still waits; the task that waited at this place until now is handed
    /// out.
    Wait(Option<N>),
    /// It has been notified, and its place is gone.
    Notified(N),
    /// The queue has been closed, and its place is gone.
    Closed(N),
}

/// A queue of waiting tasks, in the order in which they started to wait.
///
/// A notification goes to the task that has waited longest. If no task waits it
/// is kept, and the next task that wants to wait does not have to.
#[derive(Debug)]
pub struct WaitQueue<N> {
    waiters: Vec<Waiter<N>>,
    stored: bool,
    closed: bool,
}

impl<N> View for WaitQueue<N> {
    type V = QueueState<N>;

    closed spec fn view(&self) -> QueueState<N> {
        QueueState { waiters: self.waiters@, stored: self.stored, closed: self.closed }
    }
}

impl<N> WaitQueue<N> {
    /// A queue in which nobody waits.
    pub fn new() -> (r: Self)
        ensures
            r@ == (QueueState::<N> { waiters: Seq::empty(), stored: false, closed: false }),
            r@.wf(),
    {
        WaitQueue { waiters: Vec::new(), stored: false, closed: false }
    }

    /// Where the place with `key` is.
    fn find(&self, key: usize) -> (r: Option<usize>)
        requires
            self@.wf(),
        ensures
            r is Some <==> self@.has_key(key),
            r matches Some(i) ==> i == self@.position(key) && i < self@.waiters.len()
                && self@.waiters[i as int].key == key,
    {
        let mut i: usize = 0;
        while i < self.waiters.len()
            invariant
                self@.wf(),
                i <= self@.waiters.len(),
                forall|j: int| 0 <= j < i ==> (#[trigger] self@.waiters[j]).key != key,
            decreases self@.waiters.len() - i,
        {
            if self.waiters[i].key == key {
                return Some(i);
            }
            i = i + 1;
        }
        None
    }

    /// A key that belongs to no place in the queue.
    fn fresh_key(&self) -> (r: usize)
        requires
            self@.wf(),
        ensures
            !self@.has_key(r),
    {
        let mut key: usize = 0;
        assert(self.waiters.len() <= usize::MAX);
        while self.find(key).is_some()
            invariant
                self@.wf(),
                forall|k: usize| k < key ==> #[trigger] self@.has_key(k),
                key <= self@.waiters.len() <= usize::MAX,
            decreases self@.waiters.len() - key,
        {
            proof {
                lemma_used_keys(self@, key + 1);
            }
            key = key + 1;
        }
        key
    }

    /// Lets `task` wait, unless the queue is closed or a notification has been
    /// kept, which is then used up.
    pub fn start_wait(&mut self, task: N) -> (r: StartWait<N>)
        requires
            old(self)@.wf(),
        ensures
            final(self)@.wf(),
            old(self)@.closed ==> r == StartWait::Closed(task) && final(self)@ == old(self)@,
            !old(self)@.closed && old(self)@.stored ==> r == StartWait::Notified(task)
                && final(self)@ == old(self)@.forget(),
            !old(self)@.closed && !old(self)@.stored ==> {
                &&& r is Wait
                &&& !old(self)@.has_key(r->Wait_0)
                &&& final(self)@ == old(self)@.link(r->Wait_0, task)
                &&& final(self)@.is_linked(r->Wait_0)
            },
    {
        if self.closed {
            return StartWait::Closed(task);
        }
        if self.stored {
            self.stored = false;
            return StartWait::Notified(task);
        }
        let key: usize = self.fresh_key();
        assert(forall|i: int|
            0 <= i < self@.waiters.len() ==> (#[trigger] self@.waiters[i]).key != key);
        self.waiters.push(Waiter { key, task: Some(task) });
        assert(self@.waiters.last().key == key);
        StartWait::Wait(key)
    }

    /// Tells the task at the place `key` whether it still waits. If it does,
    /// `task` waits there from now on; if it does not, the place is gone.
    pub fn continue_wait(&mut self, key: usize, task: N) -> (r: ContinueWait<N>)
        requires
            old(self)@.wf(),
        ensures
            final(self)@.wf(),
            old(self)@.closed ==> r == ContinueWait::Closed(task) && final(self)@ == old(
                self,
            )@.unlink(key),
            !old(self)@.closed && old(self)@.is_linked(key) ==> {
                &&& r == ContinueWait::Wait(old(self)@.waiters[old(self)@.position(key)].task)
                &&& final(self)@ == old(self)@.relink(key, task)
                &&& final(self)@.is_linked(key)
            },
            !old(self)@.closed && !old(self)@.is_linked(key) ==> r == ContinueWait::Notified(task)
                && final(self)@ == old(self)@.unlink(key),
    {
        match self.find(key) {
            None => {
                if self.closed {
                    ContinueWait::Closed(task)
                } else {
                    ContinueWait::Notified(task)
                }
            },
            Some(i) => {
                if self.closed {
                    self.waiters.remove(i);
                    ContinueWait::Closed(task)
                } else if self.waiters[i].task.is_none() {
                    self.waiters.remove(i);
                    ContinueWait::Notified(task)
                } else {
                    let mut waiter = Waiter { key, task: Some(task) };
                    core::mem::swap(&mut self.waiters[i], &mut waiter);
                    ContinueWait::Wait(waiter.task)
                }
            },
        }
    }

    /// Leaves the place `key`, and hands out the task that waited there, if it
    /// still did.
    pub fn remove(&mut self, key: usize) -> (r: Option<N>)
        requires
            old(self)@.wf(),
        ensures
            final(self)@.wf(),
            final(self)@ == old(self)@.unlink(key),
            r == if old(self)@.has_key(key) {
                old(self)@.waiters[old(self)@.position(key)].task
            } else {
                None
            },
    {
        match self.find(key) {
            None => None,
            Some(i) => {
                let waiter = self.waiters.remove(i);
                waiter.task
            },
        }
    }

    /// Hands out the task that has waited longest, to be woken. If nobody waits,
    /// the notification is kept.
    pub fn notify(&mut self) -> (r: Option<N>)
        requires
            old(self)@.wf(),
        ensures
            final(self)@.wf(),
            r == old(self)@.notified_task(),
            final(self)@ == old(self)@.notify(),
    {
        let mut i: usize = 0;
        while i < self.waiters.len()
            invariant
                self@ == old(self)@,
                self@.wf(),
                i <= self@.waiters.len(),
                forall|j: int| 0 <= j < i ==> (#[trigger] self@.waiters[j]).task is None,
            decreases self@.waiters.len() - i,
        {
            if self.waiters[i].task.is_some() {
                assert(self@.is_first_waiting(i as int));
                let key: usize = self.waiters[i].key;
                let mut waiter = Waiter { key, task: None };
                core::mem::swap(&mut self.waiters[i], &mut waiter);
                return waiter.task;
            }
            i = i + 1;
        }
        self.stored = !self.closed;
        None
    }

    /// Lets nobody wait from now on, and hands out the tasks that wait, the one
    /// that has waited longest first, to be woken.
    pub fn close(&mut self) -> (r: VecDeque<N>)
        requires
            old(self)@.wf(),
        ensures
            final(self)@.wf(),
            r@ == old(self)@.tasks(),
            final(self)@ == old(self)@.close(),
    {
        let mut tasks: VecDeque<N> = VecDeque::new();
        let mut i: usize = 0;
        while i < self.waiters.len()
            invariant
                i <= self@.waiters.len(),
                self@.waiters.len() == old(self)@.waiters.len(),
                forall|j: int|
                    0 <= j < i ==> #[trigger] self@.waiters[j] == (Waiter {
                        key: old(self)@.waiters[j].key,
                        task: None::<N>,
                    }),
                forall|j: int|
                    i <= j < self@.waiters.len() ==> #[trigger] self@.waiters[j] == old(
                        self,
                    )@.waiters[j],
                tasks@ == waiting_tasks(old(self)@.waiters.take(i as int)),
            decreases self@.waiters.len() - i,
        {
            let key: usize = self.waiters[i].key;
            let mut waiter = Waiter { key, task: None };
            core::mem::swap(&mut self.waiters[i], &mut waiter);
            assert(old(self)@.waiters.take(i + 1).drop_last() =~= old(self)@.waiters.take(
                i as int,
            ));
            match waiter.task {
                Some(task) => tasks.push_back(task),
                None => {},
            }
            i = i + 1;
        }
        self.stored = false;
        self.closed = true;
        assert(old(self)@.waiters.take(i as int) =~= old(self)@.waiters);
        tasks
    }
}

impl<N> QueueState<N> {
    /// If a task waits at the place `i`, some task has waited longest, and it
    /// has waited at least as long.
    pub proof fn lemma_waiting(self, i: int)
        requires
            0 <= i < self.waiters.len(),
            self.waiters[i].task is Some,
        ensures
            self.has_waiting(),
            self.is_first_waiting(self.first_waiting()),
            self.first_waiting() <= i,
        decreases i,
    {
        if exists|j: int| 0 <= j < i && (#[trigger] self.waiters[j]).task is Some {
            let j = choose|j: int| 0 <= j < i && (#[trigger] self.waiters[j]).task is Some;
            self.lemma_waiting(j);
        } else {
            assert(self.is_first_waiting(i));
        }
    }

    /// A notification goes to the task that has waited longest, and leaves the
    /// queue well formed.
    pub proof fn lemma_notify(self)
        requires
            self.wf(),
        ensures
            self.notify().wf(),
            self.has_waiting() <==> self.tasks().len() > 0,
            self.has_waiting() ==> {
                &&& self.notified_task() == Some(self.tasks()[0])
                &&& self.notify().tasks() == self.tasks().drop_first()
            },
    {
        lemma_has_tasks(self.waiters);
        if self.has_waiting() {
            lemma_first_task(self.waiters, self.first_waiting());
        } else {
            assert forall|i: int| 0 <= i < self.waiters.len() implies (
            #[trigger] self.waiters[i]).task is None by {
                if self.waiters[i].task is Some {
                    self.lemma_waiting(i);
                }
            }
        }
    }

    /// The tasks that wait are listed, each of them, and no others.
    pub proof fn lemma_tasks(self)
        ensures
            forall|i: int|
                0 <= i < self.waiters.len() && (#[trigger] self.waiters[i]).task is Some
                    ==> self.tasks().contains(self.waiters[i].task->0),
            forall|t: int|
                0 <= t < self.tasks().len() ==> exists|i: int|
                    0 <= i < self.waiters.len() && #[trigger] self.waiters[i].task == Some(
                        #[trigger] self.tasks()[t],
                    ),
    {
        lemma_listed_tasks(self.waiters);
    }

    /// The place with a key that is in use is where
    /// [`position`](QueueState::position) says, and nowhere else.
    pub proof fn lemma_position(self, i: int)
        requires
            self.wf(),
            0 <= i < self.waiters.len(),
        ensures
            self.has_key(self.waiters[i].key),
            self.position(self.waiters[i].key) == i,
    {
        assert(self.has_key(self.waiters[i].key));
    }
}

/// The list of tasks that wait holds those that wait at the places, and no others.
proof fn lemma_listed_tasks<N>(waiters: Seq<Waiter<N>>)
    ensures
        forall|i: int|
            0 <= i < waiters.len() && (#[trigger] waiters[i]).task is Some ==> waiting_tasks(
                waiters,
            ).contains(waiters[i].task->0),
        forall|t: int|
            0 <= t < waiting_tasks(waiters).len() ==> exists|i: int|
                0 <= i < waiters.len() && #[trigger] waiters[i].task == Some(
                    #[trigger] waiting_tasks(waiters)[t],
                ),
    decreases waiters.len(),
{
    if waiters.len() > 0 {
        let rest = waiters.drop_last();
        let last = waiters.len() - 1;
        let tasks = waiting_tasks(waiters);
        let before = waiting_tasks(rest);
        lemma_listed_tasks(rest);
        assert forall|i: int|
            0 <= i < waiters.len() && (#[trigger] waiters[i]).task is Some implies tasks.contains(
            waiters[i].task->0,
        ) by {
            if i < last {
                assert(rest[i] == waiters[i]);
                let t = choose|t: int| 0 <= t < before.len() && before[t] == waiters[i].task->0;
                assert(tasks[t] == waiters[i].task->0);
            } else {
                assert(tasks[tasks.len() - 1] == waiters[i].task->0);
            }
        }
        assert forall|t: int| 0 <= t < tasks.len() implies exists|i: int|
            0 <= i < waiters.len() && #[trigger] waiters[i].task == Some(#[trigger] tasks[t]) by {
            if t < before.len() {
                assert(tasks[t] == before[t]);
                let i = choose|i: int|
                    0 <= i < rest.len() && #[trigger] rest[i].task == Some(before[t]);
                assert(waiters[i].task == Some(tasks[t]));
            } else {
                assert(waiters[last].task == Some(tasks[t]));
            }
        }
    }
}

/// Some task waits exactly if the list of tasks that wait is not empty.
proof fn lemma_has_tasks<N>(waiters: Seq<Waiter<N>>)
    ensures
        waiting_tasks(waiters).len() > 0 <==> exists|i: int|
            0 <= i < waiters.len() && (#[trigger] waiters[i]).task is Some,
    decreases waiters.len(),
{
    if waiters.len() > 0 {
        let rest = waiters.drop_last();
        lemma_has_tasks(rest);
        assert(forall|i: int| 0 <= i < rest.len() ==> rest[i] == waiters[i]);
        assert(waiters[waiters.len() - 1] == waiters.last());
    }
}

/// The task that has waited longest heads the list of tasks that wait.
proof fn lemma_first_task<N>(waiters: Seq<Waiter<N>>, i: int)
    requires
        0 <= i < waiters.len(),
        waiters[i].task is Some,
        forall|j: int| 0 <= j < i ==> (#[trigger] waiters[j]).task is None,
    ensures
        waiting_tasks(waiters) == seq![waiters[i].task->0] + waiting_tasks(
            waiters.update(i, Waiter { key: waiters[i].key, task: None }),
        ),
    decreases waiters.len(),
{
    let notified = waiters.update(i, Waiter { key: waiters[i].key, task: None });
    let rest = waiters.drop_last();
    if i == waiters.len() - 1 {
        lemma_has_tasks(rest);
        assert(notified.drop_last() =~= rest);
    } else {
        lemma_first_task(rest, i);
        assert(notified.drop_last() =~= rest.update(
            i,
            Waiter { key: rest[i].key, task: None },
        ));
    }
}

/// If every number below `bound` is the key of a place, there are at least
/// `bound` places.
proof fn lemma_used_keys<N>(queue: QueueState<N>, bound: int)
    requires
        0 <= bound,
        forall|k: usize| k < bound ==> #[trigger] queue.has_key(k),
        bound <= usize::MAX + 1,
    ensures
        bound <= queue.waiters.len(),
{
    let keys = queue.waiters.map_values(|w: Waiter<N>| w.key as int);
    let below = vstd::set_lib::set_int_range(0, bound);
    assert forall|k: int| below.contains(k) implies keys.to_set().contains(k) by {
        assert(queue.has_key(k as usize));
        let i = queue.position(k as usize);
        assert(keys[i] == k);
    }
    vstd::set_lib::lemma_int_range(0, bound);
    vstd::set_lib::lemma_len_subset(below, keys.to_set());
    keys.lemma_cardinality_of_set();
}

} // verus!
