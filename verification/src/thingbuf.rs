//! The bounded buffer of reusable slots.
use std::collections::VecDeque;
use vstd::prelude::*;

verus! {

/// What a [`ThingBuf`] is, mathematically.
#[verifier::ext_equal]
pub struct BufferState<T> {
    /// Every slot handed to a producer since the buffer was made, in the order
    /// in which the slots were handed out: `None` while the producer is still
    /// writing, `Some` once it has finished.
    pub slots: Seq<Option<T>>,
    /// How many of those slots the consumer has taken, from the front.
    pub popped: nat,
    /// The ring position of the first slot that the consumer has not taken.
    pub head: nat,
    /// The contents of the slots that are free, the next one to be handed out
    /// first.
    pub spare: Seq<T>,
    /// How many slots the consumer has taken and not given back.
    pub lent: nat,
    /// How many slots there are.
    pub capacity: nat,
    /// Whether the buffer refuses producers.
    pub closed: bool,
}

impl<T> BufferState<T> {
    /// How many slots are queued: handed to a producer and not yet taken by the
    /// consumer.
    pub open spec fn queued(self) -> nat {
        (self.slots.len() - self.popped) as nat
    }

    /// Every slot is free, queued or lent; and the consumer has only taken slots
    /// whose producer had finished.
    pub open spec fn wf(self) -> bool {
        &&& self.popped <= self.slots.len()
        &&& forall|i: int| 0 <= i < self.popped ==> (#[trigger] self.slots[i]) is Some
        &&& self.spare.len() + self.queued() + self.lent == self.capacity
        &&& self.head < self.capacity || (self.head == 0 && self.capacity == 0)
    }

    /// The ring position of the queued slot that has `offset` queued slots in
    /// front of it.
    pub open spec fn ring_index(self, offset: int) -> int {
        if self.head + offset < self.capacity {
            self.head + offset
        } else {
            self.head + offset - self.capacity
        }
    }

    /// The number, counted over the life of the buffer, of the slot that ring
    /// position `index` belongs to.
    pub open spec fn number(self, index: int) -> int {
        if index >= self.head {
            self.popped + index - self.head
        } else {
            self.popped + index - self.head + self.capacity
        }
    }

    /// Whether ring position `index` belongs to a queued slot whose producer has
    /// not finished.
    pub open spec fn is_writing(self, index: int) -> bool {
        &&& 0 <= index < self.capacity
        &&& self.number(index) < self.slots.len()
        &&& self.slots[self.number(index)] is None
    }

    /// Whether a producer can be given a slot.
    pub open spec fn has_room(self) -> bool {
        !self.closed && self.spare.len() > 0
    }

    /// Whether the consumer can take a slot.
    pub open spec fn is_ready(self) -> bool {
        self.popped < self.slots.len() && self.slots[self.popped as int] is Some
    }

    /// Whether the consumer will never be able to take another slot.
    pub open spec fn is_finished(self) -> bool {
        self.closed && self.popped == self.slots.len()
    }

    /// The slot that the next producer is given.
    pub open spec fn next_slot(self) -> Ref<T> {
        Ref { index: self.ring_index(self.queued() as int) as usize, value: self.spare[0] }
    }

    /// The buffer once a producer has been given a slot.
    pub open spec fn reserve(self) -> Self {
        BufferState { slots: self.slots.push(None), spare: self.spare.drop_first(), ..self }
    }

    /// The buffer once the producer at ring position `index` has left `value`
    /// in its slot.
    pub open spec fn fill(self, index: int, value: T) -> Self {
        BufferState { slots: self.slots.update(self.number(index), Some(value)), ..self }
    }

    /// The slot that the consumer takes next.
    pub open spec fn front(self) -> Ref<T> {
        Ref { index: self.head as usize, value: self.slots[self.popped as int]->0 }
    }

    /// The buffer once the consumer has taken a slot.
    pub open spec fn pop(self) -> Self {
        BufferState {
            popped: self.popped + 1,
            head: self.ring_index(1) as nat,
            lent: self.lent + 1,
            ..self
        }
    }

    /// The buffer once the consumer has given a slot back that holds `value`.
    pub open spec fn give_back(self, value: T) -> Self {
        BufferState { lent: (self.lent - 1) as nat, spare: self.spare.push(value), ..self }
    }

    /// The buffer once it refuses producers.
    pub open spec fn close(self) -> Self {
        BufferState { closed: true, ..self }
    }

    /// The messages that the consumer has taken, the first one first.
    pub open spec fn received(self) -> Seq<T> {
        Seq::new(self.popped, |i: int| self.slots[i]->0)
    }
}

/// A slot in the hands of a producer or of the consumer.
#[derive(Debug)]
pub struct Ref<T> {
    /// The ring position of the slot.
    pub index: usize,
    /// What the slot holds.
    pub value: T,
}

impl<T> Ref<T> {
    /// Calls `f` with a reference to the contents of the slot.
    pub fn with<U>(&self, f: impl FnOnce(&T) -> U) -> (r: U)
        requires
            f.requires((&self.value,)),
        ensures
            f.ensures((&self.value,), r),
    {
        f(&self.value)
    }

    /// Calls `f` with a mutable reference to the contents of the slot.
    pub fn with_mut<U>(&mut self, f: impl FnOnce(&mut T) -> U) -> (r: U)
        requires
            forall|v: &mut T| *v == old(self).value ==> f.requires((v,)),
        ensures
            final(self).index == old(self).index,
            exists|v: &mut T|
                #![trigger f.ensures((v,), r)]
                *v == old(self).value && *final(v) == final(self).value && f.ensures((v,), r),
    {
        f(&mut self.value)
    }
}

/// A bounded buffer of slots that are filled by producers and emptied by one
/// consumer, in the order in which the producers were given them.
///
/// The contents of a slot stay where they are when the consumer gives the slot
/// back, and the producer that is given the slot next finds them there.
pub struct ThingBuf<T> {
    ring: Vec<Option<T>>,
    head: usize,
    len: usize,
    spare: VecDeque<T>,
    lent: usize,
    closed: bool,
    history: Ghost<Seq<Option<T>>>,
}

impl<T> View for ThingBuf<T> {
    type V = BufferState<T>;

    closed spec fn view(&self) -> BufferState<T> {
        BufferState {
            slots: self.history@,
            popped: (self.history@.len() - self.len) as nat,
            head: self.head as nat,
            spare: self.spare@,
            lent: self.lent as nat,
            capacity: self.ring@.len(),
            closed: self.closed,
        }
    }
}

impl<T> ThingBuf<T> {
    /// The ring holds the queued slots, and every slot is accounted for.
    pub closed spec fn wf(&self) -> bool {
        &&& self.len <= self.history@.len()
        &&& self@.wf()
        &&& forall|i: int|
            0 <= i < self.len ==> self.ring@[self@.ring_index(i)] == (
            #[trigger] self.history@[self@.popped + i])
    }

    /// A well-formed buffer has a well-formed state, and its size fits in a
    /// `usize`.
    pub proof fn lemma_wf(&self)
        requires
            self.wf(),
        ensures
            self@.wf(),
            self@.capacity <= usize::MAX,
    {
        assert(self.ring.len() <= usize::MAX);
    }

    /// Whether a slot is lent to the consumer.
    pub fn is_lent(&self) -> (r: bool)
        ensures
            r == (self@.lent > 0),
    {
        self.lent > 0
    }

    /// Whether the consumer can take a slot.
    pub fn is_ready(&self) -> (r: bool)
        requires
            self.wf(),
        ensures
            r == self@.is_ready(),
    {
        if self.len == 0 {
            return false;
        }
        assert(self.ring@[self.head as int] == self.history@[self@.popped + 0int]);
        self.ring[self.head].is_some()
    }

    /// Whether the consumer will never be able to take another slot.
    pub fn is_finished(&self) -> (r: bool)
        requires
            self.wf(),
        ensures
            r == self@.is_finished(),
    {
        self.closed && self.len == 0
    }

    /// Whether ring position `index` belongs to a slot whose producer has not
    /// finished.
    pub fn is_writing(&self, index: usize) -> (r: bool)
        requires
            self.wf(),
        ensures
            r == self@.is_writing(index as int),
    {
        if index >= self.ring.len() {
            return false;
        }
        let offset: usize = if index >= self.head {
            index - self.head
        } else {
            self.ring.len() - self.head + index
        };
        assert(self@.number(index as int) == self@.popped + offset);
        offset < self.len && self.ring[index].is_none()
    }

    /// Gives a free slot to a producer; `None` if the buffer is closed or no slot
    /// is free.
    ///
    /// The slot takes its place in the queue now, before the producer has
    /// written anything.
    pub fn push_ref(&mut self) -> (r: Option<Ref<T>>)
        requires
            old(self).wf(),
        ensures
            final(self).wf(),
            old(self)@.has_room() ==> {
                &&& r == Some(old(self)@.next_slot())
                &&& final(self)@ == old(self)@.reserve()
                &&& final(self)@.is_writing(old(self)@.next_slot().index as int)
            },
            !old(self)@.has_room() ==> r is None && final(self)@ == old(self)@,
    {
        if self.closed || self.spare.len() == 0 {
            return None;
        }
        let index: usize = wrap(self.head, self.len, self.ring.len());
        let taken = self.spare.pop_front();
        proof {
            let before = old(self)@;
            assert(forall|i: int|
                0 <= i < self.len ==> #[trigger] before.ring_index(i) != before.ring_index(
                    self.len as int,
                ));
        }
        self.ring[index] = None;
        self.len = self.len + 1;
        self.history = Ghost(self.history@.push(None));
        match taken {
            Some(value) => Some(Ref { index, value }),
            None => None,
        }
    }

    /// Takes back the slot of a producer that has finished: `slot` holds what
    /// the producer left in it.
    pub fn fill(&mut self, slot: Ref<T>)
        requires
            old(self).wf(),
            old(self)@.is_writing(slot.index as int),
        ensures
            final(self).wf(),
            final(self)@ == old(self)@.fill(slot.index as int, slot.value),
    {
        let Ref { index, value } = slot;
        proof {
            let before = old(self)@;
            let n = before.number(index as int);
            assert(forall|i: int|
                0 <= i < self.len && before.popped + i != n ==> #[trigger] before.ring_index(i)
                    != index);
            self.history = Ghost(self.history@.update(n, Some(value)));
        }
        self.ring[index] = Some(value);
    }

    /// Lends the first queued slot to the consumer; `None` if no slot is queued,
    /// or if the producer of the first one has not finished.
    pub fn pop_ref(&mut self) -> (r: Option<Ref<T>>)
        requires
            old(self).wf(),
        ensures
            final(self).wf(),
            old(self)@.is_ready() ==> {
                &&& r == Some(old(self)@.front())
                &&& final(self)@ == old(self)@.pop()
            },
            !old(self)@.is_ready() ==> r is None && final(self)@ == old(self)@,
    {
        if self.len == 0 {
            return None;
        }
        let index: usize = self.head;
        assert(self.ring@[index as int] == self.history@[self@.popped + 0int]);
        match self.ring[index].take() {
            None => None,
            Some(value) => {
                self.head = wrap(index, 1, self.ring.len());
                self.len = self.len - 1;
                self.lent = self.lent + 1;
                proof {
                    let before = old(self)@;
                    assert forall|i: int| 0 <= i < self.len implies self.ring@[self@.ring_index(i)]
                        == #[trigger] self.history@[self@.popped + i] by {
                        assert(self.history@[self@.popped + i] == old(self).history@[before.popped
                            + (i + 1)]);
                    }
                }
                Some(Ref { index, value })
            },
        }
    }

    /// Takes back a slot that was lent to the consumer: `value` is what the
    /// consumer left in it.
    pub fn give_back(&mut self, value: T)
        requires
            old(self).wf(),
            old(self)@.lent > 0,
        ensures
            final(self).wf(),
            final(self)@ == old(self)@.give_back(value),
    {
        self.lent = self.lent - 1;
        self.spare.push_back(value);
    }

    /// Makes the buffer refuse producers from now on.
    pub(crate) fn close(&mut self)
        requires
            old(self).wf(),
        ensures
            final(self).wf(),
            final(self)@ == old(self)@.close(),
    {
        self.closed = true;
    }
}

impl<T: Default> ThingBuf<T> {
    /// Makes a buffer of `capacity` free slots, each of which holds the default
    /// value of `T`.
    pub fn new(capacity: usize) -> (r: Self)
        ensures
            r.wf(),
            r@.slots == Seq::<Option<T>>::empty(),
            r@.popped == 0,
            r@.head == 0,
            r@.spare.len() == capacity,
            forall|i: int|
                0 <= i < capacity ==> call_ensures(T::default, (), #[trigger] r@.spare[i]),
            r@.lent == 0,
            r@.capacity == capacity,
            !r@.closed,
    {
        let mut ring: Vec<Option<T>> = Vec::new();
        let mut spare: VecDeque<T> = VecDeque::new();
        while ring.len() < capacity
            invariant
                ring@.len() == spare@.len(),
                ring@.len() <= capacity,
                forall|i: int|
                    0 <= i < spare@.len() ==> call_ensures(T::default, (), #[trigger] spare@[i]),
            decreases capacity - ring@.len(),
        {
            ring.push(None);
            spare.push_back(T::default());
        }
        ThingBuf {
            ring,
            head: 0,
            len: 0,
            spare,
            lent: 0,
            closed: false,
            history: Ghost(Seq::empty()),
        }
    }
}

/// The ring position `offset` places after `head`, in a ring of `capacity`
/// positions.
fn wrap(head: usize, offset: usize, capacity: usize) -> (r: usize)
    requires
        head < capacity,
        offset <= capacity,
    ensures
        r == if head + offset < capacity { head + offset } else { head + offset - capacity },
{
    let to_end: usize = capacity - head;
    if offset < to_end {
        head + offset
    } else {
        offset - to_end
    }
}

} // verus!
