# thingbuf

A bounded, multi-producer, single-consumer channel. Messages live in a fixed
number of slots, and a slot that the consumer gives back is handed to a later
producer with what it holds, so that allocations can be reused.

* `src/thingbuf.rs` — the buffer of slots.
* `src/wait/` — the places of tasks that wait: a cell for the consumer, a queue
  for the producers.
* `src/mpsc/inner.rs` — the channel as one value, `Inner`. Its contracts say
  exactly what every operation returns, what it does to the channel and which
  task is to be woken.
* `src/mpsc/steps.rs`, `src/mpsc/laws.rs` — what can be done to a channel, and
  what holds whatever is done to it: order, completeness, closing, wake-ups.
* `src/mpsc/calls.rs` — the same over any calls of `Inner`.
* `src/mpsc.rs`, `src/mpsc/async_impl.rs` — `Sender`, `Receiver` and the slots in
  their hands. They share one `Inner` behind a lock, and it is proved that all
  they do to it is to take the steps of `steps.rs`. A handle's contract says that
  it makes the call of `Inner` that does its work on what it took out of the lock,
  that it puts back what the call left, that it answers what the call answered,
  and that it notifies the tasks that the call handed out. Another task may have
  changed the channel since the handle last looked at it, so which state it finds
  is left open.
* `app/` — handles that give up what they hold when they go out of scope, and the
  futures and formatting that belong to them.

In `src/` nothing happens when a handle or a slot goes out of scope: `drop` is a
method that has to be called.
