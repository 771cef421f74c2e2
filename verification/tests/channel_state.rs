use std::collections::VecDeque;
use std::task::Poll;
use thingbuf::mpsc::{Closed, Inner, State, TrySendError};
use thingbuf::{Ref, ThingBuf};

fn inner(capacity: usize) -> Inner<u32, &'static str> {
    Inner::new(ThingBuf::new(capacity))
}

/// Takes the next message and gives its slot back.
fn receive(channel: &mut Inner<u32, &'static str>) -> (Option<u32>, Option<&'static str>) {
    match channel.poll_recv_ref("rx").poll {
        Poll::Ready(Some(slot)) => {
            let woken = channel.finish_recv(0);
            (Some(slot.value), woken)
        }
        _ => (None, None),
    }
}

#[test]
fn send_then_receive() {
    let mut channel = inner(2);
    let sent = channel.try_send(7);
    assert!(sent.result.is_ok());
    assert_eq!(sent.woken, None);
    assert_eq!(sent.replaced, Some(0));
    let answer = channel.poll_recv_ref("rx");
    assert!(matches!(answer.poll, Poll::Ready(Some(Ref { index: 0, value: 7 }))));
    assert_eq!(answer.unused, Some("rx"));
    assert_eq!(channel.finish_recv(9), None);
}

#[test]
fn ring_wraps_around() {
    let mut channel = inner(3);
    for round in 0..10 {
        for i in 0..3 {
            assert!(channel.try_send(round * 3 + i).result.is_ok());
        }
        assert!(matches!(channel.try_send(99).result, Err(TrySendError::Full(99))));
        assert_eq!(receive(&mut channel).0, Some(round * 3));
        assert_eq!(receive(&mut channel).0, Some(round * 3 + 1));
        assert_eq!(receive(&mut channel).0, Some(round * 3 + 2));
        assert!(channel.try_send(round).result.is_ok());
        assert_eq!(receive(&mut channel).0, Some(round));
        assert_eq!(receive(&mut channel).0, None);
    }
}

#[test]
fn slots_are_finished_out_of_order() {
    let mut channel = inner(3);
    let mut slots = Vec::new();
    for i in 0..3 {
        let (slot, woken) = channel.try_send_ref();
        let mut slot = slot.unwrap();
        assert_eq!(woken, None);
        assert!(channel.is_sending(&slot));
        slot.value = 10 + i;
        slots.push(slot);
    }
    assert!(matches!(channel.poll_recv_ref("rx").poll, Poll::Pending));
    let last = slots.pop().unwrap();
    let index = last.index;
    assert_eq!(channel.finish_send(last), Some("rx"));
    assert!(!channel.is_sending(&Ref { index, value: 0 }));
    assert!(matches!(channel.poll_recv_ref("rx").poll, Poll::Pending));
    assert_eq!(channel.finish_send(slots.remove(0)), Some("rx"));
    assert_eq!(receive(&mut channel).0, Some(10));
    assert_eq!(receive(&mut channel).0, None);
    assert_eq!(channel.finish_send(slots.remove(0)), Some("rx"));
    assert_eq!(receive(&mut channel).0, Some(11));
    assert_eq!(receive(&mut channel).0, Some(12));
}

#[test]
fn unknown_slot_is_not_in_the_hands_of_a_producer() {
    let mut channel = inner(2);
    assert!(!channel.is_sending(&Ref { index: 0, value: 1 }));
    assert!(!channel.is_sending(&Ref { index: 5, value: 1 }));
    let (slot, _) = channel.try_send_ref();
    let slot = slot.unwrap();
    assert!(channel.is_sending(&slot));
    assert!(!channel.is_sending(&Ref { index: 1, value: 1 }));
    assert!(!channel.is_receiving());
    channel.finish_send(slot);
    assert!(matches!(channel.poll_recv_ref("rx").poll, Poll::Ready(Some(_))));
    assert!(channel.is_receiving());
    channel.finish_recv(0);
    assert!(!channel.is_receiving());
}

#[test]
fn slot_that_is_given_back_is_handed_out_last() {
    let mut channel = inner(3);
    assert!(channel.try_send(1).result.is_ok());
    assert!(matches!(channel.poll_recv_ref("rx").poll, Poll::Ready(Some(_))));
    channel.finish_recv(42);
    let values: Vec<u32> = (0..3).map(|_| channel.try_send_ref().0.unwrap().value).collect();
    assert_eq!(values, vec![0, 0, 42]);
    assert!(matches!(channel.try_send_ref().0, Err(TrySendError::Full(()))));
}

#[test]
fn slots_are_given_back_out_of_order() {
    let mut channel = inner(2);
    assert!(channel.try_send(1).result.is_ok());
    assert!(channel.try_send(2).result.is_ok());
    let mut first = State::Start;
    assert!(matches!(channel.poll_send_ref(&mut first, "a").poll, Poll::Pending));
    assert!(matches!(channel.poll_recv_ref("rx").poll, Poll::Ready(Some(_))));
    assert!(matches!(channel.poll_recv_ref("rx").poll, Poll::Ready(Some(_))));
    assert_eq!(channel.finish_recv(20), Some("a"));
    match channel.poll_send_ref(&mut first, "a").poll {
        Poll::Ready(Ok(slot)) => assert_eq!(slot.value, 20),
        _ => panic!("no slot"),
    }
    assert_eq!(channel.finish_recv(10), None);
    assert_eq!(channel.try_send_ref().0.unwrap().value, 10);
}

#[test]
fn consumer_waits_and_is_woken() {
    let mut channel = inner(1);
    let answer = channel.poll_recv_ref("first");
    assert!(matches!(answer.poll, Poll::Pending));
    assert_eq!(answer.unused, None);
    let answer = channel.poll_recv_ref("second");
    assert!(matches!(answer.poll, Poll::Pending));
    assert_eq!(answer.unused, Some("first"));
    assert_eq!(channel.try_send(1).woken, Some("second"));
    let refused = channel.try_send(2);
    assert!(matches!(refused.result, Err(TrySendError::Full(2))));
    assert_eq!(refused.woken, None);
    assert_eq!(refused.replaced, None);
}

#[test]
fn refusal_wakes_the_consumer() {
    let mut channel = inner(1);
    let (slot, _) = channel.try_send_ref();
    assert!(matches!(channel.poll_recv_ref("rx").poll, Poll::Pending));
    let (refused, woken) = channel.try_send_ref();
    assert!(matches!(refused, Err(TrySendError::Full(()))));
    assert_eq!(woken, Some("rx"));
    assert!(matches!(channel.poll_recv_ref("rx").poll, Poll::Pending));
    assert_eq!(channel.try_send(3).woken, Some("rx"));
    assert_eq!(channel.finish_send(slot.unwrap()), None);
}

#[test]
fn last_producer_closes() {
    let mut channel = inner(2);
    channel.add_tx();
    assert!(!channel.is_closed());
    assert!(channel.try_send(1).result.is_ok());
    assert_eq!(channel.drop_tx(), None);
    assert!(channel.is_closed());
    assert_eq!(receive(&mut channel).0, Some(1));
    assert!(matches!(channel.poll_recv_ref("rx").poll, Poll::Pending));
    assert_eq!(channel.drop_tx(), Some("rx"));
    let answer = channel.poll_recv_ref("rx");
    assert!(matches!(answer.poll, Poll::Ready(None)));
    assert_eq!(answer.unused, Some("rx"));
}

#[test]
fn closed_channel_is_drained() {
    let mut channel = inner(3);
    for i in 0..3 {
        assert!(channel.try_send(i).result.is_ok());
    }
    assert_eq!(channel.drop_tx(), None);
    for i in 0..3 {
        assert_eq!(receive(&mut channel).0, Some(i));
    }
    assert!(matches!(channel.poll_recv_ref("rx").poll, Poll::Ready(None)));
}

#[test]
fn consumer_that_is_gone_refuses_everybody() {
    let mut channel = inner(2);
    assert!(channel.try_send(1).result.is_ok());
    assert_eq!(channel.close_rx(), VecDeque::<&str>::new());
    let refused = channel.try_send(2);
    assert!(matches!(refused.result, Err(TrySendError::Closed(2))));
    assert_eq!(refused.woken, None);
    for state in [State::Start, State::Done] {
        let mut after = state;
        let answer = channel.poll_send_ref(&mut after, "a");
        assert!(matches!(answer.poll, Poll::Ready(Err(Closed(())))));
        assert_eq!(answer.unused, Some("a"));
        assert_eq!(after, state);
    }
}

#[test]
fn close_wakes_the_producers_in_order() {
    let mut channel = inner(1);
    assert!(channel.try_send(1).result.is_ok());
    let mut states = Vec::new();
    for name in ["a", "b", "c"] {
        let mut state = State::Start;
        assert!(matches!(channel.poll_send_ref(&mut state, name).poll, Poll::Pending));
        assert!(matches!(state, State::Waiting(_)));
        states.push(state);
    }
    assert_eq!(channel.cancel_send(states[1]), Some("b"));
    assert_eq!(channel.close_rx(), VecDeque::from(vec!["a", "c"]));
    let mut state = states[0];
    assert!(matches!(
        channel.poll_send_ref(&mut state, "a").poll,
        Poll::Ready(Err(Closed(())))
    ));
    assert_eq!(state, State::Done);
}

#[test]
fn producers_are_notified_in_order() {
    let mut channel = inner(1);
    assert!(channel.try_send(1).result.is_ok());
    let mut a = State::Start;
    let mut b = State::Start;
    assert!(matches!(channel.poll_send_ref(&mut a, "a").poll, Poll::Pending));
    assert!(matches!(channel.poll_send_ref(&mut b, "b").poll, Poll::Pending));
    assert_ne!(a, b);
    assert_eq!(receive(&mut channel), (Some(1), Some("a")));
    let answer = channel.poll_send_ref(&mut b, "b2");
    assert!(matches!(answer.poll, Poll::Pending));
    assert_eq!(answer.unused, Some("b"));
    match channel.poll_send_ref(&mut a, "a") {
        answer => {
            assert_eq!(answer.unused, Some("a"));
            assert_eq!(a, State::Done);
            match answer.poll {
                Poll::Ready(Ok(slot)) => {
                    channel.finish_send(slot);
                }
                _ => panic!("no slot"),
            }
        }
    }
    assert_eq!(receive(&mut channel), (Some(0), Some("b2")));
}

#[test]
fn overtaken_producer_waits_again_behind_the_others() {
    let mut channel = inner(1);
    assert!(channel.try_send(1).result.is_ok());
    let mut a = State::Start;
    let mut b = State::Start;
    assert!(matches!(channel.poll_send_ref(&mut a, "a").poll, Poll::Pending));
    assert!(matches!(channel.poll_send_ref(&mut b, "b").poll, Poll::Pending));
    assert_eq!(receive(&mut channel), (Some(1), Some("a")));
    assert!(channel.try_send(2).result.is_ok());
    let answer = channel.poll_send_ref(&mut a, "a");
    assert!(matches!(answer.poll, Poll::Pending));
    assert_eq!(answer.unused, None);
    assert_eq!(receive(&mut channel), (Some(2), Some("b")));
    assert!(channel.try_send(3).result.is_ok());
    assert_eq!(receive(&mut channel), (Some(3), Some("a")));
}

#[test]
fn notification_is_kept_for_the_next_producer() {
    let mut channel = inner(1);
    assert!(channel.try_send(1).result.is_ok());
    assert_eq!(receive(&mut channel), (Some(1), None));
    assert!(channel.try_send(2).result.is_ok());
    let mut a = State::Start;
    let answer = channel.poll_send_ref(&mut a, "a");
    assert!(matches!(answer.poll, Poll::Pending));
    assert!(matches!(a, State::Waiting(_)));
    assert_eq!(receive(&mut channel), (Some(2), Some("a")));
}

#[test]
fn waiting_producer_wakes_the_consumer() {
    let mut channel = inner(1);
    let (_slot, _) = channel.try_send_ref();
    assert!(matches!(channel.poll_recv_ref("rx").poll, Poll::Pending));
    let mut a = State::Start;
    let answer = channel.poll_send_ref(&mut a, "a");
    assert!(matches!(answer.poll, Poll::Pending));
    assert_eq!(answer.woken, Some("rx"));
}

#[test]
fn notified_producer_that_gives_up_takes_its_notification_along() {
    let mut channel = inner(1);
    assert!(channel.try_send(1).result.is_ok());
    let mut a = State::Start;
    let mut b = State::Start;
    assert!(matches!(channel.poll_send_ref(&mut a, "a").poll, Poll::Pending));
    assert!(matches!(channel.poll_send_ref(&mut b, "b").poll, Poll::Pending));
    assert_eq!(receive(&mut channel), (Some(1), Some("a")));
    assert_eq!(channel.cancel_send(a), None);
    assert!(matches!(channel.poll_send_ref(&mut b, "b").poll, Poll::Pending));
    assert_eq!(channel.cancel_send(State::Start), None);
    assert_eq!(channel.cancel_send(State::Done), None);
}

#[test]
fn clone_then_drop_changes_nothing() {
    let mut channel = inner(1);
    assert!(channel.is_closed());
    channel.add_tx();
    assert_eq!(channel.drop_tx(), None);
    assert!(channel.is_closed());
    assert!(channel.try_send(1).result.is_ok());
}

#[test]
fn buffer_with_messages_becomes_a_channel() {
    let mut buffer: ThingBuf<u32> = ThingBuf::new(2);
    let mut slot = buffer.push_ref().unwrap();
    slot.with_mut(|value| *value = 5);
    assert_eq!(slot.with(|value| *value), 5);
    assert!(buffer.pop_ref().is_none());
    assert!(buffer.is_writing(slot.index));
    buffer.fill(slot);
    assert!(!buffer.is_finished());
    assert!(!buffer.is_lent());
    let mut channel: Inner<u32, &'static str> = Inner::new(buffer);
    assert!(channel.try_send(6).result.is_ok());
    assert!(channel.try_send(7).result.is_err());
    assert_eq!(receive(&mut channel).0, Some(5));
    assert_eq!(receive(&mut channel).0, Some(6));
}

#[test]
fn poll_send_puts_the_message_at_the_end() {
    let mut channel = inner(2);
    assert!(channel.try_send(1).result.is_ok());
    let mut state = State::Start;
    let answer = channel.poll_send(&mut state, "a", 2);
    assert!(matches!(answer.poll, Poll::Ready(Ok(()))));
    assert_eq!(answer.val, None);
    assert_eq!(answer.woken, None);
    assert_eq!(answer.unused, Some("a"));
    assert_eq!(answer.replaced, Some(0));
    assert_eq!(state, State::Start);
    assert_eq!(receive(&mut channel).0, Some(1));
    assert_eq!(receive(&mut channel).0, Some(2));
    assert!(matches!(channel.poll_recv_ref("rx").poll, Poll::Pending));
    assert_eq!(channel.poll_send(&mut state, "a", 3).woken, Some("rx"));
}

#[test]
fn poll_send_waits_and_then_sends() {
    let mut channel = inner(1);
    assert!(channel.try_send(1).result.is_ok());
    let mut state = State::Start;
    let answer = channel.poll_send(&mut state, "a", 2);
    assert!(matches!(answer.poll, Poll::Pending));
    assert_eq!(answer.val, Some(2));
    assert_eq!(answer.unused, None);
    let answer = channel.poll_send(&mut state, "b", 2);
    assert!(matches!(answer.poll, Poll::Pending));
    assert_eq!(answer.unused, Some("a"));
    let taken = channel.poll_recv("rx", Some(50));
    assert!(matches!(taken.poll, Poll::Ready(Some(1))));
    assert_eq!(taken.woken, Some("b"));
    let answer = channel.poll_send(&mut state, "b", 2);
    assert!(matches!(answer.poll, Poll::Ready(Ok(()))));
    assert_eq!(answer.replaced, Some(50));
    assert!(matches!(channel.poll_recv("rx", Some(0)).poll, Poll::Ready(Some(2))));
    assert!(matches!(channel.poll_recv("rx", None).poll, Poll::Pending));
}

#[test]
fn poll_send_hands_the_message_back_when_the_consumer_is_gone() {
    let mut channel = inner(1);
    assert!(channel.try_send(1).result.is_ok());
    let mut waiting = State::Start;
    assert!(matches!(channel.poll_send(&mut waiting, "a", 2).poll, Poll::Pending));
    channel.close_rx();
    let answer = channel.poll_send(&mut waiting, "a", 2);
    assert!(matches!(answer.poll, Poll::Ready(Err(Closed(2)))));
    assert_eq!(answer.val, None);
    assert_eq!(waiting, State::Done);
    let mut fresh = State::Start;
    assert!(matches!(
        channel.poll_send(&mut fresh, "b", 3).poll,
        Poll::Ready(Err(Closed(3)))
    ));
}

#[test]
fn poll_recv_gives_the_slot_back() {
    let mut channel = inner(1);
    assert!(!channel.is_ready());
    assert!(channel.try_send(5).result.is_ok());
    assert!(channel.is_ready());
    let answer = channel.poll_recv("rx", Some(40));
    assert!(matches!(answer.poll, Poll::Ready(Some(5))));
    assert_eq!(answer.left, None);
    assert_eq!(answer.woken, None);
    assert_eq!(answer.unused, Some("rx"));
    assert!(!channel.is_receiving());
    assert_eq!(channel.try_send_ref().0.unwrap().value, 40);
}

#[test]
fn poll_recv_without_a_message() {
    let mut channel = inner(1);
    let answer = channel.poll_recv("first", Some(7));
    assert!(matches!(answer.poll, Poll::Pending));
    assert_eq!(answer.left, Some(7));
    assert_eq!(answer.unused, None);
    assert_eq!(channel.poll_recv("second", None).unused, Some("first"));
    assert_eq!(channel.drop_tx(), Some("second"));
    let answer = channel.poll_recv("third", None);
    assert!(matches!(answer.poll, Poll::Ready(None)));
    assert_eq!(answer.unused, Some("third"));
}

#[test]
fn order_is_that_of_the_reservations() {
    let mut channel = inner(4);
    let first = channel.try_send_ref().0.unwrap();
    assert!(channel.try_send(2).result.is_ok());
    let mut state = State::Start;
    let third = match channel.poll_send_ref(&mut state, "a").poll {
        Poll::Ready(Ok(slot)) => slot,
        _ => panic!("no slot"),
    };
    assert!(matches!(channel.poll_send(&mut state, "a", 4).poll, Poll::Ready(Ok(()))));
    channel.finish_send(Ref { index: third.index, value: 3 });
    channel.finish_send(Ref { index: first.index, value: 1 });
    for expected in 1..5 {
        assert_eq!(receive(&mut channel).0, Some(expected));
    }
}
