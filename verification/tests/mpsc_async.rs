use std::sync::atomic::{AtomicUsize, Ordering};
use std::sync::Arc;
use std::task::{Context, Poll, Wake, Waker};
use thingbuf::mpsc::{channel, Closed, TrySendError};
use thingbuf::ThingBuf;

fn _assert_sync<T: Sync>(_: T) {}
fn _assert_send<T: Send>(_: T) {}

#[test]
fn recv_ref_future_is_send() {
    let (_, rx) = channel::<usize>(ThingBuf::new(10));
    _assert_send(rx.recv_ref());
}

#[test]
fn recv_ref_future_is_sync() {
    let (_, rx) = channel::<usize>(ThingBuf::new(10));
    _assert_sync(rx.recv_ref());
}

#[test]
fn send_ref_future_is_send() {
    let (tx, _) = channel::<usize>(ThingBuf::new(10));
    _assert_send(tx.send_ref());
}

#[test]
fn send_ref_future_is_sync() {
    let (tx, _) = channel::<usize>(ThingBuf::new(10));
    _assert_sync(tx.send_ref());
}

/// A task that counts how often it is woken.
struct Task(AtomicUsize);

impl Wake for Task {
    fn wake(self: Arc<Self>) {
        self.0.fetch_add(1, Ordering::SeqCst);
    }
}

fn task() -> (Arc<Task>, Waker) {
    let task = Arc::new(Task(AtomicUsize::new(0)));
    let waker = Waker::from(task.clone());
    (task, waker)
}

fn woken(task: &Arc<Task>) -> usize {
    task.0.load(Ordering::SeqCst)
}

#[test]
fn messages_arrive_in_order() {
    let (_, waker) = task();
    let mut cx = Context::from_waker(&waker);
    let (tx, rx) = channel::<usize>(ThingBuf::new(3));
    let tx2 = tx.clone();
    tx.try_send(1).unwrap();
    tx2.try_send(2).unwrap();
    tx.try_send(3).unwrap();
    assert_eq!(rx.poll_recv(&mut cx), Poll::Ready(Some(1)));
    tx2.try_send(4).unwrap();
    assert_eq!(rx.poll_recv(&mut cx), Poll::Ready(Some(2)));
    assert_eq!(rx.poll_recv(&mut cx), Poll::Ready(Some(3)));
    assert_eq!(rx.poll_recv(&mut cx), Poll::Ready(Some(4)));
    assert_eq!(rx.poll_recv(&mut cx), Poll::Pending);
}

#[test]
fn every_message_of_every_producer_arrives() {
    const N_SENDS: usize = 10;
    const N_PRODUCERS: usize = 10;

    let (_, waker) = task();
    let mut cx = Context::from_waker(&waker);
    let (tx, rx) = channel::<usize>(ThingBuf::new(N_SENDS / 2));
    let mut producers = Vec::new();
    for n in 0..N_PRODUCERS {
        producers.push((tx.clone(), n, 0));
    }
    tx.drop();

    let mut results = Vec::new();
    loop {
        let mut waiting = Vec::new();
        for (tx, n, i) in producers {
            if i == N_SENDS {
                tx.drop();
                continue;
            }
            match tx.try_send(n * N_SENDS + i) {
                Ok(()) => waiting.push((tx, n, i + 1)),
                Err(TrySendError::Full(val)) => {
                    assert_eq!(val, n * N_SENDS + i);
                    waiting.push((tx, n, i));
                }
                Err(e) => panic!("{:?}", e),
            }
        }
        producers = waiting;
        match rx.poll_recv(&mut cx) {
            Poll::Ready(Some(val)) => results.push(val),
            Poll::Ready(None) => break,
            Poll::Pending => {}
        }
    }

    assert_eq!(results.len(), N_SENDS * N_PRODUCERS);
    for n in 0..N_PRODUCERS {
        let of_producer: Vec<usize> =
            results.iter().copied().filter(|val| val / N_SENDS == n).collect();
        let expected: Vec<usize> = (0..N_SENDS).map(|i| n * N_SENDS + i).collect();
        assert_eq!(of_producer, expected);
    }
}

#[test]
fn full_channel_hands_the_message_back() {
    let (tx, _rx) = channel::<usize>(ThingBuf::new(1));
    assert!(matches!(tx.try_send(7), Ok(())));
    assert!(matches!(tx.try_send(8), Err(TrySendError::Full(8))));
    assert!(matches!(tx.try_send_ref(), Err(TrySendError::Full(()))));
}

#[test]
fn channel_without_slots_is_always_full() {
    let (tx, _rx) = channel::<usize>(ThingBuf::new(0));
    assert!(matches!(tx.try_send(8), Err(TrySendError::Full(8))));
}

#[test]
fn full_channel_wakes_the_consumer() {
    let (consumer, waker) = task();
    let mut cx = Context::from_waker(&waker);
    let (tx, rx) = channel::<usize>(ThingBuf::new(1));
    let slot = tx.try_send_ref().unwrap();
    assert_eq!(rx.poll_recv(&mut cx), Poll::Pending);
    assert!(matches!(tx.try_send(8), Err(TrySendError::Full(8))));
    assert_eq!(woken(&consumer), 1);
    slot.drop();
    assert_eq!(woken(&consumer), 1);
}

#[test]
fn dropped_consumer_closes_the_channel() {
    let (tx, rx) = channel::<usize>(ThingBuf::new(2));
    tx.try_send(1).unwrap();
    rx.drop();
    assert!(matches!(tx.try_send(7), Err(TrySendError::Closed(7))));
    assert!(matches!(tx.try_send_ref(), Err(TrySendError::Closed(()))));
}

#[test]
fn last_dropped_producer_closes_the_channel() {
    let (consumer, waker) = task();
    let mut cx = Context::from_waker(&waker);
    let (tx, rx) = channel::<usize>(ThingBuf::new(2));
    let tx2 = tx.clone();
    assert!(!rx.is_closed());
    tx.try_send(1).unwrap();
    tx.drop();
    assert!(rx.is_closed());
    tx2.try_send(2).unwrap();
    assert_eq!(rx.poll_recv(&mut cx), Poll::Ready(Some(1)));
    assert_eq!(rx.poll_recv(&mut cx), Poll::Ready(Some(2)));
    assert_eq!(rx.poll_recv(&mut cx), Poll::Pending);
    tx2.drop();
    assert_eq!(woken(&consumer), 1);
    assert!(rx.is_closed());
    assert_eq!(rx.poll_recv(&mut cx), Poll::Ready(None));
    assert_eq!(rx.poll_recv(&mut cx), Poll::Ready(None));
}

#[test]
fn messages_outlive_their_producers() {
    let (_, waker) = task();
    let mut cx = Context::from_waker(&waker);
    let (tx, rx) = channel::<usize>(ThingBuf::new(2));
    tx.try_send(1).unwrap();
    tx.try_send(2).unwrap();
    tx.drop();
    assert_eq!(rx.poll_recv(&mut cx), Poll::Ready(Some(1)));
    assert_eq!(rx.poll_recv(&mut cx), Poll::Ready(Some(2)));
    assert_eq!(rx.poll_recv(&mut cx), Poll::Ready(None));
}

#[test]
fn sending_wakes_the_task_that_asked_last() {
    let (first, first_waker) = task();
    let (second, second_waker) = task();
    let (tx, rx) = channel::<usize>(ThingBuf::new(2));
    assert_eq!(rx.poll_recv(&mut Context::from_waker(&first_waker)), Poll::Pending);
    assert_eq!(rx.poll_recv(&mut Context::from_waker(&second_waker)), Poll::Pending);
    tx.try_send(1).unwrap();
    assert_eq!((woken(&first), woken(&second)), (0, 1));
    tx.try_send(2).unwrap();
    assert_eq!((woken(&first), woken(&second)), (0, 1));
}

#[test]
fn slots_are_received_in_the_order_they_were_handed_out() {
    let (consumer, waker) = task();
    let mut cx = Context::from_waker(&waker);
    let (tx, rx) = channel::<usize>(ThingBuf::new(3));
    let mut first = tx.try_send_ref().unwrap();
    tx.try_send(2).unwrap();
    assert_eq!(rx.poll_recv(&mut cx), Poll::Pending);
    first.with_mut(|val| *val = 1);
    assert_eq!(first.with(|val| *val), 1);
    first.drop();
    assert_eq!(woken(&consumer), 1);
    assert_eq!(rx.poll_recv(&mut cx), Poll::Ready(Some(1)));
    assert_eq!(rx.poll_recv(&mut cx), Poll::Ready(Some(2)));
}

#[test]
fn received_slots_are_reused() {
    let (_, waker) = task();
    let mut cx = Context::from_waker(&waker);
    let (tx, rx) = channel::<String>(ThingBuf::new(1));
    tx.try_send(String::from("hello")).unwrap();
    match rx.poll_recv_ref(&mut cx) {
        Poll::Ready(Some(mut slot)) => {
            assert_eq!(slot.with(|s| s.len()), 5);
            slot.with_mut(|s| s.push_str(" world"));
            assert!(matches!(tx.try_send_ref(), Err(TrySendError::Full(()))));
            slot.drop();
        }
        _ => panic!("no message"),
    }
    let slot = tx.try_send_ref().unwrap();
    assert_eq!(slot.with(|s| s.clone()), "hello world");
    slot.drop();
    assert_eq!(rx.poll_recv(&mut cx), Poll::Ready(Some(String::from("hello world"))));
    let slot = tx.try_send_ref().unwrap();
    assert_eq!(slot.with(|s| s.clone()), "");
    slot.drop();
}

#[test]
fn futures_receive() {
    let (consumer, waker) = task();
    let mut cx = Context::from_waker(&waker);
    let (tx, rx) = channel::<usize>(ThingBuf::new(2));
    let mut recv = rx.recv();
    assert_eq!(recv.poll(&mut cx), Poll::Pending);
    tx.try_send(1).unwrap();
    assert_eq!(woken(&consumer), 1);
    assert_eq!(recv.poll(&mut cx), Poll::Ready(Some(1)));
    let mut recv_ref = rx.recv_ref();
    assert!(matches!(recv_ref.poll(&mut cx), Poll::Pending));
    tx.try_send(2).unwrap();
    assert_eq!(woken(&consumer), 2);
    match recv_ref.poll(&mut cx) {
        Poll::Ready(Some(slot)) => {
            assert_eq!(slot.with(|val| *val), 2);
            slot.drop();
        }
        _ => panic!("no message"),
    }
    tx.drop();
    assert!(matches!(rx.recv_ref().poll(&mut cx), Poll::Ready(None)));
    assert_eq!(rx.recv().poll(&mut cx), Poll::Ready(None));
}

#[test]
fn producers_wait_in_turn() {
    let (_, rx_waker) = task();
    let (a, a_waker) = task();
    let (b, b_waker) = task();
    let mut rx_cx = Context::from_waker(&rx_waker);
    let mut a_cx = Context::from_waker(&a_waker);
    let mut b_cx = Context::from_waker(&b_waker);
    let (tx, rx) = channel::<usize>(ThingBuf::new(1));
    let tx2 = tx.clone();
    tx.try_send(0).unwrap();

    let mut first = tx.send(1);
    let mut second = tx2.send(2);
    assert!(matches!(first.poll(&mut a_cx), Poll::Pending));
    assert!(matches!(second.poll(&mut b_cx), Poll::Pending));

    assert_eq!(rx.poll_recv(&mut rx_cx), Poll::Ready(Some(0)));
    assert_eq!((woken(&a), woken(&b)), (1, 0));
    assert!(matches!(second.poll(&mut b_cx), Poll::Pending));
    assert!(matches!(first.poll(&mut a_cx), Poll::Ready(Ok(()))));

    assert_eq!(rx.poll_recv(&mut rx_cx), Poll::Ready(Some(1)));
    assert_eq!((woken(&a), woken(&b)), (1, 1));
    assert!(matches!(second.poll(&mut b_cx), Poll::Ready(Ok(()))));
    assert_eq!(rx.poll_recv(&mut rx_cx), Poll::Ready(Some(2)));
}

#[test]
fn quick_producer_sends_an_overtaken_one_to_the_back() {
    let (_, rx_waker) = task();
    let (a, a_waker) = task();
    let mut rx_cx = Context::from_waker(&rx_waker);
    let mut a_cx = Context::from_waker(&a_waker);
    let (tx, rx) = channel::<usize>(ThingBuf::new(1));
    tx.try_send(0).unwrap();
    let mut send = tx.send_ref();
    assert!(matches!(send.poll(&mut a_cx), Poll::Pending));
    assert_eq!(rx.poll_recv(&mut rx_cx), Poll::Ready(Some(0)));
    assert_eq!(woken(&a), 1);
    tx.try_send(1).unwrap();
    assert!(matches!(send.poll(&mut a_cx), Poll::Pending));
    assert_eq!(rx.poll_recv(&mut rx_cx), Poll::Ready(Some(1)));
    assert_eq!(woken(&a), 2);
    match send.poll(&mut a_cx) {
        Poll::Ready(Ok(mut slot)) => {
            slot.with_mut(|val| *val = 2);
            slot.drop();
        }
        _ => panic!("no slot"),
    }
    assert_eq!(rx.poll_recv(&mut rx_cx), Poll::Ready(Some(2)));
}

#[test]
fn producer_that_gives_up_is_not_woken() {
    let (_, rx_waker) = task();
    let (a, a_waker) = task();
    let (b, b_waker) = task();
    let mut rx_cx = Context::from_waker(&rx_waker);
    let (tx, rx) = channel::<usize>(ThingBuf::new(1));
    tx.try_send(0).unwrap();
    let mut first = tx.send(1);
    let mut second = tx.send(2);
    assert!(matches!(first.poll(&mut Context::from_waker(&a_waker)), Poll::Pending));
    assert!(matches!(second.poll(&mut Context::from_waker(&b_waker)), Poll::Pending));
    first.drop();
    assert_eq!(rx.poll_recv(&mut rx_cx), Poll::Ready(Some(0)));
    assert_eq!((woken(&a), woken(&b)), (0, 1));
    assert!(matches!(
        second.poll(&mut Context::from_waker(&b_waker)),
        Poll::Ready(Ok(()))
    ));
    let mut third = tx.send_ref();
    assert!(matches!(third.poll(&mut Context::from_waker(&a_waker)), Poll::Pending));
    third.drop();
    assert_eq!(rx.poll_recv(&mut rx_cx), Poll::Ready(Some(2)));
    assert_eq!((woken(&a), woken(&b)), (0, 1));
}

#[test]
fn dropped_consumer_wakes_every_waiting_producer() {
    let (a, a_waker) = task();
    let (b, b_waker) = task();
    let mut a_cx = Context::from_waker(&a_waker);
    let mut b_cx = Context::from_waker(&b_waker);
    let (tx, rx) = channel::<usize>(ThingBuf::new(1));
    tx.try_send(0).unwrap();
    let mut first = tx.send(1);
    let mut second = tx.send_ref();
    assert!(matches!(first.poll(&mut a_cx), Poll::Pending));
    assert!(matches!(second.poll(&mut b_cx), Poll::Pending));
    rx.drop();
    assert_eq!((woken(&a), woken(&b)), (1, 1));
    assert!(matches!(first.poll(&mut a_cx), Poll::Ready(Err(Closed(1)))));
    assert!(matches!(second.poll(&mut b_cx), Poll::Ready(Err(Closed(())))));
    assert!(matches!(tx.send(3).poll(&mut a_cx), Poll::Ready(Err(Closed(3)))));
}

#[test]
fn error_keeps_its_kind() {
    assert!(matches!(TrySendError::Full(()).with_value(3), TrySendError::Full(3)));
    assert!(matches!(TrySendError::Closed(()).with_value(4), TrySendError::Closed(4)));
}

#[test]
fn received_message_is_moved_out() {
    let (_, waker) = task();
    let mut cx = Context::from_waker(&waker);
    let (tx, rx) = channel::<usize>(ThingBuf::new(1));
    tx.try_send(5).unwrap();
    assert_eq!(rx.poll_recv(&mut cx), Poll::Ready(Some(5)));
    let slot = tx.try_send_ref().unwrap();
    assert_eq!(slot.with(|v| *v), 0);
}

#[test]
fn waiting_send_is_received_next() {
    let (_, waker) = task();
    let mut cx = Context::from_waker(&waker);
    let (tx, rx) = channel::<usize>(ThingBuf::new(1));
    tx.try_send(1).unwrap();
    let mut send = tx.send(2);
    assert!(matches!(send.poll(&mut cx), Poll::Pending));
    assert_eq!(rx.poll_recv(&mut cx), Poll::Ready(Some(1)));
    assert!(matches!(send.poll(&mut cx), Poll::Ready(Ok(()))));
    assert_eq!(rx.poll_recv(&mut cx), Poll::Ready(Some(2)));
    assert_eq!(rx.poll_recv(&mut cx), Poll::Pending);
}

static DEFAULTS: AtomicUsize = AtomicUsize::new(0);

struct Counted;

impl Default for Counted {
    fn default() -> Self {
        DEFAULTS.fetch_add(1, Ordering::SeqCst);
        Counted
    }
}

#[test]
fn default_is_made_only_for_a_message() {
    let (_, waker) = task();
    let mut cx = Context::from_waker(&waker);
    let (tx, rx) = channel::<Counted>(ThingBuf::new(2));
    assert_eq!(DEFAULTS.load(Ordering::SeqCst), 2);
    assert!(rx.poll_recv(&mut cx).is_pending());
    assert_eq!(DEFAULTS.load(Ordering::SeqCst), 2);
    assert!(tx.try_send(Counted).is_ok());
    assert!(rx.poll_recv(&mut cx).is_ready());
    assert_eq!(DEFAULTS.load(Ordering::SeqCst), 3);
}
