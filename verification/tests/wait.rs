use std::collections::VecDeque;
use std::sync::atomic::{AtomicUsize, Ordering};
use std::sync::Arc;
use thingbuf::wait::cell::WaitCell;
use thingbuf::wait::queue::{ContinueWait, StartWait, WaitQueue};
use thingbuf::wait::{notify_all, notify_one, Notify};

#[test]
fn cell_holds_the_last_waiter() {
    let mut cell = WaitCell::new();
    assert_eq!(cell.notify(), None);
    assert_eq!(cell.wait_with(1), None);
    assert_eq!(cell.wait_with(2), Some(1));
    assert_eq!(cell.notify(), Some(2));
    assert_eq!(cell.notify(), None);
    assert_eq!(cell.wait_with(3), None);
    assert!(!cell.is_rx_closed());
    assert_eq!(cell.close_tx(), Some(3));
    assert!(!cell.is_rx_closed());
    cell.close_rx();
    assert!(cell.is_rx_closed());
}

fn place(wait: StartWait<u32>) -> usize {
    match wait {
        StartWait::Wait(key) => key,
        other => panic!("{:?}", other),
    }
}

#[test]
fn queue_notifies_in_order() {
    let mut queue = WaitQueue::new();
    let a = place(queue.start_wait(1));
    let b = place(queue.start_wait(2));
    assert_ne!(a, b);
    assert_eq!(queue.notify(), Some(1));
    assert!(matches!(queue.continue_wait(b, 22), ContinueWait::Wait(Some(2))));
    assert!(matches!(queue.continue_wait(a, 11), ContinueWait::Notified(11)));
    assert_eq!(queue.notify(), Some(22));
    assert!(matches!(queue.continue_wait(b, 2), ContinueWait::Notified(2)));
}

#[test]
fn queue_keeps_one_notification() {
    let mut queue = WaitQueue::new();
    assert_eq!(queue.notify(), None);
    assert_eq!(queue.notify(), None);
    assert!(matches!(queue.start_wait(1), StartWait::Notified(1)));
    place(queue.start_wait(1));
    assert_eq!(queue.notify(), Some(1));
}

#[test]
fn queue_does_not_use_a_key_twice() {
    let mut queue = WaitQueue::new();
    let a = place(queue.start_wait(1));
    let b = place(queue.start_wait(2));
    assert_eq!(queue.notify(), Some(1));
    let c = place(queue.start_wait(3));
    assert_ne!(c, a);
    assert_ne!(c, b);
    assert_eq!(queue.remove(a), None);
    assert_eq!(queue.remove(b), Some(2));
    assert_eq!(queue.remove(b), None);
    let d = place(queue.start_wait(4));
    assert_ne!(c, d);
    assert_eq!(queue.notify(), Some(3));
    assert_eq!(queue.notify(), Some(4));
}

#[test]
fn closed_queue_lets_nobody_wait() {
    let mut queue = WaitQueue::new();
    let a = place(queue.start_wait(1));
    place(queue.start_wait(2));
    place(queue.start_wait(3));
    assert_eq!(queue.notify(), Some(1));
    assert_eq!(queue.close(), VecDeque::from(vec![2, 3]));
    assert!(matches!(queue.start_wait(4), StartWait::Closed(4)));
    assert!(matches!(queue.continue_wait(a, 1), ContinueWait::Closed(1)));
    assert_eq!(queue.notify(), None);
    assert!(matches!(queue.start_wait(4), StartWait::Closed(4)));
}

struct Bell(usize, Arc<AtomicUsize>);

impl Notify for Bell {
    fn notify(self) {
        let rung = self.1.load(Ordering::SeqCst);
        self.1.store(rung * 10 + self.0, Ordering::SeqCst);
    }
}

#[test]
fn everybody_is_woken_in_order() {
    let rung = Arc::new(AtomicUsize::new(0));
    notify_one::<Bell>(None);
    notify_one(Some(Bell(1, rung.clone())));
    notify_all(VecDeque::from(vec![
        Bell(2, rung.clone()),
        Bell(3, rung.clone()),
        Bell(4, rung.clone()),
    ]));
    assert_eq!(rung.load(Ordering::SeqCst), 1234);
}
