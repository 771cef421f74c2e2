//! The cell in which the consumer waits.
use vstd::prelude::*;

verus! {

/// The place of the one consumer of a channel: the task that it last waited in,
/// and which ends of the channel are gone.
#[derive(Debug)]
pub struct WaitCell<N> {
    /// The task to wake when there is something to receive.
    pub waiter: Option<N>,
    /// Whether the producers are gone.
    pub tx_closed: bool,
    /// Whether the consumer is gone.
    pub rx_closed: bool,
}

impl<N> WaitCell<N> {
    /// A cell in which nobody waits.
    pub fn new() -> (r: Self)
        ensures
            r == (WaitCell::<N> { waiter: None, tx_closed: false, rx_closed: false }),
    {
        WaitCell { waiter: None, tx_closed: false, rx_closed: false }
    }

    /// Makes `waiter` the task that waits, in place of the one returned.
    pub fn wait_with(&mut self, waiter: N) -> (r: Option<N>)
        ensures
            r == old(self).waiter,
            *final(self) == (WaitCell { waiter: Some(waiter), ..*old(self) }),
    {
        let replaced = self.waiter.take();
        self.waiter = Some(waiter);
        replaced
    }

    /// Hands out the task that waits, to be woken.
    pub fn notify(&mut self) -> (r: Option<N>)
        ensures
            r == old(self).waiter,
            *final(self) == (WaitCell { waiter: None, ..*old(self) }),
    {
        self.waiter.take()
    }

    /// Notes that the producers are gone, and hands out the task that waits, to
    /// be woken.
    pub fn close_tx(&mut self) -> (r: Option<N>)
        ensures
            r == old(self).waiter,
            *final(self) == (WaitCell { waiter: None, tx_closed: true, ..*old(self) }),
    {
        self.tx_closed = true;
        self.waiter.take()
    }

    /// Notes that the consumer is gone.
    pub fn close_rx(&mut self)
        ensures
            *final(self) == (WaitCell { rx_closed: true, ..*old(self) }),
    {
        self.rx_closed = true;
    }

    /// Whether the consumer is gone.
    pub fn is_rx_closed(&self) -> (r: bool)
        ensures
            r == self.rx_closed,
    {
        self.rx_closed
    }
}

} // verus!
