//! A bounded, multi-producer, single-consumer channel whose messages live in
//! reusable slots.
//!
//! [`ThingBuf`] is the bounded buffer of slots. [`wait`] holds what a task that
//! has to wait leaves behind. [`mpsc`] puts the two together: its `Inner` is the
//! channel as one value, and `Sender` and `Receiver` are the handles that share
//! it.
pub mod mpsc;
pub mod thingbuf;
pub mod wait;

pub use crate::thingbuf::{Ref, ThingBuf};
