use std::sync::{Arc, Mutex};

use crossbeam::channel::{Receiver, Sender, TryRecvError};
use vstd::prelude::*;

verus! {

#[verifier::external_type_specification]
#[verifier::external_body]
#[verifier::reject_recursive_types(T)]
pub struct ExSender<T>(Sender<T>);

#[verifier::external_type_specification]
#[verifier::external_body]
#[verifier::reject_recursive_types(T)]
pub struct ExReceiver<T>(Receiver<T>);

#[verifier::external_type_specification]
#[verifier::external_body]
#[verifier::reject_recursive_types(T)]
pub struct ExMutex<T: ?Sized>(Mutex<T>);

pub assume_specification<T>[ <Sender<T> as Clone>::clone ](s: &Sender<T>) -> Sender<T>;

pub assume_specification<T>[ <Receiver<T> as Clone>::clone ](r: &Receiver<T>) -> Receiver<T>;

/// The largest capacity that `bounded` is asked for. A bounded channel
/// allocates all of its slots up front, and a slot array whose size in
/// bytes overflows `isize` makes the allocation panic; this bound keeps
/// clear of that for any message type of this library, on 32-bit targets
/// too, and lies far above the CPU count of any host.
pub const MAX_CAPACITY: usize = 1_048_576;

/// What a non-blocking receive found.
pub enum Polled<T> {
    /// A message was taken off the channel.
    Message(T),
    /// The channel holds no message now.
    Empty,
    /// The channel holds no message and every sender is gone.
    Disconnected,
}

/// Relies on num_cpus::get: the number of logical CPUs that this process may
/// use, which its documentation promises is at least one.
#[verifier::external_body]
pub(crate) fn available_parallelism() -> (n: usize)
    ensures
        n >= 1,
{
    num_cpus::get()
}

/// Relies on crossbeam's channel::bounded: a channel that holds at most `cap`
/// messages. It panics only for a capacity too large to allocate, which
/// `requires` leaves out.
#[verifier::external_body]
pub(crate) fn bounded<T>(cap: usize) -> (Sender<T>, Receiver<T>)
    requires
        1 <= cap <= MAX_CAPACITY,
{
    crossbeam::channel::bounded(cap)
}

/// Relies on crossbeam's Sender::try_send: sends without blocking, and fails
/// when the channel is full or its receivers are gone. Which of the two comes
/// out depends on other threads, so nothing is promised of it.
#[verifier::external_body]
pub(crate) fn try_send<T>(s: &Sender<T>, msg: T) -> (sent: bool) {
    s.try_send(msg).is_ok()
}

/// Relies on crossbeam's Sender::send: blocks until the channel has room, and
/// fails only when its receivers are gone.
#[verifier::external_body]
pub(crate) fn send<T>(s: &Sender<T>, msg: T) -> (sent: bool) {
    s.send(msg).is_ok()
}

/// Relies on crossbeam's Receiver::try_recv: takes a message if one is there,
/// without blocking, and tells an empty channel from one whose senders are gone.
#[verifier::external_body]
pub(crate) fn try_recv<T>(r: &Receiver<T>) -> Polled<T> {
    match r.try_recv() {
        Ok(msg) => Polled::Message(msg),
        Err(TryRecvError::Empty) => Polled::Empty,
        Err(TryRecvError::Disconnected) => Polled::Disconnected,
    }
}

/// Relies on std's Mutex::new: a lock that holds `v`.
#[verifier::external_body]
pub(crate) fn new_mutex<T>(v: T) -> Mutex<T> {
    Mutex::new(v)
}

/// Relies on std's Arc::clone: a second handle on the same shared value.
#[verifier::external_body]
pub(crate) fn share<T>(a: &Arc<T>) -> Arc<T> {
    Arc::clone(a)
}

/// Relies on std's Mutex::lock: copies out what the lock holds. A lock that a
/// panicking thread left poisoned is read all the same.
#[verifier::external_body]
pub(crate) fn read_locked<T: Copy>(m: &Arc<Mutex<T>>) -> T {
    match m.lock() {
        Ok(guard) => *guard,
        Err(poisoned) => *poisoned.into_inner(),
    }
}

/// Relies on std's Mutex::lock: replaces what the lock holds with `v`. A lock
/// that a panicking thread left poisoned is written all the same.
#[verifier::external_body]
pub(crate) fn write_locked<T>(m: &Arc<Mutex<T>>, v: T) {
    match m.lock() {
        Ok(mut guard) => *guard = v,
        Err(poisoned) => *poisoned.into_inner() = v,
    }
}

} // verus!
