//! Declarations for the outside world the engine lives with: the random
//! number source, the command queue, the snapshot slot, and time. Verus
//! believes the contracts stated here; each declaration names the outside
//! item it relies on.
use vstd::prelude::*;

verus! {

/// Relies on rand::random: draws a value from the thread-local generator.
/// Nothing can be promised of a random value.
pub assume_specification<T>[ rand::random::<T> ]() -> (r: T)
    where
        rand::distributions::Standard: rand::distributions::Distribution<T>,
;

/// An opaque monotonic timestamp.
#[verifier::external_type_specification]
#[verifier::external_body]
pub struct ExInstant(std::time::Instant);

/// Relies on std::time::Instant::now: the monotonic clock, an opaque value.
#[verifier::external_body]
pub fn instant_now() -> std::time::Instant {
    std::time::Instant::now()
}

/// Relies on std::time::Instant::elapsed: the wall time since `since`, here
/// in microseconds. The value depends on the clock, so nothing is promised
/// of it.
#[verifier::external_body]
pub fn elapsed_micros(since: &std::time::Instant) -> u64 {
    since.elapsed().as_micros() as u64
}

/// Relies on spin_sleep::sleep: puts the current thread to sleep for the
/// duration, spinning near the end for accuracy.
#[verifier::external_body]
pub fn sleep_micros(micros: u64) {
    spin_sleep::sleep(std::time::Duration::from_micros(micros));
}

/// The receiving half of the unbounded command queue.
#[verifier::external_type_specification]
#[verifier::external_body]
#[verifier::reject_recursive_types(T)]
pub struct ExReceiver<T>(crossbeam_channel::Receiver<T>);

/// Relies on crossbeam_channel::Receiver::try_recv: a pending message in
/// arrival order, or nothing when the queue is empty or disconnected. What
/// arrives depends on the other threads, so nothing is promised of it.
#[verifier::external_body]
pub fn try_next<T>(r: &crossbeam_channel::Receiver<T>) -> Option<T> {
    match r.try_recv() {
        Ok(v) => Some(v),
        Err(_) => None,
    }
}

/// The writing half of the single-slot latest-value snapshot channel.
#[verifier::external_type_specification]
#[verifier::external_body]
#[verifier::reject_recursive_types(T)]
pub struct ExUpdater<T>(single_value_channel::Updater<T>);

/// Relies on single_value_channel::Updater::update: overwrites the slot with
/// the newest value without blocking; fails only when the receiver is gone.
#[verifier::external_body]
pub fn publish<T>(u: &single_value_channel::Updater<T>, value: T) -> bool {
    u.update(value).is_ok()
}

} // verus!
