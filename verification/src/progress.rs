//! The progress throttler: a gate in time that lets one notification through
//! per interval, and the last one always.

use std::time::{Duration, Instant};
use vstd::prelude::*;

verus! {

/// Interval between two notifications that sessions use, in milliseconds.
pub const PROGRESS_UPDATE_INTERVAL_MS: u64 = 500;

/// A moment on the monotonic clock of std.
#[verifier::external_type_specification]
#[verifier::external_body]
pub struct ExInstant(Instant);

/// `Instant::now` of std: the moment now. Nothing is said of it.
pub assume_specification[ Instant::now ]() -> Instant;

/// `Instant::elapsed` of std: the time since the moment. Nothing is said of it.
pub assume_specification[ Instant::elapsed ](moment: &Instant) -> Duration;

/// `Duration::as_millis` of std: the whole milliseconds of a duration. Nothing
/// is said of them.
pub assume_specification[ Duration::as_millis ](duration: &Duration) -> u128;

/// What a throttler holds, as plain values: when it last let a notification
/// through, in milliseconds on its own clock; the interval; and the two
/// numbers of that notification.
pub struct ThrottlerView {
    pub last_update_ms: u64,
    pub update_interval_ms: u64,
    pub last_bytes_processed: usize,
    pub last_bytes_transferred: usize,
}

/// Milliseconds from `earlier` to `now`; none where the clock went back.
pub open spec fn elapsed_ms(earlier: u64, now: u64) -> nat {
    if now >= earlier {
        (now - earlier) as nat
    } else {
        0
    }
}

/// Whether a notification is due: the interval has passed since the last one,
/// or this is the last one, with all bytes processed.
pub open spec fn update_due(
    state: ThrottlerView,
    now_ms: u64,
    bytes_processed: usize,
    total_bytes: usize,
) -> bool {
    elapsed_ms(state.last_update_ms, now_ms) >= state.update_interval_ms || bytes_processed
        == total_bytes
}

/// Lets at most one progress notification through per interval.
pub struct ProgressThrottler {
    origin: Instant,
    last_update_ms: u64,
    update_interval_ms: u64,
    last_bytes_processed: usize,
    last_bytes_transferred: usize,
}

/// A count of milliseconds as a `u64`: itself where it fits, the largest
/// `u64` where it does not.
pub fn clamp_millis(millis: u128) -> (clamped: u64)
    ensures
        clamped == if millis > u64::MAX {
            u64::MAX as int
        } else {
            millis as int
        },
{
    if millis > 0xFFFF_FFFF_FFFF_FFFF {
        0xFFFF_FFFF_FFFF_FFFF
    } else {
        millis as u64
    }
}

impl ProgressThrottler {
    /// What the throttler holds.
    pub closed spec fn view(&self) -> ThrottlerView {
        ThrottlerView {
            last_update_ms: self.last_update_ms,
            update_interval_ms: self.update_interval_ms,
            last_bytes_processed: self.last_bytes_processed,
            last_bytes_transferred: self.last_bytes_transferred,
        }
    }

    /// A throttler whose clock starts now and whose last notification counts
    /// as made now.
    pub fn new(interval_ms: u64) -> (throttler: Self)
        ensures
            throttler@ == (ThrottlerView {
                last_update_ms: 0,
                update_interval_ms: interval_ms,
                last_bytes_processed: 0,
                last_bytes_transferred: 0,
            }),
    {
        ProgressThrottler {
            origin: Instant::now(),
            last_update_ms: 0,
            update_interval_ms: interval_ms,
            last_bytes_processed: 0,
            last_bytes_transferred: 0,
        }
    }

    /// The interval, in milliseconds.
    pub fn interval_ms(&self) -> (interval: u64)
        ensures
            interval == self@.update_interval_ms,
    {
        self.update_interval_ms
    }

    /// Milliseconds since the throttler was made, by the clock of std, held
    /// at the largest `u64` where they exceed it. Which moment the clock
    /// shows is not known ahead.
    pub fn clock_ms(&self) -> (now_ms: u64) {
        clamp_millis(self.origin.elapsed().as_millis())
    }

    /// Decides, at the moment `now_ms` of the throttler's clock, whether
    /// progress is to be reported: only when the interval has passed since the
    /// last report, or when all bytes are processed. A report is recorded as
    /// the last one.
    pub fn should_update_at(&mut self, now_ms: u64, bytes_processed: usize, total_bytes: usize) -> (due:
        bool)
        ensures
            due == update_due(old(self)@, now_ms, bytes_processed, total_bytes),
            due ==> elapsed_ms(old(self)@.last_update_ms, now_ms) >= old(self)@.update_interval_ms
                || bytes_processed == total_bytes,
            final(self)@ == if due {
                ThrottlerView {
                    last_update_ms: now_ms,
                    update_interval_ms: old(self)@.update_interval_ms,
                    last_bytes_processed: bytes_processed,
                    last_bytes_transferred: total_bytes,
                }
            } else {
                old(self)@
            },
    {
        let elapsed: u64 = if now_ms >= self.last_update_ms {
            now_ms - self.last_update_ms
        } else {
            0
        };
        let due = elapsed >= self.update_interval_ms || bytes_processed == total_bytes;
        if due {
            self.last_update_ms = now_ms;
            self.last_bytes_processed = bytes_processed;
            self.last_bytes_transferred = total_bytes;
        }
        due
    }

    /// Decides now whether progress is to be reported, as
    /// [`Self::should_update_at`] does at the moment that the clock shows.
    pub fn should_update(&mut self, bytes_processed: usize, total_bytes: usize) -> (due: bool)
        ensures
            exists|now_ms: u64|
                due == update_due(old(self)@, now_ms, bytes_processed, total_bytes)
                    && final(self)@ == if due {
                    ThrottlerView {
                        last_update_ms: now_ms,
                        update_interval_ms: old(self)@.update_interval_ms,
                        last_bytes_processed: bytes_processed,
                        last_bytes_transferred: total_bytes,
                    }
                } else {
                    old(self)@
                },
            bytes_processed == total_bytes ==> due,
            !due ==> final(self)@ == old(self)@,
    {
        let now_ms = self.clock_ms();
        self.should_update_at(now_ms, bytes_processed, total_bytes)
    }
}

} // verus!
