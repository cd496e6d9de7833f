//! Small shared utilities: the byte-serialization capability and the
//! count-down timer that drives every protocol timeout.

use vstd::prelude::*;

use crate::error::{DeserializeError, SerializeError};

verus! {

/// What every wire-encodable record offers: encoding to bytes and decoding
/// back. The exact guarantees live on each type's inherent functions, which
/// these forward to.
pub trait AsBytes: Sized {
    fn into_bytes(&self) -> Result<Vec<u8>, SerializeError>;

    fn from_bytes(buf: &[u8]) -> Result<Self, DeserializeError>;
}

/// Relies on std's `SystemTime::now` and `duration_since`: milliseconds since
/// the Unix epoch, or zero when the clock reads earlier than the epoch.
/// Nothing is promised of the value.
#[verifier::external_body]
pub fn now_millis() -> (r: u64)
{
    match std::time::SystemTime::now().duration_since(std::time::UNIX_EPOCH) {
        Ok(duration) => duration.as_millis() as u64,
        Err(_) => 0,
    }
}

/// A count-down timer: armed at some instant, it expires once more than its
/// count-down value of milliseconds has passed. An unarmed timer never
/// expires.
#[derive(Debug, Clone)]
pub struct CasualTimer {
    last_seen: Option<u64>,
    counter: u64,
}

impl CasualTimer {
    /// The instant the timer was armed at, where it was.
    pub closed spec fn last_seen_spec(&self) -> Option<u64> {
        self.last_seen
    }

    /// The count-down value in milliseconds.
    pub closed spec fn counter_spec(&self) -> u64 {
        self.counter
    }

    /// Whether the timer, read at instant `now`, has expired: it is armed and
    /// strictly more than its count-down has passed. A clock that went
    /// backwards has not expired anything.
    pub open spec fn spec_timed_out_at(&self, now: u64) -> bool {
        match self.last_seen_spec() {
            Some(t) => t <= now && now - t > self.counter_spec(),
            None => false,
        }
    }

    /// A fresh, unarmed timer with the given count-down in milliseconds.
    pub fn new(counter: u64) -> (r: Self)
        ensures
            r.last_seen_spec() is None,
            r.counter_spec() == counter,
    {
        Self { last_seen: None, counter }
    }

    /// Arm the timer at the given instant.
    pub fn set_at(&mut self, now: u64)
        ensures
            final(self).last_seen_spec() == Some(now),
            final(self).counter_spec() == old(self).counter_spec(),
    {
        self.last_seen = Some(now);
    }

    /// Arm the timer at the current clock reading.
    pub fn set_now(&mut self)
        ensures
            final(self).last_seen_spec() is Some,
            final(self).counter_spec() == old(self).counter_spec(),
    {
        let now = now_millis();
        self.set_at(now);
    }

    /// Whether the timer has expired as of the given instant.
    pub fn is_timeout_at(&self, now: u64) -> (r: bool)
        ensures
            r == self.spec_timed_out_at(now),
    {
        match self.last_seen {
            Some(t) => t <= now && now - t > self.counter,
            None => false,
        }
    }

    /// Whether the timer has expired as of the current clock reading. An
    /// unarmed timer has not.
    pub fn is_timeout(&self) -> (r: bool)
        ensures
            self.last_seen_spec() is None ==> r == false,
            r ==> self.last_seen_spec() is Some,
    {
        let now = now_millis();
        self.is_timeout_at(now)
    }
}

/// Timeout liveness, the one-sided halves: a timer armed at `t` has, at any
/// instant within its count-down window, not expired; and at any later
/// instant it has.
pub proof fn lemma_timer_window(timer: CasualTimer, t: u64, now: u64)
    requires
        timer.last_seen_spec() == Some(t),
    ensures
        t <= now && now - t <= timer.counter_spec() ==> !timer.spec_timed_out_at(now),
        t <= now && now - t > timer.counter_spec() ==> timer.spec_timed_out_at(now),
{
}

} // verus!
