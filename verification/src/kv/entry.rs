//! A stored value with its creation time and optional expiry time.
use vstd::prelude::*;
use crate::kv::value::{Value, ValueView};

verus! {

/// Reads the system clock, as std's `SystemTime::now`, in whole milliseconds since the Unix
/// epoch (0 for a clock set before it). Nothing is claimed of the reading: it depends on the
/// clock.
#[verifier::external_body]
pub(crate) fn clock_millis() -> (r: u64) {
    match std::time::SystemTime::now().duration_since(std::time::UNIX_EPOCH) {
        Ok(d) => u64::try_from(d.as_millis()).unwrap_or(u64::MAX),
        Err(_) => 0,
    }
}

/// `a + b`, or `u64::MAX` when the sum does not fit.
pub open spec fn add_capped(a: u64, b: u64) -> u64 {
    if a + b > u64::MAX {
        u64::MAX
    } else {
        (a + b) as u64
    }
}

/// `a - b`, or 0 when `b` is larger.
pub open spec fn sub_floored(a: u64, b: u64) -> u64 {
    if a < b {
        0
    } else {
        (a - b) as u64
    }
}

/// A value with its creation time and, when it has a time to live, its expiry time, in
/// milliseconds.
#[derive(Debug)]
pub struct Entry {
    pub value: Value,
    pub created_at: u64,
    pub expires_at: Option<u64>,
}

/// The content of an entry.
pub struct EntryView {
    pub value: ValueView,
    pub created_at: u64,
    pub expires_at: Option<u64>,
}

impl View for Entry {
    type V = EntryView;

    open spec fn view(&self) -> EntryView {
        EntryView { value: self.value@, created_at: self.created_at, expires_at: self.expires_at }
    }
}

/// Whether an entry has expired at `now`: it has an expiry time earlier than `now`.
pub open spec fn expired_at(e: EntryView, now: u64) -> bool {
    e.expires_at matches Some(t) && t < now
}

impl Clone for Entry {
    /// A copy with the same content.
    fn clone(&self) -> (r: Self)
        ensures
            r@ == self@,
    {
        Entry { value: self.value.clone(), created_at: self.created_at, expires_at: self.expires_at }
    }
}

impl Entry {
    /// An entry created at `now`, expiring `ttl_millis` later when a time to live is given.
    pub fn new_at(value: Value, ttl_millis: Option<u64>, now: u64) -> (r: Self)
        ensures
            r.value == value,
            r.created_at == now,
            r.expires_at == (match ttl_millis {
                Some(d) => Some(add_capped(now, d)),
                None => None,
            }),
    {
        let expires_at = match ttl_millis {
            Some(d) => Some(now.saturating_add(d)),
            None => None,
        };
        Entry { value, created_at: now, expires_at }
    }

    /// An entry created at the current time, expiring `ttl_millis` later when a time to
    /// live is given.
    pub fn new(value: Value, ttl_millis: Option<u64>) -> (r: Self)
        ensures
            r.value == value,
            r.expires_at == (match ttl_millis {
                Some(d) => Some(add_capped(r.created_at, d)),
                None => None,
            }),
    {
        Self::new_at(value, ttl_millis, clock_millis())
    }

    /// Whether the entry has an expiry time earlier than `now`.
    pub fn is_expired_at(&self, now: u64) -> (b: bool)
        ensures
            b == expired_at(self@, now),
    {
        match self.expires_at {
            Some(t) => t < now,
            None => false,
        }
    }

    /// Whether the entry has expired at the current time.
    pub fn is_expired(&self) -> (b: bool)
        ensures
            exists|now: u64| b == expired_at(self@, now),
            self.expires_at.is_none() ==> !b,
    {
        let now = clock_millis();
        let b = self.is_expired_at(now);
        assert(b == expired_at(self@, now));
        b
    }

    /// The milliseconds from creation to `now` (0 if `now` is earlier).
    pub fn age_at(&self, now: u64) -> (r: u64)
        ensures
            r == sub_floored(now, self.created_at),
    {
        now.saturating_sub(self.created_at)
    }

    /// The milliseconds since creation at the current time, as `age_at` gives them for the
    /// clock's reading.
    pub fn age(&self) -> (r: u64)
        ensures
            exists|now: u64| r == sub_floored(now, self.created_at),
    {
        let now = clock_millis();
        self.age_at(now)
    }
}

} // verus!
