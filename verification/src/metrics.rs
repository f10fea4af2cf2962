//! Counters of the relay.
//!
//! Response times are kept in nanoseconds, and only the latest
//! `MAX_RESPONSE_TIMES` of them. Errors are counted by type in a list in
//! which each type occurs once.

use crate::text::str_eq;
use std::time::{Duration, Instant};
use vstd::prelude::*;

verus! {

/// The number of response times that are kept.
pub const MAX_RESPONSE_TIMES: usize = 1000;

/// A point in time of the monotonic clock.
#[verifier::external_type_specification]
#[verifier::external_body]
pub struct ExInstant(Instant);

/// `Instant::now` reads the clock: nothing is said of the result.
pub assume_specification[ Instant::now ]() -> (r: Instant)
;

/// `Instant::elapsed` reads the clock: nothing is said of the result.
pub assume_specification[ Instant::elapsed ](start: &Instant) -> (r: Duration)
;

/// Metrics collection for the relay.
#[derive(Debug)]
pub struct Metrics {
    pub connections_total: u64,
    pub connections_active: u64,
    pub emails_sent_total: u64,
    pub emails_failed_total: u64,
    pub bytes_processed_total: u64,
    /// The latest response times, oldest first, in nanoseconds.
    pub response_times: Vec<u64>,
    /// The number of errors of each type.
    pub errors_by_type: Vec<(String, u64)>,
    pub uptime_start: Option<Instant>,
}

/// The count that a list of entries holds for `key`: that of the first
/// entry with this key, or zero.
pub open spec fn count_in(entries: Seq<(String, u64)>, key: Seq<char>) -> nat
    decreases entries.len(),
{
    if entries.len() == 0 {
        0
    } else if entries[0].0@ == key {
        entries[0].1 as nat
    } else {
        count_in(entries.drop_first(), key)
    }
}

/// Whether no key occurs twice in a list of entries.
pub open spec fn keys_unique(entries: Seq<(String, u64)>) -> bool {
    forall|i: int, j: int|
        0 <= i < j < entries.len() ==> (#[trigger] entries[i]).0@ != (#[trigger] entries[j]).0@
}

/// The sum of a list of numbers.
pub open spec fn sum_of(values: Seq<u64>) -> nat
    decreases values.len(),
{
    if values.len() == 0 {
        0
    } else {
        sum_of(values.drop_last()) + values.last() as nat
    }
}

/// Replacing the first entry for a key changes the count of that key and
/// of no other.
proof fn lemma_count_after_update(
    entries: Seq<(String, u64)>,
    i: int,
    entry: (String, u64),
    key: Seq<char>,
)
    requires
        0 <= i < entries.len(),
        entries[i].0@ == entry.0@,
        forall|j: int| 0 <= j < i ==> entries[j].0@ != entry.0@,
    ensures
        count_in(entries.update(i, entry), key) == if key == entry.0@ {
            entry.1 as nat
        } else {
            count_in(entries, key)
        },
    decreases i,
{
    let updated = entries.update(i, entry);
    if i > 0 {
        assert(updated.drop_first() =~= entries.drop_first().update(i - 1, entry));
        assert(entries[0].0@ != entry.0@);
        lemma_count_after_update(entries.drop_first(), i - 1, entry, key);
    } else {
        assert(updated.drop_first() =~= entries.drop_first());
    }
}

/// The count of a key is that of the first entry that has it.
proof fn lemma_count_at_first(entries: Seq<(String, u64)>, i: int, key: Seq<char>)
    requires
        0 <= i < entries.len(),
        entries[i].0@ == key,
        forall|j: int| 0 <= j < i ==> entries[j].0@ != key,
    ensures
        count_in(entries, key) == entries[i].1,
    decreases i,
{
    if i > 0 {
        assert(entries[0].0@ != key);
        assert forall|j: int| 0 <= j < i - 1 implies entries.drop_first()[j].0@ != key by {
            assert(entries.drop_first()[j] == entries[j + 1]);
        }
        lemma_count_at_first(entries.drop_first(), i - 1, key);
    }
}

/// Adding an entry for a key that has none sets the count of that key and
/// changes no other.
proof fn lemma_count_after_push(entries: Seq<(String, u64)>, entry: (String, u64), key: Seq<char>)
    requires
        forall|j: int| 0 <= j < entries.len() ==> entries[j].0@ != entry.0@,
    ensures
        count_in(entries.push(entry), key) == if key == entry.0@ {
            entry.1 as nat
        } else {
            count_in(entries, key)
        },
        count_in(entries, entry.0@) == 0,
    decreases entries.len(),
{
    let pushed = entries.push(entry);
    if entries.len() > 0 {
        assert(pushed.drop_first() =~= entries.drop_first().push(entry));
        assert(pushed[0] == entries[0]);
        assert(entries[0].0@ != entry.0@);
        assert forall|j: int| 0 <= j < entries.drop_first().len() implies entries.drop_first()[j].0@
            != entry.0@ by {
            assert(entries.drop_first()[j] == entries[j + 1]);
        }
        lemma_count_after_push(entries.drop_first(), entry, key);
    } else {
        assert(pushed.drop_first() =~= Seq::<(String, u64)>::empty());
        assert(pushed[0] == entry);
        assert(count_in(pushed.drop_first(), key) == 0);
    }
}

/// A sum of `u64` values is at most their number times the largest `u64`.
proof fn lemma_sum_bound(values: Seq<u64>)
    ensures
        sum_of(values) <= values.len() * u64::MAX,
    decreases values.len(),
{
    if values.len() > 0 {
        lemma_sum_bound(values.drop_last());
        assert((values.len() - 1) * u64::MAX + u64::MAX == values.len() * u64::MAX)
            by (nonlinear_arith);
    }
}

impl Default for Metrics {
    /// Metrics with all counters at zero and no start recorded.
    fn default() -> (m: Self)
        ensures
            m.connections_total == 0,
            m.connections_active == 0,
            m.emails_sent_total == 0,
            m.emails_failed_total == 0,
            m.bytes_processed_total == 0,
            m.response_times@.len() == 0,
            m.errors_by_type@.len() == 0,
            m.uptime_start is None,
            m.wf(),
    {
        Metrics {
            connections_total: 0,
            connections_active: 0,
            emails_sent_total: 0,
            emails_failed_total: 0,
            bytes_processed_total: 0,
            response_times: Vec::new(),
            errors_by_type: Vec::new(),
            uptime_start: None,
        }
    }
}

impl Metrics {
    /// The number of errors counted for `error_type`.
    pub open spec fn error_count(&self, error_type: Seq<char>) -> nat {
        count_in(self.errors_by_type@, error_type)
    }

    /// The invariant of the metrics: at most `MAX_RESPONSE_TIMES` response
    /// times are kept, and no error type is listed twice.
    pub open spec fn wf(&self) -> bool {
        &&& self.response_times@.len() <= MAX_RESPONSE_TIMES
        &&& keys_unique(self.errors_by_type@)
    }

    /// The average of the response times that are kept, rounded down, if
    /// there is any.
    pub open spec fn average_response_time(&self) -> Option<u64> {
        if self.response_times@.len() == 0 {
            None
        } else {
            Some((sum_of(self.response_times@) / self.response_times@.len()) as u64)
        }
    }

    /// Creates metrics with all counters at zero, as of now.
    pub fn new() -> (m: Self)
        ensures
            m.connections_total == 0,
            m.connections_active == 0,
            m.emails_sent_total == 0,
            m.emails_failed_total == 0,
            m.bytes_processed_total == 0,
            m.response_times@.len() == 0,
            m.errors_by_type@.len() == 0,
            m.uptime_start is Some,
            m.wf(),
    {
        Metrics {
            connections_total: 0,
            connections_active: 0,
            emails_sent_total: 0,
            emails_failed_total: 0,
            bytes_processed_total: 0,
            response_times: Vec::new(),
            errors_by_type: Vec::new(),
            uptime_start: Some(Instant::now()),
        }
    }

    /// Counts a connection that opened.
    pub fn increment_connections(&mut self)
        requires
            old(self).connections_total < u64::MAX,
            old(self).connections_active < u64::MAX,
        ensures
            *final(self) == (Metrics {
                connections_total: (old(self).connections_total + 1) as u64,
                connections_active: (old(self).connections_active + 1) as u64,
                ..*old(self)
            }),
    {
        self.connections_total += 1;
        self.connections_active += 1;
    }

    /// Counts a connection that closed. The count of active connections
    /// never goes below zero.
    pub fn decrement_active_connections(&mut self)
        ensures
            *final(self) == (Metrics {
                connections_active: if old(self).connections_active > 0 {
                    (old(self).connections_active - 1) as u64
                } else {
                    0
                },
                ..*old(self)
            }),
    {
        if self.connections_active > 0 {
            self.connections_active -= 1;
        }
    }

    /// Counts a message that was relayed.
    pub fn increment_emails_sent(&mut self)
        requires
            old(self).emails_sent_total < u64::MAX,
        ensures
            *final(self) == (Metrics {
                emails_sent_total: (old(self).emails_sent_total + 1) as u64,
                ..*old(self)
            }),
    {
        self.emails_sent_total += 1;
    }

    /// Counts a message that could not be relayed.
    pub fn increment_emails_failed(&mut self)
        requires
            old(self).emails_failed_total < u64::MAX,
        ensures
            *final(self) == (Metrics {
                emails_failed_total: (old(self).emails_failed_total + 1) as u64,
                ..*old(self)
            }),
    {
        self.emails_failed_total += 1;
    }

    /// Adds to the number of bytes processed.
    pub fn add_bytes_processed(&mut self, bytes: u64)
        requires
            old(self).bytes_processed_total + bytes <= u64::MAX,
        ensures
            *final(self) == (Metrics {
                bytes_processed_total: (old(self).bytes_processed_total + bytes) as u64,
                ..*old(self)
            }),
    {
        self.bytes_processed_total += bytes;
    }

    /// Records a response time, in nanoseconds. Where `MAX_RESPONSE_TIMES`
    /// are kept already, the oldest makes room.
    pub fn record_response_time(&mut self, nanos: u64)
        ensures
            final(self).response_times@ == (if old(self).response_times@.len()
                >= MAX_RESPONSE_TIMES {
                old(self).response_times@.drop_first()
            } else {
                old(self).response_times@
            }).push(nanos),
            *final(self) == (Metrics {
                response_times: final(self).response_times,
                ..*old(self)
            }),
            old(self).wf() ==> final(self).wf(),
    {
        if self.response_times.len() >= MAX_RESPONSE_TIMES {
            self.response_times.remove(0);
            assert(self.response_times@ =~= old(self).response_times@.drop_first());
        }
        self.response_times.push(nanos);
    }

    /// Counts an error of the given type.
    pub fn increment_error(&mut self, error_type: &str)
        requires
            old(self).error_count(error_type@) < u64::MAX,
        ensures
            forall|key: Seq<char>|
                final(self).error_count(key) == old(self).error_count(key) + (if key
                    == error_type@ {
                    1nat
                } else {
                    0nat
                }),
            *final(self) == (Metrics {
                errors_by_type: final(self).errors_by_type,
                ..*old(self)
            }),
            old(self).wf() ==> final(self).wf(),
    {
        let n = self.errors_by_type.len();
        let mut i: usize = 0;
        while i < n && !str_eq(self.errors_by_type[i].0.as_str(), error_type)
            invariant
                i <= n == self.errors_by_type@.len(),
                *self == *old(self),
                forall|j: int| 0 <= j < i ==> self.errors_by_type@[j].0@ != error_type@,
            decreases n - i,
        {
            i += 1;
        }
        if i < n {
            proof {
                lemma_count_at_first(self.errors_by_type@, i as int, error_type@);
            }
            let count = self.errors_by_type[i].1;
            let entry = (String::from_str(error_type), count + 1);
            proof {
                assert forall|key: Seq<char>|
                    count_in(old(self).errors_by_type@.update(i as int, entry), key)
                        == old(self).error_count(key) + (if key == error_type@ {
                        1nat
                    } else {
                        0nat
                    }) by {
                    lemma_count_after_update(old(self).errors_by_type@, i as int, entry, key);
                }
            }
            self.errors_by_type.set(i, entry);
        } else {
            let entry = (String::from_str(error_type), 1u64);
            proof {
                assert forall|key: Seq<char>|
                    count_in(old(self).errors_by_type@.push(entry), key) == old(self).error_count(
                        key,
                    ) + (if key == error_type@ {
                        1nat
                    } else {
                        0nat
                    }) by {
                    lemma_count_after_push(old(self).errors_by_type@, entry, key);
                }
            }
            self.errors_by_type.push(entry);
        }
    }

    /// The average of the response times that are kept, in nanoseconds and
    /// rounded down; `None` if there is no response time.
    pub fn get_average_response_time(&self) -> (r: Option<u64>)
        ensures
            r == self.average_response_time(),
    {
        let n = self.response_times.len();
        if n == 0 {
            return None;
        }
        let mut total: u128 = 0;
        let mut i: usize = 0;
        while i < n
            invariant
                i <= n == self.response_times@.len(),
                total == sum_of(self.response_times@.take(i as int)),
            decreases n - i,
        {
            proof {
                let next = self.response_times@.take(i as int + 1);
                assert(next.drop_last() =~= self.response_times@.take(i as int));
                lemma_sum_bound(next);
                assert(next.len() * u64::MAX <= u64::MAX * u64::MAX) by (nonlinear_arith)
                    requires
                        next.len() <= u64::MAX,
                ;
            }
            total = total + self.response_times[i] as u128;
            i += 1;
        }
        proof {
            assert(self.response_times@.take(n as int) =~= self.response_times@);
            lemma_sum_bound(self.response_times@);
            assert(total / (n as u128) <= u64::MAX) by (nonlinear_arith)
                requires
                    total <= n * u64::MAX,
                    n > 0,
            ;
        }
        Some((total / (n as u128)) as u64)
    }

    /// The time since the metrics were created, if the start was recorded.
    pub fn get_uptime(&self) -> (r: Option<Duration>)
        ensures
            r is Some <==> self.uptime_start is Some,
    {
        match &self.uptime_start {
            Some(start) => Some(start.elapsed()),
            None => None,
        }
    }
}

} // verus!
