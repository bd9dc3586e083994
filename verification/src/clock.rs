//! The clock, the calendar and the source of fresh identities.

use std::fmt::Write;
use vstd::prelude::*;

verus! {

/// An instant: whole seconds since 1970-01-01 00:00:00 UTC and the
/// nanoseconds into that second.
#[derive(Clone, Copy, PartialEq, Eq, Structural, Debug)]
pub struct Timestamp {
    pub secs: i64,
    pub nanos: u32,
}

/// The text that the calendar gives for an instant under a `strftime`
/// pattern, or `None` where the instant is outside the calendar's range or
/// the pattern is not one it can write.
pub uninterp spec fn formatted_instant(secs: i64, nanos: u32, pattern: Seq<char>) -> Option<Seq<char>>;

/// `chrono::Utc::now`, taken apart into `DateTime::timestamp` and
/// `DateTime::timestamp_subsec_nanos`. Nothing is claimed of the reading.
/// The call does not return where the system's clock stands before 1970.
#[verifier::external_body]
pub(crate) fn system_now() -> (t: Timestamp) {
    let now = chrono::Utc::now();
    Timestamp { secs: now.timestamp(), nanos: now.timestamp_subsec_nanos() }
}

/// `chrono::DateTime::from_timestamp` followed by `DateTime::format`, written
/// into a string. The claim is only that the outcome is the same for the same
/// instant and pattern; `None` stands for an instant that `from_timestamp`
/// refuses or a pattern that the formatter reports as an error.
#[verifier::external_body]
pub(crate) fn format_instant(t: Timestamp, pattern: &str) -> (r: Option<String>)
    ensures
        match r {
            Some(s) => formatted_instant(t.secs, t.nanos, pattern@) == Some(s@),
            None => formatted_instant(t.secs, t.nanos, pattern@) is None,
        },
{
    let moment = chrono::DateTime::from_timestamp(t.secs, t.nanos)?;
    let mut out = String::new();
    match write!(out, "{}", moment.format(pattern)) {
        Ok(()) => Some(out),
        Err(_) => None,
    }
}

/// `uuid::Uuid::new_v4` written out with `to_string`: the hyphenated form,
/// which always has 36 characters. Nothing else is claimed of the value.
/// The call does not return where the system has no random numbers to give.
#[verifier::external_body]
pub(crate) fn random_id() -> (id: String)
    ensures
        id@.len() == 36,
{
    uuid::Uuid::new_v4().to_string()
}

impl Timestamp {
    /// `self` is not earlier than `other`.
    pub open spec fn at_or_after(self, other: Timestamp) -> bool {
        self.secs > other.secs || (self.secs == other.secs && self.nanos >= other.nanos)
    }

    /// The later of the two instants, `self` where they are equal.
    pub open spec fn later(self, other: Timestamp) -> Timestamp {
        if self.at_or_after(other) {
            self
        } else {
            other
        }
    }

    /// Decides whether `self` is not earlier than `other`.
    pub fn is_at_or_after(&self, other: &Timestamp) -> (b: bool)
        ensures
            b == self.at_or_after(*other),
    {
        self.secs > other.secs || (self.secs == other.secs && self.nanos >= other.nanos)
    }

    /// The later of the two instants.
    pub fn later_of(self, other: Timestamp) -> (t: Timestamp)
        ensures
            t == self.later(other),
    {
        if self.is_at_or_after(&other) {
            self
        } else {
            other
        }
    }
}

/// The text for an instant under a pattern, empty where the calendar gives
/// none.
pub open spec fn stamp(t: Timestamp, pattern: Seq<char>) -> Seq<char> {
    match formatted_instant(t.secs, t.nanos, pattern) {
        Some(s) => s,
        None => Seq::empty(),
    }
}

/// Writes the instant under a `strftime` pattern; the text is empty where the
/// calendar cannot write it.
pub fn stamp_text(t: Timestamp, pattern: &str) -> (r: String)
    ensures
        r@ == stamp(t, pattern@),
{
    match format_instant(t, pattern) {
        Some(s) => s,
        None => String::new(),
    }
}

/// Ordering instants by `at_or_after` is total and transitive, so a value
/// that only ever moves to `later` never moves back.
pub proof fn lemma_later_is_monotone(a: Timestamp, b: Timestamp, c: Timestamp)
    ensures
        a.later(b).at_or_after(a),
        a.later(b).at_or_after(b),
        a.at_or_after(a),
        a.at_or_after(b) || b.at_or_after(a),
        a.at_or_after(b) && b.at_or_after(c) ==> a.at_or_after(c),
{
}

} // verus!
