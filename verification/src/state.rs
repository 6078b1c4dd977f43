//! The state that all handlers of one process share: when the process
//! started and how many jokes it has served since.

use vstd::prelude::*;

verus! {

/// The number of nanoseconds in a second.
pub const NANOS_PER_SECOND: u32 = 1_000_000_000;

/// A point in time: whole seconds since the Unix epoch and the nanoseconds
/// into the second that follows them.
#[derive(Clone, Copy, Debug, PartialEq, Eq, Structural)]
pub struct Timestamp {
    secs: u64,
    nanos: u32,
}

impl Timestamp {
    /// Every timestamp holds less than a full second of nanoseconds.
    #[verifier::type_invariant]
    pub closed spec fn wf(self) -> bool {
        self.nanos < NANOS_PER_SECOND
    }

    /// The whole seconds since the epoch.
    pub closed spec fn seconds(self) -> nat {
        self.secs as nat
    }

    /// The nanoseconds past the last whole second.
    pub closed spec fn subsec_nanos(self) -> nat {
        self.nanos as nat
    }

    /// The point in time as nanoseconds since the epoch.
    pub open spec fn since_epoch(self) -> nat {
        self.seconds() * 1_000_000_000 + self.subsec_nanos()
    }

    /// The timestamp `secs` seconds and `nanos` nanoseconds after the epoch;
    /// `None` exactly when `nanos` is a full second or more.
    pub fn new(secs: u64, nanos: u32) -> (made: Option<Timestamp>)
        ensures
            made is Some <==> nanos < NANOS_PER_SECOND,
            made matches Some(t) ==> t.wf() && t.seconds() == secs && t.subsec_nanos() == nanos,
    {
        if nanos < NANOS_PER_SECOND {
            Some(Timestamp { secs, nanos })
        } else {
            None
        }
    }

    /// The whole seconds since the epoch.
    pub fn secs(&self) -> (secs: u64)
        ensures
            secs == self.seconds(),
    {
        self.secs
    }

    /// The nanoseconds past the last whole second.
    pub fn nanos(&self) -> (nanos: u32)
        ensures
            nanos == self.subsec_nanos(),
            nanos < NANOS_PER_SECOND,
    {
        proof {
            use_type_invariant(self);
        }
        self.nanos
    }

    /// Decides whether this point in time lies before `other`.
    pub fn is_before(&self, other: &Timestamp) -> (before: bool)
        ensures
            before == (self.since_epoch() < other.since_epoch()),
    {
        proof {
            use_type_invariant(self);
            use_type_invariant(other);
        }
        self.secs < other.secs || (self.secs == other.secs && self.nanos < other.nanos)
    }

    /// The whole seconds that have passed from `earlier` to this point in
    /// time, fractions of a second dropped; `None` exactly when `earlier`
    /// lies after this point.
    pub fn seconds_since(&self, earlier: &Timestamp) -> (elapsed: Option<u64>)
        ensures
            elapsed is Some <==> earlier.since_epoch() <= self.since_epoch(),
            elapsed matches Some(s) ==> s == whole_seconds_between(*earlier, *self),
    {
        proof {
            use_type_invariant(self);
            use_type_invariant(earlier);
        }
        if self.is_before(earlier) {
            None
        } else if self.nanos >= earlier.nanos {
            Some(self.secs - earlier.secs)
        } else {
            Some(self.secs - earlier.secs - 1)
        }
    }
}

/// The whole seconds from `earlier` to `later`, fractions of a second
/// dropped.
pub open spec fn whole_seconds_between(earlier: Timestamp, later: Timestamp) -> int
    recommends
        earlier.since_epoch() <= later.since_epoch(),
{
    (later.since_epoch() - earlier.since_epoch()) / 1_000_000_000
}

/// The counters of one running process: the time at which it started, which
/// never changes, and the number of jokes served, which only grows.
#[derive(Debug, PartialEq, Eq)]
pub struct ServiceState {
    started_at: Timestamp,
    served_count: u64,
}

impl ServiceState {
    /// The time at which the process started.
    pub closed spec fn started(self) -> Timestamp {
        self.started_at
    }

    /// The number of jokes served so far.
    pub closed spec fn served(self) -> nat {
        self.served_count as nat
    }

    /// The state of a process that starts at `started_at` and has served
    /// nothing yet.
    pub fn new(started_at: Timestamp) -> (state: ServiceState)
        ensures
            state.started() == started_at,
            state.served() == 0,
    {
        ServiceState { started_at, served_count: 0 }
    }

    /// The time at which the process started.
    pub fn started_at(&self) -> (t: Timestamp)
        ensures
            t == self.started(),
            t.wf(),
    {
        proof {
            use_type_invariant(&self.started_at);
        }
        self.started_at
    }

    /// The number of jokes served so far.
    pub fn served_count(&self) -> (n: u64)
        ensures
            n == self.served(),
    {
        self.served_count
    }

    /// Whether one more served joke can be counted.
    pub open spec fn can_record(self) -> bool {
        self.served() < u64::MAX
    }

    /// Counts one more served joke. The start time stays as it is.
    pub fn record_served(&mut self)
        requires
            old(self).can_record(),
        ensures
            final(self).served() == old(self).served() + 1,
            final(self).started() == old(self).started(),
    {
        self.served_count = self.served_count + 1;
    }

    /// The whole seconds for which the process has been up at `now`; `None`
    /// exactly when `now` lies before the start.
    pub fn uptime_seconds(&self, now: &Timestamp) -> (uptime: Option<u64>)
        ensures
            uptime is Some <==> self.started().since_epoch() <= now.since_epoch(),
            uptime matches Some(s) ==> s == whole_seconds_between(self.started(), *now),
    {
        now.seconds_since(&self.started_at)
    }
}

/// A span of time is split exactly into its whole seconds and a rest of less
/// than a second.
pub proof fn whole_seconds_bound(earlier: Timestamp, later: Timestamp)
    requires
        earlier.since_epoch() <= later.since_epoch(),
    ensures
        0 <= whole_seconds_between(earlier, later),
        whole_seconds_between(earlier, later) * 1_000_000_000 <= later.since_epoch()
            - earlier.since_epoch() < (whole_seconds_between(earlier, later) + 1) * 1_000_000_000,
{
}

/// No time passes from a point in time to itself, and a later end never
/// gives fewer whole seconds.
pub proof fn whole_seconds_grow(earlier: Timestamp, a: Timestamp, b: Timestamp)
    requires
        earlier.since_epoch() <= a.since_epoch() <= b.since_epoch(),
    ensures
        whole_seconds_between(earlier, earlier) == 0,
        whole_seconds_between(earlier, a) <= whole_seconds_between(earlier, b),
{
}

} // verus!
