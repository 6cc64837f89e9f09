//! The unkeyed token-bucket rate limiter: the timing decisions, free of
//! I/O.
//!
//! The bucket admits one notification per refill period. The caller reads
//! the clock, asks `acquire` how long to wait, performs the wait itself
//! (adding a bounded random jitter to desynchronize concurrent callers),
//! and only then sends. One shared bucket smooths every publish attempt of
//! the process into one global stream.

use vstd::prelude::*;

verus! {

pub const NANOS_PER_SEC: u64 = 1_000_000_000;

/// Upper bound on the random de-synchronization delay a caller may add.
pub const MAX_JITTER_NANOS: u64 = 10_000_000;

/// Default outbound notification rate: two per second.
pub const DEFAULT_RATE_PER_SECOND: u32 = 2;

/// Unkeyed token bucket; one token is consumed per admitted notification.
/// `next_free` is the earliest instant, in nanoseconds of the caller's
/// clock, at which the next token is available.
pub struct TokenBucket {
    pub period_nanos: u64,
    pub next_free: u64,
}

impl TokenBucket {
    pub open spec fn wf(&self) -> bool {
        1 <= self.period_nanos <= NANOS_PER_SEC
    }

    /// The instant a call arriving at `now` is admitted: at once if a
    /// token is available, else as soon as one is.
    pub open spec fn admit_time(&self, now: u64) -> int {
        if now >= self.next_free {
            now as int
        } else {
            self.next_free as int
        }
    }

    /// A bucket refilling `rate_per_second` tokens per second, with one
    /// token available immediately.
    pub fn new(rate_per_second: u32) -> (b: TokenBucket)
        requires
            1 <= rate_per_second <= NANOS_PER_SEC,
        ensures
            b.wf(),
            b.next_free == 0,
            b.period_nanos == NANOS_PER_SEC / rate_per_second as u64,
    {
        proof {
            vstd::arithmetic::div_mod::lemma_div_non_zero(
                NANOS_PER_SEC as int,
                rate_per_second as int,
            );
            vstd::arithmetic::div_mod::lemma_div_nonincreasing(
                NANOS_PER_SEC as int,
                rate_per_second as int,
            );
        }
        TokenBucket { period_nanos: NANOS_PER_SEC / (rate_per_second as u64), next_free: 0 }
    }

    /// One acquisition at clock reading `now`: charges one token and
    /// returns how long the caller must wait before proceeding.
    pub fn acquire(&mut self, now: u64) -> (wait: u64)
        requires
            old(self).wf(),
            old(self).admit_time(now) + old(self).period_nanos <= u64::MAX,
        ensures
            final(self).wf(),
            final(self).period_nanos == old(self).period_nanos,
            now + wait == old(self).admit_time(now),
            final(self).next_free == old(self).admit_time(now) + final(self).period_nanos,
    {
        let admitted = if now >= self.next_free {
            now
        } else {
            self.next_free
        };
        let wait = admitted - now;
        self.next_free = admitted + self.period_nanos;
        wait
    }

    /// As `acquire`, with a caller-chosen de-synchronization delay of at
    /// most `MAX_JITTER_NANOS` added to the returned wait. The charge on
    /// the bucket is the same: jitter delays the caller, not the refill.
    pub fn acquire_with_jitter(&mut self, now: u64, jitter: u64) -> (wait: u64)
        requires
            old(self).wf(),
            jitter <= MAX_JITTER_NANOS,
            old(self).admit_time(now) + old(self).period_nanos + MAX_JITTER_NANOS <= u64::MAX,
        ensures
            final(self).wf(),
            final(self).period_nanos == old(self).period_nanos,
            now + wait == old(self).admit_time(now) + jitter,
            final(self).next_free == old(self).admit_time(now) + final(self).period_nanos,
    {
        let base = self.acquire(now);
        base + jitter
    }
}

/// Admission instants of a sequence of back-to-back acquisitions against
/// one bucket, given the clock reading at each call.
pub open spec fn admit_times(period: int, next_free: int, nows: Seq<int>) -> Seq<int>
    decreases nows.len(),
{
    if nows.len() == 0 {
        Seq::<int>::empty()
    } else {
        let a = if nows.first() >= next_free {
            nows.first()
        } else {
            next_free
        };
        seq![a] + admit_times(period, a + period, nows.drop_first())
    }
}

/// Every admission comes no earlier than the bucket allows.
proof fn lemma_admit_lower_bound(period: int, next_free: int, nows: Seq<int>, k: int)
    requires
        period >= 0,
        0 <= k < nows.len(),
    ensures
        admit_times(period, next_free, nows).len() == nows.len(),
        admit_times(period, next_free, nows)[k] >= next_free + k * period,
    decreases nows.len(),
{
    let a = if nows.first() >= next_free {
        nows.first()
    } else {
        next_free
    };
    lemma_admit_times_len(period, next_free, nows);
    if k == 0 {
        assert(admit_times(period, next_free, nows)[0] == a);
        assert(next_free + k * period == next_free) by (nonlinear_arith)
            requires
                k == 0,
        ;
    }
    if k > 0 {
        lemma_admit_lower_bound(period, a + period, nows.drop_first(), k - 1);
        assert(admit_times(period, next_free, nows)[k] == admit_times(
            period,
            a + period,
            nows.drop_first(),
        )[k - 1]);
        assert(a + period + (k - 1) * period >= next_free + k * period) by (nonlinear_arith)
            requires
                a >= next_free,
                period >= 0,
        ;
    }
}

proof fn lemma_admit_times_len(period: int, next_free: int, nows: Seq<int>)
    ensures
        admit_times(period, next_free, nows).len() == nows.len(),
    decreases nows.len(),
{
    if nows.len() > 0 {
        let a = if nows.first() >= next_free {
            nows.first()
        } else {
            next_free
        };
        lemma_admit_times_len(period, a + period, nows.drop_first());
    }
}

/// Law: however the clock readings fall, any two admissions of one bucket
/// lie at least one refill period apart per intervening call: the j-th
/// admission is at least `(j - i) * period` after the i-th.
pub proof fn lemma_admissions_spaced(period: int, next_free: int, nows: Seq<int>, i: int, j: int)
    requires
        period >= 0,
        0 <= i <= j < nows.len(),
    ensures
        admit_times(period, next_free, nows).len() == nows.len(),
        admit_times(period, next_free, nows)[j] >= admit_times(period, next_free, nows)[i] + (j
            - i) * period,
    decreases nows.len(),
{
    lemma_admit_times_len(period, next_free, nows);
    let ts = admit_times(period, next_free, nows);
    let a = if nows.first() >= next_free {
        nows.first()
    } else {
        next_free
    };
    let rest = admit_times(period, a + period, nows.drop_first());
    if i == j {
        assert(ts[j] >= ts[i] + (j - i) * period) by (nonlinear_arith)
            requires
                i == j,
        ;
    } else if i == 0 {
        lemma_admit_lower_bound(period, a + period, nows.drop_first(), j - 1);
        assert(ts[j] == rest[j - 1]);
        assert(ts[0] == a);
        assert(rest[j - 1] >= a + period + (j - 1) * period);
        assert(a + period + (j - 1) * period >= a + j * period) by (nonlinear_arith);
    } else {
        lemma_admissions_spaced(period, a + period, nows.drop_first(), i - 1, j - 1);
        assert(ts[j] == rest[j - 1]);
        assert(ts[i] == rest[i - 1]);
    }
}

/// Law: N back-to-back acquisitions span at least (N - 1) refill periods
/// between the first and the last admission, whatever the clock did.
pub proof fn lemma_rate_limit_span(period: int, next_free: int, nows: Seq<int>)
    requires
        period >= 0,
        nows.len() >= 1,
    ensures
        admit_times(period, next_free, nows).len() == nows.len(),
        admit_times(period, next_free, nows).last() >= admit_times(period, next_free, nows).first()
            + (nows.len() - 1) * period,
{
    lemma_admissions_spaced(period, next_free, nows, 0, nows.len() - 1);
}

} // verus!
