//! Token-bucket rate limiter.
//!
//! Admissions replenish continuously at `rate_per_min / 60` tokens per
//! second rather than in per-minute bursts: the limiter keeps the earliest
//! time at which the next admission may happen, scaled by the rate so that
//! all arithmetic stays on integers. Two admissions are therefore at least
//! `60000 / rate_per_min` milliseconds apart, and any rolling 60-second
//! window holds at most `rate_per_min` admissions.
//!
//! The limiter only decides; the caller supplies the clock and sleeps
//! until `next_ready_ms` when an admission is refused.

use vstd::prelude::*;

verus! {

/// Milliseconds in the rolling window.
pub const WINDOW_MS: u64 = 60000;

/// Token-bucket gate admitting at most `rate_per_min` requests in any
/// rolling 60-second window.
pub struct RateLimiter {
    rate_per_min: u32,
    next_scaled: u128,
    last_now_ms: u64,
    admissions: Ghost<Seq<int>>,
}

/// Consecutive admission times, scaled by the rate, lie at least one
/// window apart: `adm[k] * rate >= adm[k-1] * rate + 60000`.
pub open spec fn spec_gaps_ok(adm: Seq<int>, rate: int) -> bool {
    forall|k: int| 1 <= k < adm.len() ==> #[trigger] adm[k] * rate >= adm[k - 1] * rate + WINDOW_MS
}

impl RateLimiter {
    /// The configured admissions per minute.
    pub closed spec fn rate(self) -> int {
        self.rate_per_min as int
    }

    /// Every admission so far, in milliseconds, in order.
    pub closed spec fn admitted(self) -> Seq<int> {
        self.admissions@
    }

    /// The earliest scaled time (`ms * rate`) of the next admission.
    pub closed spec fn next_free_scaled(self) -> int {
        self.next_scaled as int
    }

    /// The latest clock value this limiter has seen.
    pub closed spec fn clock(self) -> int {
        self.last_now_ms as int
    }

    /// The limiter's invariant: admissions are spaced by the emission
    /// interval, never in the future, and the next admission comes no
    /// earlier than one interval after the last.
    pub closed spec fn wf(self) -> bool {
        &&& self.rate_per_min >= 1
        &&& spec_gaps_ok(self.admissions@, self.rate())
        &&& forall|k: int| 0 <= k < self.admissions@.len() ==> 0 <= #[trigger] self.admissions@[k]
        &&& (self.admissions@.len() > 0 ==> {
            &&& self.admissions@.last() <= self.last_now_ms as int
            &&& self.next_scaled as int >= self.admissions@.last() * self.rate() + WINDOW_MS
        })
        &&& self.next_scaled as int <= self.last_now_ms as int * self.rate() + WINDOW_MS
    }

    /// A fresh limiter that admits at most `rate_per_min` requests per
    /// rolling minute, ready to admit at once.
    pub fn new(rate_per_min: u32) -> (r: Self)
        requires
            rate_per_min >= 1,
        ensures
            r.wf(),
            r.rate() == rate_per_min as int,
            r.admitted() == Seq::<int>::empty(),
            r.next_free_scaled() == 0,
            r.clock() == 0,
    {
        RateLimiter {
            rate_per_min,
            next_scaled: 0,
            last_now_ms: 0,
            admissions: Ghost(Seq::empty()),
        }
    }

    /// Consumes one admission token if one has replenished by `now_ms`.
    /// Admission happens exactly when the scaled clock has reached the
    /// scaled next-free time; the clock must not run backwards.
    pub fn try_admit(&mut self, now_ms: u64) -> (admitted: bool)
        requires
            old(self).wf(),
            now_ms as int >= old(self).clock(),
        ensures
            final(self).wf(),
            final(self).rate() == old(self).rate(),
            final(self).clock() == now_ms as int,
            admitted <==> now_ms as int * old(self).rate() >= old(self).next_free_scaled(),
            admitted ==> final(self).admitted() == old(self).admitted().push(now_ms as int)
                && final(self).next_free_scaled() == now_ms as int * old(self).rate()
                + WINDOW_MS,
            !admitted ==> final(self).admitted() == old(self).admitted()
                && final(self).next_free_scaled() == old(self).next_free_scaled(),
    {
        proof {
            assert(now_ms as int * self.rate_per_min as int <= u64::MAX as int
                * u32::MAX as int) by (nonlinear_arith)
                requires
                    now_ms as int <= u64::MAX as int,
                    self.rate_per_min as int <= u32::MAX as int,
                    now_ms as int >= 0,
                    self.rate_per_min as int >= 0,
            ;
        }
        let scaled: u128 = (now_ms as u128) * (self.rate_per_min as u128);
        proof {
            assert(scaled == now_ms as int * self.rate()) by (nonlinear_arith)
                requires
                    scaled == (now_ms as u128) * (self.rate_per_min as u128),
                    self.rate() == self.rate_per_min as int,
            ;
            assert(now_ms as int * self.rate() >= self.clock() * self.rate()) by (nonlinear_arith)
                requires
                    now_ms as int >= self.clock(),
                    self.rate() >= 1,
            ;
        }
        if scaled >= self.next_scaled {
            self.next_scaled = scaled + (WINDOW_MS as u128);
            self.last_now_ms = now_ms;
            proof {
                self.admissions@ = self.admissions@.push(now_ms as int);
            }
            true
        } else {
            self.last_now_ms = now_ms;
            false
        }
    }

    /// The earliest time, no earlier than `now_ms`, at which an admission
    /// will succeed: `now_ms` itself when a token is already available,
    /// otherwise the first millisecond whose scaled clock reaches the
    /// next-free time.
    pub fn next_ready_ms(&self, now_ms: u64) -> (t: u64)
        requires
            self.wf(),
            now_ms as int >= self.clock(),
            now_ms as int + WINDOW_MS as int + 1 <= u64::MAX as int,
        ensures
            t >= now_ms,
            t as int * self.rate() >= self.next_free_scaled(),
            t > now_ms ==> (t - 1) as int * self.rate() < self.next_free_scaled(),
    {
        proof {
            assert(now_ms as int * self.rate_per_min as int <= u64::MAX as int
                * u32::MAX as int) by (nonlinear_arith)
                requires
                    now_ms as int <= u64::MAX as int,
                    self.rate_per_min as int <= u32::MAX as int,
                    now_ms as int >= 0,
                    self.rate_per_min as int >= 0,
            ;
            assert(self.clock() * self.rate() <= u64::MAX as int * u32::MAX as int)
                by (nonlinear_arith)
                requires
                    0 <= self.clock() <= u64::MAX as int,
                    0 <= self.rate() <= u32::MAX as int,
            ;
        }
        let rate: u128 = self.rate_per_min as u128;
        let scaled: u128 = (now_ms as u128) * rate;
        proof {
            assert(scaled == now_ms as int * self.rate()) by (nonlinear_arith)
                requires
                    scaled == (now_ms as u128) * (self.rate_per_min as u128),
                    self.rate() == self.rate_per_min as int,
            ;
        }
        if scaled >= self.next_scaled {
            now_ms
        } else {
            let num: u128 = self.next_scaled + rate - 1;
            let q: u128 = num / rate;
            proof {
                let r = self.rate();
                let n = self.next_scaled as int;
                assert(q * r + (num as int % r) == n + r - 1 && 0 <= num as int % r < r)
                    by (nonlinear_arith)
                    requires
                        r >= 1,
                        q == (num as int) / r,
                        num as int == n + r - 1,
                ;
                assert(q * r >= n);
                assert((q - 1) * r == q * r - r) by (nonlinear_arith);
                assert((q - 1) * r < n);
                // q is bounded by the clock plus one window.
                assert(n <= self.clock() * r + WINDOW_MS);
                assert(self.clock() * r <= now_ms as int * r) by (nonlinear_arith)
                    requires
                        self.clock() <= now_ms as int,
                        r >= 1,
                ;
                assert(q * r <= n + r - 1);
                assert((now_ms as int + WINDOW_MS as int + 1) * r >= now_ms as int * r
                    + WINDOW_MS as int + r - 1) by (nonlinear_arith)
                    requires
                        r >= 1,
                ;
                assert(q <= now_ms as int + WINDOW_MS as int + 1) by (nonlinear_arith)
                    requires
                        q * r <= (now_ms as int + WINDOW_MS as int + 1) * r,
                        r >= 1,
                ;
                // q exceeds now_ms, since now_ms's scaled clock is short.
                assert(q * r >= n > scaled as int == now_ms as int * r);
                assert(q > now_ms as int) by (nonlinear_arith)
                    requires
                        q * r > now_ms as int * r,
                        r >= 1,
                ;
            }
            q as u64
        }
    }

    /// Any rolling 60-second window holds at most `rate` admissions.
    ///
    /// Admissions are ordered in time, so the admissions inside the
    /// half-open window `[w, w + 60000)` form a consecutive index range;
    /// whenever admissions `i` and `j` both fall inside such a window,
    /// that range holds at most `rate` entries.
    pub proof fn lemma_rolling_window_bound(self, w: int, i: int, j: int)
        requires
            self.wf(),
            0 <= i <= j < self.admitted().len(),
            w <= self.admitted()[i],
            self.admitted()[j] < w + WINDOW_MS,
        ensures
            j - i + 1 <= self.rate(),
    {
        let adm = self.admitted();
        let r = self.rate();
        lemma_gap_sum(adm, r, i, j);
        assert(adm[j] - adm[i] < WINDOW_MS);
        assert((adm[j] - adm[i]) * r < WINDOW_MS * r) by (nonlinear_arith)
            requires
                adm[j] - adm[i] < WINDOW_MS,
                r >= 1,
        ;
        assert((adm[j] - adm[i]) * r == adm[j] * r - adm[i] * r) by (nonlinear_arith);
        assert((j - i) * WINDOW_MS < WINDOW_MS * r);
        assert(j - i < r) by (nonlinear_arith)
            requires
                (j - i) * WINDOW_MS < WINDOW_MS * r,
        ;
    }
}

/// How many admissions fall inside the half-open window `[w, w + 60000)`.
pub open spec fn spec_count_in_window(adm: Seq<int>, w: int) -> int
    decreases adm.len(),
{
    if adm.len() == 0 {
        0
    } else {
        (if w <= adm[0] < w + WINDOW_MS {
            1int
        } else {
            0int
        }) + spec_count_in_window(adm.skip(1), w)
    }
}

impl RateLimiter {
    /// The count of accepted admissions in any rolling 60-second window
    /// never exceeds the configured rate.
    pub proof fn lemma_window_admission_count(self, w: int)
        requires
            self.wf(),
        ensures
            spec_count_in_window(self.admitted(), w) <= self.rate(),
    {
        lemma_count_window_all(self.admitted(), self.rate(), w);
    }
}

/// Gap spacing carries over to the tail of the sequence.
proof fn lemma_gaps_ok_skip(adm: Seq<int>, rate: int)
    requires
        spec_gaps_ok(adm, rate),
        adm.len() > 0,
    ensures
        spec_gaps_ok(adm.skip(1), rate),
{
    assert forall|k: int|
        1 <= k < adm.skip(1).len() implies #[trigger] adm.skip(1)[k] * rate >= adm.skip(1)[k - 1]
        * rate + WINDOW_MS by {
        assert(adm.skip(1)[k] == adm[k + 1]);
        assert(adm.skip(1)[k - 1] == adm[k]);
        assert(adm[k + 1] * rate >= adm[k] * rate + WINDOW_MS);
    }
}

/// With `budget` admissions left for the window, a suffix whose first
/// admission lies at least `rate - budget` emission intervals past the
/// window's start holds at most `budget` admissions inside it.
proof fn lemma_count_window_budget(adm: Seq<int>, rate: int, w: int, budget: int)
    requires
        spec_gaps_ok(adm, rate),
        rate >= 1,
        0 <= budget <= rate,
        adm.len() > 0 ==> adm[0] * rate >= w * rate + (rate - budget) * WINDOW_MS,
    ensures
        spec_count_in_window(adm, w) <= budget,
    decreases adm.len(),
{
    if adm.len() > 0 {
        lemma_gaps_ok_skip(adm, rate);
        if adm[0] >= w + WINDOW_MS {
            // The head and everything after it lie past the window.
            assert(adm.skip(1).len() > 0 ==> adm.skip(1)[0] * rate >= w * rate + rate
                * WINDOW_MS) by {
                if adm.skip(1).len() > 0 {
                    assert(adm.skip(1)[0] == adm[1]);
                    assert(adm[1] * rate >= adm[0] * rate + WINDOW_MS);
                    assert(adm[0] * rate >= (w + WINDOW_MS) * rate) by (nonlinear_arith)
                        requires
                            adm[0] >= w + WINDOW_MS,
                            rate >= 1,
                    ;
                    assert((w + WINDOW_MS) * rate == w * rate + WINDOW_MS * rate)
                        by (nonlinear_arith);
                }
            }
            lemma_count_window_budget(adm.skip(1), rate, w, 0);
            assert(!(w <= adm[0] < w + WINDOW_MS));
        } else {
            // The head is inside the window: were the budget zero, it
            // would already lie a full rate's worth of intervals past
            // the start, past the window's end.
            assert(budget >= 1) by {
                if budget == 0 {
                    assert(adm[0] * rate >= (w + WINDOW_MS) * rate) by (nonlinear_arith)
                        requires
                            adm[0] * rate >= w * rate + rate * WINDOW_MS,
                    ;
                    assert(adm[0] >= w + WINDOW_MS) by (nonlinear_arith)
                        requires
                            adm[0] * rate >= (w + WINDOW_MS) * rate,
                            rate >= 1,
                    ;
                }
            }
            assert(adm.skip(1).len() > 0 ==> adm.skip(1)[0] * rate >= w * rate + (rate - (budget
                - 1)) * WINDOW_MS) by {
                if adm.skip(1).len() > 0 {
                    assert(adm.skip(1)[0] == adm[1]);
                    assert(adm[1] * rate >= adm[0] * rate + WINDOW_MS);
                }
            }
            lemma_count_window_budget(adm.skip(1), rate, w, budget - 1);
        }
    }
}

/// At most `rate` admissions of a gap-spaced sequence lie in the window
/// `[w, w + 60000)`.
proof fn lemma_count_window_all(adm: Seq<int>, rate: int, w: int)
    requires
        spec_gaps_ok(adm, rate),
        rate >= 1,
    ensures
        spec_count_in_window(adm, w) <= rate,
    decreases adm.len(),
{
    if adm.len() > 0 {
        if adm[0] < w {
            lemma_gaps_ok_skip(adm, rate);
            lemma_count_window_all(adm.skip(1), rate, w);
        } else {
            assert(adm[0] * rate >= w * rate) by (nonlinear_arith)
                requires
                    adm[0] >= w,
                    rate >= 1,
            ;
            lemma_count_window_budget(adm, rate, w, rate);
        }
    }
}

/// Summed gaps: admission `j` is at least `(j - i)` emission intervals
/// after admission `i`, on the scaled clock.
proof fn lemma_gap_sum(adm: Seq<int>, rate: int, i: int, j: int)
    requires
        spec_gaps_ok(adm, rate),
        0 <= i <= j < adm.len(),
    ensures
        adm[j] * rate >= adm[i] * rate + (j - i) * WINDOW_MS,
    decreases j - i,
{
    if i < j {
        lemma_gap_sum(adm, rate, i, j - 1);
        assert(adm[j] * rate >= adm[j - 1] * rate + WINDOW_MS);
    }
}

} // verus!
