//! Adaptive timeout / bandwidth estimation.
//!
//! One `Estimator` lives for the duration of one logical bulk operation.
//! It keeps a single throughput estimate (bytes per second), seeded from
//! the configuration and refined after every successful request, and
//! derives a per-attempt timeout for a request of a given size.

use vstd::prelude::*;
use vstd::arithmetic::div_mod::{lemma_div_is_ordered, lemma_div_pos_is_pos, lemma_div_multiples_vanish};
use vstd::arithmetic::mul::{lemma_mul_upper_bound, lemma_mul_nonnegative, lemma_mul_inequality};
use vstd::arithmetic::div_mod::{lemma_div_by_multiple, lemma_fundamental_div_mod_converse};
use crate::config::{Config, MAX_TIMEOUT_MS, MAX_ESTIMATE, MAX_WEIGHT};

verus! {

/// Record of one completed logical request, possibly after several
/// failed attempts.  Times are wall-clock milliseconds.
#[derive(Clone, Copy, Debug, PartialEq, Eq, Structural)]
pub struct RequestReport {
    /// Zero-based position of this request in its batch's input order.
    pub seq: usize,
    /// Bytes transferred.
    pub bytes: u64,
    /// Elapsed time of the final, successful attempt.
    pub success_time_ms: u64,
    /// Cumulative elapsed time across all attempts.
    pub total_time_ms: u64,
    /// Number of attempts made, including the successful one.
    pub attempts: usize,
    /// The bandwidth estimate (bytes/sec) at the time of completion.
    pub est: u64,
}

pub open spec fn spec_min(a: int, b: int) -> int {
    if a < b { a } else { b }
}

pub open spec fn spec_max(a: int, b: int) -> int {
    if a < b { b } else { a }
}

/// Clip a timeout to the largest value ever handed out.
pub open spec fn cap_timeout(t: int) -> int {
    if t > MAX_TIMEOUT_MS { MAX_TIMEOUT_MS as int } else { t }
}

/// Predicted transfer time for `bytes` at rate `estimate`, inflated by the
/// configured safety fraction, in milliseconds:
/// `bytes * (fraction/1000) / estimate * 1000 = bytes * fraction_permille / estimate`.
pub open spec fn base_timeout_ms(cfg: Config, estimate: int, bytes: int) -> int {
    cap_timeout(bytes * cfg.timeout_fraction_permille / estimate)
}

/// The base timeout inflated by one backoff factor per attempt already
/// failed: attempt 1 pays the base, attempt `k+1` pays `backoff` times
/// what attempt `k` paid (capped).
pub open spec fn scaled_timeout_ms(cfg: Config, estimate: int, bytes: int, attempt: int) -> int
    decreases attempt,
{
    if attempt <= 1 {
        base_timeout_ms(cfg, estimate, bytes)
    } else {
        cap_timeout(scaled_timeout_ms(cfg, estimate, bytes, attempt - 1) * cfg.backoff_permille / 1000)
    }
}

/// The timeout handed out: the scaled prediction, floored at the
/// configured minimum.
pub open spec fn timeout_ms(cfg: Config, estimate: int, bytes: int, attempt: int) -> int {
    spec_max(cfg.min_timeout_ms as int, scaled_timeout_ms(cfg, estimate, bytes, attempt))
}

/// Throughput observed by one successful request, bytes per second,
/// clipped into the estimator's working range.  A sub-millisecond
/// success time counts as one millisecond.
pub open spec fn observed_rate(bytes: int, success_time_ms: int) -> int {
    let t = spec_max(success_time_ms, 1);
    let r = bytes * 1000 / t;
    if r < 1 { 1 } else if r > MAX_ESTIMATE { MAX_ESTIMATE as int } else { r }
}

/// Integer square root, the damping curve for sample weights: the
/// influence of ever-larger transfers grows sub-linearly.
pub open spec fn spec_isqrt(x: int) -> int
    decreases x,
{
    if x < 1 {
        0
    } else {
        let r = spec_isqrt(x - 1);
        if (r + 1) * (r + 1) <= x {
            r + 1
        } else {
            r
        }
    }
}

/// Weight of one sample of `bytes` bytes: the square root of the byte
/// count, floored by `avg_min_bytes` first so that very small requests
/// cannot inject high-variance noise, and clipped to at least 1.
pub open spec fn sample_weight(cfg: Config, bytes: int) -> int {
    let w = spec_isqrt(spec_max(bytes, cfg.avg_min_bytes as int));
    if w < 1 { 1 } else if w > MAX_WEIGHT { MAX_WEIGHT as int } else { w }
}

/// Weighted blend of the current estimate (weight `wa`) with one new
/// observation (weight `w`).
pub open spec fn blended_estimate(e: int, wa: int, o: int, w: int) -> int {
    (e * wa + o * w) / (wa + w)
}

/// Maintains the adaptive throughput estimate for one logical operation.
pub struct Estimator {
    /// The tuning knobs this estimator was created with.
    pub config: Config,
    /// Current throughput estimate, bytes per second.  Strictly positive.
    pub estimate: u64,
    /// Accumulated weight of the samples blended into `estimate`.
    pub weight: u64,
}

impl Estimator {
    /// The invariant every operation preserves.
    pub open spec fn well_formed(&self) -> bool {
        &&& self.config.well_formed()
        &&& 1 <= self.estimate <= MAX_ESTIMATE
        &&& 1 <= self.weight <= MAX_WEIGHT
    }

    /// Seeds the estimate from the configured expected throughput.
    pub fn new(config: Config) -> (e: Estimator)
        requires
            config.well_formed(),
        ensures
            e.well_formed(),
            e.config == config,
            e.estimate == config.expected_upload_speed,
            e.weight == 1,
    {
        let estimate = config.expected_upload_speed;
        Estimator { config, estimate, weight: 1 }
    }

    /// Current throughput estimate, bytes per second.
    pub fn get_estimate(&self) -> (r: u64)
        ensures
            r == self.estimate,
    {
        self.estimate
    }

    /// Timeout for a request of `bytes` bytes on its `attempt`-th attempt
    /// (1-based): the predicted transfer time times the safety fraction,
    /// times one backoff factor per failed attempt so far, floored at the
    /// configured minimum.
    pub fn get_timeout(&self, bytes: u64, attempt: usize) -> (r: u64)
        requires
            self.well_formed(),
            attempt >= 1,
        ensures
            r == timeout_ms(self.config, self.estimate as int, bytes as int, attempt as int),
            r >= self.config.min_timeout_ms,
    {
        proof {
            lemma_mul_upper_bound(bytes as int, u64::MAX as int, self.config.timeout_fraction_permille as int, 1_000_000);
            lemma_div_pos_is_pos((bytes as int) * (self.config.timeout_fraction_permille as int), self.estimate as int);
        }
        let base: u128 = (bytes as u128) * (self.config.timeout_fraction_permille as u128)
            / (self.estimate as u128);
        let mut t: u64 = if base > MAX_TIMEOUT_MS as u128 {
            MAX_TIMEOUT_MS
        } else {
            base as u64
        };
        assert(t == base_timeout_ms(self.config, self.estimate as int, bytes as int));
        let mut i: usize = 1;
        while i < attempt
            invariant
                1 <= i <= attempt,
                self.well_formed(),
                t == scaled_timeout_ms(self.config, self.estimate as int, bytes as int, i as int),
                t <= MAX_TIMEOUT_MS,
            decreases attempt - i,
        {
            proof {
                lemma_mul_upper_bound(t as int, MAX_TIMEOUT_MS as int, self.config.backoff_permille as int, 1_000_000);
            }
            let inflated: u64 = t * self.config.backoff_permille / 1000;
            t = if inflated > MAX_TIMEOUT_MS { MAX_TIMEOUT_MS } else { inflated };
            i = i + 1;
        }
        if t < self.config.min_timeout_ms {
            self.config.min_timeout_ms
        } else {
            t
        }
    }

    /// Blends the throughput observed by one successful request into the
    /// estimate.  The new sample's weight grows sub-linearly with the
    /// request size (square root, floored by `avg_min_bytes`), so one
    /// huge transfer cannot dominate and tiny transfers barely register.
    pub fn update(&mut self, report: &RequestReport)
        requires
            old(self).well_formed(),
        ensures
            final(self).well_formed(),
            final(self).config == old(self).config,
            final(self).estimate == blended_estimate(
                old(self).estimate as int,
                old(self).weight as int,
                observed_rate(report.bytes as int, report.success_time_ms as int),
                sample_weight(old(self).config, report.bytes as int),
            ),
            final(self).weight == spec_min(old(self).weight + sample_weight(old(self).config, report.bytes as int), MAX_WEIGHT as int),
    {
        let ghost o_spec = observed_rate(report.bytes as int, report.success_time_ms as int);
        let ghost w_spec = sample_weight(old(self).config, report.bytes as int);
        let t: u64 = if report.success_time_ms < 1 { 1 } else { report.success_time_ms };
        proof {
            lemma_mul_upper_bound(report.bytes as int, u64::MAX as int, 1000, 1000);
            lemma_div_pos_is_pos((report.bytes as int) * 1000, t as int);
        }
        let rate128: u128 = (report.bytes as u128) * 1000 / (t as u128);
        let observed: u64 = if rate128 < 1 {
            1
        } else if rate128 > MAX_ESTIMATE as u128 {
            MAX_ESTIMATE
        } else {
            rate128 as u64
        };
        assert(observed == o_spec);

        let eff_bytes: u64 = if report.bytes < self.config.avg_min_bytes {
            self.config.avg_min_bytes
        } else {
            report.bytes
        };
        let root: u64 = isqrt_u64(eff_bytes);
        let w: u64 = if root < 1 {
            1
        } else if root > MAX_WEIGHT {
            MAX_WEIGHT
        } else {
            root
        };
        assert(w == w_spec);

        let wa: u64 = self.weight;
        let e: u64 = self.estimate;
        proof {
            lemma_mul_upper_bound(e as int, MAX_ESTIMATE as int, wa as int, MAX_WEIGHT as int);
            lemma_mul_upper_bound(observed as int, MAX_ESTIMATE as int, w as int, MAX_WEIGHT as int);
        }
        let numer: u128 = (e as u128) * (wa as u128) + (observed as u128) * (w as u128);
        let denom: u128 = wa as u128 + w as u128;
        let blended128: u128 = numer / denom;
        proof {
            lemma_blend_between(e as int, wa as int, observed as int, w as int);
        }
        let new_estimate: u64 = blended128 as u64;
        assert(new_estimate == blended_estimate(e as int, wa as int, o_spec, w_spec));
        let new_weight: u64 = if wa + w > MAX_WEIGHT { MAX_WEIGHT } else { wa + w };
        self.estimate = new_estimate;
        self.weight = new_weight;
    }
}

/// `spec_isqrt(x)` really is the integer square root.
pub proof fn lemma_spec_isqrt_bounds(x: int)
    requires
        x >= 0,
    ensures
        spec_isqrt(x) >= 0,
        spec_isqrt(x) * spec_isqrt(x) <= x,
        x < (spec_isqrt(x) + 1) * (spec_isqrt(x) + 1),
    decreases x,
{
    if x < 1 {
    } else {
        lemma_spec_isqrt_bounds(x - 1);
        let r = spec_isqrt(x - 1);
        if (r + 1) * (r + 1) <= x {
            assert(x < (r + 2) * (r + 2)) by (nonlinear_arith)
                requires
                    r >= 0,
                    x - 1 < (r + 1) * (r + 1),
            {}
        }
    }
}

/// Any value meeting the square-root bounds is `spec_isqrt`.
pub proof fn lemma_isqrt_unique(x: int, r: int)
    requires
        x >= 0,
        r >= 0,
        r * r <= x,
        x < (r + 1) * (r + 1),
    ensures
        r == spec_isqrt(x),
{
    lemma_spec_isqrt_bounds(x);
    let s = spec_isqrt(x);
    assert(r == s) by (nonlinear_arith)
        requires
            r >= 0,
            s >= 0,
            r * r <= x,
            x < (r + 1) * (r + 1),
            s * s <= x,
            x < (s + 1) * (s + 1),
    {}
}

/// Executable integer square root by binary search.
fn isqrt_u64(x: u64) -> (r: u64)
    ensures
        r == spec_isqrt(x as int),
        r <= 0xFFFF_FFFF,
{
    let mut lo: u64 = 0;
    let mut hi: u64 = 0x1_0000_0000;
    // Invariant: lo * lo <= x < hi * hi, and the answer is in [lo, hi).
    while lo + 1 < hi
        invariant
            lo < hi <= 0x1_0000_0000,
            (lo as int) * (lo as int) <= x as int,
            (x as int) < (hi as int) * (hi as int),
        decreases hi - lo,
    {
        let mid: u64 = lo + (hi - lo) / 2;
        proof {
            lemma_mul_upper_bound(mid as int, 0x1_0000_0000, mid as int, 0x1_0000_0000);
        }
        if (mid as u128) * (mid as u128) <= x as u128 {
            lo = mid;
        } else {
            hi = mid;
        }
    }
    proof {
        lemma_isqrt_unique(x as int, lo as int);
    }
    lo
}

/// The scaled timeout always lies in `[0, MAX_TIMEOUT_MS]`.
pub proof fn lemma_scaled_timeout_in_range(cfg: Config, estimate: int, bytes: int, attempt: int)
    requires
        cfg.well_formed(),
        estimate >= 1,
        bytes >= 0,
    ensures
        0 <= scaled_timeout_ms(cfg, estimate, bytes, attempt) <= MAX_TIMEOUT_MS,
    decreases
        if attempt <= 1 { 1 as int } else { attempt },
{
    if attempt <= 1 {
        lemma_mul_nonnegative(bytes, cfg.timeout_fraction_permille as int);
        lemma_div_pos_is_pos(bytes * cfg.timeout_fraction_permille, estimate);
    } else {
        lemma_scaled_timeout_in_range(cfg, estimate, bytes, attempt - 1);
        let s = scaled_timeout_ms(cfg, estimate, bytes, attempt - 1);
        lemma_mul_nonnegative(s, cfg.backoff_permille as int);
        lemma_div_pos_is_pos(s * cfg.backoff_permille, 1000);
    }
}

/// Law: for a fixed request size, the timeout never decreases as the
/// attempt number grows, since each failed attempt inflates the next
/// timeout by the backoff factor (which is greater than one).
pub proof fn lemma_timeout_nondecreasing_in_attempt(
    cfg: Config,
    estimate: int,
    bytes: int,
    attempt1: int,
    attempt2: int,
)
    requires
        cfg.well_formed(),
        estimate >= 1,
        bytes >= 0,
        1 <= attempt1 <= attempt2,
    ensures
        timeout_ms(cfg, estimate, bytes, attempt1) <= timeout_ms(cfg, estimate, bytes, attempt2),
    decreases attempt2 - attempt1,
{
    if attempt1 < attempt2 {
        lemma_timeout_nondecreasing_in_attempt(cfg, estimate, bytes, attempt1, attempt2 - 1);
        let s = scaled_timeout_ms(cfg, estimate, bytes, attempt2 - 1);
        lemma_scaled_timeout_in_range(cfg, estimate, bytes, attempt2 - 1);
        lemma_mul_inequality(1000, cfg.backoff_permille as int, s);
        assert(s * 1000 <= s * cfg.backoff_permille) by (nonlinear_arith)
            requires
                s >= 0,
                1000 <= cfg.backoff_permille,
        {}
        lemma_div_by_multiple(s, 1000);
        lemma_div_is_ordered(s * 1000, s * cfg.backoff_permille, 1000);
        assert(scaled_timeout_ms(cfg, estimate, bytes, attempt2) >= s);
    }
}

/// Law: every computed timeout is at least the configured floor,
/// whatever the request size or attempt number.
pub proof fn lemma_timeout_at_least_min(cfg: Config, estimate: int, bytes: int, attempt: int)
    ensures
        timeout_ms(cfg, estimate, bytes, attempt) >= cfg.min_timeout_ms,
{
}

/// The blend of two positive rates lies between them; blending with a
/// sample equal to the estimate leaves the estimate unchanged.
pub proof fn lemma_blend_between(e: int, wa: int, o: int, w: int)
    requires
        e >= 1,
        o >= 1,
        wa >= 1,
        w >= 1,
    ensures
        spec_min(e, o) <= blended_estimate(e, wa, o, w) <= spec_max(e, o),
        e == o ==> blended_estimate(e, wa, o, w) == e,
{
    let lo = spec_min(e, o);
    let hi = spec_max(e, o);
    assert(lo * (wa + w) <= e * wa + o * w <= hi * (wa + w)) by (nonlinear_arith)
        requires
            wa >= 1,
            w >= 1,
            lo <= e <= hi,
            lo <= o <= hi,
    {}
    lemma_div_multiples_vanish(lo, wa + w);
    lemma_div_multiples_vanish(hi, wa + w);
    lemma_div_is_ordered(lo * (wa + w), e * wa + o * w, wa + w);
    lemma_div_is_ordered(e * wa + o * w, hi * (wa + w), wa + w);
    if e == o {
        assert(e * wa + o * w == (wa + w) * e) by (nonlinear_arith)
            requires
                e == o,
        {}
        lemma_div_multiples_vanish(e, wa + w);
    }
}

/// Law: an update moves the estimate toward the observed rate and never
/// past it; whenever the estimate sits above the rate it comes strictly
/// closer, and an estimate equal to the rate is a fixed point.  Under a
/// stream of successful reports at one constant throughput the estimate
/// therefore descends to that throughput exactly, or climbs toward it
/// without overshooting.
pub proof fn lemma_estimate_converges_toward_rate(e: int, wa: int, o: int, w: int)
    requires
        e >= 1,
        o >= 1,
        wa >= 1,
        w >= 1,
    ensures
        e > o ==> o <= blended_estimate(e, wa, o, w) < e,
        e < o ==> e <= blended_estimate(e, wa, o, w) <= o,
        e == o ==> blended_estimate(e, wa, o, w) == o,
{
    lemma_blend_between(e, wa, o, w);
    if e > o {
        let d = wa + w;
        assert(e * wa + o * w <= e * d - 1) by (nonlinear_arith)
            requires
                e > o,
                w >= 1,
                d == wa + w,
        {}
        assert(e * d - 1 == d * (e - 1) + (d - 1)) by (nonlinear_arith) {}
        lemma_fundamental_div_mod_converse(e * d - 1, d, e - 1, d - 1);
        lemma_div_is_ordered(e * wa + o * w, e * d - 1, d);
    }
}

} // verus!
