//! The scores by which a mixer is elected, in millionths.

use vstd::prelude::*;

verus! {

/// One whole in fixed-point score arithmetic: scores and weights are counted
/// in millionths.
pub const SCORE_ONE: u64 = 1_000_000;

/// Bandwidth that earns the full bandwidth score, in bits per second.
pub const FULL_SCORE_BANDWIDTH_BPS: u64 = 10_000_000;

/// Session duration that earns the full duration score: one hour, in milliseconds.
pub const FULL_SCORE_DURATION_MS: u64 = 3_600_000;

/// Whether `r` is the greatest number whose square does not exceed `x`.
pub open spec fn is_sqrt(x: nat, r: nat) -> bool {
    r * r <= x && x < (r + 1) * (r + 1)
}

/// The greatest number whose square does not exceed `x`.
pub open spec fn sqrt_floor(x: nat) -> nat {
    choose|r: nat| is_sqrt(x, r)
}

/// There is one integer square root, no more.
pub proof fn lemma_sqrt_is_unique(x: nat, a: nat, b: nat)
    requires
        is_sqrt(x, a),
        is_sqrt(x, b),
    ensures
        a == b,
{
    if a < b {
        assert((a + 1) * (a + 1) <= b * b) by (nonlinear_arith)
            requires
                a + 1 <= b,
        ;
    } else if b < a {
        assert((b + 1) * (b + 1) <= a * a) by (nonlinear_arith)
            requires
                b + 1 <= a,
        ;
    }
}

/// The integer square root of `x`.
pub fn isqrt(x: u64) -> (r: u64)
    ensures
        r == sqrt_floor(x as nat),
        is_sqrt(x as nat, r as nat),
        r <= 0xffff_ffff,
{
    let mut lo: u64 = 0;
    let mut hi: u64 = 0x1_0000_0000;
    assert(0x1_0000_0000u64 * 0x1_0000_0000u64 > x) by (nonlinear_arith)
        requires
            x <= u64::MAX,
    ;
    while hi - lo > 1
        invariant
            lo < hi <= 0x1_0000_0000,
            lo * lo <= x,
            hi * hi > x,
        decreases hi - lo,
    {
        let mid = lo + (hi - lo) / 2;
        assert(mid * mid <= 0xffff_ffffu64 * 0xffff_ffffu64) by (nonlinear_arith)
            requires
                mid <= 0xffff_ffffu64,
        ;
        if mid * mid <= x {
            lo = mid;
        } else {
            hi = mid;
        }
    }
    assert(hi == lo + 1);
    proof {
        assert(is_sqrt(x as nat, lo as nat));
        lemma_sqrt_is_unique(x as nat, lo as nat, sqrt_floor(x as nat));
    }
    lo
}

/// Bandwidth score in millionths: the share of ten megabits per second that
/// the bandwidth reaches, at most one whole.
pub open spec fn spec_bandwidth_score(bandwidth_bps: u64) -> u64 {
    if bandwidth_bps >= FULL_SCORE_BANDWIDTH_BPS {
        SCORE_ONE
    } else {
        (bandwidth_bps / 10) as u64
    }
}

/// Bandwidth score in millionths.
#[verifier::when_used_as_spec(spec_bandwidth_score)]
pub fn bandwidth_score(bandwidth_bps: u64) -> (s: u64)
    ensures
        s == spec_bandwidth_score(bandwidth_bps),
        s <= SCORE_ONE,
{
    if bandwidth_bps >= FULL_SCORE_BANDWIDTH_BPS {
        SCORE_ONE
    } else {
        bandwidth_bps / 10
    }
}

/// Variance beyond which the stability score no longer falls, in square
/// milliseconds.
pub const MAX_SCORED_VARIANCE: u64 = 18_000_000_000_000;

/// Stability score in millionths for a latency variance in square
/// milliseconds: `1 / (1 + sqrt(variance) / 100)`, with the square root taken
/// to a thousandth and the quotient rounded down. No variance scores one
/// whole; a variance beyond the scored maximum scores as the maximum.
pub open spec fn spec_stability_score(variance: u64) -> u64 {
    if variance == 0 {
        SCORE_ONE
    } else {
        let capped = if variance > MAX_SCORED_VARIANCE {
            MAX_SCORED_VARIANCE
        } else {
            variance
        };
        ((100_000 * SCORE_ONE as nat) / (100_000 + sqrt_floor(capped as nat * 1_000_000))) as u64
    }
}

/// Stability score in millionths.
#[verifier::when_used_as_spec(spec_stability_score)]
pub fn stability_score(variance: u64) -> (s: u64)
    ensures
        s == spec_stability_score(variance),
        s <= SCORE_ONE,
{
    if variance == 0 {
        return SCORE_ONE;
    }
    let capped = if variance > MAX_SCORED_VARIANCE {
        MAX_SCORED_VARIANCE
    } else {
        variance
    };
    let root = isqrt(capped * 1_000_000);
    let s = (100_000 * SCORE_ONE) / (100_000 + root);
    assert(s <= SCORE_ONE) by (nonlinear_arith)
        requires
            s == 100_000_000_000int / (100_000 + root as int),
            root >= 0,
    ;
    s
}

/// Resource score in millionths: the mean of the idle shares of processor
/// and memory, each usage in whole percent and counted as 100 beyond.
pub open spec fn spec_resource_score(cpu_percent: u32, memory_percent: u32) -> u64 {
    let cpu: int = if cpu_percent > 100 { 100 } else { cpu_percent as int };
    let memory: int = if memory_percent > 100 { 100 } else { memory_percent as int };
    (((100 - cpu) + (100 - memory)) * 5_000) as u64
}

/// Resource score in millionths.
#[verifier::when_used_as_spec(spec_resource_score)]
pub fn resource_score(cpu_percent: u32, memory_percent: u32) -> (s: u64)
    ensures
        s == spec_resource_score(cpu_percent, memory_percent),
        s <= SCORE_ONE,
{
    let cpu: u64 = if cpu_percent > 100 {
        100
    } else {
        cpu_percent as u64
    };
    let memory: u64 = if memory_percent > 100 {
        100
    } else {
        memory_percent as u64
    };
    ((100 - cpu) + (100 - memory)) * 5_000
}

/// Duration score in millionths: the square of the share of one hour that
/// the session has lasted, at most one whole, rounded down.
pub open spec fn spec_duration_score(session_ms: u64) -> u64 {
    if session_ms >= FULL_SCORE_DURATION_MS {
        SCORE_ONE
    } else {
        ((session_ms * session_ms) / 12_960_000) as u64
    }
}

/// Duration score in millionths.
#[verifier::when_used_as_spec(spec_duration_score)]
pub fn duration_score(session_ms: u64) -> (s: u64)
    ensures
        s == spec_duration_score(session_ms),
        s <= SCORE_ONE,
{
    if session_ms >= FULL_SCORE_DURATION_MS {
        SCORE_ONE
    } else {
        assert(session_ms * session_ms <= 3_600_000 * 3_600_000) by (nonlinear_arith)
            requires
                session_ms <= 3_600_000,
        ;
        (session_ms * session_ms) / 12_960_000
    }
}

/// How much each subscore counts, in millionths.
#[derive(Debug, Clone, Copy, PartialEq, Eq, Structural)]
pub struct ScoreWeights {
    pub bandwidth: u64,
    pub stability: u64,
    pub resources: u64,
    pub duration: u64,
}

impl ScoreWeights {
    /// Weights that add up to no more than one whole.
    pub open spec fn wf(&self) -> bool {
        self.bandwidth + self.stability + self.resources + self.duration <= SCORE_ONE
    }
}

impl Default for ScoreWeights {
    /// 0.40 for bandwidth, 0.25 for stability, 0.20 for resources, 0.15 for duration.
    fn default() -> (w: Self)
        ensures
            w == (ScoreWeights {
                bandwidth: 400_000,
                stability: 250_000,
                resources: 200_000,
                duration: 150_000,
            }),
            w.wf(),
    {
        Self { bandwidth: 400_000, stability: 250_000, resources: 200_000, duration: 150_000 }
    }
}

/// The weighted sum of the four subscores in millionths, rounded down.
pub open spec fn weighted_sum(
    w: ScoreWeights,
    bandwidth: u64,
    stability: u64,
    resources: u64,
    duration: u64,
) -> int {
    (w.bandwidth * bandwidth + w.stability * stability + w.resources * resources + w.duration
        * duration) / (SCORE_ONE as int)
}

/// The total score in millionths: the weighted sum of the four subscores,
/// rounded down, or the largest number that fits where weights that add up
/// to more than one whole carry it beyond.
pub open spec fn spec_total_score(
    w: ScoreWeights,
    bandwidth: u64,
    stability: u64,
    resources: u64,
    duration: u64,
) -> int {
    if weighted_sum(w, bandwidth, stability, resources, duration) > u64::MAX {
        u64::MAX as int
    } else {
        weighted_sum(w, bandwidth, stability, resources, duration)
    }
}

/// With weights that add up to no more than one whole, the total of four
/// subscores of no more than one whole each is their weighted sum and no
/// more than one whole.
pub proof fn lemma_total_score_is_a_share(
    w: ScoreWeights,
    bandwidth: u64,
    stability: u64,
    resources: u64,
    duration: u64,
)
    requires
        w.wf(),
        bandwidth <= SCORE_ONE,
        stability <= SCORE_ONE,
        resources <= SCORE_ONE,
        duration <= SCORE_ONE,
    ensures
        spec_total_score(w, bandwidth, stability, resources, duration) == weighted_sum(
            w,
            bandwidth,
            stability,
            resources,
            duration,
        ),
        spec_total_score(w, bandwidth, stability, resources, duration) <= SCORE_ONE,
{
    assert(w.bandwidth * bandwidth + w.stability * stability + w.resources * resources + w.duration
        * duration <= SCORE_ONE * SCORE_ONE) by (nonlinear_arith)
        requires
            w.bandwidth + w.stability + w.resources + w.duration <= SCORE_ONE,
            bandwidth <= SCORE_ONE,
            stability <= SCORE_ONE,
            resources <= SCORE_ONE,
            duration <= SCORE_ONE,
    ;
}

/// One weighted subscore, as a number wide enough to hold it.
fn weighted(weight: u64, subscore: u64) -> (p: u128)
    requires
        subscore <= SCORE_ONE,
    ensures
        p == weight * subscore,
        p <= u64::MAX * SCORE_ONE,
{
    assert(weight * subscore <= u64::MAX * SCORE_ONE) by (nonlinear_arith)
        requires
            weight <= u64::MAX,
            subscore <= SCORE_ONE,
    ;
    (weight as u128) * (subscore as u128)
}

/// The total score in millionths of four subscores of no more than one
/// whole each.
pub fn total_score(
    w: &ScoreWeights,
    bandwidth: u64,
    stability: u64,
    resources: u64,
    duration: u64,
) -> (s: u64)
    requires
        bandwidth <= SCORE_ONE,
        stability <= SCORE_ONE,
        resources <= SCORE_ONE,
        duration <= SCORE_ONE,
    ensures
        s == spec_total_score(*w, bandwidth, stability, resources, duration),
{
    let sum: u128 = weighted(w.bandwidth, bandwidth) + weighted(w.stability, stability) + weighted(
        w.resources,
        resources,
    ) + weighted(w.duration, duration);
    let whole: u128 = sum / 1_000_000;
    if whole > 0xffff_ffff_ffff_ffff {
        u64::MAX
    } else {
        whole as u64
    }
}

} // verus!
