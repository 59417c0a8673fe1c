//! E-model voice quality: effective latency and loss give an R-factor, which
//! maps to a Mean Opinion Score between 1.0 and 4.5.
use vstd::prelude::*;

verus! {

/// Fixed-point scale of the R-factor: one unit of R is a million units here.
pub const R_SCALE: u64 = 1_000_000;

/// Largest R-factor, scaled.
pub const R_MAX: u64 = 100_000_000;

/// Effective latency in microseconds: the RTT, twice the jitter, and 10 ms of
/// codec delay.
pub open spec fn effective_latency(rtt_us: int, jitter_us: int) -> int {
    rtt_us + 2 * jitter_us + 10_000
}

/// R-factor before loss, scaled by `R_SCALE`: `94.2 - e/40` below 160 ms of
/// effective latency, `94.2 - (e - 120)/10` from there on (`e` in ms).
pub open spec fn r_from_latency(e_us: int) -> int {
    if e_us < 160_000 {
        94_200_000 - 25 * e_us
    } else {
        94_200_000 - 100 * (e_us - 120_000)
    }
}

/// The R-factor, scaled by `R_SCALE`: latency impairment, then 2.5 points per
/// percent of loss (`loss_mpct` in thousandths of a percent), clamped to
/// `[0, 100]`.
pub open spec fn r_factor(rtt_us: int, jitter_us: int, loss_mpct: int) -> int {
    let r = r_from_latency(effective_latency(rtt_us, jitter_us)) - 2500 * loss_mpct;
    if r < 0 {
        0
    } else if r > R_MAX {
        R_MAX as int
    } else {
        r
    }
}

/// `1 + 0.035 R + 0.000007 R (R - 60) (100 - R)` for a scaled R, times 10^24.
pub open spec fn mos_numerator(r: int) -> int {
    1_000_000_000_000_000_000_000_000 + 35_000_000_000_000_000 * r + 7 * r * (r - 60_000_000) * (
    100_000_000 - r)
}

/// MOS in thousandths for a scaled R-factor in `[0, R_MAX]`, rounded down.
pub open spec fn mos_of_r(r: int) -> int {
    mos_numerator(r) / 1_000_000_000_000_000_000_000
}

/// MOS in thousandths for an RTT and a jitter in microseconds and a loss in
/// thousandths of a percent.
pub open spec fn mos_spec(rtt_us: int, jitter_us: int, loss_mpct: int) -> int {
    mos_of_r(r_factor(rtt_us, jitter_us, loss_mpct))
}

proof fn lemma_numerator_positive(r: int)
    requires
        0 <= r <= R_MAX,
    ensures
        mos_numerator(r) > 0,
{
    if r < 60_000_000 {
        assert(7 * r * (r - 60_000_000) * (100_000_000 - r) >= -42_000_000_000_000_000 * r)
            by (nonlinear_arith)
            requires
                0 <= r < 60_000_000,
        ;
    } else {
        assert(7 * r * (r - 60_000_000) * (100_000_000 - r) >= 0) by (nonlinear_arith)
            requires
                60_000_000 <= r <= 100_000_000,
        ;
    }
}

/// Computes the Mean Opinion Score (in thousandths) of a link with the given
/// RTT and jitter (microseconds) and loss (thousandths of a percent).
pub fn calculate_mos(rtt_us: u32, jitter_us: u32, loss_mpct: u32) -> (r: u32)
    ensures
        r == mos_spec(rtt_us as int, jitter_us as int, loss_mpct as int),
        r <= 4500,
{
    let e: i128 = rtt_us as i128 + 2 * (jitter_us as i128) + 10_000;
    let base: i128 = if e < 160_000 {
        94_200_000 - 25 * e
    } else {
        94_200_000 - 100 * (e - 120_000)
    };
    let raw: i128 = base - 2500 * (loss_mpct as i128);
    let rf: i128 = if raw < 0 {
        0
    } else if raw > R_MAX as i128 {
        R_MAX as i128
    } else {
        raw
    };
    assert(rf == r_factor(rtt_us as int, jitter_us as int, loss_mpct as int));
    proof {
        lemma_numerator_positive(rf as int);
        lemma_mos_at_most_max(rf as int);
    }
    let a: i128 = 7 * rf;
    assert(-42_000_000_000_000_000 <= a * (rf - 60_000_000) <= 28_000_000_000_000_000)
        by (nonlinear_arith)
        requires
            0 <= rf <= 100_000_000,
            a == 7 * rf,
    ;
    let b: i128 = a * (rf - 60_000_000);
    assert(-4_200_000_000_000_000_000_000_000 <= b * (100_000_000 - rf)
        <= 2_800_000_000_000_000_000_000_000) by (nonlinear_arith)
        requires
            0 <= rf <= 100_000_000,
            -42_000_000_000_000_000 <= b <= 28_000_000_000_000_000,
    ;
    let cubic: i128 = b * (100_000_000 - rf);
    assert(cubic == 7 * rf * (rf - 60_000_000) * (100_000_000 - rf)) by (nonlinear_arith)
        requires
            a == 7 * rf,
            b == a * (rf - 60_000_000),
            cubic == b * (100_000_000 - rf),
    ;
    let num: i128 = 1_000_000_000_000_000_000_000_000 + 35_000_000_000_000_000 * rf + cubic;
    let mos: u128 = (num as u128) / 1_000_000_000_000_000_000_000;
    mos as u32
}

proof fn lemma_mos_at_most_max(r: int)
    requires
        0 <= r <= R_MAX,
    ensures
        mos_of_r(r) <= 4500,
{
    assert(mos_numerator(r) <= 4_500_000_000_000_000_000_000_000) by (nonlinear_arith)
        requires
            0 <= r <= 100_000_000,
    ;
}

/// Smallest scaled R-factor from which MOS grows with R. Below about 3.2 the
/// cubic term of the score outweighs the linear one, so the score dips
/// slightly under 1.0 before R reaches 0.
pub const R_MONOTONE_FLOOR: u64 = 4_000_000;

/// Smallest scaled R-factor from which the score is at least 1.0 again.
pub const R_FLOOR_SCORE: u64 = 7_000_000;

/// A worse RTT, jitter or loss never raises the R-factor.
pub proof fn lemma_r_factor_monotone(
    rtt1: u32,
    jitter1: u32,
    loss1: u32,
    rtt2: u32,
    jitter2: u32,
    loss2: u32,
)
    requires
        rtt1 <= rtt2,
        jitter1 <= jitter2,
        loss1 <= loss2,
    ensures
        r_factor(rtt2 as int, jitter2 as int, loss2 as int) <= r_factor(
            rtt1 as int,
            jitter1 as int,
            loss1 as int,
        ),
{
}

proof fn lemma_gap_factor_nonneg(a: int, b: int)
    requires
        R_MONOTONE_FLOOR <= a <= b <= R_MAX,
    ensures
        -1_000_000_000_000_000 + 160_000_000 * (a + b) - (a * a + a * b + b * b) >= 0,
{
    let g0 = -1_000_000_000_000_000 + 320_000_000 * a - 3 * a * a;
    assert(g0 >= 0) by (nonlinear_arith)
        requires
            4_000_000 <= a <= 100_000_000,
            g0 == -1_000_000_000_000_000 + 320_000_000 * a - 3 * a * a,
    {
        assert(g0 == -3 * (a - 4_000_000) * (a - 100_000_000) + 8_000_000 * a
            + 200_000_000_000_000);
        assert((a - 4_000_000) * (a - 100_000_000) <= 0);
    }
    let g_top = 5_000_000_000_000_000 + 60_000_000 * a - a * a;
    assert(g_top >= 0) by (nonlinear_arith)
        requires
            4_000_000 <= a <= 100_000_000,
            g_top == 5_000_000_000_000_000 + 60_000_000 * a - a * a,
    {
        assert(g_top == (100_000_000 - a) * (a + 40_000_000) + 1_000_000_000_000_000);
        assert((100_000_000 - a) * (a + 40_000_000) >= 0);
    }
    let t = b - a;
    let big_t = 100_000_000 - a;
    let g = -1_000_000_000_000_000 + 160_000_000 * (a + b) - (a * a + a * b + b * b);
    assert(g == g0 + t * (160_000_000 - 3 * a - t)) by (nonlinear_arith)
        requires
            t == b - a,
            g == -1_000_000_000_000_000 + 160_000_000 * (a + b) - (a * a + a * b + b * b),
            g0 == -1_000_000_000_000_000 + 320_000_000 * a - 3 * a * a,
    ;
    assert(g_top == g0 + big_t * (160_000_000 - 3 * a - big_t)) by (nonlinear_arith)
        requires
            big_t == 100_000_000 - a,
            g_top == 5_000_000_000_000_000 + 60_000_000 * a - a * a,
            g0 == -1_000_000_000_000_000 + 320_000_000 * a - 3 * a * a,
    ;
    if big_t > 0 {
        assert(big_t * g == (big_t - t) * g0 + t * g_top + t * big_t * (big_t - t))
            by (nonlinear_arith)
            requires
                g == g0 + t * (160_000_000 - 3 * a - t),
                g_top == g0 + big_t * (160_000_000 - 3 * a - big_t),
        ;
        assert((big_t - t) * g0 >= 0) by (nonlinear_arith)
            requires
                t <= big_t,
                g0 >= 0,
        ;
        assert(t * g_top >= 0) by (nonlinear_arith)
            requires
                t >= 0,
                g_top >= 0,
        ;
        assert(t * big_t * (big_t - t) >= 0) by (nonlinear_arith)
            requires
                0 <= t <= big_t,
        ;
        assert(g >= 0) by (nonlinear_arith)
            requires
                big_t > 0,
                big_t * g >= 0,
        ;
    }
}

proof fn lemma_cubic_expanded(x: int)
    ensures
        mos_numerator(x) == 1_000_000_000_000_000_000_000_000 + 35_000_000_000_000_000 * x + 7 * (
        -(x * x * x) + 160_000_000 * (x * x) - 6_000_000_000_000_000 * x),
{
    assert(x * (x - 60_000_000) * (100_000_000 - x) == -(x * x * x) + 160_000_000 * (x * x)
        - 6_000_000_000_000_000 * x) by (nonlinear_arith);
    assert(7 * x * (x - 60_000_000) * (100_000_000 - x) == 7 * (x * (x - 60_000_000) * (
    100_000_000 - x))) by (nonlinear_arith);
}

/// From `R_MONOTONE_FLOOR` up, a higher R-factor never gives a lower score.
pub proof fn lemma_mos_of_r_monotone(a: int, b: int)
    requires
        R_MONOTONE_FLOOR <= a <= b <= R_MAX,
    ensures
        mos_of_r(a) <= mos_of_r(b),
{
    lemma_gap_factor_nonneg(a, b);
    let g = -1_000_000_000_000_000 + 160_000_000 * (a + b) - (a * a + a * b + b * b);
    let na = mos_numerator(a);
    let nb = mos_numerator(b);
    lemma_cubic_expanded(a);
    lemma_cubic_expanded(b);
    let a2 = a * a;
    let b2 = b * b;
    let ab = a * b;
    assert(b * b * b - a * a * a == (b - a) * (a2 + ab + b2)) by (nonlinear_arith)
        requires
            a2 == a * a,
            b2 == b * b,
            ab == a * b,
    ;
    assert(b2 - a2 == (b - a) * (a + b)) by (nonlinear_arith)
        requires
            a2 == a * a,
            b2 == b * b,
    ;
    assert(nb - na == 7 * (b - a) * g) by (nonlinear_arith)
        requires
            g == -1_000_000_000_000_000 + 160_000_000 * (a + b) - (a2 + ab + b2),
            na == 1_000_000_000_000_000_000_000_000 + 35_000_000_000_000_000 * a + 7 * (-(a * a
                * a) + 160_000_000 * a2 - 6_000_000_000_000_000 * a),
            nb == 1_000_000_000_000_000_000_000_000 + 35_000_000_000_000_000 * b + 7 * (-(b * b
                * b) + 160_000_000 * b2 - 6_000_000_000_000_000 * b),
            b * b * b - a * a * a == (b - a) * (a2 + ab + b2),
            b2 - a2 == (b - a) * (a + b),
    ;
    assert(7 * (b - a) * g >= 0) by (nonlinear_arith)
        requires
            b - a >= 0,
            g >= 0,
    ;
    vstd::arithmetic::div_mod::lemma_div_is_ordered(na, nb, 1_000_000_000_000_000_000_000);
}

/// The score never rises when the RTT, the jitter or the loss worsens, each on
/// its own or together, as long as the worse link keeps an R-factor of at
/// least `R_MONOTONE_FLOOR`.
pub proof fn lemma_mos_monotone(
    rtt1: u32,
    jitter1: u32,
    loss1: u32,
    rtt2: u32,
    jitter2: u32,
    loss2: u32,
)
    requires
        rtt1 <= rtt2,
        jitter1 <= jitter2,
        loss1 <= loss2,
        r_factor(rtt2 as int, jitter2 as int, loss2 as int) >= R_MONOTONE_FLOOR,
    ensures
        mos_spec(rtt2 as int, jitter2 as int, loss2 as int) <= mos_spec(
            rtt1 as int,
            jitter1 as int,
            loss1 as int,
        ),
{
    lemma_r_factor_monotone(rtt1, jitter1, loss1, rtt2, jitter2, loss2);
    lemma_mos_of_r_monotone(
        r_factor(rtt2 as int, jitter2 as int, loss2 as int),
        r_factor(rtt1 as int, jitter1 as int, loss1 as int),
    );
}

/// The score never exceeds 4.5; it is exactly 1.0 when the R-factor is clamped
/// to 0, and at least 1.0 whenever the R-factor is at least `R_FLOOR_SCORE`.
pub proof fn lemma_mos_bounds(rtt: u32, jitter: u32, loss: u32)
    ensures
        mos_spec(rtt as int, jitter as int, loss as int) <= 4500,
        r_factor(rtt as int, jitter as int, loss as int) == 0 ==> mos_spec(
            rtt as int,
            jitter as int,
            loss as int,
        ) == 1000,
        r_factor(rtt as int, jitter as int, loss as int) >= R_FLOOR_SCORE ==> mos_spec(
            rtt as int,
            jitter as int,
            loss as int,
        ) >= 1000,
{
    let r = r_factor(rtt as int, jitter as int, loss as int);
    lemma_mos_at_most_max(r);
    assert(mos_numerator(0) == 1_000_000_000_000_000_000_000_000);
    if r >= R_FLOOR_SCORE {
        let k = -r * r + 160_000_000 * r - 1_000_000_000_000_000;
        assert(k >= 0) by (nonlinear_arith)
            requires
                7_000_000 <= r <= 100_000_000,
                k == -r * r + 160_000_000 * r - 1_000_000_000_000_000,
        {
            assert(k == -(r - 7_000_000) * (r - 100_000_000) + 53_000_000 * r
                - 300_000_000_000_000);
            assert((r - 7_000_000) * (r - 100_000_000) <= 0);
        }
        let n = mos_numerator(r);
        assert(n - 1_000_000_000_000_000_000_000_000 == 7 * r * k) by (nonlinear_arith)
            requires
                k == -r * r + 160_000_000 * r - 1_000_000_000_000_000,
                n == 1_000_000_000_000_000_000_000_000 + 35_000_000_000_000_000 * r + 7 * r * (r
                    - 60_000_000) * (100_000_000 - r),
        ;
        assert(7 * r * k >= 0) by (nonlinear_arith)
            requires
                r >= 0,
                k >= 0,
        ;
        vstd::arithmetic::div_mod::lemma_div_is_ordered(
            1_000_000_000_000_000_000_000_000,
            n,
            1_000_000_000_000_000_000_000,
        );
    }
}

} // verus!
