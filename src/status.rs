//! The rolling quality profile of one host and its per-sample update.
use vstd::prelude::*;
use crate::mos::{calculate_mos, mos_spec};
use crate::summary::{
    calculate_percentile, is_isqrt, max_of, mean_of, mean_rtt, min_max_rtt, min_of,
    percentile_of, stddev_rtt, valid_rtts, valid_samples, variance_of,
};

verus! {

/// Number of samples the window keeps; the oldest leaves first.
pub const HISTORY_CAP: usize = 300;

/// A sample is an outlier only while the window's standard deviation exceeds
/// this many microseconds.
pub const OUTLIER_MIN_STDDEV_US: u32 = 100;

/// Appends to a window and drops the oldest entry once it holds more than
/// `HISTORY_CAP`.
pub open spec fn capped_push<T>(s: Seq<T>, x: T) -> Seq<T> {
    if s.len() + 1 > HISTORY_CAP {
        s.push(x).drop_first()
    } else {
        s.push(x)
    }
}

/// Thousandths of a percent of `part` in `whole`, rounded down.
pub open spec fn per_hundred_thousand(part: int, whole: int) -> int {
    part * 100_000 / whole
}

/// The streak after a sample: it grows while the outcome repeats and restarts
/// at 1 when it changes.
pub open spec fn next_streak(streak: u32, streak_success: bool, ok: bool) -> (int, bool) {
    if ok == streak_success {
        (streak + 1, ok)
    } else {
        (1, ok)
    }
}

/// Jitter after a new gap `d` between the last two replies: the gap itself on
/// the second sample ever sent, otherwise the running value moved a sixteenth
/// of the way to `d` (rounded down).
pub open spec fn next_jitter(jitter: int, d: int, sent: int) -> int {
    if sent == 2 {
        d
    } else {
        (15 * jitter + d) / 16
    }
}

/// Whether a sample counts as an outlier against the window's mean and
/// standard deviation.
pub open spec fn is_outlier(rtt_us: Option<u32>, mean: int, stddev: int) -> bool {
    match rtt_us {
        Some(v) => v > mean + 3 * stddev && stddev > OUTLIER_MIN_STDDEV_US,
        None => false,
    }
}

/// Rolling statistics of one host, derived from its last `HISTORY_CAP` RTT
/// samples. A sample is an RTT in microseconds, or `None` for a probe that got
/// no reply. Times are in microseconds, `availability` in thousandths of a
/// percent, `mos` in thousandths.
#[derive(Debug)]
pub struct HostStatus {
    /// Whether the last probe got a reply.
    pub alive: bool,
    /// Last sample.
    pub latency: Option<u32>,
    /// The window of samples, oldest first.
    pub history: Vec<Option<u32>>,
    pub mean: u32,
    /// RTP jitter (RFC 3550 style running estimate).
    pub rtp_jitter: u32,
    /// The last `HISTORY_CAP` jitter values, oldest first.
    pub rtp_jitter_history: Vec<u32>,
    pub median: u32,
    pub p95: u32,
    pub stddev: u32,
    pub min_rtt: u32,
    pub max_rtt: u32,
    pub rtp_jitter_mean: u32,
    pub rtp_jitter_median: u32,
    pub mos: u32,
    pub availability: u32,
    /// Samples so far that exceeded mean + 3 standard deviations.
    pub outliers: u32,
    /// Length of the current run of equal outcomes.
    pub streak: u32,
    /// Whether the current run is of replies.
    pub streak_success: bool,
    /// Probes sent.
    pub sent: u32,
    /// Probes without reply.
    pub lost: u32,
}

impl HostStatus {
    /// The invariant every status keeps.
    pub open spec fn wf(&self) -> bool {
        &&& self.history@.len() <= HISTORY_CAP
        &&& self.rtp_jitter_history@.len() <= HISTORY_CAP
        &&& self.lost <= self.sent
        &&& self.streak <= self.sent
        &&& self.outliers <= self.sent
        &&& (self.sent >= 1 ==> self.streak >= 1)
        &&& self.availability <= 100_000
        &&& self.mos <= 4500
    }

    /// No sample taken yet: empty windows and every number 0.
    pub open spec fn is_fresh(&self) -> bool {
        &&& self.history@.len() == 0
        &&& self.rtp_jitter_history@.len() == 0
        &&& self.sent == 0
        &&& self.lost == 0
        &&& self.streak == 0
        &&& !self.streak_success
        &&& self.outliers == 0
        &&& self.latency.is_none()
        &&& !self.alive
        &&& self.mean == 0 && self.median == 0 && self.p95 == 0 && self.stddev == 0
        &&& self.min_rtt == 0 && self.max_rtt == 0
        &&& self.rtp_jitter == 0 && self.rtp_jitter_mean == 0 && self.rtp_jitter_median == 0
        &&& self.mos == 0 && self.availability == 0
    }

    /// A status with no samples.
    pub fn new() -> (r: Self)
        ensures
            r.wf(),
            r.is_fresh(),
    {
        HostStatus {
            alive: false,
            latency: None,
            history: Vec::new(),
            mean: 0,
            rtp_jitter: 0,
            rtp_jitter_history: Vec::new(),
            median: 0,
            p95: 0,
            stddev: 0,
            min_rtt: 0,
            max_rtt: 0,
            rtp_jitter_mean: 0,
            rtp_jitter_median: 0,
            mos: 0,
            availability: 0,
            outliers: 0,
            streak: 0,
            streak_success: false,
            sent: 0,
            lost: 0,
        }
    }

    /// Adds one sample (`None` for a lost probe) and recomputes every derived
    /// field over the window.
    pub fn add_sample(&mut self, rtt_us: Option<u32>)
        requires
            old(self).wf(),
            old(self).sent < u32::MAX,
        ensures
            final(self).wf(),
            final(self).lost <= final(self).sent,
            final(self).history@.len() <= HISTORY_CAP,
            final(self).alive == old(self).alive,
            final(self).sent == old(self).sent + 1,
            final(self).lost == old(self).lost + if rtt_us.is_none() {
                1int
            } else {
                0int
            },
            (final(self).streak as int, final(self).streak_success) == next_streak(
                old(self).streak,
                old(self).streak_success,
                rtt_us.is_some(),
            ),
            final(self).latency == rtt_us,
            final(self).history@ == capped_push(old(self).history@, rtt_us),
            final(self).availability == per_hundred_thousand(
                final(self).sent - final(self).lost,
                final(self).sent as int,
            ),
            final(self).outliers >= old(self).outliers,
            ({
                let v = valid_samples(final(self).history@);
                v.len() <= 1 ==> {
                    &&& final(self).mean == (if v.len() == 0 { 0 } else { v[0] as int })
                    &&& final(self).median == final(self).mean
                    &&& final(self).mos == (if v.len() == 0 {
                        old(self).mos as int
                    } else {
                        mos_spec(v[0] as int, old(self).rtp_jitter as int, 0)
                    })
                    &&& final(self).p95 == old(self).p95
                    &&& final(self).stddev == old(self).stddev
                    &&& final(self).min_rtt == old(self).min_rtt
                    &&& final(self).max_rtt == old(self).max_rtt
                    &&& final(self).rtp_jitter == old(self).rtp_jitter
                    &&& final(self).rtp_jitter_history@ == old(self).rtp_jitter_history@
                    &&& final(self).rtp_jitter_mean == old(self).rtp_jitter_mean
                    &&& final(self).rtp_jitter_median == old(self).rtp_jitter_median
                    &&& final(self).outliers == old(self).outliers
                }
            }),
            ({
                let v = valid_samples(final(self).history@);
                let n = v.len() as int;
                let s = *final(self);
                n >= 2 ==> {
                    let d = if v[n - 1] >= v[n - 2] {
                        v[n - 1] - v[n - 2]
                    } else {
                        v[n - 2] - v[n - 1]
                    };
                    &&& s.mean == mean_of(v)
                    &&& s.rtp_jitter == next_jitter(old(self).rtp_jitter as int, d, s.sent as int)
                    &&& s.rtp_jitter_history@ == capped_push(
                        old(self).rtp_jitter_history@,
                        s.rtp_jitter,
                    )
                    &&& s.median == percentile_of(v, 50)
                    &&& s.p95 == percentile_of(v, 95)
                    &&& s.min_rtt == min_of(v)
                    &&& s.max_rtt == max_of(v)
                    &&& is_isqrt(s.stddev as int, variance_of(v, s.mean as int))
                    &&& s.rtp_jitter_mean == mean_of(s.rtp_jitter_history@)
                    &&& s.rtp_jitter_median == percentile_of(s.rtp_jitter_history@, 50)
                    &&& s.outliers == old(self).outliers + (if is_outlier(
                        rtt_us,
                        s.mean as int,
                        s.stddev as int,
                    ) {
                        1int
                    } else {
                        0int
                    })
                    &&& s.mos == mos_spec(
                        s.mean as int,
                        s.rtp_jitter as int,
                        per_hundred_thousand(s.lost as int, s.sent as int),
                    )
                }
            }),
    {
        self.sent = self.sent + 1;
        let ok = rtt_us.is_some();
        if !ok {
            self.lost = self.lost + 1;
        }
        if ok == self.streak_success {
            self.streak = self.streak + 1;
        } else {
            self.streak = 1;
            self.streak_success = ok;
        }
        self.latency = rtt_us;
        self.history.push(rtt_us);
        if self.history.len() > HISTORY_CAP {
            self.history.remove(0);
        }
        assert(self.history@ =~= capped_push(old(self).history@, rtt_us));
        let replied: u64 = (self.sent - self.lost) as u64;
        let total: u64 = self.sent as u64;
        assert(replied * 100_000 / (total as int) <= 100_000) by (nonlinear_arith)
            requires
                replied <= total,
                total >= 1,
        ;
        self.availability = (replied * 100_000 / self.sent as u64) as u32;

        let valid = valid_rtts(self.history.as_slice());
        proof {
            lemma_valid_len(self.history@);
        }
        let n = valid.len();
        if n == 0 {
            self.mean = 0;
            self.median = 0;
            return;
        }
        if n == 1 {
            self.mean = valid[0];
            self.median = valid[0];
            self.mos = calculate_mos(self.mean, self.rtp_jitter, 0);
            return;
        }
        self.update_summary(rtt_us, valid.as_slice());
    }

    /// Recomputes the summary fields from the replies `valid` of the window
    /// (at least two of them) after a sample has been counted.
    fn update_summary(&mut self, rtt_us: Option<u32>, valid: &[u32])
        requires
            2 <= valid@.len() <= HISTORY_CAP,
            old(self).rtp_jitter_history@.len() <= HISTORY_CAP,
            1 <= old(self).sent,
            old(self).lost <= old(self).sent,
            old(self).outliers < old(self).sent,
        ensures
            final(self).alive == old(self).alive,
            final(self).latency == old(self).latency,
            final(self).history == old(self).history,
            final(self).availability == old(self).availability,
            final(self).streak == old(self).streak,
            final(self).streak_success == old(self).streak_success,
            final(self).sent == old(self).sent,
            final(self).lost == old(self).lost,
            final(self).rtp_jitter_history@.len() <= HISTORY_CAP,
            final(self).outliers <= final(self).sent,
            final(self).mos <= 4500,
            ({
                let v = valid@;
                let n = v.len() as int;
                let s = *final(self);
                let d = if v[n - 1] >= v[n - 2] {
                    v[n - 1] - v[n - 2]
                } else {
                    v[n - 2] - v[n - 1]
                };
                &&& s.mean == mean_of(v)
                &&& s.rtp_jitter == next_jitter(old(self).rtp_jitter as int, d, s.sent as int)
                &&& s.rtp_jitter_history@ == capped_push(
                    old(self).rtp_jitter_history@,
                    s.rtp_jitter,
                )
                &&& s.median == percentile_of(v, 50)
                &&& s.p95 == percentile_of(v, 95)
                &&& s.min_rtt == min_of(v)
                &&& s.max_rtt == max_of(v)
                &&& is_isqrt(s.stddev as int, variance_of(v, s.mean as int))
                &&& s.rtp_jitter_mean == mean_of(s.rtp_jitter_history@)
                &&& s.rtp_jitter_median == percentile_of(s.rtp_jitter_history@, 50)
                &&& s.outliers == old(self).outliers + (if is_outlier(
                    rtt_us,
                    s.mean as int,
                    s.stddev as int,
                ) {
                    1int
                } else {
                    0int
                })
                &&& s.mos == mos_spec(
                    s.mean as int,
                    s.rtp_jitter as int,
                    per_hundred_thousand(s.lost as int, s.sent as int),
                )
            }),
    {
        let n = valid.len();
        self.mean = mean_rtt(valid);

        let last = valid[n - 1];
        let prev = valid[n - 2];
        let d: u32 = if last >= prev {
            last - prev
        } else {
            prev - last
        };
        if self.sent == 2 {
            self.rtp_jitter = d;
        } else {
            self.rtp_jitter = ((15 * self.rtp_jitter as u64 + d as u64) / 16) as u32;
        }
        self.rtp_jitter_history.push(self.rtp_jitter);
        if self.rtp_jitter_history.len() > HISTORY_CAP {
            self.rtp_jitter_history.remove(0);
        }
        assert(self.rtp_jitter_history@ =~= capped_push(
            old(self).rtp_jitter_history@,
            self.rtp_jitter,
        ));

        self.median = calculate_percentile(valid, 50);
        self.p95 = calculate_percentile(valid, 95);
        let (lo, hi) = min_max_rtt(valid);
        self.min_rtt = lo;
        self.max_rtt = hi;
        self.stddev = stddev_rtt(valid, self.mean);

        if self.rtp_jitter_history.len() > 0 {
            self.rtp_jitter_mean = mean_rtt(self.rtp_jitter_history.as_slice());
            self.rtp_jitter_median = calculate_percentile(self.rtp_jitter_history.as_slice(), 50);
        }
        if let Some(v) = rtt_us {
            if v as u64 > self.mean as u64 + 3 * self.stddev as u64 && self.stddev
                > OUTLIER_MIN_STDDEV_US {
                self.outliers = self.outliers + 1;
            }
        }
        let total: u64 = self.sent as u64;
        let lost: u64 = self.lost as u64;
        assert(lost * 100_000 / (total as int) <= 100_000) by (nonlinear_arith)
            requires
                lost <= total,
                total >= 1,
        ;
        let loss: u32 = (self.lost as u64 * 100_000 / self.sent as u64) as u32;
        self.mos = calculate_mos(self.mean, self.rtp_jitter, loss);
    }
}

impl Default for HostStatus {
    fn default() -> (r: Self)
        ensures
            r.wf(),
            r.is_fresh(),
    {
        HostStatus::new()
    }
}

proof fn lemma_valid_len(h: Seq<Option<u32>>)
    ensures
        valid_samples(h).len() <= h.len(),
    decreases h.len(),
{
    if h.len() > 0 {
        lemma_valid_len(h.drop_last());
    }
}

} // verus!
