//! Probe scheduling: jittered per-mode intervals and the per-address timers
//! that decide which hosts are due on each tick.
use vstd::prelude::*;
use crate::config::{HostInfo, PingMode};
use crate::random::random_in;

verus! {

/// Base interval of a mode, in microseconds.
pub open spec fn base_interval_us(mode: PingMode) -> int {
    match mode {
        PingMode::VeryFast => 1_000_000,
        PingMode::Fast => 2_000_000,
        PingMode::NotFast => 5_000_000,
        PingMode::Normal => 10_000_000,
        PingMode::NotSlow => 30_000_000,
        PingMode::Slow => 60_000_000,
        PingMode::VerySlow => 300_000_000,
    }
}

/// Half-width of the jitter band around the base interval, in microseconds.
pub open spec fn jitter_range_us(mode: PingMode) -> int {
    match mode {
        PingMode::VeryFast => 50_000,
        PingMode::Fast => 200_000,
        PingMode::NotFast => 500_000,
        PingMode::Normal => 1_000_000,
        PingMode::NotSlow => 3_000_000,
        PingMode::Slow => 5_000_000,
        PingMode::VerySlow => 15_000_000,
    }
}

/// Longest interval any mode can draw, in microseconds.
pub const MAX_INTERVAL_US: u64 = 315_000_000;

/// `t` lies in the jitter band of `mode`: `[base - jitter, base + jitter)`.
pub open spec fn in_band(mode: PingMode, t: int) -> bool {
    base_interval_us(mode) - jitter_range_us(mode) <= t < base_interval_us(mode)
        + jitter_range_us(mode)
}

/// Base interval and jitter half-range of a mode, in microseconds.
pub fn mode_timing(mode: PingMode) -> (r: (u64, u64))
    ensures
        r.0 == base_interval_us(mode),
        r.1 == jitter_range_us(mode),
{
    match mode {
        PingMode::VeryFast => (1_000_000, 50_000),
        PingMode::Fast => (2_000_000, 200_000),
        PingMode::NotFast => (5_000_000, 500_000),
        PingMode::Normal => (10_000_000, 1_000_000),
        PingMode::NotSlow => (30_000_000, 3_000_000),
        PingMode::Slow => (60_000_000, 5_000_000),
        PingMode::VerySlow => (300_000_000, 15_000_000),
    }
}

/// The interval for an offset `draw` into the jitter band of `mode`.
pub fn interval_from_draw(mode: PingMode, draw: u64) -> (r: u64)
    requires
        draw < 2 * jitter_range_us(mode),
    ensures
        r == base_interval_us(mode) - jitter_range_us(mode) + draw,
        in_band(mode, r as int),
        r <= MAX_INTERVAL_US,
{
    let (base, jitter) = mode_timing(mode);
    base - jitter + draw
}

/// A fresh interval for `mode`, drawn uniformly from its jitter band.
pub fn compute_interval(mode: PingMode) -> (r: u64)
    ensures
        in_band(mode, r as int),
        r <= MAX_INTERVAL_US,
{
    let (_, jitter) = mode_timing(mode);
    let draw = random_in(0, 2 * jitter - 1);
    interval_from_draw(mode, draw)
}

/// The instant (microseconds on the scheduler's clock) at which an address
/// is next due.
pub struct DueTimer {
    pub address: String,
    pub next_due_us: u64,
}

/// The timer of `a` in `ts`, if any (the last entry for `a` wins).
pub open spec fn timer_of(ts: Seq<DueTimer>, a: Seq<char>) -> Option<u64>
    decreases ts.len(),
{
    if ts.len() == 0 {
        None
    } else if ts.last().address@ == a {
        Some(ts.last().next_due_us)
    } else {
        timer_of(ts.drop_last(), a)
    }
}

/// Whether some host of `hs` has address `a`.
pub open spec fn has_address(hs: Seq<HostInfo>, a: Seq<char>) -> bool {
    exists|i: int| 0 <= i < hs.len() && (#[trigger] hs[i]).address@ == a
}

/// A host with no timer, or whose timer has elapsed, is due.
pub open spec fn is_due(timer: Option<u64>, now_us: int) -> bool {
    match timer {
        Some(t) => t <= now_us,
        None => true,
    }
}

/// The hosts that a tick at `now_us` probes: in list order, the first host of
/// each address whose timer is missing or elapsed.
pub open spec fn due_hosts(ts: Seq<DueTimer>, hs: Seq<HostInfo>, now_us: int) -> Seq<HostInfo>
    decreases hs.len(),
{
    if hs.len() == 0 {
        Seq::empty()
    } else {
        let rest = due_hosts(ts, hs.drop_last(), now_us);
        let h = hs.last();
        if !has_address(hs.drop_last(), h.address@) && is_due(timer_of(ts, h.address@), now_us) {
            rest.push(h)
        } else {
            rest
        }
    }
}

/// The mode of the first host of `hs` with address `a`.
pub open spec fn first_mode(hs: Seq<HostInfo>, a: Seq<char>) -> PingMode
    decreases hs.len(),
{
    if hs.len() == 0 {
        PingMode::Fast
    } else if has_address(hs.drop_last(), a) {
        first_mode(hs.drop_last(), a)
    } else {
        hs.last().mode
    }
}

/// The timer `t` that a tick at `now_us` leaves for an address whose timer was
/// `old`: a due address moves one jittered interval of its mode past now, the
/// others keep theirs.
pub open spec fn rescheduled(old: Option<u64>, t: u64, now_us: int, mode: PingMode) -> bool {
    if is_due(old, now_us) {
        in_band(mode, t - now_us)
    } else {
        old == Some(t)
    }
}

/// Finds the timer of an address.
fn find_timer(ts: &Vec<DueTimer>, a: &String) -> (r: Option<usize>)
    ensures
        r.is_none() ==> timer_of(ts@, a@).is_none(),
        r.is_some() ==> r.unwrap() < ts@.len() && timer_of(ts@, a@) == Some(
            ts@[r.unwrap() as int].next_due_us,
        ),
{
    let mut i: usize = ts.len();
    assert(ts@.subrange(0, i as int) =~= ts@);
    while i > 0
        invariant
            i <= ts@.len(),
            timer_of(ts@, a@) == timer_of(ts@.subrange(0, i as int), a@),
        decreases i,
    {
        assert(ts@.subrange(0, i as int).drop_last() =~= ts@.subrange(0, i - 1));
        if ts[i - 1].address == *a {
            return Some(i - 1);
        }
        i = i - 1;
    }
    None
}

/// Per-address due timers of the probe loop.
pub struct Scheduler {
    pub timers: Vec<DueTimer>,
}

impl Scheduler {
    /// A scheduler that has seen no address yet.
    pub fn new() -> (r: Self)
        ensures
            r.timers@.len() == 0,
    {
        Scheduler { timers: Vec::new() }
    }

    /// One scheduling tick at `now_us`: returns the hosts due now and
    /// reschedules them. Timers of addresses no longer listed are dropped, so
    /// an address that comes back starts afresh.
    pub fn tick(&mut self, now_us: u64, hosts: &Vec<HostInfo>) -> (due: Vec<HostInfo>)
        requires
            now_us <= u64::MAX - MAX_INTERVAL_US,
        ensures
            due@ == due_hosts(old(self).timers@, hosts@, now_us as int),
            forall|a: Seq<char>| #[trigger]
                timer_of(final(self).timers@, a).is_some() <==> has_address(hosts@, a),
            forall|a: Seq<char>|
                has_address(hosts@, a) ==> rescheduled(
                    timer_of(old(self).timers@, a),
                    #[trigger] timer_of(final(self).timers@, a).unwrap(),
                    now_us as int,
                    first_mode(hosts@, a),
                ),
    {
        let ghost old_ts = self.timers@;
        let ghost hs = hosts@;
        let mut fresh: Vec<DueTimer> = Vec::new();
        let mut due: Vec<HostInfo> = Vec::new();
        let mut i: usize = 0;
        while i < hosts.len()
            invariant
                i <= hosts@.len(),
                hs == hosts@,
                old_ts == self.timers@,
                now_us <= u64::MAX - MAX_INTERVAL_US,
                due@ == due_hosts(old_ts, hs.subrange(0, i as int), now_us as int),
                forall|a: Seq<char>| #[trigger]
                    timer_of(fresh@, a).is_some() <==> has_address(hs.subrange(0, i as int), a),
                forall|a: Seq<char>|
                    has_address(hs.subrange(0, i as int), a) ==> rescheduled(
                        timer_of(old_ts, a),
                        #[trigger] timer_of(fresh@, a).unwrap(),
                        now_us as int,
                        first_mode(hs.subrange(0, i as int), a),
                    ),
            decreases hosts@.len() - i,
        {
            let h = &hosts[i];
            let ghost prefix = hs.subrange(0, i as int);
            let ghost next = hs.subrange(0, i + 1);
            assert(next.drop_last() =~= prefix);
            assert(next.last() == *h);
            assert forall|a: Seq<char>| has_address(next, a) <==> (has_address(prefix, a)
                || h.address@ == a) by {
                if has_address(next, a) && !has_address(prefix, a) {
                    let k = choose|k: int| 0 <= k < next.len() && (#[trigger] next[k]).address@
                        == a;
                    if k < i {
                        assert(prefix[k] == next[k]);
                    }
                }
                if has_address(prefix, a) {
                    let k = choose|k: int| 0 <= k < prefix.len() && (#[trigger] prefix[k]).address@
                        == a;
                    assert(next[k] == prefix[k]);
                }
                if h.address@ == a {
                    assert(next[i as int] == *h);
                }
            }
            match find_timer(&fresh, &h.address) {
                Some(_) => {
                    assert(timer_of(fresh@, h.address@).is_some());
                    assert(has_address(prefix, h.address@));
                    assert forall|a: Seq<char>| has_address(next, a) implies first_mode(next, a)
                        == first_mode(prefix, a) by {
                        if has_address(prefix, a) {
                        } else {
                            assert(h.address@ == a);
                        }
                    }
                },
                None => {
                    let ghost before = fresh@;
                    assert(timer_of(fresh@, h.address@).is_none());
                    assert(!has_address(prefix, h.address@));
                    let prior = find_timer(&self.timers, &h.address);
                    let waiting = match prior {
                        Some(k) => self.timers[k].next_due_us > now_us,
                        None => false,
                    };
                    if waiting {
                        let k = prior.unwrap();
                        let t = self.timers[k].next_due_us;
                        fresh.push(DueTimer { address: h.address.clone(), next_due_us: t });
                    } else {
                        let interval = compute_interval(h.mode);
                        fresh.push(
                            DueTimer { address: h.address.clone(), next_due_us: now_us + interval },
                        );
                        due.push(h.clone());
                    }
                    assert(fresh@.drop_last() =~= before);
                    assert(timer_of(fresh@, h.address@) == Some(fresh@.last().next_due_us));
                    assert forall|a: Seq<char>| has_address(next, a) implies rescheduled(
                        timer_of(old_ts, a),
                        #[trigger] timer_of(fresh@, a).unwrap(),
                        now_us as int,
                        first_mode(next, a),
                    ) by {
                        if a != h.address@ {
                            assert(has_address(prefix, a));
                            assert(timer_of(fresh@, a) == timer_of(before, a));
                        }
                    }
                    assert forall|a: Seq<char>| #[trigger]
                        timer_of(fresh@, a).is_some() <==> has_address(next, a) by {
                        if a != h.address@ {
                            assert(timer_of(fresh@, a) == timer_of(before, a));
                        }
                    }
                },
            }
            i = i + 1;
        }
        assert(hs.subrange(0, hosts@.len() as int) =~= hs);
        self.timers = fresh;
        due
    }
}

} // verus!
