//! One probe: the address to resolve, the payload to send, and the outcome
//! handed to the statistics.
use vstd::prelude::*;
use crate::config::{HostInfo, MAX_PACKET_SIZE, MIN_PACKET_SIZE};
use crate::random::random_in;

verus! {

/// The configured payload size clamped to `[MIN_PACKET_SIZE, MAX_PACKET_SIZE]`.
pub open spec fn clamped_size(n: int) -> int {
    if n < MIN_PACKET_SIZE {
        MIN_PACKET_SIZE as int
    } else if n > MAX_PACKET_SIZE {
        MAX_PACKET_SIZE as int
    } else {
        n
    }
}

/// Length of a payload for a configured size, with `extra` padding bytes when
/// random padding is on (`extra` at most a quarter of the clamped size).
pub fn payload_size(packet_size: usize, random_padding: bool, extra: usize) -> (r: usize)
    requires
        random_padding ==> extra <= clamped_size(packet_size as int) / 4,
    ensures
        r == clamped_size(packet_size as int) + (if random_padding {
            extra as int
        } else {
            0
        }),
{
    let size = if packet_size < MIN_PACKET_SIZE {
        MIN_PACKET_SIZE
    } else if packet_size > MAX_PACKET_SIZE {
        MAX_PACKET_SIZE
    } else {
        packet_size
    };
    if random_padding {
        size + extra
    } else {
        size
    }
}

/// A payload of random bytes for one probe of `host`: the clamped size, plus
/// up to a quarter more when random padding is on.
pub fn generate_payload(host: &HostInfo) -> (r: Vec<u8>)
    ensures
        !host.random_padding ==> r@.len() == clamped_size(host.packet_size as int),
        host.random_padding ==> clamped_size(host.packet_size as int) <= r@.len()
            <= clamped_size(host.packet_size as int) + clamped_size(host.packet_size as int) / 4,
{
    let size = payload_size(host.packet_size, false, 0);
    let extra: usize = if host.random_padding {
        random_in(0, (size / 4) as u64) as usize
    } else {
        0
    };
    let total = payload_size(host.packet_size, host.random_padding, extra);
    let mut out: Vec<u8> = Vec::new();
    while out.len() < total
        invariant
            out@.len() <= total,
        decreases total - out@.len(),
    {
        out.push(rand::random::<u8>());
    }
    out
}

/// The text to parse as an IP literal: a bracketed address (`[::1]`) loses its
/// brackets, anything else stays as it is.
pub fn strip_brackets(address: &str) -> (r: &str)
    ensures
        (address@.len() >= 2 && address@[0] == '[' && address@.last() == ']') ==> r@
            == address@.subrange(1, address@.len() - 1),
        !(address@.len() >= 2 && address@[0] == '[' && address@.last() == ']') ==> r@
            == address@,
{
    let n = address.unicode_len();
    if n >= 2 && address.get_char(0) == '[' && address.get_char(n - 1) == ']' {
        address.substring_char(1, n - 1)
    } else {
        address
    }
}

/// What one probe observed.
#[derive(Debug, Clone, Copy, PartialEq, Eq, Structural)]
pub struct ProbeOutcome {
    pub alive: bool,
    /// Round-trip time in microseconds; `None` when no reply came.
    pub rtt_us: Option<u32>,
}

/// The outcome of a probe whose reply came after `reply_us` microseconds, or
/// never (`None`: unresolved address, timeout or transport error). A time
/// beyond `u32::MAX` is held as `u32::MAX`.
pub fn probe_outcome(reply_us: Option<u64>) -> (r: ProbeOutcome)
    ensures
        r.alive == reply_us.is_some(),
        r.rtt_us.is_some() == reply_us.is_some(),
        reply_us.is_some() ==> r.rtt_us.unwrap() == (if reply_us.unwrap() > u32::MAX {
            u32::MAX as int
        } else {
            reply_us.unwrap() as int
        }),
{
    match reply_us {
        Some(t) => {
            let rtt: u32 = if t > u32::MAX as u64 {
                u32::MAX
            } else {
                t as u32
            };
            ProbeOutcome { alive: true, rtt_us: Some(rtt) }
        },
        None => ProbeOutcome { alive: false, rtt_us: None },
    }
}

} // verus!
