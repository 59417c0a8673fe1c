//! Host configuration: what is probed, how often, and how it is displayed.
use vstd::prelude::*;

verus! {

/// Probing cadence of one host.
#[derive(Debug, Clone, Copy, PartialEq, Eq, Structural)]
pub enum PingMode {
    /// Every second.
    VeryFast,
    /// Every two seconds.
    Fast,
    /// Every five seconds.
    NotFast,
    /// Every ten seconds.
    Normal,
    /// Every thirty seconds.
    NotSlow,
    /// Every minute.
    Slow,
    /// Every five minutes.
    VerySlow,
}

/// Which statistics the display layer shows for one host.
#[derive(Debug, Clone, Copy, PartialEq, Eq, Structural)]
pub struct DisplaySettings {
    pub show_name: bool,
    pub show_address: bool,
    pub show_latency: bool,
    pub show_mean: bool,
    pub show_median: bool,
    pub show_rtp_jitter: bool,
    pub show_rtp_mean_jitter: bool,
    pub show_rtp_median_jitter: bool,
    pub show_mos: bool,
    pub show_availability: bool,
    pub show_outliers: bool,
    pub show_streak: bool,
    pub show_stddev: bool,
    pub show_p95: bool,
    pub show_min_max: bool,
    pub show_loss: bool,
}

/// The settings a new host starts with: name, address, latency, mean, median,
/// jitter, MOS and loss are shown, the rest hidden.
pub open spec fn default_display_spec() -> DisplaySettings {
    DisplaySettings {
        show_name: true,
        show_address: true,
        show_latency: true,
        show_mean: true,
        show_median: true,
        show_rtp_jitter: true,
        show_rtp_mean_jitter: false,
        show_rtp_median_jitter: false,
        show_mos: true,
        show_availability: false,
        show_outliers: false,
        show_streak: false,
        show_stddev: false,
        show_p95: false,
        show_min_max: false,
        show_loss: true,
    }
}

impl Default for DisplaySettings {
    fn default() -> (r: Self)
        ensures
            r == default_display_spec(),
    {
        DisplaySettings {
            show_name: true,
            show_address: true,
            show_latency: true,
            show_mean: true,
            show_median: true,
            show_rtp_jitter: true,
            show_rtp_mean_jitter: false,
            show_rtp_median_jitter: false,
            show_mos: true,
            show_availability: false,
            show_outliers: false,
            show_streak: false,
            show_stddev: false,
            show_p95: false,
            show_min_max: false,
            show_loss: true,
        }
    }
}

/// Default for a display flag that is on.
pub fn default_true() -> (r: bool)
    ensures
        r,
{
    true
}

/// Default for a display flag that is off.
pub fn default_false() -> (r: bool)
    ensures
        !r,
{
    false
}

/// Cadence of a host whose configuration names none.
pub fn default_ping_mode() -> (r: PingMode)
    ensures
        r == PingMode::Fast,
{
    PingMode::Fast
}

/// Smallest probe payload, in bytes.
pub const MIN_PACKET_SIZE: usize = 16;

/// Largest probe payload, in bytes.
pub const MAX_PACKET_SIZE: usize = 1400;

/// Payload size of a host whose configuration names none.
pub fn default_packet_size() -> (r: usize)
    ensures
        r == MIN_PACKET_SIZE,
{
    MIN_PACKET_SIZE
}

/// Identity and probing policy of one monitored host. The address is the
/// key of the host in the registry; the name is a free label.
#[derive(Debug)]
pub struct HostInfo {
    pub name: String,
    pub address: String,
    pub mode: PingMode,
    pub display: DisplaySettings,
    /// Configured payload size in bytes; clamped to
    /// `[MIN_PACKET_SIZE, MAX_PACKET_SIZE]` when a probe is built.
    pub packet_size: usize,
    /// Whether each probe carries up to a quarter of extra random bytes.
    pub random_padding: bool,
}

impl Clone for HostInfo {
    fn clone(&self) -> (r: Self)
        ensures
            r == *self,
    {
        HostInfo {
            name: self.name.clone(),
            address: self.address.clone(),
            mode: self.mode,
            display: self.display,
            packet_size: self.packet_size,
            random_padding: self.random_padding,
        }
    }
}

/// An IP address literal, as octets (IPv4) or 16-bit segments (IPv6).
#[derive(Debug, Clone, Copy)]
pub enum IpAddress {
    V4([u8; 4]),
    V6([u16; 8]),
}

/// Private (10/8, 172.16/12, 192.168/16), loopback (127/8) or link-local
/// (169.254/16) IPv4.
pub open spec fn is_local_v4(o: [u8; 4]) -> bool {
    ||| o[0] == 10
    ||| (o[0] == 172 && 16 <= o[1] <= 31)
    ||| (o[0] == 192 && o[1] == 168)
    ||| o[0] == 127
    ||| (o[0] == 169 && o[1] == 254)
}

/// Loopback (::1), unique local (fc00::/7) or unicast link-local (fe80::/10)
/// IPv6.
pub open spec fn is_local_v6(s: [u16; 8]) -> bool {
    ||| (s[0] == 0 && s[1] == 0 && s[2] == 0 && s[3] == 0 && s[4] == 0 && s[5] == 0 && s[6]
        == 0 && s[7] == 1)
    ||| 0xfc00 <= s[0] <= 0xfdff
    ||| 0xfe80 <= s[0] <= 0xfebf
}

/// Whether an address is on the local network or the machine itself.
pub open spec fn is_local_spec(ip: IpAddress) -> bool {
    match ip {
        IpAddress::V4(o) => is_local_v4(o),
        IpAddress::V6(s) => is_local_v6(s),
    }
}

/// Whether an IP address is private, loopback or link-local.
pub fn is_local_ip(ip: IpAddress) -> (r: bool)
    ensures
        r == is_local_spec(ip),
{
    match ip {
        IpAddress::V4(o) => {
            o[0] == 10 || (o[0] == 172 && 16 <= o[1] && o[1] <= 31) || (o[0] == 192 && o[1]
                == 168) || o[0] == 127 || (o[0] == 169 && o[1] == 254)
        },
        IpAddress::V6(s) => {
            (s[0] == 0 && s[1] == 0 && s[2] == 0 && s[3] == 0 && s[4] == 0 && s[5] == 0 && s[6]
                == 0 && s[7] == 1) || (0xfc00 <= s[0] && s[0] <= 0xfdff) || (0xfe80 <= s[0]
                && s[0] <= 0xfebf)
        },
    }
}

impl HostInfo {
    /// Whether the host is on the local network. `parsed` is the host's
    /// address read as an IP literal, `None` when it is not one (a host name
    /// is never local).
    pub fn is_local(&self, parsed: Option<IpAddress>) -> (r: bool)
        ensures
            r == match parsed {
                Some(ip) => is_local_spec(ip),
                None => false,
            },
    {
        match parsed {
            Some(ip) => is_local_ip(ip),
            None => false,
        }
    }
}

/// Cadence of a newly added host: fast for a local address, slow otherwise.
pub fn initial_mode(local: bool) -> (r: PingMode)
    ensures
        r == (if local {
            PingMode::Fast
        } else {
            PingMode::Slow
        }),
{
    if local {
        PingMode::Fast
    } else {
        PingMode::Slow
    }
}

/// A host named "Test" at 1.2.3.4 with the given policy and default display.
pub fn test_host(mode: PingMode, packet_size: usize, random_padding: bool) -> (r: HostInfo)
    ensures
        r.name@ == "Test"@,
        r.address@ == "1.2.3.4"@,
        r.mode == mode,
        r.display == default_display_spec(),
        r.packet_size == packet_size,
        r.random_padding == random_padding,
{
    HostInfo {
        name: String::from_str("Test"),
        address: String::from_str("1.2.3.4"),
        mode,
        display: DisplaySettings::default(),
        packet_size,
        random_padding,
    }
}

} // verus!
