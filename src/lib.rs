//! Host probing core: configuration model, per-host rolling statistics,
//! probe scheduling and payload construction.
//!
//! Times are held in microseconds (thousandths of a millisecond), percentages
//! in thousandths of a percent and the MOS score in thousandths; every
//! fixed-point result is rounded down.
use vstd::prelude::*;

pub mod config;
pub mod mos;
pub mod summary;
pub mod status;
pub mod random;
pub mod schedule;
pub mod probe;
pub mod table;

pub use config::{
    default_false, default_packet_size, default_ping_mode, default_true, initial_mode,
    is_local_ip, test_host, DisplaySettings, HostInfo, IpAddress, PingMode,
};
pub use mos::calculate_mos;
pub use probe::{generate_payload, payload_size, probe_outcome, strip_brackets, ProbeOutcome};
pub use schedule::{compute_interval, interval_from_draw, mode_timing, Scheduler};
pub use status::{HostStatus, HISTORY_CAP};
pub use summary::calculate_percentile;
pub use table::{AppState, StatusEntry};

verus! {

} // verus!
