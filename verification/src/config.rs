//! Settings that the environment may override.

use vstd::prelude::*;
use vstd::string::*;
use crate::text::{parse_unsigned, parse_unsigned_spec, text_view};

verus! {

/// The cap of a log ring where the environment names none.
pub const DEFAULT_LOG_LIMIT: usize = 50;

/// The metrics server's port where the environment names none.
pub const DEFAULT_METRICS_PORT: u16 = 6770;

/// How long a blocking forwarder waits for a message before it looks at
/// the close signal again, in milliseconds.
pub const INGRESS_TIMEOUT_MILLIS: u64 = 10;

/// How long the dashboard waits for a key, in milliseconds.
pub const INPUT_POLL_MILLIS: u64 = 100;

/// How long the dashboard lets its data age before it fetches anew, in
/// milliseconds.
pub const REFRESH_INTERVAL_MILLIS: u64 = 200;

/// The name of the variable that overrides the cap of the log rings.
pub const LOG_LIMIT_VARIABLE: &'static str = "CHANNELS_CONSOLE_LOG_LIMIT";

/// The name of the variable that overrides the metrics server's port.
pub const METRICS_PORT_VARIABLE: &'static str = "CHANNELS_CONSOLE_METRICS_PORT";

/// The cap of the log rings under a setting: the number that the setting
/// writes, or 50 where there is no setting or it writes no number that a
/// `usize` holds.
pub open spec fn log_limit_spec(value: Option<Seq<char>>) -> usize {
    match value {
        Some(s) => match parse_unsigned_spec(s, usize::MAX as nat) {
            Some(n) => n as usize,
            None => DEFAULT_LOG_LIMIT,
        },
        None => DEFAULT_LOG_LIMIT,
    }
}

/// The metrics server's port under a setting: the number that the
/// setting writes, or 6770 where there is no setting or it writes no number
/// that 16 bits hold.
pub open spec fn metrics_port_spec(value: Option<Seq<char>>) -> u16 {
    match value {
        Some(s) => match parse_unsigned_spec(s, u16::MAX as nat) {
            Some(n) => n as u16,
            None => DEFAULT_METRICS_PORT,
        },
        None => DEFAULT_METRICS_PORT,
    }
}

/// The cap of the log rings, given the value of its variable in the environment.
pub fn get_log_limit(value: Option<&str>) -> (r: usize)
    ensures
        r == log_limit_spec(text_view(value)),
{
    match value {
        Some(s) => match parse_unsigned(s, usize::MAX as u64) {
            Some(n) => n as usize,
            None => DEFAULT_LOG_LIMIT,
        },
        None => DEFAULT_LOG_LIMIT,
    }
}

/// The metrics server's port, given the value of its variable in the environment.
pub fn get_metrics_port(value: Option<&str>) -> (r: u16)
    ensures
        r == metrics_port_spec(text_view(value)),
{
    match value {
        Some(s) => match parse_unsigned(s, u16::MAX as u64) {
            Some(n) => n as u16,
            None => DEFAULT_METRICS_PORT,
        },
        None => DEFAULT_METRICS_PORT,
    }
}

} // verus!
