//! Limits, delays and timeouts used across the application.

use vstd::prelude::*;

verus! {

/// Maximum number of attempts when opening log files (Windows file locking).
pub const MAX_LOG_FILE_RETRY: usize = 5;

/// Delay between log file open attempts (milliseconds).
pub const LOG_FILE_RETRY_DELAY_MS: u64 = 100;

/// Maximum number of lines read from a log tail for error messages.
pub const MAX_LOG_TAIL_LINES: usize = 40;

/// Timeout for the MySQL port to be released after a stop (seconds).
pub const MYSQL_PORT_RELEASE_TIMEOUT_SECS: u64 = 8;

/// Timeout for the port of other services to be released after a stop (seconds).
pub const DEFAULT_PORT_RELEASE_TIMEOUT_SECS: u64 = 4;

/// Short timeout for the first port availability check (milliseconds).
pub const PORT_CHECK_TIMEOUT_MS: u64 = 300;

/// Timeout after stopping conflicting processes (seconds).
pub const PROCESS_STOP_WAIT_TIMEOUT_SECS: u64 = 5;

/// Maximum number of checks that MySQL accepts the new root login.
pub const MYSQL_INIT_MAX_RETRIES: usize = 20;

/// Delay between MySQL initialization checks (milliseconds).
pub const MYSQL_INIT_CHECK_DELAY_MS: u64 = 500;

/// Minimum interval between system metrics samples (milliseconds).
pub const SYSTEM_METRICS_MIN_SAMPLE_INTERVAL_MS: u64 = 1500;

/// Caddy version assumed where the catalog names none.
pub const DEFAULT_CADDY_VERSION: &'static str = "2.11.2";

/// A span of time, in milliseconds.
#[derive(Debug, Clone, Copy, PartialEq, Eq, Structural)]
pub struct Timeout {
    pub millis: u64,
}

impl Timeout {
    /// A span of whole seconds.
    pub fn from_secs(secs: u64) -> (t: Timeout)
        requires
            secs * 1000 <= u64::MAX,
        ensures
            t.millis == secs * 1000,
    {
        Timeout { millis: secs * 1000 }
    }

    /// A span of milliseconds.
    pub fn from_millis(millis: u64) -> (t: Timeout)
        ensures
            t.millis == millis,
    {
        Timeout { millis }
    }

    /// The whole seconds of the span.
    pub fn as_secs(&self) -> (s: u64)
        ensures
            s == self.millis / 1000,
    {
        self.millis / 1000
    }

    /// The span in milliseconds.
    pub fn as_millis(&self) -> (m: u128)
        ensures
            m == self.millis,
    {
        self.millis as u128
    }
}

/// MySQL port release timeout.
pub fn mysql_port_release_timeout() -> (t: Timeout)
    ensures
        t.millis == MYSQL_PORT_RELEASE_TIMEOUT_SECS * 1000,
{
    Timeout::from_secs(MYSQL_PORT_RELEASE_TIMEOUT_SECS)
}

/// Port release timeout of the other services.
pub fn default_port_release_timeout() -> (t: Timeout)
    ensures
        t.millis == DEFAULT_PORT_RELEASE_TIMEOUT_SECS * 1000,
{
    Timeout::from_secs(DEFAULT_PORT_RELEASE_TIMEOUT_SECS)
}

/// Port check timeout.
pub fn port_check_timeout() -> (t: Timeout)
    ensures
        t.millis == PORT_CHECK_TIMEOUT_MS,
{
    Timeout::from_millis(PORT_CHECK_TIMEOUT_MS)
}

/// Wait after stopping conflicting processes.
pub fn process_stop_wait_timeout() -> (t: Timeout)
    ensures
        t.millis == PROCESS_STOP_WAIT_TIMEOUT_SECS * 1000,
{
    Timeout::from_secs(PROCESS_STOP_WAIT_TIMEOUT_SECS)
}

/// Delay between MySQL initialization checks.
pub fn mysql_init_check_delay() -> (t: Timeout)
    ensures
        t.millis == MYSQL_INIT_CHECK_DELAY_MS,
{
    Timeout::from_millis(MYSQL_INIT_CHECK_DELAY_MS)
}

/// Delay between log file open attempts.
pub fn log_file_retry_delay() -> (t: Timeout)
    ensures
        t.millis == LOG_FILE_RETRY_DELAY_MS,
{
    Timeout::from_millis(LOG_FILE_RETRY_DELAY_MS)
}

/// The MySQL port is given longer to be released than the others.
pub proof fn lemma_mysql_waits_longest()
    ensures
        MYSQL_PORT_RELEASE_TIMEOUT_SECS > DEFAULT_PORT_RELEASE_TIMEOUT_SECS,
        PORT_CHECK_TIMEOUT_MS < 1000,
        MAX_LOG_FILE_RETRY > 0 && LOG_FILE_RETRY_DELAY_MS > 0 && MAX_LOG_TAIL_LINES > 0,
{
}

} // verus!
