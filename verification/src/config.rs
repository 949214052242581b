//! Startup configuration checks and the shutdown-timeout budget.
//!
//! The overall shutdown timeout is split explicitly between transport
//! drain and manager cleanup, because the two phases have independent
//! failure modes: a slow client connection must not starve the deadline
//! left for releasing dependent resources.

use vstd::prelude::*;

verus! {

/// Fixed safety margin, in milliseconds, added on top of the transport
/// drain share when waiting for the transport task itself to finish.
pub const TRANSPORT_WAIT_MARGIN_MS: u64 = 5000;

/// Why a configured bind address is rejected before any traffic starts.
#[derive(Clone, Copy, Debug, PartialEq, Eq, Structural)]
pub enum AddressError {
    /// Ports below 1024 need elevated privileges (this also covers
    /// port 0, which an unprivileged process cannot use either).
    PrivilegedPort(u16),
}

/// Validate the port of a configured bind address: anything below 1024
/// is refused as privileged, everything else is accepted.
pub fn validate_port(port: u16) -> (r: Result<(), AddressError>)
    ensures
        r is Ok <==> port >= 1024,
        r is Err ==> r == Err::<(), AddressError>(AddressError::PrivilegedPort(port)),
{
    if port < 1024 {
        Err(AddressError::PrivilegedPort(port))
    } else {
        Ok(())
    }
}

/// Map the configured keep-alive seconds to the session timeout:
/// absent or zero means infinite (no timeout), any positive value is
/// the timeout itself.
pub fn session_keep_alive(keep_alive_secs: Option<u64>) -> (r: Option<u64>)
    ensures
        keep_alive_secs is None ==> r is None,
        keep_alive_secs == Some(0u64) ==> r is None,
        forall|n: u64| n > 0 ==> (keep_alive_secs == Some(n) ==> r == Some(n)),
{
    match keep_alive_secs {
        None => None,
        Some(0) => None,
        Some(n) => Some(n),
    }
}

/// The configured shutdown timeout, seconds to milliseconds.
pub fn shutdown_timeout_ms(secs: u64) -> (r: u64)
    requires
        secs <= u64::MAX / 1000,
    ensures
        r == secs * 1000,
{
    secs * 1000
}

/// Split the overall shutdown-timeout budget: 70% for transport drain,
/// the remaining 30% reserved for request completion and manager
/// cleanup. The two shares always add up to the whole budget.
pub fn split_shutdown_budget(total_ms: u64) -> (r: (u64, u64))
    requires
        total_ms <= u64::MAX / 7,
    ensures
        r.0 == total_ms * 7 / 10,
        r.1 == total_ms - total_ms * 7 / 10,
        r.0 + r.1 == total_ms,
        r.0 <= total_ms,
{
    let drain = total_ms * 7 / 10;
    (drain, total_ms - drain)
}

/// How long the orchestrator waits for the transport task to finish
/// once cancellation has been observed: the transport drain share plus
/// a small fixed safety margin.
pub fn transport_wait_ms(drain_ms: u64) -> (r: u64)
    requires
        drain_ms <= u64::MAX - TRANSPORT_WAIT_MARGIN_MS,
    ensures
        r == drain_ms + TRANSPORT_WAIT_MARGIN_MS,
{
    drain_ms + TRANSPORT_WAIT_MARGIN_MS
}

} // verus!
