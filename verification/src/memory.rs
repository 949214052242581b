//! Memory reporting: human-readable byte counts, the health status
//! derived from a memory reading, and the growth alert used by the
//! background memory monitor.
//!
//! Reading the process's memory is left to the caller (it is a property
//! of the machine, not of this crate); everything computed from the
//! reading is verified here.

use vstd::prelude::*;
use vstd::string::*;
use vstd::arithmetic::div_mod::lemma_div_is_ordered;
use crate::encode::{digit_char, spec_u64_dec, push_u64_dec};

verus! {

/// One gigabyte.
pub const BYTES_PER_GB: u64 = 1073741824;

/// One megabyte.
pub const BYTES_PER_MB: u64 = 1048576;

/// Growth of resident memory between two monitor snapshots, in bytes,
/// at which the monitor raises a warning (100 MB).
pub const MEMORY_GROWTH_ALERT_BYTES: u64 = 104857600;

/// `bytes` scaled by `unit` and rounded to the nearest hundredth:
/// the number of hundredths of a unit, rounding half up.
pub open spec fn spec_hundredths(bytes: int, unit: int) -> int {
    (bytes * 100 + unit / 2) / unit
}

/// `h` hundredths rendered as a decimal with exactly two places:
/// the whole units, a point, then the two remaining digits.
pub open spec fn spec_two_places(h: int) -> Seq<char> {
    spec_u64_dec((h / 100) as nat) + seq!['.', digit_char(h / 10 % 10), digit_char(h % 10)]
}

/// The human-readable rendering of a byte count: gigabytes to two
/// decimal places from one gigabyte up, megabytes to two decimal places
/// from one megabyte up, and a plain count below that.
pub open spec fn spec_format_bytes(bytes: int) -> Seq<char> {
    if bytes >= BYTES_PER_GB {
        spec_two_places(spec_hundredths(bytes, BYTES_PER_GB as int)) + " GB"@
    } else if bytes >= BYTES_PER_MB {
        spec_two_places(spec_hundredths(bytes, BYTES_PER_MB as int)) + " MB"@
    } else {
        spec_u64_dec(bytes as nat) + " bytes"@
    }
}

/// Append `bytes` scaled by `unit`, to two decimal places, to `out`.
fn push_two_places(out: &mut String, bytes: u64, unit: u64)
    requires
        unit == BYTES_PER_GB || unit == BYTES_PER_MB,
    ensures
        final(out)@ == old(out)@ + spec_two_places(spec_hundredths(bytes as int, unit as int)),
{
    let wide: u128 = (bytes as u128) * 100 + (unit as u128) / 2;
    let h128: u128 = wide / (unit as u128);
    proof {
        assert(wide <= 0xffffffffffffffffu128 * 100 + (unit as u128) / 2);
        lemma_div_is_ordered(
            wide as int,
            (0xffffffffffffffffu128 * 100 + (unit as u128) / 2) as int,
            unit as int,
        );
    }
    let h: u64 = h128 as u64;
    push_u64_dec(out, h / 100);
    proof {
        reveal_strlit(".");
    }
    out.append(".");
    let tens: u64 = h / 10 % 10;
    let ones: u64 = h % 10;
    let mut tail = String::new();
    push_u64_dec(&mut tail, tens);
    push_u64_dec(&mut tail, ones);
    out.append(tail.as_str());
    proof {
        assert(spec_u64_dec(tens as nat) =~= seq![digit_char(h as int / 10 % 10)]);
        assert(spec_u64_dec(ones as nat) =~= seq![digit_char(h as int % 10)]);
        assert(old(out)@ + spec_u64_dec((h / 100) as nat) + "."@ + (Seq::<char>::empty()
            + spec_u64_dec(tens as nat) + spec_u64_dec(ones as nat)) =~= old(out)@
            + spec_two_places(h as int));
    }
}

/// Render a byte count the way an operator reads it: "1.50 GB",
/// "12.00 MB", or "512 bytes".
pub fn format_bytes(bytes: u64) -> (r: String)
    ensures
        r@ == spec_format_bytes(bytes as int),
{
    let mut out = String::new();
    if bytes >= BYTES_PER_GB {
        push_two_places(&mut out, bytes, BYTES_PER_GB);
        proof {
            reveal_strlit(" GB");
        }
        out.append(" GB");
        proof {
            assert(Seq::<char>::empty() + spec_two_places(
                spec_hundredths(bytes as int, BYTES_PER_GB as int),
            ) + " GB"@ =~= spec_format_bytes(bytes as int));
        }
    } else if bytes >= BYTES_PER_MB {
        push_two_places(&mut out, bytes, BYTES_PER_MB);
        proof {
            reveal_strlit(" MB");
        }
        out.append(" MB");
        proof {
            assert(Seq::<char>::empty() + spec_two_places(
                spec_hundredths(bytes as int, BYTES_PER_MB as int),
            ) + " MB"@ =~= spec_format_bytes(bytes as int));
        }
    } else {
        push_u64_dec(&mut out, bytes);
        proof {
            reveal_strlit(" bytes");
        }
        out.append(" bytes");
        proof {
            assert(Seq::<char>::empty() + spec_u64_dec(bytes as nat) + " bytes"@
                =~= spec_format_bytes(bytes as int));
        }
    }
    out
}

/// Health of the process as reported by the administrative status
/// query.
#[derive(Clone, Copy, Debug, PartialEq, Eq, Structural)]
pub enum HealthStatus {
    Healthy,
    Unhealthy,
}

impl HealthStatus {
    /// The status label used on the wire.
    pub fn label(&self) -> (r: &'static str)
        ensures
            *self is Healthy ==> r@ == "HEALTHY"@,
            *self is Unhealthy ==> r@ == "UNHEALTHY"@,
    {
        match self {
            HealthStatus::Healthy => "HEALTHY",
            HealthStatus::Unhealthy => "UNHEALTHY",
        }
    }
}

/// The health derived from a memory reading: a live process has a
/// nonzero resident size, so a reading of zero means the probe failed.
pub fn health_from_memory(memory_used: u64) -> (r: HealthStatus)
    ensures
        r is Healthy <==> memory_used > 0,
{
    if memory_used > 0 {
        HealthStatus::Healthy
    } else {
        HealthStatus::Unhealthy
    }
}

/// Whether the growth from `previous` to `current` resident bytes
/// crosses the alert threshold. Shrinking memory never alerts.
pub fn memory_growth_alert(previous: u64, current: u64) -> (r: bool)
    ensures
        r <==> current as int >= previous as int + MEMORY_GROWTH_ALERT_BYTES as int,
{
    current >= previous && current - previous >= MEMORY_GROWTH_ALERT_BYTES
}

} // verus!
