//! Monotonic time stamps.
use vstd::prelude::*;
use std::time::Instant;

verus! {

/// `std::time::Instant`, carried through the crate without looking inside.
#[verifier::external_type_specification]
#[verifier::external_body]
pub struct ExInstant(Instant);

/// The current time.
///
/// Calls `std::time::Instant::now`; nothing is stated of the value.
#[verifier::external_body]
pub(crate) fn instant_now() -> Instant {
    Instant::now()
}

/// Whether two time stamps are the same instant.
///
/// Calls `<Instant as PartialEq>::eq`, which compares the stored time values;
/// equal stamps are the same value.
#[verifier::external_body]
pub(crate) fn same_instant(a: &Instant, b: &Instant) -> (r: bool)
    ensures
        r == (*a == *b),
{
    a == b
}

/// The time passed since `since`.
///
/// Calls `Instant::elapsed`; the span depends on the clock and is not stated.
#[verifier::external_body]
pub(crate) fn elapsed_since(since: &Instant) -> std::time::Duration {
    since.elapsed()
}

/// The whole seconds of a span.
///
/// Calls `Duration::as_secs`.
#[verifier::external_body]
pub(crate) fn duration_secs(d: &std::time::Duration) -> u64 {
    d.as_secs()
}

/// The nanoseconds of a span beyond its whole seconds.
///
/// Calls `Duration::subsec_nanos`, which is documented to be below one billion.
#[verifier::external_body]
pub(crate) fn duration_subsec_nanos(d: &std::time::Duration) -> (r: u32)
    ensures
        r < 1_000_000_000,
{
    d.subsec_nanos()
}

/// The time passed since `since`, as whole seconds and the nanoseconds
/// beyond them (below one billion).
pub(crate) fn elapsed_parts(since: &Instant) -> (r: (u64, u32))
    ensures
        r.1 < 1_000_000_000,
{
    let d = elapsed_since(since);
    (duration_secs(&d), duration_subsec_nanos(&d))
}

/// A span of `secs` seconds and `nanos` nanoseconds, in nanoseconds.
pub open spec fn span_nanos(secs: u64, nanos: u32) -> int {
    secs * 1_000_000_000 + nanos
}

/// Whether the first span is shorter than the second.
pub fn span_less(a_secs: u64, a_nanos: u32, b_secs: u64, b_nanos: u32) -> (r: bool)
    requires
        a_nanos < 1_000_000_000,
        b_nanos < 1_000_000_000,
    ensures
        r == (span_nanos(a_secs, a_nanos) < span_nanos(b_secs, b_nanos)),
{
    proof {
        if a_secs < b_secs {
            assert(a_secs * 1_000_000_000 + 1_000_000_000 <= b_secs * 1_000_000_000) by (nonlinear_arith)
                requires
                    a_secs < b_secs,
            ;
        } else if a_secs > b_secs {
            assert(b_secs * 1_000_000_000 + 1_000_000_000 <= a_secs * 1_000_000_000) by (nonlinear_arith)
                requires
                    a_secs > b_secs,
            ;
        }
    }
    a_secs < b_secs || (a_secs == b_secs && a_nanos < b_nanos)
}

} // verus!
