//! The wall clock, read through std, and the seeds and stamps made of it.
use vstd::prelude::*;

verus! {

#[verifier::external_type_specification]
#[verifier::external_body]
pub struct ExSystemTime(std::time::SystemTime);

/// Calls `std::time::SystemTime::now`. Nothing is promised of the result:
/// it is the clock's reading.
#[verifier::external_body]
fn clock_now() -> (t: std::time::SystemTime) {
    std::time::SystemTime::now()
}

/// Calls `SystemTime::duration_since` with `std::time::UNIX_EPOCH`; the
/// error for a time before the epoch becomes `None`.
#[verifier::external_body]
fn since_unix_epoch(t: &std::time::SystemTime) -> (d: Option<std::time::Duration>) {
    t.duration_since(std::time::UNIX_EPOCH).ok()
}

/// Calls `Duration::as_secs`: the whole seconds of the duration, which is
/// opaque here, so nothing more is stated.
#[verifier::external_body]
fn whole_seconds(d: &std::time::Duration) -> (s: u64) {
    d.as_secs()
}

/// Calls `Duration::subsec_nanos`, which std documents as always less than
/// one second's worth of nanoseconds.
#[verifier::external_body]
fn nanos_part(d: &std::time::Duration) -> (n: u32)
    ensures
        n < 1_000_000_000,
{
    d.subsec_nanos()
}

/// The time from the Unix epoch as whole seconds and the nanoseconds past
/// them, or `None` when the clock stands before the epoch.
pub fn since_epoch() -> (r: Option<(u64, u32)>)
    ensures
        r matches Some(t) ==> t.1 < 1_000_000_000,
{
    let now = clock_now();
    match since_unix_epoch(&now) {
        Some(d) => Some((whole_seconds(&d), nanos_part(&d))),
        None => None,
    }
}

/// The nanoseconds of `secs` seconds and `nanos` nanoseconds, modulo 2^64.
pub open spec fn total_nanos(secs: u64, nanos: u32) -> u64 {
    ((secs * 1_000_000_000 + nanos) % 0x1_0000_0000_0000_0000) as u64
}

/// A seed from a clock reading: its nanoseconds since the epoch, modulo
/// 2^64, or 1 for a clock before the epoch.
pub fn nanos_seed(t: Option<(u64, u32)>) -> (s: u64)
    ensures
        s == match t {
            Some(p) => total_nanos(p.0, p.1),
            None => 1,
        },
{
    match t {
        Some((secs, nanos)) => {
            let m = secs.wrapping_mul(1_000_000_000);
            let total = m.wrapping_add(nanos as u64);
            proof {
                let r: int = 0x1_0000_0000_0000_0000;
                vstd::arithmetic::div_mod::lemma_add_mod_noop(secs * 1_000_000_000, nanos as int, r);
                vstd::arithmetic::div_mod::lemma_small_mod(nanos as nat, r as nat);
                assert(m == (secs * 1_000_000_000) % r);
                vstd::arithmetic::div_mod::lemma_mod_bound(secs * 1_000_000_000, r);
                if m + nanos >= r {
                    vstd::arithmetic::div_mod::lemma_mod_self_0(r);
                    vstd::arithmetic::div_mod::lemma_mod_sub_multiples_vanish(m + nanos, r);
                    vstd::arithmetic::div_mod::lemma_small_mod((m + nanos - r) as nat, r as nat);
                } else {
                    vstd::arithmetic::div_mod::lemma_small_mod((m + nanos) as nat, r as nat);
                }
            }
            total
        },
        None => 1,
    }
}

/// The seconds of a clock reading since the epoch, or 0 for a clock before
/// the epoch.
pub fn epoch_seconds(t: Option<(u64, u32)>) -> (s: u64)
    ensures
        s == match t {
            Some(p) => p.0,
            None => 0,
        },
{
    match t {
        Some((secs, _)) => secs,
        None => 0,
    }
}

} // verus!
