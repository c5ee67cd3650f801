use vstd::prelude::*;

verus! {

/// A source of wall-clock time in milliseconds since the Unix epoch.
pub trait WorkflowClock: Send + Sync + 'static {
    fn now_unix_ms(&self) -> u64;
}

/// The host's wall clock.
#[derive(Clone, Copy, Debug, Default)]
pub struct SystemWorkflowClock;

#[verifier::external_type_specification]
#[verifier::external_body]
pub struct ExSystemTime(std::time::SystemTime);

/// `std::time::SystemTime::now`: the current system time. Nothing is promised
/// of its value.
#[verifier::external_body]
fn system_now() -> std::time::SystemTime {
    std::time::SystemTime::now()
}

/// `SystemTime::duration_since(UNIX_EPOCH)`: the time elapsed since the epoch,
/// or `None` when the clock reads before the epoch. Nothing is promised of
/// which of the two comes back.
#[verifier::external_body]
fn since_unix_epoch(time: &std::time::SystemTime) -> Option<core::time::Duration> {
    time.duration_since(std::time::UNIX_EPOCH).ok()
}

/// `Duration::as_millis`: the whole milliseconds in a duration. Nothing is
/// promised of the value, which depends on the clock reading.
#[verifier::external_body]
fn duration_millis(duration: &core::time::Duration) -> u128 {
    duration.as_millis()
}

/// A count of milliseconds, saturated to `u64`.
pub fn unix_ms_from_millis(millis: u128) -> (r: u64)
    ensures
        r == (if millis > u64::MAX as u128 {
            u64::MAX
        } else {
            millis as u64
        }),
{
    if millis > u64::MAX as u128 {
        u64::MAX
    } else {
        millis as u64
    }
}

impl WorkflowClock for SystemWorkflowClock {
    /// Milliseconds since the epoch; 0 before it; `u64::MAX` past its range.
    fn now_unix_ms(&self) -> u64 {
        let now = system_now();
        match since_unix_epoch(&now) {
            Some(elapsed) => unix_ms_from_millis(duration_millis(&elapsed)),
            None => 0,
        }
    }
}

} // verus!
