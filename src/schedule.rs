//! Hour-of-day display schedule.

use chrono::Timelike;
use vstd::prelude::*;

verus! {

/// Whether the display is active at `hour` under an optional on hour and an
/// optional off hour. A range whose on hour lies after its off hour wraps
/// around midnight.
pub open spec fn display_active(hour: u32, on_hour: Option<u32>, off_hour: Option<u32>) -> bool {
    match (on_hour, off_hour) {
        (None, None) => true,
        (Some(on), None) => hour >= on,
        (None, Some(off)) => hour < off,
        (Some(on), Some(off)) => if on <= off {
            on <= hour && hour < off
        } else {
            hour >= on || hour < off
        },
    }
}

/// Decides whether the display is active at the given hour of the day.
pub fn is_active_at(hour: u32, on_hour: Option<u32>, off_hour: Option<u32>) -> (r: bool)
    ensures
        r == display_active(hour, on_hour, off_hour),
{
    match (on_hour, off_hour) {
        (None, None) => true,
        (Some(on), None) => hour >= on,
        (None, Some(off)) => hour < off,
        (Some(on), Some(off)) => {
            if on <= off {
                on <= hour && hour < off
            } else {
                hour >= on || hour < off
            }
        },
    }
}

/// Relies on chrono's `Local::now` and `Timelike::hour`: the hour of the
/// local time, which `hour` documents to lie in 0 to 23.
#[verifier::external_body]
fn local_hour() -> (r: u32)
    ensures
        r < 24,
{
    chrono::Local::now().hour()
}

/// Decides whether the display is active now, by the local hour of the day.
pub fn is_display_active(on_hour: Option<u32>, off_hour: Option<u32>) -> (r: bool)
    ensures
        exists|h: u32| h < 24 && r == display_active(h, on_hour, off_hour),
{
    let hour = local_hour();
    is_active_at(hour, on_hour, off_hour)
}

} // verus!
