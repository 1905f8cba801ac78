//! Range checks for directive values, and the block-device scheduler check.
use vstd::prelude::*;
use crate::text::has_substring;
use crate::text::contains_text;

verus! {

pub const NICE_MIN: i32 = -20;
pub const NICE_MAX: i32 = 19;
pub const IONICE_MIN: i32 = 0;
pub const IONICE_MAX: i32 = 7;
pub const RTPRIO_MIN: i32 = 1;
pub const RTPRIO_MAX: i32 = 99;
pub const OOM_SCORE_ADJ_MIN: i32 = -1000;
pub const OOM_SCORE_ADJ_MAX: i32 = 1000;

/// A directive value outside the range the kernel accepts.
#[derive(Debug, Clone, Copy, PartialEq, Eq, Structural)]
pub struct RangeError {
    pub value: i32,
    pub min: i32,
    pub max: i32,
}

/// The check shared by all validators: `Ok(value)` inside `[min, max]`,
/// otherwise an error that carries the value and the bounds.
pub open spec fn checked(value: i32, min: i32, max: i32) -> Result<i32, RangeError> {
    if min <= value <= max {
        Ok(value)
    } else {
        Err(RangeError { value, min, max })
    }
}

fn check_range(value: i32, min: i32, max: i32) -> (r: Result<i32, RangeError>)
    ensures
        r == checked(value, min, max),
{
    if value < min || value > max {
        Err(RangeError { value, min, max })
    } else {
        Ok(value)
    }
}

/// Niceness must lie in `[-20, 19]`.
pub fn validate_nice(nice: i32) -> (r: Result<i32, RangeError>)
    ensures
        r == checked(nice, NICE_MIN, NICE_MAX),
{
    check_range(nice, NICE_MIN, NICE_MAX)
}

/// An IO priority level must lie in `[0, 7]`.
pub fn validate_ionice(ionice: i32) -> (r: Result<i32, RangeError>)
    ensures
        r == checked(ionice, IONICE_MIN, IONICE_MAX),
{
    check_range(ionice, IONICE_MIN, IONICE_MAX)
}

/// A real-time priority must lie in `[1, 99]`.
pub fn validate_rtprio(rtprio: i32) -> (r: Result<i32, RangeError>)
    ensures
        r == checked(rtprio, RTPRIO_MIN, RTPRIO_MAX),
{
    check_range(rtprio, RTPRIO_MIN, RTPRIO_MAX)
}

/// An OOM score adjustment must lie in `[-1000, 1000]`.
pub fn validate_oom_score_adj(adj: i32) -> (r: Result<i32, RangeError>)
    ensures
        r == checked(adj, OOM_SCORE_ADJ_MIN, OOM_SCORE_ADJ_MAX),
{
    check_range(adj, OOM_SCORE_ADJ_MIN, OOM_SCORE_ADJ_MAX)
}

/// Block devices whose IO scheduler does not matter: loop, ram and optical devices.
pub open spec fn ignored_device(name: Seq<char>) -> bool {
    has_substring(name, "loop"@) || has_substring(name, "ram"@) || has_substring(name, "sr"@)
}

/// A scheduler selection that honours IO priorities: cfq, bfq or bfq-mq selected.
pub open spec fn honours_io_priority(scheduler: Seq<char>) -> bool {
    has_substring(scheduler, "[cfq]"@) || has_substring(scheduler, "[bfq]"@) || has_substring(
        scheduler,
        "[bfq-mq]"@,
    )
}

/// Whether the device called `name` is left out of the scheduler check.
pub fn is_ignored_device(name: &str) -> (r: bool)
    ensures
        r == ignored_device(name@),
{
    contains_text(name, "loop") || contains_text(name, "ram") || contains_text(name, "sr")
}

/// Whether a device's `queue/scheduler` text selects a scheduler that honours
/// IO priorities; a device for which this is false deserves a warning.
pub fn scheduler_honours_io_priority(scheduler: &str) -> (r: bool)
    ensures
        r == honours_io_priority(scheduler@),
{
    contains_text(scheduler, "[cfq]") || contains_text(scheduler, "[bfq]") || contains_text(
        scheduler,
        "[bfq-mq]",
    )
}

} // verus!
