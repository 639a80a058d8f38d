use vstd::prelude::*;

verus! {

/// Application close code sent with every graceful shutdown.
pub const CLOSE_CODE: u32 = 0;

/// Extra time after the configured run so that a final interval is reported.
pub const GRACE_MILLIS: u64 = 200;

/// The unit that completed first in the race that drives a run.
#[derive(Clone, Copy, Debug, PartialEq, Eq, Structural)]
pub enum Outcome {
    /// The request loops ended (one of them failed, or both were idle).
    DriversEnded,
    /// The statistics loop ended.
    StatsEnded,
    /// The user interrupted the run.
    Interrupted,
    /// The run's deadline passed.
    DeadlineReached,
}

/// The reason sent with the connection close, where the outcome asks for one.
pub fn close_reason(o: Outcome) -> (r: Option<&'static str>)
    ensures
        o == Outcome::Interrupted ==> (r matches Some(s) && s@ == "interrupted"@),
        o == Outcome::DeadlineReached ==> (r matches Some(s) && s@ == "done"@),
        (o == Outcome::DriversEnded || o == Outcome::StatsEnded) ==> r is None,
{
    match o {
        Outcome::Interrupted => {
            let s = "interrupted";
            proof {
                reveal_strlit("interrupted");
            }
            Some(s)
        },
        Outcome::DeadlineReached => {
            let s = "done";
            proof {
                reveal_strlit("done");
            }
            Some(s)
        },
        _ => None,
    }
}

/// Milliseconds from start to the deadline of a run of `duration_secs`
/// seconds, grace included (saturating).
pub fn deadline_millis(duration_secs: u64) -> (r: u64)
    ensures
        r == if duration_secs * 1000 + GRACE_MILLIS > u64::MAX {
            u64::MAX as int
        } else {
            duration_secs * 1000 + GRACE_MILLIS
        },
{
    if duration_secs > (u64::MAX - GRACE_MILLIS) / 1000 {
        u64::MAX
    } else {
        duration_secs * 1000 + GRACE_MILLIS
    }
}

} // verus!
