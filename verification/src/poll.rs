//! Decisions of the polling loops that watch a running node: waiting for a
//! fragment to leave the mempool, for a node to finish bootstrapping, and
//! for a node to shut down.
//!
//! Each loop alternates an outside observation (a REST query, a port
//! probe) with a decision. The loop itself lives with the caller, which
//! performs the observation and hands the result in; the decision step here
//! says, for every observation and every remaining retry budget, whether to
//! stop with a verdict or poll again.

use vstd::prelude::*;

verus! {

/// Where a submitted fragment stands in the node's fragment logs.
#[derive(Debug)]
pub enum FragmentStatus {
    /// Still in the mempool, not yet judged.
    Pending,
    /// Rejected, with the node's reason.
    Rejected { reason: String },
    /// Included in a block at the given date.
    InABlock { epoch: u32, slot: u32 },
}

/// What a polling loop does next.
#[derive(Debug)]
pub enum WaitDecision<T> {
    /// Observe again after the usual pause.
    Retry,
    /// Stop: the awaited outcome arrived.
    Done(T),
    /// Stop: the loop failed, with an operator-readable reason.
    Failed { reason: String },
}

/// One decision of the wait-for-fragment loop. A fragment missing from the
/// logs fails at once: the node never saw it. A pending fragment is polled
/// again while retries remain and fails once they run out. A rejected or
/// included fragment ends the wait with that status.
pub fn wait_fragment_step(found: Option<FragmentStatus>, tries_left: u32) -> (r: WaitDecision<
    FragmentStatus,
>)
    ensures
        found is None ==> r is Failed,
        found matches Some(FragmentStatus::Pending) ==> (if tries_left == 0 {
            r is Failed
        } else {
            r is Retry
        }),
        found matches Some(FragmentStatus::Rejected { .. }) ==> r is Done,
        found matches Some(FragmentStatus::InABlock { .. }) ==> r is Done,
        r matches WaitDecision::Done(s) ==> Some(s) == found,
{
    match found {
        None => WaitDecision::Failed {
            reason: String::from_str("fragment not in the mempool logs"),
        },
        Some(FragmentStatus::Pending) => {
            if tries_left == 0 {
                WaitDecision::Failed { reason: String::from_str("fragment is pending for too long") }
            } else {
                WaitDecision::Retry
            }
        },
        Some(status) => WaitDecision::Done(status),
    }
}

/// One decision of the wait-for-bootstrap loop. The wait ends when the
/// node's stats report it running; a stats failure or a node still starting
/// is polled again while retries remain, and fails once they run out.
pub fn wait_for_bootstrap_step(running: Option<bool>, tries_left: u32) -> (r: WaitDecision<()>)
    ensures
        running matches Some(true) ==> (r matches WaitDecision::Done(u) && u == ()),
        !(running matches Some(true)) ==> (if tries_left == 0 {
            r is Failed
        } else {
            r is Retry
        }),
{
    match running {
        Some(true) => WaitDecision::Done(()),
        _ => {
            if tries_left == 0 {
                WaitDecision::Failed { reason: String::from_str("node failed to start") }
            } else {
                WaitDecision::Retry
            }
        },
    }
}

/// One decision of the wait-for-shutdown loop. The node is down when its
/// stats endpoint no longer answers and its ports can be bound again; until
/// then it is polled while retries remain, and the wait fails once they run
/// out.
pub fn wait_for_shutdown_step(stats_unreachable: bool, ports_free: bool, tries_left: u32) -> (r:
    WaitDecision<()>)
    ensures
        stats_unreachable && ports_free ==> (r matches WaitDecision::Done(u) && u == ()),
        !(stats_unreachable && ports_free) ==> (if tries_left == 0 {
            r is Failed
        } else {
            r is Retry
        }),
{
    if stats_unreachable && ports_free {
        WaitDecision::Done(())
    } else if tries_left == 0 {
        WaitDecision::Failed { reason: String::from_str("node is still up after shutdown request") }
    } else {
        WaitDecision::Retry
    }
}

/// Judges a node up from its observed stats: it must answer and report
/// itself running.
pub fn is_up(running: Option<bool>) -> (r: bool)
    ensures
        r == (running matches Some(true)),
{
    match running {
        Some(state) => state,
        None => false,
    }
}

} // verus!
