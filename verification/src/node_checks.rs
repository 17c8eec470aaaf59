//! Judgements over observations of running nodes: whether a transaction
//! made it into a block, whether funds arrived, whether logs are clean and
//! whether a group of nodes agrees on the chain height.
//!
//! These functions decide; they do not observe. The caller queries the
//! node (its REST tip, its block counter, its log contents, its account
//! balances) and hands the observed values in; each function states exactly
//! which observation produces which verdict.

use vstd::prelude::*;

verus! {

/// Why a node is judged stuck or a transaction unprocessed.
#[derive(Debug)]
pub enum NodeStuckError {
    /// The tip did not change across the transaction.
    TipIsNotMoving { tip_hash: u64, logs: String },
    /// The created-blocks counter did not grow across the transaction.
    BlockCounterIsNoIncreased { block_counter: u64, logs: String },
    /// The receiving account does not show the expected balance.
    FundsNotTransfered { actual: u64, expected: u64, logs: String },
    /// The node's own log shows errors.
    InternalJormungandrError { logs: String },
    /// Submitting the transaction failed before the node saw it.
    InternalJcliError { logs: String },
}

/// Judges one transaction round: submission must have succeeded, the tip
/// must have moved and the created-blocks counter must have grown between
/// the observations taken before and after the round.
pub fn send_transaction_and_ensure_block_was_produced(
    send_ok: bool,
    tip_before: u64,
    counter_before: u64,
    tip_after: u64,
    counter_after: u64,
    logs: String,
) -> (r: Result<(), NodeStuckError>)
    ensures
        !send_ok ==> (r matches Err(NodeStuckError::InternalJcliError { logs: l }) && l == logs),
        send_ok && tip_before == tip_after ==> (r matches Err(NodeStuckError::TipIsNotMoving {
            tip_hash: th,
            logs: l,
        }) && th == tip_after && l == logs),
        send_ok && tip_before != tip_after && counter_before == counter_after ==> (r matches Err(
            NodeStuckError::BlockCounterIsNoIncreased { block_counter: bc, logs: l },
        ) && bc == counter_before && l == logs),
        send_ok && tip_before != tip_after && counter_before != counter_after ==> r is Ok,
{
    if !send_ok {
        return Err(NodeStuckError::InternalJcliError { logs });
    }
    if tip_before == tip_after {
        return Err(NodeStuckError::TipIsNotMoving { tip_hash: tip_after, logs });
    }
    if counter_before == counter_after {
        return Err(NodeStuckError::BlockCounterIsNoIncreased {
            block_counter: counter_before,
            logs,
        });
    }
    Ok(())
}

/// Judges whether the receiving account shows the expected balance.
pub fn check_funds_transferred_to(actual: u64, expected: u64, logs: String) -> (r: Result<
    (),
    NodeStuckError,
>)
    ensures
        actual == expected ==> r is Ok,
        actual != expected ==> (r matches Err(NodeStuckError::FundsNotTransfered {
            actual: a,
            expected: e,
            logs: l,
        }) && a == actual && e == expected && l == logs),
{
    if actual != expected {
        Err(NodeStuckError::FundsNotTransfered { actual, expected, logs })
    } else {
        Ok(())
    }
}

/// Judges a full transaction check: the transaction round must have
/// produced a block, the funds must have arrived, and the node's log must
/// be clean. The first failed stage decides the verdict.
pub fn check_transaction_was_processed(
    send_ok: bool,
    tip_before: u64,
    counter_before: u64,
    tip_after: u64,
    counter_after: u64,
    actual_funds: u64,
    expected_funds: u64,
    log_clean: bool,
    logs: String,
) -> (r: Result<(), NodeStuckError>)
    ensures
        !send_ok || tip_before == tip_after || (tip_before != tip_after && counter_before
            == counter_after) ==> r is Err,
        send_ok && tip_before != tip_after && counter_before != counter_after && actual_funds
            != expected_funds ==> (r matches Err(NodeStuckError::FundsNotTransfered { .. })),
        send_ok && tip_before != tip_after && counter_before != counter_after && actual_funds
            == expected_funds && !log_clean ==> (r matches Err(
            NodeStuckError::InternalJormungandrError { logs: l },
        ) && l == logs),
        r is Ok <==> send_ok && tip_before != tip_after && counter_before != counter_after
            && actual_funds == expected_funds && log_clean,
{
    let produced = send_transaction_and_ensure_block_was_produced(
        send_ok,
        tip_before,
        counter_before,
        tip_after,
        counter_after,
        logs.clone(),
    );
    match produced {
        Err(e) => Err(e),
        Ok(()) => {
            match check_funds_transferred_to(actual_funds, expected_funds, logs.clone()) {
                Err(e) => Err(e),
                Ok(()) => {
                    if !log_clean {
                        Err(NodeStuckError::InternalJormungandrError { logs })
                    } else {
                        Ok(())
                    }
                },
            }
        },
    }
}

/// Whether `needle` occurs in `hay` as a contiguous run starting at `i`.
pub open spec fn matches_at(hay: Seq<u8>, needle: Seq<u8>, i: int) -> bool {
    0 <= i && i + needle.len() <= hay.len() && hay.subrange(i, i + needle.len()) == needle
}

/// Whether `needle` occurs anywhere in `hay` as a contiguous run.
pub open spec fn contains_subseq(hay: Seq<u8>, needle: Seq<u8>) -> bool {
    exists|i: int| matches_at(hay, needle, i)
}

/// Reports whether `needle` occurs in `hay` as a contiguous run of bytes.
pub fn find_subsequence(hay: &Vec<u8>, needle: &Vec<u8>) -> (r: bool)
    ensures
        r == contains_subseq(hay@, needle@),
{
    let nlen = needle.len();
    let hlen = hay.len();
    if nlen > hlen {
        proof {
            assert forall|i: int| !matches_at(hay@, needle@, i) by {}
        }
        return false;
    }
    if nlen == 0 {
        proof {
            assert(hay@.subrange(0, 0) =~= needle@);
            assert(matches_at(hay@, needle@, 0));
        }
        return true;
    }
    let mut i: usize = 0;
    while i <= hlen - nlen
        invariant
            nlen == needle@.len(),
            hlen == hay@.len(),
            1 <= nlen <= hlen,
            i <= hlen - nlen + 1,
            forall|k: int| 0 <= k < i ==> !matches_at(hay@, needle@, k),
        decreases hlen - nlen + 1 - i,
    {
        let mut j: usize = 0;
        let mut all_match: bool = true;
        while j < nlen
            invariant
                nlen == needle@.len(),
                hlen == hay@.len(),
                i + nlen <= hlen,
                j <= nlen,
                all_match ==> forall|q: int| 0 <= q < j ==> hay@[i + q] == needle@[q],
                !all_match ==> !matches_at(hay@, needle@, i as int),
            decreases nlen - j,
        {
            if hay[i + j] != needle[j] {
                proof {
                    if matches_at(hay@, needle@, i as int) {
                        assert(hay@.subrange(i as int, i + nlen)[j as int] == needle@[j as int]);
                    }
                }
                all_match = false;
                j = nlen;
            } else {
                j = j + 1;
            }
        }
        if all_match {
            proof {
                assert(hay@.subrange(i as int, i + nlen) =~= needle@);
                assert(matches_at(hay@, needle@, i as int));
            }
            return true;
        }
        i = i + 1;
    }
    proof {
        assert forall|k: int| !matches_at(hay@, needle@, k) by {
            if 0 <= k <= hlen - nlen {
                assert(!matches_at(hay@, needle@, k));
            }
        }
    }
    false
}

/// Judges a set of node logs clean: no log may contain the given error
/// marker. Returns `true` exactly when every log is free of the marker.
pub fn assert_no_errors_in_logs(logs: &Vec<Vec<u8>>, marker: &Vec<u8>) -> (r: bool)
    ensures
        r == (forall|k: int|
            0 <= k < logs@.len() ==> !contains_subseq((#[trigger] logs@[k])@, marker@)),
{
    let mut k: usize = 0;
    while k < logs.len()
        invariant
            k <= logs@.len(),
            forall|q: int| 0 <= q < k ==> !contains_subseq((#[trigger] logs@[q])@, marker@),
        decreases logs@.len() - k,
    {
        if find_subsequence(&logs[k], marker) {
            return false;
        }
        k = k + 1;
    }
    true
}

/// Judges whether a group of nodes is in sync: every node's block height
/// must lie within the grace value of the first node's. Fewer than two
/// nodes are vacuously in sync.
pub fn assert_nodes_are_in_sync(heights: &Vec<i32>) -> (r: bool)
    ensures
        r == (heights@.len() < 2 || (forall|k: int|
            1 <= k < heights@.len() ==> -2 <= #[trigger] heights@[k] - heights@[0] <= 2)),
{
    if heights.len() < 2 {
        return true;
    }
    let first: i64 = heights[0] as i64;
    let mut k: usize = 1;
    while k < heights.len()
        invariant
            heights@.len() >= 2,
            first == heights@[0] as i64,
            1 <= k <= heights@.len(),
            forall|q: int| 1 <= q < k ==> -2 <= #[trigger] heights@[q] - heights@[0] <= 2,
        decreases heights@.len() - k,
    {
        let diff: i64 = (heights[k] as i64) - first;
        if diff < -2 || diff > 2 {
            return false;
        }
        k = k + 1;
    }
    true
}

} // verus!
