use jormungandr_core::{
    assert_no_errors_in_logs, assert_nodes_are_in_sync, check_funds_transferred_to,
    check_transaction_was_processed, find_subsequence, is_up,
    send_transaction_and_ensure_block_was_produced, wait_for_bootstrap_step,
    wait_for_shutdown_step, wait_fragment_step, FragmentStatus, NodeStuckError, WaitDecision,
};

#[test]
fn transaction_round_passes_when_tip_and_counter_move() {
    let r = send_transaction_and_ensure_block_was_produced(true, 10, 5, 11, 6, String::new());
    assert!(r.is_ok());
}

#[test]
fn stuck_tip_is_reported() {
    let r = send_transaction_and_ensure_block_was_produced(
        true,
        10,
        5,
        10,
        6,
        String::from("log tail"),
    );
    match r {
        Err(NodeStuckError::TipIsNotMoving { tip_hash, logs }) => {
            assert_eq!(tip_hash, 10);
            assert_eq!(logs, "log tail");
        }
        other => panic!("unexpected outcome: {:?}", other),
    }
}

#[test]
fn stuck_block_counter_is_reported() {
    let r = send_transaction_and_ensure_block_was_produced(true, 10, 5, 11, 5, String::new());
    match r {
        Err(NodeStuckError::BlockCounterIsNoIncreased { block_counter, .. }) => {
            assert_eq!(block_counter, 5);
        }
        other => panic!("unexpected outcome: {:?}", other),
    }
}

#[test]
fn failed_submission_is_reported() {
    let r = send_transaction_and_ensure_block_was_produced(false, 10, 5, 11, 6, String::new());
    assert!(matches!(r, Err(NodeStuckError::InternalJcliError { .. })));
}

#[test]
fn missing_funds_are_reported() {
    let r = check_funds_transferred_to(90, 100, String::new());
    match r {
        Err(NodeStuckError::FundsNotTransfered { actual, expected, .. }) => {
            assert_eq!(actual, 90);
            assert_eq!(expected, 100);
        }
        other => panic!("unexpected outcome: {:?}", other),
    }
    assert!(check_funds_transferred_to(100, 100, String::new()).is_ok());
}

#[test]
fn full_transaction_check_requires_every_stage() {
    assert!(check_transaction_was_processed(true, 1, 2, 3, 4, 7, 7, true, String::new()).is_ok());
    assert!(matches!(
        check_transaction_was_processed(true, 1, 2, 3, 4, 7, 8, true, String::new()),
        Err(NodeStuckError::FundsNotTransfered { .. })
    ));
    assert!(matches!(
        check_transaction_was_processed(true, 1, 2, 3, 4, 7, 7, false, String::new()),
        Err(NodeStuckError::InternalJormungandrError { .. })
    ));
}

#[test]
fn subsequence_search_finds_contained_runs() {
    assert!(find_subsequence(&b"a quiet ERRO in the log".to_vec(), &b"ERRO".to_vec()));
    assert!(!find_subsequence(&b"all is well".to_vec(), &b"ERRO".to_vec()));
    assert!(find_subsequence(&b"abc".to_vec(), &Vec::new()));
    assert!(!find_subsequence(&b"ab".to_vec(), &b"abc".to_vec()));
}

#[test]
fn clean_logs_pass_and_marked_logs_fail() {
    let clean = vec![b"INFO started".to_vec(), b"INFO tip moved".to_vec()];
    assert!(assert_no_errors_in_logs(&clean, &b"ERRO".to_vec()));
    let dirty = vec![b"INFO started".to_vec(), b"ERRO cannot connect".to_vec()];
    assert!(!assert_no_errors_in_logs(&dirty, &b"ERRO".to_vec()));
}

#[test]
fn nodes_within_grace_are_in_sync() {
    assert!(assert_nodes_are_in_sync(&vec![100, 102, 98, 101]));
    assert!(!assert_nodes_are_in_sync(&vec![100, 103]));
    assert!(assert_nodes_are_in_sync(&vec![100]));
    assert!(assert_nodes_are_in_sync(&Vec::new()));
}

#[test]
fn fragment_wait_decisions() {
    assert!(matches!(wait_fragment_step(None, 5), WaitDecision::Failed { .. }));
    assert!(matches!(wait_fragment_step(Some(FragmentStatus::Pending), 5), WaitDecision::Retry));
    assert!(matches!(
        wait_fragment_step(Some(FragmentStatus::Pending), 0),
        WaitDecision::Failed { .. }
    ));
    assert!(matches!(
        wait_fragment_step(Some(FragmentStatus::InABlock { epoch: 1, slot: 2 }), 5),
        WaitDecision::Done(FragmentStatus::InABlock { epoch: 1, slot: 2 })
    ));
    assert!(matches!(
        wait_fragment_step(Some(FragmentStatus::Rejected { reason: String::from("bad") }), 5),
        WaitDecision::Done(FragmentStatus::Rejected { .. })
    ));
}

#[test]
fn bootstrap_and_shutdown_wait_decisions() {
    assert!(matches!(wait_for_bootstrap_step(Some(true), 3), WaitDecision::Done(())));
    assert!(matches!(wait_for_bootstrap_step(Some(false), 3), WaitDecision::Retry));
    assert!(matches!(wait_for_bootstrap_step(None, 0), WaitDecision::Failed { .. }));
    assert!(matches!(wait_for_shutdown_step(true, true, 2), WaitDecision::Done(())));
    assert!(matches!(wait_for_shutdown_step(false, true, 2), WaitDecision::Retry));
    assert!(matches!(wait_for_shutdown_step(true, false, 0), WaitDecision::Failed { .. }));
}

#[test]
fn node_is_up_only_when_stats_say_running() {
    assert!(is_up(Some(true)));
    assert!(!is_up(Some(false)));
    assert!(!is_up(None));
}
