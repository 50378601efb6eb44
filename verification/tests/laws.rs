//! The summarizer's stated properties, each exercised on concrete values:
//! event-count additivity, recursive inclusion, deduplication, order
//! preservation, idempotence, and empty-phase handling.

use execution_summary::builders::{call_info_with_x_events, TestExecutionSummary};
use execution_summary::call_info::{
    CallEntryPoint,
    CallExecution,
    CallInfo,
    ClassHash,
    ContractAddress,
    EthAddress,
    EventContent,
    EventData,
    EventKey,
    Felt,
    L2ToL1Payload,
    MessageToL1,
    OrderedEvent,
    OrderedL2ToL1Message,
    StorageKey,
};
use execution_summary::objects::TransactionExecutionInfo;

fn event() -> OrderedEvent {
    OrderedEvent {
        order: 0,
        event: EventContent {
            keys: vec![],
            data: EventData(vec![]),
        },
    }
}

fn message(payload_len: usize, order: usize) -> OrderedL2ToL1Message {
    OrderedL2ToL1Message {
        order,
        message: MessageToL1 {
            to_address: EthAddress(Felt(0)),
            payload: L2ToL1Payload(vec![Felt(0); payload_len]),
        },
    }
}

fn node(
    class_hash: u64,
    address: u64,
    keys: Vec<u64>,
    n_events: usize,
    payload_lens: Vec<usize>,
    inner_calls: Vec<CallInfo>,
) -> CallInfo {
    CallInfo {
        call: CallEntryPoint {
            class_hash: Some(ClassHash(Felt(class_hash))),
            storage_address: ContractAddress(Felt(address)),
        },
        execution: CallExecution {
            events: (0..n_events).map(|_| event()).collect(),
            l2_to_l1_messages: payload_lens
                .iter()
                .enumerate()
                .map(|(i, len)| message(*len, i))
                .collect(),
        },
        accessed_storage_keys: keys.into_iter().map(|k| StorageKey(Felt(k))).collect(),
        inner_calls,
    }
}

#[test]
fn test_adding_one_event_adds_exactly_one() {
    let base = TransactionExecutionInfo {
        validate_call_info: Some(call_info_with_x_events(2, 1)),
        execute_call_info: Some(call_info_with_x_events(1, 0)),
        fee_transfer_call_info: None,
    };
    let with_one_more = TransactionExecutionInfo {
        validate_call_info: Some(call_info_with_x_events(2, 1)),
        execute_call_info: Some(call_info_with_x_events(2, 0)),
        fee_transfer_call_info: None,
    };
    let n_base = base.summarize().event_summary.n_events;
    let n_more = with_one_more.summarize().event_summary.n_events;
    assert_eq!(n_more, n_base + 1);
}

#[test]
fn test_deeply_nested_child_is_included() {
    // A grandchild with its own class hash, storage entry, event, and message.
    let grandchild = node(3, 30, vec![300], 1, vec![5], vec![]);
    let child = node(2, 20, vec![200], 0, vec![], vec![grandchild]);
    let root = node(1, 10, vec![100], 0, vec![], vec![child]);
    let tx = TransactionExecutionInfo {
        validate_call_info: None,
        execute_call_info: Some(root),
        fee_transfer_call_info: None,
    };
    let summary = tx.summarize();
    assert!(summary.executed_class_hashes.contains(&ClassHash(Felt(3))));
    assert!(summary
        .visited_storage_entries
        .contains(&(ContractAddress(Felt(30)), StorageKey(Felt(300)))));
    assert_eq!(summary.event_summary.n_events, 1);
    assert_eq!(summary.l2_to_l1_payload_lengths, vec![5]);
}

#[test]
fn test_duplicates_are_removed_across_trees() {
    // The same class hash and the same (address, key) pair in every tree and
    // in a child: each appears once in the summary.
    let child = node(1, 10, vec![100], 0, vec![], vec![]);
    let validate = node(1, 10, vec![100], 0, vec![], vec![child]);
    let execute = node(1, 10, vec![100], 0, vec![], vec![]);
    let fee = node(1, 10, vec![100], 0, vec![], vec![]);
    let tx = TransactionExecutionInfo {
        validate_call_info: Some(validate),
        execute_call_info: Some(execute),
        fee_transfer_call_info: Some(fee),
    };
    let summary = tx.summarize();
    assert_eq!(summary.executed_class_hashes, vec![ClassHash(Felt(1))]);
    assert_eq!(
        summary.visited_storage_entries,
        vec![(ContractAddress(Felt(10)), StorageKey(Felt(100)))]
    );
}

#[test]
fn test_payload_lengths_keep_duplicates_and_traversal_order() {
    // Distinct lengths mark each message; equal lengths (1 and 1) must both
    // stay. Pre-order: a node's own messages before its children's; trees in
    // the order validate, execute, fee transfer.
    let child = node(4, 40, vec![], 0, vec![3], vec![]);
    let validate = node(1, 10, vec![], 0, vec![1, 2], vec![child]);
    let execute = node(2, 20, vec![], 0, vec![1], vec![]);
    let fee = node(3, 30, vec![], 0, vec![7], vec![]);
    let tx = TransactionExecutionInfo {
        validate_call_info: Some(validate),
        execute_call_info: Some(execute),
        fee_transfer_call_info: Some(fee),
    };
    let summary = tx.summarize();
    assert_eq!(summary.l2_to_l1_payload_lengths, vec![1, 2, 3, 1, 7]);
    assert_eq!(summary.l2_to_l1_payload_lengths.len(), 5);
}

#[test]
fn test_summarize_is_idempotent() {
    let tx = TransactionExecutionInfo {
        validate_call_info: Some(
            TestExecutionSummary::new(
                2,
                1,
                ClassHash(Felt(4)),
                ContractAddress(Felt(5)),
                StorageKey(Felt(6)),
            )
            .to_call_info(),
        ),
        execute_call_info: Some(call_info_with_x_events(1, 2)),
        fee_transfer_call_info: None,
    };
    let first = tx.summarize();
    let second = tx.summarize();
    assert_eq!(first, second);
}

#[test]
fn test_absent_trees_contribute_nothing() {
    let lone = TransactionExecutionInfo {
        validate_call_info: None,
        execute_call_info: Some(call_info_with_x_events(3, 0)),
        fee_transfer_call_info: None,
    };
    let summary = lone.summarize();
    assert_eq!(summary.event_summary.n_events, 3);
    assert_eq!(summary.executed_class_hashes, vec![ClassHash(Felt(1))]);
    assert!(summary.l2_to_l1_payload_lengths.is_empty());
    assert!(summary.visited_storage_entries.is_empty());
}

#[test]
fn test_all_trees_absent_yields_empty_summary() {
    let empty = TransactionExecutionInfo {
        validate_call_info: None,
        execute_call_info: None,
        fee_transfer_call_info: None,
    };
    let summary = empty.summarize();
    assert_eq!(summary.event_summary.n_events, 0);
    assert_eq!(summary.event_summary.total_event_keys, 0);
    assert_eq!(summary.event_summary.total_event_data_size, 0);
    assert!(summary.executed_class_hashes.is_empty());
    assert!(summary.visited_storage_entries.is_empty());
    assert!(summary.l2_to_l1_payload_lengths.is_empty());
}

#[test]
fn test_expected_event_total_across_three_trees() {
    // Validate: 2 events, no children. Execute: 1 event and 2 single-event
    // children. Fee transfer: 1 event. Total: 2 + (1 + 2) + 1 = 6.
    let tx = TransactionExecutionInfo {
        validate_call_info: Some(call_info_with_x_events(2, 0)),
        execute_call_info: Some(call_info_with_x_events(1, 2)),
        fee_transfer_call_info: Some(call_info_with_x_events(1, 0)),
    };
    assert_eq!(tx.summarize().event_summary.n_events, 6);
}

#[test]
fn test_distinct_identifiers_across_three_trees() {
    let tx = TransactionExecutionInfo {
        validate_call_info: Some(node(1, 11, vec![101], 4, vec![], vec![])),
        execute_call_info: Some(node(2, 12, vec![102], 0, vec![], vec![])),
        fee_transfer_call_info: Some(node(3, 13, vec![103], 2, vec![], vec![])),
    };
    let summary = tx.summarize();
    assert_eq!(
        summary.executed_class_hashes,
        vec![ClassHash(Felt(1)), ClassHash(Felt(2)), ClassHash(Felt(3))]
    );
    assert_eq!(summary.visited_storage_entries.len(), 3);
    assert_eq!(summary.event_summary.n_events, 6);
}

#[test]
fn test_event_keys_and_data_are_totalled() {
    let rich_event = OrderedEvent {
        order: 0,
        event: EventContent {
            keys: vec![EventKey(Felt(7)), EventKey(Felt(8))],
            data: EventData(vec![Felt(1), Felt(2), Felt(3)]),
        },
    };
    let mut tree = node(1, 10, vec![], 0, vec![], vec![]);
    tree.execution.events = vec![rich_event];
    let tx = TransactionExecutionInfo {
        validate_call_info: Some(tree),
        execute_call_info: None,
        fee_transfer_call_info: None,
    };
    let summary = tx.summarize();
    assert_eq!(summary.event_summary.n_events, 1);
    assert_eq!(summary.event_summary.total_event_keys, 2);
    assert_eq!(summary.event_summary.total_event_data_size, 3);
}
