//! The summarizer on known tree shapes: event counting over flat and nested
//! trees, and the full summary of three one-node phase trees.

use execution_summary::builders::{
    call_info_with_deep_inner_calls,
    call_info_with_x_events,
    TestExecutionSummary,
};
use execution_summary::call_info::{ClassHash, ContractAddress, Felt, StorageKey};
use execution_summary::objects::TransactionExecutionInfo;

fn run_events_counter_case(n_execute_events: usize, n_inner_calls: usize) {
    let n_validate_events = 2;
    let n_fee_transfer_events = 1;

    let transaction_execution_info = TransactionExecutionInfo {
        validate_call_info: Some(call_info_with_x_events(n_validate_events, 0)),
        execute_call_info: Some(call_info_with_x_events(n_execute_events, n_inner_calls)),
        fee_transfer_call_info: Some(call_info_with_x_events(n_fee_transfer_events, 0)),
    };

    assert_eq!(
        transaction_execution_info.summarize().event_summary.n_events,
        n_validate_events + n_execute_events + n_fee_transfer_events + n_inner_calls
    );
}

#[test]
fn test_events_counter_in_transaction_execution_info_0_0() {
    run_events_counter_case(0, 0);
}

#[test]
fn test_events_counter_in_transaction_execution_info_0_2() {
    run_events_counter_case(0, 2);
}

#[test]
fn test_events_counter_in_transaction_execution_info_1_3() {
    run_events_counter_case(1, 3);
}

#[test]
fn test_events_counter_in_transaction_execution_info_2_0() {
    run_events_counter_case(2, 0);
}

fn run_events_counter_with_inner_call_info_case(n_execute_events: usize) {
    let n_fee_transfer_events = 2;
    let n_inner_calls = 3;
    let n_execution_events = 1;
    let n_events_for_each_inner_call = 2;
    let n_inner_calls_of_each_inner_call = 1;

    let transaction_execution_info = TransactionExecutionInfo {
        validate_call_info: Some(call_info_with_deep_inner_calls(
            n_execution_events,
            n_inner_calls,
            n_events_for_each_inner_call,
            n_inner_calls_of_each_inner_call,
        )),
        execute_call_info: Some(call_info_with_x_events(n_execute_events, 0)),
        fee_transfer_call_info: Some(call_info_with_x_events(n_fee_transfer_events, 0)),
    };

    assert_eq!(
        transaction_execution_info.summarize().event_summary.n_events,
        n_execute_events
            + n_fee_transfer_events
            + n_execution_events
            + n_inner_calls
            + n_events_for_each_inner_call * n_inner_calls
    );
}

#[test]
fn test_events_counter_in_transaction_execution_info_with_inner_call_info_0() {
    run_events_counter_with_inner_call_info_case(0);
}

#[test]
fn test_events_counter_in_transaction_execution_info_with_inner_call_info_1() {
    run_events_counter_with_inner_call_info_case(1);
}

#[test]
fn test_events_counter_in_transaction_execution_info_with_inner_call_info_20() {
    run_events_counter_with_inner_call_info_case(20);
}

#[test]
fn test_summarize() {
    let validate_params = TestExecutionSummary::new(
        1,
        2,
        ClassHash(Felt(1)),
        ContractAddress(Felt(1)),
        StorageKey(Felt(1)),
    );
    let execute_params = TestExecutionSummary::new(
        2,
        3,
        ClassHash(Felt(2)),
        ContractAddress(Felt(2)),
        StorageKey(Felt(2)),
    );
    let fee_transfer_params = TestExecutionSummary::new(
        3,
        4,
        ClassHash(Felt(3)),
        ContractAddress(Felt(3)),
        StorageKey(Felt(3)),
    );

    let validate_call_info = validate_params.to_call_info();
    let execute_call_info = execute_params.to_call_info();
    let fee_transfer_call_info = fee_transfer_params.to_call_info();

    let transaction_execution_info = TransactionExecutionInfo {
        validate_call_info: Some(validate_call_info),
        execute_call_info: Some(execute_call_info),
        fee_transfer_call_info: Some(fee_transfer_call_info),
    };

    let expected_class_hashes = vec![
        validate_params.class_hash,
        execute_params.class_hash,
        fee_transfer_params.class_hash,
    ];
    let expected_storage_entries = vec![
        (validate_params.storage_address, validate_params.storage_key),
        (execute_params.storage_address, execute_params.storage_key),
        (fee_transfer_params.storage_address, fee_transfer_params.storage_key),
    ];
    let expected_payload_lengths = vec![
        1;
        validate_params.num_of_messages
            + execute_params.num_of_messages
            + fee_transfer_params.num_of_messages
    ];
    let expected_n_events = validate_params.num_of_events + execute_params.num_of_events
        + fee_transfer_params.num_of_events;

    let actual_summary = transaction_execution_info.summarize();

    assert_eq!(actual_summary.executed_class_hashes, expected_class_hashes);
    assert_eq!(actual_summary.visited_storage_entries, expected_storage_entries);
    assert_eq!(actual_summary.event_summary.n_events, expected_n_events);
    assert_eq!(actual_summary.event_summary.total_event_keys, 0);
    assert_eq!(actual_summary.event_summary.total_event_data_size, 0);
    assert_eq!(actual_summary.l2_to_l1_payload_lengths, expected_payload_lengths);
}
