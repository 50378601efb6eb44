//! Constructors of small, well-understood call trees: a flat tree with a
//! chosen number of events and single-event children, a two-level tree, and a
//! one-node tree with chosen identifiers and message count. Each carries a
//! contract giving its exact reduction, so callers can reason about — and
//! exercise — the summarizer on known shapes.

use vstd::prelude::*;

use crate::call_info::{
    call_summary,
    calls_summary,
    events_data_sum,
    events_keys_sum,
    lemma_add_empty,
    lemma_calls_summary_push,
    CallEntryPoint,
    CallExecution,
    CallInfo,
    ClassHash,
    ContractAddress,
    EthAddress,
    EventContent,
    EventData,
    Felt,
    L2ToL1Payload,
    MessageToL1,
    OrderedEvent,
    OrderedL2ToL1Message,
    StorageKey,
};

verus! {

/// Events with no keys and no data contribute nothing to the key and data
/// totals.
proof fn lemma_events_sums_zero(s: Seq<OrderedEvent>)
    requires
        forall|j: int|
            0 <= j < s.len() ==> (#[trigger] s[j]).event.keys@.len() == 0
                && s[j].event.data.0@.len() == 0,
    ensures
        events_keys_sum(s) == 0,
        events_data_sum(s) == 0,
    decreases s.len(),
{
    if s.len() > 0 {
        assert(forall|j: int|
            0 <= j < s.drop_last().len() ==> #[trigger] s.drop_last()[j] == s[j]);
        lemma_events_sums_zero(s.drop_last());
    }
}

/// A fresh event with no keys and no data.
fn empty_event() -> (r: OrderedEvent)
    ensures
        r.event.keys@.len() == 0,
        r.event.data.0@.len() == 0,
{
    OrderedEvent { order: 0, event: EventContent { keys: Vec::new(), data: EventData(Vec::new()) } }
}

/// A vector of `n` events with no keys and no data.
fn empty_events(n: usize) -> (r: Vec<OrderedEvent>)
    ensures
        r@.len() == n,
        events_keys_sum(r@) == 0,
        events_data_sum(r@) == 0,
{
    let mut events: Vec<OrderedEvent> = Vec::new();
    let mut i: usize = 0;
    while i < n
        invariant
            0 <= i <= n,
            events@.len() == i,
            forall|j: int|
                0 <= j < i ==> (#[trigger] events@[j]).event.keys@.len() == 0
                    && events@[j].event.data.0@.len() == 0,
        decreases n - i,
    {
        events.push(empty_event());
        i += 1;
    }
    proof {
        lemma_events_sums_zero(events@);
    }
    events
}

/// The one-node skeleton every sample tree starts from: class `0x1`, default
/// address, nothing emitted, nothing accessed, no children.
fn shared_call_info() -> (r: CallInfo)
    ensures
        r.call.class_hash == Some(ClassHash(Felt(1))),
        r.call.storage_address == ContractAddress(Felt(0)),
        r.execution.events@.len() == 0,
        r.execution.l2_to_l1_messages@.len() == 0,
        r.accessed_storage_keys@.len() == 0,
        r.inner_calls@.len() == 0,
{
    CallInfo {
        call: CallEntryPoint {
            class_hash: Some(ClassHash(Felt(1))),
            storage_address: ContractAddress(Felt(0)),
        },
        execution: CallExecution { events: Vec::new(), l2_to_l1_messages: Vec::new() },
        accessed_storage_keys: Vec::new(),
        inner_calls: Vec::new(),
    }
}

/// A tree of class `0x1` with `n_events` events at its root and
/// `n_inner_calls` children of one event each: it counts exactly
/// `n_events + n_inner_calls` events, emits no message, touches no storage.
pub fn call_info_with_x_events(n_events: usize, n_inner_calls: usize) -> (r: CallInfo)
    ensures
        call_summary(r).n_events == n_events + n_inner_calls,
        call_summary(r).n_messages == 0,
        call_summary(r).total_event_keys == 0,
        call_summary(r).total_event_data_size == 0,
        call_summary(r).payload_lengths == Seq::<nat>::empty(),
        call_summary(r).storage_entries == Seq::<(ContractAddress, StorageKey)>::empty(),
        call_summary(r).class_hashes.to_set() == set![ClassHash(Felt(1))],
        r.execution.events@.len() == n_events,
        r.inner_calls@.len() == n_inner_calls,
    decreases n_inner_calls,
{
    let events = empty_events(n_events);
    let mut inner_calls: Vec<CallInfo> = Vec::new();
    let mut i: usize = 0;
    while i < n_inner_calls
        invariant
            0 <= i <= n_inner_calls,
            inner_calls@.len() == i,
            calls_summary(inner_calls@).n_events == i,
            calls_summary(inner_calls@).n_messages == 0,
            calls_summary(inner_calls@).total_event_keys == 0,
            calls_summary(inner_calls@).total_event_data_size == 0,
            calls_summary(inner_calls@).payload_lengths == Seq::<nat>::empty(),
            calls_summary(inner_calls@).storage_entries == Seq::<
                (ContractAddress, StorageKey),
            >::empty(),
            calls_summary(inner_calls@).class_hashes.to_set().subset_of(
                set![ClassHash(Felt(1))],
            ),
        decreases n_inner_calls - i,
    {
        let child = call_info_with_x_events(1, 0);
        let ghost before = inner_calls@;
        inner_calls.push(child);
        proof {
            lemma_seq_facts_after_push(before, child);
        }
        i += 1;
    }
    let mut r = shared_call_info();
    r.execution.events = events;
    r.inner_calls = inner_calls;
    proof {
        lemma_root_summary(r, n_events as nat, (n_events + n_inner_calls) as nat);
    }
    r
}

/// After pushing a tree whose reduction is all-empty but for events and a
/// class set inside `{0x1}`, the forest's reduction keeps that shape.
proof fn lemma_seq_facts_after_push(before: Seq<CallInfo>, child: CallInfo)
    requires
        call_summary(child).n_messages == 0,
        call_summary(child).total_event_keys == 0,
        call_summary(child).total_event_data_size == 0,
        call_summary(child).payload_lengths == Seq::<nat>::empty(),
        call_summary(child).storage_entries == Seq::<(ContractAddress, StorageKey)>::empty(),
        call_summary(child).class_hashes.to_set().subset_of(set![ClassHash(Felt(1))]),
        calls_summary(before).n_messages == 0,
        calls_summary(before).total_event_keys == 0,
        calls_summary(before).total_event_data_size == 0,
        calls_summary(before).payload_lengths == Seq::<nat>::empty(),
        calls_summary(before).storage_entries == Seq::<(ContractAddress, StorageKey)>::empty(),
        calls_summary(before).class_hashes.to_set().subset_of(set![ClassHash(Felt(1))]),
    ensures
        calls_summary(before.push(child)).n_events == calls_summary(before).n_events
            + call_summary(child).n_events,
        calls_summary(before.push(child)).n_messages == 0,
        calls_summary(before.push(child)).total_event_keys == 0,
        calls_summary(before.push(child)).total_event_data_size == 0,
        calls_summary(before.push(child)).payload_lengths == Seq::<nat>::empty(),
        calls_summary(before.push(child)).storage_entries == Seq::<
            (ContractAddress, StorageKey),
        >::empty(),
        calls_summary(before.push(child)).class_hashes.to_set().subset_of(
            set![ClassHash(Felt(1))],
        ),
{
    lemma_calls_summary_push(before, child);
    let combined = calls_summary(before).add(call_summary(child));
    assert(combined.payload_lengths =~= Seq::<nat>::empty());
    assert(combined.storage_entries =~= Seq::<(ContractAddress, StorageKey)>::empty());
    assert forall|x: ClassHash| combined.class_hashes.to_set().contains(x) implies set![
        ClassHash(Felt(1)),
    ].contains(x) by {
        crate::call_info::lemma_concat_contains(
            calls_summary(before).class_hashes,
            call_summary(child).class_hashes,
            x,
        );
        assert(calls_summary(before).class_hashes.contains(x) ==> calls_summary(
            before,
        ).class_hashes.to_set().contains(x));
        assert(call_summary(child).class_hashes.contains(x) ==> call_summary(
            child,
        ).class_hashes.to_set().contains(x));
    }
}

/// The reduction of a sample root of class `0x1` whose children contribute
/// only events within class set `{0x1}`.
proof fn lemma_root_summary(r: CallInfo, n_own: nat, n_total: nat)
    requires
        r.call.class_hash == Some(ClassHash(Felt(1))),
        r.execution.events@.len() == n_own,
        events_keys_sum(r.execution.events@) == 0,
        events_data_sum(r.execution.events@) == 0,
        r.execution.l2_to_l1_messages@.len() == 0,
        r.accessed_storage_keys@.len() == 0,
        calls_summary(r.inner_calls@).n_events == n_total - n_own,
        n_own <= n_total,
        calls_summary(r.inner_calls@).n_messages == 0,
        calls_summary(r.inner_calls@).total_event_keys == 0,
        calls_summary(r.inner_calls@).total_event_data_size == 0,
        calls_summary(r.inner_calls@).payload_lengths == Seq::<nat>::empty(),
        calls_summary(r.inner_calls@).storage_entries == Seq::<
            (ContractAddress, StorageKey),
        >::empty(),
        calls_summary(r.inner_calls@).class_hashes.to_set().subset_of(set![ClassHash(Felt(1))]),
    ensures
        call_summary(r).n_events == n_total,
        call_summary(r).n_messages == 0,
        call_summary(r).total_event_keys == 0,
        call_summary(r).total_event_data_size == 0,
        call_summary(r).payload_lengths == Seq::<nat>::empty(),
        call_summary(r).storage_entries == Seq::<(ContractAddress, StorageKey)>::empty(),
        call_summary(r).class_hashes.to_set() == set![ClassHash(Felt(1))],
{
    let own = crate::call_info::own_summary(r);
    let rest = calls_summary(r.inner_calls@);
    assert(own.class_hashes =~= seq![ClassHash(Felt(1))]);
    assert(own.payload_lengths =~= Seq::<nat>::empty());
    assert(own.storage_entries =~= Seq::<(ContractAddress, StorageKey)>::empty());
    assert(call_summary(r).payload_lengths =~= Seq::<nat>::empty());
    assert(call_summary(r).storage_entries =~= Seq::<(ContractAddress, StorageKey)>::empty());
    assert forall|x: ClassHash| call_summary(r).class_hashes.to_set().contains(x) implies set![
        ClassHash(Felt(1)),
    ].contains(x) by {
        crate::call_info::lemma_concat_contains(own.class_hashes, rest.class_hashes, x);
    }
    assert(own.class_hashes[0] == ClassHash(Felt(1)));
    assert(call_summary(r).class_hashes[0] == ClassHash(Felt(1)));
    assert(call_summary(r).class_hashes.contains(ClassHash(Felt(1))));
    assert(call_summary(r).class_hashes.to_set() =~= set![ClassHash(Felt(1))]);
}

/// A two-level tree of class `0x1`: `n_events` events at the root and
/// `n_inner_calls` children, each built by `call_info_with_x_events` with
/// `n_events_of_each_inner_call` events and that many single-event
/// grandchildren.
pub fn call_info_with_deep_inner_calls(
    n_events: usize,
    n_inner_calls: usize,
    n_events_of_each_inner_call: usize,
    n_inner_calls_of_each_inner_call: usize,
) -> (r: CallInfo)
    ensures
        call_summary(r).n_events == n_events + n_inner_calls * (n_events_of_each_inner_call
            + n_inner_calls_of_each_inner_call),
        call_summary(r).n_messages == 0,
        call_summary(r).total_event_keys == 0,
        call_summary(r).total_event_data_size == 0,
        call_summary(r).payload_lengths == Seq::<nat>::empty(),
        call_summary(r).storage_entries == Seq::<(ContractAddress, StorageKey)>::empty(),
        call_summary(r).class_hashes.to_set() == set![ClassHash(Felt(1))],
        r.execution.events@.len() == n_events,
        r.inner_calls@.len() == n_inner_calls,
{
    let events = empty_events(n_events);
    let ghost per_child: nat = (n_events_of_each_inner_call
        + n_inner_calls_of_each_inner_call) as nat;
    let mut inner_calls: Vec<CallInfo> = Vec::new();
    let mut i: usize = 0;
    while i < n_inner_calls
        invariant
            0 <= i <= n_inner_calls,
            per_child == n_events_of_each_inner_call + n_inner_calls_of_each_inner_call,
            inner_calls@.len() == i,
            calls_summary(inner_calls@).n_events == i * per_child,
            calls_summary(inner_calls@).n_messages == 0,
            calls_summary(inner_calls@).total_event_keys == 0,
            calls_summary(inner_calls@).total_event_data_size == 0,
            calls_summary(inner_calls@).payload_lengths == Seq::<nat>::empty(),
            calls_summary(inner_calls@).storage_entries == Seq::<
                (ContractAddress, StorageKey),
            >::empty(),
            calls_summary(inner_calls@).class_hashes.to_set().subset_of(
                set![ClassHash(Felt(1))],
            ),
        decreases n_inner_calls - i,
    {
        let child = call_info_with_x_events(
            n_events_of_each_inner_call,
            n_inner_calls_of_each_inner_call,
        );
        let ghost before = inner_calls@;
        inner_calls.push(child);
        proof {
            lemma_seq_facts_after_push(before, child);
            assert(i * per_child + per_child == (i + 1) * per_child) by (nonlinear_arith);
        }
        i += 1;
    }
    let mut r = shared_call_info();
    r.execution.events = events;
    r.inner_calls = inner_calls;
    proof {
        assert(n_inner_calls * per_child == n_inner_calls * (n_events_of_each_inner_call
            + n_inner_calls_of_each_inner_call)) by (nonlinear_arith)
            requires
                per_child == n_events_of_each_inner_call + n_inner_calls_of_each_inner_call,
        ;
        let total: nat = (n_events + n_inner_calls * per_child) as nat;
        lemma_root_summary(r, n_events as nat, total);
    }
    r
}

/// The shape of a one-node sample tree: how many events and messages it
/// emits, and the identifiers it carries.
#[derive(Clone, Copy, PartialEq, Eq, Structural, Debug, Default)]
pub struct TestExecutionSummary {
    pub num_of_events: usize,
    pub num_of_messages: usize,
    pub class_hash: ClassHash,
    pub storage_address: ContractAddress,
    pub storage_key: StorageKey,
}

impl TestExecutionSummary {
    /// Record the chosen shape.
    pub fn new(
        num_of_events: usize,
        num_of_messages: usize,
        class_hash: ClassHash,
        storage_address: ContractAddress,
        storage_key: StorageKey,
    ) -> (r: Self)
        ensures
            r == (TestExecutionSummary {
                num_of_events,
                num_of_messages,
                class_hash,
                storage_address,
                storage_key,
            }),
    {
        TestExecutionSummary { num_of_events, num_of_messages, class_hash, storage_address, storage_key }
    }

    /// The one-node tree of that shape: `num_of_events` events with no keys
    /// and no data, `num_of_messages` messages of payload length one, the
    /// chosen class hash, and the chosen storage entry.
    pub fn to_call_info(&self) -> (r: CallInfo)
        ensures
            call_summary(r).n_events == self.num_of_events,
            call_summary(r).n_messages == self.num_of_messages,
            call_summary(r).total_event_keys == 0,
            call_summary(r).total_event_data_size == 0,
            call_summary(r).class_hashes == seq![self.class_hash],
            call_summary(r).storage_entries == seq![(self.storage_address, self.storage_key)],
            call_summary(r).payload_lengths == Seq::<nat>::new(
                self.num_of_messages as nat,
                |i: int| 1nat,
            ),
    {
        let events = empty_events(self.num_of_events);
        let mut messages: Vec<OrderedL2ToL1Message> = Vec::new();
        let mut i: usize = 0;
        while i < self.num_of_messages
            invariant
                0 <= i <= self.num_of_messages,
                messages@.len() == i,
                forall|j: int|
                    0 <= j < i ==> (#[trigger] messages@[j]).message.payload.0@.len() == 1,
            decreases self.num_of_messages - i,
        {
            let mut payload: Vec<Felt> = Vec::new();
            payload.push(Felt(0));
            messages.push(
                OrderedL2ToL1Message {
                    order: i,
                    message: MessageToL1 {
                        to_address: EthAddress(Felt(0)),
                        payload: L2ToL1Payload(payload),
                    },
                },
            );
            i += 1;
        }
        let mut accessed_storage_keys: Vec<StorageKey> = Vec::new();
        accessed_storage_keys.push(self.storage_key);
        let r = CallInfo {
            call: CallEntryPoint {
                class_hash: Some(self.class_hash),
                storage_address: self.storage_address,
            },
            execution: CallExecution { events, l2_to_l1_messages: messages },
            accessed_storage_keys,
            inner_calls: Vec::new(),
        };
        proof {
            let own = crate::call_info::own_summary(r);
            lemma_add_empty(own);
            assert(call_summary(r) == own);
            assert(own.class_hashes =~= seq![self.class_hash]);
            assert(own.storage_entries =~= seq![(self.storage_address, self.storage_key)]);
            assert(own.payload_lengths =~= Seq::<nat>::new(
                self.num_of_messages as nat,
                |i: int| 1nat,
            ));
        }
        r
    }
}

} // verus!
