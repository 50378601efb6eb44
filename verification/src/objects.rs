//! The transaction-level record and the summarizer: fold the (up to three)
//! phase trees of a transaction into one `ExecutionSummary`.
//!
//! Traversal is depth-first and pre-order — a node's own events and messages
//! before its children, children in listed order — and the three trees are
//! visited in the fixed order validate, execute, fee transfer. The two
//! set-valued collections keep the first occurrence of each value; the payload
//! lengths and the event totals are never deduplicated.

use vstd::prelude::*;

use crate::call_info::{
    call_summary,
    calls_summary,
    entries_of,
    events_data_sum,
    events_keys_sum,
    lemma_add_assoc,
    lemma_add_empty,
    lemma_calls_summary_prefix_bound,
    lemma_calls_summary_take_succ,
    own_summary,
    payload_lengths_of,
    CallInfo,
    ClassHash,
    ContractAddress,
    OrderedEvent,
    OrderedL2ToL1Message,
    StorageKey,
    SummaryModel,
};
use crate::dedup::{
    dedup_extend,
    dedup_first,
    dedup_push,
    lemma_dedup_extend_concat,
    lemma_dedup_extend_no_duplicates,
    lemma_dedup_extend_to_set,
};

verus! {

/// Aggregate event counts of one transaction: total events, total event keys,
/// total event data elements, summed over every node of every phase tree.
#[derive(Clone, Copy, PartialEq, Eq, Structural, Debug, Default)]
pub struct EventSummary {
    pub n_events: usize,
    pub total_event_keys: usize,
    pub total_event_data_size: usize,
}

/// The deduplicated and aggregated result of folding all phase trees of one
/// transaction. `executed_class_hashes` and `visited_storage_entries` are
/// sets: each holds no duplicate and only membership is meaningful.
/// `l2_to_l1_payload_lengths` keeps every message, in traversal order.
#[derive(Clone, PartialEq, Eq, Debug, Default)]
pub struct ExecutionSummary {
    pub executed_class_hashes: Vec<ClassHash>,
    pub visited_storage_entries: Vec<(ContractAddress, StorageKey)>,
    pub l2_to_l1_payload_lengths: Vec<usize>,
    pub event_summary: EventSummary,
}

/// One transaction's execution record: up to three phase trees, absent where
/// the phase did not run. Constructed once, immutable thereafter.
#[derive(PartialEq, Eq, Debug, Default)]
pub struct TransactionExecutionInfo {
    pub validate_call_info: Option<CallInfo>,
    pub execute_call_info: Option<CallInfo>,
    pub fee_transfer_call_info: Option<CallInfo>,
}

/// The contribution of an optional tree: an absent tree contributes nothing.
pub open spec fn opt_summary(o: Option<CallInfo>) -> SummaryModel {
    match o {
        Option::None => SummaryModel::empty(),
        Option::Some(c) => call_summary(c),
    }
}

/// The abstract reduction of a whole transaction: validate, then execute,
/// then fee transfer.
pub open spec fn tx_summary(t: TransactionExecutionInfo) -> SummaryModel {
    opt_summary(t.validate_call_info).add(opt_summary(t.execute_call_info)).add(
        opt_summary(t.fee_transfer_call_info),
    )
}

/// A sequence of machine lengths, read as abstract lengths.
pub open spec fn lengths_as_nat(s: Seq<usize>) -> Seq<nat> {
    s.map_values(|x: usize| x as nat)
}

/// What it means for an `ExecutionSummary` to be the summary of the abstract
/// reduction `m`: sets are `m`'s sequences deduplicated by first occurrence,
/// payload lengths are `m`'s exactly, counts are `m`'s exactly.
pub open spec fn summary_matches(m: SummaryModel, s: ExecutionSummary) -> bool {
    &&& s.executed_class_hashes@ == dedup_first(m.class_hashes)
    &&& s.visited_storage_entries@ == dedup_first(m.storage_entries)
    &&& lengths_as_nat(s.l2_to_l1_payload_lengths@) == m.payload_lengths
    &&& s.event_summary.n_events == m.n_events
    &&& s.event_summary.total_event_keys == m.total_event_keys
    &&& s.event_summary.total_event_data_size == m.total_event_data_size
}

/// Insert a class hash unless it is already present.
fn insert_class_hash(hashes: &mut Vec<ClassHash>, h: ClassHash)
    ensures
        final(hashes)@ == dedup_push(old(hashes)@, h),
{
    let mut i: usize = 0;
    let mut found = false;
    while i < hashes.len() && !found
        invariant
            0 <= i <= hashes.len(),
            *hashes == *old(hashes),
            found ==> hashes@.contains(h),
            !found ==> forall|j: int| 0 <= j < i ==> hashes@[j] != h,
        decreases hashes.len() - i + (if found { 0int } else { 1int }),
    {
        if hashes[i] == h {
            assert(hashes@[i as int] == h);
            found = true;
        } else {
            i += 1;
        }
    }
    if !found {
        assert(!hashes@.contains(h));
        hashes.push(h);
    }
}

/// Insert `(address, key)` for every listed key, each unless already present.
fn insert_storage_entries(
    entries: &mut Vec<(ContractAddress, StorageKey)>,
    address: ContractAddress,
    keys: &Vec<StorageKey>,
)
    ensures
        final(entries)@ == dedup_extend(old(entries)@, entries_of(address, keys@)),
{
    let ghost target = entries_of(address, keys@);
    let mut i: usize = 0;
    while i < keys.len()
        invariant
            0 <= i <= keys.len(),
            target == entries_of(address, keys@),
            entries@ == dedup_extend(old(entries)@, target.take(i as int)),
        decreases keys.len() - i,
    {
        let entry = (address, keys[i]);
        let ghost before = entries@;
        let mut j: usize = 0;
        let mut found = false;
        while j < entries.len() && !found
            invariant
                0 <= j <= entries.len(),
                entries@ == before,
                found ==> before.contains(entry),
                !found ==> forall|k: int| 0 <= k < j ==> before[k] != entry,
            decreases entries.len() - j + (if found { 0int } else { 1int }),
        {
            let e = entries[j];
            if e.0 == entry.0 && e.1 == entry.1 {
                assert(before[j as int] == entry);
                found = true;
            } else {
                j += 1;
            }
        }
        if !found {
            assert(!before.contains(entry));
            entries.push(entry);
        }
        proof {
            assert(target[i as int] == entry);
            assert(target.take(i + 1).drop_last() =~= target.take(i as int));
            assert(target.take(i + 1).last() == entry);
            assert(entries@ == dedup_extend(old(entries)@, target.take(i + 1)));
        }
        i += 1;
    }
    assert(target.take(keys@.len() as int) =~= target);
}

/// Add one node's event totals to the running counts.
fn add_events(event_summary: &mut EventSummary, events: &Vec<OrderedEvent>)
    requires
        old(event_summary).n_events + events@.len() <= usize::MAX,
        old(event_summary).total_event_keys + events_keys_sum(events@) <= usize::MAX,
        old(event_summary).total_event_data_size + events_data_sum(events@) <= usize::MAX,
    ensures
        final(event_summary).n_events == old(event_summary).n_events + events@.len(),
        final(event_summary).total_event_keys == old(event_summary).total_event_keys
            + events_keys_sum(events@),
        final(event_summary).total_event_data_size == old(event_summary).total_event_data_size
            + events_data_sum(events@),
{
    let mut i: usize = 0;
    while i < events.len()
        invariant
            0 <= i <= events.len(),
            old(event_summary).n_events + events@.len() <= usize::MAX,
            old(event_summary).total_event_keys + events_keys_sum(events@) <= usize::MAX,
            old(event_summary).total_event_data_size + events_data_sum(events@) <= usize::MAX,
            event_summary.n_events == old(event_summary).n_events + i,
            event_summary.total_event_keys == old(event_summary).total_event_keys
                + events_keys_sum(events@.take(i as int)),
            event_summary.total_event_data_size == old(event_summary).total_event_data_size
                + events_data_sum(events@.take(i as int)),
        decreases events.len() - i,
    {
        proof {
            lemma_events_sums_take_succ(events@, i as int);
            lemma_events_sums_prefix_bound(events@, i as int);
        }
        event_summary.n_events = event_summary.n_events + 1;
        event_summary.total_event_keys = event_summary.total_event_keys
            + events[i].event.keys.len();
        event_summary.total_event_data_size = event_summary.total_event_data_size
            + events[i].event.data.0.len();
        i += 1;
    }
    assert(events@.take(events@.len() as int) =~= events@);
}

/// One more event extends the prefix sums by that event's key and data counts.
proof fn lemma_events_sums_take_succ(s: Seq<OrderedEvent>, i: int)
    requires
        0 <= i < s.len(),
    ensures
        events_keys_sum(s.take(i + 1)) == events_keys_sum(s.take(i)) + s[i].event.keys@.len(),
        events_data_sum(s.take(i + 1)) == events_data_sum(s.take(i)) + s[i].event.data.0@.len(),
{
    assert(s.take(i + 1).drop_last() =~= s.take(i));
    assert(s.take(i + 1).last() == s[i]);
}

/// The event sums split at any point into prefix and remainder.
proof fn lemma_events_sums_split(s: Seq<OrderedEvent>, i: int)
    requires
        0 <= i <= s.len(),
    ensures
        events_keys_sum(s) == events_keys_sum(s.take(i)) + events_keys_sum(s.skip(i)),
        events_data_sum(s) == events_data_sum(s.take(i)) + events_data_sum(s.skip(i)),
    decreases s.len(),
{
    if i == s.len() {
        assert(s.take(i) =~= s);
        assert(s.skip(i) =~= Seq::<OrderedEvent>::empty());
    } else {
        lemma_events_sums_split(s.drop_last(), i);
        assert(s.drop_last().take(i) =~= s.take(i));
        assert(s.skip(i).drop_last() =~= s.drop_last().skip(i));
        assert(s.skip(i).last() == s.last());
    }
}

/// No prefix of the events, with one more event, can exceed the whole sums.
proof fn lemma_events_sums_prefix_bound(s: Seq<OrderedEvent>, i: int)
    requires
        0 <= i < s.len(),
    ensures
        events_keys_sum(s.take(i)) + s[i].event.keys@.len() <= events_keys_sum(s),
        events_data_sum(s.take(i)) + s[i].event.data.0@.len() <= events_data_sum(s),
{
    lemma_events_sums_split(s, i + 1);
    lemma_events_sums_take_succ(s, i);
}

/// Append every message's payload length, in listed order.
fn push_payload_lengths(lengths: &mut Vec<usize>, messages: &Vec<OrderedL2ToL1Message>)
    ensures
        lengths_as_nat(final(lengths)@) == lengths_as_nat(old(lengths)@) + payload_lengths_of(
            messages@,
        ),
{
    let ghost target = payload_lengths_of(messages@);
    let mut i: usize = 0;
    while i < messages.len()
        invariant
            0 <= i <= messages.len(),
            target == payload_lengths_of(messages@),
            lengths_as_nat(lengths@) == lengths_as_nat(old(lengths)@) + target.take(i as int),
        decreases messages.len() - i,
    {
        let n = messages[i].message.payload.0.len();
        let ghost prev = lengths@;
        lengths.push(n);
        proof {
            assert(lengths@ == prev.push(n));
            assert(lengths_as_nat(lengths@) =~= lengths_as_nat(prev).push(n as nat));
            assert(target[i as int] == n as nat);
            assert(target.take(i + 1) =~= target.take(i as int).push(n as nat));
            assert(lengths_as_nat(lengths@) =~= lengths_as_nat(old(lengths)@) + target.take(
                i + 1,
            ));
        }
        i += 1;
    }
    assert(target.take(messages@.len() as int) =~= target);
}

/// Fold one tree into the running summary, depth-first and pre-order: the
/// node's own class hash, storage entries, event totals and payload lengths
/// first, then each child in listed order.
fn add_call_info(summary: &mut ExecutionSummary, call_info: &CallInfo)
    requires
        old(summary).event_summary.n_events + call_summary(*call_info).n_events <= usize::MAX,
        old(summary).event_summary.total_event_keys + call_summary(*call_info).total_event_keys
            <= usize::MAX,
        old(summary).event_summary.total_event_data_size + call_summary(
            *call_info,
        ).total_event_data_size <= usize::MAX,
    ensures
        final(summary).executed_class_hashes@ == dedup_extend(
            old(summary).executed_class_hashes@,
            call_summary(*call_info).class_hashes,
        ),
        final(summary).visited_storage_entries@ == dedup_extend(
            old(summary).visited_storage_entries@,
            call_summary(*call_info).storage_entries,
        ),
        lengths_as_nat(final(summary).l2_to_l1_payload_lengths@) == lengths_as_nat(
            old(summary).l2_to_l1_payload_lengths@,
        ) + call_summary(*call_info).payload_lengths,
        final(summary).event_summary.n_events == old(summary).event_summary.n_events
            + call_summary(*call_info).n_events,
        final(summary).event_summary.total_event_keys == old(
            summary,
        ).event_summary.total_event_keys + call_summary(*call_info).total_event_keys,
        final(summary).event_summary.total_event_data_size == old(
            summary,
        ).event_summary.total_event_data_size + call_summary(*call_info).total_event_data_size,
    decreases *call_info,
{
    let ghost own = own_summary(*call_info);
    let ghost children = call_info.inner_calls@;
    let ghost base = *old(summary);

    if let Some(h) = call_info.call.class_hash {
        insert_class_hash(&mut summary.executed_class_hashes, h);
        proof {
            let d = base.executed_class_hashes@;
            assert(own.class_hashes =~= seq![h]);
            assert(seq![h].drop_last() =~= Seq::<ClassHash>::empty());
            assert(dedup_extend(d, Seq::<ClassHash>::empty()) == d);
            assert(dedup_extend(d, own.class_hashes) == dedup_push(d, h));
            assert(summary.executed_class_hashes@ == dedup_extend(d, own.class_hashes));
        }
    } else {
        proof {
            assert(own.class_hashes =~= Seq::<ClassHash>::empty());
            assert(summary.executed_class_hashes@ == dedup_extend(
                base.executed_class_hashes@,
                own.class_hashes,
            ));
        }
    }
    insert_storage_entries(
        &mut summary.visited_storage_entries,
        call_info.call.storage_address,
        &call_info.accessed_storage_keys,
    );
    add_events(&mut summary.event_summary, &call_info.execution.events);
    push_payload_lengths(
        &mut summary.l2_to_l1_payload_lengths,
        &call_info.execution.l2_to_l1_messages,
    );

    proof {
        assert(children.take(0) =~= Seq::<CallInfo>::empty());
        lemma_add_empty(own);
        assert(own.add(calls_summary(children.take(0))) == own);
    }
    let mut i: usize = 0;
    while i < call_info.inner_calls.len()
        invariant
            0 <= i <= children.len(),
            children == call_info.inner_calls@,
            own == own_summary(*call_info),
            call_summary(*call_info) == own.add(calls_summary(children)),
            base.event_summary.n_events + call_summary(*call_info).n_events <= usize::MAX,
            base.event_summary.total_event_keys + call_summary(*call_info).total_event_keys
                <= usize::MAX,
            base.event_summary.total_event_data_size + call_summary(
                *call_info,
            ).total_event_data_size <= usize::MAX,
            summary.executed_class_hashes@ == dedup_extend(
                base.executed_class_hashes@,
                own.add(calls_summary(children.take(i as int))).class_hashes,
            ),
            summary.visited_storage_entries@ == dedup_extend(
                base.visited_storage_entries@,
                own.add(calls_summary(children.take(i as int))).storage_entries,
            ),
            lengths_as_nat(summary.l2_to_l1_payload_lengths@) == lengths_as_nat(
                base.l2_to_l1_payload_lengths@,
            ) + own.add(calls_summary(children.take(i as int))).payload_lengths,
            summary.event_summary.n_events == base.event_summary.n_events + own.add(
                calls_summary(children.take(i as int)),
            ).n_events,
            summary.event_summary.total_event_keys == base.event_summary.total_event_keys
                + own.add(calls_summary(children.take(i as int))).total_event_keys,
            summary.event_summary.total_event_data_size
                == base.event_summary.total_event_data_size + own.add(
                calls_summary(children.take(i as int)),
            ).total_event_data_size,
        decreases children.len() - i,
    {
        proof {
            lemma_calls_summary_prefix_bound(children, i as int);
        }
        add_call_info(summary, &call_info.inner_calls[i]);
        proof {
            let before = own.add(calls_summary(children.take(i as int)));
            let child = call_summary(children[i as int]);
            lemma_calls_summary_take_succ(children, i as int);
            lemma_add_assoc(own, calls_summary(children.take(i as int)), child);
            lemma_dedup_extend_concat(
                base.executed_class_hashes@,
                before.class_hashes,
                child.class_hashes,
            );
            lemma_dedup_extend_concat(
                base.visited_storage_entries@,
                before.storage_entries,
                child.storage_entries,
            );
        }
        i += 1;
    }
    proof {
        assert(children.take(children.len() as int) =~= children);
    }
}

/// A transaction lists exactly one payload length per outbound message.
pub proof fn lemma_tx_message_count(t: TransactionExecutionInfo)
    ensures
        tx_summary(t).payload_lengths.len() == tx_summary(t).n_messages,
{
    if let Some(c) = t.validate_call_info {
        crate::call_info::lemma_call_summary_message_count(c);
    }
    if let Some(c) = t.execute_call_info {
        crate::call_info::lemma_call_summary_message_count(c);
    }
    if let Some(c) = t.fee_transfer_call_info {
        crate::call_info::lemma_call_summary_message_count(c);
    }
}

impl TransactionExecutionInfo {
    /// Fold the held phase trees into one summary: validate first, then
    /// execute, then fee transfer, each tree walked depth-first and pre-order.
    /// The result is a pure function of the held trees, which are not
    /// changed: summarizing twice yields equal summaries.
    pub fn summarize(&self) -> (summary: ExecutionSummary)
        requires
            tx_summary(*self).n_events <= usize::MAX,
            tx_summary(*self).total_event_keys <= usize::MAX,
            tx_summary(*self).total_event_data_size <= usize::MAX,
        ensures
            summary_matches(tx_summary(*self), summary),
            summary.executed_class_hashes@.no_duplicates(),
            summary.visited_storage_entries@.no_duplicates(),
            summary.executed_class_hashes@.to_set() == tx_summary(*self).class_hashes.to_set(),
            summary.visited_storage_entries@.to_set() == tx_summary(
                *self,
            ).storage_entries.to_set(),
            summary.l2_to_l1_payload_lengths@.len() == tx_summary(*self).n_messages,
    {
        let ghost m_v = opt_summary(self.validate_call_info);
        let ghost m_e = opt_summary(self.execute_call_info);
        let ghost m_f = opt_summary(self.fee_transfer_call_info);
        let mut summary = ExecutionSummary {
            executed_class_hashes: Vec::new(),
            visited_storage_entries: Vec::new(),
            l2_to_l1_payload_lengths: Vec::new(),
            event_summary: EventSummary {
                n_events: 0,
                total_event_keys: 0,
                total_event_data_size: 0,
            },
        };
        let ghost s0 = summary;

        if let Some(call_info) = &self.validate_call_info {
            add_call_info(&mut summary, call_info);
        }
        proof {
            lemma_step_effect(s0, summary, self.validate_call_info);
        }
        let ghost s1 = summary;

        if let Some(call_info) = &self.execute_call_info {
            add_call_info(&mut summary, call_info);
        }
        proof {
            lemma_step_effect(s1, summary, self.execute_call_info);
        }
        let ghost s2 = summary;

        if let Some(call_info) = &self.fee_transfer_call_info {
            add_call_info(&mut summary, call_info);
        }
        proof {
            lemma_step_effect(s2, summary, self.fee_transfer_call_info);
        }

        proof {
            let m = tx_summary(*self);
            assert(m.class_hashes == (m_v.class_hashes + m_e.class_hashes) + m_f.class_hashes);
            lemma_dedup_extend_concat(s0.executed_class_hashes@, m_v.class_hashes, m_e.class_hashes);
            lemma_dedup_extend_concat(
                s0.executed_class_hashes@,
                m_v.class_hashes + m_e.class_hashes,
                m_f.class_hashes,
            );
            lemma_dedup_extend_concat(
                s0.visited_storage_entries@,
                m_v.storage_entries,
                m_e.storage_entries,
            );
            lemma_dedup_extend_concat(
                s0.visited_storage_entries@,
                m_v.storage_entries + m_e.storage_entries,
                m_f.storage_entries,
            );
            assert(s0.executed_class_hashes@ =~= Seq::<ClassHash>::empty());
            assert(s0.visited_storage_entries@ =~= Seq::<(ContractAddress, StorageKey)>::empty());
            assert(lengths_as_nat(s0.l2_to_l1_payload_lengths@) =~= Seq::<nat>::empty());
            assert(lengths_as_nat(summary.l2_to_l1_payload_lengths@) =~= m.payload_lengths);

            lemma_dedup_extend_no_duplicates(s0.executed_class_hashes@, m.class_hashes);
            lemma_dedup_extend_no_duplicates(s0.visited_storage_entries@, m.storage_entries);
            lemma_dedup_extend_to_set(s0.executed_class_hashes@, m.class_hashes);
            lemma_dedup_extend_to_set(s0.visited_storage_entries@, m.storage_entries);
            assert(summary.executed_class_hashes@.to_set() =~= m.class_hashes.to_set());
            assert(summary.visited_storage_entries@.to_set() =~= m.storage_entries.to_set());

            lemma_tx_message_count(*self);
        }
        summary
    }
}

/// Idempotence: the summary is a function of the abstract reduction alone, so
/// any two summaries of the same transaction are equal in every observable —
/// both sets, the payload-length sequence, and all event counts.
pub proof fn lemma_summary_deterministic(m: SummaryModel, s1: ExecutionSummary, s2: ExecutionSummary)
    requires
        summary_matches(m, s1),
        summary_matches(m, s2),
    ensures
        s1.executed_class_hashes@ == s2.executed_class_hashes@,
        s1.visited_storage_entries@ == s2.visited_storage_entries@,
        s1.l2_to_l1_payload_lengths@ == s2.l2_to_l1_payload_lengths@,
        s1.event_summary == s2.event_summary,
{
    let v1 = s1.l2_to_l1_payload_lengths@;
    let v2 = s2.l2_to_l1_payload_lengths@;
    assert(lengths_as_nat(v1).len() == v1.len());
    assert(lengths_as_nat(v2).len() == v2.len());
    assert forall|i: int| 0 <= i < v1.len() implies v1[i] == v2[i] by {
        assert(lengths_as_nat(v1)[i] == v1[i] as nat);
        assert(lengths_as_nat(v2)[i] == v2[i] as nat);
    }
    assert(v1 =~= v2);
}

/// Empty-phase handling: a transaction with all three trees absent reduces to
/// the empty contribution — zero counts, no entries, no payload lengths.
pub proof fn lemma_empty_transaction(t: TransactionExecutionInfo)
    requires
        t.validate_call_info is None,
        t.execute_call_info is None,
        t.fee_transfer_call_info is None,
    ensures
        tx_summary(t) == SummaryModel::empty(),
{
    lemma_add_empty(SummaryModel::empty());
}

/// Recursive inclusion at the transaction level: whatever a node anywhere in
/// any of the three phase trees contributes is included in the transaction's
/// reduction, and hence in its summary.
pub proof fn lemma_in_tx_included(t: TransactionExecutionInfo, d: CallInfo)
    requires
        (t.validate_call_info is Some && crate::call_info::in_tree(t.validate_call_info->0, d))
            || (t.execute_call_info is Some && crate::call_info::in_tree(
            t.execute_call_info->0,
            d,
        )) || (t.fee_transfer_call_info is Some && crate::call_info::in_tree(
            t.fee_transfer_call_info->0,
            d,
        )),
    ensures
        crate::call_info::model_included(call_summary(d), tx_summary(t)),
{
    let m_v = opt_summary(t.validate_call_info);
    let m_e = opt_summary(t.execute_call_info);
    let m_f = opt_summary(t.fee_transfer_call_info);
    if t.validate_call_info is Some && crate::call_info::in_tree(t.validate_call_info->0, d) {
        crate::call_info::lemma_in_tree_included(t.validate_call_info->0, d);
        crate::call_info::lemma_included_add_right(call_summary(d), m_v, m_e);
        crate::call_info::lemma_included_add_right(call_summary(d), m_v.add(m_e), m_f);
    } else if t.execute_call_info is Some && crate::call_info::in_tree(t.execute_call_info->0, d) {
        crate::call_info::lemma_in_tree_included(t.execute_call_info->0, d);
        crate::call_info::lemma_included_add_left(call_summary(d), m_v, m_e);
        crate::call_info::lemma_included_add_right(call_summary(d), m_v.add(m_e), m_f);
    } else {
        crate::call_info::lemma_in_tree_included(t.fee_transfer_call_info->0, d);
        crate::call_info::lemma_included_add_left(call_summary(d), m_v.add(m_e), m_f);
    }
}

/// Recursive inclusion, read off the summary itself: a node anywhere in any
/// phase tree has its class hash and storage entries in the summary's sets,
/// its events within the summary's count, and its payload lengths standing in
/// the summary's sequence as one contiguous run.
pub proof fn lemma_in_tx_included_in_summary(
    t: TransactionExecutionInfo,
    d: CallInfo,
    s: ExecutionSummary,
)
    requires
        summary_matches(tx_summary(t), s),
        (t.validate_call_info is Some && crate::call_info::in_tree(t.validate_call_info->0, d))
            || (t.execute_call_info is Some && crate::call_info::in_tree(
            t.execute_call_info->0,
            d,
        )) || (t.fee_transfer_call_info is Some && crate::call_info::in_tree(
            t.fee_transfer_call_info->0,
            d,
        )),
    ensures
        call_summary(d).class_hashes.to_set().subset_of(s.executed_class_hashes@.to_set()),
        call_summary(d).storage_entries.to_set().subset_of(s.visited_storage_entries@.to_set()),
        call_summary(d).n_events <= s.event_summary.n_events,
        call_summary(d).total_event_keys <= s.event_summary.total_event_keys,
        call_summary(d).total_event_data_size <= s.event_summary.total_event_data_size,
        exists|k: int|
            0 <= k && k + call_summary(d).payload_lengths.len() <= s.l2_to_l1_payload_lengths@.len()
                && #[trigger] lengths_as_nat(s.l2_to_l1_payload_lengths@).subrange(
                k,
                k + call_summary(d).payload_lengths.len(),
            ) == call_summary(d).payload_lengths,
{
    let m = tx_summary(t);
    lemma_in_tx_included(t, d);
    lemma_dedup_extend_to_set(Seq::<ClassHash>::empty(), m.class_hashes);
    lemma_dedup_extend_to_set(Seq::<(ContractAddress, StorageKey)>::empty(), m.storage_entries);
    assert(Seq::<ClassHash>::empty().to_set() =~= Set::<ClassHash>::empty());
    assert(Seq::<(ContractAddress, StorageKey)>::empty().to_set() =~= Set::<
        (ContractAddress, StorageKey),
    >::empty());
    assert(s.executed_class_hashes@.to_set() =~= m.class_hashes.to_set());
    assert(s.visited_storage_entries@.to_set() =~= m.storage_entries.to_set());
    assert(lengths_as_nat(s.l2_to_l1_payload_lengths@).len() == m.payload_lengths.len());
}

/// The effect of folding one optional tree into a summary in one step: an
/// absent tree leaves the summary as it was; a present tree contributes its
/// whole reduction.
proof fn lemma_step_effect(
    prev: ExecutionSummary,
    next: ExecutionSummary,
    o: Option<CallInfo>,
)
    requires
        o is Some ==> {
            let m = call_summary(o->0);
            &&& next.executed_class_hashes@ == dedup_extend(
                prev.executed_class_hashes@,
                m.class_hashes,
            )
            &&& next.visited_storage_entries@ == dedup_extend(
                prev.visited_storage_entries@,
                m.storage_entries,
            )
            &&& lengths_as_nat(next.l2_to_l1_payload_lengths@) == lengths_as_nat(
                prev.l2_to_l1_payload_lengths@,
            ) + m.payload_lengths
            &&& next.event_summary.n_events == prev.event_summary.n_events + m.n_events
            &&& next.event_summary.total_event_keys == prev.event_summary.total_event_keys
                + m.total_event_keys
            &&& next.event_summary.total_event_data_size
                == prev.event_summary.total_event_data_size + m.total_event_data_size
        },
        o is None ==> next == prev,
    ensures
        ({
            let m = opt_summary(o);
            &&& next.executed_class_hashes@ == dedup_extend(
                prev.executed_class_hashes@,
                m.class_hashes,
            )
            &&& next.visited_storage_entries@ == dedup_extend(
                prev.visited_storage_entries@,
                m.storage_entries,
            )
            &&& lengths_as_nat(next.l2_to_l1_payload_lengths@) == lengths_as_nat(
                prev.l2_to_l1_payload_lengths@,
            ) + m.payload_lengths
            &&& next.event_summary.n_events == prev.event_summary.n_events + m.n_events
            &&& next.event_summary.total_event_keys == prev.event_summary.total_event_keys
                + m.total_event_keys
            &&& next.event_summary.total_event_data_size
                == prev.event_summary.total_event_data_size + m.total_event_data_size
        }),
{
    if o is None {
        assert(dedup_extend(prev.executed_class_hashes@, Seq::<ClassHash>::empty())
            == prev.executed_class_hashes@);
        assert(dedup_extend(
            prev.visited_storage_entries@,
            Seq::<(ContractAddress, StorageKey)>::empty(),
        ) == prev.visited_storage_entries@);
        assert(lengths_as_nat(prev.l2_to_l1_payload_lengths@) + Seq::<nat>::empty()
            =~= lengths_as_nat(prev.l2_to_l1_payload_lengths@));
    }
}

} // verus!
