//! The call-record tree: one contract invocation, its emitted events, its
//! outbound L2-to-L1 messages, the storage it touched, and the child
//! invocations it triggered, recursively.
//!
//! The mathematical model of a tree is `call_summary`: the pre-order
//! concatenation (node before children, children in listed order) of every
//! node's own contribution, with nothing deduplicated. Deduplication happens
//! only at the summary level, in `objects`.

use vstd::prelude::*;

verus! {

/// A field element, held as the plain machine value this layer reads:
/// identifiers are compared for equality, never computed with.
#[derive(Clone, Copy, PartialEq, Eq, Structural, Hash, Debug, Default)]
pub struct Felt(pub u64);

/// Identifier of an executed contract class.
#[derive(Clone, Copy, PartialEq, Eq, Structural, Hash, Debug, Default)]
pub struct ClassHash(pub Felt);

/// Address of the contract instance a record executed against.
#[derive(Clone, Copy, PartialEq, Eq, Structural, Hash, Debug, Default)]
pub struct ContractAddress(pub Felt);

/// One storage slot of a contract.
#[derive(Clone, Copy, PartialEq, Eq, Structural, Hash, Debug, Default)]
pub struct StorageKey(pub Felt);

/// Destination address of an outbound L2-to-L1 message.
#[derive(Clone, Copy, PartialEq, Eq, Structural, Hash, Debug, Default)]
pub struct EthAddress(pub Felt);

/// One key of an emitted event.
#[derive(Clone, Copy, PartialEq, Eq, Structural, Hash, Debug, Default)]
pub struct EventKey(pub Felt);

/// The data payload of an emitted event.
#[derive(Clone, PartialEq, Eq, Debug, Default)]
pub struct EventData(pub Vec<Felt>);

/// Keys and data of one emitted event.
#[derive(Clone, PartialEq, Eq, Debug, Default)]
pub struct EventContent {
    pub keys: Vec<EventKey>,
    pub data: EventData,
}

/// An emitted event together with its local order index; the order of events
/// defines on-chain event ordering and is preserved, never re-sorted.
#[derive(Clone, PartialEq, Eq, Debug, Default)]
pub struct OrderedEvent {
    pub order: usize,
    pub event: EventContent,
}

/// The payload of an outbound L2-to-L1 message: a sequence of field elements.
#[derive(Clone, PartialEq, Eq, Debug, Default)]
pub struct L2ToL1Payload(pub Vec<Felt>);

/// An outbound message to L1: destination and payload.
#[derive(Clone, PartialEq, Eq, Debug, Default)]
pub struct MessageToL1 {
    pub to_address: EthAddress,
    pub payload: L2ToL1Payload,
}

/// An outbound message together with its local order index.
#[derive(Clone, PartialEq, Eq, Debug, Default)]
pub struct OrderedL2ToL1Message {
    pub order: usize,
    pub message: MessageToL1,
}

/// The entry point a call executed through: the resolved class (absent for
/// records with no resolvable class, e.g. a pure transfer) and the contract
/// instance address.
#[derive(Clone, Copy, PartialEq, Eq, Structural, Debug, Default)]
pub struct CallEntryPoint {
    pub class_hash: Option<ClassHash>,
    pub storage_address: ContractAddress,
}

/// What one invocation emitted: its events and its outbound messages, each in
/// execution order.
#[derive(Clone, PartialEq, Eq, Debug, Default)]
pub struct CallExecution {
    pub events: Vec<OrderedEvent>,
    pub l2_to_l1_messages: Vec<OrderedL2ToL1Message>,
}

/// One contract invocation's recorded trace. `inner_calls` holds the child
/// invocations in the order they were made; a tree is finite and acyclic by
/// construction (each child is exclusively owned by its parent).
#[derive(PartialEq, Eq, Debug, Default)]
pub struct CallInfo {
    pub call: CallEntryPoint,
    pub execution: CallExecution,
    pub accessed_storage_keys: Vec<StorageKey>,
    pub inner_calls: Vec<CallInfo>,
}

/// The abstract value a call tree (or forest) reduces to: the pre-order
/// sequences of class hashes, storage entries, and message payload lengths,
/// plus the event and message counts. Nothing here is deduplicated.
#[verifier::ext_equal]
pub ghost struct SummaryModel {
    pub class_hashes: Seq<ClassHash>,
    pub storage_entries: Seq<(ContractAddress, StorageKey)>,
    pub payload_lengths: Seq<nat>,
    pub n_events: nat,
    pub n_messages: nat,
    pub total_event_keys: nat,
    pub total_event_data_size: nat,
}

impl SummaryModel {
    /// The contribution of nothing at all.
    pub open spec fn empty() -> SummaryModel {
        SummaryModel {
            class_hashes: Seq::empty(),
            storage_entries: Seq::empty(),
            payload_lengths: Seq::empty(),
            n_events: 0,
            n_messages: 0,
            total_event_keys: 0,
            total_event_data_size: 0,
        }
    }

    /// Sequential composition: `self`'s contribution followed by `other`'s.
    pub open spec fn add(self, other: SummaryModel) -> SummaryModel {
        SummaryModel {
            class_hashes: self.class_hashes + other.class_hashes,
            storage_entries: self.storage_entries + other.storage_entries,
            payload_lengths: self.payload_lengths + other.payload_lengths,
            n_events: self.n_events + other.n_events,
            n_messages: self.n_messages + other.n_messages,
            total_event_keys: self.total_event_keys + other.total_event_keys,
            total_event_data_size: self.total_event_data_size + other.total_event_data_size,
        }
    }
}

/// Total number of keys over a sequence of events.
pub open spec fn events_keys_sum(s: Seq<OrderedEvent>) -> nat
    decreases s.len(),
{
    if s.len() == 0 {
        0
    } else {
        events_keys_sum(s.drop_last()) + s.last().event.keys@.len()
    }
}

/// Total data size (number of payload elements) over a sequence of events.
pub open spec fn events_data_sum(s: Seq<OrderedEvent>) -> nat
    decreases s.len(),
{
    if s.len() == 0 {
        0
    } else {
        events_data_sum(s.drop_last()) + s.last().event.data.0@.len()
    }
}

/// The storage entries one node contributes: its own address paired with each
/// of its accessed keys, in listed order.
pub open spec fn entries_of(address: ContractAddress, keys: Seq<StorageKey>) -> Seq<
    (ContractAddress, StorageKey),
> {
    keys.map_values(|k: StorageKey| (address, k))
}

/// The payload length of each message in a sequence, in listed order.
pub open spec fn payload_lengths_of(msgs: Seq<OrderedL2ToL1Message>) -> Seq<nat> {
    msgs.map_values(|m: OrderedL2ToL1Message| m.message.payload.0@.len())
}

/// What one node contributes by itself, children excluded: its class hash (if
/// resolved), one `(address, key)` entry per accessed storage key, its
/// messages' payload lengths in listed order, and its event totals.
pub open spec fn own_summary(c: CallInfo) -> SummaryModel {
    SummaryModel {
        class_hashes: match c.call.class_hash {
            Some(h) => seq![h],
            None => Seq::empty(),
        },
        storage_entries: entries_of(c.call.storage_address, c.accessed_storage_keys@),
        payload_lengths: payload_lengths_of(c.execution.l2_to_l1_messages@),
        n_events: c.execution.events@.len(),
        n_messages: c.execution.l2_to_l1_messages@.len(),
        total_event_keys: events_keys_sum(c.execution.events@),
        total_event_data_size: events_data_sum(c.execution.events@),
    }
}

/// The reduction of a whole tree, depth-first and pre-order: the node's own
/// contribution first, then each child's reduction in listed order.
pub open spec fn call_summary(c: CallInfo) -> SummaryModel
    decreases c,
{
    own_summary(c).add(calls_summary(c.inner_calls@))
}

/// The reduction of a forest of trees, in listed order.
pub open spec fn calls_summary(s: Seq<CallInfo>) -> SummaryModel
    decreases s,
{
    if s.len() == 0 {
        SummaryModel::empty()
    } else {
        calls_summary(s.drop_last()).add(call_summary(s.last()))
    }
}

/// The empty contribution is the identity of composition.
pub proof fn lemma_add_empty(m: SummaryModel)
    ensures
        m.add(SummaryModel::empty()) == m,
        SummaryModel::empty().add(m) == m,
{
    assert(m.add(SummaryModel::empty()) =~= m);
    assert(SummaryModel::empty().add(m) =~= m);
}

/// Composition of contributions is associative.
pub proof fn lemma_add_assoc(a: SummaryModel, b: SummaryModel, c: SummaryModel)
    ensures
        a.add(b).add(c) == a.add(b.add(c)),
{
    assert(a.add(b).add(c) =~= a.add(b.add(c)));
}

/// One more tree at the end of a forest contributes after all the others.
pub proof fn lemma_calls_summary_push(s: Seq<CallInfo>, c: CallInfo)
    ensures
        calls_summary(s.push(c)) == calls_summary(s).add(call_summary(c)),
{
    assert(s.push(c).drop_last() =~= s);
    assert(s.push(c).last() == c);
}

/// Extending a prefix of a forest by its next tree extends the reduction.
pub proof fn lemma_calls_summary_take_succ(s: Seq<CallInfo>, i: int)
    requires
        0 <= i < s.len(),
    ensures
        calls_summary(s.take(i + 1)) == calls_summary(s.take(i)).add(call_summary(s[i])),
{
    assert(s.take(i + 1) =~= s.take(i).push(s[i]));
    lemma_calls_summary_push(s.take(i), s[i]);
}

/// A forest's reduction splits at any point into the reduction of the prefix
/// followed by the reduction of the rest.
pub proof fn lemma_calls_summary_split(s: Seq<CallInfo>, i: int)
    requires
        0 <= i <= s.len(),
    ensures
        calls_summary(s) == calls_summary(s.take(i)).add(calls_summary(s.skip(i))),
    decreases s.len(),
{
    if i == s.len() {
        assert(s.take(i) =~= s);
        assert(s.skip(i) =~= Seq::<CallInfo>::empty());
        lemma_add_empty(calls_summary(s));
    } else {
        lemma_calls_summary_split(s.drop_last(), i);
        assert(s.drop_last().take(i) =~= s.take(i));
        assert(s.skip(i) =~= s.drop_last().skip(i).push(s.last()));
        lemma_calls_summary_push(s.drop_last().skip(i), s.last());
        lemma_add_assoc(
            calls_summary(s.take(i)),
            calls_summary(s.drop_last().skip(i)),
            call_summary(s.last()),
        );
    }
}

/// No prefix of a forest, with one more tree, can exceed the whole forest's
/// counters: the remaining trees only add.
pub proof fn lemma_calls_summary_prefix_bound(s: Seq<CallInfo>, i: int)
    requires
        0 <= i < s.len(),
    ensures
        calls_summary(s.take(i)).n_events + call_summary(s[i]).n_events <= calls_summary(
            s,
        ).n_events,
        calls_summary(s.take(i)).total_event_keys + call_summary(s[i]).total_event_keys
            <= calls_summary(s).total_event_keys,
        calls_summary(s.take(i)).total_event_data_size + call_summary(s[i]).total_event_data_size
            <= calls_summary(s).total_event_data_size,
{
    lemma_calls_summary_split(s, i + 1);
    lemma_calls_summary_take_succ(s, i);
}

/// Event-count additivity, at the root: a tree that differs from another only
/// by one more event on its root node counts exactly one more event.
pub proof fn lemma_one_more_event_at_root(c1: CallInfo, c2: CallInfo, e: OrderedEvent)
    requires
        c2.execution.events@ == c1.execution.events@.push(e),
        c2.execution.l2_to_l1_messages@ == c1.execution.l2_to_l1_messages@,
        c2.call == c1.call,
        c2.accessed_storage_keys@ == c1.accessed_storage_keys@,
        c2.inner_calls@ == c1.inner_calls@,
    ensures
        call_summary(c2).n_events == call_summary(c1).n_events + 1,
{
}

/// Event-count additivity, one level down: replacing one child of a node by a
/// tree that counts exactly one more event raises the node's count by exactly
/// one. Applied along a path from the root, this carries one added event at
/// any depth up to the whole tree.
pub proof fn lemma_one_more_event_in_child(p1: CallInfo, p2: CallInfo, i: int)
    requires
        0 <= i < p1.inner_calls@.len(),
        p2.inner_calls@.len() == p1.inner_calls@.len(),
        forall|j: int|
            0 <= j < p1.inner_calls@.len() && j != i ==> p2.inner_calls@[j]
                == p1.inner_calls@[j],
        call_summary(p2.inner_calls@[i]).n_events == call_summary(p1.inner_calls@[i]).n_events
            + 1,
        p2.execution.events@ == p1.execution.events@,
    ensures
        call_summary(p2).n_events == call_summary(p1).n_events + 1,
{
    let s1 = p1.inner_calls@;
    let s2 = p2.inner_calls@;
    lemma_calls_summary_split(s1, i + 1);
    lemma_calls_summary_take_succ(s1, i);
    lemma_calls_summary_split(s2, i + 1);
    lemma_calls_summary_take_succ(s2, i);
    assert(s2.take(i) =~= s1.take(i));
    assert(s2.skip(i + 1) =~= s1.skip(i + 1));
}

/// Membership in a concatenation is membership in either part.
pub proof fn lemma_concat_contains<A>(s1: Seq<A>, s2: Seq<A>, x: A)
    ensures
        (s1 + s2).contains(x) <==> s1.contains(x) || s2.contains(x),
{
    if s1.contains(x) {
        let i = choose|i: int| 0 <= i < s1.len() && s1[i] == x;
        assert((s1 + s2)[i] == x);
    }
    if s2.contains(x) {
        let i = choose|i: int| 0 <= i < s2.len() && s2[i] == x;
        assert((s1 + s2)[s1.len() + i] == x);
    }
    if (s1 + s2).contains(x) {
        let i = choose|i: int| 0 <= i < (s1 + s2).len() && (s1 + s2)[i] == x;
        if i < s1.len() {
            assert(s1[i] == x);
        } else {
            assert(s2[i - s1.len()] == x);
        }
    }
}

/// One contribution lies inside another: every class hash and storage entry
/// is carried over, no counter shrinks, and the payload lengths stand inside
/// the larger sequence as one contiguous run.
pub open spec fn model_included(sub: SummaryModel, sup: SummaryModel) -> bool {
    &&& sub.class_hashes.to_set().subset_of(sup.class_hashes.to_set())
    &&& sub.storage_entries.to_set().subset_of(sup.storage_entries.to_set())
    &&& sub.n_events <= sup.n_events
    &&& sub.n_messages <= sup.n_messages
    &&& sub.total_event_keys <= sup.total_event_keys
    &&& sub.total_event_data_size <= sup.total_event_data_size
    &&& exists|k: int|
        0 <= k && k + sub.payload_lengths.len() <= sup.payload_lengths.len() && #[trigger] sup.payload_lengths.subrange(k, k + sub.payload_lengths.len()) == sub.payload_lengths
}

/// Inclusion is reflexive.
proof fn lemma_included_refl(m: SummaryModel)
    ensures
        model_included(m, m),
{
    let zero: int = 0;
    assert(m.payload_lengths.subrange(zero, zero + m.payload_lengths.len()) =~= m.payload_lengths);
}

/// Inclusion survives a contribution composed in front.
pub proof fn lemma_included_add_left(sub: SummaryModel, pre: SummaryModel, sup: SummaryModel)
    requires
        model_included(sub, sup),
    ensures
        model_included(sub, pre.add(sup)),
{
    assert forall|x: ClassHash| sub.class_hashes.to_set().contains(x) implies pre.add(
        sup,
    ).class_hashes.to_set().contains(x) by {
        lemma_concat_contains(pre.class_hashes, sup.class_hashes, x);
    }
    assert forall|x: (ContractAddress, StorageKey)|
        sub.storage_entries.to_set().contains(x) implies pre.add(
        sup,
    ).storage_entries.to_set().contains(x) by {
        lemma_concat_contains(pre.storage_entries, sup.storage_entries, x);
    }
    let k = choose|k: int|
        0 <= k && k + sub.payload_lengths.len() <= sup.payload_lengths.len() && #[trigger] sup.payload_lengths.subrange(k, k + sub.payload_lengths.len()) == sub.payload_lengths;
    let k2 = pre.payload_lengths.len() + k;
    assert(pre.add(sup).payload_lengths.subrange(k2, k2 + sub.payload_lengths.len())
        =~= sup.payload_lengths.subrange(k, k + sub.payload_lengths.len()));
}

/// Inclusion survives a contribution composed behind.
pub proof fn lemma_included_add_right(sub: SummaryModel, sup: SummaryModel, post: SummaryModel)
    requires
        model_included(sub, sup),
    ensures
        model_included(sub, sup.add(post)),
{
    assert forall|x: ClassHash| sub.class_hashes.to_set().contains(x) implies sup.add(
        post,
    ).class_hashes.to_set().contains(x) by {
        lemma_concat_contains(sup.class_hashes, post.class_hashes, x);
    }
    assert forall|x: (ContractAddress, StorageKey)|
        sub.storage_entries.to_set().contains(x) implies sup.add(
        post,
    ).storage_entries.to_set().contains(x) by {
        lemma_concat_contains(sup.storage_entries, post.storage_entries, x);
    }
    let k = choose|k: int|
        0 <= k && k + sub.payload_lengths.len() <= sup.payload_lengths.len() && #[trigger] sup.payload_lengths.subrange(k, k + sub.payload_lengths.len()) == sub.payload_lengths;
    assert(sup.add(post).payload_lengths.subrange(k, k + sub.payload_lengths.len())
        =~= sup.payload_lengths.subrange(k, k + sub.payload_lengths.len()));
}

/// Whether `d` is a node of the tree rooted at `a`: the root itself or a node
/// of some child's tree.
pub open spec fn in_tree(a: CallInfo, d: CallInfo) -> bool
    decreases a,
{
    a == d || in_forest(a.inner_calls@, d)
}

/// Whether `d` is a node of some tree of the forest `s`.
pub open spec fn in_forest(s: Seq<CallInfo>, d: CallInfo) -> bool
    decreases s,
{
    s.len() > 0 && (in_forest(s.drop_last(), d) || in_tree(s.last(), d))
}

/// Recursive inclusion: whatever a node anywhere in a tree contributes — its
/// class hash, storage entries, events, messages — is included in the whole
/// tree's reduction, regardless of nesting depth.
pub proof fn lemma_in_tree_included(a: CallInfo, d: CallInfo)
    requires
        in_tree(a, d),
    ensures
        model_included(call_summary(d), call_summary(a)),
    decreases a,
{
    if a == d {
        lemma_included_refl(call_summary(a));
    } else {
        lemma_in_forest_included(a.inner_calls@, d);
        lemma_included_add_left(
            call_summary(d),
            own_summary(a),
            calls_summary(a.inner_calls@),
        );
    }
}

/// Recursive inclusion over a forest.
pub proof fn lemma_in_forest_included(s: Seq<CallInfo>, d: CallInfo)
    requires
        in_forest(s, d),
    ensures
        model_included(call_summary(d), calls_summary(s)),
    decreases s,
{
    if in_forest(s.drop_last(), d) {
        lemma_in_forest_included(s.drop_last(), d);
        lemma_included_add_right(
            call_summary(d),
            calls_summary(s.drop_last()),
            call_summary(s.last()),
        );
    } else {
        lemma_in_tree_included(s.last(), d);
        lemma_included_add_left(
            call_summary(d),
            calls_summary(s.drop_last()),
            call_summary(s.last()),
        );
    }
}

/// A tree lists exactly one payload length per outbound message: the payload
/// sequence is never deduplicated.
pub proof fn lemma_call_summary_message_count(c: CallInfo)
    ensures
        call_summary(c).payload_lengths.len() == call_summary(c).n_messages,
    decreases c,
{
    lemma_calls_summary_message_count(c.inner_calls@);
}

/// A forest lists exactly one payload length per outbound message.
pub proof fn lemma_calls_summary_message_count(s: Seq<CallInfo>)
    ensures
        calls_summary(s).payload_lengths.len() == calls_summary(s).n_messages,
    decreases s,
{
    if s.len() > 0 {
        lemma_calls_summary_message_count(s.drop_last());
        lemma_call_summary_message_count(s.last());
    }
}

} // verus!
