//! The event queue: a min-heap of events keyed by timestamp, in which the
//! event that ends the run comes last among events of one timestamp.
//!
//! The heap itself is `binary_heap_plus::BinaryHeap`. It holds each event as
//! a flat record of integers, so that the order in which events leave it is
//! the lexicographic order of tuples.

use vstd::prelude::*;
use vstd::multiset::*;
use binary_heap_plus::BinaryHeap;
use binary_heap_plus::MinComparator;
use crate::event::{ChurnKind, Event, EventKind, OpId, ProcessId, Time, dispatched_before, priority};

verus! {

/// An event as the heap holds it: timestamp, priority, target, operation,
/// then the kind as a tag with up to three arguments.
pub type Record = (Time, u8, ProcessId, OpId, u8, u32, i32, u16);

/// The tag and the arguments that stand for a kind in a record.
pub open spec fn kind_fields(kind: EventKind) -> (u8, u32, i32, u16) {
    match kind {
        EventKind::Local(generation, delta, count) => (0u8, generation as u32, delta, count),
        EventKind::Message => (1u8, 0u32, 0i32, 0u16),
        EventKind::Save => (2u8, 0u32, 0i32, 0u16),
        EventKind::Churn(ChurnKind::Join { num_proc }) => (3u8, num_proc, 0i32, 0u16),
        EventKind::Churn(ChurnKind::Leave { num_proc }) => (4u8, num_proc, 0i32, 0u16),
        EventKind::Churn(ChurnKind::Fail { num_proc }) => (5u8, num_proc, 0i32, 0u16),
        EventKind::Churn(ChurnKind::Recover { num_proc }) => (6u8, num_proc, 0i32, 0u16),
        EventKind::Churn(ChurnKind::LeaveId { id }) => (7u8, id, 0i32, 0u16),
        EventKind::Churn(ChurnKind::FailId { id }) => (8u8, id, 0i32, 0u16),
        EventKind::Churn(ChurnKind::RecoverId { id }) => (9u8, id, 0i32, 0u16),
        EventKind::Churn(ChurnKind::End) => (10u8, 0u32, 0i32, 0u16),
    }
}

/// The record that stands for an event.
pub open spec fn record_of(e: Event) -> Record {
    let k = kind_fields(e.kind);
    (e.ts, priority(e.kind) as u8, e.target, e.op, k.0, k.1, k.2, k.3)
}

/// The kind that a tag and its arguments stand for.
pub open spec fn kind_of_fields(tag: u8, a: u32, b: i32, c: u16) -> EventKind {
    if tag == 0 {
        EventKind::Local(a as u16, b, c)
    } else if tag == 1 {
        EventKind::Message
    } else if tag == 2 {
        EventKind::Save
    } else if tag == 3 {
        EventKind::Churn(ChurnKind::Join { num_proc: a })
    } else if tag == 4 {
        EventKind::Churn(ChurnKind::Leave { num_proc: a })
    } else if tag == 5 {
        EventKind::Churn(ChurnKind::Fail { num_proc: a })
    } else if tag == 6 {
        EventKind::Churn(ChurnKind::Recover { num_proc: a })
    } else if tag == 7 {
        EventKind::Churn(ChurnKind::LeaveId { id: a })
    } else if tag == 8 {
        EventKind::Churn(ChurnKind::FailId { id: a })
    } else if tag == 9 {
        EventKind::Churn(ChurnKind::RecoverId { id: a })
    } else {
        EventKind::Churn(ChurnKind::End)
    }
}

/// The event that a record stands for.
pub open spec fn event_of(r: Record) -> Event {
    Event { ts: r.0, target: r.2, op: r.3, kind: kind_of_fields(r.4, r.5, r.6, r.7) }
}

/// The lexicographic order of records, which is the order of tuples.
pub open spec fn record_le(x: Record, y: Record) -> bool {
    x.0 < y.0 || (x.0 == y.0 && (x.1 < y.1 || (x.1 == y.1 && (x.2 < y.2 || (x.2 == y.2 && (x.3
        < y.3 || (x.3 == y.3 && (x.4 < y.4 || (x.4 == y.4 && (x.5 < y.5 || (x.5 == y.5 && (x.6
        < y.6 || (x.6 == y.6 && x.7 <= y.7)))))))))))))
}

/// The total order in which the queue releases events: by timestamp, then
/// the end of the run last, then by the remaining fields.
pub open spec fn released_first(a: Event, b: Event) -> bool {
    record_le(record_of(a), record_of(b))
}

/// Every event is found again from its record.
pub proof fn lemma_record_round_trip(e: Event)
    ensures
        event_of(record_of(e)) == e,
{
}

/// The release order refines the order of the timeline: an event is never
/// released while another one that the timeline puts before it is queued.
pub proof fn lemma_release_respects_timeline(a: Event, b: Event)
    requires
        released_first(a, b),
    ensures
        !dispatched_before(b, a),
{
}

/// The release order is total and antisymmetric, so that the least event of
/// a queue is unique.
pub proof fn lemma_release_order_total(a: Event, b: Event)
    ensures
        released_first(a, b) || released_first(b, a),
        released_first(a, b) && released_first(b, a) ==> a == b,
{
    lemma_record_round_trip(a);
    lemma_record_round_trip(b);
    if released_first(a, b) && released_first(b, a) {
        assert(record_of(a) == record_of(b));
    }
}

/// `e` is the event that a queue holding `pending` releases next: the least
/// of them in the release order.
pub open spec fn is_least(pending: Multiset<Event>, e: Event) -> bool {
    &&& pending.contains(e)
    &&& forall|x: Event| #[trigger] pending.contains(x) ==> released_first(e, x)
}

/// What a queue releases next is decided by the events that wait in it.
pub proof fn lemma_least_is_unique(pending: Multiset<Event>, a: Event, b: Event)
    requires
        is_least(pending, a),
        is_least(pending, b),
    ensures
        a == b,
{
    lemma_release_order_total(a, b);
}

/// Among events of one timestamp the end of the run is released last: while
/// another event of its timestamp waits, the end is not the next event.
pub proof fn lemma_end_released_last(pending: Multiset<Event>, end: Event, other: Event, next: Event)
    requires
        pending.contains(end),
        pending.contains(other),
        end.ts == other.ts,
        end.kind == EventKind::Churn(ChurnKind::End),
        other.kind != EventKind::Churn(ChurnKind::End),
        is_least(pending, next),
    ensures
        next != end,
        next.ts <= end.ts,
{
    lemma_release_respects_timeline(next, other);
    lemma_release_respects_timeline(next, end);
}

/// No waiting event has a timestamp before that of the next event.
pub proof fn lemma_least_is_earliest(pending: Multiset<Event>, next: Event, x: Event)
    requires
        is_least(pending, next),
        pending.contains(x),
    ensures
        next.ts <= x.ts,
{
    lemma_release_respects_timeline(next, x);
}

#[verifier::external_type_specification]
#[verifier::external_body]
#[verifier::reject_recursive_types(T)]
#[verifier::reject_recursive_types(C)]
pub struct ExBinaryHeap<T, C>(BinaryHeap<T, C>);

#[verifier::external_type_specification]
#[verifier::external_body]
pub struct ExMinComparator(MinComparator);

/// The records that a heap holds.
pub uninterp spec fn heap_items(heap: &BinaryHeap<Record, MinComparator>) -> Multiset<Record>;

/// `BinaryHeap::new_min`: an empty min-heap.
#[verifier::external_body]
fn heap_new() -> (heap: BinaryHeap<Record, MinComparator>)
    ensures
        heap_items(&heap) == Multiset::<Record>::empty(),
{
    BinaryHeap::new_min()
}

/// `BinaryHeap::len`: the number of records held.
#[verifier::external_body]
fn heap_len(heap: &BinaryHeap<Record, MinComparator>) -> (n: usize)
    ensures
        n == heap_items(heap).len(),
{
    heap.len()
}

/// `BinaryHeap::push`: the heap holds one record more, the one given.
#[verifier::external_body]
fn heap_push(heap: &mut BinaryHeap<Record, MinComparator>, item: Record)
    ensures
        heap_items(final(heap)) == heap_items(old(heap)).insert(item),
{
    heap.push(item)
}

/// `BinaryHeap::pop` on a min-heap: nothing from an empty heap; else a held
/// record that no other held record precedes in the order of tuples, which
/// the heap then holds once less.
#[verifier::external_body]
fn heap_pop(heap: &mut BinaryHeap<Record, MinComparator>) -> (r: Option<Record>)
    ensures
        match r {
            None => heap_items(old(heap)).len() == 0 && heap_items(final(heap)) == heap_items(
                old(heap),
            ),
            Some(x) => heap_items(old(heap)).contains(x) && heap_items(final(heap)) == heap_items(
                old(heap),
            ).remove(x) && forall|y: Record| #[trigger]
                heap_items(old(heap)).contains(y) ==> record_le(x, y),
        },
{
    heap.pop()
}

/// `BinaryHeap::iter`, collected: the records held, each as often as the
/// heap holds it, in an order that the heap chooses.
#[verifier::external_body]
fn heap_to_vec(heap: &BinaryHeap<Record, MinComparator>) -> (items: Vec<Record>)
    ensures
        items@.to_multiset() == heap_items(heap),
{
    heap.iter().copied().collect()
}

/// The record of an event.
fn encode(e: &Event) -> (r: Record)
    ensures
        r == record_of(*e),
{
    let prio: u8 = if e.kind.is_end() { 1 } else { 0 };
    match e.kind {
        EventKind::Local(generation, delta, count) => (
            e.ts,
            prio,
            e.target,
            e.op,
            0,
            generation as u32,
            delta,
            count,
        ),
        EventKind::Message => (e.ts, prio, e.target, e.op, 1, 0, 0, 0),
        EventKind::Save => (e.ts, prio, e.target, e.op, 2, 0, 0, 0),
        EventKind::Churn(ChurnKind::Join { num_proc }) => (e.ts, prio, e.target, e.op, 3, num_proc, 0, 0),
        EventKind::Churn(ChurnKind::Leave { num_proc }) => (e.ts, prio, e.target, e.op, 4, num_proc, 0, 0),
        EventKind::Churn(ChurnKind::Fail { num_proc }) => (e.ts, prio, e.target, e.op, 5, num_proc, 0, 0),
        EventKind::Churn(ChurnKind::Recover { num_proc }) => (e.ts, prio, e.target, e.op, 6, num_proc, 0, 0),
        EventKind::Churn(ChurnKind::LeaveId { id }) => (e.ts, prio, e.target, e.op, 7, id, 0, 0),
        EventKind::Churn(ChurnKind::FailId { id }) => (e.ts, prio, e.target, e.op, 8, id, 0, 0),
        EventKind::Churn(ChurnKind::RecoverId { id }) => (e.ts, prio, e.target, e.op, 9, id, 0, 0),
        EventKind::Churn(ChurnKind::End) => (e.ts, prio, e.target, e.op, 10, 0, 0, 0),
    }
}

/// The event of a record.
fn decode(r: Record) -> (e: Event)
    ensures
        e == event_of(r),
{
    let (ts, _, target, op, tag, a, b, c) = r;
    let kind = if tag == 0 {
        EventKind::Local(#[verifier::truncate] (a as u16), b, c)
    } else if tag == 1 {
        EventKind::Message
    } else if tag == 2 {
        EventKind::Save
    } else if tag == 3 {
        EventKind::Churn(ChurnKind::Join { num_proc: a })
    } else if tag == 4 {
        EventKind::Churn(ChurnKind::Leave { num_proc: a })
    } else if tag == 5 {
        EventKind::Churn(ChurnKind::Fail { num_proc: a })
    } else if tag == 6 {
        EventKind::Churn(ChurnKind::Recover { num_proc: a })
    } else if tag == 7 {
        EventKind::Churn(ChurnKind::LeaveId { id: a })
    } else if tag == 8 {
        EventKind::Churn(ChurnKind::FailId { id: a })
    } else if tag == 9 {
        EventKind::Churn(ChurnKind::RecoverId { id: a })
    } else {
        EventKind::Churn(ChurnKind::End)
    };
    Event { ts, target, op, kind }
}

/// A priority queue of events.
pub struct EventQueue {
    heap: BinaryHeap<Record, MinComparator>,
    events: Ghost<Multiset<Event>>,
}

impl View for EventQueue {
    type V = Multiset<Event>;

    /// The events that wait in the queue.
    closed spec fn view(&self) -> Multiset<Event> {
        self.events@
    }
}

impl EventQueue {
    /// The heap holds exactly the records of the waiting events.
    pub closed spec fn wf(&self) -> bool {
        &&& heap_items(&self.heap).len() == self.events@.len()
        &&& forall|r: Record| #[trigger]
            heap_items(&self.heap).count(r) == if record_of(event_of(r)) == r {
                self.events@.count(event_of(r))
            } else {
                0
            }
    }


    /// An empty queue.
    pub fn new() -> (q: EventQueue)
        ensures
            q.wf(),
            q@ == Multiset::<Event>::empty(),
    {
        broadcast use group_multiset_axioms;

        EventQueue { heap: heap_new(), events: Ghost(Multiset::empty()) }
    }

    /// The number of waiting events.
    pub fn len(&self) -> (n: usize)
        requires
            self.wf(),
        ensures
            n == self@.len(),
    {
        heap_len(&self.heap)
    }

    /// Adds one event.
    pub fn add_event(&mut self, event: Event)
        requires
            old(self).wf(),
        ensures
            final(self).wf(),
            final(self)@ == old(self)@.insert(event),
    {
        broadcast use group_multiset_axioms, group_multiset_properties;

        let r = encode(&event);
        heap_push(&mut self.heap, r);
        self.events = Ghost(self.events@.insert(event));
        proof {
            lemma_record_round_trip(event);
            assert forall|x: Record| #[trigger]
                heap_items(&self.heap).count(x) == if record_of(event_of(x)) == x {
                    self.events@.count(event_of(x))
                } else {
                    0
                } by {
                assert(heap_items(&old(self).heap).count(x) == if record_of(event_of(x)) == x {
                    old(self).events@.count(event_of(x))
                } else {
                    0
                });
            }
        }
    }

    /// Adds the events of `events`, each once for each time it occurs.
    pub fn add_events(&mut self, events: Vec<Event>)
        requires
            old(self).wf(),
        ensures
            final(self).wf(),
            final(self)@ == old(self)@.add(events@.to_multiset()),
    {
        broadcast use group_multiset_axioms, group_multiset_properties;

        let mut i: usize = 0;
        proof {
            events@.take(0).to_multiset_ensures();
            assert(events@.take(0) =~= Seq::<Event>::empty());
            assert(self@ =~= old(self)@.add(events@.take(0).to_multiset()));
        }
        while i < events.len()
            invariant
                i <= events.len(),
                self.wf(),
                self@ == old(self)@.add(events@.take(i as int).to_multiset()),
            decreases events.len() - i,
        {
            self.add_event(events[i]);
            proof {
                let prefix = events@.take(i as int);
                prefix.to_multiset_ensures();
                assert(events@.take(i + 1) =~= prefix.push(events@[i as int]));
                assert(self@ =~= old(self)@.add(events@.take(i + 1).to_multiset()));
            }
            i += 1;
        }
        proof {
            assert(events@.take(i as int) =~= events@);
        }
    }

    /// Takes out the next event: none from an empty queue, which stays as it
    /// is; else the least waiting event in the release order, which then
    /// waits once less.
    pub fn next_event(&mut self) -> (r: Option<Event>)
        requires
            old(self).wf(),
        ensures
            final(self).wf(),
            match r {
                None => old(self)@.len() == 0 && final(self)@ == old(self)@,
                Some(e) => is_least(old(self)@, e) && final(self)@ == old(self)@.remove(e),
            },
    {
        broadcast use group_multiset_axioms, group_multiset_properties;

        match heap_pop(&mut self.heap) {
            None => None,
            Some(x) => {
                let e = decode(x);
                proof {
                    assert(heap_items(&old(self).heap).count(x) > 0);
                    assert(record_of(e) == x);
                    assert(old(self).events@.count(e) > 0);
                    assert forall|y: Event| #[trigger]
                        old(self)@.contains(y) implies released_first(e, y) by {
                        lemma_record_round_trip(y);
                        assert(heap_items(&old(self).heap).count(record_of(y)) > 0);
                        assert(heap_items(&old(self).heap).contains(record_of(y)));
                    }
                }
                self.events = Ghost(self.events@.remove(e));
                proof {
                    assert forall|z: Record| #[trigger]
                        heap_items(&self.heap).count(z) == if record_of(event_of(z)) == z {
                            self.events@.count(event_of(z))
                        } else {
                            0
                        } by {
                        assert(heap_items(&old(self).heap).count(z) == if record_of(event_of(z))
                            == z {
                            old(self).events@.count(event_of(z))
                        } else {
                            0
                        });
                    }
                }
                Some(e)
            },
        }
    }

    /// The waiting events, each as often as it waits, in no particular
    /// order. The queue stays as it is.
    pub fn events(&self) -> (v: Vec<Event>)
        requires
            self.wf(),
        ensures
            v@.to_multiset() == self@,
    {
        broadcast use group_multiset_axioms, group_multiset_properties;

        let items = heap_to_vec(&self.heap);
        let mut v: Vec<Event> = Vec::new();
        let mut i: usize = 0;
        while i < items.len()
            invariant
                i <= items@.len(),
                v@ == items@.take(i as int).map_values(|r: Record| event_of(r)),
            decreases items.len() - i,
        {
            v.push(decode(items[i]));
            proof {
                assert(items@.take(i + 1) =~= items@.take(i as int).push(items@[i as int]));
                assert(v@ =~= items@.take(i + 1).map_values(|r: Record| event_of(r)));
            }
            i += 1;
        }
        proof {
            assert(items@.take(i as int) =~= items@);
            self.lemma_events_of_records(items@);
        }
        v
    }

    /// A list of the records that the heap holds, turned into events, lists
    /// the waiting events.
    proof fn lemma_events_of_records(&self, items: Seq<Record>)
        requires
            self.wf(),
            items.to_multiset() == heap_items(&self.heap),
        ensures
            items.map_values(|r: Record| event_of(r)).to_multiset() == self@,
    {
        broadcast use group_multiset_axioms, group_multiset_properties;

        let events = items.map_values(|r: Record| event_of(r));
        assert forall|i: int| 0 <= i < items.len() implies record_of(event_of(#[trigger] items[i]))
            == items[i] by {
            items.to_multiset_ensures();
            assert(items.to_multiset().count(items[i]) > 0);
            assert(heap_items(&self.heap).count(items[i]) > 0);
        }
        assert forall|e: Event| #[trigger] events.to_multiset().count(e) == self.events@.count(e) by {
            lemma_record_round_trip(e);
            lemma_count_through(items, e);
            assert(heap_items(&self.heap).count(record_of(e)) == self.events@.count(e));
        }
        assert(events.to_multiset() =~= self.events@);
    }
}

/// In a list of records that all stand for events, an event occurs as
/// often among the events as its record does among the records.
proof fn lemma_count_through(items: Seq<Record>, e: Event)
    requires
        forall|i: int| 0 <= i < items.len() ==> record_of(event_of(#[trigger] items[i])) == items[i],
    ensures
        items.map_values(|r: Record| event_of(r)).to_multiset().count(e) == items.to_multiset().count(
            record_of(e),
        ),
    decreases items.len(),
{
    broadcast use group_multiset_axioms, group_multiset_properties;

    let events = items.map_values(|r: Record| event_of(r));
    if items.len() == 0 {
        items.to_multiset_ensures();
        events.to_multiset_ensures();
        assert(items =~= Seq::<Record>::empty());
        assert(events =~= Seq::<Event>::empty());
    } else {
        let head = items.drop_last();
        let last = items.last();
        let head_events = head.map_values(|r: Record| event_of(r));
        assert forall|i: int| 0 <= i < head.len() implies record_of(event_of(#[trigger] head[i]))
            == head[i] by {
            assert(head[i] == items[i]);
        }
        lemma_count_through(head, e);
        assert(items =~= head.push(last));
        assert(events =~= head_events.push(event_of(last)));
        head.to_multiset_ensures();
        head_events.to_multiset_ensures();
        assert(items.to_multiset() =~= head.to_multiset().insert(last));
        assert(events.to_multiset() =~= head_events.to_multiset().insert(event_of(last)));
        lemma_record_round_trip(e);
        assert(record_of(event_of(last)) == last) by {
            assert(items[items.len() - 1] == last);
        }
        if event_of(last) == e {
            assert(last == record_of(e));
        }
        if last == record_of(e) {
            assert(event_of(last) == e);
        }
    }
}

} // verus!
