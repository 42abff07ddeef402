//! The transactional outbox: an append-only log of events, each given a
//! sequence number at commit time. Sequence numbers start at 1, are gapless,
//! and follow commit order, so any consumer that reads past a remembered
//! sequence number sees every later event exactly in commit order.

use vstd::prelude::*;

verus! {

/// One committed outbox event: its position in the global commit order, the
/// opaque payload, and the commit instant that recorded it.
#[derive(Debug)]
pub struct OutboxEvent {
    pub seq: u64,
    pub payload: Vec<u8>,
    pub recorded_at: u64,
}

/// Well-formedness of a committed outbox log: the event at index `i` carries
/// sequence number `i + 1`, so numbers are gapless and start at 1.
pub open spec fn outbox_wf(evts: Seq<OutboxEvent>) -> bool {
    forall|i: int| 0 <= i < evts.len() ==> #[trigger] evts[i].seq == i + 1
}

/// How a commit extends the outbox: the old log is kept unchanged, and the
/// staged payloads are appended in stage order, numbered consecutively after
/// the old log, all recorded at the commit instant.
pub open spec fn events_extended(
    e0: Seq<OutboxEvent>,
    e1: Seq<OutboxEvent>,
    payloads: Seq<Vec<u8>>,
    now: u64,
) -> bool {
    &&& e1.len() == e0.len() + payloads.len()
    &&& forall|k: int| 0 <= k < e0.len() ==> #[trigger] e1[k] == e0[k]
    &&& forall|k: int|
        0 <= k < payloads.len() ==> {
            &&& (#[trigger] e1[e0.len() + k]).payload == payloads[k]
            &&& e1[e0.len() + k].seq == e0.len() + k + 1
            &&& e1[e0.len() + k].recorded_at == now
        }
}

/// Sequence numbers in a well-formed outbox are strictly increasing with
/// position: consumers reading the log in order see strictly increasing
/// numbers, and events of an earlier commit have strictly lower numbers than
/// events of a later one.
pub proof fn lemma_outbox_strictly_increasing(evts: Seq<OutboxEvent>, a: int, b: int)
    requires
        outbox_wf(evts),
        0 <= a < b < evts.len(),
    ensures
        evts[a].seq < evts[b].seq,
{
}

/// Commit order fixes sequence order: when one commit extends the log and a
/// later commit extends it again, every event of the first commit has a
/// strictly lower sequence number than every event of the second.
pub proof fn lemma_commit_order(
    e0: Seq<OutboxEvent>,
    e1: Seq<OutboxEvent>,
    e2: Seq<OutboxEvent>,
    pay1: Seq<Vec<u8>>,
    pay2: Seq<Vec<u8>>,
    t1: u64,
    t2: u64,
    a: int,
    b: int,
)
    requires
        events_extended(e0, e1, pay1, t1),
        events_extended(e1, e2, pay2, t2),
        e0.len() <= a < e1.len(),
        e1.len() <= b < e2.len(),
    ensures
        e2[a].seq < e2[b].seq,
{
    assert(e1[e0.len() + (a - e0.len())].seq == e0.len() + (a - e0.len()) + 1);
    assert(e2[a] == e1[a]);
    assert(e2[e1.len() + (b - e1.len())].seq == e1.len() + (b - e1.len()) + 1);
}

} // verus!
