//! The scheduler's work on one tick: each watching client's queue is swapped
//! for an empty one, and its texts are joined into one batch to be scored.

use vstd::prelude::*;

use crate::registry::{has_pending, lemma_prefix_grows, queue_of, queue_replaced, Client, Registry};
use crate::text::{join_spec, join_with, texts};

verus! {

/// The separator between the texts of one batch.
pub open spec fn batch_separator() -> Seq<char> {
    ". "@
}

/// The text scored for a queue.
pub open spec fn batch_text(queue: Seq<String>) -> Seq<char> {
    join_spec(texts(queue), batch_separator())
}

/// The registry after a drain: every client with texts waiting has an empty
/// queue, every other client is as it was.
pub open spec fn drained(before: Map<u64, Client>, after: Map<u64, Client>) -> bool {
    &&& after.dom() == before.dom()
    &&& forall|k: u64| #[trigger] before.contains_key(k) ==> if has_pending(before[k]) {
        queue_replaced(before[k], after[k], Seq::empty())
    } else {
        after[k] == before[k]
    }
}

/// The batches of a drain: one per client with texts waiting, in increasing
/// order of id, each the join of what that client's queue held.
pub open spec fn batches_of(before: Map<u64, Client>, out: Seq<(u64, String)>) -> bool {
    &&& forall|id: u64| (exists|j: int| 0 <= j < out.len() && #[trigger] out[j].0 == id)
        <==> (before.contains_key(id) && has_pending(before[id]))
    &&& forall|a: int, b: int| 0 <= a < b < out.len() ==> out[a].0 < out[b].0
    &&& forall|j: int| 0 <= j < out.len() ==> (#[trigger] out[j]).1@ == batch_text(queue_of(before[out[j].0]))
}

/// Takes every waiting batch out of the registry: the caller scores each one
/// and sends the result to its client, or drops the batch if scoring fails.
pub fn drain_batches(reg: &mut Registry) -> (out: Vec<(u64, String)>)
    requires
        old(reg).wf(),
    ensures
        final(reg).wf(),
        final(reg).next() == old(reg).next(),
        drained(old(reg)@, final(reg)@),
        batches_of(old(reg)@, out@),
{
    let ids = reg.pending_ids();
    let ghost before = reg@;
    let mut out: Vec<(u64, String)> = Vec::new();
    let mut i: usize = 0;
    while i < ids.len()
        invariant
            reg.wf(),
            reg.next() == old(reg).next(),
            before == old(reg)@,
            i <= ids@.len(),
            reg@.dom() == before.dom(),
            forall|id: u64| ids@.contains(id) <==> (before.contains_key(id) && has_pending(before[id])),
            forall|a: int, b: int| 0 <= a < b < ids@.len() ==> ids@[a] < ids@[b],
            forall|k: u64| #[trigger] before.contains_key(k) ==> if ids@.subrange(0, i as int).contains(k) {
                queue_replaced(before[k], reg@[k], Seq::empty())
            } else {
                reg@[k] == before[k]
            },
            out@.len() == i,
            forall|j: int| 0 <= j < i ==> (#[trigger] out@[j]).0 == ids@[j],
            forall|j: int| 0 <= j < i ==> (#[trigger] out@[j]).1@ == batch_text(queue_of(before[out@[j].0])),
        decreases ids@.len() - i,
    {
        let id = ids[i];
        proof {
            lemma_prefix_grows(ids@, i as int);
        }
        let queue = reg.take_queue(id);
        let text = join_with(&queue, ". ");
        out.push((id, text));
        proof {
            assert(reg@.dom() =~= before.dom());
        }
        i = i + 1;
    }
    proof {
        assert(ids@.subrange(0, ids@.len() as int) =~= ids@);
        assert forall|id: u64| (exists|j: int| 0 <= j < out@.len() && #[trigger] out@[j].0 == id)
            <==> (before.contains_key(id) && has_pending(before[id])) by {
            if exists|j: int| 0 <= j < out@.len() && #[trigger] out@[j].0 == id {
                let j = choose|j: int| 0 <= j < out@.len() && #[trigger] out@[j].0 == id;
                assert(ids@[j] == id);
                assert(ids@.contains(id));
            }
            if before.contains_key(id) && has_pending(before[id]) {
                assert(ids@.contains(id));
                let j = choose|j: int| 0 <= j < ids@.len() && ids@[j] == id;
                assert(out@[j].0 == id);
            }
        }
        assert forall|a: int, b: int| 0 <= a < b < out@.len() implies out@[a].0 < out@[b].0 by {
            assert(out@[a].0 == ids@[a]);
            assert(out@[b].0 == ids@[b]);
        }
    }
    out
}

} // verus!
