//! The feed consumer's work on one item: every client that watches the
//! item's author gets the item, and its text joins each such client's queue.

use vstd::prelude::*;

use crate::messages::{gen_server_response, is_reference_id, ServerMessage, ServerMessageData};
use crate::registry::{lemma_prefix_grows, queue_of, queue_replaced, watches_subject, Client, Registry};
use crate::twitter::{same_tweet, TwitterResponse, TwitterTweetWithAuthor};

verus! {

/// `m` is the envelope that forwards `tweet` to a watcher.
pub open spec fn forwards(m: ServerMessage, tweet: TwitterTweetWithAuthor) -> bool {
    &&& m.data matches ServerMessageData::FoundTweet(t)
    &&& same_tweet(t, tweet)
    &&& m.response_id is None
    &&& is_reference_id(m.reference_id@)
}

/// The registry after `tweet` is matched: each client that watches its author
/// has the text appended to its queue, every other client is as it was.
pub open spec fn matched_into(before: Map<u64, Client>, after: Map<u64, Client>, tweet: TwitterTweetWithAuthor) -> bool {
    &&& after.dom() == before.dom()
    &&& forall|k: u64| #[trigger] before.contains_key(k) ==> if watches_subject(before[k], tweet.author_id@) {
        queue_replaced(before[k], after[k], queue_of(before[k]).push(tweet.text))
    } else {
        after[k] == before[k]
    }
}

/// The deliveries for `tweet`: one per watcher of its author, in increasing
/// order of id, each forwarding the tweet.
pub open spec fn delivered_to_watchers(before: Map<u64, Client>, out: Seq<(u64, ServerMessage)>, tweet: TwitterTweetWithAuthor) -> bool {
    &&& forall|id: u64| (exists|j: int| 0 <= j < out.len() && #[trigger] out[j].0 == id)
        <==> (before.contains_key(id) && watches_subject(before[id], tweet.author_id@))
    &&& forall|a: int, b: int| 0 <= a < b < out.len() ==> out[a].0 < out[b].0
    &&& forall|j: int| 0 <= j < out.len() ==> forwards(#[trigger] out[j].1, tweet)
}

/// Matches `tweet` against every watching client: returns an envelope per
/// match, for the caller to send on that client's channel, and appends the
/// text to each match's queue.
pub fn deliver_tweet(reg: &mut Registry, tweet: &TwitterTweetWithAuthor) -> (out: Vec<(u64, ServerMessage)>)
    requires
        old(reg).wf(),
    ensures
        final(reg).wf(),
        final(reg).next() == old(reg).next(),
        matched_into(old(reg)@, final(reg)@, *tweet),
        delivered_to_watchers(old(reg)@, out@, *tweet),
{
    let ids = reg.snapshot_matching(&tweet.author_id);
    let ghost before = reg@;
    let mut out: Vec<(u64, ServerMessage)> = Vec::new();
    let mut i: usize = 0;
    while i < ids.len()
        invariant
            reg.wf(),
            reg.next() == old(reg).next(),
            before == old(reg)@,
            i <= ids@.len(),
            reg@.dom() == before.dom(),
            forall|id: u64| ids@.contains(id) <==> (before.contains_key(id) && watches_subject(before[id], tweet.author_id@)),
            forall|a: int, b: int| 0 <= a < b < ids@.len() ==> ids@[a] < ids@[b],
            forall|k: u64| #[trigger] before.contains_key(k) ==> if ids@.subrange(0, i as int).contains(k) {
                queue_replaced(before[k], reg@[k], queue_of(before[k]).push(tweet.text))
            } else {
                reg@[k] == before[k]
            },
            out@.len() == i,
            forall|j: int| 0 <= j < i ==> (#[trigger] out@[j]).0 == ids@[j],
            forall|j: int| 0 <= j < i ==> forwards(#[trigger] out@[j].1, *tweet),
        decreases ids@.len() - i,
    {
        let id = ids[i];
        proof {
            lemma_prefix_grows(ids@, i as int);
        }
        reg.append_text(id, tweet.text.clone());
        let m = gen_server_response(ServerMessageData::FoundTweet(tweet.copy()), None);
        out.push((id, m));
        proof {
            assert(reg@.dom() =~= before.dom());
        }
        i = i + 1;
    }
    proof {
        assert(ids@.subrange(0, ids@.len() as int) =~= ids@);
        assert forall|id: u64| (exists|j: int| 0 <= j < out@.len() && #[trigger] out@[j].0 == id)
            <==> (before.contains_key(id) && watches_subject(before[id], tweet.author_id@)) by {
            if exists|j: int| 0 <= j < out@.len() && #[trigger] out@[j].0 == id {
                let j = choose|j: int| 0 <= j < out@.len() && #[trigger] out@[j].0 == id;
                assert(ids@[j] == id);
                assert(ids@.contains(id));
            }
            if before.contains_key(id) && watches_subject(before[id], tweet.author_id@) {
                assert(ids@.contains(id));
                let j = choose|j: int| 0 <= j < ids@.len() && ids@[j] == id;
                assert(out@[j].0 == id);
            }
        }
        assert forall|a: int, b: int| 0 <= a < b < out@.len() implies out@[a].0 < out@[b].0 by {
            assert(out@[a].0 == ids@[a]);
            assert(out@[b].0 == ids@[b]);
        }
    }
    out
}

/// Handles one decoded feed item: a list of upstream errors matches nobody;
/// a post is matched as `deliver_tweet` does.
pub fn on_feed_item(reg: &mut Registry, item: TwitterResponse<TwitterTweetWithAuthor>) -> (out: Vec<(u64, ServerMessage)>)
    requires
        old(reg).wf(),
    ensures
        final(reg).wf(),
        final(reg).next() == old(reg).next(),
        match item {
            TwitterResponse::Error(_) => final(reg)@ == old(reg)@ && out@.len() == 0,
            TwitterResponse::Valid(v) => matched_into(old(reg)@, final(reg)@, v.data)
                && delivered_to_watchers(old(reg)@, out@, v.data),
        },
{
    match item {
        TwitterResponse::Error(_) => Vec::new(),
        TwitterResponse::Valid(v) => deliver_tweet(reg, &v.data),
    }
}

} // verus!
