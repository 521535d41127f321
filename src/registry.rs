//! The registry of live connections: id → client state, with the narrow entry
//! points through which that state is read and changed.

use vstd::pervasive::VecAdditionalExecFns;
use vstd::prelude::*;

use crate::twitter::TwitterUser;

verus! {

/// A client's watch: the resolved subject, the id of the upstream filter rule
/// that backs it, and the texts matched since the last drain.
#[derive(Debug, Clone, PartialEq, Eq)]
pub struct StreamingUserInfo {
    pub user: TwitterUser,
    pub rule_id: String,
    pub tweet_queue: Vec<String>,
}

/// The state of one live connection.
#[derive(Debug, Clone, PartialEq, Eq)]
pub struct Client {
    pub topics: Vec<String>,
    pub streaming_user_info: Option<StreamingUserInfo>,
}

/// A client that has just connected: no topics, no watch.
pub open spec fn fresh_client(c: Client) -> bool {
    c.topics@.len() == 0 && c.streaming_user_info is None
}

pub open spec fn is_watching(c: Client) -> bool {
    c.streaming_user_info is Some
}

/// `c` watches the subject whose identity is `key`.
pub open spec fn watches_subject(c: Client, key: Seq<char>) -> bool {
    c.streaming_user_info matches Some(info) && info.user.id@ == key
}

/// `c` watches a subject and has matched texts waiting.
pub open spec fn has_pending(c: Client) -> bool {
    c.streaming_user_info matches Some(info) && info.tweet_queue@.len() > 0
}

/// `c` with its topic set replaced by `topics`.
pub open spec fn with_topics(c: Client, topics: Vec<String>) -> Client {
    Client { topics, streaming_user_info: c.streaming_user_info }
}

/// The queue of `c`'s watch, or nothing when it watches nothing.
pub open spec fn queue_of(c: Client) -> Seq<String> {
    match c.streaming_user_info {
        Some(info) => info.tweet_queue@,
        None => Seq::empty(),
    }
}

/// `after` is `before` with its watch queue now holding `queue`; nothing else
/// changed.
pub open spec fn queue_replaced(before: Client, after: Client, queue: Seq<String>) -> bool {
    &&& after.topics == before.topics
    &&& match (before.streaming_user_info, after.streaming_user_info) {
        (Some(b), Some(a)) => a.user == b.user && a.rule_id == b.rule_id && a.tweet_queue@ == queue,
        (None, None) => true,
        _ => false,
    }
}

/// Growing a prefix of an increasing list of ids by one adds exactly the next
/// id, which the shorter prefix did not hold.
pub proof fn lemma_prefix_grows(ids: Seq<u64>, i: int)
    requires
        0 <= i < ids.len(),
        forall|a: int, b: int| 0 <= a < b < ids.len() ==> ids[a] < ids[b],
    ensures
        !ids.subrange(0, i).contains(ids[i]),
        forall|k: u64| #[trigger] ids.subrange(0, i + 1).contains(k) <==> (ids.subrange(0, i).contains(k) || k == ids[i]),
{
    let (pre, post) = (ids.subrange(0, i), ids.subrange(0, i + 1));
    if pre.contains(ids[i]) {
        let a = choose|a: int| 0 <= a < pre.len() && pre[a] == ids[i];
        assert(ids[a] == ids[i]);
    }
    assert forall|k: u64| #[trigger] post.contains(k) <==> (pre.contains(k) || k == ids[i]) by {
        if post.contains(k) {
            let a = choose|a: int| 0 <= a < post.len() && post[a] == k;
            if a < i {
                assert(pre[a] == k);
            }
        }
        if pre.contains(k) {
            let a = choose|a: int| 0 <= a < pre.len() && pre[a] == k;
            assert(post[a] == k);
        }
        if k == ids[i] {
            assert(post[i] == k);
        }
    }
}

/// The map of live connections. Ids come from a counter and are never handed
/// out twice.
pub struct Registry {
    entries: Vec<(u64, Client)>,
    next_id: u64,
    model: Ghost<Map<u64, Client>>,
}

impl View for Registry {
    type V = Map<u64, Client>;

    closed spec fn view(&self) -> Map<u64, Client> {
        self.model@
    }
}

impl Registry {
    /// The id that the next registration hands out.
    pub closed spec fn next(&self) -> u64 {
        self.next_id
    }

    closed spec fn ordered(&self) -> bool {
        &&& forall|i: int, j: int|
            0 <= i < j < self.entries@.len() ==> self.entries@[i].0 < self.entries@[j].0
        &&& forall|i: int| 0 <= i < self.entries@.len() ==> self.entries@[i].0 < self.next_id
    }

    closed spec fn covers(&self) -> bool {
        &&& forall|i: int|
            0 <= i < self.entries@.len() ==> self.model@.contains_key(#[trigger] self.entries@[i].0)
        &&& forall|k: u64|
            self.model@.contains_key(k) ==> exists|i: int|
                0 <= i < self.entries@.len() && #[trigger] self.entries@[i].0 == k
    }

    closed spec fn agrees(&self, i: int) -> bool {
        self.model@[self.entries@[i].0] == self.entries@[i].1
    }

    /// The registry's internal invariant.
    pub closed spec fn wf(&self) -> bool {
        &&& self.ordered()
        &&& self.covers()
        &&& forall|i: int| 0 <= i < self.entries@.len() ==> #[trigger] self.agrees(i)
    }

    /// Every id in use is below the counter, so a registration never reuses one.
    pub proof fn lemma_ids_below_next(&self, id: u64)
        requires
            self.wf(),
            self@.contains_key(id),
        ensures
            id < self.next(),
    {
        let i = choose|i: int| 0 <= i < self.entries@.len() && #[trigger] self.entries@[i].0 == id;
    }

    pub fn new() -> (r: Registry)
        ensures
            r.wf(),
            r@ == Map::<u64, Client>::empty(),
            r.next() == 0,
    {
        Registry { entries: Vec::new(), next_id: 0, model: Ghost(Map::empty()) }
    }

    fn find(&self, id: u64) -> (r: Option<usize>)
        requires
            self.wf(),
        ensures
            match r {
                Some(i) => i < self.entries@.len() && self.entries@[i as int].0 == id
                    && self@.contains_key(id) && self@[id] == self.entries@[i as int].1,
                None => !self@.contains_key(id),
            },
    {
        let mut i: usize = 0;
        while i < self.entries.len()
            invariant
                self.wf(),
                i <= self.entries@.len(),
                forall|j: int| 0 <= j < i ==> self.entries@[j].0 != id,
            decreases self.entries@.len() - i,
        {
            if self.entries[i].0 == id {
                assert(self.agrees(i as int));
                return Some(i);
            }
            i = i + 1;
        }
        None
    }

    /// Takes the client at `i` out of its slot, leaving a fresh one there.
    fn take_at(&mut self, i: usize) -> (c: Client)
        requires
            old(self).wf(),
            i < old(self).entries@.len(),
        ensures
            final(self).ordered(),
            final(self).covers(),
            final(self).model == old(self).model,
            final(self).next_id == old(self).next_id,
            final(self).entries@.len() == old(self).entries@.len(),
            final(self).entries@[i as int].0 == old(self).entries@[i as int].0,
            forall|j: int| 0 <= j < final(self).entries@.len() && j != i ==> #[trigger] final(self).agrees(j),
            c == old(self)@[old(self).entries@[i as int].0],
    {
        let id = self.entries[i].0;
        let mut slot = (id, Client { topics: Vec::new(), streaming_user_info: None });
        self.entries.set_and_swap(i, &mut slot);
        proof {
            assert(old(self).agrees(i as int));
            assert forall|j: int| 0 <= j < self.entries@.len() && j != i implies #[trigger] self.agrees(j) by {
                assert(old(self).agrees(j));
            }
            assert forall|k: u64| self.model@.contains_key(k) implies exists|j: int|
                0 <= j < self.entries@.len() && #[trigger] self.entries@[j].0 == k by {
                let j = choose|j: int| 0 <= j < old(self).entries@.len() && #[trigger] old(self).entries@[j].0 == k;
                assert(self.entries@[j].0 == k);
            }
        }
        slot.1
    }

    /// Puts `c` into slot `i`, which `take_at` emptied.
    fn put_at(&mut self, i: usize, c: Client)
        requires
            old(self).ordered(),
            old(self).covers(),
            i < old(self).entries@.len(),
            forall|j: int| 0 <= j < old(self).entries@.len() && j != i ==> #[trigger] old(self).agrees(j),
        ensures
            final(self).wf(),
            final(self)@ == old(self)@.insert(old(self).entries@[i as int].0, c),
            final(self).next_id == old(self).next_id,
            final(self).entries@.len() == old(self).entries@.len(),
            forall|j: int| 0 <= j < final(self).entries@.len() ==> #[trigger] final(self).entries@[j].0 == old(self).entries@[j].0,
    {
        let id = self.entries[i].0;
        let ghost gc = c;
        self.entries.set(i, (id, c));
        self.model = Ghost(self.model@.insert(id, gc));
        proof {
            assert forall|j: int| 0 <= j < self.entries@.len() implies #[trigger] self.agrees(j) by {
                if j != i {
                    assert(old(self).agrees(j));
                    assert(old(self).entries@[j].0 != id);
                }
            }
            assert forall|k: u64| self.model@.contains_key(k) implies exists|j: int|
                0 <= j < self.entries@.len() && #[trigger] self.entries@[j].0 == k by {
                if k == id {
                    assert(self.entries@[i as int].0 == k);
                } else {
                    let j = choose|j: int| 0 <= j < old(self).entries@.len() && #[trigger] old(self).entries@[j].0 == k;
                    assert(self.entries@[j].0 == k);
                }
            }
            assert forall|j: int| 0 <= j < self.entries@.len() implies self.model@.contains_key(#[trigger] self.entries@[j].0) by {
                assert(old(self).model@.contains_key(old(self).entries@[j].0));
            }
        }
    }

    /// Adds a fresh client and returns its id; `None` once the counter is spent.
    pub fn register(&mut self) -> (r: Option<u64>)
        requires
            old(self).wf(),
        ensures
            final(self).wf(),
            match r {
                Some(id) => {
                    &&& id == old(self).next()
                    &&& !old(self)@.contains_key(id)
                    &&& final(self).next() == id + 1
                    &&& final(self)@.dom() == old(self)@.dom().insert(id)
                    &&& final(self)@.remove(id) == old(self)@
                    &&& fresh_client(final(self)@[id])
                },
                None => old(self).next() == u64::MAX && final(self)@ == old(self)@
                    && final(self).next() == old(self).next(),
            },
    {
        if self.next_id == u64::MAX {
            return None;
        }
        let id = self.next_id;
        let c = Client { topics: Vec::new(), streaming_user_info: None };
        let ghost gc = c;
        proof {
            if self@.contains_key(id) {
                self.lemma_ids_below_next(id);
            }
        }
        self.entries.push((id, c));
        self.next_id = id + 1;
        self.model = Ghost(self.model@.insert(id, gc));
        proof {
            let n = self.entries@.len() - 1;
            assert forall|j: int| 0 <= j < self.entries@.len() implies #[trigger] self.agrees(j) by {
                if j < n {
                    assert(old(self).agrees(j));
                    assert(old(self).entries@[j].0 != id);
                }
            }
            assert forall|k: u64| self.model@.contains_key(k) implies exists|j: int|
                0 <= j < self.entries@.len() && #[trigger] self.entries@[j].0 == k by {
                if k == id {
                    assert(self.entries@[n].0 == k);
                } else {
                    let j = choose|j: int| 0 <= j < old(self).entries@.len() && #[trigger] old(self).entries@[j].0 == k;
                    assert(self.entries@[j].0 == k);
                }
            }
            assert forall|j: int| 0 <= j < self.entries@.len() implies self.model@.contains_key(#[trigger] self.entries@[j].0) by {
                if j < n {
                    assert(old(self).model@.contains_key(old(self).entries@[j].0));
                }
            }
            assert(self.model@.remove(id) =~= old(self).model@);
        }
        Some(id)
    }

    /// Removes client `id`, handing back the watch it held; a no-op on an id
    /// that is not there.
    pub fn unregister(&mut self, id: u64) -> (r: Option<StreamingUserInfo>)
        requires
            old(self).wf(),
        ensures
            final(self).wf(),
            final(self)@ == old(self)@.remove(id),
            final(self).next() == old(self).next(),
            r == (if old(self)@.contains_key(id) {
                old(self)@[id].streaming_user_info
            } else {
                None
            }),
    {
        match self.find(id) {
            None => {
                assert(self.model@.remove(id) =~= self.model@);
                None
            },
            Some(i) => {
                let (_, c) = self.entries.remove(i);
                self.model = Ghost(self.model@.remove(id));
                proof {
                    assert forall|j: int| 0 <= j < self.entries@.len() implies #[trigger] self.agrees(j) by {
                        let oj = if j < i { j } else { j + 1 };
                        assert(old(self).agrees(oj));
                        assert(self.entries@[j] == old(self).entries@[oj]);
                        assert(old(self).entries@[oj].0 != id);
                    }
                    assert forall|k: u64| self.model@.contains_key(k) implies exists|j: int|
                        0 <= j < self.entries@.len() && #[trigger] self.entries@[j].0 == k by {
                        let oj = choose|j: int| 0 <= j < old(self).entries@.len() && #[trigger] old(self).entries@[j].0 == k;
                        assert(oj != i);
                        if oj < i {
                            assert(self.entries@[oj].0 == k);
                        } else {
                            assert(self.entries@[oj - 1].0 == k);
                        }
                    }
                    assert forall|j: int| 0 <= j < self.entries@.len() implies self.model@.contains_key(#[trigger] self.entries@[j].0) by {
                        let oj = if j < i { j } else { j + 1 };
                        assert(self.entries@[j] == old(self).entries@[oj]);
                        assert(old(self).model@.contains_key(old(self).entries@[oj].0));
                    }
                    assert forall|a: int, b: int| 0 <= a < b < self.entries@.len() implies self.entries@[a].0 < self.entries@[b].0 by {
                        let oa = if a < i { a } else { a + 1 };
                        let ob = if b < i { b } else { b + 1 };
                        assert(self.entries@[a] == old(self).entries@[oa]);
                        assert(self.entries@[b] == old(self).entries@[ob]);
                    }
                    assert forall|a: int| 0 <= a < self.entries@.len() implies self.entries@[a].0 < self.next_id by {
                        let oa = if a < i { a } else { a + 1 };
                        assert(self.entries@[a] == old(self).entries@[oa]);
                    }
                }
                c.streaming_user_info
            },
        }
    }

    /// The state of client `id`, if it is live.
    pub fn get(&self, id: u64) -> (r: Option<&Client>)
        requires
            self.wf(),
        ensures
            r == (if self@.contains_key(id) { Some(&self@[id]) } else { None }),
    {
        match self.find(id) {
            Some(i) => Some(&self.entries[i].1),
            None => None,
        }
    }

    /// Whether client `id` is live and watching.
    pub fn is_watching(&self, id: u64) -> (r: bool)
        requires
            self.wf(),
        ensures
            r == (self@.contains_key(id) && is_watching(self@[id])),
    {
        match self.find(id) {
            Some(i) => self.entries[i].1.streaming_user_info.is_some(),
            None => false,
        }
    }

    /// Whether any live client watches a subject.
    pub fn any_watching(&self) -> (r: bool)
        requires
            self.wf(),
        ensures
            r == exists|id: u64| self@.contains_key(id) && #[trigger] is_watching(self@[id]),
    {
        let mut i: usize = 0;
        while i < self.entries.len()
            invariant
                self.wf(),
                i <= self.entries@.len(),
                forall|j: int| 0 <= j < i ==> !is_watching(#[trigger] self.entries@[j].1),
            decreases self.entries@.len() - i,
        {
            if self.entries[i].1.streaming_user_info.is_some() {
                proof {
                    assert(self.agrees(i as int));
                    assert(self@.contains_key(self.entries@[i as int].0));
                    assert(is_watching(self@[self.entries@[i as int].0]));
                }
                return true;
            }
            i = i + 1;
        }
        proof {
            assert forall|id: u64| self@.contains_key(id) implies !#[trigger] is_watching(self@[id]) by {
                let j = choose|j: int| 0 <= j < self.entries@.len() && #[trigger] self.entries@[j].0 == id;
                assert(self.agrees(j));
            }
        }
        false
    }

    /// Replaces the topic set of client `id` wholesale; `false` when `id` is not
    /// live, and then nothing changes.
    pub fn set_topics(&mut self, id: u64, topics: Vec<String>) -> (r: bool)
        requires
            old(self).wf(),
        ensures
            final(self).wf(),
            final(self).next() == old(self).next(),
            r == old(self)@.contains_key(id),
            final(self)@ == (if r {
                old(self)@.insert(id, with_topics(old(self)@[id], topics))
            } else {
                old(self)@
            }),
    {
        match self.find(id) {
            None => false,
            Some(i) => {
                let c = self.take_at(i);
                self.put_at(i, Client { topics, streaming_user_info: c.streaming_user_info });
                true
            },
        }
    }

    /// Sets the watch of client `id`; refused, with nothing changed, when `id`
    /// is not live or already watches.
    pub fn start_watch(&mut self, id: u64, info: StreamingUserInfo) -> (r: bool)
        requires
            old(self).wf(),
        ensures
            final(self).wf(),
            final(self).next() == old(self).next(),
            r == (old(self)@.contains_key(id) && !is_watching(old(self)@[id])),
            final(self)@ == (if r {
                old(self)@.insert(id, Client { topics: old(self)@[id].topics, streaming_user_info: Some(info) })
            } else {
                old(self)@
            }),
    {
        match self.find(id) {
            None => false,
            Some(i) => {
                if self.entries[i].1.streaming_user_info.is_some() {
                    return false;
                }
                let c = self.take_at(i);
                self.put_at(i, Client { topics: c.topics, streaming_user_info: Some(info) });
                true
            },
        }
    }

    /// Appends `text` to the queue of client `id`'s watch; `false`, with
    /// nothing changed, when `id` is not live or watches nothing.
    pub fn append_text(&mut self, id: u64, text: String) -> (r: bool)
        requires
            old(self).wf(),
        ensures
            final(self).wf(),
            final(self).next() == old(self).next(),
            r == (old(self)@.contains_key(id) && is_watching(old(self)@[id])),
            final(self)@.dom() == old(self)@.dom(),
            forall|k: u64| k != id && old(self)@.contains_key(k) ==> final(self)@[k] == old(self)@[k],
            r ==> queue_replaced(old(self)@[id], final(self)@[id], queue_of(old(self)@[id]).push(text)),
            !r ==> final(self)@ == old(self)@,
    {
        match self.find(id) {
            None => false,
            Some(i) => {
                if self.entries[i].1.streaming_user_info.is_none() {
                    return false;
                }
                let c = self.take_at(i);
                let c2 = match c.streaming_user_info {
                    Some(info) => {
                        let mut q = info.tweet_queue;
                        q.push(text);
                        Client {
                            topics: c.topics,
                            streaming_user_info: Some(StreamingUserInfo { user: info.user, rule_id: info.rule_id, tweet_queue: q }),
                        }
                    },
                    None => Client { topics: c.topics, streaming_user_info: None },
                };
                self.put_at(i, c2);
                true
            },
        }
    }

    /// Swaps the queue of client `id`'s watch for an empty one and returns what
    /// it held; empty, with nothing changed, when `id` is not live or watches
    /// nothing.
    pub fn take_queue(&mut self, id: u64) -> (r: Vec<String>)
        requires
            old(self).wf(),
        ensures
            final(self).wf(),
            final(self).next() == old(self).next(),
            final(self)@.dom() == old(self)@.dom(),
            forall|k: u64| k != id && old(self)@.contains_key(k) ==> final(self)@[k] == old(self)@[k],
            old(self)@.contains_key(id) ==> queue_replaced(old(self)@[id], final(self)@[id], Seq::empty()),
            !old(self)@.contains_key(id) ==> final(self)@ == old(self)@,
            r@ == (if old(self)@.contains_key(id) { queue_of(old(self)@[id]) } else { Seq::empty() }),
    {
        match self.find(id) {
            None => Vec::new(),
            Some(i) => {
                let c = self.take_at(i);
                match c.streaming_user_info {
                    Some(info) => {
                        self.put_at(i, Client {
                            topics: c.topics,
                            streaming_user_info: Some(StreamingUserInfo { user: info.user, rule_id: info.rule_id, tweet_queue: Vec::new() }),
                        });
                        info.tweet_queue
                    },
                    None => {
                        self.put_at(i, Client { topics: c.topics, streaming_user_info: None });
                        Vec::new()
                    },
                }
            },
        }
    }

    /// The ids, in increasing order, of the live clients for which `pick`
    /// holds at index `i`; shared by the two snapshots below.
    closed spec fn picked(&self, i: int, key: Option<Seq<char>>) -> bool {
        match key {
            Some(k) => watches_subject(self.entries@[i].1, k),
            None => has_pending(self.entries@[i].1),
        }
    }

    fn snapshot(&self, key: Option<&String>) -> (r: Vec<u64>)
        requires
            self.wf(),
        ensures
            forall|id: u64| r@.contains(id) <==> (self@.contains_key(id) && match key {
                Some(k) => watches_subject(self@[id], k@),
                None => has_pending(self@[id]),
            }),
            forall|a: int, b: int| 0 <= a < b < r@.len() ==> r@[a] < r@[b],
    {
        let ghost gkey: Option<Seq<char>> = match key { Some(k) => Some(k@), None => None };
        let mut r: Vec<u64> = Vec::new();
        let mut i: usize = 0;
        while i < self.entries.len()
            invariant
                self.wf(),
                i <= self.entries@.len(),
                gkey == (match key { Some(k) => Some(k@), None => None::<Seq<char>> }),
                forall|id: u64| r@.contains(id) <==> exists|j: int| 0 <= j < i && #[trigger] self.entries@[j].0 == id && self.picked(j, gkey),
                forall|a: int, b: int| 0 <= a < b < r@.len() ==> r@[a] < r@[b],
                forall|a: int| #![trigger r@[a]] 0 <= a < r@.len() ==> exists|j: int| 0 <= j < i && #[trigger] self.entries@[j].0 == r@[a],
            decreases self.entries@.len() - i,
        {
            let pick = match &self.entries[i].1.streaming_user_info {
                Some(info) => match key {
                    Some(k) => info.user.id == *k,
                    None => info.tweet_queue.len() > 0,
                },
                None => false,
            };
            let ghost r0 = r@;
            if pick {
                r.push(self.entries[i].0);
            }
            proof {
                assert(pick == self.picked(i as int, gkey));
                let id_i = self.entries@[i as int].0;
                assert forall|id: u64| r@.contains(id) <==> exists|j: int| 0 <= j < i + 1 && #[trigger] self.entries@[j].0 == id && self.picked(j, gkey) by {
                    if r@.contains(id) {
                        if pick && id == id_i {
                            assert(self.entries@[i as int].0 == id);
                        } else {
                            let a = choose|a: int| 0 <= a < r@.len() && r@[a] == id;
                            assert(r0.contains(id)) by {
                                if pick { assert(a < r0.len()); assert(r0[a] == id); } else { assert(r0[a] == id); }
                            }
                        }
                    }
                    if exists|j: int| 0 <= j < i + 1 && #[trigger] self.entries@[j].0 == id && self.picked(j, gkey) {
                        let j = choose|j: int| 0 <= j < i + 1 && #[trigger] self.entries@[j].0 == id && self.picked(j, gkey);
                        if j == i {
                            assert(r@[r@.len() - 1] == id);
                        } else {
                            assert(r0.contains(id));
                            let a = choose|a: int| 0 <= a < r0.len() && r0[a] == id;
                            assert(r@[a] == id);
                        }
                    }
                }
                assert forall|a: int| #![trigger r@[a]] 0 <= a < r@.len() implies exists|j: int| 0 <= j < i + 1 && #[trigger] self.entries@[j].0 == r@[a] by {
                    if a < r0.len() {
                        assert(r@[a] == r0[a]);
                        let j = choose|j: int| 0 <= j < i && #[trigger] self.entries@[j].0 == r0[a];
                        assert(self.entries@[j].0 == r@[a]);
                    } else {
                        assert(self.entries@[i as int].0 == r@[a]);
                    }
                }
                assert forall|a: int, b: int| 0 <= a < b < r@.len() implies r@[a] < r@[b] by {
                    if b == r0.len() && pick {
                        let j = choose|j: int| 0 <= j < i && #[trigger] self.entries@[j].0 == r0[a];
                        assert(r@[a] == r0[a]);
                    }
                }
            }
            i = i + 1;
        }
        proof {
            assert forall|id: u64| r@.contains(id) <==> (self@.contains_key(id) && match key {
                Some(k) => watches_subject(self@[id], k@),
                None => has_pending(self@[id]),
            }) by {
                if r@.contains(id) {
                    let j = choose|j: int| 0 <= j < self.entries@.len() && #[trigger] self.entries@[j].0 == id && self.picked(j, gkey);
                    assert(self.agrees(j));
                }
                if self@.contains_key(id) && match key {
                    Some(k) => watches_subject(self@[id], k@),
                    None => has_pending(self@[id]),
                } {
                    let j = choose|j: int| 0 <= j < self.entries@.len() && #[trigger] self.entries@[j].0 == id;
                    assert(self.agrees(j));
                    assert(self.picked(j, gkey));
                }
            }
        }
        r
    }

    /// The ids, in increasing order, of the live clients that watch the
    /// subject whose identity is `key`.
    pub fn snapshot_matching(&self, key: &String) -> (r: Vec<u64>)
        requires
            self.wf(),
        ensures
            forall|id: u64| r@.contains(id) <==> (self@.contains_key(id) && watches_subject(self@[id], key@)),
            forall|a: int, b: int| 0 <= a < b < r@.len() ==> r@[a] < r@[b],
    {
        self.snapshot(Some(key))
    }

    /// The ids, in increasing order, of the live clients that watch and have
    /// matched texts waiting.
    pub fn pending_ids(&self) -> (r: Vec<u64>)
        requires
            self.wf(),
        ensures
            forall|id: u64| r@.contains(id) <==> (self@.contains_key(id) && has_pending(self@[id])),
            forall|a: int, b: int| 0 <= a < b < r@.len() ==> r@[a] < r@[b],
    {
        self.snapshot(None)
    }
}

} // verus!
