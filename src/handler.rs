//! The per-connection handler: decisions from the connection's state and the
//! next event to the next state and the one action the caller carries out.
//!
//! A connection is Idle or Watching (its entry in the registry holds a watch).
//! Looking a subject up and registering a filter rule are outside calls, so a
//! request that needs them passes through a pending step per call: the caller
//! performs the action it got back and hands in its outcome as the next event.

use vstd::prelude::*;
use vstd::string::StringExecFns;

use crate::messages::{
    gen_server_err_response, gen_server_response, is_reference_id, ClientMessage,
    ClientMessageData, ServerMessage, ServerMessageData,
};
use crate::registry::{is_watching, with_topics, Client, Registry, StreamingUserInfo};
use crate::text::{decimal, decimal_string, is_digit_char, lemma_decimal_digits, lemma_decimal_injective};
use crate::twitter::{
    add_rule_request, author_rule, status_code_text, ErrorResponse,
    TwitterModifyTweetStreamRequest, TwitterTweetStreamRule, TwitterUser,
};

verus! {

/// The outside call a connection waits on, with what it needs once the call
/// returns.
#[derive(Debug, Clone, PartialEq, Eq)]
pub enum Pending {
    Idle,
    /// A lookup asked for by `FindUser`.
    Finding { reference_id: String },
    /// The lookup that starts a watch.
    WatchLookup { reference_id: String, username: String },
    /// The filter registration that completes a watch.
    WatchRegister { reference_id: String, user: TwitterUser, tag: String },
}

impl Pending {
    pub fn is_idle(&self) -> (r: bool)
        ensures
            r == (*self is Idle),
    {
        match self {
            Pending::Idle => true,
            _ => false,
        }
    }
}

/// One live connection: its registry id and what it waits on.
#[derive(Debug, Clone, PartialEq, Eq)]
pub struct Session {
    pub id: u64,
    pub pending: Pending,
}

/// What happens to a connection.
#[derive(Debug, PartialEq, Eq)]
pub enum Event {
    /// A well-formed inbound envelope.
    Message(ClientMessage),
    /// An inbound text that does not decode; the correlation id if one could
    /// be read, and the decoder's message.
    Malformed { reference_id: Option<String>, message: String },
    /// The outcome of the lookup asked for.
    LookupDone(Result<TwitterUser, ErrorResponse>),
    /// The outcome of the filter registration asked for.
    FilterDone(Result<Vec<TwitterTweetStreamRule>, ErrorResponse>),
}

/// What the caller does next for a connection.
#[derive(Debug, Clone, PartialEq, Eq)]
pub enum Action {
    Nothing,
    /// Send this envelope on the connection.
    Send(ServerMessage),
    /// Look up the subject of this name, then hand in `LookupDone`.
    Lookup { username: String },
    /// Send this body to the filter-rule endpoint, then hand in `FilterDone`.
    RegisterFilter(TwitterModifyTweetStreamRequest),
    /// Release this filter rule; its outcome is not reported back.
    ReleaseFilter { rule_id: String },
}

/// The tag under which connection `id` registers its rule for `username`.
pub open spec fn tag_for(id: u64, username: Seq<char>) -> Seq<char> {
    decimal(id as nat) + "_"@ + username
}

/// `a` sends an error envelope with this message and code, answering
/// `response_id`.
pub open spec fn sends_error(a: Action, message: Seq<char>, code: Seq<char>, response_id: Option<String>) -> bool {
    &&& a matches Action::Send(m)
    &&& m.data matches ServerMessageData::Error(e)
    &&& e.message@ == message
    &&& e.code@ == code
    &&& m.response_id == response_id
    &&& is_reference_id(m.reference_id@)
}

/// `a` sends `data`, answering `response_id`.
pub open spec fn sends(a: Action, data: ServerMessageData, response_id: Option<String>) -> bool {
    &&& a matches Action::Send(m)
    &&& m.data == data
    &&& m.response_id == response_id
    &&& is_reference_id(m.reference_id@)
}

/// The message of the reply to a second watch.
pub open spec fn already_watching_message() -> Seq<char> {
    "This client is already watching a user"@
}

/// `k` is the first rule in `rules` whose tag is `tag`.
pub open spec fn is_first_tag(rules: Seq<TwitterTweetStreamRule>, tag: Seq<char>, k: int) -> bool {
    &&& 0 <= k < rules.len()
    &&& rules[k].tag@ == tag
    &&& forall|j: int| 0 <= j < k ==> (#[trigger] rules[j]).tag@ != tag
}

pub open spec fn has_tag(rules: Seq<TwitterTweetStreamRule>, tag: Seq<char>) -> bool {
    exists|k: int| 0 <= k < rules.len() && (#[trigger] rules[k]).tag@ == tag
}

/// `after` is `before` now watching `user` through rule `rule_id`, with an
/// empty queue.
pub open spec fn watch_started(before: Client, after: Client, user: TwitterUser, rule_id: String) -> bool {
    &&& after.topics == before.topics
    &&& after.streaming_user_info matches Some(info)
    &&& info.user == user
    &&& info.rule_id == rule_id
    &&& info.tweet_queue@.len() == 0
}

/// The registry after the filter rule `rule_id` is registered for session
/// `id`, and the action that goes with it: the watch is set where the client
/// is live and idle; otherwise the new rule is released again.
pub open spec fn watch_registered(id: u64, reg: Map<u64, Client>, reg2: Map<u64, Client>, a: Action, user: TwitterUser, rule_id: String) -> bool {
    if reg.contains_key(id) && !is_watching(reg[id]) {
        &&& a is Nothing
        &&& reg2.dom() == reg.dom()
        &&& forall|k: u64| k != id && reg.contains_key(k) ==> reg2[k] == reg[k]
        &&& watch_started(reg[id], reg2[id], user, rule_id)
    } else {
        a == Action::ReleaseFilter { rule_id } && reg2 == reg
    }
}

/// The handler's transition: from session `s` and registry `reg`, event `ev`
/// leads to session `s2`, registry `reg2` and action `a`.
///
/// `Subscribe`, an undecodable text, and a second watch by a watching client
/// are answered whatever outside call the connection waits on. A `FindUser` or
/// a first watch that arrives while a call is pending is dropped, as is the
/// outcome of a call that was not asked for: the session, the registry and
/// the connection stay as they were.
pub open spec fn step_spec(s: Session, reg: Map<u64, Client>, ev: Event, s2: Session, reg2: Map<u64, Client>, a: Action) -> bool {
    &&& s2.id == s.id
    &&& match ev {
        Event::Message(m) => match m.data {
            ClientMessageData::Subscribe(req) => {
                &&& a is Nothing
                &&& s2 == s
                &&& reg2 == (if reg.contains_key(s.id) {
                    reg.insert(s.id, with_topics(reg[s.id], req.topics))
                } else {
                    reg
                })
            },
            ClientMessageData::FindUser(req) => {
                &&& reg2 == reg
                &&& if s.pending is Idle {
                    &&& a == Action::Lookup { username: req.username }
                    &&& s2.pending == Pending::Finding { reference_id: m.reference_id }
                } else {
                    a is Nothing && s2 == s
                }
            },
            ClientMessageData::WatchTwitterUser(req) => {
                &&& reg2 == reg
                &&& if !reg.contains_key(s.id) {
                    a is Nothing && s2 == s
                } else if is_watching(reg[s.id]) {
                    &&& sends_error(a, already_watching_message(), "400"@, Some(m.reference_id))
                    &&& s2 == s
                } else if s.pending is Idle {
                    &&& a == Action::Lookup { username: req.username }
                    &&& s2.pending == Pending::WatchLookup { reference_id: m.reference_id, username: req.username }
                } else {
                    a is Nothing && s2 == s
                }
            },
        },
        Event::Malformed { reference_id, message } => {
            &&& sends_error(a, message@, "400"@, reference_id)
            &&& s2 == s
            &&& reg2 == reg
        },
        Event::LookupDone(r) => match s.pending {
            Pending::Finding { reference_id } => {
                &&& reg2 == reg
                &&& s2.pending is Idle
                &&& match r {
                    Ok(user) => sends(a, ServerMessageData::TwitterUser(user), Some(reference_id)),
                    Err(e) => sends_error(a, e.error@, decimal(e.status_code as nat), Some(reference_id)),
                }
            },
            Pending::WatchLookup { reference_id, username } => {
                &&& reg2 == reg
                &&& match r {
                    Ok(user) => {
                        &&& a matches Action::RegisterFilter(body)
                        &&& body.delete is None
                        &&& body.add matches Some(rules)
                        &&& rules@.len() == 1
                        &&& rules@[0].tag@ == tag_for(s.id, username@)
                        &&& rules@[0].value@ == author_rule(username@)
                        &&& s2.pending matches Pending::WatchRegister { reference_id: r2, user: u2, tag }
                        &&& r2 == reference_id
                        &&& u2 == user
                        &&& tag@ == tag_for(s.id, username@)
                    },
                    Err(e) => {
                        &&& sends_error(a, e.error@, decimal(e.status_code as nat), Some(reference_id))
                        &&& s2.pending is Idle
                    },
                }
            },
            _ => a is Nothing && s2 == s && reg2 == reg,
        },
        Event::FilterDone(r) => match s.pending {
            Pending::WatchRegister { reference_id, user, tag } => {
                &&& s2.pending is Idle
                &&& match r {
                    Err(e) => {
                        &&& sends_error(a, e.error@, decimal(e.status_code as nat), Some(reference_id))
                        &&& reg2 == reg
                    },
                    Ok(rules) => if has_tag(rules@, tag@) {
                        watch_registered(s.id, reg, reg2, a, user, rules@[choose|k: int| is_first_tag(rules@, tag@, k)].id)
                    } else {
                        &&& sends_error(a, "Could not find the tag "@ + tag@, "500"@, Some(reference_id))
                        &&& reg2 == reg
                    },
                }
            },
            _ => a is Nothing && s2 == s && reg2 == reg,
        },
    }
}

fn first_with_tag(rules: &Vec<TwitterTweetStreamRule>, tag: &String) -> (r: Option<usize>)
    ensures
        match r {
            Some(k) => is_first_tag(rules@, tag@, k as int),
            None => !has_tag(rules@, tag@),
        },
{
    let mut k: usize = 0;
    while k < rules.len()
        invariant
            k <= rules@.len(),
            forall|j: int| 0 <= j < k ==> (#[trigger] rules@[j]).tag@ != tag@,
        decreases rules@.len() - k,
    {
        if rules[k].tag == *tag {
            return Some(k);
        }
        k = k + 1;
    }
    None
}

proof fn lemma_first_tag_unique(rules: Seq<TwitterTweetStreamRule>, tag: Seq<char>, k: int)
    requires
        is_first_tag(rules, tag, k),
    ensures
        has_tag(rules, tag),
        (choose|j: int| is_first_tag(rules, tag, j)) == k,
{
    assert(rules[k].tag@ == tag);
    let j = choose|j: int| is_first_tag(rules, tag, j);
    if j < k {
        assert(rules[j].tag@ != tag);
    } else if j > k {
        assert(rules[k].tag@ != tag);
    }
}

/// The error envelope for an upstream failure, answering `reference_id`.
fn upstream_error(e: ErrorResponse, reference_id: String) -> (a: Action)
    ensures
        sends_error(a, e.error@, decimal(e.status_code as nat), Some(reference_id)),
{
    let code = status_code_text(e.status_code);
    Action::Send(gen_server_err_response(e.error, code, Some(reference_id)))
}

impl Session {
    /// Registers a new connection: a fresh client in the registry under the
    /// next id, never handed out before, and an idle session; `None` only once
    /// the registry's ids are spent, and then nothing changes.
    pub fn connect(reg: &mut Registry) -> (r: Option<Session>)
        requires
            old(reg).wf(),
        ensures
            final(reg).wf(),
            match r {
                Some(s) => {
                    &&& s.pending is Idle
                    &&& !old(reg)@.contains_key(s.id)
                    &&& final(reg)@.dom() == old(reg)@.dom().insert(s.id)
                    &&& final(reg)@.remove(s.id) == old(reg)@
                    &&& crate::registry::fresh_client(final(reg)@[s.id])
                    &&& s.id == old(reg).next()
                    &&& final(reg).next() == s.id + 1
                },
                None => final(reg)@ == old(reg)@ && final(reg).next() == old(reg).next(),
            },
            r is None <==> old(reg).next() == u64::MAX,
    {
        match reg.register() {
            Some(id) => Some(Session { id, pending: Pending::Idle }),
            None => None,
        }
    }

    /// Closes the connection: its entry leaves the registry, and the filter
    /// rule of a watch it held is released, once.
    pub fn disconnect(self, reg: &mut Registry) -> (a: Action)
        requires
            old(reg).wf(),
        ensures
            final(reg).wf(),
            final(reg)@ == old(reg)@.remove(self.id),
            !final(reg)@.contains_key(self.id),
            a == (if old(reg)@.contains_key(self.id) && is_watching(old(reg)@[self.id]) {
                Action::ReleaseFilter { rule_id: old(reg)@[self.id].streaming_user_info->0.rule_id }
            } else {
                Action::Nothing
            }),
    {
        match reg.unregister(self.id) {
            Some(info) => Action::ReleaseFilter { rule_id: info.rule_id },
            None => Action::Nothing,
        }
    }

    /// Handles one event.
    pub fn step(&mut self, reg: &mut Registry, ev: Event) -> (a: Action)
        requires
            old(reg).wf(),
        ensures
            final(reg).wf(),
            step_spec(*old(self), old(reg)@, ev, *final(self), final(reg)@, a),
    {
        let ghost greg = reg@;
        match ev {
            Event::Message(m) => match m.data {
                ClientMessageData::Subscribe(req) => {
                    reg.set_topics(self.id, req.topics);
                    Action::Nothing
                },
                ClientMessageData::FindUser(req) => {
                    if self.pending.is_idle() {
                        self.pending = Pending::Finding { reference_id: m.reference_id };
                        Action::Lookup { username: req.username }
                    } else {
                        Action::Nothing
                    }
                },
                ClientMessageData::WatchTwitterUser(req) => {
                    match reg.get(self.id) {
                        None => Action::Nothing,
                        Some(c) => {
                            if c.streaming_user_info.is_some() {
                                Action::Send(gen_server_err_response(
                                    String::from_str("This client is already watching a user"),
                                    String::from_str("400"),
                                    Some(m.reference_id),
                                ))
                            } else if self.pending.is_idle() {
                                self.pending = Pending::WatchLookup {
                                    reference_id: m.reference_id,
                                    username: req.username.clone(),
                                };
                                Action::Lookup { username: req.username }
                            } else {
                                Action::Nothing
                            }
                        },
                    }
                },
            },
            Event::Malformed { reference_id, message } => {
                Action::Send(gen_server_err_response(message, String::from_str("400"), reference_id))
            },
            Event::LookupDone(r) => {
                let mut pending = Pending::Idle;
                std::mem::swap(&mut self.pending, &mut pending);
                match pending {
                    Pending::Finding { reference_id } => match r {
                        Ok(user) => Action::Send(gen_server_response(ServerMessageData::TwitterUser(user), Some(reference_id))),
                        Err(e) => upstream_error(e, reference_id),
                    },
                    Pending::WatchLookup { reference_id, username } => match r {
                        Ok(user) => {
                            let mut tag = decimal_string(self.id);
                            tag.append("_");
                            tag.append(username.as_str());
                            let mut value = String::from_str("from:");
                            value.append(username.as_str());
                            proof {
                                assert(tag@ =~= tag_for(self.id, username@));
                                assert(value@ =~= author_rule(username@));
                            }
                            let body = add_rule_request(tag.clone(), value);
                            self.pending = Pending::WatchRegister { reference_id, user, tag };
                            Action::RegisterFilter(body)
                        },
                        Err(e) => upstream_error(e, reference_id),
                    },
                    p => {
                        self.pending = p;
                        Action::Nothing
                    },
                }
            },
            Event::FilterDone(r) => {
                let mut pending = Pending::Idle;
                std::mem::swap(&mut self.pending, &mut pending);
                match pending {
                    Pending::WatchRegister { reference_id, user, tag } => match r {
                        Err(e) => upstream_error(e, reference_id),
                        Ok(rules) => match first_with_tag(&rules, &tag) {
                            None => {
                                let mut message = String::from_str("Could not find the tag ");
                                message.append(tag.as_str());
                                Action::Send(gen_server_err_response(message, String::from_str("500"), Some(reference_id)))
                            },
                            Some(k) => {
                                proof {
                                    lemma_first_tag_unique(rules@, tag@, k as int);
                                }
                                let rule_id = rules[k].id.clone();
                                let info = StreamingUserInfo { user, rule_id: rule_id.clone(), tweet_queue: Vec::new() };
                                if reg.start_watch(self.id, info) {
                                    assert(reg@.dom() =~= greg.dom());
                                    Action::Nothing
                                } else {
                                    Action::ReleaseFilter { rule_id }
                                }
                            },
                        },
                    },
                    p => {
                        self.pending = p;
                        Action::Nothing
                    },
                }
            },
        }
    }
}

/// `sessions`, `regs` and `acts` record a run of the handler over `events`:
/// each event leads from one session and registry to the next, with its
/// action.
pub open spec fn is_run(sessions: Seq<Session>, regs: Seq<Map<u64, Client>>, events: Seq<Event>, acts: Seq<Action>) -> bool {
    &&& sessions.len() == events.len() + 1
    &&& regs.len() == events.len() + 1
    &&& acts.len() == events.len()
    &&& forall|k: int| 0 <= k < events.len() ==> step_spec(sessions[k], regs[k], #[trigger] events[k], sessions[k + 1], regs[k + 1], acts[k])
}

/// Every event is a `Subscribe` request.
pub open spec fn all_subscribes(events: Seq<Event>) -> bool {
    forall|k: int| 0 <= k < events.len() ==> (#[trigger] events[k] matches Event::Message(m) && m.data is Subscribe)
}

proof fn lemma_subscribes_keep_client(sessions: Seq<Session>, regs: Seq<Map<u64, Client>>, events: Seq<Event>, acts: Seq<Action>, k: int)
    requires
        is_run(sessions, regs, events, acts),
        all_subscribes(events),
        regs[0].contains_key(sessions[0].id),
        0 <= k <= events.len(),
    ensures
        sessions[k].id == sessions[0].id,
        regs[k].contains_key(sessions[0].id),
    decreases k,
{
    if k > 0 {
        lemma_subscribes_keep_client(sessions, regs, events, acts, k - 1);
        assert(step_spec(sessions[k - 1], regs[k - 1], events[k - 1], sessions[k], regs[k], acts[k - 1]));
    }
}

/// After any number of `Subscribe` requests on a live connection, its topic
/// set is exactly the payload of the last one: topic sets are replaced, never
/// merged, whatever outside call the connection waits on.
pub proof fn lemma_last_subscribe_wins(sessions: Seq<Session>, regs: Seq<Map<u64, Client>>, events: Seq<Event>, acts: Seq<Action>)
    requires
        is_run(sessions, regs, events, acts),
        all_subscribes(events),
        events.len() > 0,
        regs[0].contains_key(sessions[0].id),
    ensures
        regs.last().contains_key(sessions[0].id),
        regs.last()[sessions[0].id].topics == events.last()->Message_0.data->Subscribe_0.topics,
{
    let n = events.len() as int;
    lemma_subscribes_keep_client(sessions, regs, events, acts, n - 1);
    lemma_subscribes_keep_client(sessions, regs, events, acts, n);
    assert(step_spec(sessions[n - 1], regs[n - 1], events[n - 1], sessions[n], regs[n], acts[n - 1]));
    assert(events[n - 1] matches Event::Message(m) && m.data is Subscribe);
}

/// A `WatchSubject` request from a client that already watches is answered
/// with the state error, whatever the connection waits on: no outside call
/// is asked for, and neither the registry nor the session changes.
pub proof fn lemma_watch_refused_while_watching(s: Session, reg: Map<u64, Client>, ev: Event, s2: Session, reg2: Map<u64, Client>, a: Action)
    requires
        step_spec(s, reg, ev, s2, reg2, a),
        reg.contains_key(s.id),
        is_watching(reg[s.id]),
        ev matches Event::Message(m) && m.data is WatchTwitterUser,
    ensures
        sends_error(a, already_watching_message(), "400"@, Some(ev->Message_0.reference_id)),
        a is Send,
        reg2 == reg,
        s2 == s,
{
}

/// A `WatchSubject` request on a connection whose first one went through
/// (lookup found the subject, the filter rule came back under its tag) is
/// answered with the state error, asks for no outside call, and leaves the
/// registry as the first request left it.
pub proof fn lemma_second_watch_refused(sessions: Seq<Session>, regs: Seq<Map<u64, Client>>, events: Seq<Event>, acts: Seq<Action>)
    requires
        is_run(sessions, regs, events, acts),
        events.len() == 4,
        sessions[0].pending is Idle,
        regs[0].contains_key(sessions[0].id),
        !is_watching(regs[0][sessions[0].id]),
        events[0] matches Event::Message(m) && m.data is WatchTwitterUser,
        events[1] matches Event::LookupDone(r) && r is Ok,
        events[2] matches Event::FilterDone(r) && (r matches Ok(rules)
            && has_tag(rules@, tag_for(sessions[0].id, events[0]->Message_0.data->WatchTwitterUser_0.username@))),
        events[3] matches Event::Message(m) && m.data is WatchTwitterUser,
    ensures
        is_watching(regs[3][sessions[0].id]),
        sends_error(acts[3], already_watching_message(), "400"@, Some(events[3]->Message_0.reference_id)),
        regs[4] == regs[3],
        sessions[4].pending is Idle,
{
    assert(step_spec(sessions[0], regs[0], events[0], sessions[1], regs[1], acts[0]));
    assert(step_spec(sessions[1], regs[1], events[1], sessions[2], regs[2], acts[1]));
    assert(step_spec(sessions[2], regs[2], events[2], sessions[3], regs[3], acts[2]));
    assert(step_spec(sessions[3], regs[3], events[3], sessions[4], regs[4], acts[3]));
}

/// Filter-rule tags are unique per connection and name: two connections, or
/// two names, never share a tag.
pub proof fn lemma_tags_unique(id1: u64, name1: Seq<char>, id2: u64, name2: Seq<char>)
    requires
        tag_for(id1, name1) == tag_for(id2, name2),
    ensures
        id1 == id2,
        name1 == name2,
{
    let (d1, d2) = (decimal(id1 as nat), decimal(id2 as nat));
    let t = tag_for(id1, name1);
    lemma_decimal_digits(id1 as nat);
    lemma_decimal_digits(id2 as nat);
    assert(!is_digit_char('_'));
    assert(t =~= d1 + "_"@ + name1);
    assert(t =~= d2 + "_"@ + name2);
    reveal_strlit("_");
    if d1.len() < d2.len() {
        assert(t[d1.len() as int] == '_');
        assert(t[d1.len() as int] == d2[d1.len() as int]);
    } else if d2.len() < d1.len() {
        assert(t[d2.len() as int] == '_');
        assert(t[d2.len() as int] == d1[d2.len() as int]);
    }
    assert(d1 =~= t.subrange(0, d1.len() as int));
    assert(d2 =~= t.subrange(0, d2.len() as int));
    lemma_decimal_injective(id1 as nat, id2 as nat);
    assert(name1 =~= t.subrange(d1.len() as int + 1, t.len() as int));
    assert(name2 =~= t.subrange(d2.len() as int + 1, t.len() as int));
}

} // verus!
