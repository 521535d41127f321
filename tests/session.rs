use take_their_advice_api::{
    drain_batches, on_feed_item, Action, ClientMessage, ClientMessageData, ErrorResponse, Event,
    FindTwitterUser, Pending, Registry, ServerMessage, ServerMessageData, Session, TopicsRequest,
    TwitterApiValidResponse, TwitterResponse, TwitterTweetStreamRule, TwitterTweetWithAuthor,
    TwitterUser, WatchTwitterUser,
};

fn strings(v: &[&str]) -> Vec<String> {
    v.iter().map(|s| s.to_string()).collect()
}

fn message(reference_id: &str, data: ClientMessageData) -> Event {
    Event::Message(ClientMessage { reference_id: reference_id.to_string(), data, response_id: None })
}

fn subscribe(reference_id: &str, topics: &[&str]) -> Event {
    message(reference_id, ClientMessageData::Subscribe(TopicsRequest { topics: strings(topics) }))
}

fn watch(reference_id: &str, username: &str) -> Event {
    message(reference_id, ClientMessageData::WatchTwitterUser(WatchTwitterUser { username: username.to_string() }))
}

fn user(id: &str, username: &str) -> TwitterUser {
    TwitterUser { id: id.to_string(), username: username.to_string(), name: username.to_uppercase() }
}

fn rule(id: &str, tag: &str, value: &str) -> TwitterTweetStreamRule {
    TwitterTweetStreamRule { id: id.to_string(), tag: tag.to_string(), value: value.to_string() }
}

fn tweet(id: &str, author: &str, text: &str) -> TwitterTweetWithAuthor {
    TwitterTweetWithAuthor {
        id: id.to_string(),
        text: text.to_string(),
        edit_history_tweet_ids: strings(&[id]),
        author_id: author.to_string(),
    }
}

fn feed(t: TwitterTweetWithAuthor) -> TwitterResponse<TwitterTweetWithAuthor> {
    TwitterResponse::Valid(TwitterApiValidResponse { data: t })
}

fn is_reference_id(s: &str) -> bool {
    s.len() == 32 && s.chars().all(|c| c.is_ascii_digit() || ('a'..='f').contains(&c))
}

fn error_of(a: &Action) -> (String, String, Option<String>) {
    match a {
        Action::Send(ServerMessage { reference_id, data: ServerMessageData::Error(e), response_id }) => {
            assert!(is_reference_id(reference_id));
            (e.message.clone(), e.code.clone(), response_id.clone())
        }
        other => panic!("expected an error envelope, got {:?}", other),
    }
}

/// Runs a successful watch of `username` (subject `subject_id`, rule `rule_id`).
fn watch_through(s: &mut Session, reg: &mut Registry, username: &str, subject_id: &str, rule_id: &str) {
    let a = s.step(reg, watch("w1", username));
    assert_eq!(a, Action::Lookup { username: username.to_string() });
    let a = s.step(reg, Event::LookupDone(Ok(user(subject_id, username))));
    let tag = format!("{}_{}", s.id, username);
    match &a {
        Action::RegisterFilter(body) => {
            let add = body.add.as_ref().expect("one rule to add");
            assert_eq!(add.len(), 1);
            assert_eq!(add[0].tag, tag);
            assert_eq!(add[0].value, format!("from:{}", username));
            assert!(body.delete.is_none());
        }
        other => panic!("expected a filter registration, got {:?}", other),
    }
    let a = s.step(reg, Event::FilterDone(Ok(vec![rule("other", "x_y", "from:y"), rule(rule_id, &tag, "from:x")])));
    assert_eq!(a, Action::Nothing);
    assert_eq!(s.pending, Pending::Idle);
}

#[test]
fn subscribe_last_payload_wins() {
    let mut reg = Registry::new();
    let mut s = Session::connect(&mut reg).unwrap();
    assert_eq!(reg.get(s.id).unwrap().topics, Vec::<String>::new());
    assert_eq!(s.step(&mut reg, subscribe("1", &["rust", "verus"])), Action::Nothing);
    assert_eq!(s.step(&mut reg, subscribe("2", &["news"])), Action::Nothing);
    assert_eq!(reg.get(s.id).unwrap().topics, strings(&["news"]));
    assert_eq!(s.step(&mut reg, subscribe("3", &[])), Action::Nothing);
    assert_eq!(reg.get(s.id).unwrap().topics, Vec::<String>::new());
}

#[test]
fn second_watch_is_a_state_error() {
    let mut reg = Registry::new();
    let mut s = Session::connect(&mut reg).unwrap();
    watch_through(&mut s, &mut reg, "alice", "42", "r1");
    let after_first = reg.get(s.id).unwrap().clone();
    let a = s.step(&mut reg, watch("w2", "bob"));
    let (msg, code, response_id) = error_of(&a);
    assert_eq!(msg, "This client is already watching a user");
    assert_eq!(code, "400");
    assert_eq!(response_id, Some("w2".to_string()));
    assert_eq!(s.pending, Pending::Idle);
    assert_eq!(reg.get(s.id).unwrap(), &after_first);
    let info = after_first.streaming_user_info.unwrap();
    assert_eq!(info.user, user("42", "alice"));
    assert_eq!(info.rule_id, "r1");
}

#[test]
fn disconnect_releases_the_watch_rule_once() {
    let mut reg = Registry::new();
    let mut s = Session::connect(&mut reg).unwrap();
    let id = s.id;
    watch_through(&mut s, &mut reg, "alice", "42", "r1");
    assert_eq!(s.disconnect(&mut reg), Action::ReleaseFilter { rule_id: "r1".to_string() });
    assert!(reg.get(id).is_none());
    assert!(!reg.any_watching());
}

#[test]
fn disconnect_without_watch_releases_nothing() {
    let mut reg = Registry::new();
    let s = Session::connect(&mut reg).unwrap();
    let id = s.id;
    assert_eq!(s.disconnect(&mut reg), Action::Nothing);
    assert!(reg.get(id).is_none());
}

#[test]
fn item_reaches_every_matching_watcher() {
    let mut reg = Registry::new();
    let mut a = Session::connect(&mut reg).unwrap();
    let mut b = Session::connect(&mut reg).unwrap();
    let mut c = Session::connect(&mut reg).unwrap();
    watch_through(&mut a, &mut reg, "alice", "42", "r1");
    watch_through(&mut b, &mut reg, "alice", "42", "r2");
    watch_through(&mut c, &mut reg, "carol", "7", "r3");
    let out = on_feed_item(&mut reg, feed(tweet("t1", "42", "hello")));
    let ids: Vec<u64> = out.iter().map(|(id, _)| *id).collect();
    assert_eq!(ids, vec![a.id, b.id]);
    for (_, m) in &out {
        assert_eq!(m.data, ServerMessageData::FoundTweet(tweet("t1", "42", "hello")));
        assert_eq!(m.response_id, None);
        assert!(is_reference_id(&m.reference_id));
    }
    for id in [a.id, b.id] {
        let q = &reg.get(id).unwrap().streaming_user_info.as_ref().unwrap().tweet_queue;
        assert_eq!(q, &strings(&["hello"]));
    }
    assert!(reg.get(c.id).unwrap().streaming_user_info.as_ref().unwrap().tweet_queue.is_empty());
}

#[test]
fn feed_error_item_matches_nobody() {
    let mut reg = Registry::new();
    let mut a = Session::connect(&mut reg).unwrap();
    watch_through(&mut a, &mut reg, "alice", "42", "r1");
    let item = TwitterResponse::Error(take_their_advice_api::TwitterApiInvalidResponse { errors: vec![] });
    assert!(on_feed_item(&mut reg, item).is_empty());
    assert!(reg.get(a.id).unwrap().streaming_user_info.as_ref().unwrap().tweet_queue.is_empty());
}

#[test]
fn watch_match_and_drain_scenario() {
    let mut reg = Registry::new();
    let mut a = Session::connect(&mut reg).unwrap();
    assert!(!reg.any_watching());
    watch_through(&mut a, &mut reg, "alice", "42", "r1");
    assert!(reg.any_watching());
    let out = on_feed_item(&mut reg, feed(tweet("t1", "42", "hello")));
    assert_eq!(out.len(), 1);
    assert_eq!(out[0].0, a.id);
    match &out[0].1.data {
        ServerMessageData::FoundTweet(t) => assert_eq!(t.text, "hello"),
        other => panic!("expected a found item, got {:?}", other),
    }
    let info = reg.get(a.id).unwrap().streaming_user_info.as_ref().unwrap();
    assert_eq!(info.tweet_queue, strings(&["hello"]));
    // The tick swaps the queue out; a failed score drops the batch, so the
    // only thing the tick yields is the batch itself.
    let batches = drain_batches(&mut reg);
    assert_eq!(batches, vec![(a.id, "hello".to_string())]);
    let info = reg.get(a.id).unwrap().streaming_user_info.as_ref().unwrap();
    assert!(info.tweet_queue.is_empty());
    assert_eq!(info.rule_id, "r1");
    assert!(drain_batches(&mut reg).is_empty());
}

#[test]
fn empty_queue_gets_no_batch() {
    let mut reg = Registry::new();
    let mut a = Session::connect(&mut reg).unwrap();
    let mut b = Session::connect(&mut reg).unwrap();
    let idle = Session::connect(&mut reg).unwrap();
    watch_through(&mut a, &mut reg, "alice", "42", "r1");
    watch_through(&mut b, &mut reg, "bob", "43", "r2");
    on_feed_item(&mut reg, feed(tweet("t1", "43", "one")));
    on_feed_item(&mut reg, feed(tweet("t2", "43", "two")));
    on_feed_item(&mut reg, feed(tweet("t3", "99", "nobody")));
    let batches = drain_batches(&mut reg);
    assert_eq!(batches, vec![(b.id, "one. two".to_string())]);
    assert!(reg.get(idle.id).unwrap().streaming_user_info.is_none());
}

#[test]
fn malformed_first_message_is_uncorrelated_400() {
    let mut reg = Registry::new();
    let mut s = Session::connect(&mut reg).unwrap();
    let a = s.step(&mut reg, Event::Malformed { reference_id: None, message: "expected value at line 1".to_string() });
    let (msg, code, response_id) = error_of(&a);
    assert_eq!(msg, "expected value at line 1");
    assert_eq!(code, "400");
    assert_eq!(response_id, None);
    assert_eq!(s.pending, Pending::Idle);
}

#[test]
fn malformed_with_reference_is_correlated() {
    let mut reg = Registry::new();
    let mut s = Session::connect(&mut reg).unwrap();
    let a = s.step(&mut reg, Event::Malformed { reference_id: Some("abc".to_string()), message: "unknown variant".to_string() });
    let (_, code, response_id) = error_of(&a);
    assert_eq!(code, "400");
    assert_eq!(response_id, Some("abc".to_string()));
}

#[test]
fn find_user_replies_with_record() {
    let mut reg = Registry::new();
    let mut s = Session::connect(&mut reg).unwrap();
    let a = s.step(&mut reg, message("f1", ClientMessageData::FindUser(FindTwitterUser { username: "alice".to_string() })));
    assert_eq!(a, Action::Lookup { username: "alice".to_string() });
    assert_eq!(s.pending, Pending::Finding { reference_id: "f1".to_string() });
    match s.step(&mut reg, Event::LookupDone(Ok(user("42", "alice")))) {
        Action::Send(m) => {
            assert_eq!(m.data, ServerMessageData::TwitterUser(user("42", "alice")));
            assert_eq!(m.response_id, Some("f1".to_string()));
            assert!(is_reference_id(&m.reference_id));
        }
        other => panic!("expected a reply, got {:?}", other),
    }
    assert_eq!(s.pending, Pending::Idle);
    assert!(reg.get(s.id).unwrap().streaming_user_info.is_none());
}

#[test]
fn find_user_failure_carries_upstream_status() {
    let mut reg = Registry::new();
    let mut s = Session::connect(&mut reg).unwrap();
    s.step(&mut reg, message("f1", ClientMessageData::FindUser(FindTwitterUser { username: "ghost".to_string() })));
    let a = s.step(&mut reg, Event::LookupDone(Err(ErrorResponse { error: "Could not find user".to_string(), status_code: 404 })));
    assert_eq!(error_of(&a), ("Could not find user".to_string(), "404".to_string(), Some("f1".to_string())));
}

#[test]
fn watch_lookup_failure_leaves_client_idle() {
    let mut reg = Registry::new();
    let mut s = Session::connect(&mut reg).unwrap();
    s.step(&mut reg, watch("w1", "ghost"));
    assert_eq!(s.pending, Pending::WatchLookup { reference_id: "w1".to_string(), username: "ghost".to_string() });
    let a = s.step(&mut reg, Event::LookupDone(Err(ErrorResponse { error: "Not Found".to_string(), status_code: 404 })));
    assert_eq!(error_of(&a), ("Not Found".to_string(), "404".to_string(), Some("w1".to_string())));
    assert_eq!(s.pending, Pending::Idle);
    assert!(!reg.is_watching(s.id));
}

#[test]
fn watch_filter_failure_leaves_client_idle() {
    let mut reg = Registry::new();
    let mut s = Session::connect(&mut reg).unwrap();
    s.step(&mut reg, watch("w1", "alice"));
    s.step(&mut reg, Event::LookupDone(Ok(user("42", "alice"))));
    let a = s.step(&mut reg, Event::FilterDone(Err(ErrorResponse { error: "Too many rules".to_string(), status_code: 429 })));
    assert_eq!(error_of(&a), ("Too many rules".to_string(), "429".to_string(), Some("w1".to_string())));
    assert!(!reg.is_watching(s.id));
}

#[test]
fn watch_rule_missing_from_reply_is_500() {
    let mut reg = Registry::new();
    let mut s = Session::connect(&mut reg).unwrap();
    s.step(&mut reg, watch("w1", "alice"));
    s.step(&mut reg, Event::LookupDone(Ok(user("42", "alice"))));
    let a = s.step(&mut reg, Event::FilterDone(Ok(vec![rule("r9", "someone_else", "from:x")])));
    let expected = format!("Could not find the tag {}_alice", s.id);
    assert_eq!(error_of(&a), (expected, "500".to_string(), Some("w1".to_string())));
    assert!(!reg.is_watching(s.id));
}

#[test]
fn watch_completed_after_disconnect_releases_new_rule() {
    let mut reg = Registry::new();
    let mut s = Session::connect(&mut reg).unwrap();
    let other = Session { id: s.id, pending: Pending::Idle };
    s.step(&mut reg, watch("w1", "alice"));
    s.step(&mut reg, Event::LookupDone(Ok(user("42", "alice"))));
    assert_eq!(other.disconnect(&mut reg), Action::Nothing);
    let tag = format!("{}_alice", s.id);
    let a = s.step(&mut reg, Event::FilterDone(Ok(vec![rule("r5", &tag, "from:alice")])));
    assert_eq!(a, Action::ReleaseFilter { rule_id: "r5".to_string() });
}

#[test]
fn out_of_turn_event_changes_nothing() {
    let mut reg = Registry::new();
    let mut s = Session::connect(&mut reg).unwrap();
    assert_eq!(s.step(&mut reg, Event::LookupDone(Ok(user("1", "x")))), Action::Nothing);
    assert_eq!(s.step(&mut reg, Event::FilterDone(Ok(vec![]))), Action::Nothing);
    assert_eq!(s.pending, Pending::Idle);
    assert!(!reg.is_watching(s.id));
}

#[test]
fn registry_ids_are_fresh_and_unregister_is_idempotent() {
    let mut reg = Registry::new();
    let a = reg.register().unwrap();
    let b = reg.register().unwrap();
    assert!(a < b);
    assert!(reg.unregister(a).is_none());
    assert!(reg.unregister(a).is_none());
    assert!(reg.get(a).is_none());
    let c = reg.register().unwrap();
    assert!(c != a && c != b);
    assert!(reg.get(b).is_some() && reg.get(c).is_some());
    assert!(!reg.set_topics(a, strings(&["x"])));
    assert!(reg.set_topics(b, strings(&["x"])));
}

#[test]
fn registry_snapshot_and_queue_entry_points() {
    let mut reg = Registry::new();
    let a = reg.register().unwrap();
    let b = reg.register().unwrap();
    assert!(!reg.append_text(a, "lost".to_string()));
    let info = take_their_advice_api::StreamingUserInfo { user: user("42", "alice"), rule_id: "r1".to_string(), tweet_queue: vec![] };
    assert!(reg.start_watch(a, info.clone()));
    assert!(!reg.start_watch(a, info));
    assert_eq!(reg.snapshot_matching(&"42".to_string()), vec![a]);
    assert!(reg.snapshot_matching(&"43".to_string()).is_empty());
    assert!(reg.pending_ids().is_empty());
    assert!(reg.append_text(a, "x".to_string()));
    assert!(reg.append_text(a, "y".to_string()));
    assert_eq!(reg.pending_ids(), vec![a]);
    assert_eq!(reg.take_queue(a), strings(&["x", "y"]));
    assert!(reg.take_queue(a).is_empty());
    assert!(reg.take_queue(b).is_empty());
}

#[test]
fn connect_hands_out_the_next_id() {
    let mut reg = Registry::new();
    let a = Session::connect(&mut reg).unwrap();
    let b = Session::connect(&mut reg).unwrap();
    assert_eq!((a.id, b.id), (0, 1));
    assert_eq!(a.pending, Pending::Idle);
    assert_eq!(a.disconnect(&mut reg), Action::Nothing);
    let c = Session::connect(&mut reg).unwrap();
    assert_eq!(c.id, 2);
    let fresh = reg.get(c.id).unwrap();
    assert!(fresh.topics.is_empty() && fresh.streaming_user_info.is_none());
}

#[test]
fn subscribe_and_malformed_are_handled_while_a_call_is_pending() {
    let mut reg = Registry::new();
    let mut s = Session::connect(&mut reg).unwrap();
    s.step(&mut reg, watch("w1", "alice"));
    let waiting = Pending::WatchLookup { reference_id: "w1".to_string(), username: "alice".to_string() };
    assert_eq!(s.pending, waiting);
    assert_eq!(s.step(&mut reg, subscribe("2", &["news"])), Action::Nothing);
    assert_eq!(reg.get(s.id).unwrap().topics, strings(&["news"]));
    let a = s.step(&mut reg, Event::Malformed { reference_id: Some("m".to_string()), message: "bad".to_string() });
    assert_eq!(error_of(&a), ("bad".to_string(), "400".to_string(), Some("m".to_string())));
    assert_eq!(s.step(&mut reg, watch("w2", "bob")), Action::Nothing);
    assert_eq!(s.step(&mut reg, message("f", ClientMessageData::FindUser(FindTwitterUser { username: "x".to_string() }))), Action::Nothing);
    assert_eq!(s.pending, waiting);
}

#[test]
fn second_watch_refused_while_a_lookup_is_pending() {
    let mut reg = Registry::new();
    let mut s = Session::connect(&mut reg).unwrap();
    watch_through(&mut s, &mut reg, "alice", "42", "r1");
    s.step(&mut reg, message("f1", ClientMessageData::FindUser(FindTwitterUser { username: "bob".to_string() })));
    let before = reg.get(s.id).unwrap().clone();
    let a = s.step(&mut reg, watch("w2", "bob"));
    assert_eq!(error_of(&a).0, "This client is already watching a user");
    assert_eq!(reg.get(s.id).unwrap(), &before);
    assert_eq!(s.pending, Pending::Finding { reference_id: "f1".to_string() });
}
