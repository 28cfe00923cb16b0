use chat_gateway::auth::{extract_token_from_header, extract_token_from_query};
use chat_gateway::bus::Received;
use chat_gateway::envelope::{DecodeError, EnvelopeField, Frame, WsEnvelope};
use chat_gateway::events::WsMessage;
use chat_gateway::json::{JsonScalar, JsonValue};
use chat_gateway::modules::{lookup, should_deliver, MessagingModule, UsersModule, WsModule};
use chat_gateway::payload::{get_str, Message, NewMessage};
use chat_gateway::session::{
    close, drain, on_client_frame, on_persisted, receive, Delivery, Reaction, WsContext,
};
use chat_gateway::state::WsState;

fn s(x: &str) -> String {
    x.to_string()
}

fn obj(fields: Vec<(&str, JsonScalar)>) -> JsonValue {
    JsonValue::Object(fields.into_iter().map(|(k, v)| (s(k), v)).collect())
}

fn frame(module: &str, kind: &str, payload: JsonValue) -> Frame {
    Frame::Object(vec![
        (s("module"), JsonValue::Scalar(JsonScalar::Str(s(module)))),
        (s("type"), JsonValue::Scalar(JsonScalar::Str(s(kind)))),
        (s("payload"), payload),
    ])
}

fn thread(t: i64) -> JsonValue {
    obj(vec![("thread_id", JsonScalar::Int(t))])
}

fn join(ctx: &mut WsContext, st: &mut WsState, t: i64) {
    let r = on_client_frame(ctx, st, frame("messaging", "join_thread", thread(t)));
    assert_eq!(r, Reaction::Nothing);
}

fn reply_text(r: &Reaction) -> String {
    match r {
        Reaction::Reply(e) => {
            assert_eq!(e.module, "system");
            assert_eq!(e.kind, "error");
            get_str(&e.payload, "message").unwrap()
        }
        other => panic!("expected an error reply, got {:?}", other),
    }
}

fn stored(id: i32, directory_id: i32) -> Message {
    Message {
        id,
        content: s("hello"),
        author_username: s("alice"),
        directory_id,
        created_at: s("2025-05-20T22:27:00+00:00"),
        parent_id: None,
    }
}

#[test]
fn typing_reaches_bob_not_alice() {
    let mut st = WsState::new(16);
    let mut alice = WsContext::new(1, s("alice"));
    let mut bob = WsContext::new(2, s("bob"));
    join(&mut alice, &mut st, 5);
    join(&mut bob, &mut st, 5);
    drain(&alice, &mut st);
    drain(&bob, &mut st);

    let r = on_client_frame(&mut alice, &mut st, frame("messaging", "typing", thread(5)));
    assert_eq!(r, Reaction::Nothing);

    let got = drain(&bob, &mut st);
    assert_eq!(got.len(), 1);
    assert_eq!(got[0].module, "messaging");
    assert_eq!(
        WsMessage::parse(&got[0].kind, &got[0].payload),
        Some(WsMessage::UserTyping { username: s("alice"), thread_id: 5 })
    );
    assert_eq!(receive(&alice, &mut st, 5), Delivery::Filtered);
    assert_eq!(receive(&alice, &mut st, 5), Delivery::Idle);
}

#[test]
fn join_announced_to_others() {
    let mut st = WsState::new(16);
    let mut alice = WsContext::new(1, s("alice"));
    let mut bob = WsContext::new(2, s("bob"));
    join(&mut alice, &mut st, 5);
    join(&mut bob, &mut st, 5);
    let got = drain(&alice, &mut st);
    assert_eq!(got.len(), 1);
    assert_eq!(
        WsMessage::parse(&got[0].kind, &got[0].payload),
        Some(WsMessage::UserJoined { username: s("bob"), thread_id: 5 })
    );
    assert!(drain(&bob, &mut st).is_empty());
}

#[test]
fn stop_typing_reaches_others() {
    let mut st = WsState::new(16);
    let mut alice = WsContext::new(1, s("alice"));
    let mut bob = WsContext::new(2, s("bob"));
    join(&mut alice, &mut st, 3);
    join(&mut bob, &mut st, 3);
    drain(&bob, &mut st);
    on_client_frame(&mut alice, &mut st, frame("messaging", "stop_typing", thread(3)));
    let got = drain(&bob, &mut st);
    assert_eq!(
        WsMessage::parse(&got[0].kind, &got[0].payload),
        Some(WsMessage::UserStoppedTyping { username: s("alice"), thread_id: 3 })
    );
}

#[test]
fn disconnect_announces_leave_and_drops_sole_bus() {
    let mut st = WsState::new(16);
    let mut alice = WsContext::new(1, s("alice"));
    let mut bob = WsContext::new(2, s("bob"));
    join(&mut alice, &mut st, 5);
    join(&mut alice, &mut st, 9);
    join(&mut bob, &mut st, 5);
    drain(&bob, &mut st);
    assert!(st.contains_topic(9));

    close(&mut alice, &mut st);
    assert!(alice.joined_topics().is_empty());
    let got = drain(&bob, &mut st);
    assert_eq!(got.len(), 1);
    assert_eq!(
        WsMessage::parse(&got[0].kind, &got[0].payload),
        Some(WsMessage::UserLeft { username: s("alice"), thread_id: 5 })
    );
    assert!(!st.contains_topic(9));
    assert!(st.contains_topic(5));
    assert_eq!(st.topic_subscribers(5), 1);
}

#[test]
fn bus_exists_iff_subscribed() {
    let mut st = WsState::new(8);
    assert!(!st.contains_topic(7));
    assert!(st.subscribe(7, 1));
    assert!(st.subscribe(7, 2));
    assert!(st.contains_topic(7));
    assert_eq!(st.topic_subscribers(7), 2);
    st.unsubscribe(7, 1);
    assert!(st.contains_topic(7));
    assert_eq!(st.topic_subscribers(7), 1);
    st.unsubscribe(7, 2);
    assert!(!st.contains_topic(7));
    assert_eq!(st.topic_subscribers(7), 0);
    st.unsubscribe(7, 2);
    assert!(!st.contains_topic(7));
}

#[test]
fn publish_after_last_leave_is_noop() {
    let mut st = WsState::new(8);
    assert!(st.subscribe(4, 1));
    st.unsubscribe(4, 1);
    let e = WsEnvelope::new("messaging", "user_typing", JsonValue::Scalar(JsonScalar::Null));
    st.broadcast(4, e.clone());
    assert!(!st.contains_topic(4));
    assert!(st.subscribe(4, 1));
    assert_eq!(st.try_recv(4, 1), Received::Empty);
    st.broadcast(4, e.clone());
    assert_eq!(st.try_recv(4, 1), Received::Envelope(e));
}

#[test]
fn failed_write_replies_once_and_announces_nothing() {
    let mut st = WsState::new(16);
    let mut alice = WsContext::new(1, s("alice"));
    let mut bob = WsContext::new(2, s("bob"));
    join(&mut alice, &mut st, 2);
    join(&mut bob, &mut st, 2);
    drain(&alice, &mut st);
    drain(&bob, &mut st);

    let payload = obj(vec![("content", JsonScalar::Str(s("hi"))), ("directory_id", JsonScalar::Int(2))]);
    let r = on_client_frame(&mut alice, &mut st, frame("messaging", "create_message", payload));
    let nm = NewMessage { content: s("hi"), directory_id: 2, parent_id: None };
    assert_eq!(r, Reaction::Persist(WsModule::Messaging(MessagingModule), nm));

    let reply = on_persisted(&mut st, WsModule::Messaging(MessagingModule), Err(s("db down")));
    let e = reply.expect("an error reply");
    assert_eq!(e.module, "system");
    assert_eq!(e.kind, "error");
    assert_eq!(get_str(&e.payload, "message"), Some(s("create_message failed: db down")));
    assert!(drain(&alice, &mut st).is_empty());
    assert!(drain(&bob, &mut st).is_empty());
}

#[test]
fn stored_message_reaches_everyone() {
    let mut st = WsState::new(16);
    let mut alice = WsContext::new(1, s("alice"));
    let mut bob = WsContext::new(2, s("bob"));
    join(&mut alice, &mut st, 2);
    join(&mut bob, &mut st, 2);
    drain(&alice, &mut st);
    drain(&bob, &mut st);

    let reply = on_persisted(&mut st, WsModule::Messaging(MessagingModule), Ok(stored(11, 2)));
    assert_eq!(reply, None);
    for who in [&alice, &bob] {
        let got = drain(who, &mut st);
        assert_eq!(got.len(), 1);
        assert_eq!(got[0].kind, "message_created");
        assert_eq!(
            WsMessage::parse(&got[0].kind, &got[0].payload),
            Some(WsMessage::MessageCreated(stored(11, 2)))
        );
    }
}

#[test]
fn unknown_module_gets_one_error() {
    let mut st = WsState::new(16);
    let mut alice = WsContext::new(1, s("alice"));
    join(&mut alice, &mut st, 5);
    drain(&alice, &mut st);
    let r = on_client_frame(&mut alice, &mut st, frame("nope", "typing", thread(5)));
    assert_eq!(reply_text(&r), "Unknown module: nope");
    assert_eq!(alice.joined_topics(), &vec![5]);
    assert_eq!(receive(&alice, &mut st, 5), Delivery::Idle);
}

#[test]
fn unknown_type_names_it() {
    let mut st = WsState::new(16);
    let mut alice = WsContext::new(1, s("alice"));
    let r = on_client_frame(&mut alice, &mut st, frame("messaging", "dance", thread(5)));
    assert_eq!(reply_text(&r), "Unknown message type: dance");
    let r = on_client_frame(&mut alice, &mut st, frame("messages", "typing", thread(5)));
    assert_eq!(reply_text(&r), "Unknown module: messages");
}

#[test]
fn only_messaging_is_registered() {
    let mut st = WsState::new(16);
    let mut alice = WsContext::new(1, s("alice"));
    let r = on_client_frame(&mut alice, &mut st, frame("users", "whatever", thread(5)));
    assert_eq!(reply_text(&r), "Unknown module: users");
    assert!(!st.contains_topic(5));
}

#[test]
fn drain_sends_in_order_and_skips_own_events() {
    let mut st = WsState::new(16);
    let mut alice = WsContext::new(1, s("alice"));
    let mut bob = WsContext::new(2, s("bob"));
    join(&mut alice, &mut st, 5);
    join(&mut alice, &mut st, 9);
    join(&mut bob, &mut st, 5);
    on_client_frame(&mut bob, &mut st, frame("messaging", "typing", thread(5)));
    on_client_frame(&mut alice, &mut st, frame("messaging", "typing", thread(9)));
    let got = drain(&alice, &mut st);
    let kinds: Vec<&str> = got.iter().map(|e| e.kind.as_str()).collect();
    assert_eq!(kinds, vec!["user_joined", "user_typing"]);
    assert_eq!(
        WsMessage::parse(&got[1].kind, &got[1].payload),
        Some(WsMessage::UserTyping { username: s("bob"), thread_id: 5 })
    );
    assert!(drain(&alice, &mut st).is_empty());
    assert_eq!(receive(&alice, &mut st, 9), Delivery::Idle);
}

#[test]
fn bad_payload_is_handler_error() {
    let mut st = WsState::new(16);
    let mut alice = WsContext::new(1, s("alice"));
    let p = obj(vec![("thread_id", JsonScalar::Str(s("five")))]);
    let r = on_client_frame(&mut alice, &mut st, frame("messaging", "join_thread", p));
    assert_eq!(reply_text(&r), "Invalid payload: `thread_id` must be an i32");
    assert!(alice.joined_topics().is_empty());
    assert!(!st.contains_topic(5));
    let big = obj(vec![("thread_id", JsonScalar::Int(1 << 40))]);
    let r = on_client_frame(&mut alice, &mut st, frame("messaging", "typing", big));
    assert_eq!(reply_text(&r), "Invalid payload: `thread_id` must be an i32");
    let no_content = obj(vec![("directory_id", JsonScalar::Int(2))]);
    let r = on_client_frame(&mut alice, &mut st, frame("messaging", "create_message", no_content));
    assert_eq!(
        reply_text(&r),
        "Invalid payload: `content` must be a string, `directory_id` an i32, and `parent_id` absent, null or an i32"
    );
}

#[test]
fn framing_errors_reply() {
    let mut st = WsState::new(16);
    let mut alice = WsContext::new(1, s("alice"));
    let r = on_client_frame(&mut alice, &mut st, Frame::Malformed(s("EOF while parsing")));
    assert_eq!(reply_text(&r), "Invalid message: EOF while parsing");
    let r = on_client_frame(&mut alice, &mut st, Frame::NotObject);
    assert_eq!(reply_text(&r), "Invalid message: expected an object");
    let no_type = Frame::Object(vec![(s("module"), JsonValue::Scalar(JsonScalar::Str(s("messaging"))))]);
    let r = on_client_frame(&mut alice, &mut st, no_type);
    assert_eq!(reply_text(&r), "Invalid message: missing field `type`");
}

#[test]
fn decode_shape_rules() {
    assert_eq!(WsEnvelope::decode(Frame::NotObject), Err(DecodeError::NotAnObject));
    let no_module = Frame::Object(vec![(s("type"), JsonValue::Scalar(JsonScalar::Str(s("typing"))))]);
    assert_eq!(WsEnvelope::decode(no_module), Err(DecodeError::MissingField(EnvelopeField::Module)));
    let bad_module = Frame::Object(vec![
        (s("module"), JsonValue::Scalar(JsonScalar::Int(3))),
        (s("type"), JsonValue::Scalar(JsonScalar::Str(s("typing")))),
    ]);
    assert_eq!(WsEnvelope::decode(bad_module), Err(DecodeError::NotAString(EnvelopeField::Module)));
    let bad_type = Frame::Object(vec![
        (s("module"), JsonValue::Scalar(JsonScalar::Str(s("messaging")))),
        (s("type"), JsonValue::Scalar(JsonScalar::Null)),
    ]);
    assert_eq!(WsEnvelope::decode(bad_type), Err(DecodeError::NotAString(EnvelopeField::Type)));
    let extra = Frame::Object(vec![
        (s("id"), JsonValue::Scalar(JsonScalar::Int(9))),
        (s("type"), JsonValue::Scalar(JsonScalar::Str(s("typing")))),
        (s("module"), JsonValue::Scalar(JsonScalar::Str(s("messaging")))),
    ]);
    let env = WsEnvelope::decode(extra).unwrap();
    assert_eq!(env.module, "messaging");
    assert_eq!(env.kind, "typing");
    assert_eq!(env.payload, JsonValue::Scalar(JsonScalar::Null));
}

#[test]
fn encode_then_decode() {
    let env = WsEnvelope::new("messaging", "typing", thread(5));
    let back = WsEnvelope::decode(Frame::Object(env.clone().encode())).unwrap();
    assert_eq!(back, env);
    let fields = env.encode();
    assert_eq!(fields.len(), 3);
    assert_eq!(fields[0].0, "module");
    assert_eq!(fields[1].0, "type");
    assert_eq!(fields[2].0, "payload");
}

#[test]
fn lagging_subscriber_skips_ahead() {
    let mut st = WsState::new(2);
    assert!(st.subscribe(1, 10));
    let mk = |i: i64| WsEnvelope::new("messaging", "user_typing", thread(i));
    st.broadcast(1, mk(1));
    st.broadcast(1, mk(2));
    st.broadcast(1, mk(3));
    assert_eq!(st.try_recv(1, 10), Received::Lagged(1));
    assert_eq!(st.try_recv(1, 10), Received::Envelope(mk(2)));
    assert_eq!(st.try_recv(1, 10), Received::Envelope(mk(3)));
    assert_eq!(st.try_recv(1, 10), Received::Empty);
}

#[test]
fn joining_twice_and_leaving() {
    let mut st = WsState::new(16);
    let mut alice = WsContext::new(1, s("alice"));
    let mut bob = WsContext::new(2, s("bob"));
    join(&mut alice, &mut st, 5);
    join(&mut alice, &mut st, 5);
    assert_eq!(alice.joined_topics(), &vec![5]);
    assert_eq!(st.topic_subscribers(5), 1);
    join(&mut bob, &mut st, 5);
    drain(&bob, &mut st);
    let r = on_client_frame(&mut alice, &mut st, frame("messaging", "leave_thread", thread(5)));
    assert_eq!(r, Reaction::Nothing);
    assert!(alice.joined_topics().is_empty());
    assert_eq!(st.topic_subscribers(5), 1);
    let got = drain(&bob, &mut st);
    assert_eq!(
        WsMessage::parse(&got[0].kind, &got[0].payload),
        Some(WsMessage::UserLeft { username: s("alice"), thread_id: 5 })
    );
    let r = on_client_frame(&mut bob, &mut st, frame("messaging", "leave_thread", thread(5)));
    assert_eq!(r, Reaction::Nothing);
    assert!(!st.contains_topic(5));
}

#[test]
fn delivery_filter_rules() {
    let own = WsEnvelope::new("messaging", "user_typing", obj(vec![
        ("username", JsonScalar::Str(s("alice"))),
        ("thread_id", JsonScalar::Int(5)),
    ]));
    assert!(!should_deliver("alice", &own));
    assert!(should_deliver("bob", &own));
    let garbled = WsEnvelope::new("messaging", "user_typing", JsonValue::Scalar(JsonScalar::Null));
    assert!(should_deliver("alice", &garbled));
    let created = WsEnvelope::new("users", "user_created", obj(vec![
        ("username", JsonScalar::Str(s("alice"))),
        ("name", JsonScalar::Str(s("Alice"))),
        ("password", JsonScalar::Str(s("hash"))),
    ]));
    assert!(!UsersModule.should_deliver("alice", &created));
    assert!(UsersModule.should_deliver("bob", &created));
    assert!(should_deliver("alice", &created));
    let partial = WsEnvelope::new("users", "user_created", obj(vec![("username", JsonScalar::Str(s("alice")))]));
    assert!(UsersModule.should_deliver("alice", &partial));
    let unknown = WsEnvelope::new("other", "user_typing", JsonValue::Scalar(JsonScalar::Null));
    assert!(should_deliver("alice", &unknown));
    assert!(UsersModule.should_deliver("alice", &own));
}

#[test]
fn registry_lookup() {
    assert_eq!(lookup("messaging").map(|m| m.name()), Some("messaging"));
    assert_eq!(lookup("messages"), None);
    assert_eq!(lookup("users"), None);
    assert_eq!(lookup("system"), None);
}

#[test]
fn create_message_payload_rules() {
    let with_parent = obj(vec![
        ("content", JsonScalar::Str(s("re"))),
        ("directory_id", JsonScalar::Int(4)),
        ("parent_id", JsonScalar::Int(8)),
    ]);
    assert_eq!(
        WsMessage::parse("create_message", &with_parent),
        Some(WsMessage::CreateMessage(NewMessage { content: s("re"), directory_id: 4, parent_id: Some(8) }))
    );
    let missing = obj(vec![("content", JsonScalar::Str(s("re")))]);
    assert_eq!(WsMessage::parse("create_message", &missing), None);
    assert_eq!(WsMessage::parse("unheard_of", &missing), None);
}

#[test]
fn tokens_from_query_and_header() {
    let q = vec![(s("a"), s("1")), (s("token"), s("abc"))];
    assert_eq!(extract_token_from_query(&q), Some(s("abc")));
    assert_eq!(extract_token_from_query(&vec![(s("a"), s("1"))]), None);
    assert_eq!(extract_token_from_header(Some("Bearer xyz")), Some(s("xyz")));
    assert_eq!(extract_token_from_header(Some("Basic xyz")), None);
    assert_eq!(extract_token_from_header(None), None);
}
