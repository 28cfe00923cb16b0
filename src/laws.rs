use vstd::prelude::*;

use crate::bus::push_bounded;
use crate::envelope::WsEnvelope;
use crate::json::JsonValue;
use crate::modules::{deliver_spec, is_error_reply, is_event, lemma_registry_names, lookup_spec, MessagingModule, WsModule};
use crate::payload::{thread_spec, Message};
use crate::session::{is_created, left_by, messaging_handled, persisted, reacted, Action, Reaction, WsContext};
use crate::state::{published_to, same, subscribed_to, unsubscribed_from, WsState};

verus! {

/// A topic has a bus exactly when it has at least one subscriber, in every
/// registry that subscribe, unsubscribe and publish leave behind.
pub proof fn lemma_bus_iff_subscribed(s: WsState, t: i32)
    requires
        s.wf(),
    ensures
        s.has_bus(t) <==> s.subscriber_count(t) >= 1,
{
    if !s.has_bus(t) {
        assert(s.subscribers(t) =~= Set::<u64>::empty());
    }
}

/// A `typing` from user `U` on topic `T` appends one `user_typing` event for
/// `U` and `T` to the queue of every subscriber of `T`; every session of
/// another user delivers it, and no session of `U` does.
pub proof fn lemma_typing_reaches_others_only(
    m: WsModule,
    c0: WsContext,
    s0: WsState,
    p: JsonValue,
    c1: WsContext,
    s1: WsState,
    r: Result<Action, String>,
    t: i32,
)
    requires
        s0.wf(),
        m == WsModule::Messaging(MessagingModule),
        thread_spec(p) == Some(t),
        messaging_handled(m, c0, s0, "typing"@, p, c1, s1, r),
    ensures
        exists|e: WsEnvelope|
            {
                &&& is_event(e, m.name_spec(), "user_typing"@, c0.user(), t)
                &&& forall|id: u64| #[trigger]
                    s0.subscribers(t).contains(id) ==> s1.subscribers(t).contains(id)
                        && s1.queues(t)[id] == push_bounded(s0.queues(t)[id], e, s0.cap(t))
                &&& forall|u: Seq<char>| #[trigger] deliver_spec(u, e) <==> u != c0.user()
            },
{
    let e = choose|e: WsEnvelope|
        is_event(e, m.name_spec(), "user_typing"@, c0.user(), t) && published_to(s0, s1, t, e);
    lemma_registry_names(m.name_spec());
    assert forall|u: Seq<char>| #[trigger] deliver_spec(u, e) <==> u != c0.user() by {}
    assert forall|id: u64| #[trigger]
        s0.subscribers(t).contains(id) implies s1.subscribers(t).contains(id)
            && s1.queues(t)[id] == push_bounded(s0.queues(t)[id], e, s0.cap(t)) by {}
}

/// A `create_message` whose write failed announces nothing to any subscriber
/// and gives exactly one error reply, to the sender.
pub proof fn lemma_failed_write_not_announced(
    s0: WsState,
    m: WsModule,
    text: String,
    s1: WsState,
    r: Option<WsEnvelope>,
)
    requires
        persisted(s0, m, Err(text), s1, r),
    ensures
        same(s0, s1),
        forall|t: i32| #[trigger] s1.queues(t) == s0.queues(t),
        r matches Some(e) && is_error_reply(e, "create_message failed: "@ + text@),
{
}

/// A `create_message` whose write succeeded appends exactly one
/// `message_created` event to the queue of every subscriber of the message's
/// directory, and every session delivers it, the sender's included.
pub proof fn lemma_stored_message_announced_to_all(
    s0: WsState,
    m: WsModule,
    msg: Message,
    s1: WsState,
    r: Option<WsEnvelope>,
)
    requires
        s0.wf(),
        persisted(s0, m, Ok(msg), s1, r),
    ensures
        r is None,
        exists|e: WsEnvelope|
            {
                &&& is_created(e, m.name_spec(), msg)
                &&& forall|id: u64| #[trigger]
                    s0.subscribers(msg.directory_id).contains(id) ==> s1.queues(msg.directory_id)[id]
                        == push_bounded(s0.queues(msg.directory_id)[id], e, s0.cap(msg.directory_id))
                &&& forall|u: Seq<char>| #[trigger] deliver_spec(u, e)
            },
{
    let t = msg.directory_id;
    let e = choose|e: WsEnvelope| is_created(e, m.name_spec(), msg) && published_to(s0, s1, t, e);
    lemma_registry_names(m.name_spec());
    reveal_strlit("message_created");
    reveal_strlit("user_created");
    reveal_strlit("user_typing");
    reveal_strlit("user_stopped_typing");
    reveal_strlit("user_joined");
    reveal_strlit("user_left");
    assert("message_created"@.len() == 15);
    assert("message_created"@ != "user_created"@);
    assert("message_created"@ != "user_stopped_typing"@);
    assert("message_created"@[0] != "user_typing"@[0]);
    assert("message_created"@ != "user_typing"@);
    assert("message_created"@ != "user_joined"@);
    assert("message_created"@ != "user_left"@);
    assert forall|u: Seq<char>| #[trigger] deliver_spec(u, e) by {}
}

/// Once the last subscriber of a topic has left, the topic has no bus, and a
/// publish to it changes nothing until someone subscribes again.
pub proof fn lemma_last_leave_then_publish(
    s0: WsState,
    s1: WsState,
    s2: WsState,
    t: i32,
    id: u64,
    e: WsEnvelope,
)
    requires
        s0.wf(),
        s0.subscribers(t) == set![id],
        unsubscribed_from(s0, s1, t, id),
        published_to(s1, s2, t, e),
    ensures
        !s1.has_bus(t),
        same(s1, s2),
        s2.subscriber_count(t) == 0,
{
    assert(s1.queues(t).dom() =~= Set::<u64>::empty());
}

/// An envelope whose module is not registered gets exactly one error reply,
/// naming the module, and changes neither the session nor the registry.
pub proof fn lemma_unknown_module_rejected(
    c0: WsContext,
    s0: WsState,
    env: WsEnvelope,
    c1: WsContext,
    s1: WsState,
    r: Reaction,
)
    requires
        lookup_spec(env.module@) is None,
        reacted(c0, s0, env, c1, s1, r),
    ensures
        r matches Reaction::Reply(e) && is_error_reply(e, "Unknown module: "@ + env.module@),
        c1 == c0,
        same(s0, s1),
{
}

/// Two sessions of different users that both join topic `T`, after which
/// the first sends `typing` on `T`: the second session's queue on `T` ends
/// with the first user's `user_typing` for `T`, which the second session
/// delivers and the first session's user never is sent.
pub proof fn lemma_two_sessions_typing(
    a0: WsContext,
    b0: WsContext,
    s0: WsState,
    a1: WsContext,
    s1: WsState,
    b1: WsContext,
    s2: WsState,
    a2: WsContext,
    s3: WsState,
    p: JsonValue,
    t: i32,
    ra: Result<Action, String>,
    rb: Result<Action, String>,
    rt: Result<Action, String>,
)
    requires
        thread_spec(p) == Some(t),
        a0.user() != b0.user(),
        !a0.joined(t),
        !b0.joined(t),
        s2.wf(),
        messaging_handled(WsModule::Messaging(MessagingModule), a0, s0, "join_thread"@, p, a1, s1, ra),
        ra is Ok,
        messaging_handled(WsModule::Messaging(MessagingModule), b0, s1, "join_thread"@, p, b1, s2, rb),
        rb is Ok,
        messaging_handled(WsModule::Messaging(MessagingModule), a1, s2, "typing"@, p, a2, s3, rt),
    ensures
        exists|e: WsEnvelope|
            {
                &&& is_event(e, "messaging"@, "user_typing"@, a0.user(), t)
                &&& s3.queues(t).contains_key(b0.sid())
                &&& s3.queues(t)[b0.sid()].last() == e
                &&& deliver_spec(b0.user(), e)
                &&& !deliver_spec(a0.user(), e)
            },
{
    reveal_strlit("join_thread");
    reveal_strlit("typing");
    reveal_strlit("stop_typing");
    assert("join_thread"@.len() == 11 && "typing"@.len() == 6 && "stop_typing"@.len() == 11);
    assert("join_thread"@[0] != "stop_typing"@[0]);
    let (sm, ej) = choose|sm: WsState, e: WsEnvelope|
        subscribed_to(s1, sm, t, b0.sid()) && is_event(e, "messaging"@, "user_joined"@, b0.user(), t)
            && published_to(sm, s2, t, e);
    assert(sm.queues(t).dom().contains(b0.sid()));
    assert(s2.queues(t).dom() =~= sm.queues(t).dom());
    lemma_typing_reaches_others_only(WsModule::Messaging(MessagingModule), a1, s2, p, a2, s3, rt, t);
    let e = choose|e: WsEnvelope|
        {
            &&& is_event(e, WsModule::Messaging(MessagingModule).name_spec(), "user_typing"@, a1.user(), t)
            &&& forall|id: u64| #[trigger]
                s2.subscribers(t).contains(id) ==> s3.subscribers(t).contains(id)
                    && s3.queues(t)[id] == push_bounded(s2.queues(t)[id], e, s2.cap(t))
            &&& forall|u: Seq<char>| #[trigger] deliver_spec(u, e) <==> u != a1.user()
        };
    assert(s2.subscribers(t).contains(b0.sid()));
    assert(deliver_spec(b0.user(), e));
    assert(!deliver_spec(a0.user(), e));
}

/// When the only subscriber of a topic closes its session, the topic's bus
/// is removed, and a later publish to the topic changes nothing.
pub proof fn lemma_sole_watcher_close(
    s0: WsState,
    s1: WsState,
    s2: WsState,
    t: i32,
    id: u64,
    e: WsEnvelope,
    e2: WsEnvelope,
)
    requires
        s0.wf(),
        s0.subscribers(t) == set![id],
        left_by(s0, s1, t, id, e),
        published_to(s1, s2, t, e2),
    ensures
        !s1.has_bus(t),
        same(s1, s2),
{
    assert(s0.has_bus(t)) by {
        assert(s0.subscribers(t).contains(id));
    }
    assert(s1.queues(t).dom() =~= Set::<u64>::empty());
}

} // verus!
