use vstd::prelude::*;

use crate::bus::MAX_SUBSCRIBERS;
use crate::envelope::{decode_spec, DecodeError, EnvelopeField, Frame, WsEnvelope};
use crate::json::{str_eq, JsonValue};
use crate::bus::Received;
use crate::modules::{deliver_spec, error_reply, event, is_error_reply, is_event, lookup, lookup_spec, should_deliver, WsModule};
use crate::payload::{message_payload, message_spec, new_message_of, new_message_spec, thread_of, thread_spec, Message, NewMessage};
use crate::state::{lags_published, published, published_to, same, subscribed_to, unsubscribed_from, WsState};

verus! {

/// One connection's session: its subscriber id, the user it was
/// authenticated as, and the topics it has joined.
pub struct WsContext {
    id: u64,
    username: String,
    joined: Vec<i32>,
}

/// What a handler leaves to be done once it returns.
#[derive(Clone, Debug, PartialEq, Eq)]
pub enum Action {
    Done,
    /// The message must be written to the store before it is announced.
    Persist(NewMessage),
}

/// What the session does in answer to one client frame.
#[derive(Clone, Debug, PartialEq, Eq)]
pub enum Reaction {
    Nothing,
    /// Send this envelope to the originating connection only.
    Reply(WsEnvelope),
    /// Write the message to the store, then hand the outcome to `on_persisted`.
    Persist(WsModule, NewMessage),
}

impl WsContext {
    /// The session's subscriber id.
    pub closed spec fn sid(self) -> u64 {
        self.id
    }

    /// The user the session was authenticated as.
    pub closed spec fn user(self) -> Seq<char> {
        self.username@
    }

    /// The topics joined, in the order they were joined.
    pub closed spec fn topics(self) -> Seq<i32> {
        self.joined@
    }

    /// A topic is joined at most once.
    pub open spec fn wf(self) -> bool {
        self.topics().no_duplicates()
    }

    pub open spec fn joined(self, t: i32) -> bool {
        self.topics().contains(t)
    }

    /// A new session for `username`, with no topic joined.
    pub fn new(id: u64, username: String) -> (r: WsContext)
        ensures
            r.sid() == id,
            r.user() == username@,
            r.topics() == Seq::<i32>::empty(),
            r.wf(),
    {
        WsContext { id, username, joined: Vec::new() }
    }

    pub fn id(&self) -> (r: u64)
        ensures
            r == self.sid(),
    {
        self.id
    }

    pub fn username(&self) -> (r: &str)
        ensures
            r@ == self.user(),
    {
        self.username.as_str()
    }

    /// The topics joined, in the order they were joined.
    pub fn joined_topics(&self) -> (r: &Vec<i32>)
        ensures
            r@ == self.topics(),
    {
        &self.joined
    }
}

/// The registry subscribes the session to exactly the topics it joined.
pub open spec fn in_sync(ctx: WsContext, s: WsState) -> bool {
    forall|t: i32|
        #![trigger s.subscribers(t).contains(ctx.sid())]
        #![trigger ctx.topics().contains(t)]
        s.subscribers(t).contains(ctx.sid()) <==> ctx.topics().contains(t)
}

/// The text of the error reply to a payload that event type `kind` cannot read.
pub open spec fn invalid_payload_text(kind: Seq<char>) -> Seq<char> {
    if kind == "create_message"@ {
        "Invalid payload: `content` must be a string, `directory_id` an i32, and `parent_id` absent, null or an i32"@
    } else {
        "Invalid payload: `thread_id` must be an i32"@
    }
}

/// The text of the error reply to an event type that a module does not know.
pub open spec fn unknown_type_text(m: WsModule, kind: Seq<char>) -> Seq<char> {
    match m {
        WsModule::Messages(_) => "Invalid message type '"@ + kind + "' for module 'messages'"@,
        _ => "Unknown message type: "@ + kind,
    }
}

/// The outcome of a messaging handler: `r`, with `(c1, s1)` the session and
/// registry after it handled `kind` with payload `p` from `(c0, s0)`.
pub open spec fn messaging_handled(
    m: WsModule,
    c0: WsContext,
    s0: WsState,
    kind: Seq<char>,
    p: JsonValue,
    c1: WsContext,
    s1: WsState,
    r: Result<Action, String>,
) -> bool {
    let name = m.name_spec();
    let untouched = c1 == c0 && same(s0, s1);
    if kind == "typing"@ || kind == "stop_typing"@ {
        match thread_spec(p) {
            None => (r matches Err(x) && x@ == invalid_payload_text(kind)) && untouched,
            Some(t) => {
                let out = if kind == "typing"@ {
                    "user_typing"@
                } else {
                    "user_stopped_typing"@
                };
                &&& r == Ok::<Action, String>(Action::Done)
                &&& c1 == c0
                &&& exists|e: WsEnvelope| is_event(e, name, out, c0.user(), t) && published_to(s0, s1, t, e)
            },
        }
    } else if kind == "join_thread"@ {
        match thread_spec(p) {
            None => (r matches Err(x) && x@ == invalid_payload_text(kind)) && untouched,
            Some(t) => if c0.joined(t) {
                r == Ok::<Action, String>(Action::Done) && untouched
            } else if s0.subscriber_count(t) >= MAX_SUBSCRIBERS {
                (r matches Err(x) && x@ == "Invalid thread: it has too many watchers"@) && untouched
            } else {
                &&& r == Ok::<Action, String>(Action::Done)
                &&& c1.sid() == c0.sid()
                &&& c1.user() == c0.user()
                &&& c1.topics() == c0.topics().push(t)
                &&& exists|sm: WsState, e: WsEnvelope|
                    subscribed_to(s0, sm, t, c0.sid()) && is_event(e, name, "user_joined"@, c0.user(), t)
                        && published_to(sm, s1, t, e)
            },
        }
    } else if kind == "leave_thread"@ {
        match thread_spec(p) {
            None => (r matches Err(x) && x@ == invalid_payload_text(kind)) && untouched,
            Some(t) => if !c0.joined(t) {
                r == Ok::<Action, String>(Action::Done) && untouched
            } else {
                &&& r == Ok::<Action, String>(Action::Done)
                &&& c1.sid() == c0.sid()
                &&& c1.user() == c0.user()
                &&& forall|u: i32| #[trigger] c1.joined(u) <==> (c0.joined(u) && u != t)
                &&& exists|sm: WsState, e: WsEnvelope|
                    is_event(e, name, "user_left"@, c0.user(), t) && published_to(s0, sm, t, e)
                        && unsubscribed_from(sm, s1, t, c0.sid())
            },
        }
    } else if kind == "create_message"@ {
        match new_message_spec(p) {
            None => (r matches Err(x) && x@ == invalid_payload_text(kind)) && untouched,
            Some(nm) => r == Ok::<Action, String>(Action::Persist(nm)) && untouched,
        }
    } else {
        &&& r matches Err(text) && text@ == unknown_type_text(m, kind)
        &&& untouched
    }
}

/// The outcome of module `m` handling `kind` with payload `p`.
pub open spec fn handled(
    m: WsModule,
    c0: WsContext,
    s0: WsState,
    kind: Seq<char>,
    p: JsonValue,
    c1: WsContext,
    s1: WsState,
    r: Result<Action, String>,
) -> bool {
    match m {
        WsModule::Users(_) => r == Ok::<Action, String>(Action::Done) && c1 == c0 && same(s0, s1),
        _ => messaging_handled(m, c0, s0, kind, p, c1, s1, r),
    }
}

/// `r` is what the session does about handler result `h` of module `m`.
pub open spec fn reaction_of(m: WsModule, h: Result<Action, String>, r: Reaction) -> bool {
    match h {
        Ok(Action::Done) => r == Reaction::Nothing,
        Ok(Action::Persist(nm)) => r == Reaction::Persist(m, nm),
        Err(text) => r matches Reaction::Reply(e) && is_error_reply(e, text@),
    }
}

/// The session's reaction `r` to envelope `env`, from `(c0, s0)` to `(c1, s1)`:
/// an unknown module gets one error reply and changes nothing.
pub open spec fn reacted(
    c0: WsContext,
    s0: WsState,
    env: WsEnvelope,
    c1: WsContext,
    s1: WsState,
    r: Reaction,
) -> bool {
    match lookup_spec(env.module@) {
        None => {
            &&& r matches Reaction::Reply(e) && is_error_reply(e, "Unknown module: "@ + env.module@)
            &&& c1 == c0
            &&& same(s0, s1)
        },
        Some(m) => exists|h: Result<Action, String>|
            handled(m, c0, s0, env.kind@, env.payload, c1, s1, h) && reaction_of(m, h, r),
    }
}

/// The text that says why a frame is not an envelope.
pub open spec fn decode_error_text(d: DecodeError) -> Seq<char> {
    match d {
        DecodeError::Malformed(t) => t@,
        DecodeError::NotAnObject => "expected an object"@,
        DecodeError::MissingField(EnvelopeField::Module) => "missing field `module`"@,
        DecodeError::MissingField(EnvelopeField::Type) => "missing field `type`"@,
        DecodeError::NotAString(EnvelopeField::Module) => "field `module` is not a string"@,
        DecodeError::NotAString(EnvelopeField::Type) => "field `type` is not a string"@,
    }
}

impl DecodeError {
    /// Says why the frame is not an envelope.
    pub fn message(&self) -> (r: String)
        ensures
            r@ == decode_error_text(*self),
    {
        match self {
            DecodeError::Malformed(t) => t.clone(),
            DecodeError::NotAnObject => String::from_str("expected an object"),
            DecodeError::MissingField(EnvelopeField::Module) => String::from_str("missing field `module`"),
            DecodeError::MissingField(EnvelopeField::Type) => String::from_str("missing field `type`"),
            DecodeError::NotAString(EnvelopeField::Module) => String::from_str("field `module` is not a string"),
            DecodeError::NotAString(EnvelopeField::Type) => String::from_str("field `type` is not a string"),
        }
    }
}

/// `prefix` followed by `rest`.
fn concat(prefix: &str, rest: &str) -> (r: String)
    ensures
        r@ == prefix@ + rest@,
{
    let mut s = String::from_str(prefix);
    s.append(rest);
    s
}

/// The error text for a payload that `kind` cannot use.
fn invalid_payload(kind: &str) -> (r: String)
    ensures
        r@ == invalid_payload_text(kind@),
{
    if str_eq(kind, "create_message") {
        String::from_str(
            "Invalid payload: `content` must be a string, `directory_id` an i32, and `parent_id` absent, null or an i32",
        )
    } else {
        String::from_str("Invalid payload: `thread_id` must be an i32")
    }
}

/// Position of `t` in `v`.
fn index_of(v: &Vec<i32>, t: i32) -> (r: Option<usize>)
    ensures
        match r {
            Some(i) => i < v@.len() && v@[i as int] == t,
            None => !v@.contains(t),
        },
{
    let mut i: usize = 0;
    while i < v.len()
        invariant
            i <= v@.len(),
            forall|j: int| 0 <= j < i ==> v@[j] != t,
        decreases v@.len() - i,
    {
        if v[i] == t {
            return Some(i);
        }
        i = i + 1;
    }
    None
}

/// What `kind` from a client means to the messaging modules.
fn handle_messaging(
    m: WsModule,
    ctx: &mut WsContext,
    state: &mut WsState,
    kind: &str,
    payload: &JsonValue,
) -> (r: Result<Action, String>)
    requires
        !(m is Users),
        old(state).wf(),
        old(ctx).wf(),
        in_sync(*old(ctx), *old(state)),
    ensures
        final(state).wf(),
        final(ctx).wf(),
        in_sync(*final(ctx), *final(state)),
        messaging_handled(m, *old(ctx), *old(state), kind@, *payload, *final(ctx), *final(state), r),
{
    let name = m.name();
    let is_typing = str_eq(kind, "typing");
    if is_typing || str_eq(kind, "stop_typing") {
        let t = match thread_of(payload) {
            None => {
                return Err(invalid_payload(kind));
            },
            Some(t) => t,
        };
        let out = if is_typing {
            "user_typing"
        } else {
            "user_stopped_typing"
        };
        let e = event(name, out, ctx.username.clone(), t);
        let ghost s0 = *state;
        state.broadcast(t, e);
        proof {
            lemma_publish_keeps_sync(*ctx, s0, *state, t, e);
            assert(is_event(e, m.name_spec(), out@, ctx.user(), t) && published_to(s0, *state, t, e));
        }
        Ok(Action::Done)
    } else if str_eq(kind, "join_thread") {
        let t = match thread_of(payload) {
            None => {
                return Err(invalid_payload(kind));
            },
            Some(t) => t,
        };
        if index_of(&ctx.joined, t).is_some() {
            return Ok(Action::Done);
        }
        let ghost s0 = *state;
        let ghost c0 = *ctx;
        if !state.subscribe(t, ctx.id) {
            return Err(String::from_str("Invalid thread: it has too many watchers"));
        }
        let ghost sm = *state;
        ctx.joined.push(t);
        let e = event(name, "user_joined", ctx.username.clone(), t);
        state.broadcast(t, e);
        proof {
            assert(sm.subscribers(t) == s0.subscribers(t).insert(c0.sid()));
            lemma_sync_after_subscribe(c0, *ctx, s0, sm, t);
            lemma_publish_keeps_sync(*ctx, sm, *state, t, e);
            assert(subscribed_to(s0, sm, t, c0.sid()));
            assert(is_event(e, m.name_spec(), "user_joined"@, c0.user(), t));
            assert(published_to(sm, *state, t, e));
        }
        Ok(Action::Done)
    } else if str_eq(kind, "leave_thread") {
        let t = match thread_of(payload) {
            None => {
                return Err(invalid_payload(kind));
            },
            Some(t) => t,
        };
        let i = match index_of(&ctx.joined, t) {
            None => {
                return Ok(Action::Done);
            },
            Some(i) => i,
        };
        let ghost s0 = *state;
        let ghost c0 = *ctx;
        let e = event(name, "user_left", ctx.username.clone(), t);
        state.broadcast(t, e);
        let ghost sm = *state;
        proof {
            lemma_publish_keeps_sync(c0, s0, sm, t, e);
        }
        state.unsubscribe(t, ctx.id);
        ctx.joined.remove(i);
        proof {
            lemma_remove_unique(c0.topics(), i as int);
            lemma_sync_after_unsubscribe(c0, *ctx, sm, *state, t);
            assert(published_to(s0, sm, t, e));
            assert(is_event(e, m.name_spec(), "user_left"@, c0.user(), t));
            assert(unsubscribed_from(sm, *state, t, c0.sid()));
        }
        Ok(Action::Done)
    } else if str_eq(kind, "create_message") {
        match new_message_of(payload) {
            None => Err(invalid_payload(kind)),
            Some(nm) => Ok(Action::Persist(nm)),
        }
    } else {
        match m {
            WsModule::Messages(_) => {
                let mut s = concat("Invalid message type '", kind);
                s.append("' for module 'messages'");
                Err(s)
            },
            _ => Err(concat("Unknown message type: ", kind)),
        }
    }
}

impl WsModule {
    /// Handles one client envelope of type `kind`; types a module does not act on succeed.
    pub fn handle(&self, ctx: &mut WsContext, state: &mut WsState, kind: &str, payload: &JsonValue) -> (r:
        Result<Action, String>)
        requires
            old(state).wf(),
            old(ctx).wf(),
            in_sync(*old(ctx), *old(state)),
        ensures
            final(state).wf(),
            final(ctx).wf(),
            in_sync(*final(ctx), *final(state)),
            handled(*self, *old(ctx), *old(state), kind@, *payload, *final(ctx), *final(state), r),
    {
        match self {
            WsModule::Users(_) => Ok(Action::Done),
            _ => handle_messaging(*self, ctx, state, kind, payload),
        }
    }
}

/// What the session does with a decoded client envelope.
pub fn handle_client_envelope(ctx: &mut WsContext, state: &mut WsState, env: WsEnvelope) -> (r: Reaction)
    requires
        old(state).wf(),
        old(ctx).wf(),
        in_sync(*old(ctx), *old(state)),
    ensures
        final(state).wf(),
        final(ctx).wf(),
        in_sync(*final(ctx), *final(state)),
        reacted(*old(ctx), *old(state), env, *final(ctx), *final(state), r),
{
    match lookup(env.module.as_str()) {
        None => Reaction::Reply(error_reply(concat("Unknown module: ", env.module.as_str()))),
        Some(m) => {
            let h = m.handle(ctx, state, env.kind.as_str(), &env.payload);
            let ghost hh = h;
            let r = match h {
                Ok(Action::Done) => Reaction::Nothing,
                Ok(Action::Persist(nm)) => Reaction::Persist(m, nm),
                Err(text) => Reaction::Reply(error_reply(text)),
            };
            proof {
                assert(reaction_of(m, hh, r));
            }
            r
        },
    }
}

/// What the session does with one client frame: a frame that is not an
/// envelope gets one error reply and changes nothing.
pub fn on_client_frame(ctx: &mut WsContext, state: &mut WsState, frame: Frame) -> (r: Reaction)
    requires
        old(state).wf(),
        old(ctx).wf(),
        in_sync(*old(ctx), *old(state)),
    ensures
        final(state).wf(),
        final(ctx).wf(),
        in_sync(*final(ctx), *final(state)),
        match decode_spec(frame) {
            Err(d) => {
                &&& r matches Reaction::Reply(e) && is_error_reply(e, "Invalid message: "@ + decode_error_text(d))
                &&& *final(ctx) == *old(ctx)
                &&& *final(state) == *old(state)
            },
            Ok(env) => reacted(*old(ctx), *old(state), env, *final(ctx), *final(state), r),
        },
{
    match WsEnvelope::decode(frame) {
        Err(d) => Reaction::Reply(error_reply(concat("Invalid message: ", d.message().as_str()))),
        Ok(env) => handle_client_envelope(ctx, state, env),
    }
}

/// `e` announces the stored message `m` from module `module`.
pub open spec fn is_created(e: WsEnvelope, module: Seq<char>, m: Message) -> bool {
    &&& e.module@ == module
    &&& e.kind@ == "message_created"@
    &&& message_spec(e.payload) == Some(m)
}

/// The outcome `(s1, r)` of the store's answer `result` to a `create_message`
/// of module `module`, from registry `s0`.
pub open spec fn persisted(
    s0: WsState,
    module: WsModule,
    result: Result<Message, String>,
    s1: WsState,
    r: Option<WsEnvelope>,
) -> bool {
    match result {
        Err(text) => {
            &&& r matches Some(e) && is_error_reply(e, "create_message failed: "@ + text@)
            &&& s1 == s0
        },
        Ok(m) => {
            &&& r is None
            &&& exists|e: WsEnvelope| is_created(e, module.name_spec(), m) && published_to(s0, s1, m.directory_id, e)
        },
    }
}

/// Finishes a `create_message` once the store answered: a stored message is
/// announced on its directory's topic, to the sender too; a failed write is
/// reported to the sender alone and announced to no one.
pub fn on_persisted(state: &mut WsState, module: WsModule, result: Result<Message, String>) -> (r: Option<
    WsEnvelope,
>)
    requires
        old(state).wf(),
    ensures
        final(state).wf(),
        persisted(*old(state), module, result, *final(state), r),
{
    match result {
        Err(text) => Some(error_reply(concat("create_message failed: ", text.as_str()))),
        Ok(m) => {
            let t = m.directory_id;
            let ghost mm = m;
            let e = WsEnvelope::new(module.name(), "message_created", message_payload(m));
            state.broadcast(t, e);
            proof {
                assert(is_created(e, module.name_spec(), mm));
            }
            None
        },
    }
}

/// What one receive on a joined topic gives the session.
#[derive(Clone, Debug, PartialEq, Eq)]
pub enum Delivery {
    /// Send this envelope to the client.
    Send(WsEnvelope),
    /// An envelope was taken that this session's user must not see.
    Filtered,
    /// This many envelopes were lost; the next receive goes on with the oldest kept.
    Lagged(u64),
    /// Nothing is waiting.
    Idle,
}

/// Takes the next envelope waiting for the session on topic `t` and decides
/// whether it goes to the client.
pub fn receive(ctx: &WsContext, state: &mut WsState, t: i32) -> (r: Delivery)
    requires
        old(state).wf(),
        in_sync(*ctx, *old(state)),
        ctx.joined(t),
    ensures
        final(state).wf(),
        in_sync(*ctx, *final(state)),
        final(state).bus_size() == old(state).bus_size(),
        final(state).has_bus(t),
        final(state).cap(t) == old(state).cap(t),
        final(state).others(t) == old(state).others(t),
        ({
            let q = old(state).queues(t)[ctx.sid()];
            let lag = old(state).lags(t)[ctx.sid()];
            if lag > 0 {
                &&& r == Delivery::Lagged(lag as u64)
                &&& final(state).queues(t) == old(state).queues(t)
                &&& final(state).lags(t) == old(state).lags(t).insert(ctx.sid(), 0)
            } else if q.len() == 0 {
                &&& r == Delivery::Idle
                &&& final(state).queues(t) == old(state).queues(t)
                &&& final(state).lags(t) == old(state).lags(t)
            } else {
                &&& r == if deliver_spec(ctx.user(), q[0]) {
                    Delivery::Send(q[0])
                } else {
                    Delivery::Filtered
                }
                &&& final(state).queues(t) == old(state).queues(t).insert(ctx.sid(), q.drop_first())
                &&& final(state).lags(t) == old(state).lags(t)
            }
        }),
{
    let ghost s0 = *state;
    proof {
        assert(s0.subscribers(t).contains(ctx.sid()));
    }
    let r = match state.try_recv(t, ctx.id) {
        Received::Envelope(e) => if should_deliver(ctx.username.as_str(), &e) {
            Delivery::Send(e)
        } else {
            Delivery::Filtered
        },
        Received::Lagged(n) => Delivery::Lagged(n),
        Received::Empty => Delivery::Idle,
    };
    proof {
        assert(state.queues(t).dom() =~= s0.queues(t).dom());
        assert forall|u: i32| #[trigger] state.subscribers(u) == s0.subscribers(u) by {
            if u != t {
                lemma_others(s0, *state, t, u);
            }
        }
    }
    r
}

/// The envelopes of queue `q` that the session of `user` is sent, in order.
pub open spec fn deliverable(q: Seq<WsEnvelope>, user: Seq<char>) -> Seq<WsEnvelope>
    decreases q.len(),
{
    if q.len() == 0 {
        Seq::empty()
    } else if deliver_spec(user, q[0]) {
        seq![q[0]] + deliverable(q.drop_first(), user)
    } else {
        deliverable(q.drop_first(), user)
    }
}

/// What subscriber `id` of user `user` is sent from topics `ts`, taken in
/// order, in registry `s`.
pub open spec fn all_deliverable(s: WsState, ts: Seq<i32>, id: u64, user: Seq<char>) -> Seq<WsEnvelope>
    decreases ts.len(),
{
    if ts.len() == 0 {
        Seq::empty()
    } else {
        all_deliverable(s, ts.drop_last(), id, user) + deliverable(s.queues(ts.last())[id], user)
    }
}

/// Takes everything waiting for the session on every joined topic, in the
/// order the topics were joined: returns what its user is to be sent, skips
/// past lost envelopes, and leaves each of its queues empty and unlagged.
pub fn drain(ctx: &WsContext, state: &mut WsState) -> (r: Vec<WsEnvelope>)
    requires
        old(state).wf(),
        ctx.wf(),
        in_sync(*ctx, *old(state)),
    ensures
        final(state).wf(),
        in_sync(*ctx, *final(state)),
        final(state).bus_size() == old(state).bus_size(),
        r@ == all_deliverable(*old(state), ctx.topics(), ctx.sid(), ctx.user()),
        forall|t: i32| #[trigger] ctx.joined(t) ==> {
            &&& final(state).has_bus(t)
            &&& final(state).cap(t) == old(state).cap(t)
            &&& final(state).queues(t) == old(state).queues(t).insert(ctx.sid(), Seq::empty())
            &&& final(state).lags(t) == old(state).lags(t).insert(ctx.sid(), 0)
        },
        forall|t: i32| !(#[trigger] ctx.joined(t)) ==> {
            &&& final(state).has_bus(t) == old(state).has_bus(t)
            &&& final(state).has_bus(t) ==> final(state).topics()[t] == old(state).topics()[t]
        },
{
    let ghost s0 = *state;
    let ghost id = ctx.sid();
    let ghost user = ctx.user();
    let ghost ts = ctx.topics();
    let topics = ctx.joined_topics();
    let mut out: Vec<WsEnvelope> = Vec::new();
    let mut i: usize = 0;
    while i < topics.len()
        invariant
            topics@ == ts,
            ts == ctx.topics(),
            ts.no_duplicates(),
            id == ctx.sid(),
            user == ctx.user(),
            0 <= i <= ts.len(),
            state.wf(),
            in_sync(*ctx, *state),
            state.bus_size() == s0.bus_size(),
            out@ == all_deliverable(s0, ts.subrange(0, i as int), id, user),
            forall|j: int| 0 <= j < i ==> {
                let t = #[trigger] ts[j];
                &&& state.has_bus(t)
                &&& state.cap(t) == s0.cap(t)
                &&& state.queues(t) == s0.queues(t).insert(id, Seq::empty())
                &&& state.lags(t) == s0.lags(t).insert(id, 0)
            },
            forall|t: i32| !(#[trigger] ts.subrange(0, i as int).contains(t)) ==> {
                &&& state.has_bus(t) == s0.has_bus(t)
                &&& state.has_bus(t) ==> state.topics()[t] == s0.topics()[t]
            },
        decreases ts.len() - i,
    {
        let t = topics[i];
        let ghost sb = *state;
        let ghost outb = out@;
        proof {
            assert(!ts.subrange(0, i as int).contains(t)) by {
                if ts.subrange(0, i as int).contains(t) {
                    let j = ts.subrange(0, i as int).index_of(t);
                    assert(ts[j] == t && ts[i as int] == t);
                }
            }
            assert(ctx.joined(t));
            assert(sb.subscribers(t).contains(id));
            assert(sb.queues(t) == s0.queues(t));
            assert(sb.lags(t) == s0.lags(t));
        }
        let mut done = false;
        while !done
            invariant
                ctx.joined(t),
                id == ctx.sid(),
                user == ctx.user(),
                state.wf(),
                in_sync(*ctx, *state),
                state.bus_size() == sb.bus_size(),
                state.has_bus(t),
                state.cap(t) == sb.cap(t),
                state.others(t) == sb.others(t),
                state.queues(t) == sb.queues(t).insert(id, state.queues(t)[id]),
                state.lags(t) == sb.lags(t).insert(id, state.lags(t)[id]),
                state.subscribers(t).contains(id),
                out@ + deliverable(state.queues(t)[id], user) == outb + deliverable(sb.queues(t)[id], user),
                done ==> state.queues(t)[id].len() == 0 && state.lags(t)[id] == 0,
            decreases (if done { 0int } else { 1int }) + 2 * state.queues(t)[id].len() + (if state.lags(t)[id] > 0 { 1int } else { 0int }),
        {
            let ghost q = state.queues(t)[id];
            let ghost sq = *state;
            let ghost out0 = out@;
            match receive(ctx, state, t) {
                Delivery::Send(e) => {
                    out.push(e);
                    proof {
                        assert(q[0] == e);
                        assert(deliverable(q, user) == seq![e] + deliverable(q.drop_first(), user));
                        assert(out@ + deliverable(q.drop_first(), user) =~= out0 + deliverable(q, user));
                    }
                },
                Delivery::Filtered => {},
                Delivery::Lagged(_) => {},
                Delivery::Idle => {
                    done = true;
                },
            }
            proof {
                assert(state.queues(t) =~= sb.queues(t).insert(id, state.queues(t)[id]));
                assert(state.lags(t) =~= sb.lags(t).insert(id, state.lags(t)[id]));
                assert(state.subscribers(t) == sq.subscribers(t));
            }
        }
        proof {
            assert(state.queues(t)[id] =~= Seq::<WsEnvelope>::empty());
            assert(deliverable(state.queues(t)[id], user) == Seq::<WsEnvelope>::empty());
            assert(out@ =~= outb + deliverable(s0.queues(t)[id], user));
            let tsi = ts.subrange(0, i + 1);
            assert(tsi.drop_last() =~= ts.subrange(0, i as int));
            assert(tsi.last() == t);
            assert(state.queues(t) =~= s0.queues(t).insert(id, Seq::empty()));
            assert(state.lags(t) =~= s0.lags(t).insert(id, 0));
            assert forall|j: int| 0 <= j < i + 1 implies {
                let u = #[trigger] ts[j];
                &&& state.has_bus(u)
                &&& state.cap(u) == s0.cap(u)
                &&& state.queues(u) == s0.queues(u).insert(id, Seq::empty())
                &&& state.lags(u) == s0.lags(u).insert(id, 0)
            } by {
                if j < i {
                    let u = ts[j];
                    assert(u != t);
                    lemma_others(sb, *state, t, u);
                    assert(sb.has_bus(u));
                    assert(state.topics()[u] == sb.topics()[u]);
                }
            }
            assert forall|u: i32| !(#[trigger] tsi.contains(u)) implies {
                &&& state.has_bus(u) == s0.has_bus(u)
                &&& state.has_bus(u) ==> state.topics()[u] == s0.topics()[u]
            } by {
                assert(u != t) by {
                    assert(tsi[i as int] == t);
                }
                assert(!ts.subrange(0, i as int).contains(u)) by {
                    if ts.subrange(0, i as int).contains(u) {
                        let j = ts.subrange(0, i as int).index_of(u);
                        assert(tsi[j] == u);
                    }
                }
                lemma_others(sb, *state, t, u);
            }
        }
        i = i + 1;
    }
    proof {
        assert(ts.subrange(0, ts.len() as int) =~= ts);
        assert forall|t: i32| #[trigger] ctx.joined(t) implies {
            &&& state.has_bus(t)
            &&& state.cap(t) == s0.cap(t)
            &&& state.queues(t) == s0.queues(t).insert(id, Seq::empty())
            &&& state.lags(t) == s0.lags(t).insert(id, 0)
        } by {
            let j = ts.index_of(t);
            assert(ts[j] == t);
        }
    }
    out
}

/// How a topic that the session left on closing ends up: `e` announced the
/// departure to the others, and the session is no longer subscribed.
pub open spec fn left_by(s0: WsState, s1: WsState, t: i32, id: u64, e: WsEnvelope) -> bool {
    &&& s1.queues(t) == published(s0.queues(t), e, s0.cap(t)).remove(id)
    &&& s1.lags(t) == lags_published(s0.queues(t), s0.lags(t), s0.cap(t)).remove(id)
    &&& s1.has_bus(t) == (s1.queues(t).dom().len() >= 1)
    &&& s1.has_bus(t) ==> s1.cap(t) == s0.cap(t)
}

/// Closes the session: for each joined topic, announces `user_left` to it and
/// unsubscribes, so that the last subscriber's leaving removes the topic's bus.
pub fn close(ctx: &mut WsContext, state: &mut WsState)
    requires
        old(state).wf(),
        old(ctx).wf(),
        in_sync(*old(ctx), *old(state)),
    ensures
        final(state).wf(),
        final(ctx).wf(),
        final(ctx).sid() == old(ctx).sid(),
        final(ctx).user() == old(ctx).user(),
        final(ctx).topics() == Seq::<i32>::empty(),
        in_sync(*final(ctx), *final(state)),
        final(state).bus_size() == old(state).bus_size(),
        forall|t: i32| #[trigger] old(ctx).joined(t) ==> exists|e: WsEnvelope|
            is_event(e, "messaging"@, "user_left"@, old(ctx).user(), t)
                && left_by(*old(state), *final(state), t, old(ctx).sid(), e),
        forall|t: i32| !(#[trigger] old(ctx).joined(t)) ==> {
            &&& final(state).has_bus(t) == old(state).has_bus(t)
            &&& final(state).has_bus(t) ==> final(state).topics()[t] == old(state).topics()[t]
        },
{
    let ghost c0 = *ctx;
    let ghost s0 = *state;
    while ctx.joined.len() > 0
        invariant
            state.wf(),
            ctx.wf(),
            in_sync(*ctx, *state),
            ctx.sid() == c0.sid(),
            ctx.user() == c0.user(),
            state.bus_size() == s0.bus_size(),
            c0.topics().no_duplicates(),
            ctx.topics() == c0.topics().subrange(0, ctx.topics().len() as int),
            ctx.topics().len() <= c0.topics().len(),
            forall|t: i32| #[trigger] c0.joined(t) && !ctx.joined(t) ==> exists|e: WsEnvelope|
                is_event(e, "messaging"@, "user_left"@, c0.user(), t) && left_by(s0, *state, t, c0.sid(), e),
            forall|t: i32| !(#[trigger] c0.joined(t)) || ctx.joined(t) ==> {
                &&& state.has_bus(t) == s0.has_bus(t)
                &&& state.has_bus(t) ==> state.topics()[t] == s0.topics()[t]
            },
        decreases ctx.topics().len(),
    {
        let ghost before = *state;
        let ghost cb = *ctx;
        let t = ctx.joined.pop().unwrap();
        proof {
            let n = cb.topics().len() - 1;
            assert(cb.topics()[n] == t);
            assert(ctx.topics() =~= cb.topics().subrange(0, n));
            assert(ctx.topics() =~= c0.topics().subrange(0, n));
            assert(!ctx.joined(t)) by {
                if ctx.joined(t) {
                    let j = ctx.topics().index_of(t);
                    assert(c0.topics()[j] == t && c0.topics()[n] == t);
                }
            }
            assert forall|u: i32| #[trigger] ctx.joined(u) <==> (cb.joined(u) && u != t) by {
                if cb.joined(u) && u != t {
                    let j = cb.topics().index_of(u);
                    assert(j != n);
                    assert(ctx.topics()[j] == u);
                }
                if ctx.joined(u) {
                    let j = ctx.topics().index_of(u);
                    assert(cb.topics()[j] == u);
                }
            }
            assert(cb.joined(t));
            assert(c0.joined(t)) by {
                assert(c0.topics()[n] == t);
            }
        }
        let e = event("messaging", "user_left", ctx.username.clone(), t);
        state.broadcast(t, e);
        let ghost sm = *state;
        proof {
            lemma_publish_keeps_sync(cb, before, sm, t, e);
        }
        state.unsubscribe(t, ctx.id);
        proof {
            lemma_sync_after_unsubscribe(cb, *ctx, sm, *state, t);
            assert(before.has_bus(t) == s0.has_bus(t));
            assert(before.subscribers(t).contains(c0.sid()));
            assert(before.has_bus(t));
            assert(before.topics()[t] == s0.topics()[t]);
            assert(state.queues(t) =~= published(s0.queues(t), e, s0.cap(t)).remove(c0.sid()));
            assert(left_by(s0, *state, t, c0.sid(), e));
            assert forall|u: i32| #[trigger] c0.joined(u) && !ctx.joined(u) implies exists|e2: WsEnvelope|
                is_event(e2, "messaging"@, "user_left"@, c0.user(), u) && left_by(s0, *state, u, c0.sid(), e2) by {
                if u != t {
                    lemma_others(before, sm, t, u);
                    lemma_others(sm, *state, t, u);
                    assert(!cb.joined(u));
                    let e2 = choose|e2: WsEnvelope|
                        is_event(e2, "messaging"@, "user_left"@, c0.user(), u) && left_by(s0, before, u, c0.sid(), e2);
                    assert(left_by(s0, *state, u, c0.sid(), e2));
                } else {
                    assert(is_event(e, "messaging"@, "user_left"@, c0.user(), t));
                }
            }
            assert forall|u: i32| !(#[trigger] c0.joined(u)) || ctx.joined(u) implies {
                &&& state.has_bus(u) == s0.has_bus(u)
                &&& state.has_bus(u) ==> state.topics()[u] == s0.topics()[u]
            } by {
                assert(u != t);
                lemma_others(before, sm, t, u);
                lemma_others(sm, *state, t, u);
                assert(!c0.joined(u) || cb.joined(u));
            }
        }
    }
    proof {
        assert(ctx.topics() =~= Seq::<i32>::empty());
    }
}

/// Topics other than `t` keep their buses when only `t`'s changes.
pub proof fn lemma_others(s0: WsState, s1: WsState, t: i32, u: i32)
    requires
        s1.others(t) == s0.others(t),
        u != t,
    ensures
        s1.has_bus(u) == s0.has_bus(u),
        s1.queues(u) == s0.queues(u),
        s1.lags(u) == s0.lags(u),
        s1.has_bus(u) ==> s1.topics()[u] == s0.topics()[u],
{
    assert(s1.topics().remove(t).contains_key(u) == s1.topics().contains_key(u));
    assert(s0.topics().remove(t).contains_key(u) == s0.topics().contains_key(u));
    if s1.has_bus(u) {
        assert(s1.topics().remove(t)[u] == s1.topics()[u]);
        assert(s0.topics().remove(t)[u] == s0.topics()[u]);
    }
}

/// A publish changes no subscription.
proof fn lemma_publish_keeps_sync(c: WsContext, s0: WsState, s1: WsState, t: i32, e: WsEnvelope)
    requires
        in_sync(c, s0),
        published_to(s0, s1, t, e),
    ensures
        in_sync(c, s1),
        forall|u: i32| #[trigger] s1.subscribers(u) == s0.subscribers(u),
{
    assert forall|u: i32| #[trigger] s1.subscribers(u) == s0.subscribers(u) by {
        if u != t {
            lemma_others(s0, s1, t, u);
        } else if s0.has_bus(t) {
            assert(s1.queues(t).dom() =~= s0.queues(t).dom());
        }
    }
}

proof fn lemma_sync_after_subscribe(c0: WsContext, c1: WsContext, s0: WsState, s1: WsState, t: i32)
    requires
        in_sync(c0, s0),
        subscribed_to(s0, s1, t, c0.sid()),
        c1.sid() == c0.sid(),
        c1.topics() == c0.topics().push(t),
        c0.wf(),
        !c0.joined(t),
    ensures
        in_sync(c1, s1),
        c1.wf(),
{
    assert forall|u: i32| #[trigger] s1.subscribers(u).contains(c1.sid()) <==> c1.topics().contains(u) by {
        if u != t {
            lemma_others(s0, s1, t, u);
            if c0.topics().contains(u) {
                let j = c0.topics().index_of(u);
                assert(c1.topics()[j] == u);
            }
            if c1.topics().contains(u) {
                let j = c1.topics().index_of(u);
                assert(j < c0.topics().len());
                assert(c0.topics()[j] == u);
            }
        } else {
            assert(c1.topics()[c0.topics().len() as int] == t);
        }
    }
}

proof fn lemma_sync_after_unsubscribe(c0: WsContext, c1: WsContext, s0: WsState, s1: WsState, t: i32)
    requires
        in_sync(c0, s0),
        unsubscribed_from(s0, s1, t, c0.sid()),
        c1.sid() == c0.sid(),
        forall|u: i32| #[trigger] c1.joined(u) <==> (c0.joined(u) && u != t),
    ensures
        in_sync(c1, s1),
{
    assert forall|u: i32| #[trigger] s1.subscribers(u).contains(c1.sid()) <==> c1.topics().contains(u) by {
        assert(c1.joined(u) <==> (c0.joined(u) && u != t));
        if u != t {
            lemma_others(s0, s1, t, u);
        }
    }
}

/// Removing one element of a sequence without duplicates removes exactly that value.
proof fn lemma_remove_unique(v: Seq<i32>, i: int)
    requires
        0 <= i < v.len(),
        v.no_duplicates(),
    ensures
        v.remove(i).no_duplicates(),
        forall|u: i32| #[trigger] v.remove(i).contains(u) <==> (v.contains(u) && u != v[i]),
{
    let w = v.remove(i);
    assert forall|a: int, b: int| 0 <= a < b < w.len() implies w[a] != w[b] by {
        let a2 = if a < i { a } else { a + 1 };
        let b2 = if b < i { b } else { b + 1 };
        assert(w[a] == v[a2] && w[b] == v[b2]);
    }
    assert forall|u: i32| #[trigger] w.contains(u) <==> (v.contains(u) && u != v[i]) by {
        if w.contains(u) {
            let j = w.index_of(u);
            let j2 = if j < i { j } else { j + 1 };
            assert(v[j2] == u);
            assert(j2 != i);
        }
        if v.contains(u) && u != v[i] {
            let j = v.index_of(u);
            if j < i {
                assert(w[j] == u);
            } else {
                assert(j != i);
                assert(w[j - 1] == u);
            }
        }
    }
}

} // verus!
