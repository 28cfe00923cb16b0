use vstd::prelude::*;

use crate::envelope::WsEnvelope;
use crate::json::{str_eq, JsonValue};
use crate::auth::{user_of, user_spec};
use crate::payload::{error_payload, presence_of, presence_payload, presence_spec, str_field};

verus! {

/// Presence and typing events, and message creation.
#[derive(Clone, Copy, Debug, PartialEq, Eq)]
pub struct MessagingModule;

/// The same events as `MessagingModule`, under the module name `messages`.
#[derive(Clone, Copy, Debug, PartialEq, Eq)]
pub struct MessagesModule;

/// User account events; clients send it nothing that it acts on.
#[derive(Clone, Copy, Debug, PartialEq, Eq)]
pub struct UsersModule;

/// The closed set of module handlers; the registry routes envelopes to the
/// messaging module alone.
#[derive(Clone, Copy, Debug, PartialEq, Eq)]
pub enum WsModule {
    Messaging(MessagingModule),
    Messages(MessagesModule),
    Users(UsersModule),
}

/// The module registered under `name`.
pub open spec fn lookup_spec(name: Seq<char>) -> Option<WsModule> {
    if name == "messaging"@ {
        Some(WsModule::Messaging(MessagingModule))
    } else {
        None
    }
}

/// The event types that report a user's own presence or typing.
pub open spec fn is_presence_kind(kind: Seq<char>) -> bool {
    kind == "user_typing"@ || kind == "user_stopped_typing"@ || kind == "user_joined"@ || kind
        == "user_left"@
}

/// Whether module `m` lets an outgoing envelope reach the session of
/// `username`: a presence event of the user's own, or a `user_created` of
/// the user's own, does not; a payload that cannot be read does (delivery
/// fails open).
pub open spec fn module_delivers(m: WsModule, username: Seq<char>, e: WsEnvelope) -> bool {
    match m {
        WsModule::Users(_) => if e.kind@ == "user_created"@ {
            match user_spec(e.payload) {
                Some(u) => u.username@ != username,
                None => true,
            }
        } else {
            true
        },
        _ => if is_presence_kind(e.kind@) {
            match presence_spec(e.payload) {
                Some((u, _)) => u@ != username,
                None => true,
            }
        } else {
            true
        },
    }
}

/// Whether an outgoing envelope reaches the session of `username`: its
/// module decides; an envelope of no registered module is delivered.
pub open spec fn deliver_spec(username: Seq<char>, e: WsEnvelope) -> bool {
    match lookup_spec(e.module@) {
        Some(m) => module_delivers(m, username, e),
        None => true,
    }
}

/// `e` reports that `user` did `kind` on thread `t`, from module `module`.
pub open spec fn is_event(e: WsEnvelope, module: Seq<char>, kind: Seq<char>, user: Seq<char>, t: i32) -> bool {
    &&& e.module@ == module
    &&& e.kind@ == kind
    &&& presence_spec(e.payload) matches Some((u, tt)) && u@ == user && tt == t
}

/// `e` is the error reply that carries `text`.
pub open spec fn is_error_reply(e: WsEnvelope, text: Seq<char>) -> bool {
    &&& e.module@ == "system"@
    &&& e.kind@ == "error"@
    &&& str_field(e.payload, "message"@) matches Some(s) && s@ == text
}

/// The module registered under `name`, if any.
pub fn lookup(name: &str) -> (r: Option<WsModule>)
    ensures
        r == lookup_spec(name@),
{
    if str_eq(name, "messaging") {
        Some(WsModule::Messaging(MessagingModule))
    } else {
        None
    }
}

/// Whether `kind` is a presence or typing event type.
pub fn presence_kind(kind: &str) -> (r: bool)
    ensures
        r == is_presence_kind(kind@),
{
    str_eq(kind, "user_typing") || str_eq(kind, "user_stopped_typing") || str_eq(kind, "user_joined")
        || str_eq(kind, "user_left")
}

/// The event that reports `username` doing `kind` on thread `t`.
pub fn event(module: &str, kind: &str, username: String, t: i32) -> (r: WsEnvelope)
    ensures
        is_event(r, module@, kind@, username@, t),
{
    WsEnvelope::new(module, kind, presence_payload(username, t))
}

/// The error reply that carries `text`, for the originating connection only.
pub fn error_reply(text: String) -> (r: WsEnvelope)
    ensures
        is_error_reply(r, text@),
{
    WsEnvelope::new("system", "error", error_payload(text))
}

/// Whether a presence payload names someone other than `username`; unreadable ones pass.
fn presence_from_other(username: &str, payload: &JsonValue) -> (r: bool)
    ensures
        r == match presence_spec(*payload) {
            Some((u, _)) => u@ != username@,
            None => true,
        },
{
    match presence_of(payload) {
        Some((u, _)) => !str_eq(u.as_str(), username),
        None => true,
    }
}

impl MessagingModule {
    pub fn name(&self) -> (r: &'static str)
        ensures
            r@ == "messaging"@,
    {
        "messaging"
    }

    /// A presence event of the user's own is not echoed back.
    pub fn should_deliver(&self, username: &str, env: &WsEnvelope) -> (r: bool)
        ensures
            r == (!is_presence_kind(env.kind@) || match presence_spec(env.payload) {
                Some((u, _)) => u@ != username@,
                None => true,
            }),
    {
        !presence_kind(env.kind.as_str()) || presence_from_other(username, &env.payload)
    }
}

impl MessagesModule {
    pub fn name(&self) -> (r: &'static str)
        ensures
            r@ == "messages"@,
    {
        "messages"
    }

    /// A presence event of the user's own is not echoed back.
    pub fn should_deliver(&self, username: &str, env: &WsEnvelope) -> (r: bool)
        ensures
            r == (!is_presence_kind(env.kind@) || match presence_spec(env.payload) {
                Some((u, _)) => u@ != username@,
                None => true,
            }),
    {
        !presence_kind(env.kind.as_str()) || presence_from_other(username, &env.payload)
    }
}

impl UsersModule {
    pub fn name(&self) -> (r: &'static str)
        ensures
            r@ == "users"@,
    {
        "users"
    }

    /// A user's own `user_created` is not echoed back; a payload that does
    /// not read as a user is delivered.
    pub fn should_deliver(&self, username: &str, env: &WsEnvelope) -> (r: bool)
        ensures
            r == (env.kind@ != "user_created"@ || match user_spec(env.payload) {
                Some(u) => u.username@ != username@,
                None => true,
            }),
    {
        if !str_eq(env.kind.as_str(), "user_created") {
            return true;
        }
        match user_of(&env.payload) {
            Some(u) => !str_eq(u.username.as_str(), username),
            None => true,
        }
    }
}

impl WsModule {
    /// The name the module is registered under.
    pub open spec fn name_spec(self) -> Seq<char> {
        match self {
            WsModule::Messaging(_) => "messaging"@,
            WsModule::Messages(_) => "messages"@,
            WsModule::Users(_) => "users"@,
        }
    }

    pub fn name(&self) -> (r: &'static str)
        ensures
            r@ == self.name_spec(),
    {
        match self {
            WsModule::Messaging(m) => m.name(),
            WsModule::Messages(m) => m.name(),
            WsModule::Users(m) => m.name(),
        }
    }

    /// Whether the module lets `env` reach the session of `username`.
    pub fn should_deliver(&self, username: &str, env: &WsEnvelope) -> (r: bool)
        ensures
            r == module_delivers(*self, username@, *env),
    {
        match self {
            WsModule::Messaging(m) => m.should_deliver(username, env),
            WsModule::Messages(m) => m.should_deliver(username, env),
            WsModule::Users(m) => m.should_deliver(username, env),
        }
    }
}

/// Whether an outgoing envelope reaches the session of `username`.
pub fn should_deliver(username: &str, env: &WsEnvelope) -> (r: bool)
    ensures
        r == deliver_spec(username@, *env),
{
    match lookup(env.module.as_str()) {
        Some(m) => m.should_deliver(username, env),
        None => true,
    }
}

/// The registry holds exactly the messaging module, under its own name.
pub proof fn lemma_registry_names(name: Seq<char>)
    ensures
        lookup_spec(name) matches Some(m) ==> m == WsModule::Messaging(MessagingModule)
            && m.name_spec() == name,
        lookup_spec(WsModule::Messaging(MessagingModule).name_spec()) is Some,
{
}

} // verus!
