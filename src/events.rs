use vstd::prelude::*;

use crate::json::{str_eq, JsonValue};
use crate::payload::{
    get_str, message_of, message_spec, new_message_of, new_message_spec, presence_of, presence_spec,
    str_field, thread_of, thread_spec, Message, NewMessage,
};

verus! {

/// An event read with the payload type of its event type.
#[derive(Clone, Debug, PartialEq, Eq)]
pub enum WsMessage {
    JoinThread { thread_id: i32 },
    LeaveThread { thread_id: i32 },
    Typing { thread_id: i32 },
    StopTyping { thread_id: i32 },
    CreateMessage(NewMessage),
    UserJoined { username: String, thread_id: i32 },
    UserLeft { username: String, thread_id: i32 },
    UserTyping { username: String, thread_id: i32 },
    UserStoppedTyping { username: String, thread_id: i32 },
    MessageCreated(Message),
    Error { message: String },
}

/// The thread event of type `kind` on thread `t`, if `kind` is a client thread event type.
pub open spec fn thread_event(kind: Seq<char>, t: i32) -> Option<WsMessage> {
    if kind == "join_thread"@ {
        Some(WsMessage::JoinThread { thread_id: t })
    } else if kind == "leave_thread"@ {
        Some(WsMessage::LeaveThread { thread_id: t })
    } else if kind == "typing"@ {
        Some(WsMessage::Typing { thread_id: t })
    } else if kind == "stop_typing"@ {
        Some(WsMessage::StopTyping { thread_id: t })
    } else {
        None
    }
}

/// The presence event of type `kind` for user `u` on thread `t`, if `kind` is a presence type.
pub open spec fn presence_event(kind: Seq<char>, u: String, t: i32) -> Option<WsMessage> {
    if kind == "user_joined"@ {
        Some(WsMessage::UserJoined { username: u, thread_id: t })
    } else if kind == "user_left"@ {
        Some(WsMessage::UserLeft { username: u, thread_id: t })
    } else if kind == "user_typing"@ {
        Some(WsMessage::UserTyping { username: u, thread_id: t })
    } else if kind == "user_stopped_typing"@ {
        Some(WsMessage::UserStoppedTyping { username: u, thread_id: t })
    } else {
        None
    }
}

pub open spec fn is_thread_kind(kind: Seq<char>) -> bool {
    kind == "join_thread"@ || kind == "leave_thread"@ || kind == "typing"@ || kind == "stop_typing"@
}

pub open spec fn is_user_kind(kind: Seq<char>) -> bool {
    kind == "user_joined"@ || kind == "user_left"@ || kind == "user_typing"@ || kind
        == "user_stopped_typing"@
}

/// The typed event that type `kind` with payload `p` is; `None` for an
/// unknown type or a payload that does not fit it.
pub open spec fn parse_spec(kind: Seq<char>, p: JsonValue) -> Option<WsMessage> {
    if is_thread_kind(kind) {
        match thread_spec(p) {
            Some(t) => thread_event(kind, t),
            None => None,
        }
    } else if is_user_kind(kind) {
        match presence_spec(p) {
            Some((u, t)) => presence_event(kind, u, t),
            None => None,
        }
    } else if kind == "create_message"@ {
        match new_message_spec(p) {
            Some(m) => Some(WsMessage::CreateMessage(m)),
            None => None,
        }
    } else if kind == "message_created"@ {
        match message_spec(p) {
            Some(m) => Some(WsMessage::MessageCreated(m)),
            None => None,
        }
    } else if kind == "error"@ {
        match str_field(p, "message"@) {
            Some(s) => Some(WsMessage::Error { message: s }),
            None => None,
        }
    } else {
        None
    }
}

impl WsMessage {
    /// Reads the payload `p` of an event of type `kind`.
    pub fn parse(kind: &str, p: &JsonValue) -> (r: Option<WsMessage>)
        ensures
            r == parse_spec(kind@, *p),
    {
        let join = str_eq(kind, "join_thread");
        let leave = str_eq(kind, "leave_thread");
        let typing = str_eq(kind, "typing");
        let stop = str_eq(kind, "stop_typing");
        let joined = str_eq(kind, "user_joined");
        let left = str_eq(kind, "user_left");
        let user_typing = str_eq(kind, "user_typing");
        let user_stopped = str_eq(kind, "user_stopped_typing");
        if join || leave || typing || stop {
            match thread_of(p) {
                None => None,
                Some(t) => if join {
                    Some(WsMessage::JoinThread { thread_id: t })
                } else if leave {
                    Some(WsMessage::LeaveThread { thread_id: t })
                } else if typing {
                    Some(WsMessage::Typing { thread_id: t })
                } else {
                    Some(WsMessage::StopTyping { thread_id: t })
                },
            }
        } else if joined || left || user_typing || user_stopped {
            match presence_of(p) {
                None => None,
                Some((u, t)) => if joined {
                    Some(WsMessage::UserJoined { username: u, thread_id: t })
                } else if left {
                    Some(WsMessage::UserLeft { username: u, thread_id: t })
                } else if user_typing {
                    Some(WsMessage::UserTyping { username: u, thread_id: t })
                } else {
                    Some(WsMessage::UserStoppedTyping { username: u, thread_id: t })
                },
            }
        } else if str_eq(kind, "create_message") {
            match new_message_of(p) {
                Some(m) => Some(WsMessage::CreateMessage(m)),
                None => None,
            }
        } else if str_eq(kind, "message_created") {
            match message_of(p) {
                Some(m) => Some(WsMessage::MessageCreated(m)),
                None => None,
            }
        } else if str_eq(kind, "error") {
            match get_str(p, "message") {
                Some(s) => Some(WsMessage::Error { message: s }),
                None => None,
            }
        } else {
            None
        }
    }
}

} // verus!
