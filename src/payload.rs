use vstd::prelude::*;

use crate::json::{field_spec, find_field, JsonScalar, JsonValue};

verus! {

/// A message as the persistence layer stored it.
#[derive(Clone, Debug, PartialEq, Eq)]
pub struct Message {
    pub id: i32,
    pub content: String,
    pub author_username: String,
    pub directory_id: i32,
    /// The creation time, in the text form that the store gave it.
    pub created_at: String,
    pub parent_id: Option<i32>,
}

/// What a client sends to create a message.
#[derive(Clone, Debug, PartialEq, Eq)]
pub struct NewMessage {
    pub content: String,
    pub directory_id: i32,
    pub parent_id: Option<i32>,
}

/// The scalar under `key` of an object payload.
pub open spec fn scalar_field(p: JsonValue, key: Seq<char>) -> Option<JsonScalar> {
    match p {
        JsonValue::Object(fs) => field_spec(fs@, key),
        _ => None,
    }
}

/// The `i32` under `key`, if the payload holds one there.
pub open spec fn int_field(p: JsonValue, key: Seq<char>) -> Option<i32> {
    match scalar_field(p, key) {
        Some(JsonScalar::Int(n)) => if i32::MIN <= n <= i32::MAX {
            Some(n as i32)
        } else {
            None
        },
        _ => None,
    }
}

/// The string under `key`, if the payload holds one there.
pub open spec fn str_field(p: JsonValue, key: Seq<char>) -> Option<String> {
    match scalar_field(p, key) {
        Some(JsonScalar::Str(s)) => Some(s),
        _ => None,
    }
}

/// An optional `i32` under `key`: absent or null is `Some(None)`; anything
/// but an `i32` is `None`. Only an object payload has fields.
pub open spec fn opt_int_field(p: JsonValue, key: Seq<char>) -> Option<Option<i32>> {
    match p {
        JsonValue::Object(_) => match scalar_field(p, key) {
            None => Some(None),
            Some(JsonScalar::Null) => Some(None),
            _ => match int_field(p, key) {
                Some(n) => Some(Some(n)),
                None => None,
            },
        },
        _ => None,
    }
}

/// The thread a `join_thread`, `leave_thread`, `typing` or `stop_typing` payload names.
pub open spec fn thread_spec(p: JsonValue) -> Option<i32> {
    int_field(p, "thread_id"@)
}

/// The user and thread that a presence payload names.
pub open spec fn presence_spec(p: JsonValue) -> Option<(String, i32)> {
    match (str_field(p, "username"@), int_field(p, "thread_id"@)) {
        (Some(u), Some(t)) => Some((u, t)),
        _ => None,
    }
}

/// The message a `create_message` payload asks for.
pub open spec fn new_message_spec(p: JsonValue) -> Option<NewMessage> {
    match (str_field(p, "content"@), int_field(p, "directory_id"@), opt_int_field(p, "parent_id"@)) {
        (Some(c), Some(d), Some(q)) => Some(NewMessage { content: c, directory_id: d, parent_id: q }),
        _ => None,
    }
}

/// The stored message a `message_created` payload carries.
pub open spec fn message_spec(p: JsonValue) -> Option<Message> {
    match (
        int_field(p, "id"@),
        str_field(p, "content"@),
        str_field(p, "author_username"@),
        int_field(p, "directory_id"@),
        str_field(p, "created_at"@),
        opt_int_field(p, "parent_id"@),
    ) {
        (Some(i), Some(c), Some(a), Some(d), Some(t), Some(q)) => Some(
            Message {
                id: i,
                content: c,
                author_username: a,
                directory_id: d,
                created_at: t,
                parent_id: q,
            },
        ),
        _ => None,
    }
}

/// The scalar under `key` of an object payload.
fn get_scalar<'a>(p: &'a JsonValue, key: &str) -> (r: Option<&'a JsonScalar>)
    ensures
        r matches Some(s) ==> scalar_field(*p, key@) == Some(*s),
        r is None ==> scalar_field(*p, key@) is None,
{
    match p {
        JsonValue::Object(fs) => match find_field(fs, key) {
            Some(i) => Some(&fs[i].1),
            None => None,
        },
        _ => None,
    }
}

/// The `i32` under `key`.
pub fn get_int(p: &JsonValue, key: &str) -> (r: Option<i32>)
    ensures
        r == int_field(*p, key@),
{
    match get_scalar(p, key) {
        Some(JsonScalar::Int(n)) => if i32::MIN as i64 <= *n && *n <= i32::MAX as i64 {
            Some(*n as i32)
        } else {
            None
        },
        _ => None,
    }
}

/// The string under `key`.
pub fn get_str(p: &JsonValue, key: &str) -> (r: Option<String>)
    ensures
        r == str_field(*p, key@),
{
    match get_scalar(p, key) {
        Some(JsonScalar::Str(s)) => Some(s.clone()),
        _ => None,
    }
}

/// The optional `i32` under `key`.
pub fn get_opt_int(p: &JsonValue, key: &str) -> (r: Option<Option<i32>>)
    ensures
        r == opt_int_field(*p, key@),
{
    match p {
        JsonValue::Object(_) => match get_scalar(p, key) {
            None => Some(None),
            Some(JsonScalar::Null) => Some(None),
            _ => match get_int(p, key) {
                Some(n) => Some(Some(n)),
                None => None,
            },
        },
        _ => None,
    }
}

/// The thread a payload names.
pub fn thread_of(p: &JsonValue) -> (r: Option<i32>)
    ensures
        r == thread_spec(*p),
{
    get_int(p, "thread_id")
}

/// The user and thread a presence payload names.
pub fn presence_of(p: &JsonValue) -> (r: Option<(String, i32)>)
    ensures
        r == presence_spec(*p),
{
    match (get_str(p, "username"), get_int(p, "thread_id")) {
        (Some(u), Some(t)) => Some((u, t)),
        _ => None,
    }
}

/// The message a `create_message` payload asks for.
pub fn new_message_of(p: &JsonValue) -> (r: Option<NewMessage>)
    ensures
        r == new_message_spec(*p),
{
    match (get_str(p, "content"), get_int(p, "directory_id"), get_opt_int(p, "parent_id")) {
        (Some(c), Some(d), Some(q)) => Some(NewMessage { content: c, directory_id: d, parent_id: q }),
        _ => None,
    }
}

/// The stored message a `message_created` payload carries.
pub fn message_of(p: &JsonValue) -> (r: Option<Message>)
    ensures
        r == message_spec(*p),
{
    let i = get_int(p, "id");
    let c = get_str(p, "content");
    let a = get_str(p, "author_username");
    let d = get_int(p, "directory_id");
    let t = get_str(p, "created_at");
    let q = get_opt_int(p, "parent_id");
    match (i, c, a, d, t, q) {
        (Some(i), Some(c), Some(a), Some(d), Some(t), Some(q)) => Some(
            Message {
                id: i,
                content: c,
                author_username: a,
                directory_id: d,
                created_at: t,
                parent_id: q,
            },
        ),
        _ => None,
    }
}

/// A field list finds `key` at its first field of that name.
pub proof fn lemma_field_at<V>(fs: Seq<(String, V)>, i: int, key: Seq<char>)
    requires
        0 <= i < fs.len(),
        fs[i].0@ == key,
        forall|j: int| 0 <= j < i ==> #[trigger] fs[j].0@ != key,
    ensures
        field_spec(fs, key) == Some(fs[i].1),
    decreases i,
{
    if i > 0 {
        assert forall|j: int| 0 <= j < i - 1 implies #[trigger] fs.drop_first()[j].0@ != key by {
            assert(fs.drop_first()[j] == fs[j + 1]);
        }
        lemma_field_at(fs.drop_first(), i - 1, key);
    }
}

/// A string field named `key`.
fn str_entry(key: &str, v: String) -> (r: (String, JsonScalar))
    ensures
        r.0@ == key@,
        r.1 == JsonScalar::Str(v),
{
    (String::from_str(key), JsonScalar::Str(v))
}

/// An integer field named `key`.
fn int_entry(key: &str, v: i32) -> (r: (String, JsonScalar))
    ensures
        r.0@ == key@,
        r.1 == JsonScalar::Int(v as i64),
{
    (String::from_str(key), JsonScalar::Int(v as i64))
}

/// The payload that reports `username` acting on `thread_id`.
pub fn presence_payload(username: String, thread_id: i32) -> (r: JsonValue)
    ensures
        presence_spec(r) == Some((username, thread_id)),
{
    let mut fs: Vec<(String, JsonScalar)> = Vec::new();
    fs.push(str_entry("username", username));
    fs.push(int_entry("thread_id", thread_id));
    proof {
        reveal_strlit("username");
        reveal_strlit("thread_id");
        assert("username"@.len() == 8 && "thread_id"@.len() == 9);
        lemma_field_at(fs@, 0, "username"@);
        lemma_field_at(fs@, 1, "thread_id"@);
    }
    JsonValue::Object(fs)
}

/// The payload that carries a stored message.
pub fn message_payload(m: Message) -> (r: JsonValue)
    ensures
        message_spec(r) == Some(m),
{
    let mut fs: Vec<(String, JsonScalar)> = Vec::new();
    fs.push(int_entry("id", m.id));
    fs.push(str_entry("content", m.content));
    fs.push(str_entry("author_username", m.author_username));
    fs.push(int_entry("directory_id", m.directory_id));
    fs.push(str_entry("created_at", m.created_at));
    match m.parent_id {
        Some(q) => fs.push(int_entry("parent_id", q)),
        None => fs.push((String::from_str("parent_id"), JsonScalar::Null)),
    }
    proof {
        reveal_strlit("id");
        reveal_strlit("content");
        reveal_strlit("author_username");
        reveal_strlit("directory_id");
        reveal_strlit("created_at");
        reveal_strlit("parent_id");
        let s = fs@;
        assert("id"@.len() == 2 && "content"@.len() == 7 && "author_username"@.len() == 15);
        assert("directory_id"@.len() == 12 && "created_at"@.len() == 10 && "parent_id"@.len() == 9);
        lemma_field_at(s, 0, "id"@);
        lemma_field_at(s, 1, "content"@);
        lemma_field_at(s, 2, "author_username"@);
        lemma_field_at(s, 3, "directory_id"@);
        lemma_field_at(s, 4, "created_at"@);
        lemma_field_at(s, 5, "parent_id"@);
    }
    JsonValue::Object(fs)
}

/// The payload of an error reply: `{message}`.
pub fn error_payload(message: String) -> (r: JsonValue)
    ensures
        str_field(r, "message"@) == Some(message),
{
    let mut fs: Vec<(String, JsonScalar)> = Vec::new();
    fs.push(str_entry("message", message));
    proof {
        lemma_field_at(fs@, 0, "message"@);
    }
    JsonValue::Object(fs)
}

} // verus!
