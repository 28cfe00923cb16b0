use vstd::prelude::*;

use crate::json::{field_spec, find_field, str_eq, JsonValue};
use crate::payload::{get_str, str_field};

verus! {

/// A user account as the store holds it.
#[derive(Clone, Debug, PartialEq, Eq)]
pub struct User {
    pub username: String,
    pub name: String,
    pub password: String,
}

/// What a client logs in or signs up with.
#[derive(Clone, Debug, PartialEq, Eq)]
pub struct Credentials {
    pub username: String,
    pub password: String,
}

/// The answer to a successful login or sign-up.
#[derive(Clone, Debug, PartialEq, Eq)]
pub struct AuthResponse {
    pub user: User,
    pub token: String,
}

/// The user record a payload carries: `username`, `name` and `password`, all strings.
pub open spec fn user_spec(p: JsonValue) -> Option<User> {
    match (str_field(p, "username"@), str_field(p, "name"@), str_field(p, "password"@)) {
        (Some(u), Some(n), Some(w)) => Some(User { username: u, name: n, password: w }),
        _ => None,
    }
}

/// Reads the user record a payload carries.
pub fn user_of(p: &JsonValue) -> (r: Option<User>)
    ensures
        r == user_spec(*p),
{
    match (get_str(p, "username"), get_str(p, "name"), get_str(p, "password")) {
        (Some(u), Some(n), Some(w)) => Some(User { username: u, name: n, password: w }),
        _ => None,
    }
}

/// `s` without the leading `prefix`, if it starts with it.
pub open spec fn strip_prefix_spec(s: Seq<char>, prefix: Seq<char>) -> Option<Seq<char>> {
    if prefix.len() <= s.len() && s.subrange(0, prefix.len() as int) == prefix {
        Some(s.subrange(prefix.len() as int, s.len() as int))
    } else {
        None
    }
}

/// The rest of `s` after `prefix`, when `s` starts with it.
fn strip_prefix<'a>(s: &'a str, prefix: &str) -> (r: Option<&'a str>)
    ensures
        match r {
            Some(rest) => strip_prefix_spec(s@, prefix@) == Some(rest@),
            None => strip_prefix_spec(s@, prefix@) is None,
        },
{
    let n = s.unicode_len();
    let k = prefix.unicode_len();
    if k <= n && str_eq(s.substring_char(0, k), prefix) {
        Some(s.substring_char(k, n))
    } else {
        None
    }
}

/// The bearer token of an `Authorization` header value.
pub fn extract_token_from_header(authorization: Option<&str>) -> (r: Option<String>)
    ensures
        match authorization {
            None => r is None,
            Some(h) => match strip_prefix_spec(h@, "Bearer "@) {
                None => r is None,
                Some(t) => r matches Some(x) && x@ == t,
            },
        },
{
    match authorization {
        None => None,
        Some(h) => match strip_prefix(h, "Bearer ") {
            None => None,
            Some(t) => Some(String::from_str(t)),
        },
    }
}

/// The `token` parameter of a request's query.
pub fn extract_token_from_query(query: &Vec<(String, String)>) -> (r: Option<String>)
    ensures
        r == field_spec(query@, "token"@),
{
    match find_field(query, "token") {
        Some(i) => Some(query[i].1.clone()),
        None => None,
    }
}

} // verus!
