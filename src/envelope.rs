use vstd::prelude::*;

use crate::json::{field_spec, find_field, JsonScalar, JsonValue};

verus! {

/// The wire unit: which module handles it, the event type, and its payload.
#[derive(Clone, Debug, PartialEq, Eq)]
pub struct WsEnvelope {
    pub module: String,
    pub kind: String,
    pub payload: JsonValue,
}

/// A client text frame as the JSON layer read it.
#[derive(Clone, Debug, PartialEq, Eq)]
pub enum Frame {
    /// The frame is a JSON object with these fields.
    Object(Vec<(String, JsonValue)>),
    /// The frame is JSON, but not an object.
    NotObject,
    /// The frame is not JSON; the text says why.
    Malformed(String),
}

/// One of the two fields that every envelope must carry.
#[derive(Clone, Copy, Debug, PartialEq, Eq)]
pub enum EnvelopeField {
    Module,
    Type,
}

/// Why a frame is not an envelope.
#[derive(Clone, Debug, PartialEq, Eq)]
pub enum DecodeError {
    Malformed(String),
    NotAnObject,
    MissingField(EnvelopeField),
    NotAString(EnvelopeField),
}

/// The string held by a value, if it is a JSON string.
pub open spec fn as_string(v: Option<JsonValue>) -> Option<String> {
    match v {
        Some(JsonValue::Scalar(JsonScalar::Str(s))) => Some(s),
        _ => None,
    }
}

/// What decoding a frame gives: the envelope, or the first shape error found.
pub open spec fn decode_spec(frame: Frame) -> Result<WsEnvelope, DecodeError> {
    match frame {
        Frame::Malformed(t) => Err(DecodeError::Malformed(t)),
        Frame::NotObject => Err(DecodeError::NotAnObject),
        Frame::Object(fs) => {
            let m = field_spec(fs@, "module"@);
            let k = field_spec(fs@, "type"@);
            if m is None {
                Err(DecodeError::MissingField(EnvelopeField::Module))
            } else if as_string(m) is None {
                Err(DecodeError::NotAString(EnvelopeField::Module))
            } else if k is None {
                Err(DecodeError::MissingField(EnvelopeField::Type))
            } else if as_string(k) is None {
                Err(DecodeError::NotAString(EnvelopeField::Type))
            } else {
                Ok(
                    WsEnvelope {
                        module: as_string(m).unwrap(),
                        kind: as_string(k).unwrap(),
                        payload: match field_spec(fs@, "payload"@) {
                            Some(p) => p,
                            None => JsonValue::Scalar(JsonScalar::Null),
                        },
                    },
                )
            }
        },
    }
}

/// The string held by field `i`, if it is a JSON string.
fn string_at(fields: &Vec<(String, JsonValue)>, i: usize) -> (r: Option<String>)
    requires
        i < fields@.len(),
    ensures
        r == as_string(Some(fields@[i as int].1)),
{
    match &fields[i].1 {
        JsonValue::Scalar(JsonScalar::Str(s)) => Some(s.clone()),
        _ => None,
    }
}

impl WsEnvelope {
    /// Builds an envelope from its three parts.
    pub fn new(module: &str, kind: &str, payload: JsonValue) -> (r: WsEnvelope)
        ensures
            r.module@ == module@,
            r.kind@ == kind@,
            r.payload == payload,
    {
        WsEnvelope { module: String::from_str(module), kind: String::from_str(kind), payload }
    }

    /// Reads an envelope out of a frame: `module` and `type` must be strings,
    /// a missing `payload` is null, and any other field is ignored.
    pub fn decode(frame: Frame) -> (r: Result<WsEnvelope, DecodeError>)
        ensures
            r == decode_spec(frame),
    {
        match frame {
            Frame::Malformed(t) => Err(DecodeError::Malformed(t)),
            Frame::NotObject => Err(DecodeError::NotAnObject),
            Frame::Object(mut fields) => {
                let module = match find_field(&fields, "module") {
                    None => {
                        return Err(DecodeError::MissingField(EnvelopeField::Module));
                    },
                    Some(i) => match string_at(&fields, i) {
                        None => {
                            return Err(DecodeError::NotAString(EnvelopeField::Module));
                        },
                        Some(s) => s,
                    },
                };
                let kind = match find_field(&fields, "type") {
                    None => {
                        return Err(DecodeError::MissingField(EnvelopeField::Type));
                    },
                    Some(i) => match string_at(&fields, i) {
                        None => {
                            return Err(DecodeError::NotAString(EnvelopeField::Type));
                        },
                        Some(s) => s,
                    },
                };
                let payload = match find_field(&fields, "payload") {
                    None => JsonValue::Scalar(JsonScalar::Null),
                    Some(i) => {
                        let (_, p) = fields.remove(i);
                        p
                    },
                };
                Ok(WsEnvelope { module, kind, payload })
            },
        }
    }

    /// The frame that carries this envelope.
    pub fn encode(self) -> (r: Vec<(String, JsonValue)>)
        ensures
            decode_spec(Frame::Object(r)) == Ok::<WsEnvelope, DecodeError>(self),
    {
        let mut r: Vec<(String, JsonValue)> = Vec::new();
        r.push((String::from_str("module"), JsonValue::Scalar(JsonScalar::Str(self.module))));
        r.push((String::from_str("type"), JsonValue::Scalar(JsonScalar::Str(self.kind))));
        r.push((String::from_str("payload"), self.payload));
        proof {
            reveal_strlit("module");
            reveal_strlit("type");
            reveal_strlit("payload");
            let s = r@;
            assert("module"@.len() == 6 && "type"@.len() == 4 && "payload"@.len() == 7);
            assert(s[0].0@ != "type"@ && s[0].0@ != "payload"@ && s[1].0@ != "payload"@);
            assert(s.drop_first()[0] == s[1] && s.drop_first().drop_first()[0] == s[2]);
            assert(s.drop_first().drop_first().drop_first().len() == 0);
            assert(field_spec(s, "module"@) == Some(s[0].1));
            assert(field_spec(s.drop_first(), "type"@) == Some(s[1].1));
            assert(field_spec(s, "type"@) == Some(s[1].1));
            assert(field_spec(s.drop_first().drop_first(), "payload"@) == Some(s[2].1));
            assert(field_spec(s.drop_first(), "payload"@) == Some(s[2].1));
            assert(field_spec(s, "payload"@) == Some(s[2].1));
        }
        r
    }
}

} // verus!
