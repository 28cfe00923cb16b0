use vstd::prelude::*;

verus! {

/// A JSON value that is not an object.
#[derive(Clone, Debug, PartialEq, Eq)]
pub enum JsonScalar {
    Null,
    Bool(bool),
    Int(i64),
    Str(String),
    /// Any other value (a non-integer number, an array, a nested object), kept as its JSON text.
    Raw(String),
}

/// A payload value: a scalar, or an object whose fields are scalars.
#[derive(Clone, Debug, PartialEq, Eq)]
pub enum JsonValue {
    Scalar(JsonScalar),
    Object(Vec<(String, JsonScalar)>),
}

/// The value held under `key` in a field list: that of the first field of that name.
pub open spec fn field_spec<V>(fields: Seq<(String, V)>, key: Seq<char>) -> Option<V>
    decreases fields.len(),
{
    if fields.len() == 0 {
        None
    } else if fields[0].0@ == key {
        Some(fields[0].1)
    } else {
        field_spec(fields.drop_first(), key)
    }
}

/// Whether two strings hold the same characters.
pub fn str_eq(a: &str, b: &str) -> (r: bool)
    ensures
        r == (a@ == b@),
{
    let x = String::from_str(a);
    let y = String::from_str(b);
    x == y
}

/// Index of the first field named `key`, if any.
pub fn find_field<V>(fields: &Vec<(String, V)>, key: &str) -> (r: Option<usize>)
    ensures
        match r {
            Some(i) => i < fields@.len() && field_spec(fields@, key@) == Some(fields@[i as int].1),
            None => field_spec(fields@, key@) is None,
        },
{
    let mut i: usize = 0;
    assert(fields@.subrange(0, fields@.len() as int) =~= fields@);
    while i < fields.len()
        invariant
            i <= fields@.len(),
            field_spec(fields@, key@) == field_spec(fields@.subrange(i as int, fields@.len() as int), key@),
        decreases fields@.len() - i,
    {
        let ghost rest = fields@.subrange(i as int, fields@.len() as int);
        assert(rest.drop_first() =~= fields@.subrange(i + 1, fields@.len() as int));
        if str_eq(fields[i].0.as_str(), key) {
            return Some(i);
        }
        i = i + 1;
    }
    None
}

} // verus!
