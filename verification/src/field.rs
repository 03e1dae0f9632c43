use vstd::prelude::*;

verus! {

/// What a JSON object holds under one key, as far as this library reads it.
#[derive(Debug, Clone, PartialEq, Eq)]
pub enum JsonField {
    /// The key is absent.
    Missing,
    /// The key holds a string.
    Text(String),
    /// The key holds something other than a string.
    Other,
}

/// The string under the key, when the key holds one.
pub open spec fn field_text(f: JsonField) -> Option<Seq<char>> {
    match f {
        JsonField::Text(s) => Some(s@),
        _ => None,
    }
}

/// The string under the key, or `default` when the key holds none.
pub open spec fn text_or(f: JsonField, default: Seq<char>) -> Seq<char> {
    match f {
        JsonField::Text(s) => s@,
        _ => default,
    }
}

pub fn field_as_text(f: &JsonField) -> (r: Option<String>)
    ensures
        r.deep_view() == field_text(*f),
{
    match f {
        JsonField::Text(s) => Some(s.clone()),
        _ => None,
    }
}

} // verus!
