//! Reading a JSON object's top-level fields through `serde_json`.
use vstd::prelude::*;

verus! {

/// A top-level field of a JSON object as the runtime reads it: its name,
/// its text when it is a string and its flag when it is a boolean.
pub struct JsonField {
    pub name: String,
    pub text: Option<String>,
    pub flag: Option<bool>,
    /// The value when it is a number that fits `u64`.
    pub count: Option<u64>,
}

/// The plain value of a field: name, text, flag, count.
pub open spec fn field_view(f: JsonField) -> FieldView {
    (
        f.name@,
        match f.text {
            Some(t) => Some(t@),
            None => None,
        },
        f.flag,
        f.count,
    )
}

/// A field as plain values: name, text, flag, count.
pub type FieldView = (Seq<char>, Option<Seq<char>>, Option<bool>, Option<u64>);

/// The fields of the JSON object that `serde_json::from_str` reads from a
/// text, in the order its map keeps them, or `None` when the text is not a
/// JSON object.
pub uninterp spec fn json_object_fields(text: Seq<char>) -> Option<
    Seq<(Seq<char>, Option<Seq<char>>, Option<bool>, Option<u64>)>,
>;

/// Parses `text` with `serde_json::from_str` into a `serde_json::Value`
/// and, when it is an object, hands back its fields with string, boolean
/// and `u64` number values kept; the contract claims only that the result is the
/// one `json_object_fields` names for the text.
#[verifier::external_body]
pub(crate) fn parse_json_object(text: &str) -> (r: Option<Vec<JsonField>>)
    ensures
        match r {
            Some(fields) => json_object_fields(text@) == Some(
                fields@.map_values(|f: JsonField| field_view(f)),
            ),
            None => json_object_fields(text@) is None,
        },
{
    match serde_json::from_str::<serde_json::Value>(text) {
        Ok(serde_json::Value::Object(map)) => Some(
            map.into_iter().map(|(name, value)| match value {
                serde_json::Value::String(text) => JsonField { name, text: Some(text), flag: None, count: None },
                serde_json::Value::Bool(flag) => JsonField { name, text: None, flag: Some(flag), count: None },
                serde_json::Value::Number(n) => JsonField { name, text: None, flag: None, count: n.as_u64() },
                _ => JsonField { name, text: None, flag: None, count: None },
            }).collect(),
        ),
        _ => None,
    }
}

/// The first field with this name, from position `from` on.
pub open spec fn field_named(fields: Seq<FieldView>, name: Seq<char>, from: int) -> Option<FieldView>
    decreases fields.len() - from,
{
    if from < 0 || from >= fields.len() {
        None
    } else if fields[from].0 == name {
        Some(fields[from])
    } else {
        field_named(fields, name, from + 1)
    }
}

/// The first field with this name.
pub fn find_field<'a>(fields: &'a Vec<JsonField>, name: &str) -> (r: Option<&'a JsonField>)
    ensures
        match r {
            Some(f) => field_named(fields@.map_values(|f: JsonField| field_view(f)), name@, 0)
                == Some(field_view(*f)),
            None => field_named(fields@.map_values(|f: JsonField| field_view(f)), name@, 0) is None,
        },
{
    let ghost view = fields@.map_values(|f: JsonField| field_view(f));
    let wanted = name.to_owned();
    let mut i: usize = 0;
    while i < fields.len()
        invariant
            i <= fields@.len(),
            view == fields@.map_values(|f: JsonField| field_view(f)),
            wanted@ == name@,
            field_named(view, name@, 0) == field_named(view, name@, i as int),
        decreases fields@.len() - i,
    {
        proof {
            assert(view[i as int] == field_view(fields@[i as int]));
        }
        if fields[i].name == wanted {
            return Some(&fields[i]);
        }
        i = i + 1;
    }
    None
}

} // verus!
