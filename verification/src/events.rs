//! The type tag of a stored event.
use vstd::prelude::*;

use crate::invocation::JsonValue;
use crate::text::same_text;

verus! {

/// The first field of an object named `key`.
pub open spec fn field_named(fields: Seq<(String, JsonValue)>, key: Seq<char>) -> Option<JsonValue>
    decreases fields.len(),
{
    if fields.len() == 0 {
        None
    } else if fields[0].0@ == key {
        Some(fields[0].1)
    } else {
        field_named(fields.drop_first(), key)
    }
}

/// The type tag in the JSON form of an event: its `type` field when that
/// is a string, else `unknown`; also `unknown` when the event has no JSON
/// form (`None`) or the form is not an object.
pub open spec fn type_tag(json: Option<JsonValue>) -> Seq<char> {
    match json {
        Some(JsonValue::Object(fields, _)) => match field_named(fields@, "type"@) {
            Some(JsonValue::String(t)) => t@,
            _ => "unknown"@,
        },
        _ => "unknown"@,
    }
}

/// The type tag of an event, from its JSON form.
pub fn event_type(json: &Option<JsonValue>) -> (r: String)
    ensures
        r@ == type_tag(*json),
{
    match json {
        Some(JsonValue::Object(fields, _)) => {
            let mut i: usize = 0;
            proof {
                assert(fields@.skip(0) =~= fields@);
            }
            while i < fields.len()
                invariant
                    i <= fields@.len(),
                    type_tag(*json) == match field_named(fields@, "type"@) {
                        Some(JsonValue::String(t)) => t@,
                        _ => "unknown"@,
                    },
                    field_named(fields@, "type"@) == field_named(fields@.skip(i as int), "type"@),
                decreases fields@.len() - i,
            {
                proof {
                    assert(fields@.skip(i as int).drop_first() =~= fields@.skip(i + 1));
                    assert(fields@.skip(i as int)[0] == fields@[i as int]);
                }
                if same_text(fields[i].0.as_str(), "type") {
                    proof {
                        assert(field_named(fields@, "type"@) == Some(fields@[i as int].1));
                    }
                    return match &fields[i].1 {
                        JsonValue::String(t) => t.clone(),
                        _ => "unknown".to_owned(),
                    };
                }
                i += 1;
            }
            proof {
                assert(fields@.skip(fields@.len() as int) =~= Seq::<(String, JsonValue)>::empty());
            }
            "unknown".to_owned()
        },
        _ => "unknown".to_owned(),
    }
}

/// What a stored event row was read as: a known event (with its JSON
/// form, `None` when it has none), an ephemeral event (with its kind), an
/// event of a type this version does not know, or a malformed row.
#[derive(Debug)]
pub enum EventRecord {
    Known(Option<JsonValue>),
    Ephemeral(String),
    Unknown,
    Malformed,
}

impl EventRecord {
    /// The type of the event a row holds: the type tag of a known event,
    /// the kind of an ephemeral one, and a marker for unknown and
    /// malformed rows.
    pub fn event_type(&self) -> (r: String)
        ensures
            r@ == match self {
                EventRecord::Known(json) => type_tag(*json),
                EventRecord::Ephemeral(kind) => kind@,
                EventRecord::Unknown => "__@unknown"@,
                EventRecord::Malformed => "__@malformed"@,
            },
    {
        match self {
            EventRecord::Known(json) => event_type(json),
            EventRecord::Ephemeral(kind) => kind.clone(),
            EventRecord::Unknown => "__@unknown".to_owned(),
            EventRecord::Malformed => "__@malformed".to_owned(),
        }
    }
}

} // verus!
