//! Construction of the type registry from type names.
use crate::model::{map_insert, BusinessObjectPropertyTypes, ErrorKind, EvalError, PropertyType};
use crate::text::same_text;
use std::collections::HashMap;
use vstd::prelude::*;

verus! {

#[verifier::external_type_specification]
#[verifier::external_body]
pub struct ExJsonValue(serde_json::Value);

/// The type that a type name declares: `"Int"`, `"Float"`, `"Select"` or `"String"`.
pub open spec fn type_of_name(name: Seq<char>) -> Option<PropertyType> {
    if name == seq!['I', 'n', 't'] {
        Some(PropertyType::Int)
    } else if name == seq!['F', 'l', 'o', 'a', 't'] {
        Some(PropertyType::Float)
    } else if name == seq!['S', 'e', 'l', 'e', 'c', 't'] {
        Some(PropertyType::Select)
    } else if name == seq!['S', 't', 'r', 'i', 'n', 'g'] {
        Some(PropertyType::String)
    } else {
        None
    }
}

/// The type that a type name declares; `UnknownPropertyType` with the name where it
/// is none of the four.
pub fn property_type_from_name(name: &str) -> (r: Result<PropertyType, EvalError>)
    ensures
        r matches Ok(t) ==> type_of_name(name@) == Some(t),
        r matches Err(e) ==> type_of_name(name@) is None && e@ == (
            ErrorKind::UnknownPropertyType,
            name@,
        ),
{
    proof {
        reveal_strlit("Int");
        reveal_strlit("Float");
        reveal_strlit("Select");
        reveal_strlit("String");
        assert("Int"@ =~= seq!['I', 'n', 't']);
        assert("Float"@ =~= seq!['F', 'l', 'o', 'a', 't']);
        assert("Select"@ =~= seq!['S', 'e', 'l', 'e', 'c', 't']);
        assert("String"@ =~= seq!['S', 't', 'r', 'i', 'n', 'g']);
    }
    if same_text(name, "Int") {
        Ok(PropertyType::Int)
    } else if same_text(name, "Float") {
        Ok(PropertyType::Float)
    } else if same_text(name, "Select") {
        Ok(PropertyType::Select)
    } else if same_text(name, "String") {
        Ok(PropertyType::String)
    } else {
        Err(EvalError { kind: ErrorKind::UnknownPropertyType, detail: name.to_string() })
    }
}

/// No two entries share a field name.
pub open spec fn distinct_names(entries: Seq<(String, String)>) -> bool {
    forall|i: int, j: int|
        0 <= i < entries.len() && 0 <= j < entries.len() && i != j ==> #[trigger] entries[i].0@
            != #[trigger] entries[j].0@
}

/// Builds the registry from (field name, type name) entries. It holds exactly the
/// entries' field names, each with the type its name declares; where a type name is
/// unknown, the first such name in the entries' order is the error.
pub fn property_types_from_entries(entries: Vec<(String, String)>) -> (r: Result<
    BusinessObjectPropertyTypes,
    EvalError,
>)
    requires
        distinct_names(entries@),
    ensures
        r is Ok <==> forall|i: int|
            0 <= i < entries@.len() ==> #[trigger] type_of_name(entries@[i].1@) is Some,
        r matches Ok(reg) ==> reg@.dom() == Set::new(
            |k: Seq<char>| exists|i: int| 0 <= i < entries@.len() && #[trigger] entries@[i].0@ == k,
        ),
        r matches Ok(reg) ==> forall|i: int|
            0 <= i < entries@.len() ==> Some(reg@[#[trigger] entries@[i].0@]) == type_of_name(
                entries@[i].1@,
            ),
        r matches Err(e) ==> exists|i: int|
            0 <= i < entries@.len() && type_of_name(#[trigger] entries@[i].1@) is None && e@ == (
                ErrorKind::UnknownPropertyType,
                entries@[i].1@,
            ) && forall|j: int| 0 <= j < i ==> #[trigger] type_of_name(entries@[j].1@) is Some,
{
    let mut types: HashMap<String, PropertyType> = HashMap::new();
    proof {
        vstd::std_specs::hash::lemma_hashmap_deepview_dom(types);
        assert(types.deep_view().dom() =~= Set::<Seq<char>>::empty());
    }
    let mut i: usize = 0;
    while i < entries.len()
        invariant
            0 <= i <= entries@.len(),
            distinct_names(entries@),
            forall|j: int| 0 <= j < i ==> #[trigger] type_of_name(entries@[j].1@) is Some,
            types.deep_view().dom() == Set::new(
                |k: Seq<char>| exists|j: int| 0 <= j < i && #[trigger] entries@[j].0@ == k,
            ),
            forall|j: int|
                0 <= j < i ==> Some(types.deep_view()[#[trigger] entries@[j].0@]) == type_of_name(
                    entries@[j].1@,
                ),
        decreases entries@.len() - i,
    {
        let t = match property_type_from_name(entries[i].1.as_str()) {
            Ok(t) => t,
            Err(e) => {
                return Err(e);
            },
        };
        let ghost before = types.deep_view();
        map_insert(&mut types, entries[i].0.clone(), t);
        proof {
            assert(types.deep_view().dom() =~= Set::new(
                |k: Seq<char>| exists|j: int| 0 <= j < i + 1 && #[trigger] entries@[j].0@ == k,
            )) by {
                assert forall|k: Seq<char>| types.deep_view().dom().contains(k) implies exists|j: int|
                    0 <= j < i + 1 && #[trigger] entries@[j].0@ == k by {
                    if k != entries@[i as int].0@ {
                        assert(before.dom().contains(k));
                    }
                }
            }
            assert forall|j: int| 0 <= j < i + 1 implies Some(
                types.deep_view()[#[trigger] entries@[j].0@],
            ) == type_of_name(entries@[j].1@) by {
                if j < i {
                    assert(entries@[j].0@ != entries@[i as int].0@);
                }
            }
        }
        i = i + 1;
    }
    let reg = BusinessObjectPropertyTypes { types };
    Ok(reg)
}

/// The map of field names to type names that a JSON value decodes to; `None` where
/// it is not a JSON object whose values are all strings.
pub uninterp spec fn decoded_type_names(v: serde_json::Value) -> Option<Map<Seq<char>, Seq<char>>>;

/// Relies on `serde_json::from_value` into a `HashMap<String, String>`, whose entries
/// are then listed: it succeeds exactly on a JSON object whose values are strings,
/// and the list holds each entry of that object once; any other value fails with the
/// decoder's message.
#[verifier::external_body]
fn decode_string_entries(value: serde_json::Value) -> (r: Result<Vec<(String, String)>, String>)
    ensures
        r is Ok <==> decoded_type_names(value) is Some,
        r matches Ok(entries) ==> distinct_names(entries@),
        r matches Ok(entries) ==> forall|i: int|
            0 <= i < entries@.len() ==> decoded_type_names(value)->Some_0.contains_key(
                #[trigger] entries@[i].0@,
            ) && decoded_type_names(value)->Some_0[entries@[i].0@] == entries@[i].1@,
        r matches Ok(entries) ==> forall|k: Seq<char>|
            #[trigger] decoded_type_names(value)->Some_0.contains_key(k) ==> exists|i: int|
                0 <= i < entries@.len() && #[trigger] entries@[i].0@ == k,
{
    match serde_json::from_value::<HashMap<String, String>>(value) {
        Ok(map) => Ok(map.into_iter().collect()),
        Err(e) => Err(e.to_string()),
    }
}

/// Builds the registry from a JSON object that maps field names to type names. A
/// value that is not such an object fails with `Malformed`. Otherwise the registry
/// holds exactly the object's field names, each with the type its name declares;
/// where a type name is unknown, the failure is `UnknownPropertyType` with one such
/// name.
pub fn deserialize_property_types(property_types_json: serde_json::Value) -> (r: Result<
    BusinessObjectPropertyTypes,
    EvalError,
>)
    ensures
        decoded_type_names(property_types_json) is None ==> (r matches Err(e) && e.kind
            == ErrorKind::Malformed),
        decoded_type_names(property_types_json) matches Some(m) ==> {
            &&& (r is Ok <==> forall|k: Seq<char>|
                #[trigger] m.contains_key(k) ==> type_of_name(m[k]) is Some)
            &&& (r matches Ok(reg) ==> reg@.dom() == m.dom() && forall|k: Seq<char>|
                #[trigger] m.contains_key(k) ==> Some(reg@[k]) == type_of_name(m[k]))
            &&& (r matches Err(e) ==> e.kind == ErrorKind::UnknownPropertyType && type_of_name(
                e.detail@,
            ) is None && exists|k: Seq<char>| #[trigger] m.contains_key(k) && m[k] == e.detail@)
        },
{
    let ghost decoded = decoded_type_names(property_types_json);
    match decode_string_entries(property_types_json) {
        Ok(entries) => {
            let ghost es = entries@;
            let ghost m = decoded->Some_0;
            let r = property_types_from_entries(entries);
            proof {
                if r is Ok {
                    let reg = r->Ok_0;
                    assert(reg@.dom() =~= m.dom()) by {
                        assert forall|k: Seq<char>| m.contains_key(k) implies reg@.dom().contains(k) by {
                            let i = choose|i: int| 0 <= i < es.len() && #[trigger] es[i].0@ == k;
                        }
                    }
                    assert forall|k: Seq<char>| #[trigger] m.contains_key(k) implies Some(reg@[k])
                        == type_of_name(m[k]) by {
                        let i = choose|i: int| 0 <= i < es.len() && #[trigger] es[i].0@ == k;
                    }
                    assert forall|k: Seq<char>| #[trigger] m.contains_key(k) implies type_of_name(m[k]) is Some by {
                        let i = choose|i: int| 0 <= i < es.len() && #[trigger] es[i].0@ == k;
                    }
                } else {
                    let i = choose|i: int|
                        0 <= i < es.len() && type_of_name(#[trigger] es[i].1@) is None && r->Err_0@ == (
                            ErrorKind::UnknownPropertyType,
                            es[i].1@,
                        ) && forall|j: int| 0 <= j < i ==> #[trigger] type_of_name(es[j].1@) is Some;
                    assert(m.contains_key(es[i].0@));
                    assert(type_of_name(m[es[i].0@]) is None);
                }
            }
            r
        },
        Err(message) => Err(EvalError { kind: ErrorKind::Malformed, detail: message }),
    }
}

} // verus!
