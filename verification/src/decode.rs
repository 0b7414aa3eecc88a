//! The semantics of the generated decoders: how an emitted enum decodes a
//! request-supplied value by its GraphQL name, and how an emitted input
//! object routes an unordered key/value selection into its field slots.
//! The conditions under which the generated code fails loudly — an
//! unrecognized variant or key, a declared field never supplied — are
//! demanded up front here, so the decoding logic itself never panics.

use vstd::prelude::*;
use crate::code_gen_pass::Enum;
use crate::code_gen_pass::InputObject;
use crate::text::str_eq;

verus! {

/// A request-supplied value as the generated decoders see it: the shape
/// matters to the routing logic; scalar payloads pass through as text.
pub enum LookAheadValue {
    Null,
    ScalarText(String),
    Enum(String),
    List(Vec<LookAheadValue>),
    Object(Vec<(String, LookAheadValue)>),
}

/// The first variant whose GraphQL-level name matches.
pub open spec fn s_variant_index(e: Enum, name: Seq<char>) -> Option<int> {
    if exists|i: int| 0 <= i < e.variants@.len() && (#[trigger] e.variants@[i]).graphql_name@
        == name {
        Some(
            choose|i: int|
                0 <= i < e.variants@.len() && (#[trigger] e.variants@[i]).graphql_name@ == name,
        )
    } else {
        None
    }
}

/// Decodes a request-supplied value into one of the enum's variants,
/// matching on the GraphQL-level name. The generated decoder fails loudly
/// on a name with no matching variant and on any non-enum shape; both
/// conditions are demanded away here.
pub fn enum_from_look_ahead(e: &Enum, v: &LookAheadValue) -> (r: usize)
    requires
        v matches LookAheadValue::Enum(n) && s_variant_index(*e, n@) is Some,
    ensures
        r < e.variants@.len(),
        (v matches LookAheadValue::Enum(n) ==> e.variants@[r as int].graphql_name@ == n@),
        (v matches LookAheadValue::Enum(n) ==> forall|j: int|
            0 <= j < r ==> (#[trigger] e.variants@[j]).graphql_name@ != n@),
{
    match v {
        LookAheadValue::Enum(name) => {
            let mut i: usize = 0;
            while i < e.variants.len()
                invariant
                    i <= e.variants.len(),
                    v matches LookAheadValue::Enum(n2) && n2 == name,
                    s_variant_index(*e, name@) is Some,
                    forall|j: int|
                        0 <= j < i ==> (#[trigger] e.variants@[j]).graphql_name@ != name@,
                decreases e.variants.len() - i,
            {
                if str_eq(e.variants[i].graphql_name.as_str(), name.as_str()) {
                    return i;
                }
                i += 1;
            }
            proof {
                let w = s_variant_index(*e, name@)->0;
                assert(e.variants@[w].graphql_name@ == name@);
                assert(false);
            }
            0
        },
        _ => {
            proof {
                assert(false);
            }
            0
        },
    }
}

/// The position of the last pair supplied for a key, if any: a later
/// pair for the same key overwrites an earlier one, as the generated slot
/// assignment does.
pub open spec fn s_last_index(
    pairs: Seq<(String, LookAheadValue)>,
    key: Seq<char>,
) -> Option<int>
    decreases pairs.len(),
{
    if pairs.len() == 0 {
        None
    } else if pairs.last().0@ == key {
        Some(pairs.len() - 1)
    } else {
        s_last_index(pairs.drop_last(), key)
    }
}

/// Whether every supplied key names a declared field.
pub open spec fn s_all_keys_declared(io: InputObject, pairs: Seq<(String, LookAheadValue)>) -> bool {
    forall|i: int|
        0 <= i < pairs.len() ==> exists|j: int|
            0 <= j < io.fields@.len() && (#[trigger] io.fields@[j]).name@ == (#[trigger] pairs[i]).0@
}

/// Whether every declared field was supplied.
pub open spec fn s_all_fields_supplied(io: InputObject, pairs: Seq<(String, LookAheadValue)>) -> bool {
    forall|j: int|
        0 <= j < io.fields@.len() ==> s_last_index(pairs, (#[trigger] io.fields@[j]).name@) is Some
}

/// Routes an unordered key/value selection into the input object's field
/// slots, in declaration order: each slot receives the last value
/// supplied under its name. The generated decoder fails loudly on an
/// undeclared key and on a slot left empty once all pairs are consumed;
/// both conditions are demanded away here.
pub fn input_object_from_look_ahead(
    io: &InputObject,
    pairs: &Vec<(String, LookAheadValue)>,
) -> (r: Vec<usize>)
    requires
        s_all_keys_declared(*io, pairs@),
        s_all_fields_supplied(*io, pairs@),
    ensures
        r@.len() == io.fields@.len(),
        forall|j: int|
            0 <= j < r@.len() ==> Some(#[trigger] r@[j] as int) == s_last_index(
                pairs@,
                io.fields@[j].name@,
            ),
{
    let mut out: Vec<usize> = Vec::new();
    let mut j: usize = 0;
    while j < io.fields.len()
        invariant
            j <= io.fields.len(),
            s_all_fields_supplied(*io, pairs@),
            out@.len() == j,
            forall|m: int|
                0 <= m < j ==> Some(#[trigger] out@[m] as int) == s_last_index(
                    pairs@,
                    io.fields@[m].name@,
                ),
        decreases io.fields.len() - j,
    {
        let name = &io.fields[j].name;
        let mut found: Option<usize> = None;
        let mut k: usize = 0;
        while k < pairs.len()
            invariant
                k <= pairs.len(),
                *name == io.fields@[j as int].name,
                (match found {
                    None => s_last_index(pairs@.take(k as int), name@) is None,
                    Some(v) => s_last_index(pairs@.take(k as int), name@) == Some(v as int),
                }),
            decreases pairs.len() - k,
        {
            proof {
                assert(pairs@.take(k as int + 1).drop_last() =~= pairs@.take(k as int));
                assert(pairs@.take(k as int + 1).last() == pairs@[k as int]);
            }
            if str_eq(pairs[k].0.as_str(), name.as_str()) {
                found = Some(k);
            }
            k += 1;
        }
        proof {
            assert(pairs@.take(pairs@.len() as int) =~= pairs@);
        }
        match found {
            Some(v) => {
                out.push(v);
            },
            None => {
                proof {
                    assert(s_last_index(pairs@, io.fields@[j as int].name@) is Some);
                    assert(false);
                }
            },
        }
        j += 1;
    }
    out
}

} // verus!
