//! JSON objects, as `serde_json` keeps them.
use vstd::prelude::*;

verus! {

/// The JSON objects of `serde_json`.
#[verifier::external_type_specification]
#[verifier::external_body]
#[verifier::reject_recursive_types(K)]
#[verifier::reject_recursive_types(V)]
pub struct ExJsonMap<K, V>(serde_json::Map<K, V>);

/// The JSON values of `serde_json`. The library moves them about and never looks inside.
#[verifier::external_type_specification]
#[verifier::external_body]
pub struct ExJsonValue(serde_json::Value);

/// Named values, as an ECU reports them.
pub type Parameters = serde_json::Map<String, serde_json::Value>;

/// The members of a JSON object, by name.
pub type Members = Map<Seq<char>, serde_json::Value>;

/// What the JSON object `object` holds.
pub uninterp spec fn members(
    object: serde_json::Map<String, serde_json::Value>,
) -> Map<Seq<char>, serde_json::Value>;

/// Calls `serde_json::Map::new`, which makes an object without members.
#[verifier::external_body]
pub(crate) fn json_new() -> (object: Parameters)
    ensures
        members(object) == Members::empty(),
{
    serde_json::Map::new()
}

/// Calls `extend` on a `serde_json::Map`, which inserts every member of `other`: a member of the
/// same name is replaced, all else stays.
#[verifier::external_body]
pub(crate) fn json_extend(object: &mut Parameters, other: Parameters)
    ensures
        members(*final(object)) == members(*old(object)).union_prefer_right(members(other)),
{
    object.extend(other)
}

} // verus!
