//! Rules on what is known of a vehicle: its equipment names and its link.
use vstd::prelude::*;
use vstd::string::*;
use crate::config::Configuration;
use crate::request::{uuid_string, uuid_text};

verus! {

/// The lower-case form that std gives a string (full Unicode case mapping).
pub uninterp spec fn lower_of(s: Seq<char>) -> Seq<char>;

/// `pattern` occurs in `s` as a contiguous run of characters.
pub open spec fn has_substring(s: Seq<char>, pattern: Seq<char>) -> bool {
    exists|i: int|
        0 <= i && i + pattern.len() <= s.len() && #[trigger] s.subrange(i, i + pattern.len())
            == pattern
}

/// Relies on `str::to_lowercase`: the result depends on the characters alone.
#[verifier::external_body]
fn to_lowercase(s: &str) -> (r: String)
    ensures
        r@ == lower_of(s@),
{
    s.to_lowercase()
}

/// Relies on `str::contains` with a string pattern: whether the pattern
/// matches a sub-slice of the string.
#[verifier::external_body]
fn str_contains(s: &str, pattern: &str) -> (r: bool)
    ensures
        r == has_substring(s@, pattern@),
{
    s.contains(pattern)
}

/// Some name among `names` contains `pattern`.
pub open spec fn some_name_contains(names: Seq<String>, pattern: Seq<char>) -> bool {
    exists|i: int| 0 <= i < names.len() && has_substring(#[trigger] names[i]@, pattern)
}

/// An equipment name of the vehicle is like `name`: `name` is not empty and,
/// both in lower case, it occurs in one of the vehicle's equipment names.
pub open spec fn name_like(names: Seq<String>, name: Seq<char>) -> bool {
    name.len() > 0 && exists|i: int|
        0 <= i < names.len() && has_substring(lower_of(#[trigger] names[i]@), lower_of(name))
}

/// Whether `pattern` occurs in one of `names`. Both are taken as they are:
/// this is the test on names already in lower case.
pub fn any_name_contains(names: &Vec<String>, pattern: &str) -> (r: bool)
    ensures
        r == some_name_contains(names@, pattern@),
{
    let mut i: usize = 0;
    while i < names.len()
        invariant
            i <= names@.len(),
            forall|j: int| 0 <= j < i ==> !has_substring(#[trigger] names@[j]@, pattern@),
        decreases names@.len() - i,
    {
        if str_contains(names[i].as_str(), pattern) {
            return true;
        }
        i = i + 1;
    }
    false
}

/// Whether one of the equipment names `names` of a vehicle is like `name`,
/// ignoring case. An empty `name` matches nothing.
pub fn has_equipment_name_like(names: &Vec<String>, name: &str) -> (r: bool)
    ensures
        r == name_like(names@, name@),
{
    if name.is_empty() {
        return false;
    }
    let wanted = to_lowercase(name);
    let mut lowered: Vec<String> = Vec::new();
    let mut i: usize = 0;
    while i < names.len()
        invariant
            i <= names@.len(),
            lowered@.len() == i,
            forall|j: int| 0 <= j < i ==> #[trigger] lowered@[j]@ == lower_of(names@[j]@),
        decreases names@.len() - i,
    {
        lowered.push(to_lowercase(names[i].as_str()));
        i = i + 1;
    }
    let r = any_name_contains(&lowered, wanted.as_str());
    proof {
        if r {
            let k = choose|k: int| 0 <= k < lowered@.len() && has_substring(#[trigger] lowered@[k]@, wanted@);
            assert(has_substring(lower_of(names@[k]@), lower_of(name@)));
        }
        if name_like(names@, name@) {
            let k = choose|k: int|
                0 <= k < names@.len() && has_substring(lower_of(#[trigger] names@[k]@), lower_of(name@));
            assert(has_substring(lowered@[k]@, wanted@));
        }
    }
    r
}

/// Every name of `wanted` is like one of the equipment names `names`.
pub open spec fn all_names_like(names: Seq<String>, wanted: Seq<String>) -> bool {
    forall|i: int| 0 <= i < wanted.len() ==> name_like(names, #[trigger] wanted[i]@)
}

/// Whether every name of `wanted` is like one of the equipment names
/// `names` of a vehicle. No wanted name is no constraint.
pub fn has_equipment_names(names: &Vec<String>, wanted: &[String]) -> (r: bool)
    ensures
        r == all_names_like(names@, wanted@),
{
    let mut i: usize = 0;
    while i < wanted.len()
        invariant
            i <= wanted@.len(),
            forall|j: int| 0 <= j < i ==> name_like(names@, #[trigger] wanted@[j]@),
        decreases wanted@.len() - i,
    {
        if !has_equipment_name_like(names, wanted[i].as_str()) {
            return false;
        }
        i = i + 1;
    }
    true
}

/// Whether a vehicle with the equipment names `names` has the equipment
/// that the configuration asks for; without such a filter every vehicle
/// matches.
pub fn vehicle_matches_equipment(names: &Vec<String>, configuration: &Configuration) -> (r: bool)
    ensures
        r == match configuration.equipment_names {
            None => true,
            Some(wanted) => all_names_like(names@, wanted@),
        },
{
    match configuration.equipment_names() {
        None => true,
        Some(wanted) => has_equipment_names(names, wanted),
    }
}

/// The public page of a vehicle: the new-stock locator for vehicles in
/// the "NEW" usage state, the used-stock locator otherwise.
pub open spec fn link_text(usage_state: Seq<char>, vss_id: u128) -> Seq<char> {
    "https://www.bmw.fr/fr-fr/sl/"@ + (if usage_state == "NEW"@ {
        "stocklocator"@
    } else {
        "stocklocator_uc"@
    }) + "#/details/"@ + uuid_text(vss_id)
}

/// The link to the public page of a vehicle.
pub fn vehicle_link(usage_state: &str, vss_id: u128) -> (r: String)
    ensures
        r@ == link_text(usage_state@, vss_id),
{
    let state = usage_state.to_owned();
    let is_new = state == String::from_str("NEW");
    let segment: &str = if is_new { "stocklocator" } else { "stocklocator_uc" };
    let id = uuid_string(vss_id);
    String::from_str("https://www.bmw.fr/fr-fr/sl/").concat(segment).concat("#/details/").concat(
        id.as_str(),
    )
}

} // verus!
