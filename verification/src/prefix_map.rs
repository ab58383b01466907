//! Trusted boundary around `patricia_tree`'s byte-keyed prefix map, the store
//! behind both the route table and a sandbox's preopened-directory table.
//!
//! The map's contents are named by the uninterpreted views [`route_entries`]
//! and [`preopen_entries`]; the wrappers below state, over those views, what
//! `patricia_tree`'s methods do. Everything that interprets a lookup (boundary
//! checks, path joining) is verified code elsewhere in this crate.

use vstd::prelude::*;

verus! {

use vstd::seq_lib::*;

#[verifier::external_type_specification]
#[verifier::external_body]
#[verifier::reject_recursive_types(K)]
#[verifier::reject_recursive_types(V)]
pub struct ExGenericPatriciaMap<K, V>(patricia_tree::GenericPatriciaMap<K, V>);

/// The entries of a route table: normalized route prefix bytes to the name of
/// the service that owns the prefix.
pub uninterp spec fn route_entries(m: patricia_tree::PatriciaMap<String>) -> Map<Seq<u8>, Seq<char>>;

/// The entries of a preopened-directory table: container-visible path prefix
/// bytes to the canonicalized host path granted under it.
pub uninterp spec fn preopen_entries(m: patricia_tree::PatriciaMap<Vec<u8>>) -> Map<
    Seq<u8>,
    Seq<u8>,
>;

/// The empty route table.
pub open spec fn empty_route_entries() -> Map<Seq<u8>, Seq<char>> {
    Map::empty()
}

/// The empty preopened-directory table.
pub open spec fn empty_preopen_entries() -> Map<Seq<u8>, Seq<u8>> {
    Map::empty()
}

/// Relies on `patricia_tree::GenericPatriciaMap::new`: the new map is empty.
#[verifier::external_body]
pub fn route_map_new() -> (m: patricia_tree::PatriciaMap<String>)
    ensures
        route_entries(m) == empty_route_entries(),
{
    patricia_tree::PatriciaMap::new()
}

/// Relies on `patricia_tree::GenericPatriciaMap::insert`: inserts the
/// key/value pair, replacing the value if the key is already present.
#[verifier::external_body]
pub fn route_map_insert(m: &mut patricia_tree::PatriciaMap<String>, key: &[u8], value: String)
    ensures
        route_entries(*final(m)) == route_entries(*old(m)).insert(key@, value@),
{
    m.insert(key, value);
}

/// Relies on `patricia_tree::GenericPatriciaMap::get_longest_common_prefix`:
/// among the keys that are a byte-prefix of the query it returns the entry
/// with the longest key, or `None` if no key is a prefix of the query.
#[verifier::external_body]
pub fn route_map_longest_prefix(m: &patricia_tree::PatriciaMap<String>, query: &[u8]) -> (r: Option<
    (Vec<u8>, String),
>)
    ensures
        match r {
            Some(kv) => {
                &&& route_entries(*m).contains_key(kv.0@)
                &&& route_entries(*m)[kv.0@] == kv.1@
                &&& kv.0@.is_prefix_of(query@)
                &&& forall|k2: Seq<u8>|
                    route_entries(*m).contains_key(k2) && k2.is_prefix_of(query@) ==> k2.len()
                        <= kv.0@.len()
            },
            None => forall|k2: Seq<u8>|
                route_entries(*m).contains_key(k2) ==> !k2.is_prefix_of(query@),
        },
{
    m.get_longest_common_prefix(query).map(|kv: (&[u8], &String)| (kv.0.to_vec(), kv.1.clone()))
}

/// Relies on `patricia_tree::GenericPatriciaMap::new`: the new map is empty.
#[verifier::external_body]
pub fn preopen_map_new() -> (m: patricia_tree::PatriciaMap<Vec<u8>>)
    ensures
        preopen_entries(m) == empty_preopen_entries(),
{
    patricia_tree::PatriciaMap::new()
}

/// Relies on `patricia_tree::GenericPatriciaMap::insert`: inserts the
/// key/value pair, replacing the value if the key is already present.
#[verifier::external_body]
pub fn preopen_map_insert(m: &mut patricia_tree::PatriciaMap<Vec<u8>>, key: &[u8], value: Vec<u8>)
    ensures
        preopen_entries(*final(m)) == preopen_entries(*old(m)).insert(key@, value@),
{
    m.insert(key, value);
}

/// Relies on `patricia_tree::GenericPatriciaMap::get_longest_common_prefix`:
/// among the keys that are a byte-prefix of the query it returns the entry
/// with the longest key, or `None` if no key is a prefix of the query.
#[verifier::external_body]
pub fn preopen_map_longest_prefix(
    m: &patricia_tree::PatriciaMap<Vec<u8>>,
    query: &[u8],
) -> (r: Option<(Vec<u8>, Vec<u8>)>)
    ensures
        match r {
            Some(kv) => {
                &&& preopen_entries(*m).contains_key(kv.0@)
                &&& preopen_entries(*m)[kv.0@] == kv.1@
                &&& kv.0@.is_prefix_of(query@)
                &&& forall|k2: Seq<u8>|
                    preopen_entries(*m).contains_key(k2) && k2.is_prefix_of(query@) ==> k2.len()
                        <= kv.0@.len()
            },
            None => forall|k2: Seq<u8>|
                preopen_entries(*m).contains_key(k2) ==> !k2.is_prefix_of(query@),
        },
{
    m.get_longest_common_prefix(query).map(|kv: (&[u8], &Vec<u8>)| (kv.0.to_vec(), kv.1.clone()))
}

} // verus!
