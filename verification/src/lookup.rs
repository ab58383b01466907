//! The meaning of a longest-prefix lookup over a byte-keyed table, shared by
//! the router and by the sandbox's preopened-directory table.

use vstd::prelude::*;

verus! {

use vstd::seq_lib::*;

/// `k` is a key of `t`, a byte-prefix of `query`, and no key of `t` that is a
/// prefix of `query` is longer.
pub open spec fn is_best_match<V>(t: Map<Seq<u8>, V>, query: Seq<u8>, k: Seq<u8>) -> bool {
    &&& t.contains_key(k)
    &&& k.is_prefix_of(query)
    &&& forall|k2: Seq<u8>| t.contains_key(k2) && k2.is_prefix_of(query) ==> k2.len() <= k.len()
}

/// The key of the longest entry of `t` whose key is a prefix of `query`.
pub open spec fn best_match_key<V>(t: Map<Seq<u8>, V>, query: Seq<u8>) -> Seq<u8> {
    choose|k: Seq<u8>| is_best_match(t, query, k)
}

/// The entry a longest-prefix lookup of `query` in `t` finds: the entry with
/// the longest key that is a byte-prefix of `query`, or `None` if no key of
/// `t` is a prefix of `query`.
pub open spec fn lookup_spec<V>(t: Map<Seq<u8>, V>, query: Seq<u8>) -> Option<(Seq<u8>, V)> {
    if exists|k: Seq<u8>| is_best_match(t, query, k) {
        let k = best_match_key(t, query);
        Some((k, t[k]))
    } else {
        None
    }
}

/// Two prefixes of one sequence are comparable, so a longest match is unique.
pub proof fn lemma_best_match_unique<V>(t: Map<Seq<u8>, V>, query: Seq<u8>, k1: Seq<u8>, k2: Seq<u8>)
    requires
        is_best_match(t, query, k1),
        is_best_match(t, query, k2),
    ensures
        k1 == k2,
{
    assert(k1.len() == k2.len());
    assert(k1 =~= k2);
}

/// A witness with the best-match property pins the lookup down exactly.
pub proof fn lemma_lookup_some<V>(t: Map<Seq<u8>, V>, query: Seq<u8>, k: Seq<u8>)
    requires
        is_best_match(t, query, k),
    ensures
        lookup_spec(t, query) == Some((k, t[k])),
{
    lemma_best_match_unique(t, query, k, best_match_key(t, query));
}

/// If no key of `t` is a prefix of `query`, the lookup finds nothing.
pub proof fn lemma_lookup_none<V>(t: Map<Seq<u8>, V>, query: Seq<u8>)
    requires
        forall|k: Seq<u8>| t.contains_key(k) ==> !k.is_prefix_of(query),
    ensures
        lookup_spec(t, query) is None,
{
}

} // verus!
