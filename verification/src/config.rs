//! The router: a longest-prefix table from normalized route prefixes to
//! service names, built once from configuration and read-only afterwards.

use vstd::prelude::*;

verus! {

use crate::lookup::{lookup_spec, lemma_lookup_some, lemma_lookup_none};
use crate::paths::SLASH_BYTE;
use crate::prefix_map::{route_entries, empty_route_entries, route_map_new, route_map_insert,
    route_map_longest_prefix};

/// What a route resolves to: the name of the service owning the prefix.
#[derive(Clone, Debug)]
pub struct ServiceDescription {
    pub name: String,
}

/// The route table. Keys are stored with trailing `/` stripped; lookup is
/// longest-prefix with segment-boundary alignment.
pub struct Config {
    pub routes: patricia_tree::PatriciaMap<String>,
}

/// A configured route prefix is normalized by stripping every trailing `/`.
pub open spec fn trim_trailing_slashes(s: Seq<u8>) -> Seq<u8>
    decreases s.len(),
{
    if s.len() > 0 && s.last() == SLASH_BYTE {
        trim_trailing_slashes(s.drop_last())
    } else {
        s
    }
}

/// A matched prefix is accepted only if it ends in `/`, or the remainder of
/// the path is empty, or the remainder starts with `/`: `/foo` must not
/// capture a request for `/foobar`.
pub open spec fn boundary_ok(k: Seq<u8>, path: Seq<u8>) -> bool {
    ||| (k.len() > 0 && k.last() == SLASH_BYTE)
    ||| k.len() == path.len()
    ||| (k.len() < path.len() && path[k.len() as int] == SLASH_BYTE)
}

/// The routing decision: the longest route key that is a byte-prefix of the
/// path wins, and only if it is boundary-aligned; a boundary-rejected longest
/// match yields `None` even when a shorter key would have been aligned.
pub open spec fn route_spec(t: Map<Seq<u8>, Seq<char>>, path: Seq<u8>) -> Option<Seq<char>> {
    match lookup_spec(t, path) {
        Some(kv) => if boundary_ok(kv.0, path) {
            Some(kv.1)
        } else {
            None
        },
        None => None,
    }
}

impl Config {
    /// The route table's entries: normalized prefix bytes to service name.
    pub open spec fn routes_view(&self) -> Map<Seq<u8>, Seq<char>> {
        route_entries(self.routes)
    }

    /// An empty route table.
    pub fn new() -> (c: Config)
        ensures
            c.routes_view() == empty_route_entries(),
    {
        Config { routes: route_map_new() }
    }

    /// Inserts one configured route, normalizing the prefix by stripping
    /// trailing `/`; a later insert with an equal normalized prefix replaces
    /// the earlier one.
    pub fn add_route(&mut self, prefix: &[u8], service: ServiceDescription)
        ensures
            final(self).routes_view() == old(self).routes_view().insert(
                trim_trailing_slashes(prefix@),
                service.name@,
            ),
    {
        let mut end: usize = prefix.len();
        proof {
            assert(prefix@.take(prefix@.len() as int) =~= prefix@);
        }
        while end > 0 && prefix[end - 1] == SLASH_BYTE
            invariant
                end <= prefix@.len(),
                trim_trailing_slashes(prefix@.take(end as int)) == trim_trailing_slashes(prefix@),
            decreases end,
        {
            proof {
                assert(prefix@.take(end as int).last() == SLASH_BYTE);
                assert(prefix@.take(end as int).drop_last() =~= prefix@.take(end - 1));
            }
            end = end - 1;
        }
        proof {
            if end > 0 {
                assert(prefix@.take(end as int).last() != SLASH_BYTE);
            }
            assert(trim_trailing_slashes(prefix@.take(end as int)) == prefix@.take(end as int));
        }
        route_map_insert(&mut self.routes, &prefix[0..end], service.name);
    }

    /// Builds the route table from configured `(prefix, service)` pairs, in
    /// order.
    pub fn build(entries: Vec<(Vec<u8>, ServiceDescription)>) -> (c: Config)
        ensures
            c.routes_view() == built_routes(entries@),
    {
        let mut c = Config::new();
        let mut i: usize = 0;
        while i < entries.len()
            invariant
                i <= entries@.len(),
                c.routes_view() == built_routes(entries@.take(i as int)),
            decreases entries@.len() - i,
        {
            let pair = &entries[i];
            let service = ServiceDescription { name: pair.1.name.clone() };
            c.add_route(pair.0.as_slice(), service);
            proof {
                assert(entries@.take(i + 1).drop_last() =~= entries@.take(i as int));
            }
            i = i + 1;
        }
        proof {
            assert(entries@.take(entries@.len() as int) =~= entries@);
        }
        c
    }

    /// Longest-prefix routing with boundary alignment, exactly [`route_spec`].
    pub fn route(&self, path: &[u8]) -> (r: Option<ServiceDescription>)
        ensures
            match r {
                Some(d) => route_spec(self.routes_view(), path@) == Some(d.name@),
                None => route_spec(self.routes_view(), path@) is None,
            },
    {
        match route_map_longest_prefix(&self.routes, path) {
            None => {
                proof {
                    lemma_lookup_none(self.routes_view(), path@);
                }
                None
            },
            Some((key, name)) => {
                proof {
                    lemma_lookup_some(self.routes_view(), path@, key@);
                }
                let klen = key.len();
                let ends_with_slash = klen > 0 && key[klen - 1] == SLASH_BYTE;
                let remainder_empty = klen == path.len();
                let remainder_aligned = klen < path.len() && path[klen] == SLASH_BYTE;
                if ends_with_slash || remainder_empty || remainder_aligned {
                    Some(ServiceDescription { name })
                } else {
                    None
                }
            },
        }
    }
}

/// The route table that [`Config::build`] constructs from configured pairs.
pub open spec fn built_routes(entries: Seq<(Vec<u8>, ServiceDescription)>) -> Map<Seq<u8>, Seq<char>>
    decreases entries.len(),
{
    if entries.len() == 0 {
        empty_route_entries()
    } else {
        built_routes(entries.drop_last()).insert(
            trim_trailing_slashes(entries.last().0@),
            entries.last().1.name@,
        )
    }
}

} // verus!
