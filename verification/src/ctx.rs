//! The per-request sandbox context: a capability table with the default
//! clocks, a logging tag, and the preopened-directory table that is the only
//! way a guest reaches the host filesystem.
//!
//! A context is built fresh for each request and dropped when the request
//! completes; nothing in it is ever shared between requests.

use vstd::prelude::*;

verus! {

use vstd::seq_lib::*;
use crate::lookup::{is_best_match, lookup_spec, lemma_lookup_some, lemma_lookup_none};
use crate::paths::{clean_spec, rooted, join_spec, clean_path, root_path, join_paths, SLASH_BYTE};
use crate::prefix_map::{preopen_entries, empty_preopen_entries, preopen_map_new,
    preopen_map_insert, preopen_map_longest_prefix};
use crate::table::Resource;
use crate::wasi::WasiCtx;

/// The sandbox a single component invocation runs against: capability table,
/// logging tag, and the map from container-visible path prefixes to the
/// canonicalized host paths granted under them.
pub struct RequestCtx {
    pub wasi: WasiCtx,
    pub preopened_dirs: patricia_tree::PatriciaMap<Vec<u8>>,
}

/// Where a guest path leads: rooted, cleaned syntactically, matched against
/// the longest preopened prefix, and the remainder joined onto that grant's
/// host root; `None` when no grant covers the cleaned path.
pub open spec fn resolve_spec(t: Map<Seq<u8>, Seq<u8>>, path: Seq<u8>) -> Option<Seq<u8>> {
    let cleaned = clean_spec(rooted(path));
    match lookup_spec(t, cleaned) {
        Some(kv) => Some(join_spec(kv.1, cleaned.skip(kv.0.len() as int))),
        None => None,
    }
}

impl RequestCtx {
    /// The preopened-directory table's entries.
    pub open spec fn preopens(&self) -> Map<Seq<u8>, Seq<u8>> {
        preopen_entries(self.preopened_dirs)
    }

    /// A fresh, empty sandbox: no directory is reachable, the default clocks
    /// are registered, and the logging tag is the host's own.
    pub fn new() -> (ctx: RequestCtx)
        ensures
            ctx.preopens() == empty_preopen_entries(),
            ctx.wasi.table@ =~= seq![Resource::MonotonicClock, Resource::WallClock],
            ctx.wasi.default_monotonic == 0,
            ctx.wasi.default_wall == 1,
            ctx.wasi.logging_context@ == "I/O"@,
    {
        RequestCtx { wasi: WasiCtx::default(), preopened_dirs: preopen_map_new() }
    }

    /// Exposes one canonicalized host path under a container-visible prefix.
    pub fn preopen_dir(&mut self, container_path: &[u8], host_path: Vec<u8>)
        ensures
            final(self).preopens() == old(self).preopens().insert(container_path@, host_path@),
            final(self).wasi == old(self).wasi,
    {
        preopen_map_insert(&mut self.preopened_dirs, container_path, host_path);
    }

    /// The security decision of the sandbox's file-read operation: roots the
    /// guest path, cleans it syntactically (before the lookup, never after),
    /// finds the longest preopened prefix, and joins the remainder onto that
    /// grant's host root. Fails, never panics, when no grant covers the path.
    pub fn resolve_read_path(&self, path: &[u8]) -> (r: Result<Vec<u8>, String>)
        ensures
            match r {
                Ok(host) => resolve_spec(self.preopens(), path@) == Some(host@),
                Err(m) => {
                    &&& resolve_spec(self.preopens(), path@) is None
                    &&& m@ == "Path not preopened"@
                },
            },
    {
        let rooted_path = root_path(path);
        proof {
            assert(rooted(path@).len() > 0);
            assert(rooted(path@)[0] == SLASH_BYTE);
        }
        let cleaned = clean_path(rooted_path.as_slice());
        match preopen_map_longest_prefix(&self.preopened_dirs, cleaned.as_slice()) {
            None => {
                proof {
                    lemma_lookup_none(self.preopens(), cleaned@);
                }
                Err(String::from_str("Path not preopened"))
            },
            Some((key, host_root)) => {
                proof {
                    lemma_lookup_some(self.preopens(), cleaned@, key@);
                }
                let remainder = &cleaned.as_slice()[key.len()..cleaned.len()];
                Ok(join_paths(host_root.as_slice(), remainder))
            },
        }
    }
}

/// Two byte-prefixes of one sequence are comparable.
pub proof fn lemma_prefixes_comparable(x: Seq<u8>, y: Seq<u8>, whole: Seq<u8>)
    requires
        x.is_prefix_of(whole),
        y.is_prefix_of(whole),
    ensures
        x.is_prefix_of(y) || y.is_prefix_of(x),
{
    if x.len() <= y.len() {
        assert(x =~= y.subrange(0, x.len() as int));
    } else {
        assert(y =~= x.subrange(0, y.len() as int));
    }
}

/// A granted host root is a prefix of everything joined onto it.
pub proof fn lemma_join_extends_root(root: Seq<u8>, rem: Seq<u8>)
    ensures
        root.is_prefix_of(join_spec(root, rem)),
{
    if rem.len() == 0 {
        assert(root =~= join_spec(root, rem).subrange(0, root.len() as int));
    } else if rem[0] == SLASH_BYTE {
        assert(root =~= join_spec(root, rem).subrange(0, root.len() as int));
    } else {
        assert(root =~= join_spec(root, rem).subrange(0, root.len() as int));
    }
}

/// The sandbox property of path resolution: every host path a guest path
/// resolves to extends the host root of one of the sandbox's own grants.
/// Cleaning happens before the lookup, so no traversal sequence can name a
/// host path outside every granted subtree.
pub proof fn lemma_resolution_within_grants(t: Map<Seq<u8>, Seq<u8>>, p: Seq<u8>, h: Seq<u8>)
    requires
        resolve_spec(t, p) == Some(h),
    ensures
        exists|k: Seq<u8>| #[trigger] t.contains_key(k) && t[k].is_prefix_of(h),
{
    let cleaned = clean_spec(rooted(p));
    let kv = lookup_spec(t, cleaned)->0;
    assert(lookup_spec(t, cleaned) is Some);
    assert(is_best_match(t, cleaned, kv.0));
    lemma_join_extends_root(kv.1, cleaned.skip(kv.0.len() as int));
    assert(t.contains_key(kv.0) && t[kv.0].is_prefix_of(h));
}

/// If two sandboxes resolve any guest paths to one host path, some grant of
/// the one shares a root-prefix relation with some grant of the other: every
/// resolved path extends one of its sandbox's granted host roots.
pub proof fn lemma_resolutions_share_root(
    a: Map<Seq<u8>, Seq<u8>>,
    b: Map<Seq<u8>, Seq<u8>>,
    p1: Seq<u8>,
    p2: Seq<u8>,
    h: Seq<u8>,
)
    requires
        resolve_spec(a, p1) == Some(h),
        resolve_spec(b, p2) == Some(h),
    ensures
        exists|ka: Seq<u8>, kb: Seq<u8>|
            #![trigger a.contains_key(ka), b.contains_key(kb)]
            a.contains_key(ka) && b.contains_key(kb) && (a[ka].is_prefix_of(b[kb])
                || b[kb].is_prefix_of(a[ka])),
{
    let cleaned1 = clean_spec(rooted(p1));
    let cleaned2 = clean_spec(rooted(p2));
    let kv1 = lookup_spec(a, cleaned1)->0;
    let kv2 = lookup_spec(b, cleaned2)->0;
    assert(lookup_spec(a, cleaned1) is Some);
    assert(lookup_spec(b, cleaned2) is Some);
    assert(is_best_match(a, cleaned1, kv1.0));
    assert(is_best_match(b, cleaned2, kv2.0));
    lemma_join_extends_root(kv1.1, cleaned1.skip(kv1.0.len() as int));
    lemma_join_extends_root(kv2.1, cleaned2.skip(kv2.0.len() as int));
    lemma_prefixes_comparable(kv1.1, kv2.1, h);
    assert(a.contains_key(kv1.0) && b.contains_key(kv2.0) && (a[kv1.0].is_prefix_of(b[kv2.0])
        || b[kv2.0].is_prefix_of(a[kv1.0])));
}

/// Isolation of concurrent requests: when no granted host root of one sandbox
/// is prefix-comparable with any granted host root of another, no guest path
/// in the one can reach a host file the other can reach.
pub proof fn lemma_disjoint_grants_isolated(
    a: Map<Seq<u8>, Seq<u8>>,
    b: Map<Seq<u8>, Seq<u8>>,
    p1: Seq<u8>,
    p2: Seq<u8>,
)
    requires
        forall|ka: Seq<u8>, kb: Seq<u8>|
            #![trigger a.contains_key(ka), b.contains_key(kb)]
            a.contains_key(ka) && b.contains_key(kb) ==> !a[ka].is_prefix_of(b[kb])
                && !b[kb].is_prefix_of(a[ka]),
        resolve_spec(a, p1) is Some,
    ensures
        resolve_spec(a, p1) != resolve_spec(b, p2),
{
    if resolve_spec(b, p2) is Some && resolve_spec(a, p1) == resolve_spec(b, p2) {
        let h = resolve_spec(a, p1)->0;
        lemma_resolutions_share_root(a, b, p1, p2, h);
    }
}

} // verus!
