//! Services and the boot-time registry. A service is assembled once at boot
//! from its directory's descriptor and its compiled component, and is never
//! mutated afterwards; a directory that fails to load is skipped and reported
//! without aborting boot.

use vstd::prelude::*;

verus! {

use vstd::seq_lib::*;
use vstd::string::StringSliceAdditionalSpecFns;
use vstd::utf8::encode_utf8;
use crate::ctx::RequestCtx;
use crate::paths::{join_spec, join_paths, push_bytes, SLASH_BYTE};
use crate::table::Resource;

/// One filesystem grant of a service descriptor: `path` is the source,
/// relative to the service directory; `target` is the container-visible path
/// the grant is mounted under.
#[derive(Debug)]
pub struct FilesystemEntry {
    pub path: Vec<u8>,
    pub target: Vec<u8>,
}

/// A parsed service descriptor: the service's name, the compiled module's
/// path relative to the service directory, and the filesystem grants.
#[derive(Debug)]
pub struct ServiceConfig {
    pub name: String,
    pub wasm: Vec<u8>,
    pub filesystem: Vec<FilesystemEntry>,
}

/// An opaque reference to a component compiled against the execution
/// substrate. Compilation is expensive and happens once at boot; the handle
/// is shared read-only by every request that dispatches to the service.
#[derive(Clone, Copy, PartialEq, Eq, Structural, Debug)]
pub struct ComponentHandle {
    pub id: u64,
}

/// A loaded service: its compiled component, its name, its owning directory,
/// and its descriptor. Created during the boot scan, never mutated.
pub struct Service {
    pub component: ComponentHandle,
    pub name: String,
    pub directory: Vec<u8>,
    pub config: ServiceConfig,
}

/// Why a service directory failed to load. Boot is partial-failure tolerant:
/// any of these skips the directory and boot goes on.
#[derive(Clone, Copy, PartialEq, Eq, Structural, Debug)]
pub enum LoadError {
    /// The directory has no service descriptor file.
    MissingDescriptor,
    /// The descriptor file does not parse into a `ServiceConfig`.
    BadSchema,
    /// The referenced module failed to compile against the substrate.
    CompileError,
}

impl LoadError {
    pub open spec fn message_spec(self) -> Seq<char> {
        match self {
            LoadError::MissingDescriptor => "Service file not found"@,
            LoadError::BadSchema => "Invalid service descriptor"@,
            LoadError::CompileError => "Component failed to compile"@,
        }
    }

    /// The error text reported for the skipped directory.
    pub fn message(&self) -> (s: String)
        ensures
            s@ == self.message_spec(),
    {
        match self {
            LoadError::MissingDescriptor => String::from_str("Service file not found"),
            LoadError::BadSchema => String::from_str("Invalid service descriptor"),
            LoadError::CompileError => String::from_str("Component failed to compile"),
        }
    }
}

/// A boot failure, attributed to the directory that caused it.
pub struct LoadFailure {
    pub directory: Vec<u8>,
    pub error: LoadError,
}

/// The bytes of the log line reported for one skipped directory.
pub open spec fn load_failure_line_spec(directory: Seq<u8>, error: LoadError) -> Seq<u8> {
    "Error loading service in ".spec_bytes() + directory + ": ".spec_bytes() + encode_utf8(
        error.message_spec(),
    )
}

impl LoadFailure {
    /// Renders the log line for this skipped directory.
    pub fn log_line(&self) -> (r: Vec<u8>)
        ensures
            r@ == load_failure_line_spec(self.directory@, self.error),
    {
        let mut out: Vec<u8> = Vec::new();
        push_bytes(&mut out, "Error loading service in ".as_bytes());
        push_bytes(&mut out, self.directory.as_slice());
        push_bytes(&mut out, ": ".as_bytes());
        let message = self.error.message();
        push_bytes(&mut out, message.as_str().as_bytes());
        proof {
            assert(out@ =~= load_failure_line_spec(self.directory@, self.error));
        }
        out
    }
}

/// How a grant source is located: relative sources live under the service
/// directory; an absolute source stands on its own.
pub open spec fn source_path_spec(directory: Seq<u8>, source: Seq<u8>) -> Seq<u8> {
    if source.len() > 0 && source[0] == SLASH_BYTE {
        source
    } else {
        join_spec(directory, source)
    }
}

/// A grant whose source has been canonicalized against the real filesystem:
/// the container-visible target and the canonical host path it grants.
pub struct ResolvedGrant {
    pub target: Vec<u8>,
    pub host_path: Vec<u8>,
}

/// The preopened-directory table a grant list produces, in order: a later
/// grant with an equal target replaces the earlier one.
pub open spec fn preopens_of(grants: Seq<ResolvedGrant>) -> Map<Seq<u8>, Seq<u8>>
    decreases grants.len(),
{
    if grants.len() == 0 {
        Map::empty()
    } else {
        preopens_of(grants.drop_last()).insert(grants.last().target@, grants.last().host_path@)
    }
}

impl Service {
    /// Assembles a loaded service from its directory, its parsed descriptor
    /// and its compiled component.
    pub fn assemble(directory: Vec<u8>, config: ServiceConfig, component: ComponentHandle) -> (s:
        Service)
        ensures
            s.name@ == config.name@,
            s.directory == directory,
            s.config == config,
            s.component == component,
    {
        let name = config.name.clone();
        Service { component, name, directory, config }
    }

    /// The host path a grant's source names, before canonicalization: the
    /// source joined under the service's directory.
    pub fn grant_source(&self, entry: &FilesystemEntry) -> (r: Vec<u8>)
        ensures
            r@ == source_path_spec(self.directory@, entry.path@),
    {
        if entry.path.len() > 0 && entry.path[0] == SLASH_BYTE {
            let mut out: Vec<u8> = Vec::new();
            push_bytes(&mut out, entry.path.as_slice());
            proof {
                assert(out@ =~= entry.path@);
            }
            out
        } else {
            join_paths(self.directory.as_slice(), entry.path.as_slice())
        }
    }

    /// Builds the fresh sandbox context one request runs against: every
    /// resolved grant preopened under its target, the default clocks
    /// registered, and the logging tag set to this service's name. Nothing of
    /// the context is shared with any other request.
    pub fn construct_ctx(&self, grants: &Vec<ResolvedGrant>) -> (ctx: RequestCtx)
        ensures
            ctx.preopens() == preopens_of(grants@),
            ctx.wasi.logging_context@ == self.name@,
            ctx.wasi.table@ =~= seq![Resource::MonotonicClock, Resource::WallClock],
            ctx.wasi.default_monotonic == 0,
            ctx.wasi.default_wall == 1,
    {
        let mut ctx = RequestCtx::new();
        let mut i: usize = 0;
        while i < grants.len()
            invariant
                i <= grants@.len(),
                ctx.preopens() == preopens_of(grants@.take(i as int)),
                ctx.wasi.table@ =~= seq![Resource::MonotonicClock, Resource::WallClock],
                ctx.wasi.default_monotonic == 0,
                ctx.wasi.default_wall == 1,
            decreases grants@.len() - i,
        {
            let grant = &grants[i];
            let mut host_path: Vec<u8> = Vec::new();
            push_bytes(&mut host_path, grant.host_path.as_slice());
            proof {
                assert(host_path@ =~= grant.host_path@);
                assert(grants@.take(i + 1).drop_last() =~= grants@.take(i as int));
            }
            ctx.preopen_dir(grant.target.as_slice(), host_path);
            i = i + 1;
        }
        proof {
            assert(grants@.take(grants@.len() as int) =~= grants@);
        }
        ctx.wasi.set_context(self.name.clone());
        ctx
    }
}

/// The services of a boot scan that loaded, in scan order.
pub open spec fn loaded_services(outcomes: Seq<Result<Service, LoadFailure>>) -> Seq<Service>
    decreases outcomes.len(),
{
    if outcomes.len() == 0 {
        Seq::empty()
    } else {
        let rest = loaded_services(outcomes.drop_last());
        match outcomes.last() {
            Ok(s) => rest.push(s),
            Err(_) => rest,
        }
    }
}

/// The failures of a boot scan, in scan order.
pub open spec fn failed_loads(outcomes: Seq<Result<Service, LoadFailure>>) -> Seq<LoadFailure>
    decreases outcomes.len(),
{
    if outcomes.len() == 0 {
        Seq::empty()
    } else {
        let rest = failed_loads(outcomes.drop_last());
        match outcomes.last() {
            Ok(_) => rest,
            Err(f) => rest.push(f),
        }
    }
}

/// The service a routed name refers to: the most recently registered service
/// with that name.
pub open spec fn find_service(services: Seq<Service>, name: Seq<char>) -> Option<Service>
    decreases services.len(),
{
    if services.len() == 0 {
        None
    } else if services.last().name@ == name {
        Some(services.last())
    } else {
        find_service(services.drop_last(), name)
    }
}

/// The scan outcome of one failing directory.
pub open spec fn failed_outcome(f: LoadFailure) -> Result<Service, LoadFailure> {
    Err(f)
}

/// The services loaded at boot, immutable and shared read-only by every
/// request after boot completes.
pub struct Registry {
    pub services: Vec<Service>,
}

impl Registry {
    /// The boot policy: every directory that loaded is registered, every
    /// failing directory is skipped and reported, and no failure aborts boot.
    pub fn build(outcomes: Vec<Result<Service, LoadFailure>>) -> (r: (Registry, Vec<LoadFailure>))
        ensures
            r.0.services@ == loaded_services(outcomes@),
            r.1@ == failed_loads(outcomes@),
    {
        let ghost orig = outcomes@;
        let mut rest = outcomes;
        let mut services: Vec<Service> = Vec::new();
        let mut failures: Vec<LoadFailure> = Vec::new();
        proof {
            assert(orig.take(0) =~= Seq::empty());
            assert(orig.skip(0) =~= rest@);
        }
        while rest.len() > 0
            invariant
                rest@.len() <= orig.len(),
                orig.skip(orig.len() - rest@.len()) == rest@,
                services@ == loaded_services(orig.take(orig.len() - rest@.len())),
                failures@ == failed_loads(orig.take(orig.len() - rest@.len())),
            decreases rest@.len(),
        {
            let ghost k = orig.len() - rest@.len();
            let outcome = rest.remove(0);
            proof {
                assert(orig.skip(k as int)[0] == orig[k as int]);
                assert(outcome == orig[k as int]);
                assert(rest@ =~= orig.skip(k as int).skip(1));
                assert(rest@ =~= orig.skip(k + 1));
                assert(orig.take(k + 1).drop_last() =~= orig.take(k as int));
                assert(orig.take(k + 1).last() == orig[k as int]);
            }
            match outcome {
                Ok(service) => {
                    services.push(service);
                },
                Err(failure) => {
                    failures.push(failure);
                },
            }
        }
        proof {
            assert(orig.take(orig.len() as int) =~= orig);
        }
        (Registry { services }, failures)
    }

    /// Looks a routed name up; the most recently registered service with that
    /// name wins, as a later registration replaces an earlier one.
    pub fn get(&self, name: &String) -> (r: Option<&Service>)
        ensures
            match r {
                Some(s) => find_service(self.services@, name@) == Some(*s),
                None => find_service(self.services@, name@) is None,
            },
    {
        let ghost all = self.services@;
        let mut i: usize = self.services.len();
        proof {
            assert(all.take(all.len() as int) =~= all);
        }
        while i > 0
            invariant
                i <= all.len(),
                all == self.services@,
                find_service(all, name@) == find_service(all.take(i as int), name@),
            decreases i,
        {
            proof {
                assert(all.take(i as int).drop_last() =~= all.take(i - 1));
                assert(all.take(i as int).last() == all[i - 1]);
            }
            let candidate = &self.services[i - 1];
            if candidate.name == *name {
                return Some(candidate);
            }
            i = i - 1;
        }
        proof {
            assert(all.take(0) =~= Seq::<Service>::empty());
        }
        None
    }
}

/// Concatenated scans register the concatenation of what each registers.
pub proof fn lemma_loaded_services_concat(
    s1: Seq<Result<Service, LoadFailure>>,
    s2: Seq<Result<Service, LoadFailure>>,
)
    ensures
        loaded_services(s1 + s2) == loaded_services(s1) + loaded_services(s2),
        failed_loads(s1 + s2) == failed_loads(s1) + failed_loads(s2),
    decreases s2.len(),
{
    if s2.len() == 0 {
        assert(s1 + s2 =~= s1);
        assert(loaded_services(s1) + loaded_services(s2) =~= loaded_services(s1));
        assert(failed_loads(s1) + failed_loads(s2) =~= failed_loads(s1));
    } else {
        lemma_loaded_services_concat(s1, s2.drop_last());
        assert((s1 + s2).drop_last() =~= s1 + s2.drop_last());
        assert((s1 + s2).last() == s2.last());
        match s2.last() {
            Ok(s) => {
                assert(loaded_services(s1 + s2) == (loaded_services(s1) + loaded_services(
                    s2.drop_last(),
                )).push(s));
                assert((loaded_services(s1) + loaded_services(s2.drop_last())).push(s)
                    =~= loaded_services(s1) + loaded_services(s2.drop_last()).push(s));
                assert(failed_loads(s1 + s2) == failed_loads(s1) + failed_loads(s2.drop_last()));
            },
            Err(f) => {
                assert(loaded_services(s1 + s2) == loaded_services(s1) + loaded_services(
                    s2.drop_last(),
                ));
                assert((failed_loads(s1) + failed_loads(s2.drop_last())).push(f) =~= failed_loads(
                    s1,
                ) + failed_loads(s2.drop_last()).push(f));
            },
        }
    }
}

/// Boot partial-failure containment: a directory that fails to load changes
/// nothing of which sibling services are registered — the registry built with
/// the failure spliced anywhere into the scan equals the registry built
/// without it — and the failure itself is reported exactly once, in place.
pub proof fn lemma_failed_load_skipped(
    pre: Seq<Result<Service, LoadFailure>>,
    f: LoadFailure,
    post: Seq<Result<Service, LoadFailure>>,
)
    ensures
        loaded_services(pre + seq![failed_outcome(f)] + post) == loaded_services(pre + post),
        failed_loads(pre + seq![failed_outcome(f)] + post) == failed_loads(pre) + seq![f]
            + failed_loads(post),
{
    lemma_loaded_services_concat(pre, seq![failed_outcome(f)]);
    lemma_loaded_services_concat(pre + seq![failed_outcome(f)], post);
    lemma_loaded_services_concat(pre, post);
    let single = seq![failed_outcome(f)];
    assert(single.drop_last() =~= Seq::<Result<Service, LoadFailure>>::empty());
    assert(loaded_services(single.drop_last()) =~= Seq::<Service>::empty());
    assert(failed_loads(single.drop_last()) =~= Seq::<LoadFailure>::empty());
    assert(single.last() == failed_outcome(f));
    assert(loaded_services(single) =~= Seq::<Service>::empty());
    assert(failed_loads(single) =~= seq![f]);
    assert(loaded_services(pre) + Seq::<Service>::empty() =~= loaded_services(pre));
}

} // verus!
