//! The capability table: an append-only arena mapping opaque integer handles
//! to host-owned resources. Handles are scoped to one sandbox context and die
//! with it; nothing a guest holds outlives its request.

use vstd::prelude::*;

verus! {

/// A host resource a sandbox may be granted. The socket capability is
/// declared but intentionally unimplemented: every operation on it fails
/// loudly rather than returning plausible fake data.
#[derive(Clone, Copy, PartialEq, Eq, Structural, Debug)]
pub enum Resource {
    MonotonicClock,
    WallClock,
    Socket,
}

/// Handle-indexed storage for a sandbox's resources. Entries are only ever
/// appended, so a handle, once issued, stays valid for the life of the table
/// and always names the same resource.
pub struct Table {
    pub entries: Vec<Resource>,
}

impl View for Table {
    type V = Seq<Resource>;

    open spec fn view(&self) -> Seq<Resource> {
        self.entries@
    }
}

impl Table {
    /// An empty table; no handle is valid yet.
    pub fn new() -> (t: Table)
        ensures
            t@ == Seq::<Resource>::empty(),
    {
        Table { entries: Vec::new() }
    }

    /// Stores a resource and issues its handle. Existing handles keep their
    /// meaning: the table is append-only.
    pub fn push(&mut self, resource: Resource) -> (handle: u32)
        requires
            old(self)@.len() < u32::MAX,
        ensures
            final(self)@ == old(self)@.push(resource),
            handle == old(self)@.len(),
    {
        let handle = self.entries.len() as u32;
        self.entries.push(resource);
        handle
    }

    /// Looks a handle up; an unissued handle names nothing.
    pub fn get(&self, handle: u32) -> (r: Option<&Resource>)
        ensures
            match r {
                Some(resource) => handle < self@.len() && *resource == self@[handle as int],
                None => handle >= self@.len(),
            },
    {
        if (handle as usize) < self.entries.len() {
            Some(&self.entries[handle as usize])
        } else {
            None
        }
    }

    /// The number of issued handles.
    pub fn len(&self) -> (n: usize)
        ensures
            n == self@.len(),
    {
        self.entries.len()
    }
}

} // verus!
