//! The per-sandbox system surface: pre-registered clock capabilities, tagged
//! logging, cryptographically strong random bytes, and a declared but
//! intentionally unimplemented socket surface that fails loudly.

use rand::RngCore;
use vstd::prelude::*;

verus! {

use vstd::string::StringSliceAdditionalSpecFns;
use vstd::utf8::encode_utf8;
use crate::paths::push_bytes;
use crate::table::{Resource, Table};

/// The capability state handed to one component instantiation: the handle
/// table with the two default clocks already registered, and the logging tag
/// every log line is prefixed with.
pub struct WasiCtx {
    pub table: Table,
    pub default_monotonic: u32,
    pub default_wall: u32,
    pub logging_context: String,
}

/// The bytes of one log line: the logging tag in brackets, then the message.
pub open spec fn log_line_spec(tag: Seq<char>, message: Seq<u8>) -> Seq<u8> {
    "[".spec_bytes() + encode_utf8(tag) + "] ".spec_bytes() + message
}

/// Relies on `rand::rngs::ThreadRng`'s `RngCore::fill_bytes`: fills the whole
/// buffer from a cryptographically strong source. Nothing can be promised of
/// the bytes themselves, only of how many come back.
#[verifier::external_body]
fn fill_random(len: u32) -> (r: Vec<u8>)
    ensures
        r@.len() == len as nat,
{
    let mut buf = vec![0u8; len as usize];
    rand::thread_rng().fill_bytes(&mut buf);
    buf
}

impl Default for WasiCtx {
    /// A fresh capability context: the default monotonic and wall clocks are
    /// pre-registered at the first two handles, and the logging tag starts as
    /// the host's own.
    fn default() -> (ctx: WasiCtx)
        ensures
            ctx.table@ =~= seq![Resource::MonotonicClock, Resource::WallClock],
            ctx.default_monotonic == 0,
            ctx.default_wall == 1,
            ctx.logging_context@ == "I/O"@,
    {
        let mut table = Table::new();
        let default_monotonic = table.push(Resource::MonotonicClock);
        let default_wall = table.push(Resource::WallClock);
        WasiCtx { table, default_monotonic, default_wall, logging_context: String::from_str("I/O") }
    }
}

impl WasiCtx {
    /// Replaces the logging tag; the dispatcher sets it to the service name
    /// so every line a request logs is attributed to its service.
    pub fn set_context(&mut self, context: String)
        ensures
            final(self).logging_context == context,
            final(self).table == old(self).table,
            final(self).default_monotonic == old(self).default_monotonic,
            final(self).default_wall == old(self).default_wall,
    {
        self.logging_context = context;
    }

    /// Renders one log line, prefixed with the sandbox's logging tag.
    pub fn log_line(&self, message: &[u8]) -> (r: Vec<u8>)
        ensures
            r@ == log_line_spec(self.logging_context@, message@),
    {
        let mut out: Vec<u8> = Vec::new();
        push_bytes(&mut out, "[".as_bytes());
        push_bytes(&mut out, self.logging_context.as_str().as_bytes());
        push_bytes(&mut out, "] ".as_bytes());
        push_bytes(&mut out, message);
        proof {
            assert(out@ =~= log_line_spec(self.logging_context@, message@));
        }
        out
    }

    /// `len` bytes from a cryptographically strong random source.
    pub fn getrandom(&self, len: u32) -> (r: Vec<u8>)
        ensures
            r@.len() == len as nat,
    {
        fill_random(len)
    }

    /// Socket reads are declared but not supported: the call fails loudly.
    pub fn bytes_readable(&self, socket: u32) -> (r: Result<u64, String>)
        ensures
            r matches Err(m) && m@ == "not supported"@,
    {
        let _ = socket;
        Err(String::from_str("not supported"))
    }

    /// Socket writes are declared but not supported: the call fails loudly.
    pub fn bytes_writable(&self, socket: u32) -> (r: Result<u64, String>)
        ensures
            r matches Err(m) && m@ == "not supported"@,
    {
        let _ = socket;
        Err(String::from_str("not supported"))
    }

    /// Socket readiness subscription is declared but not supported.
    pub fn subscribe_read(&self, socket: u32) -> (r: Result<u32, String>)
        ensures
            r matches Err(m) && m@ == "not supported"@,
    {
        let _ = socket;
        Err(String::from_str("not supported"))
    }

    /// Socket readiness subscription is declared but not supported.
    pub fn subscribe_write(&self, socket: u32) -> (r: Result<u32, String>)
        ensures
            r matches Err(m) && m@ == "not supported"@,
    {
        let _ = socket;
        Err(String::from_str("not supported"))
    }
}

} // verus!
