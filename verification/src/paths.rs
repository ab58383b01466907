//! Lexical path handling for the sandbox: rooting, purely syntactic cleaning
//! of `.`/`..` segments and duplicate separators, and joining a remainder onto
//! a host root.
//!
//! Cleaning never touches the real filesystem and happens before any preopen
//! lookup, so a traversal sequence such as `/data/../etc` is resolved away
//! before the security check and can never escape a granted subtree.

use vstd::prelude::*;

verus! {

use vstd::seq_lib::*;
use vstd::slice::slice_to_vec;

pub const SLASH_BYTE: u8 = 47;

pub const DOT_BYTE: u8 = 46;

/// A path segment that names the current directory.
pub open spec fn is_dot(s: Seq<u8>) -> bool {
    s.len() == 1 && s[0] == DOT_BYTE
}

/// A path segment that names the parent directory.
pub open spec fn is_dotdot(s: Seq<u8>) -> bool {
    s.len() == 2 && s[0] == DOT_BYTE && s[1] == DOT_BYTE
}

/// Splits a byte string on `/`; `a//b` yields `["a", "", "b"]`.
pub open spec fn split_slash(s: Seq<u8>) -> Seq<Seq<u8>>
    decreases s.len(),
{
    if s.len() == 0 {
        seq![Seq::<u8>::empty()]
    } else if s[0] == SLASH_BYTE {
        seq![Seq::<u8>::empty()] + split_slash(s.skip(1))
    } else {
        let rest = split_slash(s.skip(1));
        rest.update(0, seq![s[0]] + rest[0])
    }
}

pub proof fn lemma_split_slash_nonempty(s: Seq<u8>)
    ensures
        split_slash(s).len() >= 1,
    decreases s.len(),
{
    if s.len() != 0 && s[0] != SLASH_BYTE {
        lemma_split_slash_nonempty(s.skip(1));
    }
}

/// Splitting consumes one separator-free segment at a time: if no byte before
/// `j` is a `/` and `j` is a `/` or the end, the first segment is `s.take(j)`.
pub proof fn lemma_split_slash_segment(s: Seq<u8>, j: int)
    requires
        0 <= j <= s.len(),
        forall|t: int| 0 <= t < j ==> s[t] != SLASH_BYTE,
        j < s.len() ==> s[j] == SLASH_BYTE,
    ensures
        j < s.len() ==> split_slash(s) =~= seq![s.take(j)] + split_slash(s.skip(j + 1)),
        j == s.len() ==> split_slash(s) =~= seq![s.take(j)],
    decreases j,
{
    if j == 0 {
        if s.len() == 0 {
            assert(s.take(0) =~= Seq::<u8>::empty());
            assert(s =~= Seq::<u8>::empty());
            assert(split_slash(s) =~= seq![s.take(0)]);
        } else {
            assert(s.take(0) =~= Seq::<u8>::empty());
            assert(split_slash(s) =~= seq![s.take(0)] + split_slash(s.skip(1)));
        }
    } else {
        let tail = s.skip(1);
        lemma_split_slash_segment(tail, j - 1);
        lemma_split_slash_nonempty(tail);
        let rest = split_slash(tail);
        assert(split_slash(s) == rest.update(0, seq![s[0]] + rest[0]));
        if j < s.len() {
            assert(rest =~= seq![tail.take(j - 1)] + split_slash(tail.skip(j)));
            assert(rest[0] == tail.take(j - 1));
            assert(seq![s[0]] + tail.take(j - 1) =~= s.take(j));
            assert(tail.skip(j) =~= s.skip(j + 1));
            assert(split_slash(s) =~= seq![s.take(j)] + split_slash(s.skip(j + 1)));
        } else {
            assert(rest =~= seq![tail.take(j - 1)]);
            assert(seq![s[0]] + tail.take(j - 1) =~= s.take(j));
            assert(split_slash(s) =~= seq![s.take(j)]);
        }
    }
}

/// One step of syntactic resolution: empty and `.` segments vanish, `..` pops
/// the last kept segment (or nothing at the root), anything else is kept.
pub open spec fn apply_segment(stack: Seq<Seq<u8>>, seg: Seq<u8>) -> Seq<Seq<u8>> {
    if seg.len() == 0 || is_dot(seg) {
        stack
    } else if is_dotdot(seg) {
        if stack.len() > 0 {
            stack.drop_last()
        } else {
            stack
        }
    } else {
        stack.push(seg)
    }
}

/// Resolves a segment list left to right.
pub open spec fn resolve_segments(segs: Seq<Seq<u8>>) -> Seq<Seq<u8>>
    decreases segs.len(),
{
    if segs.len() == 0 {
        Seq::empty()
    } else {
        apply_segment(resolve_segments(segs.drop_last()), segs.last())
    }
}

/// Reassembles resolved segments into an absolute path without duplicate or
/// trailing separators.
pub open spec fn assemble(stack: Seq<Seq<u8>>) -> Seq<u8>
    decreases stack.len(),
{
    if stack.len() == 0 {
        Seq::empty()
    } else {
        assemble(stack.drop_last()) + seq![SLASH_BYTE] + stack.last()
    }
}

/// The cleaned form of an absolute path: its segments split on `/`, resolved
/// syntactically, and reassembled; the bare root cleans to `/`.
pub open spec fn clean_spec(s: Seq<u8>) -> Seq<u8> {
    let stack = resolve_segments(split_slash(s.skip(1)));
    if stack.len() == 0 {
        seq![SLASH_BYTE]
    } else {
        assemble(stack)
    }
}

/// A guest path is rooted before anything else: one leading `/` is prepended
/// when missing.
pub open spec fn rooted(s: Seq<u8>) -> Seq<u8> {
    if s.len() > 0 && s[0] == SLASH_BYTE {
        s
    } else {
        seq![SLASH_BYTE] + s
    }
}

/// Joining a remainder onto a host root: an empty remainder is the root
/// itself; otherwise exactly one `/` separates the two.
pub open spec fn join_spec(root: Seq<u8>, rem: Seq<u8>) -> Seq<u8> {
    if rem.len() == 0 {
        root
    } else if rem[0] == SLASH_BYTE {
        root + rem
    } else {
        root + seq![SLASH_BYTE] + rem
    }
}

/// Appends a byte string onto a buffer.
pub fn push_bytes(out: &mut Vec<u8>, bytes: &[u8])
    ensures
        final(out)@ == old(out)@ + bytes@,
{
    let mut i: usize = 0;
    while i < bytes.len()
        invariant
            i <= bytes@.len(),
            out@ =~= old(out)@ + bytes@.take(i as int),
        decreases bytes@.len() - i,
    {
        out.push(bytes[i]);
        proof {
            assert(bytes@.take(i + 1) =~= bytes@.take(i as int).push(bytes@[i as int]));
        }
        i = i + 1;
    }
    proof {
        assert(old(out)@ + bytes@.take(bytes@.len() as int) =~= old(out)@ + bytes@);
    }
}

/// The views of a vector of segments.
pub open spec fn seg_views(segs: Seq<Vec<u8>>) -> Seq<Seq<u8>> {
    segs.map_values(|v: Vec<u8>| v@)
}

/// Roots a guest path: prepends `/` when it is absent.
pub fn root_path(path: &[u8]) -> (r: Vec<u8>)
    ensures
        r@ == rooted(path@),
{
    if path.len() > 0 && path[0] == SLASH_BYTE {
        slice_to_vec(path)
    } else {
        let mut v: Vec<u8> = Vec::new();
        v.push(SLASH_BYTE);
        proof {
            assert(v@ =~= seq![SLASH_BYTE]);
        }
        push_bytes(&mut v, path);
        v
    }
}

/// Cleans an absolute path syntactically: duplicate separators and `.`
/// segments vanish and `..` segments are resolved, all without consulting the
/// filesystem.
pub fn clean_path(path: &[u8]) -> (r: Vec<u8>)
    requires
        path@.len() > 0,
        path@[0] == SLASH_BYTE,
    ensures
        r@ == clean_spec(path@),
{
    let n = path.len();
    let ghost input = path@.skip(1);

    // Split the path into its `/`-separated segments.
    let mut segs: Vec<Vec<u8>> = Vec::new();
    let mut start: usize = 1;
    loop
        invariant_except_break
            1 <= start <= n,
            n == path@.len(),
            split_slash(input) =~= seg_views(segs@) + split_slash(path@.skip(start as int)),
        ensures
            seg_views(segs@) =~= split_slash(input),
        decreases n - start,
    {
        let mut j = start;
        while j < n && path[j] != SLASH_BYTE
            invariant
                start <= j <= n,
                n == path@.len(),
                forall|t: int| start <= t < j ==> path@[t] != SLASH_BYTE,
            decreases n - j,
        {
            j = j + 1;
        }
        let seg = slice_to_vec(&path[start..j]);
        proof {
            let tail = path@.skip(start as int);
            lemma_split_slash_segment(tail, j - start);
            assert(tail.take(j - start) =~= path@.subrange(start as int, j as int));
            assert(seg_views(segs@.push(seg)) =~= seg_views(segs@).push(seg@));
        }
        segs.push(seg);
        if j == n {
            proof {
                assert(seg_views(segs@) =~= split_slash(input));
            }
            break ;
        }
        proof {
            let tail = path@.skip(start as int);
            assert(tail.skip(j - start + 1) =~= path@.skip(j + 1));
            assert(seg_views(segs@) + split_slash(path@.skip(j + 1)) =~= split_slash(input));
        }
        start = j + 1;
    }

    // Resolve the segments left to right against a stack.
    let ghost all_segs = seg_views(segs@);
    let mut stack: Vec<Vec<u8>> = Vec::new();
    let mut i: usize = 0;
    while i < segs.len()
        invariant
            i <= segs@.len(),
            all_segs == seg_views(segs@),
            seg_views(stack@) =~= resolve_segments(all_segs.take(i as int)),
        decreases segs@.len() - i,
    {
        let seg = &segs[i];
        proof {
            assert(all_segs.take(i + 1).drop_last() =~= all_segs.take(i as int));
            assert(all_segs.take(i + 1).last() == seg@);
        }
        if seg.len() == 0 {
            // an empty segment (duplicate or trailing separator) vanishes
        } else if seg.len() == 1 && seg[0] == DOT_BYTE {
            // `.` vanishes
        } else if seg.len() == 2 && seg[0] == DOT_BYTE && seg[1] == DOT_BYTE {
            if stack.len() > 0 {
                stack.pop();
            }
        } else {
            let kept = slice_to_vec(seg.as_slice());
            proof {
                assert(seg_views(stack@.push(kept)) =~= seg_views(stack@).push(kept@));
            }
            stack.push(kept);
        }
        i = i + 1;
    }
    proof {
        assert(all_segs.take(all_segs.len() as int) =~= all_segs);
        assert(seg_views(stack@) =~= resolve_segments(split_slash(input)));
    }

    // Reassemble the resolved segments.
    if stack.len() == 0 {
        let mut out: Vec<u8> = Vec::new();
        out.push(SLASH_BYTE);
        proof {
            assert(out@ =~= seq![SLASH_BYTE]);
        }
        out
    } else {
        let ghost resolved = seg_views(stack@);
        let mut out: Vec<u8> = Vec::new();
        let mut k: usize = 0;
        while k < stack.len()
            invariant
                k <= stack@.len(),
                resolved == seg_views(stack@),
                out@ =~= assemble(resolved.take(k as int)),
            decreases stack@.len() - k,
        {
            proof {
                assert(resolved.take(k + 1).drop_last() =~= resolved.take(k as int));
                assert(resolved.take(k + 1).last() == stack@[k as int]@);
            }
            out.push(SLASH_BYTE);
            push_bytes(&mut out, stack[k].as_slice());
            proof {
                assert(out@ =~= assemble(resolved.take(k as int)) + seq![SLASH_BYTE]
                    + stack@[k as int]@);
            }
            k = k + 1;
        }
        proof {
            assert(resolved.take(resolved.len() as int) =~= resolved);
        }
        out
    }
}

/// Joins the remainder of a matched guest path onto the granted host root.
pub fn join_paths(root: &[u8], remainder: &[u8]) -> (r: Vec<u8>)
    ensures
        r@ == join_spec(root@, remainder@),
{
    let mut out = slice_to_vec(root);
    if remainder.len() == 0 {
        return out;
    }
    if remainder[0] != SLASH_BYTE {
        out.push(SLASH_BYTE);
        proof {
            assert(out@ =~= root@ + seq![SLASH_BYTE]);
        }
    }
    push_bytes(&mut out, remainder);
    proof {
        if remainder@[0] != SLASH_BYTE {
            assert((root@ + seq![SLASH_BYTE]) + remainder@ =~= root@ + seq![SLASH_BYTE]
                + remainder@);
        }
    }
    out
}

} // verus!
